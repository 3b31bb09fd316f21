use crate::args::UploadArgs;
use crate::cache::{Cache, CacheItem, ItemView};
use crate::detect::DataType;
use crate::error::UploadError;
use vstd::prelude::*;

verus! {

/// One file handed to the storage backend.
pub struct UploadTask {
    pub asset_id: usize,
    pub file_path: String,
    pub media_link: String,
    pub data_type: DataType,
    pub content_type: String,
}

/// The item once a link for the given role has been recorded.
pub open spec fn with_link(i: ItemView, role: DataType, link: Seq<char>) -> ItemView {
    match role {
        DataType::Image => ItemView { image_link: link, ..i },
        DataType::Animation => ItemView { animation_link: Some(link), ..i },
        DataType::Metadata => ItemView { metadata_link: link, ..i },
    }
}

/// The message recorded when a batch stopped with tasks never dispatched.
pub open spec fn not_all_uploaded() -> Seq<char> {
    "Not all files were uploaded."@
}

/// Drives one batch of uploads through a sliding window of at most `limit`
/// operations in flight. Tasks `0..next` have been dispatched; `finished` of
/// them have completed; `failures` holds the message of each failed one.
pub struct UploadScheduler {
    pub limit: usize,
    pub data_type: DataType,
    pub tasks: Vec<UploadTask>,
    pub next: usize,
    pub in_flight: usize,
    pub finished: usize,
    pub uploaded: usize,
    pub failures: Vec<String>,
}

impl UploadScheduler {
    /// The bookkeeping is consistent and the window is never exceeded.
    pub open spec fn wf(&self) -> bool {
        &&& 1 <= self.limit
        &&& self.next <= self.tasks.len()
        &&& self.in_flight <= self.limit
        &&& self.finished + self.in_flight == self.next
        &&& self.uploaded + self.failures.len() <= self.finished
    }

    /// A scheduler for a batch, with nothing dispatched yet.
    pub fn new(tasks: Vec<UploadTask>, data_type: DataType, limit: usize) -> (r: Self)
        requires
            1 <= limit,
        ensures
            r.wf(),
            r.tasks == tasks,
            r.data_type == data_type,
            r.limit == limit,
            r.next == 0,
            r.in_flight == 0,
            r.finished == 0,
            r.uploaded == 0,
            r.failures@.len() == 0,
    {
        UploadScheduler {
            limit,
            data_type,
            tasks,
            next: 0,
            in_flight: 0,
            finished: 0,
            uploaded: 0,
            failures: Vec::new(),
        }
    }

    /// Dispatches the first window: returns the range of tasks to send.
    pub fn start(&mut self) -> (r: (usize, usize))
        requires
            old(self).wf(),
            old(self).next == 0,
        ensures
            final(self).wf(),
            r.0 == 0,
            r.1 == if old(self).tasks.len() < old(self).limit {
                old(self).tasks.len()
            } else {
                old(self).limit
            },
            final(self).next == r.1,
            final(self).in_flight == r.1,
            final(self).tasks == old(self).tasks,
            final(self).limit == old(self).limit,
            final(self).data_type == old(self).data_type,
            final(self).finished == 0,
            final(self).uploaded == 0,
            final(self).failures == old(self).failures,
    {
        let n = if self.tasks.len() < self.limit {
            self.tasks.len()
        } else {
            self.limit
        };
        self.next = n;
        self.in_flight = n;
        (0, n)
    }

    /// Whether to wait for another completion: the run was not interrupted
    /// and some operation is still in flight.
    pub fn keep_waiting(&self, interrupted: bool) -> (r: bool)
        ensures
            r == (!interrupted && self.in_flight > 0),
    {
        !interrupted && self.in_flight > 0
    }

    /// Polls the interruption flag at the top of an iteration: whether to
    /// wait for another completion. Never waits with nothing in flight.
    pub fn poll(&self, args: &UploadArgs) -> (r: bool)
        ensures
            r ==> self.in_flight > 0,
            self.in_flight == 0 ==> !r,
    {
        let interrupted = args.is_interrupted();
        self.keep_waiting(interrupted)
    }

    /// Records the outcome of one dispatched task: on success its link is
    /// stored in the task's cache item, on failure its message is kept.
    pub fn complete(
        &mut self,
        cache: &mut Cache,
        task: usize,
        outcome: Result<String, String>,
    ) -> (r: Result<(), UploadError>)
        requires
            old(self).wf(),
            old(self).in_flight > 0,
            task < old(self).next,
        ensures
            final(self).wf(),
            final(self).in_flight == old(self).in_flight - 1,
            final(self).finished == old(self).finished + 1,
            final(self).next == old(self).next,
            final(self).tasks == old(self).tasks,
            final(self).limit == old(self).limit,
            final(self).data_type == old(self).data_type,
            final(cache).program == old(cache).program,
            match outcome {
                Ok(link) => {
                    let id = old(self).tasks@[task as int].asset_id;
                    &&& final(self).failures == old(self).failures
                    &&& if old(cache)@.contains_key(id) {
                        &&& r is Ok
                        &&& final(self).uploaded == old(self).uploaded + 1
                        &&& final(cache)@ == old(cache)@.insert(
                            id,
                            with_link(old(cache)@[id], old(self).data_type, link@),
                        )
                    } else {
                        &&& r == Err::<(), UploadError>(UploadError::MissingCacheEntry(id))
                        &&& final(self).uploaded == old(self).uploaded
                        &&& final(cache)@ == old(cache)@
                    }
                },
                Err(msg) => {
                    &&& r is Ok
                    &&& final(self).uploaded == old(self).uploaded
                    &&& final(self).failures@ == old(self).failures@.push(msg)
                    &&& final(cache)@ == old(cache)@
                },
            },
    {
        self.in_flight = self.in_flight - 1;
        self.finished = self.finished + 1;
        match outcome {
            Ok(link) => {
                let id = self.tasks[task].asset_id;
                let next_item = match cache.get(id) {
                    Some(item) => {
                        let mut it: CacheItem = item.copy();
                        match self.data_type {
                            DataType::Image => it.image_link = link,
                            DataType::Animation => it.animation_link = Some(link),
                            DataType::Metadata => it.metadata_link = link,
                        }
                        Some(it)
                    },
                    None => None,
                };
                match next_item {
                    Some(it) => {
                        proof {
                            assert(it@ == with_link(old(cache)@[id], self.data_type, link@));
                        }
                        cache.upsert(id, it);
                        self.uploaded = self.uploaded + 1;
                        Ok(())
                    },
                    None => Err(UploadError::MissingCacheEntry(id)),
                }
            },
            Err(msg) => {
                self.failures.push(msg);
                Ok(())
            },
        }
    }

    /// After a completion: when tasks remain queued and more than half of
    /// the window is free, returns the range of up to half a window of tasks
    /// to dispatch next. The caller checkpoints the cache before sending them.
    pub fn replenish(&mut self) -> (r: Option<(usize, usize)>)
        requires
            old(self).wf(),
        ensures
            final(self).wf(),
            final(self).tasks == old(self).tasks,
            final(self).limit == old(self).limit,
            final(self).data_type == old(self).data_type,
            final(self).finished == old(self).finished,
            final(self).uploaded == old(self).uploaded,
            final(self).failures == old(self).failures,
            if old(self).next < old(self).tasks.len() && old(self).limit - old(self).in_flight
                > old(self).limit / 2 {
                let k = if old(self).tasks.len() - old(self).next < old(self).limit / 2 {
                    old(self).tasks.len() - old(self).next
                } else {
                    (old(self).limit / 2) as int
                };
                &&& r == Some((old(self).next, (old(self).next + k) as usize))
                &&& final(self).next == old(self).next + k
                &&& final(self).in_flight == old(self).in_flight + k
            } else {
                &&& r is None
                &&& final(self).next == old(self).next
                &&& final(self).in_flight == old(self).in_flight
            },
    {
        if self.next < self.tasks.len() && self.limit - self.in_flight > self.limit / 2 {
            let remaining = self.tasks.len() - self.next;
            let half = self.limit / 2;
            let k = if remaining < half {
                remaining
            } else {
                half
            };
            let from = self.next;
            self.next = self.next + k;
            self.in_flight = self.in_flight + k;
            Some((from, self.next))
        } else {
            None
        }
    }

    /// The number of tasks of the batch that have not completed.
    pub fn pending(&self) -> (r: usize)
        requires
            self.wf(),
        ensures
            r == self.tasks.len() - self.finished,
    {
        self.tasks.len() - self.finished
    }

    /// Whether tasks remain that were never dispatched.
    pub fn abandoned(&self) -> (r: bool)
        ensures
            r == (self.next < self.tasks.len()),
    {
        self.next < self.tasks.len()
    }

    /// The messages of the batch once its loop has ended: one per failed
    /// task, then one more when tasks were never dispatched.
    pub fn finish(&self) -> (r: Vec<String>)
        ensures
            r@.len() == self.failures@.len() + if self.next < self.tasks.len() {
                1int
            } else {
                0int
            },
            forall|i: int| 0 <= i < self.failures@.len() ==> r@[i] == self.failures@[i],
            self.next < self.tasks.len() ==> r@.last()@ == not_all_uploaded(),
    {
        let mut r: Vec<String> = Vec::new();
        let mut i: usize = 0;
        while i < self.failures.len()
            invariant
                i <= self.failures@.len(),
                r@ == self.failures@.take(i as int),
            decreases self.failures@.len() - i,
        {
            r.push(self.failures[i].clone());
            proof {
                assert(r@ =~= self.failures@.take(i + 1));
            }
            i = i + 1;
        }
        if self.next < self.tasks.len() {
            let m = String::from_str("Not all files were uploaded.");
            proof {
                reveal_strlit("Not all files were uploaded.");
            }
            r.push(m);
        }
        r
    }
}

/// Every state the scheduler passes through holds at most `limit`
/// operations in flight.
pub proof fn lemma_bounded_concurrency(s: UploadScheduler)
    requires
        s.wf(),
    ensures
        s.in_flight <= s.limit,
{
}

} // verus!
