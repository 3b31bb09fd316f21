use std::collections::HashMap;
use vstd::prelude::*;

verus! {

broadcast use vstd::std_specs::hash::group_hash_axioms;

/// Abstract value of an optional string.
pub open spec fn opt_view(o: Option<String>) -> Option<Seq<char>> {
    match o {
        Some(s) => Some(s@),
        None => None,
    }
}

/// Copies an optional string, keeping its value.
pub fn copy_opt(o: &Option<String>) -> (r: Option<String>)
    ensures
        r == *o,
{
    match o {
        Some(s) => Some(s.clone()),
        None => None,
    }
}

/// Whether an optional string is present and empty.
pub open spec fn is_empty_slot(o: Option<Seq<char>>) -> bool {
    o is Some && o->Some_0.len() == 0
}

/// One logical asset of a run: its files and their content fingerprints.
pub struct AssetPair {
    pub index: usize,
    pub image: String,
    pub image_hash: String,
    pub metadata: String,
    pub metadata_hash: String,
    pub animation: Option<String>,
    pub animation_hash: Option<String>,
}

/// Abstract value of an asset.
pub struct AssetView {
    pub index: usize,
    pub image: Seq<char>,
    pub image_hash: Seq<char>,
    pub metadata: Seq<char>,
    pub metadata_hash: Seq<char>,
    pub animation: Option<Seq<char>>,
    pub animation_hash: Option<Seq<char>>,
}

impl View for AssetPair {
    type V = AssetView;

    open spec fn view(&self) -> AssetView {
        AssetView {
            index: self.index,
            image: self.image@,
            image_hash: self.image_hash@,
            metadata: self.metadata@,
            metadata_hash: self.metadata_hash@,
            animation: opt_view(self.animation),
            animation_hash: opt_view(self.animation_hash),
        }
    }
}

/// The persisted upload state of one asset.
pub struct CacheItem {
    pub image_hash: String,
    pub image_link: String,
    pub metadata_hash: String,
    pub metadata_link: String,
    pub animation_hash: Option<String>,
    pub animation_link: Option<String>,
    pub on_chain: bool,
}

/// Abstract value of a cache item.
pub struct ItemView {
    pub image_hash: Seq<char>,
    pub image_link: Seq<char>,
    pub metadata_hash: Seq<char>,
    pub metadata_link: Seq<char>,
    pub animation_hash: Option<Seq<char>>,
    pub animation_link: Option<Seq<char>>,
    pub on_chain: bool,
}

impl View for CacheItem {
    type V = ItemView;

    open spec fn view(&self) -> ItemView {
        ItemView {
            image_hash: self.image_hash@,
            image_link: self.image_link@,
            metadata_hash: self.metadata_hash@,
            metadata_link: self.metadata_link@,
            animation_hash: opt_view(self.animation_hash),
            animation_link: opt_view(self.animation_link),
            on_chain: self.on_chain,
        }
    }
}

/// The item recorded for an asset that is about to be uploaded afresh:
/// current fingerprints, empty links, and an animation slot exactly when the
/// asset has an animation fingerprint.
pub open spec fn fresh_item(a: AssetView) -> ItemView {
    ItemView {
        image_hash: a.image_hash,
        image_link: Seq::empty(),
        metadata_hash: a.metadata_hash,
        metadata_link: Seq::empty(),
        animation_hash: a.animation_hash,
        animation_link: if a.animation_hash is Some {
            Some(Seq::empty())
        } else {
            None
        },
        on_chain: false,
    }
}

/// Whether every link that an item has is filled in.
pub open spec fn item_complete(i: ItemView) -> bool {
    i.image_link.len() > 0 && i.metadata_link.len() > 0 && !is_empty_slot(i.animation_link)
}

impl AssetPair {
    /// The fresh cache item for this asset.
    pub fn into_cache_item(&self) -> (r: CacheItem)
        ensures
            r@ == fresh_item(self@),
    {
        let animation_link = match &self.animation_hash {
            Some(_) => Some(String::new()),
            None => None,
        };
        CacheItem {
            image_hash: self.image_hash.clone(),
            image_link: String::new(),
            metadata_hash: self.metadata_hash.clone(),
            metadata_link: String::new(),
            animation_hash: copy_opt(&self.animation_hash),
            animation_link,
            on_chain: false,
        }
    }
}

impl CacheItem {
    /// A copy of this item.
    pub fn copy(&self) -> (r: CacheItem)
        ensures
            r == *self,
    {
        CacheItem {
            image_hash: self.image_hash.clone(),
            image_link: self.image_link.clone(),
            metadata_hash: self.metadata_hash.clone(),
            metadata_link: self.metadata_link.clone(),
            animation_hash: copy_opt(&self.animation_hash),
            animation_link: copy_opt(&self.animation_link),
            on_chain: self.on_chain,
        }
    }

    /// Whether the image, the metadata and (where the item has one) the
    /// animation all have a link.
    pub fn is_complete(&self) -> (r: bool)
        ensures
            r == item_complete(self@),
    {
        let animation_missing = match &self.animation_link {
            Some(l) => l.as_str().is_empty(),
            None => false,
        };
        !self.image_link.as_str().is_empty() && !self.metadata_link.as_str().is_empty() && !animation_missing
    }
}

/// The upload state of every asset seen so far, keyed by asset index.
pub struct Cache {
    pub program: String,
    pub items: HashMap<usize, CacheItem>,
}

impl View for Cache {
    type V = Map<usize, ItemView>;

    open spec fn view(&self) -> Map<usize, ItemView> {
        self.items@.map_values(|i: CacheItem| i@)
    }
}

impl Cache {
    /// An empty cache for the given program identifier.
    pub fn new(program: String) -> (r: Cache)
        ensures
            r@ == Map::<usize, ItemView>::empty(),
            r.program == program,
    {
        let r = Cache { program, items: HashMap::new() };
        assert(r@ =~= Map::<usize, ItemView>::empty());
        r
    }

    /// The item recorded for an index, if any.
    pub fn get(&self, index: usize) -> (r: Option<&CacheItem>)
        ensures
            match r {
                Some(i) => self@.contains_key(index) && self@[index] == i@,
                None => !self@.contains_key(index),
            },
    {
        self.items.get(&index)
    }

    /// Records an item for an index, replacing any earlier one.
    pub fn upsert(&mut self, index: usize, item: CacheItem)
        ensures
            final(self)@ == old(self)@.insert(index, item@),
            final(self).program == old(self).program,
    {
        self.items.insert(index, item);
        assert(self@ =~= old(self)@.insert(index, item@));
    }
}

} // verus!
