use crate::cache::{
    copy_opt, fresh_item, opt_view, AssetPair, AssetView, Cache, CacheItem, ItemView,
};
use vstd::prelude::*;

verus! {

/// The role a file plays within an asset.
#[derive(Clone, Copy, Debug, PartialEq, Eq, Structural)]
pub enum DataType {
    Image,
    Animation,
    Metadata,
}

/// What the change-detection rule decided for one asset.
#[derive(Clone, Copy, Debug, PartialEq, Eq, Structural)]
pub enum Change {
    /// No item was recorded for the asset.
    New,
    /// The image fingerprint changed, or the image was never uploaded.
    ImageReplaced,
    /// The recorded animation changed, or its upload is missing.
    AnimationReplaced,
    /// Only the metadata changed, or its upload is missing.
    MetadataChanged,
    /// Nothing to upload.
    Unchanged,
}

/// The indices whose files are to be uploaded, one list per role.
pub struct AssetType {
    pub image: Vec<usize>,
    pub metadata: Vec<usize>,
    pub animation: Vec<usize>,
}

/// The recorded item of an index, if any.
pub open spec fn prior_of(c: Map<usize, ItemView>, k: usize) -> Option<ItemView> {
    if c.contains_key(k) {
        Some(c[k])
    } else {
        None
    }
}

/// The recorded animation must be uploaded again: the item has an animation
/// fingerprint and an animation link slot, and either the fingerprint changed
/// or the link is empty.
pub open spec fn animation_condition(prior: ItemView, a: AssetView) -> bool {
    &&& prior.animation_hash is Some
    &&& prior.animation_link is Some
    &&& (prior.animation_hash != a.animation_hash || prior.animation_link->Some_0.len() == 0)
}

/// The decision rule, first match wins.
pub open spec fn change_of(prior: Option<ItemView>, a: AssetView) -> Change {
    match prior {
        None => Change::New,
        Some(p) => if p.image_hash != a.image_hash || p.image_link.len() == 0 {
            Change::ImageReplaced
        } else if animation_condition(p, a) {
            Change::AnimationReplaced
        } else if p.metadata_hash != a.metadata_hash || p.metadata_link.len() == 0 {
            Change::MetadataChanged
        } else {
            Change::Unchanged
        },
    }
}

/// Whether the file of the given role is scheduled for upload.
pub open spec fn scheduled(role: DataType, prior: Option<ItemView>, a: AssetView) -> bool {
    let c = change_of(prior, a);
    match role {
        DataType::Image => c == Change::New || c == Change::ImageReplaced || c
            == Change::AnimationReplaced,
        DataType::Metadata => c != Change::Unchanged,
        DataType::Animation => match c {
            Change::New => a.animation_hash is Some,
            Change::ImageReplaced => prior->Some_0.animation_hash is Some
                || prior->Some_0.animation_link is Some,
            Change::AnimationReplaced => true,
            _ => false,
        },
    }
}

/// The item recorded for an asset once its change has been detected.
pub open spec fn next_item(prior: Option<ItemView>, a: AssetView) -> ItemView {
    match change_of(prior, a) {
        Change::MetadataChanged => ItemView {
            metadata_hash: a.metadata_hash,
            metadata_link: Seq::empty(),
            on_chain: false,
            ..prior->Some_0
        },
        Change::Unchanged => prior->Some_0,
        _ => fresh_item(a),
    }
}

/// Abstract values of a sequence of assets.
pub open spec fn asset_views(assets: Seq<AssetPair>) -> Seq<AssetView> {
    assets.map_values(|a: AssetPair| a@)
}

/// No two assets share an index.
pub open spec fn distinct_indices(assets: Seq<AssetView>) -> bool {
    forall|i: int, j: int|
        0 <= i < assets.len() && 0 <= j < assets.len() && i != j ==> assets[i].index
            != assets[j].index
}

/// Whether some asset has the given index.
pub open spec fn has_index(assets: Seq<AssetView>, k: usize) -> bool {
    exists|i: int| 0 <= i < assets.len() && assets[i].index == k
}

/// The indices scheduled for one role, in the order of the assets.
pub open spec fn schedule(role: DataType, assets: Seq<AssetView>, c: Map<usize, ItemView>) -> Seq<
    usize,
>
    decreases assets.len(),
{
    if assets.len() == 0 {
        Seq::empty()
    } else {
        let a = assets.last();
        let rest = schedule(role, assets.drop_last(), c);
        if scheduled(role, prior_of(c, a.index), a) {
            rest.push(a.index)
        } else {
            rest
        }
    }
}

/// The cache once the changes of all assets have been detected.
pub open spec fn updated_cache(assets: Seq<AssetView>, c: Map<usize, ItemView>) -> Map<
    usize,
    ItemView,
>
    decreases assets.len(),
{
    if assets.len() == 0 {
        c
    } else {
        let a = assets.last();
        updated_cache(assets.drop_last(), c).insert(a.index, next_item(prior_of(c, a.index), a))
    }
}

/// Entries of indices that no asset has are left as they were.
pub proof fn lemma_updated_cache_outside(assets: Seq<AssetView>, c: Map<usize, ItemView>, k: usize)
    requires
        !has_index(assets, k),
    ensures
        prior_of(updated_cache(assets, c), k) == prior_of(c, k),
    decreases assets.len(),
{
    if assets.len() > 0 {
        let rest = assets.drop_last();
        assert(!has_index(rest, k)) by {
            if has_index(rest, k) {
                let i = choose|i: int| 0 <= i < rest.len() && rest[i].index == k;
                assert(assets[i].index == k);
            }
        }
        assert(assets.last().index != k) by {
            assert(assets[assets.len() - 1].index == assets.last().index);
        }
        lemma_updated_cache_outside(rest, c, k);
    }
}

/// Every asset's index holds that asset's next item.
pub proof fn lemma_updated_cache_inside(
    assets: Seq<AssetView>,
    c: Map<usize, ItemView>,
    i: int,
)
    requires
        distinct_indices(assets),
        0 <= i < assets.len(),
    ensures
        updated_cache(assets, c).contains_key(assets[i].index),
        updated_cache(assets, c)[assets[i].index] == next_item(
            prior_of(c, assets[i].index),
            assets[i],
        ),
    decreases assets.len(),
{
    if i < assets.len() - 1 {
        let rest = assets.drop_last();
        assert(rest[i] == assets[i]);
        assert(distinct_indices(rest));
        lemma_updated_cache_inside(rest, c, i);
        assert(assets.last().index != assets[i].index) by {
            assert(assets[assets.len() - 1].index == assets.last().index);
        }
    }
}

/// Whether two optional strings hold the same value.
fn same_opt(a: &Option<String>, b: &Option<String>) -> (r: bool)
    ensures
        r == (opt_view(*a) == opt_view(*b)),
{
    match a {
        Some(x) => match b {
            Some(y) => {
                let r = *x == *y;
                r
            },
            None => false,
        },
        None => b.is_none(),
    }
}

/// Applies the decision rule to one asset and its recorded item.
pub fn classify(prior: Option<&CacheItem>, a: &AssetPair) -> (r: Change)
    ensures
        r == change_of(
            match prior {
                Some(p) => Some(p@),
                None => None,
            },
            a@,
        ),
{
    match prior {
        None => Change::New,
        Some(p) => {
            let animation_condition = match (&p.animation_hash, &p.animation_link) {
                (Some(_), Some(link)) => !same_opt(&p.animation_hash, &a.animation_hash)
                    || link.as_str().is_empty(),
                _ => false,
            };
            if !(p.image_hash == a.image_hash) || p.image_link.as_str().is_empty() {
                Change::ImageReplaced
            } else if animation_condition {
                Change::AnimationReplaced
            } else if !(p.metadata_hash == a.metadata_hash) || p.metadata_link.as_str().is_empty() {
                Change::MetadataChanged
            } else {
                Change::Unchanged
            }
        },
    }
}

/// Compares each asset with its recorded item, records the next item of each
/// asset in the cache and returns the indices to upload, per role.
pub fn detect_changes(assets: &Vec<AssetPair>, cache: &mut Cache) -> (r: AssetType)
    requires
        distinct_indices(asset_views(assets@)),
    ensures
        final(cache)@ == updated_cache(asset_views(assets@), old(cache)@),
        final(cache).program == old(cache).program,
        r.image@ == schedule(DataType::Image, asset_views(assets@), old(cache)@),
        r.metadata@ == schedule(DataType::Metadata, asset_views(assets@), old(cache)@),
        r.animation@ == schedule(DataType::Animation, asset_views(assets@), old(cache)@),
{
    let ghost views = asset_views(assets@);
    let ghost c0 = old(cache)@;
    let mut image: Vec<usize> = Vec::new();
    let mut metadata: Vec<usize> = Vec::new();
    let mut animation: Vec<usize> = Vec::new();
    let mut i: usize = 0;
    while i < assets.len()
        invariant
            i <= assets.len(),
            views == asset_views(assets@),
            distinct_indices(views),
            cache@ == updated_cache(views.take(i as int), c0),
            cache.program == old(cache).program,
            image@ == schedule(DataType::Image, views.take(i as int), c0),
            metadata@ == schedule(DataType::Metadata, views.take(i as int), c0),
            animation@ == schedule(DataType::Animation, views.take(i as int), c0),
        decreases assets.len() - i,
    {
        let a = &assets[i];
        let ghost prefix = views.take(i as int);
        let ghost next = views.take(i + 1);
        proof {
            assert(views[i as int] == a@);
            assert(next.drop_last() =~= prefix);
            assert(next.last() == a@);
            assert(!has_index(prefix, a.index)) by {
                if has_index(prefix, a.index) {
                    let j = choose|j: int| 0 <= j < prefix.len() && prefix[j].index == a.index;
                    assert(views[j].index == views[i as int].index);
                }
            }
            lemma_updated_cache_outside(prefix, c0, a.index);
        }
        let (change, item) = {
            let prior = cache.get(a.index);
            let change = classify(prior, a);
            let item = match change {
                Change::MetadataChanged => {
                    let p = prior.unwrap();
                    Some(
                        CacheItem {
                            image_hash: p.image_hash.clone(),
                            image_link: p.image_link.clone(),
                            metadata_hash: a.metadata_hash.clone(),
                            metadata_link: String::new(),
                            animation_hash: copy_opt(&p.animation_hash),
                            animation_link: copy_opt(&p.animation_link),
                            on_chain: false,
                        },
                    )
                },
                Change::Unchanged => None,
                _ => Some(a.into_cache_item()),
            };
            let animation_slot = match prior {
                Some(p) => p.animation_hash.is_some() || p.animation_link.is_some(),
                None => a.animation_hash.is_some(),
            };
            if change != Change::Unchanged && change != Change::MetadataChanged {
                image.push(a.index);
            }
            if change != Change::Unchanged {
                metadata.push(a.index);
            }
            if change == Change::AnimationReplaced || ((change == Change::New || change
                == Change::ImageReplaced) && animation_slot) {
                animation.push(a.index);
            }
            (change, item)
        };
        match item {
            Some(it) => cache.upsert(a.index, it),
            None => {},
        }
        proof {
            assert(cache@ =~= updated_cache(next, c0));
        }
        i = i + 1;
    }
    proof {
        assert(views.take(assets.len() as int) =~= views);
    }
    AssetType { image, metadata, animation }
}

} // verus!
