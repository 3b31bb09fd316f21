use crate::cache::{item_complete, AssetView, ItemView};
use crate::detect::{
    change_of, distinct_indices, has_index, lemma_updated_cache_inside, next_item, prior_of,
    schedule, scheduled, updated_cache, Change, DataType,
};
use crate::scheduler::with_link;
use vstd::prelude::*;

verus! {

/// The item's fingerprints are those of the asset's current files.
pub open spec fn up_to_date(i: ItemView, a: AssetView) -> bool {
    &&& i.image_hash == a.image_hash
    &&& i.metadata_hash == a.metadata_hash
    &&& (i.animation_hash is Some && i.animation_link is Some) ==> i.animation_hash
        == a.animation_hash
}

/// Change detection leaves each asset's item with the asset's current
/// fingerprints.
pub proof fn lemma_next_item_up_to_date(prior: Option<ItemView>, a: AssetView)
    ensures
        up_to_date(next_item(prior, a), a),
{
}

/// After change detection every asset has an item, and that item carries the
/// asset's current fingerprints: once the uploads fill its links, a second
/// run finds it unchanged.
pub proof fn lemma_detected_items_up_to_date(assets: Seq<AssetView>, c: Map<usize, ItemView>)
    requires
        distinct_indices(assets),
    ensures
        forall|i: int|
            0 <= i < assets.len() ==> updated_cache(assets, c).contains_key(
                #[trigger] assets[i].index,
            ) && up_to_date(updated_cache(assets, c)[assets[i].index], assets[i]),
{
    assert forall|i: int| 0 <= i < assets.len() implies updated_cache(assets, c).contains_key(
        #[trigger] assets[i].index,
    ) && up_to_date(updated_cache(assets, c)[assets[i].index], assets[i]) by {
        lemma_updated_cache_inside(assets, c, i);
        lemma_next_item_up_to_date(prior_of(c, assets[i].index), assets[i]);
    }
}

/// Recording an uploaded link never adds or removes a cache key.
pub proof fn lemma_with_link_keeps_keys(
    c: Map<usize, ItemView>,
    id: usize,
    role: DataType,
    link: Seq<char>,
)
    requires
        c.contains_key(id),
    ensures
        c.insert(id, with_link(c[id], role, link)).dom() == c.dom(),
{
    assert(c.insert(id, with_link(c[id], role, link)).dom() =~= c.dom());
}

/// Recording an uploaded link keeps an item's fingerprints; an animation
/// link is recorded only on an item that has the asset's animation
/// fingerprint.
pub proof fn lemma_with_link_up_to_date(i: ItemView, a: AssetView, role: DataType, link: Seq<char>)
    requires
        up_to_date(i, a),
        role == DataType::Animation ==> i.animation_hash == a.animation_hash,
    ensures
        up_to_date(with_link(i, role, link), a),
{
}

/// Idempotence: when every asset's item is up to date and has all its
/// links, as a successful run leaves it, running change detection again
/// schedules no upload of any role and leaves the cache as it was.
pub proof fn lemma_idempotent(assets: Seq<AssetView>, c: Map<usize, ItemView>)
    requires
        forall|i: int|
            0 <= i < assets.len() ==> c.contains_key(#[trigger] assets[i].index) && up_to_date(
                c[assets[i].index],
                assets[i],
            ) && item_complete(c[assets[i].index]),
    ensures
        schedule(DataType::Image, assets, c).len() == 0,
        schedule(DataType::Metadata, assets, c).len() == 0,
        schedule(DataType::Animation, assets, c).len() == 0,
        updated_cache(assets, c) == c,
    decreases assets.len(),
{
    if assets.len() > 0 {
        let rest = assets.drop_last();
        assert forall|i: int| 0 <= i < rest.len() implies c.contains_key(
            #[trigger] rest[i].index,
        ) && up_to_date(c[rest[i].index], rest[i]) && item_complete(c[rest[i].index]) by {
            assert(rest[i] == assets[i]);
        }
        lemma_idempotent(rest, c);
        let a = assets.last();
        assert(a == assets[assets.len() - 1]);
        assert(change_of(prior_of(c, a.index), a) == Change::Unchanged);
        assert(c.insert(a.index, c[a.index]) =~= c);
    }
}

/// Monotonic key set: change detection keeps every recorded index and adds
/// each asset's index; when every recorded index belongs to an asset, the
/// key set is exactly the set of asset indices.
pub proof fn lemma_cache_keys(assets: Seq<AssetView>, c: Map<usize, ItemView>)
    ensures
        forall|k: usize|
            #[trigger] updated_cache(assets, c).contains_key(k) <==> (c.contains_key(k)
                || has_index(assets, k)),
        (forall|k: usize| c.contains_key(k) ==> has_index(assets, k)) ==> forall|k: usize|
            #[trigger] updated_cache(assets, c).contains_key(k) <==> has_index(assets, k),
    decreases assets.len(),
{
    if assets.len() > 0 {
        let rest = assets.drop_last();
        lemma_cache_keys(rest, c);
        let a = assets.last();
        assert(updated_cache(assets, c) == updated_cache(rest, c).insert(
            a.index,
            next_item(prior_of(c, a.index), a),
        ));
        assert forall|k: usize|
            #[trigger] updated_cache(assets, c).contains_key(k) <==> (c.contains_key(k)
                || has_index(assets, k)) by {
            assert(updated_cache(rest, c).contains_key(k) <==> (c.contains_key(k) || has_index(
                rest,
                k,
            )));
            if has_index(rest, k) {
                let i = choose|i: int| 0 <= i < rest.len() && rest[i].index == k;
                assert(assets[i].index == k);
            }
            if has_index(assets, k) && k != a.index {
                let i = choose|i: int| 0 <= i < assets.len() && assets[i].index == k;
                assert(i != assets.len() - 1);
                assert(rest[i].index == k);
            }
            if k == a.index {
                assert(assets[assets.len() - 1].index == k);
            }
        }
    }
}

/// A scheduled asset's index is in the schedule of its role.
pub proof fn lemma_scheduled_in_schedule(
    role: DataType,
    assets: Seq<AssetView>,
    c: Map<usize, ItemView>,
    i: int,
)
    requires
        0 <= i < assets.len(),
        scheduled(role, prior_of(c, assets[i].index), assets[i]),
    ensures
        schedule(role, assets, c).contains(assets[i].index),
    decreases assets.len(),
{
    let s = schedule(role, assets, c);
    if i == assets.len() - 1 {
        assert(s.last() == assets[i].index);
        assert(s[s.len() - 1] == assets[i].index);
    } else {
        let rest = assets.drop_last();
        assert(rest[i] == assets[i]);
        lemma_scheduled_in_schedule(role, rest, c, i);
        let r = schedule(role, rest, c);
        let t = choose|t: int| 0 <= t < r.len() && r[t] == assets[i].index;
        assert(s[t] == r[t]);
    }
}

/// Every index in the schedule of images is also in the schedule of
/// metadata, so no more images than metadata documents are scheduled.
pub proof fn lemma_images_have_metadata(assets: Seq<AssetView>, c: Map<usize, ItemView>)
    ensures
        forall|j: int|
            0 <= j < schedule(DataType::Image, assets, c).len() ==> schedule(
                DataType::Metadata,
                assets,
                c,
            ).contains(#[trigger] schedule(DataType::Image, assets, c)[j]),
        schedule(DataType::Image, assets, c).len() <= schedule(DataType::Metadata, assets, c).len(),
    decreases assets.len(),
{
    if assets.len() > 0 {
        let rest = assets.drop_last();
        lemma_images_have_metadata(rest, c);
        let img = schedule(DataType::Image, assets, c);
        let md = schedule(DataType::Metadata, assets, c);
        let img_r = schedule(DataType::Image, rest, c);
        let md_r = schedule(DataType::Metadata, rest, c);
        assert forall|j: int| 0 <= j < img.len() implies md.contains(#[trigger] img[j]) by {
            if j < img_r.len() {
                assert(img[j] == img_r[j]);
                assert(md_r.contains(img_r[j]));
                let t = choose|t: int| 0 <= t < md_r.len() && md_r[t] == img_r[j];
                assert(md[t] == md_r[t]);
            } else {
                assert(md[md.len() - 1] == img[j]);
            }
        }
    }
}

/// Change-detection completeness: an asset whose image fingerprint differs
/// from its recorded one has both its image and its metadata scheduled.
pub proof fn lemma_changed_image_scheduled(assets: Seq<AssetView>, c: Map<usize, ItemView>, i: int)
    requires
        0 <= i < assets.len(),
        c.contains_key(assets[i].index),
        c[assets[i].index].image_hash != assets[i].image_hash,
    ensures
        schedule(DataType::Image, assets, c).contains(assets[i].index),
        schedule(DataType::Metadata, assets, c).contains(assets[i].index),
{
    lemma_scheduled_in_schedule(DataType::Image, assets, c, i);
    lemma_scheduled_in_schedule(DataType::Metadata, assets, c, i);
}

} // verus!
