use crate::cache::{item_complete, AssetPair, AssetView, Cache, ItemView};
use crate::detect::{asset_views, AssetType, DataType};
use crate::error::UploadError;
use vstd::prelude::*;

verus! {

/// Checks a metadata document's symbol and seller fee against the
/// configured ones.
pub fn check_metadata(
    file: &String,
    symbol: &String,
    seller_fee_basis_points: u16,
    config_symbol: &String,
    config_seller_fee_basis_points: u16,
) -> (r: Result<(), UploadError>)
    ensures
        symbol@ != config_symbol@ ==> r == Err::<(), UploadError>(
            UploadError::SymbolMismatch {
                file: *file,
                expected: *config_symbol,
                actual: *symbol,
            },
        ),
        symbol@ == config_symbol@ && seller_fee_basis_points != config_seller_fee_basis_points
            ==> r == Err::<(), UploadError>(
            UploadError::FeeMismatch {
                file: *file,
                expected_fee: config_seller_fee_basis_points,
                actual_fee: seller_fee_basis_points,
            },
        ),
        r is Ok <==> (symbol@ == config_symbol@ && seller_fee_basis_points
            == config_seller_fee_basis_points),
{
    if !(*config_symbol == *symbol) {
        return Err(
            UploadError::SymbolMismatch {
                file: file.clone(),
                expected: config_symbol.clone(),
                actual: symbol.clone(),
            },
        );
    }
    if config_seller_fee_basis_points != seller_fee_basis_points {
        return Err(
            UploadError::FeeMismatch {
                file: file.clone(),
                expected_fee: config_seller_fee_basis_points,
                actual_fee: seller_fee_basis_points,
            },
        );
    }
    Ok(())
}

/// Fails when more images than metadata documents are scheduled.
pub fn check_counts(indices: &AssetType) -> (r: Result<(), UploadError>)
    ensures
        indices.image@.len() > indices.metadata@.len() ==> r == Err::<(), UploadError>(
            UploadError::MoreImagesThanMetadata {
                images: indices.image@.len() as usize,
                metadata: indices.metadata@.len() as usize,
            },
        ),
        r is Ok <==> indices.image@.len() <= indices.metadata@.len(),
{
    if indices.image.len() > indices.metadata.len() {
        Err(
            UploadError::MoreImagesThanMetadata {
                images: indices.image.len(),
                metadata: indices.metadata.len(),
            },
        )
    } else {
        Ok(())
    }
}

/// Whether any file is scheduled for upload.
pub fn needs_upload(indices: &AssetType) -> (r: bool)
    ensures
        r == (indices.image@.len() > 0 || indices.metadata@.len() > 0 || indices.animation@.len()
            > 0),
{
    indices.image.len() > 0 || indices.metadata.len() > 0 || indices.animation.len() > 0
}

/// The cache holds no link of the role for index `k`.
pub open spec fn link_missing(c: Map<usize, ItemView>, k: usize, role: DataType) -> bool {
    !c.contains_key(k) || match role {
        DataType::Image => c[k].image_link.len() == 0,
        DataType::Animation => c[k].animation_link is None || c[k].animation_link->Some_0.len()
            == 0,
        DataType::Metadata => c[k].metadata_link.len() == 0,
    }
}

/// The metadata indices that stay scheduled once the uploads of `done` for
/// the role have run: those whose dependent upload did not fail.
pub open spec fn ready_metadata(
    metadata: Seq<usize>,
    done: Seq<usize>,
    c: Map<usize, ItemView>,
    role: DataType,
) -> Seq<usize>
    decreases metadata.len(),
{
    if metadata.len() == 0 {
        Seq::empty()
    } else {
        let x = metadata.last();
        let rest = ready_metadata(metadata.drop_last(), done, c, role);
        if done.contains(x) && link_missing(c, x, role) {
            rest
        } else {
            rest.push(x)
        }
    }
}

/// Whether a vector holds a value.
fn holds(v: &Vec<usize>, x: usize) -> (r: bool)
    ensures
        r == v@.contains(x),
{
    let mut i: usize = 0;
    while i < v.len()
        invariant
            i <= v@.len(),
            forall|j: int| 0 <= j < i ==> v@[j] != x,
        decreases v@.len() - i,
    {
        if v[i] == x {
            proof {
                assert(v@[i as int] == x);
            }
            return true;
        }
        i = i + 1;
    }
    false
}

/// Whether the cache holds no link of the role for an index.
fn is_link_missing(cache: &Cache, k: usize, role: DataType) -> (r: bool)
    ensures
        r == link_missing(cache@, k, role),
{
    match cache.get(k) {
        None => true,
        Some(item) => match role {
            DataType::Image => item.image_link.as_str().is_empty(),
            DataType::Animation => match &item.animation_link {
                None => true,
                Some(l) => l.as_str().is_empty(),
            },
            DataType::Metadata => item.metadata_link.as_str().is_empty(),
        },
    }
}

/// Removes from `metadata` each index of `done` whose upload for the role
/// left no link in the cache.
pub fn retain_ready(metadata: &mut Vec<usize>, done: &Vec<usize>, cache: &Cache, role: DataType)
    ensures
        final(metadata)@ == ready_metadata(old(metadata)@, done@, cache@, role),
{
    let ghost m0 = metadata@;
    let mut kept: Vec<usize> = Vec::new();
    let mut i: usize = 0;
    while i < metadata.len()
        invariant
            i <= metadata@.len(),
            metadata@ == m0,
            kept@ == ready_metadata(m0.take(i as int), done@, cache@, role),
        decreases metadata@.len() - i,
    {
        let x = metadata[i];
        proof {
            assert(m0.take(i + 1).drop_last() =~= m0.take(i as int));
            assert(m0.take(i + 1).last() == x);
        }
        if !(holds(done, x) && is_link_missing(cache, x, role)) {
            kept.push(x);
        }
        i = i + 1;
    }
    proof {
        assert(m0.take(m0.len() as int) =~= m0);
    }
    *metadata = kept;
}

/// The number of assets whose cache item has every link.
pub open spec fn uploaded_count(assets: Seq<AssetView>, c: Map<usize, ItemView>) -> nat
    decreases assets.len(),
{
    if assets.len() == 0 {
        0
    } else {
        let k = assets.last().index;
        uploaded_count(assets.drop_last(), c) + if c.contains_key(k) && item_complete(c[k]) {
            1nat
        } else {
            0nat
        }
    }
}

/// A count never exceeds the number of assets.
pub proof fn lemma_uploaded_count_bound(assets: Seq<AssetView>, c: Map<usize, ItemView>)
    ensures
        uploaded_count(assets, c) <= assets.len(),
    decreases assets.len(),
{
    if assets.len() > 0 {
        lemma_uploaded_count_bound(assets.drop_last(), c);
    }
}

/// Counts the assets whose cache item has every link.
pub fn count_uploaded(assets: &Vec<AssetPair>, cache: &Cache) -> (r: usize)
    ensures
        r == uploaded_count(asset_views(assets@), cache@),
{
    let ghost views = asset_views(assets@);
    let mut n: usize = 0;
    let mut i: usize = 0;
    while i < assets.len()
        invariant
            i <= assets@.len(),
            views == asset_views(assets@),
            n == uploaded_count(views.take(i as int), cache@),
        decreases assets@.len() - i,
    {
        let k = assets[i].index;
        proof {
            assert(views.take(i + 1).drop_last() =~= views.take(i as int));
            assert(views.take(i + 1).last() == views[i as int]);
            lemma_uploaded_count_bound(views.take(i as int), cache@);
        }
        let complete = match cache.get(k) {
            Some(item) => item.is_complete(),
            None => false,
        };
        if complete {
            n = n + 1;
        }
        i = i + 1;
    }
    proof {
        assert(views.take(assets@.len() as int) =~= views);
    }
    n
}

/// Whether some message of `v` has the value `m`.
pub open spec fn has_message(v: Seq<String>, m: Seq<char>) -> bool {
    exists|i: int| 0 <= i < v.len() && v[i]@ == m
}

/// No two messages of `v` are equal.
pub open spec fn distinct_messages(v: Seq<String>) -> bool {
    forall|i: int, j: int| 0 <= i < j < v.len() ==> v[i]@ != v[j]@
}

/// The distinct messages of `errors`, each once, in order of first
/// appearance.
pub fn unique_messages(errors: &Vec<String>) -> (r: Vec<String>)
    ensures
        distinct_messages(r@),
        forall|m: Seq<char>| has_message(r@, m) <==> has_message(errors@, m),
{
    let mut r: Vec<String> = Vec::new();
    let mut i: usize = 0;
    while i < errors.len()
        invariant
            i <= errors@.len(),
            distinct_messages(r@),
            forall|m: Seq<char>| has_message(r@, m) <==> has_message(errors@.take(i as int), m),
        decreases errors@.len() - i,
    {
        let e = &errors[i];
        let mut seen = false;
        let mut j: usize = 0;
        while j < r.len()
            invariant
                j <= r@.len(),
                seen == exists|t: int| 0 <= t < j && r@[t]@ == e@,
            decreases r@.len() - j,
        {
            if r[j] == *e {
                seen = true;
            }
            j = j + 1;
        }
        proof {
            assert(errors@.take(i + 1) =~= errors@.take(i as int).push(*e));
            assert forall|m: Seq<char>|
                has_message(errors@.take(i + 1), m) <==> (has_message(errors@.take(i as int), m)
                    || m == e@) by {
                let s = errors@.take(i + 1);
                if has_message(s, m) {
                    let t = choose|t: int| 0 <= t < s.len() && s[t]@ == m;
                    if t < i {
                        assert(errors@.take(i as int)[t] == s[t]);
                    }
                }
                if has_message(errors@.take(i as int), m) {
                    let t = choose|t: int| 0 <= t < i && errors@.take(i as int)[t]@ == m;
                    assert(s[t] == errors@.take(i as int)[t]);
                }
                if m == e@ {
                    assert(s[i as int] == *e);
                }
            }
        }
        if !seen {
            let ghost r0 = r@;
            r.push(e.clone());
            proof {
                assert forall|m: Seq<char>| has_message(r@, m) <==> (has_message(r0, m) || m == e@) by {
                    if has_message(r@, m) {
                        let t = choose|t: int| 0 <= t < r@.len() && r@[t]@ == m;
                        if t < r0.len() {
                            assert(r0[t] == r@[t]);
                        }
                    }
                    if has_message(r0, m) {
                        let t = choose|t: int| 0 <= t < r0.len() && r0[t]@ == m;
                        assert(r@[t] == r0[t]);
                    }
                    if m == e@ {
                        assert(r@[r0.len() as int] == *e);
                    }
                }
                assert(r@[r0.len() as int] == *e);
                assert(has_message(r@, e@));
                assert forall|m: Seq<char>|
                    has_message(r@, m) <==> has_message(errors@.take(i + 1), m) by {
                    assert(has_message(r@, m) <==> (has_message(r0, m) || m == e@));
                    assert(has_message(errors@.take(i + 1), m) <==> (has_message(
                        errors@.take(i as int),
                        m,
                    ) || m == e@));
                    assert(has_message(r0, m) <==> has_message(errors@.take(i as int), m));
                }
            }
        } else {
            proof {
                assert(exists|t: int| 0 <= t < r@.len() && r@[t]@ == e@);
                assert(has_message(r@, e@));
                assert forall|m: Seq<char>|
                    has_message(r@, m) <==> has_message(errors@.take(i + 1), m) by {
                    assert(has_message(errors@.take(i + 1), m) <==> (has_message(
                        errors@.take(i as int),
                        m,
                    ) || m == e@));
                    assert(has_message(r@, m) <==> has_message(errors@.take(i as int), m));
                }
            }
        }
        i = i + 1;
    }
    proof {
        assert(errors@.take(errors@.len() as int) =~= errors@);
    }
    r
}

/// The end of a run: succeeds when every asset has every link, else fails
/// with the distinct messages of the failures collected across the run.
pub fn reconcile(assets: &Vec<AssetPair>, cache: &Cache, errors: &Vec<String>) -> (r: Result<
    (),
    UploadError,
>)
    ensures
        r is Ok <==> uploaded_count(asset_views(assets@), cache@) == assets@.len(),
        r matches Err(e) ==> (e matches UploadError::Incomplete(msgs) && distinct_messages(msgs@)
            && forall|m: Seq<char>| has_message(msgs@, m) <==> has_message(errors@, m)),
{
    let count = count_uploaded(assets, cache);
    if count == assets.len() {
        Ok(())
    } else {
        Err(UploadError::Incomplete(unique_messages(errors)))
    }
}

} // verus!
