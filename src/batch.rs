use crate::cache::{opt_view, AssetPair, AssetView, Cache};
use crate::detect::{asset_views, distinct_indices, has_index, DataType};
use crate::error::UploadError;
use crate::scheduler::UploadTask;
use vstd::prelude::*;
use vstd::string::StringExecFns;

verus! {

/// The extension of a path's final component, as `std::path::Path` finds it.
pub uninterp spec fn path_extension(path: Seq<char>) -> Option<Seq<char>>;

/// Relies on `std::path::Path::extension`: the extension depends on the path
/// alone.
#[verifier::external_body]
fn file_extension(path: &str) -> (r: Option<String>)
    ensures
        opt_view(r) == path_extension(path@),
{
    std::path::Path::new(path).extension().and_then(|e| e.to_str()).map(|e| e.to_string())
}

/// The file of an asset that a role uploads, if the asset has one.
pub open spec fn role_file(role: DataType, a: AssetView) -> Option<Seq<char>> {
    match role {
        DataType::Image => Some(a.image),
        DataType::Animation => a.animation,
        DataType::Metadata => Some(a.metadata),
    }
}

/// The position of the asset with index `k`.
pub open spec fn position_of(assets: Seq<AssetView>, k: usize) -> int {
    choose|i: int| 0 <= i < assets.len() && assets[i].index == k
}

/// Some asset has index `k` and a file for the role.
pub open spec fn file_present(assets: Seq<AssetView>, k: usize, role: DataType) -> bool {
    has_index(assets, k) && role_file(role, assets[position_of(assets, k)]) is Some
}

/// The file that the role uploads for index `k`.
pub open spec fn file_for(assets: Seq<AssetView>, k: usize, role: DataType) -> Seq<char> {
    role_file(role, assets[position_of(assets, k)])->Some_0
}

/// Every scheduled index has a file for the role.
pub open spec fn all_present(assets: Seq<AssetView>, indices: Seq<usize>, role: DataType) -> bool {
    forall|j: int| 0 <= j < indices.len() ==> file_present(assets, #[trigger] indices[j], role)
}

/// The batch is not empty and all its files share one extension.
pub open spec fn uniform_extension(
    assets: Seq<AssetView>,
    indices: Seq<usize>,
    role: DataType,
) -> bool {
    &&& indices.len() > 0
    &&& path_extension(file_for(assets, indices[0], role)) is Some
    &&& forall|j: int|
        0 <= j < indices.len() ==> path_extension(file_for(assets, #[trigger] indices[j], role))
            == path_extension(file_for(assets, indices[0], role))
}

/// Every scheduled index has a cache item.
pub open spec fn all_cached(c: Map<usize, crate::cache::ItemView>, indices: Seq<usize>) -> bool {
    forall|j: int| 0 <= j < indices.len() ==> c.contains_key(#[trigger] indices[j])
}

/// The content type that a batch's files are sent with.
pub open spec fn content_type_of(role: DataType, ext: Seq<char>) -> Seq<char> {
    match role {
        DataType::Metadata => "application/json"@,
        _ => "image/"@ + ext,
    }
}

/// The position of the asset with the given index, if any.
pub fn find_asset(assets: &Vec<AssetPair>, k: usize) -> (r: Option<usize>)
    requires
        distinct_indices(asset_views(assets@)),
    ensures
        match r {
            Some(p) => p < assets@.len() && p == position_of(asset_views(assets@), k)
                && has_index(asset_views(assets@), k),
            None => !has_index(asset_views(assets@), k),
        },
{
    let ghost views = asset_views(assets@);
    let mut i: usize = 0;
    while i < assets.len()
        invariant
            i <= assets@.len(),
            views == asset_views(assets@),
            distinct_indices(views),
            forall|j: int| 0 <= j < i ==> views[j].index != k,
        decreases assets@.len() - i,
    {
        if assets[i].index == k {
            proof {
                assert(views[i as int].index == k);
                let p = position_of(views, k);
                assert(views[p].index == k);
                assert(p == i);
            }
            return Some(i);
        }
        i = i + 1;
    }
    None
}

/// The file of an asset that a role uploads, if the asset has one.
fn file_of(a: &AssetPair, role: DataType) -> (r: Option<String>)
    ensures
        opt_view(r) == role_file(role, a@),
{
    match role {
        DataType::Image => Some(a.image.clone()),
        DataType::Animation => match &a.animation {
            Some(f) => Some(f.clone()),
            None => None,
        },
        DataType::Metadata => Some(a.metadata.clone()),
    }
}

/// Builds the upload tasks of one batch, in the order of `indices`. Fails
/// when an index has no asset or no file for the role, then when the files
/// do not share one extension, then when an index has no cache item.
pub fn prepare_batch(
    assets: &Vec<AssetPair>,
    cache: &Cache,
    indices: &Vec<usize>,
    role: DataType,
) -> (r: Result<Vec<UploadTask>, UploadError>)
    requires
        distinct_indices(asset_views(assets@)),
    ensures
        ({
            let views = asset_views(assets@);
            &&& r matches Err(UploadError::MissingAsset(k)) ==> indices@.contains(k) && !has_index(
                views,
                k,
            )
            &&& r matches Err(UploadError::MissingFile(k)) ==> indices@.contains(k)
                && !file_present(views, k, role)
            &&& r matches Err(UploadError::MissingCacheEntry(k)) ==> indices@.contains(k)
                && !cache@.contains_key(k)
            &&& !all_present(views, indices@, role) ==> (r matches Err(UploadError::MissingAsset(_))
                || r matches Err(UploadError::MissingFile(_)))
            &&& (all_present(views, indices@, role) && !uniform_extension(views, indices@, role))
                ==> (r matches Err(UploadError::ExtensionMismatch))
            &&& (all_present(views, indices@, role) && uniform_extension(views, indices@, role)
                && !all_cached(cache@, indices@)) ==> (r matches Err(
                UploadError::MissingCacheEntry(_),
            ))
            &&& r is Ok <==> (all_present(views, indices@, role) && uniform_extension(
                views,
                indices@,
                role,
            ) && all_cached(cache@, indices@))
            &&& r matches Ok(tasks) ==> {
                &&& tasks@.len() == indices@.len()
                &&& forall|j: int|
                    #![trigger tasks@[j]]
                    0 <= j < tasks@.len() ==> {
                        let k = indices@[j];
                        &&& tasks@[j].asset_id == k
                        &&& tasks@[j].file_path@ == file_for(views, k, role)
                        &&& tasks@[j].data_type == role
                        &&& tasks@[j].content_type@ == content_type_of(
                            role,
                            path_extension(file_for(views, indices@[0], role))->Some_0,
                        )
                        &&& tasks@[j].media_link@ == if role == DataType::Metadata {
                            cache@[k].image_link
                        } else {
                            Seq::<char>::empty()
                        }
                    }
            }
        }),
{
    let ghost views = asset_views(assets@);
    let mut paths: Vec<String> = Vec::new();
    let mut j: usize = 0;
    while j < indices.len()
        invariant
            j <= indices@.len(),
            views == asset_views(assets@),
            distinct_indices(views),
            paths@.len() == j,
            forall|m: int| 0 <= m < j ==> file_present(views, #[trigger] indices@[m], role),
            forall|m: int| 0 <= m < j ==> #[trigger] paths@[m]@ == file_for(views, indices@[m], role),
        decreases indices@.len() - j,
    {
        let k = indices[j];
        match find_asset(assets, k) {
            None => {
                proof {
                    assert(indices@[j as int] == k);
                }
                return Err(UploadError::MissingAsset(k));
            },
            Some(p) => {
                proof {
                    assert(views[p as int] == assets@[p as int]@);
                }
                match file_of(&assets[p], role) {
                    None => {
                        proof {
                            assert(indices@[j as int] == k);
                        }
                        return Err(UploadError::MissingFile(k));
                    },
                    Some(f) => {
                        paths.push(f);
                    },
                }
            },
        }
        j = j + 1;
    }
    proof {
        assert(all_present(views, indices@, role));
    }
    if indices.len() == 0 {
        return Err(UploadError::ExtensionMismatch);
    }
    let first = file_extension(paths[0].as_str());
    let ext = match first {
        None => {
            return Err(UploadError::ExtensionMismatch);
        },
        Some(e) => e,
    };
    let mut j: usize = 1;
    while j < paths.len()
        invariant
            1 <= j <= paths@.len(),
            paths@.len() == indices@.len(),
            views == asset_views(assets@),
            all_present(views, indices@, role),
            forall|m: int| 0 <= m < indices@.len() ==> #[trigger] paths@[m]@ == file_for(views, indices@[m], role),
            Some(ext@) == path_extension(paths@[0]@),
            forall|m: int|
                0 <= m < j ==> path_extension(#[trigger] paths@[m]@) == path_extension(
                    paths@[0]@,
                ),
        decreases paths@.len() - j,
    {
        let e = file_extension(paths[j].as_str());
        let same = match e {
            Some(x) => x == ext,
            None => false,
        };
        if !same {
            proof {
                assert(path_extension(paths@[j as int]@) != path_extension(paths@[0]@));
                assert(!uniform_extension(views, indices@, role)) by {
                    assert(paths@[j as int]@ == file_for(views, indices@[j as int], role));
                }
            }
            return Err(UploadError::ExtensionMismatch);
        }
        j = j + 1;
    }
    let content_type = match role {
        DataType::Metadata => String::from_str("application/json"),
        _ => {
            let mut s = String::from_str("image/");
            s.append(ext.as_str());
            s
        },
    };
    proof {
        reveal_strlit("application/json");
        reveal_strlit("image/");
        assert(content_type@ == content_type_of(
            role,
            path_extension(file_for(views, indices@[0], role))->Some_0,
        ));
        assert(uniform_extension(views, indices@, role)) by {
            assert forall|m: int| 0 <= m < indices@.len() implies path_extension(
                file_for(views, #[trigger] indices@[m], role),
            ) == path_extension(file_for(views, indices@[0], role)) by {
                assert(paths@[m]@ == file_for(views, indices@[m], role));
            }
        }
    }
    let mut tasks: Vec<UploadTask> = Vec::new();
    let mut j: usize = 0;
    while j < indices.len()
        invariant
            j <= indices@.len(),
            paths@.len() == indices@.len(),
            views == asset_views(assets@),
            all_present(views, indices@, role),
            uniform_extension(views, indices@, role),
            forall|m: int| 0 <= m < indices@.len() ==> #[trigger] paths@[m]@ == file_for(views, indices@[m], role),
            tasks@.len() == j,
            forall|m: int| 0 <= m < j ==> cache@.contains_key(#[trigger] indices@[m]),
            forall|m: int|
                #![trigger tasks@[m]]
                0 <= m < j ==> {
                    let k = indices@[m];
                    &&& tasks@[m].asset_id == k
                    &&& tasks@[m].file_path@ == file_for(views, k, role)
                    &&& tasks@[m].data_type == role
                    &&& tasks@[m].content_type@ == content_type@
                    &&& tasks@[m].media_link@ == if role == DataType::Metadata {
                        cache@[k].image_link
                    } else {
                        Seq::<char>::empty()
                    }
                },
        decreases indices@.len() - j,
    {
        let k = indices[j];
        let media_link = match cache.get(k) {
            None => {
                proof {
                    assert(indices@[j as int] == k);
                }
                return Err(UploadError::MissingCacheEntry(k));
            },
            Some(item) => match role {
                DataType::Metadata => item.image_link.clone(),
                _ => String::new(),
            },
        };
        tasks.push(
            UploadTask {
                asset_id: k,
                file_path: paths[j].clone(),
                media_link,
                data_type: role,
                content_type: content_type.clone(),
            },
        );
        j = j + 1;
    }
    Ok(tasks)
}

} // verus!
