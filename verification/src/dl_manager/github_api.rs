//! Releases and release assets as the GitHub API describes them.
use vstd::prelude::*;
use crate::io_utils::{strip_all_extensions, without_extensions};
use crate::utils::text::str_eq;

verus! {

/// An asset of a GitHub release.
pub struct SimplifiedGithubAsset {
    pub id: usize,
    pub name: String,
    pub browser_download_url: String,
    pub content_type: String,
    pub created_at: String,
}

/// The abstract value of an asset.
pub struct AssetView {
    pub id: usize,
    pub name: Seq<char>,
    pub browser_download_url: Seq<char>,
    pub content_type: Seq<char>,
    pub created_at: Seq<char>,
}

impl View for SimplifiedGithubAsset {
    type V = AssetView;

    open spec fn view(&self) -> AssetView {
        AssetView {
            id: self.id,
            name: self.name@,
            browser_download_url: self.browser_download_url@,
            content_type: self.content_type@,
            created_at: self.created_at@,
        }
    }
}

impl Clone for SimplifiedGithubAsset {
    fn clone(&self) -> (r: Self)
        ensures
            r@ == self@,
    {
        SimplifiedGithubAsset {
            id: self.id,
            name: self.name.clone(),
            browser_download_url: self.browser_download_url.clone(),
            content_type: self.content_type.clone(),
            created_at: self.created_at.clone(),
        }
    }
}

/// A GitHub release.
pub struct SimplifiedGithubRelease {
    pub id: usize,
    pub name: String,
    pub tag_name: String,
    pub published_at: String,
    pub assets: Vec<SimplifiedGithubAsset>,
}

/// The views of a list of assets.
pub open spec fn asset_views(v: Seq<SimplifiedGithubAsset>) -> Seq<AssetView> {
    v.map_values(|a: SimplifiedGithubAsset| a@)
}

/// The archive types that can be unpacked: xz, zstd and gzip.
pub open spec fn supported_archive_types() -> Seq<Seq<char>> {
    seq!["application/x-xz"@, "application/zstd"@, "application/gzip"@]
}

/// Whether an archive of type `content_type` can be unpacked.
pub fn is_supported_archive_type(content_type: &str) -> (r: bool)
    ensures
        r == supported_archive_types().contains(content_type@),
{
    let r = str_eq(content_type, "application/x-xz") || str_eq(content_type, "application/zstd")
        || str_eq(content_type, "application/gzip");
    proof {
        if supported_archive_types().contains(content_type@) {
            let k = choose|k: int| 0 <= k < 3 && supported_archive_types()[k] == content_type@;
            assert(k == 0 || k == 1 || k == 2);
        }
        if r {
            if content_type@ == "application/x-xz"@ {
                assert(supported_archive_types()[0] == content_type@);
            } else if content_type@ == "application/zstd"@ {
                assert(supported_archive_types()[1] == content_type@);
            } else {
                assert(supported_archive_types()[2] == content_type@);
            }
        }
    }
    r
}

/// The index of the first asset whose archive type can be unpacked.
pub open spec fn first_supported(assets: Seq<AssetView>) -> Option<int> {
    if exists|i: int| 0 <= i < assets.len() && supported_archive_types().contains(assets[i].content_type) {
        Some(choose|i: int| 0 <= i < assets.len() && supported_archive_types().contains(assets[i].content_type)
            && forall|j: int| 0 <= j < i ==> !supported_archive_types().contains(assets[j].content_type))
    } else {
        None
    }
}

/// The index of the first asset whose archive type can be unpacked.
pub fn first_supported_index(assets: &Vec<SimplifiedGithubAsset>) -> (r: Option<usize>)
    ensures
        match r {
            Some(i) => i < assets@.len() && first_supported(asset_views(assets@)) == Some(i as int),
            None => first_supported(asset_views(assets@)) is None,
        },
{
    let ghost av = asset_views(assets@);
    let mut i: usize = 0;
    while i < assets.len()
        invariant
            av == asset_views(assets@),
            i <= assets.len(),
            forall|j: int| 0 <= j < i ==> !supported_archive_types().contains(av[j].content_type),
        decreases assets.len() - i,
    {
        assert(av[i as int] == assets@[i as int]@);
        if is_supported_archive_type(assets[i].content_type.as_str()) {
            proof {
                let w = choose|k: int| 0 <= k < av.len() && supported_archive_types().contains(av[k].content_type)
                    && forall|j: int| 0 <= j < k ==> !supported_archive_types().contains(av[j].content_type);
                if w < i {
                } else if w > i {
                    assert(!supported_archive_types().contains(av[i as int].content_type));
                }
            }
            return Some(i);
        }
        i = i + 1;
    }
    None
}

/// The assets of archive type `content_type`, in order.
pub open spec fn assets_of_type(assets: Seq<AssetView>, content_type: Seq<char>) -> Seq<AssetView>
    decreases assets.len(),
{
    if assets.len() == 0 {
        Seq::empty()
    } else {
        let rest = assets_of_type(assets.drop_last(), content_type);
        if assets.last().content_type == content_type {
            rest.push(assets.last())
        } else {
            rest
        }
    }
}

impl SimplifiedGithubAsset {
    /// The asset's name without its extensions.
    pub fn name_without_ext(&self) -> (r: &str)
        ensures
            r@ == without_extensions(self.name@),
    {
        strip_all_extensions(self.name.as_str())
    }
}

impl SimplifiedGithubRelease {
    /// The assets of the release in the archive type of its first asset
    /// that can be unpacked, in order (one asset per variant of the tool).
    /// The release must have such an asset.
    pub fn get_unique_assets(&self) -> (r: Vec<SimplifiedGithubAsset>)
        requires
            first_supported(asset_views(self.assets@)) is Some,
        ensures
            asset_views(r@) == assets_of_type(
                asset_views(self.assets@),
                asset_views(self.assets@)[first_supported(asset_views(self.assets@)).unwrap()].content_type,
            ),
    {
        let ghost av = asset_views(self.assets@);
        let k = match first_supported_index(&self.assets) {
            Some(k) => k,
            None => {
                assert(false);
                0
            },
        };
        let wanted = &self.assets[k].content_type;
        assert(wanted@ == av[k as int].content_type);
        let mut r: Vec<SimplifiedGithubAsset> = Vec::new();
        let mut i: usize = 0;
        assert(av.take(0) =~= Seq::<AssetView>::empty());
        while i < self.assets.len()
            invariant
                av == asset_views(self.assets@),
                i <= self.assets.len(),
                asset_views(r@) == assets_of_type(av.take(i as int), wanted@),
            decreases self.assets.len() - i,
        {
            assert(av.take(i + 1).drop_last() =~= av.take(i as int));
            assert(av.take(i + 1).last() == self.assets@[i as int]@);
            if str_eq(self.assets[i].content_type.as_str(), wanted.as_str()) {
                let ghost before = asset_views(r@);
                r.push(self.assets[i].clone());
                assert(asset_views(r@) =~= before.push(self.assets@[i as int]@));
            }
            i = i + 1;
        }
        assert(av.take(i as int) =~= av);
        r
    }
}

} // verus!
