//! Choosing what to download from a release.
use vstd::prelude::*;
use crate::dl_manager::github_api::{SimplifiedGithubAsset, SimplifiedGithubRelease, asset_views, first_supported, first_supported_index};

verus! {

/// The first asset of the release that is an archive that can be unpacked.
pub fn find_first_supported_archive(release: &SimplifiedGithubRelease) -> (r: Option<&SimplifiedGithubAsset>)
    ensures
        match first_supported(asset_views(release.assets@)) {
            Some(i) => r matches Some(a) && a@ == release.assets@[i]@,
            None => r is None,
        },
{
    match first_supported_index(&release.assets) {
        Some(i) => Some(&release.assets[i]),
        None => None,
    }
}

} // verus!
