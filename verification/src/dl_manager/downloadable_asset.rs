//! An archive that can be downloaded and unpacked into the compatibility
//! tools folder.
use vstd::prelude::*;
use crate::dl_manager::github_api::SimplifiedGithubAsset;
use crate::io_utils::without_extensions;
use crate::utils::text::{opt_view, to_string};

verus! {

/// A downloadable archive: the names it is shown and kept under, where to
/// get it, its archive type and, when it has one, the folder to unpack it
/// into.
pub struct DownloadableAsset {
    pub display_name: String,
    pub asset_name: String,
    pub browser_download_url: String,
    pub content_type: String,
    pub custom_folder: Option<String>,
}

/// The abstract value of a downloadable archive.
pub struct DownloadableAssetView {
    pub display_name: Seq<char>,
    pub asset_name: Seq<char>,
    pub browser_download_url: Seq<char>,
    pub content_type: Seq<char>,
    pub custom_folder: Option<Seq<char>>,
}

impl View for DownloadableAsset {
    type V = DownloadableAssetView;

    open spec fn view(&self) -> DownloadableAssetView {
        DownloadableAssetView {
            display_name: self.display_name@,
            asset_name: self.asset_name@,
            browser_download_url: self.browser_download_url@,
            content_type: self.content_type@,
            custom_folder: opt_view(self.custom_folder),
        }
    }
}

impl Clone for DownloadableAsset {
    fn clone(&self) -> (r: Self)
        ensures
            r@ == self@,
    {
        DownloadableAsset {
            display_name: self.display_name.clone(),
            asset_name: self.asset_name.clone(),
            browser_download_url: self.browser_download_url.clone(),
            content_type: self.content_type.clone(),
            custom_folder: match &self.custom_folder {
                Some(f) => Some(f.clone()),
                None => None,
            },
        }
    }
}

/// The downloadable archive of a release asset: shown and kept under the
/// asset's name without extensions, with no folder of its own.
pub open spec fn downloadable_of(asset: crate::dl_manager::github_api::AssetView) -> DownloadableAssetView {
    DownloadableAssetView {
        display_name: without_extensions(asset.name),
        asset_name: without_extensions(asset.name),
        browser_download_url: asset.browser_download_url,
        content_type: asset.content_type,
        custom_folder: None,
    }
}

impl DownloadableAsset {
    /// The downloadable archive of a release asset.
    pub fn from(asset: &SimplifiedGithubAsset) -> (r: Self)
        ensures
            r@ == downloadable_of(asset@),
    {
        DownloadableAsset {
            asset_name: to_string(asset.name_without_ext()),
            display_name: to_string(asset.name_without_ext()),
            custom_folder: None,
            browser_download_url: asset.browser_download_url.clone(),
            content_type: asset.content_type.clone(),
        }
    }
}

} // verus!
