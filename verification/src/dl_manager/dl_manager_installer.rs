//! Where a downloaded archive is unpacked, and what is written beside it.
use vstd::prelude::*;
use crate::dl_manager::downloadable_asset::DownloadableAsset;
use crate::steam::steam::{VDF_TEMPLATE_HEAD, VDF_TEMPLATE_MIDDLE, VDF_TEMPLATE_TAIL, create_compatibility_tool_vdf};
use crate::utils::text::{opt_view, path_join, path_join_seq, str_eq, to_string};

verus! {

/// The last component of the path `p`, as `std::path::Path::file_name`
/// gives it.
pub uninterp spec fn path_file_name(p: Seq<char>) -> Option<Seq<char>>;

/// `std::path::Path::file_name`: the final component of a path, none when
/// the path ends in `..` or has no component. Its result is given the name
/// `path_file_name`.
#[verifier::external_body]
fn file_name_of(p: &str) -> (r: Option<String>)
    ensures
        opt_view(r) == path_file_name(p@),
{
    match std::path::Path::new(p).file_name() {
        Some(n) => match n.to_str() {
            Some(s) => Some(s.to_string()),
            None => None,
        },
        None => None,
    }
}

/// What marks a tool unpacked into a folder of its own: the file that
/// holds the archive's name as the installed version, and the tool's
/// declaration named after the folder.
pub struct ToolMarker {
    pub version_file: String,
    pub version: String,
    pub declaration_file: String,
    pub declaration: String,
}

/// How a downloaded archive is unpacked: whether it is read as xz (else its
/// compression is detected), the folder the unpacked tool goes to, and
/// what marks it when that folder is the archive's own.
pub struct ExtractionPlan {
    pub use_xz: bool,
    pub destination: String,
    pub marker: Option<ToolMarker>,
}

/// The folder that the unpacked tool goes to: the archive's own folder in
/// the compatibility tools folder, or else the folder the archive unpacks
/// to (`first_entry`).
pub open spec fn destination_of(custom_folder: Option<Seq<char>>, compat_tools_path: Seq<char>, first_entry: Seq<char>) -> Seq<char> {
    match custom_folder {
        Some(f) => path_join_seq(compat_tools_path, f),
        None => path_join_seq(compat_tools_path, first_entry),
    }
}

/// The abstract value of a marker: the version file and its text, the
/// declaration file and its text.
pub open spec fn marker_view(m: Option<ToolMarker>) -> Option<(Seq<char>, Seq<char>, Seq<char>, Seq<char>)> {
    match m {
        Some(m) => Some((m.version_file@, m.version@, m.declaration_file@, m.declaration@)),
        None => None,
    }
}

/// What marks the tool unpacked to `dest`: nothing when the archive has no
/// folder of its own; else `ssw_ct_version` holding the archive's name and
/// a declaration naming the tool after the folder.
pub open spec fn expected_marker(custom_folder: Option<Seq<char>>, dest: Seq<char>, asset_name: Seq<char>) -> Option<(Seq<char>, Seq<char>, Seq<char>, Seq<char>)> {
    match custom_folder {
        None => None,
        Some(_) => match path_file_name(dest) {
            Some(name) => Some((
                path_join_seq(dest, "ssw_ct_version"@),
                asset_name,
                path_join_seq(dest, "compatibilitytool.vdf"@),
                VDF_TEMPLATE_HEAD@ + name + VDF_TEMPLATE_MIDDLE@ + name + VDF_TEMPLATE_TAIL@,
            )),
            None => None,
        },
    }
}

/// How to unpack `asset` into the compatibility tools folder
/// `compat_tools_path`, `first_entry` being the name of the first folder
/// the archive unpacks to. None when the archive has a folder of its own
/// whose path has no final name (where an unwrap fails).
pub fn extraction_plan(asset: &DownloadableAsset, compat_tools_path: &str, first_entry: &str) -> (r: Option<ExtractionPlan>)
    ensures
        match r {
            Some(p) => {
                &&& p.use_xz == (asset.content_type@ == "application/x-xz"@)
                &&& p.destination@ == destination_of(opt_view(asset.custom_folder), compat_tools_path@, first_entry@)
                &&& marker_view(p.marker) == expected_marker(
                    opt_view(asset.custom_folder),
                    destination_of(opt_view(asset.custom_folder), compat_tools_path@, first_entry@),
                    asset.asset_name@,
                )
            },
            None => asset.custom_folder is Some
                && path_file_name(destination_of(opt_view(asset.custom_folder), compat_tools_path@, first_entry@)) is None,
        },
{
    let use_xz = str_eq(asset.content_type.as_str(), "application/x-xz");
    match &asset.custom_folder {
        None => {
            let destination = path_join(compat_tools_path, first_entry);
            Some(ExtractionPlan { use_xz, destination, marker: None })
        },
        Some(folder) => {
            let destination = path_join(compat_tools_path, folder.as_str());
            let name = match file_name_of(destination.as_str()) {
                Some(n) => n,
                None => return None,
            };
            let marker = ToolMarker {
                version_file: path_join(destination.as_str(), "ssw_ct_version"),
                version: asset.asset_name.clone(),
                declaration_file: path_join(destination.as_str(), "compatibilitytool.vdf"),
                declaration: create_compatibility_tool_vdf(name.as_str(), name.as_str()),
            };
            Some(ExtractionPlan { use_xz, destination, marker: Some(marker) })
        },
    }
}

} // verus!
