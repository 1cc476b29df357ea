//! What the download window lists, and what a click on a row downloads or
//! deletes.
use vstd::prelude::*;
use crate::compatibility_tools::compat_tool::{CompatTool, find_tool_by_name, first_named, tool_views};
use crate::compatibility_tools::updatable_compat_tool::UpdatableCompatTool;
use crate::dl_manager::downloadable_asset::{DownloadableAsset, DownloadableAssetView};
use crate::utils::text::{str_eq, to_string};

verus! {

/// A row of the download window: its number, whether the tool is already
/// installed, whether it is the row of the updatable tool, the text shown
/// and the name of the tool.
pub struct DownloadRow {
    pub id: i32,
    pub already_downloaded: bool,
    pub can_be_updated: bool,
    pub display_name: String,
    pub name: String,
}

/// The abstract value of a row.
pub struct DownloadRowView {
    pub id: i32,
    pub already_downloaded: bool,
    pub can_be_updated: bool,
    pub display_name: Seq<char>,
    pub name: Seq<char>,
}

impl View for DownloadRow {
    type V = DownloadRowView;

    open spec fn view(&self) -> DownloadRowView {
        DownloadRowView {
            id: self.id,
            already_downloaded: self.already_downloaded,
            can_be_updated: self.can_be_updated,
            display_name: self.display_name@,
            name: self.name@,
        }
    }
}

/// The row of the archive `a` at row number `id`: installed when a tool of
/// `installed` has the archive's name.
pub open spec fn asset_row(id: int, a: DownloadableAssetView, installed: Seq<CompatTool>) -> DownloadRowView {
    DownloadRowView {
        id: id as i32,
        already_downloaded: exists|j: int| 0 <= j < installed.len() && #[trigger] installed[j].name@ == a.asset_name,
        can_be_updated: false,
        display_name: a.display_name,
        name: a.asset_name,
    }
}

/// The rows of the download window: first the updatable tool (row 0), then
/// each archive in order (rows 1, 2, ...).
pub fn build_dl_assets_rows(
    updatable: &UpdatableCompatTool,
    assets: &Vec<DownloadableAsset>,
    installed: &Vec<CompatTool>,
) -> (r: Vec<DownloadRow>)
    requires
        assets@.len() < i32::MAX,
    ensures
        r@.len() == assets@.len() + 1,
        r@[0]@ == (DownloadRowView {
            id: 0,
            already_downloaded: updatable.local_version is Some,
            can_be_updated: true,
            display_name: updatable.display_name@,
            name: updatable.name@,
        }),
        forall|k: int| 0 <= k < assets@.len() ==> (#[trigger] r@[k + 1])@ == asset_row(k + 1, assets@[k]@, installed@),
{
    let mut rows: Vec<DownloadRow> = Vec::new();
    rows.push(DownloadRow {
        id: 0,
        already_downloaded: updatable.local_version.is_some(),
        can_be_updated: true,
        display_name: updatable.display_name.clone(),
        name: updatable.name.clone(),
    });
    let mut i: usize = 0;
    while i < assets.len()
        invariant
            assets@.len() < i32::MAX,
            i <= assets@.len(),
            rows@.len() == i + 1,
            rows@[0]@ == (DownloadRowView {
                id: 0,
                already_downloaded: updatable.local_version is Some,
                can_be_updated: true,
                display_name: updatable.display_name@,
                name: updatable.name@,
            }),
            forall|k: int| 0 <= k < i ==> (#[trigger] rows@[k + 1])@ == asset_row(k + 1, assets@[k]@, installed@),
        decreases assets.len() - i,
    {
        let a = &assets[i];
        let mut found = false;
        let mut j: usize = 0;
        while j < installed.len()
            invariant
                j <= installed@.len(),
                found == exists|m: int| 0 <= m < j && #[trigger] installed@[m].name@ == a.asset_name@,
            decreases installed.len() - j,
        {
            if str_eq(installed[j].name.as_str(), a.asset_name.as_str()) {
                found = true;
            }
            j = j + 1;
        }
        rows.push(DownloadRow {
            id: (i + 1) as i32,
            already_downloaded: found,
            can_be_updated: false,
            display_name: a.display_name.clone(),
            name: a.asset_name.clone(),
        });
        i = i + 1;
    }
    rows
}

/// The archive that a click on `row` downloads: for the updatable tool, the
/// newest archive (the first) unpacked into the updatable tool's folder
/// `updatable_path`; otherwise the first archive with the row's name.
pub fn asset_to_download(row: &DownloadRow, assets: &Vec<DownloadableAsset>, updatable_path: &str) -> (r: Option<DownloadableAsset>)
    ensures
        row.can_be_updated ==> match r {
            Some(a) => assets@.len() > 0 && a@ == (DownloadableAssetView { custom_folder: Some(updatable_path@), ..assets@[0]@ }),
            None => assets@.len() == 0,
        },
        !row.can_be_updated ==> match r {
            Some(a) => exists|k: int| 0 <= k < assets@.len() && assets@[k].asset_name@ == row.name@ && a@ == assets@[k]@
                && forall|j: int| 0 <= j < k ==> #[trigger] assets@[j].asset_name@ != row.name@,
            None => forall|j: int| 0 <= j < assets@.len() ==> #[trigger] assets@[j].asset_name@ != row.name@,
        },
{
    if row.can_be_updated {
        if assets.len() == 0 {
            return None;
        }
        let mut a = assets[0].clone();
        a.custom_folder = Some(to_string(updatable_path));
        return Some(a);
    }
    let mut i: usize = 0;
    while i < assets.len()
        invariant
            !row.can_be_updated,
            i <= assets@.len(),
            forall|j: int| 0 <= j < i ==> #[trigger] assets@[j].asset_name@ != row.name@,
        decreases assets.len() - i,
    {
        if str_eq(assets[i].asset_name.as_str(), row.name.as_str()) {
            return Some(assets[i].clone());
        }
        i = i + 1;
    }
    None
}

/// The folder to delete for a click on the row named `row_name`: the folder
/// of the first installed tool with that name; none when there is no such
/// tool.
pub fn compat_tool_to_delete(row_name: &str, tools: &Vec<CompatTool>) -> (r: Option<String>)
    ensures
        match first_named(tool_views(tools@), row_name@) {
            Some(i) => r matches Some(p) && p@ == tools@[i].dir_path@,
            None => r is None,
        },
{
    match find_tool_by_name(tools, row_name) {
        Some(i) => {
            assert(tool_views(tools@)[i as int] == tools@[i as int]@);
            Some(tools[i].dir_path.clone())
        },
        None => None,
    }
}

} // verus!
