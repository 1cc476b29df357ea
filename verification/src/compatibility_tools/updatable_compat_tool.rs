//! A compatibility tool that the wrapper downloads and keeps up to date.
use vstd::prelude::*;
use crate::compatibility_tools::compat_tool::{CompatTool, find_tool_by_name, first_named, tool_views};
use crate::utils::text::{concat, opt_view, path_join, path_join_seq, trim, trim_seq};

verus! {

/// An updatable tool: its folder name, the name it is shown under, its
/// folder, and the version installed, if any.
pub struct UpdatableCompatTool {
    pub name: String,
    pub display_name: String,
    pub path: String,
    pub local_version: Option<String>,
}

/// The folder name of the updatable tool with prefix `folder_prefix`.
pub open spec fn updatable_name(folder_prefix: Seq<char>) -> Seq<char> {
    folder_prefix + "-updatable"@
}

/// The folder name of the updatable tool with prefix `folder_prefix`.
pub fn updatable_tool_name(folder_prefix: &str) -> (r: String)
    ensures
        r@ == updatable_name(folder_prefix@),
{
    concat(folder_prefix, "-updatable")
}

/// The file that holds the installed version of the updatable tool with
/// prefix `folder_prefix`: `ssw_version` in the folder of the first tool of
/// that name among `compat_tools`; none when it is not installed.
pub fn installed_version_file(folder_prefix: &str, compat_tools: &Vec<CompatTool>) -> (r: Option<String>)
    ensures
        match first_named(tool_views(compat_tools@), updatable_name(folder_prefix@)) {
            Some(i) => r matches Some(p) && p@ == path_join_seq(compat_tools@[i].dir_path@, "ssw_version"@),
            None => r is None,
        },
{
    let name = updatable_tool_name(folder_prefix);
    match find_tool_by_name(compat_tools, name.as_str()) {
        Some(i) => {
            assert(tool_views(compat_tools@)[i as int].dir_path == compat_tools@[i as int].dir_path@);
            Some(path_join(compat_tools[i].dir_path.as_str(), "ssw_version"))
        },
        None => None,
    }
}

/// The text shown for an updatable tool: its name and, in brackets, its
/// installed version or `None`.
pub open spec fn updatable_display_name(name: Seq<char>, version: Option<Seq<char>>) -> Seq<char> {
    name + " ("@ + match version {
        Some(v) => v,
        None => "None"@,
    } + ")"@
}

impl UpdatableCompatTool {
    /// The updatable tool with prefix `folder_prefix`, kept in the
    /// compatibility tools folder `steam_compat_tools_path`, given the text
    /// of its version file when it is installed and the file could be read.
    pub fn from_tool_name(folder_prefix: &str, steam_compat_tools_path: &str, version_file_content: Option<String>) -> (r: Self)
        ensures
            r.name@ == updatable_name(folder_prefix@),
            r.path@ == path_join_seq(steam_compat_tools_path@, updatable_name(folder_prefix@)),
            opt_view(r.local_version) == match version_file_content {
                Some(c) => Some(trim_seq(c@)),
                None => None,
            },
            r.display_name@ == updatable_display_name(updatable_name(folder_prefix@), opt_view(r.local_version)),
    {
        let name = updatable_tool_name(folder_prefix);
        let path = path_join(steam_compat_tools_path, name.as_str());
        let local_version = match version_file_content {
            Some(c) => Some(trim(c.as_str())),
            None => None,
        };
        let mut display_name = concat(name.as_str(), " (");
        match &local_version {
            Some(v) => display_name.append(v.as_str()),
            None => display_name.append("None"),
        }
        display_name.append(")");
        UpdatableCompatTool { name, display_name, path, local_version }
    }
}

} // verus!
