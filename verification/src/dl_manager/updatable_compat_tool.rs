//! A downloadable compatibility tool and the version of it installed.
use vstd::prelude::*;
use crate::runner::compat_tools_wrapper::{CompatTool, first_listed_named, listed_views};
use crate::utils::text::{concat, opt_view, path_join, path_join_seq, str_eq, to_string, trim, trim_seq};

verus! {

/// A downloadable tool: its name, the prefix of its folder name, and the
/// version installed, if any.
pub struct UpdatableCompatTool {
    pub name: String,
    pub folder_prefix: String,
    pub local_version: Option<String>,
}

/// The name under which Steam lists the tool with prefix `folder_prefix`.
pub open spec fn updatable_listing_name(folder_prefix: Seq<char>) -> Seq<char> {
    folder_prefix + "-Updatable"@
}

/// The file that holds the installed version of the tool with prefix
/// `folder_prefix`: `version` in the folder of the first listed tool with
/// its name; none when it is not listed.
pub fn installed_version_path(folder_prefix: &str, compat_tools: &Vec<CompatTool>) -> (r: Option<String>)
    ensures
        match first_listed_named(listed_views(compat_tools@), updatable_listing_name(folder_prefix@)) {
            Some(i) => r matches Some(p) && p@ == path_join_seq(compat_tools@[i].dir_path@, "version"@),
            None => r is None,
        },
{
    let name = concat(folder_prefix, "-Updatable");
    let ghost tv = listed_views(compat_tools@);
    let mut i: usize = 0;
    while i < compat_tools.len()
        invariant
            tv == listed_views(compat_tools@),
            name@ == updatable_listing_name(folder_prefix@),
            i <= compat_tools@.len(),
            forall|j: int| 0 <= j < i ==> tv[j].name != name@,
        decreases compat_tools.len() - i,
    {
        assert(tv[i as int] == compat_tools@[i as int]@);
        if str_eq(compat_tools[i].name.as_str(), name.as_str()) {
            proof {
                let w = choose|k: int| 0 <= k < tv.len() && tv[k].name == name@
                    && forall|j: int| 0 <= j < k ==> tv[j].name != name@;
                if w < i {
                } else if w > i {
                    assert(tv[i as int].name != name@);
                }
            }
            return Some(path_join(compat_tools[i].dir_path.as_str(), "version"));
        }
        i = i + 1;
    }
    None
}

impl UpdatableCompatTool {
    /// The tool `name` with folder prefix `folder_prefix`, given the text of
    /// its version file when it is installed and the file could be read.
    pub fn from_tool_name(name: &str, folder_prefix: &str, version_file_content: Option<String>) -> (r: Self)
        ensures
            r.name@ == name@,
            r.folder_prefix@ == folder_prefix@,
            opt_view(r.local_version) == match version_file_content {
                Some(c) => Some(trim_seq(c@)),
                None => None,
            },
    {
        let local_version = match version_file_content {
            Some(c) => Some(trim(c.as_str())),
            None => None,
        };
        UpdatableCompatTool { name: to_string(name), folder_prefix: to_string(folder_prefix), local_version }
    }
}

} // verus!
