//! Compatibility tools as Steam lists them: a display name, a directory and
//! the full path of the executable; and the choice of one of them.
use vstd::prelude::*;
use crate::steam::vdf::{VdfEntry, VdfModel, entry_get, entry_path, entry_str, lookup_path};
use crate::utils::text::str_eq;

verus! {

/// A compatibility tool found in the Steam folders.
pub struct CompatTool {
    pub name: String,
    pub dir_path: String,
    pub path: String,
}

/// The abstract value of a listed compatibility tool.
pub struct ListedToolView {
    pub name: Seq<char>,
    pub dir_path: Seq<char>,
    pub path: Seq<char>,
}

impl View for CompatTool {
    type V = ListedToolView;

    open spec fn view(&self) -> ListedToolView {
        ListedToolView { name: self.name@, dir_path: self.dir_path@, path: self.path@ }
    }
}

impl Clone for CompatTool {
    fn clone(&self) -> (r: Self)
        ensures
            r@ == self@,
    {
        CompatTool { name: self.name.clone(), dir_path: self.dir_path.clone(), path: self.path.clone() }
    }
}

/// The views of a list of tools.
pub open spec fn listed_views(v: Seq<CompatTool>) -> Seq<ListedToolView> {
    v.map_values(|t: CompatTool| t@)
}

/// The index of the first tool named `name`, if any.
pub open spec fn first_listed_named(tools: Seq<ListedToolView>, name: Seq<char>) -> Option<int> {
    if exists|i: int| 0 <= i < tools.len() && tools[i].name == name {
        Some(choose|i: int| 0 <= i < tools.len() && tools[i].name == name
            && forall|j: int| 0 <= j < i ==> tools[j].name != name)
    } else {
        None
    }
}

/// The tool chosen among `tools` for the name `selected`: the first tool
/// with that name, or the first tool when none has it.
pub open spec fn chosen_tool(tools: Seq<ListedToolView>, selected: Seq<char>) -> ListedToolView {
    match first_listed_named(tools, selected) {
        Some(i) => tools[i],
        None => tools[0],
    }
}

/// The compatibility tool selected in the configuration (`selected` is the
/// configured name): the first listed tool with that name, or else the
/// first listed tool. There must be at least one tool.
pub fn get_compat_tool_from_config(selected: &str, all_compat_tools: &Vec<CompatTool>) -> (r: CompatTool)
    requires
        all_compat_tools@.len() > 0,
    ensures
        r@ == chosen_tool(listed_views(all_compat_tools@), selected@),
{
    let ghost tv = listed_views(all_compat_tools@);
    let mut i: usize = 0;
    while i < all_compat_tools.len()
        invariant
            tv == listed_views(all_compat_tools@),
            i <= all_compat_tools.len(),
            forall|j: int| 0 <= j < i ==> tv[j].name != selected@,
        decreases all_compat_tools.len() - i,
    {
        if str_eq(all_compat_tools[i].name.as_str(), selected) {
            proof {
                assert(tv[i as int].name == selected@);
                let w = choose|k: int| 0 <= k < tv.len() && tv[k].name == selected@
                    && forall|j: int| 0 <= j < k ==> tv[j].name != selected@;
                if w < i {
                } else if w > i {
                    assert(tv[i as int].name != selected@);
                }
            }
            return all_compat_tools[i].clone();
        }
        i = i + 1;
    }
    assert(tv[0].name == all_compat_tools@[0].name@);
    all_compat_tools[0].clone()
}

/// The text of an entry found by a lookup, or the empty text.
pub open spec fn text_or_empty(e: Option<VdfModel>) -> Seq<char> {
    match e {
        Some(x) => match entry_str(x) {
            Some(s) => s,
            None => Seq::empty(),
        },
        None => Seq::empty(),
    }
}

/// Where the Steam configuration keeps the name of the default
/// compatibility tool, below `InstallConfigStore`.
pub open spec fn default_tool_key() -> Seq<char> {
    "Software.Valve.Steam.CompatToolMapping.0.name"@
}

/// The name of the compatibility tool that Steam uses by default, read from
/// its configuration (`config/config.vdf`): the text at
/// `Software.Valve.Steam.CompatToolMapping.0.name` below
/// `InstallConfigStore`, or the empty text when there is none. `None` when
/// the configuration has no `InstallConfigStore` entry, where a lookup by
/// index fails.
pub fn get_steam_default_compat_tool(steam_config: &VdfEntry) -> (r: Option<String>)
    ensures
        match entry_get(steam_config@, "InstallConfigStore"@) {
            Some(store) => r matches Some(s) && s@ == text_or_empty(
                entry_path(store, lookup_path(default_tool_key())),
            ),
            None => r is None,
        },
{
    let store = match steam_config.get("InstallConfigStore") {
        Some(s) => s,
        None => return None,
    };
    let key = "Software.Valve.Steam.CompatToolMapping.0.name";
    let found = store.lookup(key);
    let text = match found {
        Some(x) => match x.as_str() {
            Some(s) => String::from_str(s),
            None => String::new(),
        },
        None => String::new(),
    };
    Some(text)
}

} // verus!
