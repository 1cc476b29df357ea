//! Installing the wrapper as a Steam compatibility tool.
use vstd::prelude::*;
use crate::compatibility_tools::compat_tool::{CompatTool, tool_views};
use crate::steam::steam::{VDF_TEMPLATE_HEAD, VDF_TEMPLATE_MIDDLE, VDF_TEMPLATE_TAIL, create_compatibility_tool_vdf};
use crate::utils::text::{path_join, path_join_seq, str_eq, to_string};

verus! {

/// The tool manifest (`toolmanifest.vdf`) of the wrapper: the commands
/// Steam runs.
pub const TOOL_MANIFEST_VDF: &'static str = r#""manifest"
{
  "commandline" "/SimpleSteamWrapper run"
  "commandline_waitforexitandrun" "/SimpleSteamWrapper waitforexitandrun"
}
"#;

/// The name of the wrapper, as a folder, an executable and a tool.
pub const SIMPLE_STEAM_WRAPPER_NAME: &'static str = "SimpleSteamWrapper";

/// What installing the wrapper writes: its folder in the compatibility
/// tools folder, the copy of the executable in it, and the two declaration
/// files with their contents.
pub struct InstallPlan {
    pub wrapper_dir: String,
    pub executable_path: String,
    pub compat_tool_vdf_path: String,
    pub compat_tool_vdf: String,
    pub tool_manifest_path: String,
    pub tool_manifest: String,
}

/// The declaration of the wrapper: internal name `Proton-SimpleSteamWrapper`
/// (Steam cloud sync needs `Proton` in it), display name
/// `SimpleSteamWrapper`.
pub open spec fn wrapper_declaration() -> Seq<char> {
    VDF_TEMPLATE_HEAD@ + "Proton-SimpleSteamWrapper"@ + VDF_TEMPLATE_MIDDLE@ + "SimpleSteamWrapper"@ + VDF_TEMPLATE_TAIL@
}

/// What installing the wrapper into the compatibility tools folder
/// `compat_tools_path` writes.
pub fn install_plan(compat_tools_path: &str) -> (r: InstallPlan)
    ensures
        r.wrapper_dir@ == path_join_seq(compat_tools_path@, SIMPLE_STEAM_WRAPPER_NAME@),
        r.executable_path@ == path_join_seq(r.wrapper_dir@, SIMPLE_STEAM_WRAPPER_NAME@),
        r.compat_tool_vdf_path@ == path_join_seq(r.wrapper_dir@, "compatibilitytool.vdf"@),
        r.compat_tool_vdf@ == wrapper_declaration(),
        r.tool_manifest_path@ == path_join_seq(r.wrapper_dir@, "toolmanifest.vdf"@),
        r.tool_manifest@ == TOOL_MANIFEST_VDF@,
{
    let wrapper_dir = path_join(compat_tools_path, SIMPLE_STEAM_WRAPPER_NAME);
    let executable_path = path_join(wrapper_dir.as_str(), SIMPLE_STEAM_WRAPPER_NAME);
    let compat_tool_vdf_path = path_join(wrapper_dir.as_str(), "compatibilitytool.vdf");
    let compat_tool_vdf = create_compatibility_tool_vdf("Proton-SimpleSteamWrapper", "SimpleSteamWrapper");
    let tool_manifest_path = path_join(wrapper_dir.as_str(), "toolmanifest.vdf");
    InstallPlan {
        wrapper_dir,
        executable_path,
        compat_tool_vdf_path,
        compat_tool_vdf,
        tool_manifest_path,
        tool_manifest: to_string(TOOL_MANIFEST_VDF),
    }
}

/// Whether the wrapper still has to be installed: no tool Steam knows is
/// named `SimpleSteamWrapper`.
pub fn check_install(steam_compat_tools: &Vec<CompatTool>) -> (needs_install: bool)
    ensures
        needs_install == !(exists|i: int| 0 <= i < steam_compat_tools@.len()
            && #[trigger] tool_views(steam_compat_tools@)[i].name == SIMPLE_STEAM_WRAPPER_NAME@),
{
    let ghost tv = tool_views(steam_compat_tools@);
    let mut i: usize = 0;
    while i < steam_compat_tools.len()
        invariant
            tv == tool_views(steam_compat_tools@),
            i <= steam_compat_tools@.len(),
            forall|j: int| 0 <= j < i ==> #[trigger] tv[j].name != SIMPLE_STEAM_WRAPPER_NAME@,
        decreases steam_compat_tools.len() - i,
    {
        assert(tv[i as int].name == steam_compat_tools@[i as int].name@);
        if str_eq(steam_compat_tools[i].name.as_str(), SIMPLE_STEAM_WRAPPER_NAME) {
            return false;
        }
        i = i + 1;
    }
    true
}

} // verus!
