use simple_steam_wrapper::compatibility_tools::app_prefix::AppPrefix;
use simple_steam_wrapper::compatibility_tools::compat_tool::{get_compat_tool_from_config, CompatTool, CompatToolType};
use simple_steam_wrapper::compatibility_tools::compat_tools_list::CompatToolsList;
use simple_steam_wrapper::compatibility_tools::compat_tools_wrapper::{
    get_wine_variables, reset_prefix_command, run_in_prefix_command, winetricks_in_prefix_command,
};
use simple_steam_wrapper::compatibility_tools::steam_compat_tools_list::SteamCompatToolsList;
use simple_steam_wrapper::config::config::Options;
use simple_steam_wrapper::install::install::{check_install, install_plan, TOOL_MANIFEST_VDF};
use simple_steam_wrapper::runner::compat_tools_wrapper::CompatTool as ListedTool;
use simple_steam_wrapper::runner::game_process_wrapper::{
    enabled_tweaks_in_order, get_run_verb, is_tweak_enabled, wrapper_command, wrapper_command_line, RunVerb,
};
use simple_steam_wrapper::runner::runtime::Runtime;
use simple_steam_wrapper::tweak_collector::PreparedCommand;

fn strings(v: &[&str]) -> Vec<String> {
    v.iter().map(|s| s.to_string()).collect()
}

fn tool(name: &str, compat_type: CompatToolType) -> CompatTool {
    CompatTool {
        compat_type,
        name: name.to_string(),
        dir_path: format!("/ct/{}", name),
        cmd_line: strings(&["proton", "%verb%"]),
        required_runtime: None,
    }
}

#[test]
fn run_verbs_round_trip() {
    assert_eq!(get_run_verb(Some("run".to_string())), Some(RunVerb::Run));
    assert_eq!(get_run_verb(Some("waitforexitandrun".to_string())), Some(RunVerb::Waitforexitandrun));
    assert_eq!(get_run_verb(Some("Run".to_string())), None);
    assert_eq!(get_run_verb(None), None);
    for v in [RunVerb::Run, RunVerb::Waitforexitandrun] {
        assert_eq!(RunVerb::from_str(&v.to_string()), Some(v));
    }
}

#[test]
fn compat_tool_types_round_trip() {
    assert_eq!(CompatToolType::Proton.to_string(), "proton");
    assert_eq!(CompatToolType::SimpleSteamWrapper.to_string(), "simple-steam-wrapper");
    for t in [CompatToolType::SimpleSteamWrapper, CompatToolType::Proton, CompatToolType::ScoutInContainer] {
        assert_eq!(CompatToolType::from_str(&t.to_string()), Some(t));
    }
    assert_eq!(CompatToolType::from_str("Proton"), None);
}

#[test]
fn tool_and_runtime_commands_substitute_the_verb() {
    let t = tool("GE", CompatToolType::Proton);
    assert_eq!(t.get_exec_path(), "/ct/GE/proton");
    assert_eq!(t.get_full_command(RunVerb::Waitforexitandrun), strings(&["/ct/GE/proton", "waitforexitandrun"]));
    let rt = Runtime {
        path: "/sniper".to_string(),
        cmdline: strings(&["_v2-entry-point", "--verb=%verb%", "--"]),
        name: "sniper".to_string(),
    };
    assert_eq!(rt.get_exec_path(), "/sniper/_v2-entry-point");
    assert_eq!(rt.get_full_command(RunVerb::Run), strings(&["/sniper/_v2-entry-point", "--verb=run", "--"]));
}

#[test]
fn wine_bin_only_for_proton() {
    assert_eq!(tool("x", CompatToolType::ScoutInContainer).find_wine_bin(), None);
    assert_eq!(tool("nonexistent-tool-dir", CompatToolType::Proton).find_wine_bin(), None);
}

#[test]
fn configured_tool_is_found_by_name() {
    let tools = vec![tool("A", CompatToolType::Proton), tool("B", CompatToolType::Proton)];
    let mut options = Options::new();
    assert!(get_compat_tool_from_config(&options, &tools).is_none());
    options.compat_tool = "B".to_string();
    assert_eq!(get_compat_tool_from_config(&options, &tools).unwrap().dir_path, "/ct/B");
    options.compat_tool = "C".to_string();
    assert!(get_compat_tool_from_config(&options, &tools).is_none());
}

#[test]
fn tool_lists_fill_once() {
    let mut list = CompatToolsList::new();
    let got = list.get(|| vec![tool("A", CompatToolType::Proton)]);
    assert_eq!(got.len(), 1);
    let again = list.get(|| Vec::new());
    assert_eq!(again[0].name, "A");
    list.refresh(Vec::new());
    assert!(list.get_list_internal().is_empty());
    let mut steam = SteamCompatToolsList::new();
    assert_eq!(steam.get_list(|| vec![tool("B", CompatToolType::Proton)]).len(), 1);
    steam.refresh_list(|| vec![tool("C", CompatToolType::Proton), tool("D", CompatToolType::Proton)]);
    assert_eq!(steam.get_list_internal().len(), 2);
    steam.refresh_list_internal(Vec::new());
    assert!(steam.get_list_internal().is_empty());
}

#[test]
fn install_is_needed_without_the_wrapper() {
    assert!(check_install(&vec![tool("GE", CompatToolType::Proton)]));
    assert!(!check_install(&vec![tool("GE", CompatToolType::Proton), tool("SimpleSteamWrapper", CompatToolType::SimpleSteamWrapper)]));
    let plan = install_plan("/s/compatibilitytools.d");
    assert_eq!(plan.wrapper_dir, "/s/compatibilitytools.d/SimpleSteamWrapper");
    assert_eq!(plan.executable_path, "/s/compatibilitytools.d/SimpleSteamWrapper/SimpleSteamWrapper");
    assert_eq!(plan.tool_manifest_path, "/s/compatibilitytools.d/SimpleSteamWrapper/toolmanifest.vdf");
    assert_eq!(plan.tool_manifest, TOOL_MANIFEST_VDF);
    assert!(TOOL_MANIFEST_VDF.contains("\"commandline\" \"/SimpleSteamWrapper run\""));
    assert!(plan.compat_tool_vdf.contains("\"Proton-SimpleSteamWrapper\" // Internal name of this tool"));
}

#[test]
fn tweaks_run_by_priority_then_listing() {
    let tweaks = vec![("gamescope".to_string(), 10), ("mangohud".to_string(), 0), ("nvapi".to_string(), 10), ("off".to_string(), -5)];
    let enabled = vec![
        ("gamescope".to_string(), true),
        ("mangohud".to_string(), true),
        ("nvapi".to_string(), true),
        ("off".to_string(), false),
        ("nvapi".to_string(), false),
    ];
    assert_eq!(enabled_tweaks_in_order(&tweaks, &enabled), vec![1, 0, 2]);
    assert!(is_tweak_enabled(&enabled, "nvapi"));
    assert!(!is_tweak_enabled(&enabled, "unknown"));
    assert!(enabled_tweaks_in_order(&tweaks, &Vec::new()).is_empty());
}

#[test]
fn wrapper_command_line_is_assembled() {
    let mut prepared = PreparedCommand::new(strings(&["game.exe", "-dx11"]));
    prepared.command_prefixes = strings(&["gamescope", "--"]);
    let runtime = strings(&["/sniper/_v2-entry-point", "--verb=run", "--"]);
    assert_eq!(
        wrapper_command(RunVerb::Run, &prepared, &runtime, "/ct/GE/proton"),
        strings(&["/sniper/_v2-entry-point", "--verb=run", "--", "/ct/GE/proton", "run", "game.exe", "-dx11"])
    );
    assert_eq!(
        wrapper_command(RunVerb::Waitforexitandrun, &prepared, &Vec::new(), "/p"),
        strings(&["gamescope", "--", "/p", "waitforexitandrun", "game.exe", "-dx11"])
    );
    assert_eq!(
        wrapper_command_line(RunVerb::Run, &PreparedCommand::new(Vec::new()), &Vec::new(), "/p"),
        "\"/p\" \"run\""
    );
}

#[test]
fn prefix_paths_and_commands() {
    let pfx = AppPrefix::from_env("/data/123".to_string());
    assert_eq!(pfx.as_path(), "/data/123");
    assert_eq!(pfx.as_wine_path(), "/data/123/pfx");
    assert_eq!(pfx.as_proton_path().ok(), Some("/data/123".to_string()));
    let plan = pfx.winetricks_command("/ct/GE/files/bin/wine".to_string());
    assert_eq!(plan.program, "winetricks");
    assert_eq!(plan.envs[0], ("WINEPREFIX".to_string(), "/data/123/pfx".to_string()));
    let reset = pfx.reset_prefix_command("/ct/GE/proton".to_string());
    assert_eq!(reset.args, strings(&["run", "/bin/true"]));
    let run = pfx.run_in_prefix_command(
        "/wine".to_string(),
        "setup.exe".to_string(),
        strings(&["/S"]),
        vec![("A".to_string(), "1".to_string())],
        None,
    );
    assert_eq!(run.program, "sh");
    assert_eq!(run.args, strings(&["-c", "\"/wine\" \"setup.exe\" \"/S\""]));
    assert_eq!(run.envs[1], ("A".to_string(), "1".to_string()));
    assert!(pfx.run_wiretricks(&tool("x", CompatToolType::ScoutInContainer)).is_none());
}

#[test]
fn listed_tool_prefix_commands() {
    let t = ListedTool { name: "GE".to_string(), dir_path: "/ct/GE".to_string(), path: "/ct/GE/proton".to_string() };
    let vars = get_wine_variables("/data/1", &t, "/games/x");
    assert_eq!(
        vars,
        vec![
            ("WINEPREFIX".to_string(), "/data/1/pfx".to_string()),
            ("WINE".to_string(), "/ct/GE/files/bin/wine".to_string()),
            ("PWD".to_string(), "/games/x".to_string()),
            ("WINEDEBUG".to_string(), "-all".to_string()),
        ]
    );
    let w = winetricks_in_prefix_command(&vars);
    assert_eq!(w.envs.len(), 6);
    assert_eq!(w.envs[5], ("LD_LIBRARY_PATH".to_string(), String::new()));
    let r = reset_prefix_command(&t, "/data/1");
    assert_eq!(r.program, "/ct/GE/proton");
    let run = run_in_prefix_command(&vars, &t, "/x/setup.exe", Some("xterm".to_string()));
    assert_eq!(run.program, "xterm");
    assert_eq!(run.args, strings(&["-e", "\"/ct/GE/files/bin/wine\" \"/x/setup.exe\""]));
}

#[test]
fn listed_tool_runs_as_path_and_verb() {
    let listed = ListedTool { name: "GE".to_string(), dir_path: "/ct/GE".to_string(), path: "/ct/GE/proton".to_string() };
    let t = CompatTool::from_listed(&listed);
    assert_eq!(t.compat_type, CompatToolType::Proton);
    assert_eq!(t.get_full_command(RunVerb::Run), strings(&["/ct/GE/proton", "run"]));
    assert_eq!(t.get_exec_path(), "/ct/GE/proton");
}
