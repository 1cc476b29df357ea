use simple_steam_wrapper::runner::compat_tools_wrapper::{get_compat_tool_from_config, get_steam_default_compat_tool, CompatTool};
use simple_steam_wrapper::steam::installed_steam_apps::{
    app_manifest_refs, get_installed_steam_apps, get_installed_steam_apps_inner, installed_app_from_manifest, AppManifestRef,
    InstalledSteamApp, InstalledSteamApps,
};
use simple_steam_wrapper::steam::steam::{
    create_compatibility_tool_vdf, get_steam_compat_tools_path, list_steam_compat_tools, get_steam_path, get_steam_sniper_runtime, installed_compat_tool_apps,
    is_windows_os_list, parse_steam_compat_tool_from_app, read_cmd_from_manifest, read_compat_tool_declaration,
    read_cmd_from_manifest_text, read_compat_tool_declaration_text, steam_valid_compat_app_ids, CompatToolVdfError, ManifestError,
};
use simple_steam_wrapper::steam::vdf::VdfEntry;
use simple_steam_wrapper::steam::vdf_text::parse_vdf_text;

fn table(entries: Vec<(&str, VdfEntry)>) -> VdfEntry {
    VdfEntry::Table(entries.into_iter().map(|(k, v)| (k.to_string(), v)).collect())
}

fn value(s: &str) -> VdfEntry {
    VdfEntry::Value(s.to_string())
}

fn app(id: &str, name: &str, path: &str) -> InstalledSteamApp {
    InstalledSteamApp { id: id.to_string(), name: name.to_string(), path: path.to_string() }
}

#[test]
fn vdf_get_and_lookup() {
    let root = table(vec![("a", table(vec![("b", VdfEntry::Array(vec![value("x"), value("y")]))]))]);
    assert!(matches!(root.get("a"), Some(VdfEntry::Table(_))));
    assert!(root.get("z").is_none());
    assert_eq!(root.lookup("a.b.1").and_then(|e| e.as_str()), Some("y"));
    assert_eq!(root.lookup(" a . b . 0 ").and_then(|e| e.as_str()), Some("x"));
    assert!(root.lookup("a.b.2").is_none());
    assert!(root.lookup("a.b.-1").is_none());
}

#[test]
fn command_is_read_from_tool_manifest() {
    let manifest = table(vec![("manifest", table(vec![("commandline", value("/proton %verb%"))]))]);
    assert_eq!(read_cmd_from_manifest(&manifest), Some("proton %verb%".to_string()));
    let relative = table(vec![("manifest", table(vec![("commandline", value("proton"))]))]);
    assert_eq!(read_cmd_from_manifest(&relative), Some(String::new()));
    let no_line = table(vec![("manifest", table(vec![]))]);
    assert_eq!(read_cmd_from_manifest(&no_line), Some(String::new()));
    assert_eq!(read_cmd_from_manifest(&table(vec![])), None);
}

#[test]
fn steam_app_tool_uses_manifest_command() {
    let manifest = table(vec![("manifest", table(vec![("commandline", value("/proton %verb%"))]))]);
    let tool = parse_steam_compat_tool_from_app(&app("2805730", "Proton 9.0", "/lib/steamapps/common/Proton 9.0"), &manifest).unwrap();
    assert_eq!(tool.name, "Proton 9.0");
    assert_eq!(tool.dir_path, "/lib/steamapps/common/Proton 9.0");
    assert_eq!(tool.path, "/lib/steamapps/common/Proton 9.0/proton");
}

#[test]
fn default_compat_tool_is_read_from_steam_config() {
    let config = table(vec![(
        "InstallConfigStore",
        table(vec![(
            "Software",
            table(vec![(
                "Valve",
                table(vec![(
                    "Steam",
                    table(vec![("CompatToolMapping", table(vec![("0", table(vec![("name", value("proton_9"))]))]))]),
                )]),
            )]),
        )]),
    )]);
    assert_eq!(get_steam_default_compat_tool(&config), Some("proton_9".to_string()));
    let empty_store = table(vec![("InstallConfigStore", table(vec![]))]);
    assert_eq!(get_steam_default_compat_tool(&empty_store), Some(String::new()));
    assert_eq!(get_steam_default_compat_tool(&table(vec![])), None);
}

fn declaration(os: Option<&str>, display: Option<&str>) -> VdfEntry {
    let mut data = vec![("install_path", value("."))];
    if let Some(os) = os {
        data.push(("from_oslist", value(os)));
    }
    if let Some(d) = display {
        data.push(("display_name", value(d)));
    }
    table(vec![("compatibilitytools", table(vec![("compat_tools", table(vec![("GE-Proton9", table(data))]))]))])
}

#[test]
fn compat_tool_declaration_is_read() {
    let decl = read_compat_tool_declaration("/ct/GE-Proton9", &declaration(Some("Windows"), Some("GE-Proton 9"))).ok().unwrap();
    assert_eq!(decl.install_dir, "/ct/GE-Proton9/.");
    assert_eq!(decl.display_name, Some("GE-Proton 9".to_string()));
    let decl = read_compat_tool_declaration("/ct/x", &declaration(None, None)).ok().unwrap();
    assert_eq!(decl.display_name, None);
    assert_eq!(read_compat_tool_declaration("/ct/x", &declaration(Some("linux"), Some("n"))).err(), Some(CompatToolVdfError::NotForWindows));
    assert_eq!(read_compat_tool_declaration("/ct/x", &table(vec![])).err(), Some(CompatToolVdfError::Malformed));
    assert!(is_windows_os_list("windows"));
    assert!(!is_windows_os_list("Windows"));
}

#[test]
fn compatibility_tool_vdf_template() {
    let text = create_compatibility_tool_vdf("Proton-SimpleSteamWrapper", "SimpleSteamWrapper");
    assert!(text.starts_with("\"compatibilitytools\"\n{\n  \"compat_tools\"\n  {\n    \"Proton-SimpleSteamWrapper\" // Internal name of this tool\n"));
    assert!(text.contains("      \"display_name\" \"SimpleSteamWrapper\"\n\n      \"from_oslist\"  \"windows\"\n"));
    assert!(text.ends_with("      \"to_oslist\"    \"linux\"\n    }\n  }\n}\n"));
    assert!(text.contains("\"install_path\" \".\""));
}

#[test]
fn steam_paths() {
    assert_eq!(get_steam_path(&None), None);
    assert_eq!(get_steam_compat_tools_path("/home/u/.steam/steam"), "/home/u/.steam/steam/compatibilitytools.d");
    let found = get_steam_path(&Some("/nonexistent-home-for-tests".to_string()));
    assert_eq!(found, None);
}

#[test]
fn installed_apps_map_keeps_last_app_per_id() {
    let mut apps = InstalledSteamApps::new();
    assert!(apps.get("1").is_none());
    apps.insert(app("1", "A", "/a"));
    apps.insert(app("2", "B", "/b"));
    apps.insert(app("1", "C", "/c"));
    assert_eq!(apps.get("1").unwrap().name, "C");
    assert_eq!(apps.get("2").unwrap().path, "/b");
    let copy = get_installed_steam_apps(&apps);
    assert_eq!(copy.get("1").unwrap().path, "/c");
}

#[test]
fn sniper_runtime_is_app_1628350() {
    let mut apps = InstalledSteamApps::new();
    assert!(get_steam_sniper_runtime(&apps).is_none());
    apps.insert(app("1628350", "Steam Linux Runtime 3.0 (sniper)", "/lib/steamapps/common/SteamLinuxRuntime_sniper"));
    assert_eq!(get_steam_sniper_runtime(&apps).unwrap().name, "Steam Linux Runtime 3.0 (sniper)");
}

#[test]
fn compat_tool_apps_follow_the_id_list() {
    let mut apps = InstalledSteamApps::new();
    apps.insert(app("858280", "Proton 3.7", "/p37"));
    apps.insert(app("2805730", "Proton 9.0", "/p9"));
    apps.insert(app("570", "Dota 2", "/dota"));
    let tools = installed_compat_tool_apps(&apps);
    let names: Vec<&str> = tools.iter().map(|a| a.name.as_str()).collect();
    assert_eq!(names, vec!["Proton 9.0", "Proton 3.7"]);
    assert_eq!(steam_valid_compat_app_ids().len(), 14);
}

#[test]
fn manifests_listed_by_library_folders() {
    let library = table(vec![(
        "libraryfolders",
        table(vec![("0", table(vec![("path", value("/lib")), ("apps", table(vec![("570", value("123")), ("2805730", value("9"))]))]))]),
    )]);
    let refs = app_manifest_refs(&library).unwrap();
    assert_eq!(refs.len(), 2);
    assert_eq!(refs[0].app_id, "570");
    assert_eq!(refs[0].manifest_path, "/lib/steamapps/appmanifest_570.acf");
    assert_eq!(refs[1].library_path, "/lib");
    let broken = table(vec![("libraryfolders", table(vec![("0", table(vec![("path", value("/lib"))]))]))]);
    assert!(app_manifest_refs(&broken).is_none());
    assert!(app_manifest_refs(&table(vec![])).is_none());
}

#[test]
fn installed_apps_from_manifests() {
    let r = AppManifestRef {
        library_path: "/lib".to_string(),
        app_id: "570".to_string(),
        manifest_path: "/lib/steamapps/appmanifest_570.acf".to_string(),
    };
    let manifest = table(vec![("AppState", table(vec![("name", value("Dota 2")), ("installdir", value("dota 2 beta"))]))]);
    let a = installed_app_from_manifest(&r, &manifest).unwrap();
    assert_eq!(a.id, "570");
    assert_eq!(a.path, "/lib/steamapps/common/dota 2 beta");
    assert!(installed_app_from_manifest(&r, &table(vec![("AppState", table(vec![("name", value("x"))]))])).is_none());
    let unreadable = AppManifestRef { app_id: "10".to_string(), ..AppManifestRef { library_path: "/lib".to_string(), app_id: String::new(), manifest_path: String::new() } };
    let apps = get_installed_steam_apps_inner(&vec![(r, Some(manifest)), (unreadable, None)]).unwrap();
    assert_eq!(apps.get("570").unwrap().name, "Dota 2");
    assert!(apps.get("10").is_none());
}

fn listed(name: &str) -> CompatTool {
    CompatTool { name: name.to_string(), dir_path: format!("/ct/{}", name), path: format!("/ct/{}/proton", name) }
}

#[test]
fn configured_listed_tool_or_first() {
    let tools = vec![listed("A"), listed("B"), listed("B")];
    assert_eq!(get_compat_tool_from_config("B", &tools).dir_path, "/ct/B");
    assert_eq!(get_compat_tool_from_config("missing", &tools).name, "A");
}

const TOOL_MANIFEST: &str = "\"manifest\"\n{\n\t\"version\"\t\"2\"\n\t\"commandline\"\t\"/proton %verb%\"\n}\n";

const NOT_VDF: &str = "\"Resource\"\n{\n    foo\n}";

#[test]
fn vdf_text_is_read_as_tables() {
    let root = parse_vdf_text(TOOL_MANIFEST).unwrap();
    assert!(matches!(root, VdfEntry::Table(_)));
    assert_eq!(root.lookup("manifest.commandline").and_then(|e| e.as_str()), Some("/proton %verb%"));
    assert_eq!(root.lookup("manifest.version").and_then(|e| e.as_str()), Some("2"));
    assert!(root.lookup("manifest.missing").is_none());
}

#[test]
fn repeated_vdf_keys_become_arrays() {
    let root = parse_vdf_text("\"a\" \"1\"\n\"a\" \"2\"\n\"b\" \"3\"\n").unwrap();
    assert!(matches!(root.get("a"), Some(VdfEntry::Array(_))));
    assert_eq!(root.lookup("a.0").and_then(|e| e.as_str()), Some("1"));
    assert_eq!(root.lookup("a.1").and_then(|e| e.as_str()), Some("2"));
    assert_eq!(root.lookup("b").and_then(|e| e.as_str()), Some("3"));
}

#[test]
fn text_that_is_not_vdf_is_refused() {
    assert!(parse_vdf_text(NOT_VDF).is_none());
    assert_eq!(read_cmd_from_manifest_text(NOT_VDF), Err(ManifestError::Unreadable));
    assert_eq!(read_compat_tool_declaration_text("/ct/x", NOT_VDF).err(), Some(CompatToolVdfError::Unreadable));
}

#[test]
fn command_is_read_from_tool_manifest_text() {
    assert_eq!(read_cmd_from_manifest_text(TOOL_MANIFEST), Ok("proton %verb%".to_string()));
    assert_eq!(read_cmd_from_manifest_text("\"other\"\n{\n}\n"), Err(ManifestError::NoManifest));
}

#[test]
fn declaration_is_read_from_generated_text() {
    let text = create_compatibility_tool_vdf("GE-Proton9-1", "GE Proton 9.1");
    let decl = read_compat_tool_declaration_text("/ct/GE-Proton9-1", &text).unwrap();
    assert_eq!(decl.install_dir, "/ct/GE-Proton9-1/.");
    assert_eq!(decl.display_name, Some("GE Proton 9.1".to_string()));
    let linux_only = "\"compatibilitytools\"\n{\n\"compat_tools\"\n{\n\"x\"\n{\n\"install_path\" \".\"\n\"from_oslist\" \"linux\"\n}\n}\n}\n";
    assert_eq!(read_compat_tool_declaration_text("/ct/x", linux_only).err(), Some(CompatToolVdfError::NotForWindows));
}

#[test]
fn steam_compat_tools_keep_those_read_in_order() {
    let r = list_steam_compat_tools(vec![Some(listed("b")), None, Some(listed("a"))], vec![None, Some(listed("exp"))]);
    let names: Vec<String> = r.iter().map(|t| t.name.clone()).collect();
    assert_eq!(names, vec!["b".to_string(), "a".to_string(), "exp".to_string()]);
    assert!(list_steam_compat_tools(vec![None], vec![]).is_empty());
}

#[test]
fn vdf_tables_hold_each_name_once() {
    let root = parse_vdf_text("\"t\"\n{\n\"x\" \"1\"\n\"y\" \"2\"\n\"z\" \"3\"\n}\n").unwrap();
    match root.get("t") {
        Some(VdfEntry::Table(entries)) => {
            let mut names: Vec<String> = entries.iter().map(|(k, _)| k.clone()).collect();
            names.sort();
            assert_eq!(names, vec!["x".to_string(), "y".to_string(), "z".to_string()]);
        },
        _ => panic!("not a table"),
    }
}
