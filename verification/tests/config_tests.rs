use simple_steam_wrapper::compatibility_tools::compat_tool::{CompatTool, CompatToolType};
use simple_steam_wrapper::config::config::{Config, Options};
use simple_steam_wrapper::config::config_loader::ConfigState;
use simple_steam_wrapper::config::global_config::{merge_config_values, GlobalConfig};
use simple_steam_wrapper::config::serialized_config_utils::{parse_guess, value_to_shared_string, SerializedConfig};
use simple_steam_wrapper::config::yaml::{merge_yaml, YamlNumber, YamlValue};
use simple_steam_wrapper::config::yaml_text::parse_yaml_text;
use simple_steam_wrapper::gpu_tools::gpu::GPU;
use simple_steam_wrapper::gui::main_gui::{
    add_env_var, env_vars_mapping, env_vars_of, initial_compat_tool_index, initial_gpu_index, remove_env_var, selectable_compat_tools,
};

fn s(v: &str) -> YamlValue {
    YamlValue::String(v.to_string())
}

fn map(entries: Vec<(&str, YamlValue)>) -> YamlValue {
    YamlValue::Mapping(entries.into_iter().map(|(k, v)| (s(k), v)).collect())
}

fn text(v: Option<&YamlValue>) -> Option<String> {
    match v {
        Some(YamlValue::String(t)) => Some(t.clone()),
        _ => None,
    }
}

#[test]
fn default_config_values() {
    let c = Config::new();
    assert_eq!(c.general.gui_trigger_key, "LShift");
    assert!(!c.general.show_on_game_crash);
    assert!(c.apps.is_empty());
    let o = Options::new();
    assert_eq!(o.dxvk_hud_settings.mode, "compiler");
    assert_eq!(o.gamescope_settings.forced_width, 1920);
}

#[test]
fn app_options_fall_back_to_defaults() {
    let mut c = Config::new();
    let mut game = Options::new();
    game.compat_tool = "GE".to_string();
    c.apps.push(("570".to_string(), game));
    assert_eq!(c.app_options("570").compat_tool, "GE");
    assert_eq!(c.app_options("1").compat_tool, "");
    let mut state = ConfigState::new();
    state.set_config(c.clone());
    assert_eq!(state.get_app_options(Some("570".to_string())).compat_tool, "GE");
    assert_eq!(state.get_app_options(None).compat_tool, "");
    let mut global = GlobalConfig::new();
    global.set(c);
    assert_eq!(global.get().apps.len(), 1);
    assert_eq!(global.get_app_options(Some("570".to_string())).compat_tool, "GE");
}

#[test]
fn yaml_set_then_get() {
    let v = map(vec![("a", map(vec![("b", s("1"))]))]);
    let w = v.set_value("a.b", s("2")).unwrap();
    assert_eq!(text(w.get_value("a.b")), Some("2".to_string()));
    assert!(v.set_value("a.c", s("2")).is_none());
    assert!(v.get_value("a.c").is_none());
}

#[test]
fn yaml_merge_fills_defaults_and_overrides() {
    let base = map(vec![("a", s("1")), ("m", map(vec![("x", s("dx")), ("y", s("dy"))]))]);
    let over = map(vec![("m", map(vec![("y", s("oy"))])), ("b", s("2"))]);
    let merged = merge_yaml(base, over);
    assert_eq!(text(merged.get_value("a")), Some("1".to_string()));
    assert_eq!(text(merged.get_value("b")), Some("2".to_string()));
    assert_eq!(text(merged.get_value("m.x")), Some("dx".to_string()));
    assert_eq!(text(merged.get_value("m.y")), Some("oy".to_string()));
    let scalar = merge_yaml(map(vec![("a", s("1"))]), s("x"));
    assert_eq!(text(Some(&scalar)), Some("x".to_string()));
}

#[test]
fn config_file_merged_onto_defaults_and_apps() {
    let defaults = map(vec![
        ("general", map(vec![("gui_trigger_key", s("LShift"))])),
        ("defaults", map(vec![("compat_tool", s("")), ("selected_gpu", s(""))])),
        ("apps", map(vec![])),
    ]);
    let file = map(vec![("apps", map(vec![("570", map(vec![("compat_tool", s("GE"))]))]))]);
    let merged = merge_config_values(&defaults, &file).unwrap();
    assert_eq!(text(merged.get_value("apps.570.compat_tool")), Some("GE".to_string()));
    assert_eq!(text(merged.get_value("apps.570.selected_gpu")), Some(String::new()));
    assert_eq!(text(merged.get_value("general.gui_trigger_key")), Some("LShift".to_string()));
    let bad = map(vec![("apps", s("none"))]);
    assert!(merge_config_values(&defaults, &bad).is_none());
}

#[test]
fn guessed_values_and_their_text() {
    assert!(matches!(parse_guess("true".to_string(), None), YamlValue::Bool(true)));
    assert!(matches!(parse_guess("42".to_string(), None), YamlValue::Number(YamlNumber::PosInt(42))));
    assert!(matches!(parse_guess("-3".to_string(), None), YamlValue::Number(YamlNumber::NegInt(-3))));
    assert!(matches!(parse_guess("1.5".to_string(), Some("1.5".to_string())), YamlValue::Number(YamlNumber::Float(_))));
    assert!(matches!(parse_guess("abc".to_string(), None), YamlValue::String(_)));
    assert_eq!(value_to_shared_string(Some(&YamlValue::Bool(false))), "false");
    assert_eq!(value_to_shared_string(Some(&YamlValue::Number(YamlNumber::NegInt(-12)))), "-12");
    assert_eq!(value_to_shared_string(None), "");
}

#[test]
fn serialized_config_edits_the_running_game() {
    let tree = map(vec![
        ("defaults", map(vec![("compat_tool", s("")), ("enabled_tweaks", map(vec![]))])),
        ("apps", map(vec![])),
    ]);
    let mut conf = SerializedConfig::from_global_config(tree);
    let game = Some("570".to_string());
    assert!(!conf.app_conf_exists("570"));
    conf.set_app_value("compat_tool", s("GE"), false, &game);
    assert!(conf.app_conf_exists("570"));
    assert_eq!(conf.get_app_value_as_string("compat_tool", false, &game), "GE");
    assert_eq!(conf.get_app_value_as_string("compat_tool", true, &game), "");
    conf.set_app_value("enabled_tweaks.mangohud", YamlValue::Bool(true), true, &game);
    assert_eq!(conf.get_app_value_as_string("enabled_tweaks.mangohud", true, &game), "true");
}

fn tool(name: &str) -> CompatTool {
    CompatTool {
        compat_type: CompatToolType::Proton,
        name: name.to_string(),
        dir_path: format!("/ct/{}", name),
        cmd_line: vec!["proton".to_string()],
        required_runtime: None,
    }
}

#[test]
fn settings_window_lists() {
    let tools = vec![tool("SimpleSteamWrapper"), tool("GE"), tool("Proton 9")];
    let selectable = selectable_compat_tools(&tools);
    assert_eq!(selectable.len(), 2);
    assert_eq!(initial_compat_tool_index(&selectable, &Some(tool("Proton 9"))), 1);
    assert_eq!(initial_compat_tool_index(&selectable, &Some(tool("other"))), 0);
    assert_eq!(initial_compat_tool_index(&selectable, &None), 0);
    let gpus = vec![
        GPU { full_name: "A".to_string(), vendor_id: 1, device_id: 1 },
        GPU { full_name: "B".to_string(), vendor_id: 0x10de, device_id: 0x2484 },
    ];
    assert_eq!(initial_gpu_index(&gpus, &gpus[1]), Some(1));
    assert_eq!(initial_gpu_index(&gpus, &GPU { full_name: String::new(), vendor_id: 9, device_id: 9 }), None);
}

#[test]
fn environment_variables_round_trip() {
    let vars = vec![("A".to_string(), "1".to_string()), ("B".to_string(), "2".to_string()), ("A".to_string(), "3".to_string())];
    let value = env_vars_mapping(&vars);
    let back = env_vars_of(&value).unwrap();
    assert_eq!(back, vec![("A".to_string(), "3".to_string()), ("B".to_string(), "2".to_string())]);
    assert!(env_vars_of(&s("x")).is_none());
    assert!(env_vars_of(&map(vec![("A", YamlValue::Bool(true))])).is_none());
    let mut list = vars.clone();
    add_env_var(&mut list);
    assert_eq!(list.len(), 4);
    assert_eq!(list[3], (String::new(), String::new()));
    remove_env_var(&mut list, 0);
    assert_eq!(list[0].0, "B");
}

#[test]
fn distinct_environment_variables_round_trip() {
    let vars = vec![("DXVK_HUD".to_string(), "fps".to_string()), ("PROTON_LOG".to_string(), "1".to_string())];
    assert_eq!(env_vars_of(&env_vars_mapping(&vars)).unwrap(), vars);
    assert_eq!(env_vars_of(&env_vars_mapping(&Vec::new())).unwrap(), Vec::new());
}

#[test]
fn settings_typed_as_text_and_reset() {
    let tree = map(vec![
        ("defaults", map(vec![("compat_tool", s("")), ("gamescope_settings", map(vec![("framerate", YamlValue::Number(YamlNumber::PosInt(165)))]))])),
        ("apps", map(vec![])),
    ]);
    let mut conf = SerializedConfig::from_global_config(tree);
    let game = Some("570".to_string());
    conf.set_app_value_from_string("gamescope_settings.framerate", "60", None, false, &game);
    assert_eq!(conf.get_app_value_as_string("gamescope_settings.framerate", false, &game), "60");
    assert_eq!(conf.get_app_value_as_string("gamescope_settings.framerate", true, &game), "165");
    conf.reset_serialized_opts_to_defaults(false, &game, map(vec![]));
    assert!(!conf.app_conf_exists("570"));
    assert_eq!(conf.get_app_value_as_string("gamescope_settings.framerate", false, &game), "165");
}

fn settings_tree() -> YamlValue {
    map(vec![
        (
            "defaults",
            map(vec![
                ("compat_tool", s("")),
                ("gamescope_settings", map(vec![("framerate", YamlValue::Number(YamlNumber::PosInt(165)))])),
                ("enabled_tweaks", map(vec![("gamemode", YamlValue::Bool(false))])),
            ]),
        ),
        ("apps", map(vec![])),
    ])
}

#[test]
fn typed_texts_read_back() {
    let game = Some("570".to_string());
    for (typed, editing_defaults) in [("60", true), ("-7", false), ("0", true), ("true", false), ("false", true), ("fast", false)] {
        let mut conf = SerializedConfig::from_global_config(settings_tree());
        conf.set_app_value_from_string("gamescope_settings.framerate", typed, None, editing_defaults, &game);
        assert_eq!(conf.get_app_value_as_string("gamescope_settings.framerate", editing_defaults, &game), typed);
    }
}

#[test]
fn typed_texts_outside_the_round_trip() {
    let game = None;
    let mut conf = SerializedConfig::from_global_config(settings_tree());
    conf.set_app_value_from_string("gamescope_settings.framerate", "+5", None, true, &game);
    assert_eq!(conf.get_app_value_as_string("gamescope_settings.framerate", true, &game), "5");
    conf.set_app_value_from_string("gamescope_settings.framerate", "007", None, true, &game);
    assert_eq!(conf.get_app_value_as_string("gamescope_settings.framerate", true, &game), "7");
    conf.set_app_value_from_string("gamescope_settings.framerate", "1.50", Some("1.5".to_string()), true, &game);
    assert_eq!(conf.get_app_value_as_string("gamescope_settings.framerate", true, &game), "1.5");
}

#[test]
fn set_app_value_reads_back() {
    let game = Some("570".to_string());
    let mut conf = SerializedConfig::from_global_config(settings_tree());
    conf.set_app_value("compat_tool", s("GE"), false, &game);
    assert_eq!(text(conf.get_app_value("compat_tool", false, &game)), Some("GE".to_string()));
    assert_eq!(text(conf.get_app_value("compat_tool", true, &game)), Some(String::new()));
    conf.set_app_value("compat_tool", s("Proton"), true, &None);
    assert_eq!(text(conf.get_app_value("compat_tool", true, &None)), Some("Proton".to_string()));
    conf.set_app_value("enabled_tweaks.mangohud", YamlValue::Bool(true), true, &game);
    assert!(matches!(conf.get_app_value("enabled_tweaks.mangohud", true, &game), Some(YamlValue::Bool(true))));
    conf.set_app_value("enabled_tweaks.gamemode", YamlValue::Bool(true), true, &game);
    assert!(matches!(conf.get_app_value("enabled_tweaks.gamemode", true, &game), Some(YamlValue::Bool(true))));
}

#[test]
fn yaml_text_is_read_in_order() {
    let v = parse_yaml_text("z: 1\nb: [x, -2]\nc: 1.5\nd: !t v\ne: true\nf: ~\n").unwrap();
    match &v {
        YamlValue::Mapping(entries) => {
            let keys: Vec<Option<String>> = entries.iter().map(|(k, _)| text(Some(k))).collect();
            let expected: Vec<Option<String>> = ["z", "b", "c", "d", "e", "f"].iter().map(|k| Some(k.to_string())).collect();
            assert_eq!(keys, expected);
        },
        _ => panic!("not a mapping"),
    }
    assert!(matches!(v.get_value("z"), Some(YamlValue::Number(YamlNumber::PosInt(1)))));
    match v.get_value("b") {
        Some(YamlValue::Sequence(items)) => {
            assert_eq!(items.len(), 2);
            assert_eq!(text(Some(&items[0])), Some("x".to_string()));
            assert!(matches!(items[1], YamlValue::Number(YamlNumber::NegInt(-2))));
        },
        _ => panic!("not a sequence"),
    }
    match v.get_value("c") {
        Some(YamlValue::Number(YamlNumber::Float(t))) => assert_eq!(t, "1.5"),
        _ => panic!("not a float"),
    }
    match v.get_value("d") {
        Some(YamlValue::Tagged(tag, inner)) => {
            assert_eq!(tag, "!t");
            assert_eq!(text(Some(&**inner)), Some("v".to_string()));
        },
        _ => panic!("not tagged"),
    }
    assert!(matches!(v.get_value("e"), Some(YamlValue::Bool(true))));
    assert!(matches!(v.get_value("f"), Some(YamlValue::Null)));
}

#[test]
fn text_that_is_not_yaml_is_refused() {
    assert!(parse_yaml_text("a: [1, 2").is_none());
    assert!(parse_yaml_text("{a: 1").is_none());
}

#[test]
fn set_app_value_keeps_other_options() {
    let mut conf = SerializedConfig::from_global_config(settings_tree());
    conf.set_app_value("compat_tool", s("GE"), true, &None);
    assert!(matches!(conf.get_value("defaults.gamescope_settings.framerate"), Some(YamlValue::Number(YamlNumber::PosInt(165)))));
    assert!(matches!(conf.get_value("defaults.enabled_tweaks.gamemode"), Some(YamlValue::Bool(false))));
    assert!(matches!(conf.get_value("apps"), Some(YamlValue::Mapping(e)) if e.is_empty()));
    let game = Some("570".to_string());
    conf.set_app_value("gamescope_settings.framerate", YamlValue::Number(YamlNumber::PosInt(60)), false, &game);
    assert_eq!(text(conf.get_value("apps.570.compat_tool")), Some("GE".to_string()));
    assert!(matches!(conf.get_value("defaults.gamescope_settings.framerate"), Some(YamlValue::Number(YamlNumber::PosInt(165)))));
    assert!(matches!(conf.get_value("apps.570.gamescope_settings.framerate"), Some(YamlValue::Number(YamlNumber::PosInt(60)))));
}

#[test]
fn tweak_entries_read_back_for_the_running_game() {
    let game = Some("570".to_string());
    let mut conf = SerializedConfig::from_global_config(settings_tree());
    conf.set_app_value("enabled_tweaks.mangohud", YamlValue::Bool(true), false, &game);
    assert!(conf.app_conf_exists("570"));
    assert!(matches!(conf.get_app_value("enabled_tweaks.mangohud", false, &game), Some(YamlValue::Bool(true))));
    assert!(conf.get_app_value("enabled_tweaks.mangohud", true, &game).is_none());
    assert!(matches!(conf.get_app_value("enabled_tweaks.gamemode", false, &game), Some(YamlValue::Bool(false))));
}
