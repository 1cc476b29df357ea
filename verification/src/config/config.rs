//! The configuration of the wrapper: general settings, default options and
//! per-game options.
use vstd::prelude::*;
use crate::utils::text::{str_eq, to_string};

verus! {

/// Settings of the gamescope tweak.
#[derive(Debug, Clone, Copy, PartialEq, Eq, Structural)]
pub struct GamescopeSettings {
    pub forced_width: u32,
    pub forced_height: u32,
    pub force_grab_cursor: bool,
    pub framerate: u32,
    pub fullscreen: bool,
    pub hdr: bool,
}

/// Settings of the DXVK HUD tweak.
pub struct DXVKHUDSettings {
    pub mode: String,
}

impl Clone for DXVKHUDSettings {
    fn clone(&self) -> (r: Self)
        ensures
            r.mode@ == self.mode@,
    {
        DXVKHUDSettings { mode: self.mode.clone() }
    }
}

/// The runtime a game is run in.
#[derive(Debug, Clone, Copy, PartialEq, Eq, Structural)]
pub enum SelectedRuntime {
    SteamSniper,
}

/// The options of a game (or the defaults for all games).
pub struct Options {
    pub selected_gpu: String,
    pub compat_tool: String,
    pub runtime: SelectedRuntime,
    pub gamescope_settings: GamescopeSettings,
    pub dxvk_hud_settings: DXVKHUDSettings,
    pub enabled_tweaks: Vec<(String, bool)>,
    pub custom_env_vars: Vec<(String, String)>,
}

/// The abstract value of options.
pub struct OptionsView {
    pub selected_gpu: Seq<char>,
    pub compat_tool: Seq<char>,
    pub runtime: SelectedRuntime,
    pub gamescope_settings: GamescopeSettings,
    pub dxvk_hud_mode: Seq<char>,
    pub enabled_tweaks: Seq<(Seq<char>, bool)>,
    pub custom_env_vars: Seq<(Seq<char>, Seq<char>)>,
}

impl View for Options {
    type V = OptionsView;

    open spec fn view(&self) -> OptionsView {
        OptionsView {
            selected_gpu: self.selected_gpu@,
            compat_tool: self.compat_tool@,
            runtime: self.runtime,
            gamescope_settings: self.gamescope_settings,
            dxvk_hud_mode: self.dxvk_hud_settings.mode@,
            enabled_tweaks: self.enabled_tweaks@.map_values(|p: (String, bool)| (p.0@, p.1)),
            custom_env_vars: self.custom_env_vars@.map_values(|p: (String, String)| (p.0@, p.1@)),
        }
    }
}

impl Clone for Options {
    fn clone(&self) -> (r: Self)
        ensures
            r@ == self@,
    {
        let mut tweaks: Vec<(String, bool)> = Vec::new();
        let mut i: usize = 0;
        while i < self.enabled_tweaks.len()
            invariant
                i <= self.enabled_tweaks.len(),
                tweaks@.len() == i,
                forall|k: int| 0 <= k < i ==> #[trigger] tweaks@[k].0@ == self.enabled_tweaks@[k].0@
                    && tweaks@[k].1 == self.enabled_tweaks@[k].1,
            decreases self.enabled_tweaks.len() - i,
        {
            tweaks.push((self.enabled_tweaks[i].0.clone(), self.enabled_tweaks[i].1));
            i = i + 1;
        }
        let mut vars: Vec<(String, String)> = Vec::new();
        let mut j: usize = 0;
        while j < self.custom_env_vars.len()
            invariant
                j <= self.custom_env_vars.len(),
                vars@.len() == j,
                forall|k: int| 0 <= k < j ==> #[trigger] vars@[k].0@ == self.custom_env_vars@[k].0@
                    && vars@[k].1@ == self.custom_env_vars@[k].1@,
            decreases self.custom_env_vars.len() - j,
        {
            vars.push((self.custom_env_vars[j].0.clone(), self.custom_env_vars[j].1.clone()));
            j = j + 1;
        }
        let r = Options {
            selected_gpu: self.selected_gpu.clone(),
            compat_tool: self.compat_tool.clone(),
            runtime: self.runtime,
            gamescope_settings: self.gamescope_settings,
            dxvk_hud_settings: self.dxvk_hud_settings.clone(),
            enabled_tweaks: tweaks,
            custom_env_vars: vars,
        };
        assert(r@.enabled_tweaks =~= self@.enabled_tweaks);
        assert(r@.custom_env_vars =~= self@.custom_env_vars);
        r
    }
}

/// General settings.
pub struct General {
    pub gui_trigger_key: String,
    pub show_on_game_crash: bool,
}

impl Clone for General {
    fn clone(&self) -> (r: Self)
        ensures
            r.gui_trigger_key@ == self.gui_trigger_key@,
            r.show_on_game_crash == self.show_on_game_crash,
    {
        General { gui_trigger_key: self.gui_trigger_key.clone(), show_on_game_crash: self.show_on_game_crash }
    }
}

/// The whole configuration: general settings, default options and the
/// options of each game, keyed by Steam app id.
pub struct Config {
    pub general: General,
    pub defaults: Options,
    pub apps: Vec<(String, Options)>,
}

/// The abstract value of a configuration.
pub struct ConfigView {
    pub gui_trigger_key: Seq<char>,
    pub show_on_game_crash: bool,
    pub defaults: OptionsView,
    pub apps: Seq<(Seq<char>, OptionsView)>,
}

impl View for Config {
    type V = ConfigView;

    open spec fn view(&self) -> ConfigView {
        ConfigView {
            gui_trigger_key: self.general.gui_trigger_key@,
            show_on_game_crash: self.general.show_on_game_crash,
            defaults: self.defaults@,
            apps: self.apps@.map_values(|p: (String, Options)| (p.0@, p.1@)),
        }
    }
}

impl Clone for Config {
    fn clone(&self) -> (r: Self)
        ensures
            r@ == self@,
    {
        let mut apps: Vec<(String, Options)> = Vec::new();
        let mut i: usize = 0;
        while i < self.apps.len()
            invariant
                i <= self.apps.len(),
                apps@.len() == i,
                forall|k: int| 0 <= k < i ==> #[trigger] apps@[k].0@ == self.apps@[k].0@
                    && apps@[k].1@ == self.apps@[k].1@,
            decreases self.apps.len() - i,
        {
            apps.push((self.apps[i].0.clone(), self.apps[i].1.clone()));
            i = i + 1;
        }
        let r = Config { general: self.general.clone(), defaults: self.defaults.clone(), apps };
        assert(r@.apps =~= self@.apps);
        r
    }
}

/// The value of the first entry with key `key`, if any.
pub open spec fn lookup<V>(entries: Seq<(Seq<char>, V)>, key: Seq<char>) -> Option<V> {
    if exists|i: int| 0 <= i < entries.len() && entries[i].0 == key {
        let i = choose|i: int| 0 <= i < entries.len() && entries[i].0 == key
            && forall|j: int| 0 <= j < i ==> entries[j].0 != key;
        Some(entries[i].1)
    } else {
        None
    }
}

/// The options of the game `app_id`, or the defaults when the game has none.
pub open spec fn app_options(config: ConfigView, app_id: Seq<char>) -> OptionsView {
    match lookup(config.apps, app_id) {
        Some(o) => o,
        None => config.defaults,
    }
}

/// `device_query`'s `Keycode::LShift.to_string()`: the name of the left
/// shift key, which its `Display` writes as the variant's name, `LShift`.
#[verifier::external_body]
fn left_shift_key_name() -> (r: String)
    ensures
        r@ == "LShift"@,
{
    device_query::Keycode::LShift.to_string()
}

/// The default gamescope settings.
pub open spec fn default_gamescope() -> GamescopeSettings {
    GamescopeSettings {
        forced_width: 1920,
        forced_height: 1080,
        force_grab_cursor: true,
        framerate: 165,
        fullscreen: true,
        hdr: false,
    }
}

/// The default options.
pub open spec fn default_options() -> OptionsView {
    OptionsView {
        selected_gpu: Seq::empty(),
        compat_tool: Seq::empty(),
        runtime: SelectedRuntime::SteamSniper,
        gamescope_settings: default_gamescope(),
        dxvk_hud_mode: "compiler"@,
        enabled_tweaks: Seq::empty(),
        custom_env_vars: Seq::empty(),
    }
}

/// The default configuration.
pub open spec fn default_config() -> ConfigView {
    ConfigView {
        gui_trigger_key: "LShift"@,
        show_on_game_crash: false,
        defaults: default_options(),
        apps: Seq::empty(),
    }
}

impl Options {
    /// The default options: no GPU or tool selected, the sniper runtime,
    /// 1920x1080 gamescope at 165 fps fullscreen with cursor grab and no HDR,
    /// the DXVK HUD in `compiler` mode, no tweak and no variable.
    pub fn new() -> (r: Options)
        ensures
            r@ == default_options(),
    {
        let r = Options {
            selected_gpu: String::new(),
            enabled_tweaks: Vec::new(),
            runtime: SelectedRuntime::SteamSniper,
            compat_tool: String::new(),
            gamescope_settings: GamescopeSettings {
                forced_width: 1920,
                forced_height: 1080,
                force_grab_cursor: true,
                framerate: 165,
                fullscreen: true,
                hdr: false,
            },
            dxvk_hud_settings: DXVKHUDSettings { mode: to_string("compiler") },
            custom_env_vars: Vec::new(),
        };
        assert(r@.enabled_tweaks =~= Seq::<(Seq<char>, bool)>::empty());
        assert(r@.custom_env_vars =~= Seq::<(Seq<char>, Seq<char>)>::empty());
        r
    }
}

impl Config {
    /// The default configuration: the GUI is shown while the left shift key
    /// is held, not on a crash; default options; no per-game options.
    pub fn new() -> (r: Config)
        ensures
            r@ == default_config(),
    {
        let r = Config {
            general: General { gui_trigger_key: left_shift_key_name(), show_on_game_crash: false },
            defaults: Options::new(),
            apps: Vec::new(),
        };
        assert(r@.apps =~= Seq::<(Seq<char>, OptionsView)>::empty());
        r
    }

    /// The index of the first per-game entry for `app_id`, if any.
    pub fn find_app(&self, app_id: &str) -> (r: Option<usize>)
        ensures
            match r {
                Some(i) => i < self.apps@.len() && self@.apps[i as int].0 == app_id@
                    && lookup(self@.apps, app_id@) == Some(self@.apps[i as int].1),
                None => lookup(self@.apps, app_id@) is None,
            },
    {
        let ghost av = self@.apps;
        let mut i: usize = 0;
        while i < self.apps.len()
            invariant
                av == self@.apps,
                i <= self.apps.len(),
                forall|j: int| 0 <= j < i ==> av[j].0 != app_id@,
            decreases self.apps.len() - i,
        {
            if str_eq(self.apps[i].0.as_str(), app_id) {
                proof {
                    assert(av[i as int].0 == app_id@);
                    let w = choose|k: int| 0 <= k < av.len() && av[k].0 == app_id@
                        && forall|j: int| 0 <= j < k ==> av[j].0 != app_id@;
                    if w < i {
                    } else if w > i {
                        assert(av[i as int].0 != app_id@);
                    }
                }
                return Some(i);
            }
            i = i + 1;
        }
        None
    }

    /// The options of the game `app_id`, or the defaults when it has none.
    pub fn app_options(&self, app_id: &str) -> (r: Options)
        ensures
            r@ == app_options(self@, app_id@),
    {
        match self.find_app(app_id) {
            Some(i) => self.apps[i].1.clone(),
            None => self.defaults.clone(),
        }
    }
}

} // verus!
