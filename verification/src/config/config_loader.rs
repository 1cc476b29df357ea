//! The configuration in use, as one value that the wrapper's parts share.
use vstd::prelude::*;
use crate::config::config::{Config, ConfigView, Options, app_options, default_config};

verus! {

/// The app id to look options up by: the Steam app id, or the empty string
/// when the wrapper does not run under Steam.
pub open spec fn app_id_or_default(steam_app_id: Option<String>) -> Seq<char> {
    match steam_app_id {
        Some(id) => id@,
        None => Seq::empty(),
    }
}

/// The configuration currently in use.
pub struct ConfigState {
    state: Config,
}

impl View for ConfigState {
    type V = ConfigView;

    closed spec fn view(&self) -> ConfigView {
        self.state@
    }
}

impl ConfigState {
    /// A state holding the default configuration.
    pub fn new() -> (r: Self)
        ensures
            r@ == default_config(),
    {
        ConfigState { state: Config::new() }
    }

    /// Replaces the configuration.
    pub fn set_config(&mut self, new_state: Config)
        ensures
            final(self)@ == new_state@,
    {
        self.state = new_state;
    }

    /// A copy of the configuration.
    pub fn get_config(&self) -> (r: Config)
        ensures
            r@ == self@,
    {
        self.state.clone()
    }

    /// The options of the running game (`steam_app_id`, absent outside
    /// Steam), or the defaults when that game has none.
    pub fn get_app_options(&self, steam_app_id: Option<String>) -> (r: Options)
        ensures
            r@ == app_options(self@, app_id_or_default(steam_app_id)),
    {
        proof {
            reveal_strlit("");
        }
        let key: &str = match &steam_app_id {
            Some(id) => id.as_str(),
            None => "",
        };
        let r = self.state.app_options(key);
        assert(key@ == app_id_or_default(steam_app_id));
        assert(r@ == app_options(self.state@, key@));
        r
    }
}

} // verus!
