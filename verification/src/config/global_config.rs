//! The configuration loaded from disk, shared by the wrapper's parts.
use vstd::prelude::*;
use crate::config::config::{Config, ConfigView, Options, app_options, default_config};
use crate::config::config_loader::app_id_or_default;
use crate::config::serialized_config_utils::apps_entries;
use crate::config::yaml::{
    EditModel, MappingEdit, YamlModel, YamlValue, apply_edit, clone_yaml, distinct_keys, edit_at_path, get_key,
    lemma_edit_one_key, lemma_edit_root, lemma_lookup_insert, lemma_merge_fills_defaults, lookup_model, merge_model,
    merge_ref, untag, untag_ref,
};
use crate::utils::text::{to_string, views};

verus! {

/// The configuration currently in use.
pub struct GlobalConfig {
    state: Config,
}

impl View for GlobalConfig {
    type V = ConfigView;

    closed spec fn view(&self) -> ConfigView {
        self.state@
    }
}

impl GlobalConfig {
    /// A state holding the default configuration.
    pub fn new() -> (r: Self)
        ensures
            r@ == default_config(),
    {
        GlobalConfig { state: Config::new() }
    }

    /// Replaces the configuration.
    pub fn set(&mut self, new_state: Config)
        ensures
            final(self)@ == new_state@,
    {
        self.state = new_state;
    }

    /// A copy of the configuration.
    pub fn get(&self) -> (r: Config)
        ensures
            r@ == self@,
    {
        self.state.clone()
    }

    /// The options of the running game (`steam_app_id`, absent outside
    /// Steam), or the defaults when that game has none.
    pub fn get_app_options(&self, steam_app_id: Option<String>) -> (r: Options)
        ensures
            r@ == app_options(self@, app_id_or_default(steam_app_id)),
    {
        proof {
            reveal_strlit("");
        }
        let key: &str = match &steam_app_id {
            Some(id) => id.as_str(),
            None => "",
        };
        let r = self.state.app_options(key);
        assert(key@ == app_id_or_default(steam_app_id));
        assert(r@ == app_options(self.state@, key@));
        r
    }
}


/// Merges the defaults onto the options of each game, in the order of the
/// games; none if the `apps` mapping is lost on the way.
pub open spec fn apply_app_defaults(m: YamlModel, apps: Seq<(YamlModel, YamlModel)>, defaults: YamlModel) -> Option<YamlModel>
    decreases apps.len(),
{
    if apps.len() == 0 {
        Some(m)
    } else {
        match edit_at_path(m, seq!["apps"@], EditModel::Insert(apps[0].0, merge_model(defaults, apps[0].1))) {
            Some(m2) => apply_app_defaults(m2, apps.skip(1), defaults),
            None => None,
        }
    }
}

/// The configuration read from a file: the file merged onto the default
/// configuration, then the default options merged onto each game's options.
/// None when the default configuration has no `defaults`, or when the merged
/// configuration has no `apps` mapping (a file whose `apps` is not a
/// mapping).
pub open spec fn merge_config_model(default_config: YamlModel, file: YamlModel) -> Option<YamlModel> {
    let merged = merge_model(default_config, file);
    match (get_key(default_config, "defaults"@), apps_entries(merged)) {
        (Some(d), Some(apps)) => apply_app_defaults(merged, apps, d),
        _ => None,
    }
}

/// Editing the `apps` mapping edits its entries.
proof fn lemma_edit_apps(m: YamlModel, op: EditModel)
    requires
        edit_at_path(m, seq!["apps"@], op) is Some,
    ensures
        apps_entries(m) matches Some(e) && edit_at_path(m, seq!["apps"@], op) matches Some(m2)
            && apps_entries(m2) == Some(apply_edit(e, op)),
{
    lemma_edit_one_key(m, "apps"@, op);
    let v = get_key(m, "apps"@).unwrap();
    lemma_edit_root(v, op);
}

/// Merging the defaults onto the games in turn gives each game its own
/// options merged onto the defaults, and leaves every other entry of the
/// `apps` mapping as it was.
proof fn lemma_apply_app_defaults(m: YamlModel, apps: Seq<(YamlModel, YamlModel)>, defaults: YamlModel)
    requires
        apply_app_defaults(m, apps, defaults) is Some,
        apps_entries(m) is Some,
        distinct_keys(apps),
    ensures
        apply_app_defaults(m, apps, defaults) matches Some(r) && apps_entries(r) matches Some(ra)
            && apps_entries(m) matches Some(e)
            && (forall|i: int| 0 <= i < apps.len() ==> lookup_model(ra, #[trigger] apps[i].0) == Some(merge_model(defaults, apps[i].1)))
            && (forall|k: YamlModel| (forall|i: int| 0 <= i < apps.len() ==> apps[i].0 != k)
                ==> #[trigger] lookup_model(ra, k) == lookup_model(e, k)),
    decreases apps.len(),
{
    if apps.len() > 0 {
        let op = EditModel::Insert(apps[0].0, merge_model(defaults, apps[0].1));
        lemma_edit_apps(m, op);
        let m2 = edit_at_path(m, seq!["apps"@], op).unwrap();
        let e = apps_entries(m).unwrap();
        let e2 = apply_edit(e, op);
        let rest = apps.skip(1);
        assert(distinct_keys(rest)) by {
            assert forall|i: int, j: int| 0 <= i < j < rest.len() implies rest[i].0 != rest[j].0 by {
                assert(rest[i] == apps[i + 1] && rest[j] == apps[j + 1]);
            }
        }
        lemma_apply_app_defaults(m2, rest, defaults);
        let ra = apps_entries(apply_app_defaults(m, apps, defaults).unwrap()).unwrap();
        assert forall|i: int| 0 <= i < apps.len() implies lookup_model(ra, #[trigger] apps[i].0) == Some(merge_model(defaults, apps[i].1)) by {
            if i == 0 {
                assert forall|j: int| 0 <= j < rest.len() implies rest[j].0 != apps[0].0 by {
                    assert(rest[j] == apps[j + 1]);
                }
                lemma_lookup_insert(e, apps[0].0, merge_model(defaults, apps[0].1), apps[0].0);
            } else {
                assert(rest[i - 1] == apps[i]);
            }
        }
        assert forall|k: YamlModel| (forall|i: int| 0 <= i < apps.len() ==> apps[i].0 != k)
            implies #[trigger] lookup_model(ra, k) == lookup_model(e, k) by {
            assert forall|j: int| 0 <= j < rest.len() implies rest[j].0 != k by {
                assert(rest[j] == apps[j + 1]);
            }
            assert(apps[0].0 != k);
            lemma_lookup_insert(e, apps[0].0, merge_model(defaults, apps[0].1), k);
        }
    }
}

/// Loading a configuration fills in the default options of every game: in
/// the loaded configuration, each game of the `apps` mapping (the file
/// merged onto the default configuration) has its own options merged onto
/// the default options, so that every option the defaults name is there;
/// the keys of `apps` that name no game are as merged.
pub proof fn lemma_loaded_games_get_defaults(default_config: YamlModel, file: YamlModel)
    requires
        merge_config_model(default_config, file) is Some,
        apps_entries(merge_model(default_config, file)) matches Some(apps) && distinct_keys(apps),
    ensures
        merge_config_model(default_config, file) matches Some(r)
            && get_key(default_config, "defaults"@) matches Some(d)
            && apps_entries(merge_model(default_config, file)) matches Some(apps)
            && apps_entries(r) matches Some(ra)
            && (forall|i: int| 0 <= i < apps.len()
                ==> lookup_model(ra, #[trigger] apps[i].0) == Some(merge_model(d, apps[i].1)))
            && (forall|i: int, name: Seq<char>| 0 <= i < apps.len() && (#[trigger] apps[i].1) is Dict
                && d is Dict && distinct_keys(apps[i].1->Dict_0) && get_key(d, name) is Some
                ==> #[trigger] get_key(merge_model(d, apps[i].1), name) is Some),
{
    let merged = merge_model(default_config, file);
    let d = get_key(default_config, "defaults"@).unwrap();
    let apps = apps_entries(merged).unwrap();
    lemma_apply_app_defaults(merged, apps, d);
    assert forall|i: int, name: Seq<char>| 0 <= i < apps.len() && (#[trigger] apps[i].1) is Dict
        && d is Dict && distinct_keys(apps[i].1->Dict_0) && get_key(d, name) is Some
        implies #[trigger] get_key(merge_model(d, apps[i].1), name) is Some by {
        lemma_merge_fills_defaults(d->Dict_0, apps[i].1->Dict_0, name);
    }
}

/// Merges a configuration file (`file_value`) onto the serialized default
/// configuration (`default_value`), then the default options onto each
/// game's options.
pub fn merge_config_values(default_value: &YamlValue, file_value: &YamlValue) -> (r: Option<YamlValue>)
    ensures
        match r {
            Some(x) => merge_config_model(default_value@, file_value@) == Some(x@),
            None => merge_config_model(default_value@, file_value@) is None,
        },
{
    proof {
        reveal_strlit("defaults");
        reveal_strlit("apps");
    }
    let mut merged = merge_ref(default_value, file_value);
    let defaults = match default_value.get("defaults") {
        Some(d) => clone_yaml(d),
        None => return None,
    };
    let apps: Vec<(YamlValue, YamlValue)> = match merged.get("apps") {
        Some(a) => match untag_ref(a) {
            YamlValue::Mapping(entries) => {
                proof {
                    crate::config::yaml::lemma_map_model_pub(*entries);
                }
                crate::config::yaml::clone_entries(entries)
            },
            _ => return None,
        },
        None => return None,
    };
    let ghost av = crate::config::yaml::entry_models(apps@);
    let ghost d = defaults@;
    let ghost target = merge_config_model(default_value@, file_value@);
    assert(target == apply_app_defaults(merged@, av, d));
    let parts = vec![to_string("apps")];
    assert(views(parts@).skip(0) =~= seq!["apps"@]);
    let mut i: usize = 0;
    assert(av.skip(0) =~= av);
    while i < apps.len()
        invariant
            av == crate::config::yaml::entry_models(apps@),
            d == defaults@,
            views(parts@).skip(0) == seq!["apps"@],
            i <= apps.len(),
            apply_app_defaults(merged@, av.skip(i as int), d) == target,
            target == merge_config_model(default_value@, file_value@),
        decreases apps.len() - i,
    {
        let value = merge_ref(&defaults, &apps[i].1);
        let op = MappingEdit::Insert(clone_yaml(&apps[i].0), value);
        assert(av.skip(i as int)[0] == av[i as int]);
        assert(av.skip(i as int).skip(1) =~= av.skip(i + 1));
        assert(op@ == EditModel::Insert(av[i as int].0, merge_model(d, av[i as int].1)));
        match merged.edit_by_parts(&parts, 0, &op) {
            Some(x) => {
                merged = x;
            },
            None => {
                assert(apply_app_defaults(merged@, av.skip(i as int), d) is None);
                return None;
            },
        }
        i = i + 1;
    }
    assert(av.skip(apps.len() as int) =~= Seq::<(YamlModel, YamlModel)>::empty());
    Some(merged)
}

} // verus!
