//! What the settings window shows first, and the environment variables it
//! edits.
use vstd::prelude::*;
use crate::compatibility_tools::compat_tool::{CompatTool, CompatToolView, tool_views};
use crate::config::yaml::{
    EditModel, MappingEdit, YamlModel, YamlValue, apply_edit, apply_edit_exec, entry_models, first_index, lemma_first_index,
    lemma_map_model_pub, untag, untag_ref,
};
use crate::gpu_tools::gpu::{GPU, formatted_id};
use crate::install::install::SIMPLE_STEAM_WRAPPER_NAME;
use crate::utils::text::{str_eq, to_string};

verus! {

/// The tools that can be chosen: all but the wrapper itself, in order.
pub open spec fn selectable(tools: Seq<CompatToolView>) -> Seq<CompatToolView>
    decreases tools.len(),
{
    if tools.len() == 0 {
        Seq::empty()
    } else {
        let rest = selectable(tools.drop_last());
        if tools.last().name == SIMPLE_STEAM_WRAPPER_NAME@ {
            rest
        } else {
            rest.push(tools.last())
        }
    }
}

/// The tools that can be chosen in the settings window.
pub fn selectable_compat_tools(tools: &Vec<CompatTool>) -> (r: Vec<CompatTool>)
    ensures
        tool_views(r@) == selectable(tool_views(tools@)),
{
    let ghost tv = tool_views(tools@);
    let mut r: Vec<CompatTool> = Vec::new();
    let mut i: usize = 0;
    assert(tv.take(0) =~= Seq::<CompatToolView>::empty());
    while i < tools.len()
        invariant
            tv == tool_views(tools@),
            i <= tools@.len(),
            tool_views(r@) == selectable(tv.take(i as int)),
        decreases tools.len() - i,
    {
        assert(tv.take(i + 1).drop_last() =~= tv.take(i as int));
        assert(tv.take(i + 1).last() == tools@[i as int]@);
        if !str_eq(tools[i].name.as_str(), SIMPLE_STEAM_WRAPPER_NAME) {
            let ghost before = tool_views(r@);
            r.push(tools[i].clone());
            assert(tool_views(r@) =~= before.push(tools@[i as int]@));
        }
        i = i + 1;
    }
    assert(tv.take(i as int) =~= tv);
    r
}

/// The row first selected in the list of tools: the row of the first tool
/// named as the configured tool, or the first row.
pub open spec fn initial_tool_row(tools: Seq<CompatToolView>, configured: Option<Seq<char>>) -> int {
    match configured {
        Some(name) => if exists|i: int| 0 <= i < tools.len() && tools[i].name == name {
            choose|i: int| 0 <= i < tools.len() && tools[i].name == name && forall|j: int| 0 <= j < i ==> tools[j].name != name
        } else {
            0
        },
        None => 0,
    }
}

/// The row first selected in the list of tools, given the configured tool.
pub fn initial_compat_tool_index(tools: &Vec<CompatTool>, configured: &Option<CompatTool>) -> (r: i32)
    requires
        tools@.len() <= i32::MAX,
    ensures
        r as int == initial_tool_row(tool_views(tools@), match configured {
            Some(t) => Some(t.name@),
            None => None,
        }),
{
    let name = match configured {
        Some(t) => &t.name,
        None => return 0,
    };
    let ghost tv = tool_views(tools@);
    let mut i: usize = 0;
    while i < tools.len()
        invariant
            tv == tool_views(tools@),
            configured is Some && configured.unwrap().name@ == name@,
            tools@.len() <= i32::MAX,
            i <= tools@.len(),
            forall|j: int| 0 <= j < i ==> tv[j].name != name@,
        decreases tools.len() - i,
    {
        assert(tv[i as int].name == tools@[i as int].name@);
        if str_eq(tools[i].name.as_str(), name.as_str()) {
            proof {
                let w = choose|k: int| 0 <= k < tv.len() && tv[k].name == name@
                    && forall|j: int| 0 <= j < k ==> tv[j].name != name@;
                if w < i {
                } else if w > i {
                    assert(tv[i as int].name != name@);
                }
            }
            return i as i32;
        }
        i = i + 1;
    }
    0
}

/// The row of the first card whose id is the configured card's id.
pub fn initial_gpu_index(gpus: &Vec<GPU>, configured: &GPU) -> (r: Option<i32>)
    requires
        gpus@.len() <= i32::MAX,
    ensures
        match r {
            Some(k) => 0 <= k < gpus@.len()
                && formatted_id(gpus@[k as int].vendor_id, gpus@[k as int].device_id) == formatted_id(configured.vendor_id, configured.device_id)
                && forall|j: int| 0 <= j < k ==> formatted_id(gpus@[j].vendor_id, gpus@[j].device_id) != formatted_id(configured.vendor_id, configured.device_id),
            None => forall|j: int| 0 <= j < gpus@.len() ==> formatted_id(gpus@[j].vendor_id, gpus@[j].device_id) != formatted_id(configured.vendor_id, configured.device_id),
        },
{
    let wanted = configured.as_formatted_id();
    let mut i: usize = 0;
    while i < gpus.len()
        invariant
            wanted@ == formatted_id(configured.vendor_id, configured.device_id),
            gpus@.len() <= i32::MAX,
            i <= gpus@.len(),
            forall|j: int| 0 <= j < i ==> formatted_id(gpus@[j].vendor_id, gpus@[j].device_id) != wanted@,
        decreases gpus.len() - i,
    {
        let id = gpus[i].as_formatted_id();
        if str_eq(id.as_str(), wanted.as_str()) {
            return Some(i as i32);
        }
        i = i + 1;
    }
    None
}

/// The text of a YAML value, tags removed, when it is a string.
pub open spec fn yaml_text(m: YamlModel) -> Option<Seq<char>> {
    match untag(m) {
        YamlModel::Str(s) => Some(s),
        _ => None,
    }
}

/// The environment variables that a `custom_env_vars` value holds: the
/// entries of a mapping of strings to strings, in order. None when the
/// value is not such a mapping.
pub open spec fn env_vars_model(m: YamlModel) -> Option<Seq<(Seq<char>, Seq<char>)>> {
    match untag(m) {
        YamlModel::Dict(e) => if forall|i: int| 0 <= i < e.len() ==> (#[trigger] yaml_text(e[i].0)) is Some && yaml_text(e[i].1) is Some {
            Some(e.map_values(|p: (YamlModel, YamlModel)| (yaml_text(p.0).unwrap(), yaml_text(p.1).unwrap())))
        } else {
            None
        },
        _ => None,
    }
}

/// The text of a YAML value, when it is a string.
fn text_of(v: &YamlValue) -> (r: Option<String>)
    ensures
        match r {
            Some(s) => yaml_text(v@) == Some(s@),
            None => yaml_text(v@) is None,
        },
{
    match untag_ref(v) {
        YamlValue::String(s) => Some(s.clone()),
        _ => None,
    }
}

/// The environment variables of a `custom_env_vars` value, as the window
/// lists them.
pub fn env_vars_of(value: &YamlValue) -> (r: Option<Vec<(String, String)>>)
    ensures
        match r {
            Some(v) => env_vars_model(value@) == Some(v@.map_values(|p: (String, String)| (p.0@, p.1@))),
            None => env_vars_model(value@) is None,
        },
{
    let inner = untag_ref(value);
    let entries = match inner {
        YamlValue::Mapping(entries) => entries,
        _ => return None,
    };
    proof {
        lemma_map_model_pub(*entries);
    }
    let ghost e = entry_models(entries@);
    let mut r: Vec<(String, String)> = Vec::new();
    let mut i: usize = 0;
    while i < entries.len()
        invariant
            e == entry_models(entries@),
            untag(value@) == YamlModel::Dict(e),
            i <= entries@.len(),
            forall|j: int| 0 <= j < i ==> (#[trigger] yaml_text(e[j].0)) is Some && yaml_text(e[j].1) is Some,
            r@.map_values(|p: (String, String)| (p.0@, p.1@))
                == e.take(i as int).map_values(|p: (YamlModel, YamlModel)| (yaml_text(p.0).unwrap(), yaml_text(p.1).unwrap())),
        decreases entries.len() - i,
    {
        assert(e[i as int] == (entries@[i as int].0@, entries@[i as int].1@));
        let k = match text_of(&entries[i].0) {
            Some(k) => k,
            None => {
                assert(!(yaml_text(e[i as int].0) is Some));
                return None;
            },
        };
        let v = match text_of(&entries[i].1) {
            Some(v) => v,
            None => {
                assert(!(yaml_text(e[i as int].1) is Some));
                return None;
            },
        };
        let ghost before = r@.map_values(|p: (String, String)| (p.0@, p.1@));
        r.push((k, v));
        assert(r@.map_values(|p: (String, String)| (p.0@, p.1@)) =~= before.push((yaml_text(e[i as int].0).unwrap(), yaml_text(e[i as int].1).unwrap())));
        assert(e.take(i + 1).map_values(|p: (YamlModel, YamlModel)| (yaml_text(p.0).unwrap(), yaml_text(p.1).unwrap()))
            =~= e.take(i as int).map_values(|p: (YamlModel, YamlModel)| (yaml_text(p.0).unwrap(), yaml_text(p.1).unwrap())).push(
                (yaml_text(e[i as int].0).unwrap(), yaml_text(e[i as int].1).unwrap())));
        i = i + 1;
    }
    assert(e.take(i as int) =~= e);
    Some(r)
}

/// The entries of the mapping built from environment variables: each
/// variable in turn sets its name's value (a later one for the same name
/// replaces the value, keeping the place of the first).
pub open spec fn env_entries(vars: Seq<(Seq<char>, Seq<char>)>) -> Seq<(YamlModel, YamlModel)>
    decreases vars.len(),
{
    if vars.len() == 0 {
        Seq::empty()
    } else {
        apply_edit(env_entries(vars.drop_last()), EditModel::Insert(YamlModel::Str(vars.last().0), YamlModel::Str(vars.last().1)))
    }
}

/// The `custom_env_vars` value for the variables listed in the window.
pub fn env_vars_mapping(env_vars: &Vec<(String, String)>) -> (r: YamlValue)
    ensures
        r@ == YamlModel::Dict(env_entries(env_vars@.map_values(|p: (String, String)| (p.0@, p.1@)))),
{
    let ghost vs = env_vars@.map_values(|p: (String, String)| (p.0@, p.1@));
    let mut entries: Vec<(YamlValue, YamlValue)> = Vec::new();
    let mut i: usize = 0;
    assert(entry_models(entries@) =~= Seq::<(YamlModel, YamlModel)>::empty());
    assert(vs.take(0) =~= Seq::<(Seq<char>, Seq<char>)>::empty());
    while i < env_vars.len()
        invariant
            vs == env_vars@.map_values(|p: (String, String)| (p.0@, p.1@)),
            i <= env_vars@.len(),
            entry_models(entries@) == env_entries(vs.take(i as int)),
        decreases env_vars.len() - i,
    {
        assert(vs.take(i + 1).drop_last() =~= vs.take(i as int));
        assert(vs.take(i + 1).last() == (env_vars@[i as int].0@, env_vars@[i as int].1@));
        let op = MappingEdit::Insert(YamlValue::String(env_vars[i].0.clone()), YamlValue::String(env_vars[i].1.clone()));
        entries = apply_edit_exec(&entries, &op);
        i = i + 1;
    }
    assert(vs.take(i as int) =~= vs);
    proof {
        lemma_map_model_pub(entries);
    }
    YamlValue::Mapping(entries)
}

/// The list of variables with an empty variable added at the end.
pub fn add_env_var(env_vars: &mut Vec<(String, String)>)
    ensures
        final(env_vars)@.map_values(|p: (String, String)| (p.0@, p.1@))
            == old(env_vars)@.map_values(|p: (String, String)| (p.0@, p.1@)).push((Seq::empty(), Seq::empty())),
{
    let ghost before = env_vars@.map_values(|p: (String, String)| (p.0@, p.1@));
    env_vars.push((String::new(), String::new()));
    assert(env_vars@.map_values(|p: (String, String)| (p.0@, p.1@)) =~= before.push((Seq::empty(), Seq::empty())));
}

/// The list of variables without the one at row `idx`, which must be a row
/// of the list.
pub fn remove_env_var(env_vars: &mut Vec<(String, String)>, idx: usize)
    requires
        idx < old(env_vars)@.len(),
    ensures
        final(env_vars)@.map_values(|p: (String, String)| (p.0@, p.1@))
            == old(env_vars)@.map_values(|p: (String, String)| (p.0@, p.1@)).remove(idx as int),
{
    let ghost before = env_vars@.map_values(|p: (String, String)| (p.0@, p.1@));
    let ghost old_v = env_vars@;
    env_vars.remove(idx);
    assert(env_vars@ == old_v.remove(idx as int));
    assert(env_vars@.map_values(|p: (String, String)| (p.0@, p.1@)) =~= before.remove(idx as int));
}


/// No two variables of `vars` have the same name.
pub open spec fn names_distinct(vars: Seq<(Seq<char>, Seq<char>)>) -> bool {
    forall|i: int, j: int| 0 <= i < vars.len() && 0 <= j < vars.len() && i != j ==> vars[i].0 != vars[j].0
}

/// The mapping entries of variables with distinct names: one string entry
/// per variable, in order.
proof fn lemma_env_entries_distinct(vars: Seq<(Seq<char>, Seq<char>)>)
    requires
        names_distinct(vars),
    ensures
        env_entries(vars) == vars.map_values(|p: (Seq<char>, Seq<char>)| (YamlModel::Str(p.0), YamlModel::Str(p.1))),
    decreases vars.len(),
{
    if vars.len() > 0 {
        let init = vars.drop_last();
        assert(names_distinct(init)) by {
            assert forall|i: int, j: int| 0 <= i < init.len() && 0 <= j < init.len() && i != j implies init[i].0 != init[j].0 by {
                assert(init[i] == vars[i] && init[j] == vars[j]);
            }
        }
        lemma_env_entries_distinct(init);
        let e = env_entries(init);
        let k = YamlModel::Str(vars.last().0);
        lemma_first_index(e, k);
        if first_index(e, k) is Some {
            let i = first_index(e, k).unwrap();
            assert(e[i].0 == YamlModel::Str(init[i].0));
            assert(init[i] == vars[i]);
            assert(vars[i].0 != vars[vars.len() - 1].0);
        }
        assert(env_entries(vars) =~= vars.map_values(|p: (Seq<char>, Seq<char>)| (YamlModel::Str(p.0), YamlModel::Str(p.1))));
    }
}

/// Saving the variables of the settings window and reading them back gives
/// them back, when their names are distinct.
pub proof fn lemma_env_vars_round_trip(vars: Seq<(Seq<char>, Seq<char>)>)
    requires
        names_distinct(vars),
    ensures
        env_vars_model(YamlModel::Dict(env_entries(vars))) == Some(vars),
{
    lemma_env_entries_distinct(vars);
    let e = env_entries(vars);
    assert(forall|i: int| 0 <= i < e.len() ==> (#[trigger] yaml_text(e[i].0)) is Some && yaml_text(e[i].1) is Some);
    assert(e.map_values(|p: (YamlModel, YamlModel)| (yaml_text(p.0).unwrap(), yaml_text(p.1).unwrap())) =~= vars);
}


/// The tweaks that only work on NVIDIA cards, by their option keys.
pub open spec fn nvidia_only_tweak_keys() -> Seq<Seq<char>> {
    seq!["enabled_tweaks.proton_nvapi"@, "enabled_tweaks.proton_nvapi_vkreflex"@]
}

/// The tweak options to switch off when a card is chosen: the NVIDIA-only
/// tweaks for a card of another vendor, none for an NVIDIA card.
pub fn tweaks_to_disable(gpu: &GPU) -> (r: Vec<String>)
    ensures
        crate::utils::text::views(r@) == if gpu.vendor_id == crate::gpu_tools::gpu::NVIDIA_VENDOR_ID {
            Seq::<Seq<char>>::empty()
        } else {
            nvidia_only_tweak_keys()
        },
{
    if gpu.is_nvidia() {
        let r: Vec<String> = Vec::new();
        assert(crate::utils::text::views(r@) =~= Seq::<Seq<char>>::empty());
        r
    } else {
        let r = vec![to_string("enabled_tweaks.proton_nvapi"), to_string("enabled_tweaks.proton_nvapi_vkreflex")];
        assert(crate::utils::text::views(r@) =~= nvidia_only_tweak_keys());
        r
    }
}

} // verus!
