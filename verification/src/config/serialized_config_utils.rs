//! The configuration as a YAML tree, as the settings window reads and edits
//! it: options are addressed by dotted keys (`gamescope_settings.hdr`), in
//! the defaults or in the options of the running game.
use vstd::prelude::*;
use crate::config::yaml::{
    EditModel, MappingEdit, YamlModel, YamlNumber, YamlValue, clone_yaml, edit_at_path, first_index, get_key,
    get_path, lemma_edit_exists, lemma_insert_frame, lemma_insert_then_get, lemma_set_path_frame, lemma_set_then_get, paths_diverge, set_path, untag,
};
use crate::utils::numbers::{
    i64_to_string, lemma_signed_decimal_reads_back, parse_i64, parse_i64_spec, signed_decimal, decimal, u64_to_string,
};
use crate::utils::text::{concat, contains_seq, occurs_at, replace_all, replace_seq, split_on, str_contains, str_eq, to_string};

verus! {

/// The text of a scalar value: a string itself, a number's decimal text, a
/// boolean's `true`/`false`; the empty text for anything else (including a
/// missing value).
pub open spec fn value_text(v: Option<YamlModel>) -> Seq<char> {
    match v {
        Some(YamlModel::Str(s)) => s,
        Some(YamlModel::PosInt(n)) => decimal(n as nat),
        Some(YamlModel::NegInt(n)) => signed_decimal(n as int),
        Some(YamlModel::Float(t)) => t,
        Some(YamlModel::Bool(b)) => if b { "true"@ } else { "false"@ },
        _ => Seq::empty(),
    }
}

/// The model of an optional reference to a value.
pub open spec fn opt_model(v: Option<&YamlValue>) -> Option<YamlModel> {
    match v {
        Some(x) => Some(x@),
        None => None,
    }
}

/// The text shown for a value in the settings window (see `value_text`).
pub fn value_to_shared_string(value: Option<&YamlValue>) -> (r: String)
    ensures
        r@ == value_text(opt_model(value)),
{
    proof {
        reveal_strlit("true");
        reveal_strlit("false");
    }
    match value {
        Some(YamlValue::String(s)) => s.clone(),
        Some(YamlValue::Number(YamlNumber::PosInt(n))) => u64_to_string(*n),
        Some(YamlValue::Number(YamlNumber::NegInt(n))) => i64_to_string(*n),
        Some(YamlValue::Number(YamlNumber::Float(t))) => t.clone(),
        Some(YamlValue::Bool(b)) => if *b { to_string("true") } else { to_string("false") },
        _ => String::new(),
    }
}

/// The value a text stands for: a boolean (`true`/`false`), else an
/// integer, else the floating-point number `float_text` renders (given when
/// the text reads as one), else the text itself as a string.
pub open spec fn parse_guess_model(val: Seq<char>, float_text: Option<Seq<char>>) -> YamlModel {
    if val == "true"@ {
        YamlModel::Bool(true)
    } else if val == "false"@ {
        YamlModel::Bool(false)
    } else if let Some(i) = parse_i64_spec(val) {
        if i >= 0 { YamlModel::PosInt(i as u64) } else { YamlModel::NegInt(i as i64) }
    } else if let Some(t) = float_text {
        YamlModel::Float(t)
    } else {
        YamlModel::Str(val)
    }
}

/// Guesses the type of a value typed in the settings window.
/// `float_text` is the text of the floating-point number that `val` reads
/// as, when it reads as one.
pub fn parse_guess(val: String, float_text: Option<String>) -> (r: YamlValue)
    ensures
        r@ == parse_guess_model(val@, crate::utils::text::opt_view(float_text)),
{
    proof {
        reveal_strlit("true");
        reveal_strlit("false");
    }
    if str_eq(val.as_str(), "true") {
        YamlValue::Bool(true)
    } else if str_eq(val.as_str(), "false") {
        YamlValue::Bool(false)
    } else if let Some(i) = parse_i64(val.as_str()) {
        if i >= 0 {
            YamlValue::Number(YamlNumber::PosInt(i as u64))
        } else {
            YamlValue::Number(YamlNumber::NegInt(i))
        }
    } else if let Some(t) = float_text {
        YamlValue::Number(YamlNumber::Float(t))
    } else {
        YamlValue::String(val)
    }
}

/// A text typed in the settings window reads back as itself once its type
/// is guessed: `true`, `false`, the decimal text of an `i64` (no `+`, no
/// leading zero, no `-0`), and any text that reads as neither a boolean nor
/// a number.
pub proof fn lemma_typed_text_reads_back(val: Seq<char>, float_text: Option<Seq<char>>)
    requires
        val == "true"@ || val == "false"@ || (exists|i: int| i64::MIN <= i <= i64::MAX && val == signed_decimal(i))
            || (parse_i64_spec(val) is None && float_text is None),
    ensures
        value_text(Some(parse_guess_model(val, float_text))) == val,
{
    reveal_strlit("true");
    reveal_strlit("false");
    if val != "true"@ && val != "false"@ && exists|i: int| i64::MIN <= i <= i64::MAX && val == signed_decimal(i) {
        let i = choose|i: int| i64::MIN <= i <= i64::MAX && val == signed_decimal(i);
        lemma_signed_decimal_reads_back(i);
        assert(parse_i64_spec(val) == Some(i));
        if i >= 0 {
            assert((i as u64) as nat == i);
        } else {
            assert((i as i64) as int == i);
        }
    }
}

/// The entries of the `apps` mapping, when there is one.
pub open spec fn apps_entries(m: YamlModel) -> Option<Seq<(YamlModel, YamlModel)>> {
    match get_key(m, "apps"@) {
        Some(a) => match untag(a) {
            YamlModel::Dict(e) => Some(e),
            _ => None,
        },
        None => None,
    }
}

/// Whether the options of the game `app_id` are in the configuration.
pub open spec fn app_conf_in(m: YamlModel, app_id: Seq<char>) -> bool {
    match apps_entries(m) {
        Some(e) => first_index(e, YamlModel::Str(app_id)) is Some,
        None => false,
    }
}

/// The dotted path of an option: in the options of the game `app_id` when
/// one is given, in the defaults otherwise.
pub open spec fn option_path(key: Seq<char>, app_id: Option<Seq<char>>) -> Seq<char> {
    match app_id {
        Some(id) => "apps."@ + id + "."@ + key,
        None => "defaults."@ + key,
    }
}

/// The game whose options are read: the running game when its options are
/// being edited and exist, none (the defaults) otherwise.
pub open spec fn read_target(m: YamlModel, editing_defaults: bool, app_id: Option<Seq<char>>) -> Option<Seq<char>> {
    match app_id {
        Some(id) => if !editing_defaults && app_conf_in(m, id) { Some(id) } else { None },
        None => None,
    }
}

/// The game whose options are written: the running game unless the
/// defaults are being edited.
pub open spec fn write_target(editing_defaults: bool, app_id: Option<Seq<char>>) -> Option<Seq<char>> {
    if editing_defaults { None } else { app_id }
}

/// The configuration with an entry for the game `app_id` added, a copy of
/// the defaults, when it has none; none when there are no defaults or no
/// `apps` mapping.
pub open spec fn with_app_conf(m: YamlModel, app_id: Seq<char>) -> Option<YamlModel> {
    match get_key(m, "defaults"@) {
        Some(d) => edit_at_path(m, seq!["apps"@], EditModel::InsertIfAbsent(YamlModel::Str(app_id), d)),
        None => None,
    }
}


/// The effect of setting an option (see `SerializedConfig::set_app_value`);
/// none where the option cannot be set.
pub open spec fn set_app_value_model(
    m: YamlModel,
    key: Seq<char>,
    val: YamlModel,
    editing_defaults: bool,
    app_id: Option<Seq<char>>,
) -> Option<YamlModel> {
    let target = write_target(editing_defaults, app_id);
    let prepared = match target {
        Some(id) => with_app_conf(m, id),
        None => Some(m),
    };
    match prepared {
        None => None,
        Some(m1) => {
            let path = option_path(key, target);
            if contains_seq(key, "enabled_tweaks."@) {
                let last = split_on(key, '.').last();
                let parent = replace_seq(path, seq!['.'] + last, Seq::empty());
                edit_at_path(m1, split_on(parent, '.'), EditModel::Insert(YamlModel::Str(last), val))
            } else {
                set_path(m1, split_on(path, '.'), val)
            }
        },
    }
}

/// The effect of resetting options to their defaults (see
/// `SerializedConfig::reset_serialized_opts_to_defaults`); none where the
/// options cannot be reset.
pub open spec fn reset_model(m: YamlModel, editing_defaults: bool, app_id: Option<Seq<char>>, defaults: YamlModel) -> Option<YamlModel> {
    if editing_defaults {
        set_path(m, seq!["defaults"@], defaults)
    } else {
        match app_id {
            Some(id) => match get_key(m, "apps"@) {
                None => None,
                Some(_) => match edit_at_path(m, seq!["apps"@], EditModel::SwapRemove(YamlModel::Str(id))) {
                    Some(x) => Some(x),
                    None => Some(m),
                },
            },
            None => Some(m),
        }
    }
}

/// The configuration an option is written into: with the running game's
/// options added (a copy of the defaults) when a game's options are edited.
pub open spec fn prepared_config(m: YamlModel, editing_defaults: bool, app_id: Option<Seq<char>>) -> Option<YamlModel> {
    match write_target(editing_defaults, app_id) {
        Some(id) => with_app_conf(m, id),
        None => Some(m),
    }
}

/// Setting an option, for a key that does not name a tweak, changes nothing
/// but that option: every path that parts ways with the option's path
/// reads as in the configuration it was written into (the configuration
/// itself, or it with the running game's options added).
pub proof fn lemma_set_app_value_keeps_others(
    m: YamlModel,
    key: Seq<char>,
    val: YamlModel,
    editing_defaults: bool,
    app_id: Option<Seq<char>>,
    other: Seq<Seq<char>>,
)
    requires
        !contains_seq(key, "enabled_tweaks."@),
        set_app_value_model(m, key, val, editing_defaults, app_id) is Some,
        paths_diverge(split_on(option_path(key, write_target(editing_defaults, app_id)), '.'), other),
    ensures
        set_app_value_model(m, key, val, editing_defaults, app_id) matches Some(m2)
            && prepared_config(m, editing_defaults, app_id) matches Some(m1)
            && get_path(m2, other) == get_path(m1, other),
{
    let m1 = prepared_config(m, editing_defaults, app_id).unwrap();
    lemma_set_path_frame(m1, split_on(option_path(key, write_target(editing_defaults, app_id)), '.'), val, other);
}

/// Splitting text that starts with a separator-free piece and the
/// separator gives that piece, then the pieces of the rest.
proof fn lemma_split_after_piece(a: Seq<char>, b: Seq<char>, c: char)
    requires
        forall|j: int| 0 <= j < a.len() ==> a[j] != c,
    ensures
        split_on(a + seq![c] + b, c) == seq![a] + split_on(b, c),
{
    let s = a + seq![c] + b;
    assert(s[a.len() as int] == c);
    assert forall|j: int| 0 <= j < a.len() implies s[j] != c by {
        assert(s[j] == a[j]);
    }
    crate::utils::text::lemma_split_first(s, c, a.len() as int);
    assert(s.take(a.len() as int) =~= a);
    assert(s.skip(a.len() + 1int) =~= b);
}

/// Reading an option back after setting it gives the value set, for a key
/// that does not name a tweak: in the defaults when they are edited or no
/// game runs, in the running game's options otherwise (a Steam app id holds
/// no `.`).
pub proof fn lemma_set_then_get_app_value(
    m: YamlModel,
    key: Seq<char>,
    val: YamlModel,
    editing_defaults: bool,
    app_id: Option<Seq<char>>,
)
    requires
        !contains_seq(key, "enabled_tweaks."@),
        write_target(editing_defaults, app_id) matches Some(id) ==> forall|j: int| 0 <= j < id.len() ==> id[j] != '.',
        set_app_value_model(m, key, val, editing_defaults, app_id) is Some,
    ensures
        set_app_value_model(m, key, val, editing_defaults, app_id) matches Some(m2)
            && get_path(m2, split_on(option_path(key, read_target(m2, editing_defaults, app_id)), '.')) == Some(val),
{
    let target = write_target(editing_defaults, app_id);
    match target {
        None => {
            lemma_set_then_get(m, split_on(option_path(key, None), '.'), val);
        },
        Some(id) => {
            let m1 = with_app_conf(m, id).unwrap();
            let path = option_path(key, Some(id));
            let parts = split_on(path, '.');
            lemma_set_then_get(m1, parts, val);
            let m2 = set_path(m1, parts, val).unwrap();
            reveal_strlit("apps.");
            reveal_strlit("apps");
            reveal_strlit(".");
            assert(path =~= "apps"@ + seq!['.'] + (id + seq!['.'] + key));
            assert forall|j: int| 0 <= j < "apps"@.len() implies "apps"@[j] != '.' by {}
            lemma_split_after_piece("apps"@, id + seq!['.'] + key, '.');
            lemma_split_after_piece(id, key, '.');
            assert(parts[0] == "apps"@);
            assert(parts.skip(1)[0] == id);
            let a = get_key(m2, "apps"@).unwrap();
            assert(get_path(a, parts.skip(1)) == Some(val));
            assert(get_key(a, id) is Some);
            assert(app_conf_in(m2, id));
        },
    }
}

/// Removing every occurrence of `pat` from `p + pat`, where `pat` occurs
/// only at the end, gives `p`.
proof fn lemma_replace_suffix(p: Seq<char>, pat: Seq<char>)
    requires
        pat.len() > 0,
        forall|j: int| 0 <= j < p.len() ==> !occurs_at(p + pat, pat, j),
    ensures
        replace_seq(p + pat, pat, Seq::empty()) == p,
    decreases p.len(),
{
    let s = p + pat;
    if p.len() == 0 {
        assert(s =~= pat);
        assert(s.subrange(0, pat.len() as int) =~= pat);
        assert(occurs_at(s, pat, 0));
        assert(s.skip(pat.len() as int) =~= Seq::<char>::empty());
        assert(replace_seq(Seq::<char>::empty(), pat, Seq::empty()) == Seq::<char>::empty());
        assert(replace_seq(s, pat, Seq::empty()) =~= Seq::<char>::empty() + replace_seq(s.skip(pat.len() as int), pat, Seq::empty()));
    } else {
        assert(!occurs_at(s, pat, 0));
        let p1 = p.skip(1);
        assert(s.skip(1) =~= p1 + pat);
        assert forall|j: int| 0 <= j < p1.len() implies !occurs_at(p1 + pat, pat, j) by {
            assert(!occurs_at(s, pat, j + 1));
            if occurs_at(p1 + pat, pat, j) {
                assert((p1 + pat).subrange(j, j + pat.len()) =~= s.subrange(j + 1, j + 1 + pat.len()));
            }
        }
        lemma_replace_suffix(p1, pat);
        assert(seq![s[0]] + p1 =~= p);
    }
}

/// The key of a tweak: `enabled_tweaks.` and the tweak's name, which is its
/// last piece.
proof fn lemma_tweak_key(tweak: Seq<char>)
    requires
        forall|j: int| 0 <= j < tweak.len() ==> tweak[j] != '.',
    ensures
        contains_seq("enabled_tweaks."@ + tweak, "enabled_tweaks."@),
        split_on("enabled_tweaks."@ + tweak, '.').last() == tweak,
        split_on("enabled_tweaks."@ + tweak, '.') == seq!["enabled_tweaks"@, tweak],
        "enabled_tweaks."@ + tweak == "enabled_tweaks"@ + (seq!['.'] + tweak),
{
    reveal_strlit("enabled_tweaks.");
    reveal_strlit("enabled_tweaks");
    let key = "enabled_tweaks."@ + tweak;
    assert(key.subrange(0, 15) =~= "enabled_tweaks."@);
    assert(occurs_at(key, "enabled_tweaks."@, 0));
    assert(key =~= "enabled_tweaks"@ + seq!['.'] + tweak);
    assert(key =~= "enabled_tweaks"@ + (seq!['.'] + tweak));
    assert forall|j: int| 0 <= j < "enabled_tweaks"@.len() implies "enabled_tweaks"@[j] != '.' by {}
    lemma_split_after_piece("enabled_tweaks"@, tweak, '.');
    crate::utils::text::lemma_split_none(tweak, '.');
    assert(split_on(key, '.') =~= seq!["enabled_tweaks"@, tweak]);
}

/// `.` and a tweak's name occurs in `p`, `.` and the tweak's name only at
/// the end when it does not occur in `p`.
proof fn lemma_tweak_occurs_at_end(p: Seq<char>, tweak: Seq<char>)
    requires
        forall|j: int| 0 <= j < tweak.len() ==> tweak[j] != '.',
        !contains_seq(p, seq!['.'] + tweak),
    ensures
        forall|j: int| 0 <= j < p.len() ==> !occurs_at(p + (seq!['.'] + tweak), seq!['.'] + tweak, j),
{
    let pat = seq!['.'] + tweak;
    let s = p + pat;
    assert forall|j: int| 0 <= j < p.len() implies !occurs_at(s, pat, j) by {
        if occurs_at(s, pat, j) {
            if j + pat.len() <= p.len() {
                assert(p.subrange(j, j + pat.len()) =~= s.subrange(j, j + pat.len()));
                assert(occurs_at(p, pat, j));
            } else {
                let k = p.len() - j;
                assert(s.subrange(j, j + pat.len())[k] == s[p.len() as int]);
                assert(pat[k] == tweak[k - 1]);
            }
        }
    }
}

/// The pieces of the path of the mapping of tweaks, in the defaults or in a
/// game's options.
proof fn lemma_tweaks_path_parts(target: Option<Seq<char>>)
    requires
        target matches Some(id) ==> forall|j: int| 0 <= j < id.len() ==> id[j] != '.',
    ensures
        split_on(option_path("enabled_tweaks"@, target), '.') == match target {
            Some(id) => seq!["apps"@, id, "enabled_tweaks"@],
            None => seq!["defaults"@, "enabled_tweaks"@],
        },
{
    reveal_strlit("enabled_tweaks");
    reveal_strlit("defaults.");
    reveal_strlit("defaults");
    reveal_strlit("apps.");
    reveal_strlit("apps");
    reveal_strlit(".");
    assert forall|j: int| 0 <= j < "enabled_tweaks"@.len() implies "enabled_tweaks"@[j] != '.' by {}
    assert forall|j: int| 0 <= j < "defaults"@.len() implies "defaults"@[j] != '.' by {}
    assert forall|j: int| 0 <= j < "apps"@.len() implies "apps"@[j] != '.' by {}
    crate::utils::text::lemma_split_none("enabled_tweaks"@, '.');
    match target {
        Some(id) => {
            let p = option_path("enabled_tweaks"@, target);
            assert(p =~= "apps"@ + seq!['.'] + (id + seq!['.'] + "enabled_tweaks"@));
            lemma_split_after_piece("apps"@, id + seq!['.'] + "enabled_tweaks"@, '.');
            lemma_split_after_piece(id, "enabled_tweaks"@, '.');
            assert(split_on(p, '.') =~= seq!["apps"@, id, "enabled_tweaks"@]);
        },
        None => {
            let p = option_path("enabled_tweaks"@, target);
            assert(p =~= "defaults"@ + seq!['.'] + "enabled_tweaks"@);
            lemma_split_after_piece("defaults"@, "enabled_tweaks"@, '.');
            assert(split_on(p, '.') =~= seq!["defaults"@, "enabled_tweaks"@]);
        },
    }
}

/// The path of a tweak's entry in the defaults and its pieces.
proof fn lemma_tweak_path_parts_defaults(tweak: Seq<char>)
    requires
        forall|j: int| 0 <= j < tweak.len() ==> tweak[j] != '.',
    ensures
        option_path("enabled_tweaks."@ + tweak, None) == option_path("enabled_tweaks"@, None) + (seq!['.'] + tweak),
        split_on(option_path("enabled_tweaks."@ + tweak, None), '.') == seq!["defaults"@, "enabled_tweaks"@, tweak],
{
    reveal_strlit("defaults.");
    reveal_strlit("defaults");
    lemma_tweak_key(tweak);
    let key = "enabled_tweaks."@ + tweak;
    let path = option_path(key, None);
    assert forall|j: int| 0 <= j < "defaults"@.len() implies "defaults"@[j] != '.' by {}
    assert(path =~= option_path("enabled_tweaks"@, None) + (seq!['.'] + tweak));
    assert(path =~= "defaults"@ + seq!['.'] + key);
    lemma_split_after_piece("defaults"@, key, '.');
    assert(split_on(path, '.') =~= seq!["defaults"@, "enabled_tweaks"@, tweak]);
}

/// The path of a tweak's entry in a game's options and its pieces.
proof fn lemma_tweak_path_parts_app(tweak: Seq<char>, id: Seq<char>)
    requires
        forall|j: int| 0 <= j < tweak.len() ==> tweak[j] != '.',
        forall|j: int| 0 <= j < id.len() ==> id[j] != '.',
    ensures
        option_path("enabled_tweaks."@ + tweak, Some(id)) == option_path("enabled_tweaks"@, Some(id)) + (seq!['.'] + tweak),
        split_on(option_path("enabled_tweaks."@ + tweak, Some(id)), '.') == seq!["apps"@, id, "enabled_tweaks"@, tweak],
{
    reveal_strlit("apps.");
    reveal_strlit("apps");
    reveal_strlit(".");
    lemma_tweak_key(tweak);
    let key = "enabled_tweaks."@ + tweak;
    let path = option_path(key, Some(id));
    assert forall|j: int| 0 <= j < "apps"@.len() implies "apps"@[j] != '.' by {}
    assert(path =~= option_path("enabled_tweaks"@, Some(id)) + (seq!['.'] + tweak));
    assert(path =~= "apps"@ + seq!['.'] + (id + seq!['.'] + key));
    lemma_split_after_piece("apps"@, id + seq!['.'] + key, '.');
    lemma_split_after_piece(id, key, '.');
    assert(split_on(path, '.') =~= seq!["apps"@, id, "enabled_tweaks"@, tweak]);
}

/// Setting a tweak's entry and reading it back gives the value set, in the
/// defaults when they are edited or no game runs, in the running game's
/// options otherwise. The key is `enabled_tweaks.` and the tweak's name,
/// which holds no `.` and, behind a `.`, does not occur in the path of the
/// mapping of tweaks it goes into; a Steam app id holds no `.`.
pub proof fn lemma_set_then_get_tweak(
    m: YamlModel,
    tweak: Seq<char>,
    val: YamlModel,
    editing_defaults: bool,
    app_id: Option<Seq<char>>,
)
    requires
        forall|j: int| 0 <= j < tweak.len() ==> tweak[j] != '.',
        write_target(editing_defaults, app_id) matches Some(id) ==> forall|j: int| 0 <= j < id.len() ==> id[j] != '.',
        !contains_seq(option_path("enabled_tweaks"@, write_target(editing_defaults, app_id)), seq!['.'] + tweak),
        set_app_value_model(m, "enabled_tweaks."@ + tweak, val, editing_defaults, app_id) is Some,
    ensures
        set_app_value_model(m, "enabled_tweaks."@ + tweak, val, editing_defaults, app_id) matches Some(m2)
            && get_path(m2, split_on(option_path("enabled_tweaks."@ + tweak, read_target(m2, editing_defaults, app_id)), '.'))
                == Some(val),
{
    let target = write_target(editing_defaults, app_id);
    let pat = seq!['.'] + tweak;
    let p = option_path("enabled_tweaks"@, target);
    lemma_tweak_key(tweak);
    match target {
        Some(id) => lemma_tweak_path_parts_app(tweak, id),
        None => lemma_tweak_path_parts_defaults(tweak),
    }
    lemma_tweak_occurs_at_end(p, tweak);
    lemma_replace_suffix(p, pat);
    let parent_parts = split_on(p, '.');
    let m1 = prepared_config(m, editing_defaults, app_id).unwrap();
    lemma_insert_then_get(m1, parent_parts, tweak, val);
    let m2 = edit_at_path(m1, parent_parts, EditModel::Insert(YamlModel::Str(tweak), val)).unwrap();
    lemma_tweaks_path_parts(target);
    assert(parent_parts.push(tweak) =~= split_on(option_path("enabled_tweaks."@ + tweak, target), '.'));
    assert(replace_seq(option_path("enabled_tweaks."@ + tweak, target), seq!['.'] + split_on("enabled_tweaks."@ + tweak, '.').last(), Seq::empty()) == p);
    match target {
        None => {},
        Some(id) => {
            reveal_strlit("apps");
            let parts = parent_parts.push(tweak);
            assert(parts[0] == "apps"@);
            assert(parts.skip(1)[0] == id);
            let a = get_key(m2, "apps"@).unwrap();
            assert(get_path(a, parts.skip(1)) == Some(val));
            assert(get_key(a, id) is Some);
            assert(app_conf_in(m2, id));
        },
    }
}

/// Setting an existing option of the defaults, with the defaults edited
/// and a key that does not name a tweak, succeeds; reading the option back
/// gives the value set, and every path that parts ways with the option's
/// path reads as before.
pub proof fn lemma_set_default_reads_back(m: YamlModel, key: Seq<char>, val: YamlModel, app_id: Option<Seq<char>>)
    requires
        !contains_seq(key, "enabled_tweaks."@),
        get_path(m, split_on(option_path(key, None), '.')) is Some,
    ensures
        set_app_value_model(m, key, val, true, app_id) matches Some(m2)
            && get_path(m2, split_on(option_path(key, read_target(m2, true, app_id)), '.')) == Some(val)
            && forall|other: Seq<Seq<char>>| paths_diverge(split_on(option_path(key, None), '.'), other)
                ==> #[trigger] get_path(m2, other) == get_path(m, other),
{
    let parts = split_on(option_path(key, None), '.');
    lemma_set_then_get(m, parts, val);
    let m2 = set_path(m, parts, val).unwrap();
    assert forall|other: Seq<Seq<char>>| paths_diverge(parts, other) implies #[trigger] get_path(m2, other) == get_path(m, other) by {
        lemma_set_path_frame(m, parts, val, other);
    }
}

/// Typing a text into an existing option of the defaults, with the
/// defaults edited and a key that does not name a tweak, and reading the
/// option's text back gives the typed text (for the texts of
/// `lemma_typed_text_reads_back`); every path that parts ways with the
/// option's path reads as before.
pub proof fn lemma_set_default_text_reads_back(
    m: YamlModel,
    key: Seq<char>,
    val: Seq<char>,
    float_text: Option<Seq<char>>,
    app_id: Option<Seq<char>>,
)
    requires
        val == "true"@ || val == "false"@ || (exists|i: int| i64::MIN <= i <= i64::MAX && val == signed_decimal(i))
            || (parse_i64_spec(val) is None && float_text is None),
        !contains_seq(key, "enabled_tweaks."@),
        get_path(m, split_on(option_path(key, None), '.')) is Some,
    ensures
        set_app_value_model(m, key, parse_guess_model(val, float_text), true, app_id) matches Some(m2)
            && value_text(get_path(m2, split_on(option_path(key, read_target(m2, true, app_id)), '.'))) == val
            && forall|other: Seq<Seq<char>>| paths_diverge(split_on(option_path(key, None), '.'), other)
                ==> #[trigger] get_path(m2, other) == get_path(m, other),
{
    lemma_typed_text_reads_back(val, float_text);
    lemma_set_default_reads_back(m, key, parse_guess_model(val, float_text), app_id);
}

/// Setting a tweak's entry in the defaults, with the defaults edited and
/// `defaults.enabled_tweaks` a mapping, succeeds whether or not the tweak
/// has an entry yet; reading it back gives the value set, and every path
/// that parts ways with the entry's path (the other tweaks, the other
/// options, the games' options) reads as before. The tweak's name holds no
/// `.` and, behind a `.`, does not occur in `defaults.enabled_tweaks`.
pub proof fn lemma_set_default_tweak_reads_back(m: YamlModel, tweak: Seq<char>, val: YamlModel, app_id: Option<Seq<char>>)
    requires
        forall|j: int| 0 <= j < tweak.len() ==> tweak[j] != '.',
        !contains_seq("defaults.enabled_tweaks"@, seq!['.'] + tweak),
        get_path(m, seq!["defaults"@, "enabled_tweaks"@]) matches Some(x) && untag(x) is Dict,
    ensures
        set_app_value_model(m, "enabled_tweaks."@ + tweak, val, true, app_id) matches Some(m2)
            && get_path(m2, split_on(option_path("enabled_tweaks."@ + tweak, read_target(m2, true, app_id)), '.')) == Some(val)
            && forall|other: Seq<Seq<char>>| paths_diverge(seq!["defaults"@, "enabled_tweaks"@, tweak], other)
                ==> #[trigger] get_path(m2, other) == get_path(m, other),
{
    reveal_strlit("defaults.");
    reveal_strlit("enabled_tweaks");
    reveal_strlit("defaults.enabled_tweaks");
    let key = "enabled_tweaks."@ + tweak;
    let pat = seq!['.'] + tweak;
    let p = option_path("enabled_tweaks"@, None);
    assert(p =~= "defaults.enabled_tweaks"@);
    let parent = seq!["defaults"@, "enabled_tweaks"@];
    let op = EditModel::Insert(YamlModel::Str(tweak), val);
    lemma_tweak_key(tweak);
    lemma_tweak_path_parts_defaults(tweak);
    lemma_tweak_occurs_at_end(p, tweak);
    lemma_replace_suffix(p, pat);
    lemma_tweaks_path_parts(None);
    lemma_edit_exists(m, parent, op);
    assert(set_app_value_model(m, key, val, true, app_id) == edit_at_path(m, parent, op));
    lemma_set_then_get_tweak(m, tweak, val, true, app_id);
    let m2 = edit_at_path(m, parent, op).unwrap();
    assert(parent.push(tweak) =~= seq!["defaults"@, "enabled_tweaks"@, tweak]);
    assert forall|other: Seq<Seq<char>>| paths_diverge(seq!["defaults"@, "enabled_tweaks"@, tweak], other)
        implies #[trigger] get_path(m2, other) == get_path(m, other) by {
        lemma_insert_frame(m, parent, tweak, val, other);
    }
}

/// Setting a typed text as an option and reading the option's text back
/// gives the typed text (see `set_app_value_from_string` and
/// `get_app_value_as_string`), for the texts of
/// `lemma_typed_text_reads_back` and the keys of
/// `lemma_set_then_get_app_value`.
pub proof fn lemma_set_text_then_get_text(
    m: YamlModel,
    key: Seq<char>,
    val: Seq<char>,
    float_text: Option<Seq<char>>,
    editing_defaults: bool,
    app_id: Option<Seq<char>>,
)
    requires
        val == "true"@ || val == "false"@ || (exists|i: int| i64::MIN <= i <= i64::MAX && val == signed_decimal(i))
            || (parse_i64_spec(val) is None && float_text is None),
        !contains_seq(key, "enabled_tweaks."@),
        write_target(editing_defaults, app_id) matches Some(id) ==> forall|j: int| 0 <= j < id.len() ==> id[j] != '.',
        set_app_value_model(m, key, parse_guess_model(val, float_text), editing_defaults, app_id) is Some,
    ensures
        set_app_value_model(m, key, parse_guess_model(val, float_text), editing_defaults, app_id) matches Some(m2)
            && value_text(get_path(m2, split_on(option_path(key, read_target(m2, editing_defaults, app_id)), '.'))) == val,
{
    lemma_typed_text_reads_back(val, float_text);
    lemma_set_then_get_app_value(m, key, parse_guess_model(val, float_text), editing_defaults, app_id);
}

/// The path string of an option (see `option_path`).
fn option_path_string(key: &str, app_id: Option<&String>) -> (r: String)
    ensures
        r@ == option_path(key@, match app_id { Some(id) => Some(id@), None => None }),
{
    proof {
        reveal_strlit("apps.");
        reveal_strlit(".");
        reveal_strlit("defaults.");
    }
    match app_id {
        Some(id) => {
            let mut r = to_string("apps.");
            r.append(id.as_str());
            r.append(".");
            r.append(key);
            r
        },
        None => concat("defaults.", key),
    }
}

/// The configuration as a YAML tree, edited in the settings window.
pub struct SerializedConfig {
    serialized_config: YamlValue,
}

impl View for SerializedConfig {
    type V = YamlModel;

    closed spec fn view(&self) -> YamlModel {
        self.serialized_config@
    }
}

impl SerializedConfig {
    /// Wraps the serialized global configuration.
    pub fn from_global_config(serialized_config: YamlValue) -> (r: Self)
        ensures
            r@ == serialized_config@,
    {
        SerializedConfig { serialized_config }
    }

    /// The whole tree.
    pub fn as_value(&self) -> (r: &YamlValue)
        ensures
            r@ == self@,
    {
        &self.serialized_config
    }

    /// The value at a dotted key.
    pub fn get_value(&self, key: &str) -> (r: Option<&YamlValue>)
        ensures
            opt_model(r) == get_path(self@, split_on(key@, '.')),
    {
        self.serialized_config.get_value(key)
    }

    /// Replaces the value at a dotted key, which must exist.
    pub fn set_value(&mut self, key: &str, val: YamlValue)
        requires
            get_path(old(self)@, split_on(key@, '.')) is Some,
        ensures
            set_path(old(self)@, split_on(key@, '.'), val@) == Some(final(self)@),
    {
        proof {
            lemma_set_then_get(self@, split_on(key@, '.'), val@);
        }
        match self.serialized_config.set_value(key, val) {
            Some(x) => {
                self.serialized_config = x;
            },
            None => {},
        }
    }

    /// Whether the configuration holds options for the game `app_id`; the
    /// `apps` mapping must exist.
    pub fn app_conf_exists(&self, app_id: &str) -> (r: bool)
        requires
            apps_entries(self@) is Some,
        ensures
            r == app_conf_in(self@, app_id@),
    {
        proof {
            reveal_strlit("apps");
        }
        match self.serialized_config.get("apps") {
            Some(apps) => match crate::config::yaml::untag_ref(apps) {
                YamlValue::Mapping(entries) => {
                    proof {
                        crate::config::yaml::lemma_map_model_pub(*entries);
                    }
                    let k = YamlValue::String(to_string(app_id));
                    crate::config::yaml::find_entry(entries, &k).is_some()
                },
                _ => false,
            },
            None => false,
        }
    }

    /// The value of an option: in the options of the running game
    /// (`steam_app_id`) unless the defaults are being edited or the game has
    /// no options, in the defaults otherwise.
    pub fn get_app_value(&self, key: &str, is_editing_defaults: bool, steam_app_id: &Option<String>) -> (r: Option<&YamlValue>)
        requires
            !is_editing_defaults && steam_app_id is Some ==> apps_entries(self@) is Some,
        ensures
            opt_model(r) == get_path(self@, split_on(
                option_path(key@, read_target(self@, is_editing_defaults, crate::utils::text::opt_view(*steam_app_id))),
                '.',
            )),
    {
        let target: Option<&String> = match steam_app_id {
            Some(id) => if !is_editing_defaults && self.app_conf_exists(id.as_str()) { Some(id) } else { None },
            None => None,
        };
        let path = option_path_string(key, target);
        self.serialized_config.get_value(path.as_str())
    }

    /// The text of an option (see `get_app_value` and `value_text`).
    pub fn get_app_value_as_string(&self, key: &str, is_editing_defaults: bool, steam_app_id: &Option<String>) -> (r: String)
        requires
            !is_editing_defaults && steam_app_id is Some ==> apps_entries(self@) is Some,
        ensures
            r@ == value_text(get_path(self@, split_on(
                option_path(key@, read_target(self@, is_editing_defaults, crate::utils::text::opt_view(*steam_app_id))),
                '.',
            ))),
    {
        value_to_shared_string(self.get_app_value(key, is_editing_defaults, steam_app_id))
    }

    /// Adds options for the game `app_id`, a copy of the defaults, when it
    /// has none.
    pub fn get_or_create_app_conf_to_edit(&mut self, app_id: &str)
        requires
            with_app_conf(old(self)@, app_id@) is Some,
        ensures
            with_app_conf(old(self)@, app_id@) == Some(final(self)@),
    {
        proof {
            reveal_strlit("defaults");
            reveal_strlit("apps");
        }
        let defaults_clone = match self.serialized_config.get("defaults") {
            Some(d) => clone_yaml(d),
            None => return,
        };
        let op = MappingEdit::InsertIfAbsent(YamlValue::String(to_string(app_id)), defaults_clone);
        let parts = vec![to_string("apps")];
        assert(crate::utils::text::views(parts@).skip(0) =~= seq!["apps"@]);
        match self.serialized_config.edit_by_parts(&parts, 0, &op) {
            Some(x) => {
                self.serialized_config = x;
            },
            None => {},
        }
    }

    /// Sets an option, in the options of the running game (created from the
    /// defaults if needed) unless the defaults are being edited. A key under
    /// `enabled_tweaks.` adds or replaces that tweak's entry in its mapping.
    pub fn set_app_value(&mut self, key: &str, val: YamlValue, is_editing_defaults: bool, steam_app_id: &Option<String>)
        requires
            set_app_value_model(old(self)@, key@, val@, is_editing_defaults, crate::utils::text::opt_view(*steam_app_id)) is Some,
        ensures
            set_app_value_model(old(self)@, key@, val@, is_editing_defaults, crate::utils::text::opt_view(*steam_app_id))
                == Some(final(self)@),
    {
        let ghost m0 = self@;
        let ghost v = val@;
        let ghost tv = write_target(is_editing_defaults, crate::utils::text::opt_view(*steam_app_id));
        let ghost model_result = set_app_value_model(m0, key@, v, is_editing_defaults, crate::utils::text::opt_view(*steam_app_id));
        let target: Option<&String> = if !is_editing_defaults { steam_app_id.as_ref() } else { None };
        assert(match target { Some(id) => Some(id@), None => None::<Seq<char>> } == tv);
        if let Some(id) = target {
            self.get_or_create_app_conf_to_edit(id.as_str());
        }
        let ghost m1 = self@;
        assert(match tv { Some(id) => with_app_conf(m0, id), None => Some(m0) } == Some(m1));
        let conf_path = option_path_string(key, target);
        assert(conf_path@ == option_path(key@, tv));
        proof {
            reveal_strlit("enabled_tweaks.");
            reveal_strlit("");
        }
        if str_contains(key, "enabled_tweaks.") {
            let parts = crate::utils::text::split_dots(key);
            proof {
                crate::utils::text::lemma_split_nonempty(key@, '.');
            }
            let last = parts[parts.len() - 1].clone();
            assert(last@ == split_on(key@, '.').last());
            let pat = concat(".", last.as_str());
            proof {
                reveal_strlit(".");
            }
            assert(pat@ =~= seq!['.'] + last@);
            let parent_key = replace_all(conf_path.as_str(), pat.as_str(), "");
            let parent_parts = crate::utils::text::split_dots(parent_key.as_str());
            assert(crate::utils::text::views(parent_parts@).skip(0) =~= crate::utils::text::views(parent_parts@));
            let op = MappingEdit::Insert(YamlValue::String(last), val);
            assert(op@ == EditModel::Insert(YamlModel::Str(split_on(key@, '.').last()), v));
            assert(""@ =~= Seq::<char>::empty());
            assert(parent_key@ == replace_seq(option_path(key@, tv), seq!['.'] + split_on(key@, '.').last(), Seq::empty()));
            assert(contains_seq(key@, "enabled_tweaks."@));
            assert(model_result == edit_at_path(m1, split_on(parent_key@, '.'), op@));
            match self.serialized_config.edit_by_parts(&parent_parts, 0, &op) {
                Some(x) => {
                    self.serialized_config = x;
                },
                None => {},
            }
        } else {
            assert(model_result == set_path(m1, split_on(conf_path@, '.'), v));
            proof {
                lemma_set_then_get(self@, split_on(conf_path@, '.'), v);
            }
            self.set_value(conf_path.as_str(), val);
        }
    }

    /// Sets an option from the text typed in the settings window (see
    /// `parse_guess`, of which `float_text` is the floating-point rendering).
    pub fn set_app_value_from_string(
        &mut self,
        key: &str,
        val: &str,
        float_text: Option<String>,
        is_editing_defaults: bool,
        steam_app_id: &Option<String>,
    )
        requires
            set_app_value_model(
                old(self)@, key@, parse_guess_model(val@, crate::utils::text::opt_view(float_text)),
                is_editing_defaults, crate::utils::text::opt_view(*steam_app_id),
            ) is Some,
        ensures
            set_app_value_model(
                old(self)@, key@, parse_guess_model(val@, crate::utils::text::opt_view(float_text)),
                is_editing_defaults, crate::utils::text::opt_view(*steam_app_id),
            ) == Some(final(self)@),
    {
        let v = parse_guess(to_string(val), float_text);
        self.set_app_value(key, v, is_editing_defaults, steam_app_id);
    }

    /// Resets options: the defaults to `default_options` when the defaults
    /// are being edited, else removes the running game's options (moving
    /// the last game's entry into their place).
    pub fn reset_serialized_opts_to_defaults(
        &mut self,
        is_editing_defaults: bool,
        steam_app_id: &Option<String>,
        default_options: YamlValue,
    )
        requires
            reset_model(old(self)@, is_editing_defaults, crate::utils::text::opt_view(*steam_app_id), default_options@) is Some,
        ensures
            reset_model(old(self)@, is_editing_defaults, crate::utils::text::opt_view(*steam_app_id), default_options@)
                == Some(final(self)@),
    {
        proof {
            reveal_strlit("defaults");
            reveal_strlit("apps");
        }
        if is_editing_defaults {
            let parts = vec![to_string("defaults")];
            assert(crate::utils::text::views(parts@).skip(0) =~= seq!["defaults"@]);
            match self.serialized_config.set_by_parts(&parts, 0, default_options) {
                Some(x) => {
                    self.serialized_config = x;
                },
                None => {},
            }
        } else if let Some(id) = steam_app_id {
            let parts = vec![to_string("apps")];
            assert(crate::utils::text::views(parts@).skip(0) =~= seq!["apps"@]);
            let op = MappingEdit::SwapRemove(YamlValue::String(id.clone()));
            match self.serialized_config.edit_by_parts(&parts, 0, &op) {
                Some(x) => {
                    self.serialized_config = x;
                },
                None => {},
            }
        }
    }
}

} // verus!
