//! A YAML document tree, as the configuration is edited in: the values of
//! `serde_yaml`, with mappings kept in insertion order and floating-point
//! numbers carried by their text.
use vstd::prelude::*;
use crate::utils::text::{str_eq, to_string, split_on, split_dots};

verus! {

/// A YAML number: a non-negative integer, a negative integer, or a
/// floating-point number given by its text.
pub enum YamlNumber {
    PosInt(u64),
    NegInt(i64),
    Float(String),
}

/// A YAML value.
pub enum YamlValue {
    Null,
    Bool(bool),
    Number(YamlNumber),
    String(String),
    Sequence(Vec<YamlValue>),
    Mapping(Vec<(YamlValue, YamlValue)>),
    Tagged(String, Box<YamlValue>),
}

/// The abstract value of a YAML value.
pub enum YamlModel {
    Null,
    Bool(bool),
    PosInt(u64),
    NegInt(i64),
    Float(Seq<char>),
    Str(Seq<char>),
    List(Seq<YamlModel>),
    Dict(Seq<(YamlModel, YamlModel)>),
    Tagged(Seq<char>, Box<YamlModel>),
}

/// The abstract value of a YAML value.
pub open spec fn model(v: &YamlValue) -> YamlModel
    decreases v,
{
    match v {
        YamlValue::Null => YamlModel::Null,
        YamlValue::Bool(b) => YamlModel::Bool(*b),
        YamlValue::Number(YamlNumber::PosInt(n)) => YamlModel::PosInt(*n),
        YamlValue::Number(YamlNumber::NegInt(n)) => YamlModel::NegInt(*n),
        YamlValue::Number(YamlNumber::Float(t)) => YamlModel::Float(t@),
        YamlValue::String(s) => YamlModel::Str(s@),
        YamlValue::Sequence(items) => YamlModel::List(
            Seq::new(items.len() as nat, |i: int| if 0 <= i < items.len() { model(&items[i]) } else { YamlModel::Null }),
        ),
        YamlValue::Mapping(entries) => YamlModel::Dict(
            Seq::new(entries.len() as nat, |i: int|
                if 0 <= i < entries.len() {
                    (model(&entries[i].0), model(&entries[i].1))
                } else {
                    (YamlModel::Null, YamlModel::Null)
                }),
        ),
        YamlValue::Tagged(tag, inner) => YamlModel::Tagged(tag@, Box::new(model(&**inner))),
    }
}

impl View for YamlValue {
    type V = YamlModel;

    open spec fn view(&self) -> YamlModel {
        model(self)
    }
}


/// The models of a list of values.
pub open spec fn item_models(items: Seq<YamlValue>) -> Seq<YamlModel> {
    items.map_values(|x: YamlValue| x@)
}

/// The model of a sequence is the models of its items.
pub proof fn lemma_list_model(items: Vec<YamlValue>)
    ensures
        YamlValue::Sequence(items)@ == YamlModel::List(item_models(items@)),
{
    if let YamlModel::List(m) = YamlValue::Sequence(items)@ {
        assert(m =~= item_models(items@));
    }
}

/// A copy of a YAML value.
#[verifier::loop_isolation(false)]
pub fn clone_yaml(v: &YamlValue) -> (r: YamlValue)
    ensures
        r@ == v@,
    decreases v,
{
    match v {
        YamlValue::Null => YamlValue::Null,
        YamlValue::Bool(b) => YamlValue::Bool(*b),
        YamlValue::Number(YamlNumber::PosInt(n)) => YamlValue::Number(YamlNumber::PosInt(*n)),
        YamlValue::Number(YamlNumber::NegInt(n)) => YamlValue::Number(YamlNumber::NegInt(*n)),
        YamlValue::Number(YamlNumber::Float(t)) => YamlValue::Number(YamlNumber::Float(t.clone())),
        YamlValue::String(s) => YamlValue::String(s.clone()),
        YamlValue::Sequence(items) => {
            let mut out: Vec<YamlValue> = Vec::new();
            let mut i: usize = 0;
            while i < items.len()
                invariant
                    i <= items.len(),
                    out@.len() == i,
                    forall|k: int| 0 <= k < i ==> #[trigger] out@[k]@ == items@[k]@,
                decreases items.len() - i,
            {
                out.push(clone_yaml(&items[i]));
                i = i + 1;
            }
            proof {
                lemma_list_model(out);
                lemma_list_model(*items);
                assert(item_models(out@) =~= item_models(items@));
            }
            YamlValue::Sequence(out)
        },
        YamlValue::Mapping(entries) => {
            let mut out: Vec<(YamlValue, YamlValue)> = Vec::new();
            let mut i: usize = 0;
            while i < entries.len()
                invariant
                    i <= entries.len(),
                    out@.len() == i,
                    forall|k: int| 0 <= k < i ==> #[trigger] out@[k].0@ == entries@[k].0@
                        && out@[k].1@ == entries@[k].1@,
                decreases entries.len() - i,
            {
                let k = clone_yaml(&entries[i].0);
                let x = clone_yaml(&entries[i].1);
                out.push((k, x));
                i = i + 1;
            }
            proof {
                lemma_map_model(out);
                lemma_map_model(*entries);
                assert(entry_models(out@) =~= entry_models(entries@));
            }
            YamlValue::Mapping(out)
        },
        YamlValue::Tagged(tag, inner) => YamlValue::Tagged(tag.clone(), Box::new(clone_yaml(&**inner))),
    }
}

impl Clone for YamlValue {
    fn clone(&self) -> (r: Self)
        ensures
            r@ == self@,
    {
        clone_yaml(self)
    }
}

/// Whether two YAML values are equal (floating-point numbers compare by
/// their text).
#[verifier::loop_isolation(false)]
pub fn yaml_eq(a: &YamlValue, b: &YamlValue) -> (r: bool)
    ensures
        r == (a@ == b@),
    decreases a,
{
    match (a, b) {
        (YamlValue::Null, YamlValue::Null) => true,
        (YamlValue::Bool(x), YamlValue::Bool(y)) => *x == *y,
        (YamlValue::Number(YamlNumber::PosInt(x)), YamlValue::Number(YamlNumber::PosInt(y))) => *x == *y,
        (YamlValue::Number(YamlNumber::NegInt(x)), YamlValue::Number(YamlNumber::NegInt(y))) => *x == *y,
        (YamlValue::Number(YamlNumber::Float(x)), YamlValue::Number(YamlNumber::Float(y))) =>
            str_eq(x.as_str(), y.as_str()),
        (YamlValue::String(x), YamlValue::String(y)) => str_eq(x.as_str(), y.as_str()),
        (YamlValue::Sequence(x), YamlValue::Sequence(y)) => {
            proof {
                lemma_list_model(*x);
                lemma_list_model(*y);
            }
            let ghost p = item_models(x@);
            let ghost q = item_models(y@);
            if x.len() != y.len() {
                assert(p.len() != q.len());
                return false;
            }
            let mut i: usize = 0;
            while i < x.len()
                invariant
                    x.len() == y.len(),
                    i <= x.len(),
                    forall|k: int| 0 <= k < i ==> #[trigger] x@[k]@ == y@[k]@,
                decreases x.len() - i,
            {
                if !yaml_eq(&x[i], &y[i]) {
                    assert(p[i as int] != q[i as int]);
                    return false;
                }
                i = i + 1;
            }
            assert(p =~= q);
            true
        },
        (YamlValue::Mapping(x), YamlValue::Mapping(y)) => {
            proof {
                lemma_map_model(*x);
                lemma_map_model(*y);
            }
            let ghost p = entry_models(x@);
            let ghost q = entry_models(y@);
            if x.len() != y.len() {
                assert(p.len() != q.len());
                return false;
            }
            let mut i: usize = 0;
            while i < x.len()
                invariant
                    x.len() == y.len(),
                    i <= x.len(),
                    p == entry_models(x@),
                    q == entry_models(y@),
                    forall|k: int| 0 <= k < i ==> #[trigger] p[k] == q[k],
                decreases x.len() - i,
            {
                let same_key = yaml_eq(&x[i].0, &y[i].0);
                let same_value = yaml_eq(&x[i].1, &y[i].1);
                if !same_key || !same_value {
                    assert(p[i as int] != q[i as int]);
                    return false;
                }
                assert(p[i as int] == q[i as int]);
                i = i + 1;
            }
            assert(p =~= q);
            true
        },
        (YamlValue::Tagged(t1, v1), YamlValue::Tagged(t2, v2)) => {
            str_eq(t1.as_str(), t2.as_str()) && yaml_eq(&**v1, &**v2)
        },
        _ => false,
    }
}


/// A value with its tags removed.
pub open spec fn untag(m: YamlModel) -> YamlModel
    decreases m,
{
    match m {
        YamlModel::Tagged(_, inner) => untag(*inner),
        _ => m,
    }
}

/// The index of the first entry whose key is `key`, if any.
pub open spec fn first_index(entries: Seq<(YamlModel, YamlModel)>, key: YamlModel) -> Option<int>
    decreases entries.len(),
{
    if entries.len() == 0 {
        None
    } else if entries[0].0 == key {
        Some(0)
    } else {
        match first_index(entries.skip(1), key) {
            Some(i) => Some(i + 1),
            None => None,
        }
    }
}

/// `first_index` finds the first entry with the key, or reports that no
/// entry has it.
pub proof fn lemma_first_index(entries: Seq<(YamlModel, YamlModel)>, key: YamlModel)
    ensures
        first_index(entries, key) matches Some(i) ==> 0 <= i < entries.len() && entries[i].0 == key
            && forall|j: int| 0 <= j < i ==> entries[j].0 != key,
        first_index(entries, key) is None ==> forall|j: int| 0 <= j < entries.len() ==> entries[j].0 != key,
    decreases entries.len(),
{
    if entries.len() > 0 && entries[0].0 != key {
        lemma_first_index(entries.skip(1), key);
        assert forall|j: int| 0 < j < entries.len() implies entries[j] == entries.skip(1)[j - 1] by {}
    }
}

/// An entry with the key and no earlier one is the first.
pub proof fn lemma_first_index_at(entries: Seq<(YamlModel, YamlModel)>, key: YamlModel, i: int)
    requires
        0 <= i < entries.len(),
        entries[i].0 == key,
        forall|j: int| 0 <= j < i ==> entries[j].0 != key,
    ensures
        first_index(entries, key) == Some(i),
{
    lemma_first_index(entries, key);
    match first_index(entries, key) {
        Some(k) => {
            if k < i {
            } else if k > i {
                assert(entries[i].0 != key);
            }
        },
        None => {
            assert(entries[i].0 != key);
        },
    }
}

/// The value under the string key `key` of a (possibly tagged) mapping.
pub open spec fn get_key(m: YamlModel, key: Seq<char>) -> Option<YamlModel> {
    match untag(m) {
        YamlModel::Dict(entries) => match first_index(entries, YamlModel::Str(key)) {
            Some(i) => Some(entries[i].1),
            None => None,
        },
        _ => None,
    }
}

/// The value reached by following the keys of `parts` in turn.
pub open spec fn get_path(m: YamlModel, parts: Seq<Seq<char>>) -> Option<YamlModel>
    decreases parts.len(),
{
    if parts.len() == 0 {
        Some(m)
    } else {
        match get_key(m, parts[0]) {
            Some(x) => get_path(x, parts.skip(1)),
            None => None,
        }
    }
}

/// The value with the value reached by following `parts` replaced by `new`;
/// none when the path does not exist.
pub open spec fn set_path(m: YamlModel, parts: Seq<Seq<char>>, new: YamlModel) -> Option<YamlModel>
    decreases parts.len(), m,
{
    if parts.len() == 0 {
        Some(new)
    } else {
        match m {
            YamlModel::Tagged(t, inner) => match set_path(*inner, parts, new) {
                Some(x) => Some(YamlModel::Tagged(t, Box::new(x))),
                None => None,
            },
            YamlModel::Dict(entries) => match first_index(entries, YamlModel::Str(parts[0])) {
                Some(i) => match set_path(entries[i].1, parts.skip(1), new) {
                    Some(x) => Some(YamlModel::Dict(entries.update(i, (entries[i].0, x)))),
                    None => None,
                },
                None => None,
            },
            _ => None,
        }
    }
}

/// The value with its tags removed.
pub fn untag_ref(v: &YamlValue) -> (r: &YamlValue)
    ensures
        r@ == untag(v@),
    decreases v,
{
    match v {
        YamlValue::Tagged(_, inner) => untag_ref(&**inner),
        _ => v,
    }
}

/// The first entry whose key equals `key`, by scanning.
pub fn find_entry(entries: &Vec<(YamlValue, YamlValue)>, key: &YamlValue) -> (r: Option<usize>)
    ensures
        r matches Some(i) ==> i < entries@.len() && first_index(entry_models(entries@), key@) == Some(i as int),
        r is None ==> first_index(entry_models(entries@), key@) is None,
{
    let ghost em = entry_models(entries@);
    let mut i: usize = 0;
    while i < entries.len()
        invariant
            em == entry_models(entries@),
            i <= entries.len(),
            forall|j: int| 0 <= j < i ==> em[j].0 != key@,
        decreases entries.len() - i,
    {
        if yaml_eq(&entries[i].0, key) {
            proof {
                lemma_first_index_at(em, key@, i as int);
            }
            return Some(i);
        }
        i = i + 1;
    }
    proof {
        lemma_first_index(em, key@);
        if let Some(k) = first_index(em, key@) {
            assert(em[k].0 != key@);
        }
    }
    None
}

/// The models of a list of entries.
pub open spec fn entry_models(entries: Seq<(YamlValue, YamlValue)>) -> Seq<(YamlModel, YamlModel)> {
    entries.map_values(|e: (YamlValue, YamlValue)| (e.0@, e.1@))
}

/// The model of a mapping is the models of its entries.
pub proof fn lemma_map_model_pub(entries: Vec<(YamlValue, YamlValue)>)
    ensures
        YamlValue::Mapping(entries)@ == YamlModel::Dict(entry_models(entries@)),
{
    lemma_map_model(entries);
}

/// The model of a mapping is the models of its entries.
proof fn lemma_map_model(entries: Vec<(YamlValue, YamlValue)>)
    ensures
        YamlValue::Mapping(entries)@ == YamlModel::Dict(entry_models(entries@)),
{
    if let YamlModel::Dict(m) = YamlValue::Mapping(entries)@ {
        assert(m =~= entry_models(entries@));
    }
}

impl YamlValue {
    /// The value under the string key `key`, when `self` is a (possibly
    /// tagged) mapping that has it.
    pub fn get(&self, key: &str) -> (r: Option<&YamlValue>)
        ensures
            r matches Some(x) ==> get_key(self@, key@) == Some(x@),
            r is None ==> get_key(self@, key@) is None,
    {
        let inner = untag_ref(self);
        match inner {
            YamlValue::Mapping(entries) => {
                proof {
                    lemma_map_model(*entries);
                }
                let k = YamlValue::String(to_string(key));
                match find_entry(entries, &k) {
                    Some(i) => Some(&entries[i].1),
                    None => None,
                }
            },
            _ => None,
        }
    }

    /// The value reached by following the keys `parts[from..]` in turn.
    pub fn get_by_parts(&self, parts: &Vec<String>, from: usize) -> (r: Option<&YamlValue>)
        requires
            from <= parts@.len(),
        ensures
            r matches Some(x) ==> get_path(self@, crate::utils::text::views(parts@).skip(from as int)) == Some(x@),
            r is None ==> get_path(self@, crate::utils::text::views(parts@).skip(from as int)) is None,
        decreases parts@.len() - from,
    {
        let ghost ps = crate::utils::text::views(parts@).skip(from as int);
        if from == parts.len() {
            return Some(self);
        }
        assert(ps[0] == parts@[from as int]@);
        assert(ps.skip(1) =~= crate::utils::text::views(parts@).skip(from + 1));
        match self.get(parts[from].as_str()) {
            Some(x) => x.get_by_parts(parts, from + 1),
            None => None,
        }
    }

    /// The value reached by following the dot-separated keys of `key`
    /// (`a.b.c`).
    pub fn get_value(&self, key: &str) -> (r: Option<&YamlValue>)
        ensures
            r matches Some(x) ==> get_path(self@, split_on(key@, '.')) == Some(x@),
            r is None ==> get_path(self@, split_on(key@, '.')) is None,
    {
        let parts = split_dots(key);
        assert(crate::utils::text::views(parts@).skip(0) =~= crate::utils::text::views(parts@));
        self.get_by_parts(&parts, 0)
    }

    /// A copy of the value with the value reached by following
    /// `parts[from..]` replaced by `new`; none when that path does not exist.
    pub fn set_by_parts(&self, parts: &Vec<String>, from: usize, new: YamlValue) -> (r: Option<YamlValue>)
        requires
            from <= parts@.len(),
        ensures
            r matches Some(x) ==> set_path(self@, crate::utils::text::views(parts@).skip(from as int), new@) == Some(x@),
            r is None ==> set_path(self@, crate::utils::text::views(parts@).skip(from as int), new@) is None,
        decreases parts@.len() - from, self,
    {
        let ghost ps = crate::utils::text::views(parts@).skip(from as int);
        if from == parts.len() {
            return Some(new);
        }
        match self {
            YamlValue::Tagged(t, inner) => {
                match (&**inner).set_by_parts(parts, from, new) {
                    Some(x) => Some(YamlValue::Tagged(t.clone(), Box::new(x))),
                    None => None,
                }
            },
            YamlValue::Mapping(entries) => {
                proof {
                    lemma_map_model(*entries);
                }
                assert(ps[0] == parts@[from as int]@);
                assert(ps.skip(1) =~= crate::utils::text::views(parts@).skip(from + 1));
                let k = YamlValue::String(parts[from].clone());
                match find_entry(entries, &k) {
                    Some(i) => {
                        match entries[i].1.set_by_parts(parts, from + 1, new) {
                            Some(x) => {
                                let mut out = clone_entries(entries);
                                let key_copy = clone_yaml(&entries[i].0);
                                out.set(i, (key_copy, x));
                                let r = YamlValue::Mapping(out);
                                proof {
                                    lemma_map_model(out);
                                }
                                assert(entry_models(out@) =~= entry_models(entries@).update(
                                    i as int, (entry_models(entries@)[i as int].0, x@)));
                                Some(r)
                            },
                            None => None,
                        }
                    },
                    None => None,
                }
            },
            _ => None,
        }
    }

    /// A copy of the value with the value reached by following the
    /// dot-separated keys of `key` replaced by `new`; none when that path
    /// does not exist.
    pub fn set_value(&self, key: &str, new: YamlValue) -> (r: Option<YamlValue>)
        ensures
            r matches Some(x) ==> set_path(self@, split_on(key@, '.'), new@) == Some(x@),
            r is None ==> set_path(self@, split_on(key@, '.'), new@) is None,
    {
        let parts = split_dots(key);
        assert(crate::utils::text::views(parts@).skip(0) =~= crate::utils::text::views(parts@));
        self.set_by_parts(&parts, 0, new)
    }
}

/// A copy of a list of entries.
pub fn clone_entries(entries: &Vec<(YamlValue, YamlValue)>) -> (r: Vec<(YamlValue, YamlValue)>)
    ensures
        entry_models(r@) == entry_models(entries@),
{
    let mut out: Vec<(YamlValue, YamlValue)> = Vec::new();
    let mut i: usize = 0;
    while i < entries.len()
        invariant
            i <= entries.len(),
            out@.len() == i,
            forall|k: int| 0 <= k < i ==> #[trigger] out@[k].0@ == entries@[k].0@ && out@[k].1@ == entries@[k].1@,
        decreases entries.len() - i,
    {
        out.push((clone_yaml(&entries[i].0), clone_yaml(&entries[i].1)));
        i = i + 1;
    }
    assert(entry_models(out@) =~= entry_models(entries@));
    out
}

/// A write is read back: after replacing the value at a path, reading that
/// path gives the new value; and a path can be written exactly when it can
/// be read.
pub proof fn lemma_set_then_get(m: YamlModel, parts: Seq<Seq<char>>, new: YamlModel)
    ensures
        set_path(m, parts, new) is Some <==> get_path(m, parts) is Some,
        set_path(m, parts, new) matches Some(x) ==> get_path(x, parts) == Some(new),
    decreases parts.len(), m,
{
    if parts.len() == 0 {
    } else {
        match m {
            YamlModel::Tagged(t, inner) => {
                lemma_set_then_get(*inner, parts, new);
                lemma_untag_tagged(t, *inner);
                if let Some(x) = set_path(*inner, parts, new) {
                    lemma_untag_tagged(t, x);
                    lemma_get_path_untag(YamlModel::Tagged(t, Box::new(x)), x, parts);
                }
                lemma_get_path_untag(m, *inner, parts);
            },
            YamlModel::Dict(entries) => {
                match first_index(entries, YamlModel::Str(parts[0])) {
                    Some(i) => {
                        lemma_set_then_get(entries[i].1, parts.skip(1), new);
                        if let Some(x) = set_path(entries[i].1, parts.skip(1), new) {
                            let e2 = entries.update(i, (entries[i].0, x));
                            lemma_first_index_update(entries, YamlModel::Str(parts[0]), i, x);
                            assert(get_key(YamlModel::Dict(e2), parts[0]) == Some(x));
                        }
                    },
                    None => {},
                }
            },
            _ => {},
        }
    }
}

/// Two paths part ways: at some position within both, they differ, and
/// they agree before it.
pub open spec fn paths_diverge(p: Seq<Seq<char>>, q: Seq<Seq<char>>) -> bool {
    exists|k: int| 0 <= k < p.len() && k < q.len() && p[k] != q[k] && forall|j: int| 0 <= j < k ==> p[j] == q[j]
}

/// Entries with the same keys have the same first index for every key.
proof fn lemma_first_index_same_keys(e1: Seq<(YamlModel, YamlModel)>, e2: Seq<(YamlModel, YamlModel)>, key: YamlModel)
    requires
        e1.len() == e2.len(),
        forall|j: int| 0 <= j < e1.len() ==> e1[j].0 == e2[j].0,
    ensures
        first_index(e1, key) == first_index(e2, key),
{
    lemma_first_index(e1, key);
    lemma_first_index(e2, key);
    match first_index(e1, key) {
        Some(i) => {
            lemma_first_index_at(e2, key, i);
        },
        None => {
            if let Some(i) = first_index(e2, key) {
                assert(e1[i].0 == key);
            }
        },
    }
}

/// Replacing the value at a path leaves every path that parts ways with it
/// unchanged.
pub proof fn lemma_set_path_frame(m: YamlModel, parts: Seq<Seq<char>>, new: YamlModel, other: Seq<Seq<char>>)
    requires
        set_path(m, parts, new) is Some,
        paths_diverge(parts, other),
    ensures
        set_path(m, parts, new) matches Some(m2) && get_path(m2, other) == get_path(m, other),
    decreases parts.len(), m,
{
    let k = choose|k: int| 0 <= k < parts.len() && k < other.len() && parts[k] != other[k] && forall|j: int| 0 <= j < k ==> parts[j] == other[j];
    match m {
        YamlModel::Tagged(t, inner) => {
            lemma_set_path_frame(*inner, parts, new, other);
            let x = set_path(*inner, parts, new).unwrap();
            lemma_untag_tagged(t, x);
            lemma_untag_tagged(t, *inner);
            lemma_get_path_untag(YamlModel::Tagged(t, Box::new(x)), x, other);
            lemma_get_path_untag(m, *inner, other);
        },
        YamlModel::Dict(entries) => {
            let i = first_index(entries, YamlModel::Str(parts[0])).unwrap();
            lemma_first_index(entries, YamlModel::Str(parts[0]));
            let x = set_path(entries[i].1, parts.skip(1), new).unwrap();
            let e2 = entries.update(i, (entries[i].0, x));
            assert forall|j: int| 0 <= j < entries.len() implies entries[j].0 == e2[j].0 by {}
            lemma_first_index_same_keys(entries, e2, YamlModel::Str(other[0]));
            lemma_first_index(entries, YamlModel::Str(other[0]));
            if k == 0 {
                if let Some(j) = first_index(entries, YamlModel::Str(other[0])) {
                    assert(j != i);
                    assert(e2[j] == entries[j]);
                }
            } else {
                assert(parts[0] == other[0]);
                assert(paths_diverge(parts.skip(1), other.skip(1))) by {
                    assert(parts.skip(1)[k - 1] != other.skip(1)[k - 1]);
                    assert forall|j: int| 0 <= j < k - 1 implies parts.skip(1)[j] == other.skip(1)[j] by {
                        assert(parts[j + 1] == other[j + 1]);
                    }
                }
                lemma_set_path_frame(entries[i].1, parts.skip(1), new, other.skip(1));
            }
        },
        _ => {},
    }
}

/// An edit at a path succeeds exactly where the path leads to a mapping.
pub proof fn lemma_edit_exists(m: YamlModel, parts: Seq<Seq<char>>, op: EditModel)
    ensures
        edit_at_path(m, parts, op) is Some <==> (get_path(m, parts) matches Some(x) && untag(x) is Dict),
    decreases parts.len(), m,
{
    match m {
        YamlModel::Tagged(t, inner) => {
            lemma_edit_exists(*inner, parts, op);
            lemma_untag_tagged(t, *inner);
            if parts.len() > 0 {
                lemma_get_path_untag(m, *inner, parts);
            }
        },
        YamlModel::Dict(entries) => {
            if parts.len() > 0 {
                if let Some(i) = first_index(entries, YamlModel::Str(parts[0])) {
                    lemma_edit_exists(entries[i].1, parts.skip(1), op);
                }
            }
        },
        _ => {},
    }
}

/// The first index of a key other than the one of the entry appended is
/// unchanged by the appending.
proof fn lemma_first_index_push(entries: Seq<(YamlModel, YamlModel)>, kv: (YamlModel, YamlModel), key: YamlModel)
    requires
        kv.0 != key,
    ensures
        first_index(entries.push(kv), key) == first_index(entries, key),
{
    let e2 = entries.push(kv);
    lemma_first_index(entries, key);
    lemma_first_index(e2, key);
    match first_index(entries, key) {
        Some(i) => {
            assert forall|j: int| 0 <= j < i implies e2[j].0 != key by {
                assert(e2[j] == entries[j]);
            }
            lemma_first_index_at(e2, key, i);
        },
        None => {
            if let Some(i) = first_index(e2, key) {
                if i < entries.len() {
                    assert(e2[i] == entries[i]);
                }
            }
        },
    }
}

/// An insertion into the mapping reached by `parts` leaves every path that
/// parts ways with the inserted key's path unchanged.
pub proof fn lemma_insert_frame(m: YamlModel, parts: Seq<Seq<char>>, key: Seq<char>, v: YamlModel, other: Seq<Seq<char>>)
    requires
        edit_at_path(m, parts, EditModel::Insert(YamlModel::Str(key), v)) is Some,
        paths_diverge(parts.push(key), other),
    ensures
        edit_at_path(m, parts, EditModel::Insert(YamlModel::Str(key), v)) matches Some(m2)
            && get_path(m2, other) == get_path(m, other),
    decreases parts.len(), m,
{
    let op = EditModel::Insert(YamlModel::Str(key), v);
    let full = parts.push(key);
    let k = choose|k: int| 0 <= k < full.len() && k < other.len() && full[k] != other[k] && forall|j: int| 0 <= j < k ==> full[j] == other[j];
    match m {
        YamlModel::Tagged(t, inner) => {
            lemma_insert_frame(*inner, parts, key, v, other);
            let x = edit_at_path(*inner, parts, op).unwrap();
            lemma_untag_tagged(t, x);
            lemma_untag_tagged(t, *inner);
            lemma_get_path_untag(YamlModel::Tagged(t, Box::new(x)), x, other);
            lemma_get_path_untag(m, *inner, other);
            assert(edit_at_path(m, parts, op) == Some(YamlModel::Tagged(t, Box::new(x))));
        },
        YamlModel::Dict(entries) => {
            let o0 = YamlModel::Str(other[0]);
            if parts.len() == 0 {
                assert(full[0] == key);
                assert(k == 0);
                let e2 = apply_edit(entries, op);
                match first_index(entries, YamlModel::Str(key)) {
                    Some(j) => {
                        lemma_first_index(entries, YamlModel::Str(key));
                        assert forall|a: int| 0 <= a < entries.len() implies entries[a].0 == e2[a].0 by {}
                        lemma_first_index_same_keys(entries, e2, o0);
                        lemma_first_index(entries, o0);
                        if let Some(a) = first_index(entries, o0) {
                            assert(a != j);
                            assert(e2[a] == entries[a]);
                        }
                    },
                    None => {
                        lemma_first_index_push(entries, (YamlModel::Str(key), v), o0);
                        lemma_first_index(entries, o0);
                        if let Some(a) = first_index(entries, o0) {
                            assert(e2[a] == entries[a]);
                        }
                    },
                }
                assert(edit_at_path(m, parts, op) == Some(YamlModel::Dict(e2)));
            } else {
                let i = first_index(entries, YamlModel::Str(parts[0])).unwrap();
                lemma_first_index(entries, YamlModel::Str(parts[0]));
                let x = edit_at_path(entries[i].1, parts.skip(1), op).unwrap();
                let e2 = entries.update(i, (entries[i].0, x));
                assert forall|a: int| 0 <= a < entries.len() implies entries[a].0 == e2[a].0 by {}
                lemma_first_index_same_keys(entries, e2, o0);
                lemma_first_index(entries, o0);
                assert(full[0] == parts[0]);
                if k == 0 {
                    if let Some(a) = first_index(entries, o0) {
                        assert(a != i);
                        assert(e2[a] == entries[a]);
                    }
                } else {
                    assert(parts[0] == other[0]);
                    assert(parts.skip(1).push(key) =~= full.skip(1));
                    assert(paths_diverge(parts.skip(1).push(key), other.skip(1))) by {
                        assert(full.skip(1)[k - 1] != other.skip(1)[k - 1]);
                        assert forall|j: int| 0 <= j < k - 1 implies full.skip(1)[j] == other.skip(1)[j] by {
                            assert(full[j + 1] == other[j + 1]);
                        }
                    }
                    lemma_insert_frame(entries[i].1, parts.skip(1), key, v, other.skip(1));
                }
                assert(edit_at_path(m, parts, op) == Some(YamlModel::Dict(e2)));
            }
        },
        _ => {},
    }
}

/// An edit of a value itself succeeds only on a (possibly tagged) mapping,
/// whose entries it edits.
pub proof fn lemma_edit_root(v: YamlModel, op: EditModel)
    requires
        edit_at_path(v, Seq::empty(), op) is Some,
    ensures
        untag(v) is Dict,
        edit_at_path(v, Seq::empty(), op) matches Some(x) && untag(x) == YamlModel::Dict(apply_edit(untag(v)->Dict_0, op)),
    decreases v,
{
    if let YamlModel::Tagged(t, inner) = v {
        lemma_edit_root(*inner, op);
        let x = edit_at_path(*inner, Seq::empty(), op).unwrap();
        lemma_untag_tagged(t, x);
        lemma_untag_tagged(t, *inner);
    }
}

/// An edit at a one-key path edits the value under that key.
pub proof fn lemma_edit_one_key(m: YamlModel, key: Seq<char>, op: EditModel)
    requires
        edit_at_path(m, seq![key], op) is Some,
    ensures
        get_key(m, key) matches Some(v) && edit_at_path(m, seq![key], op) matches Some(m2)
            && get_key(m2, key) matches Some(v2) && edit_at_path(v, Seq::empty(), op) == Some(v2),
    decreases m,
{
    match m {
        YamlModel::Tagged(t, inner) => {
            lemma_edit_one_key(*inner, key, op);
            let x = edit_at_path(*inner, seq![key], op).unwrap();
            lemma_untag_tagged(t, x);
            lemma_untag_tagged(t, *inner);
            assert(edit_at_path(m, seq![key], op) == Some(YamlModel::Tagged(t, Box::new(x))));
        },
        YamlModel::Dict(entries) => {
            let i = first_index(entries, YamlModel::Str(key)).unwrap();
            assert(seq![key].skip(1) =~= Seq::<Seq<char>>::empty());
            assert(seq![key][0] == key);
            let x = edit_at_path(entries[i].1, Seq::empty(), op).unwrap();
            lemma_first_index_update(entries, YamlModel::Str(key), i, x);
        },
        _ => {},
    }
}

/// Inserting a key's value gives that key the value and leaves the lookup
/// of every other key unchanged.
pub proof fn lemma_lookup_insert(e: Seq<(YamlModel, YamlModel)>, k: YamlModel, v: YamlModel, k2: YamlModel)
    ensures
        lookup_model(apply_edit(e, EditModel::Insert(k, v)), k2) == if k2 == k { Some(v) } else { lookup_model(e, k2) },
{
    let e2 = apply_edit(e, EditModel::Insert(k, v));
    lemma_first_index(e, k);
    lemma_first_index(e, k2);
    match first_index(e, k) {
        Some(j) => {
            assert forall|a: int| 0 <= a < e.len() implies e[a].0 == e2[a].0 by {}
            lemma_first_index_same_keys(e, e2, k2);
            if k2 != k {
                if let Some(a) = first_index(e, k2) {
                    assert(a != j);
                    assert(e2[a] == e[a]);
                }
            }
        },
        None => {
            if k2 == k {
                assert forall|a: int| 0 <= a < e.len() implies e2[a].0 != k by {
                    assert(e2[a] == e[a]);
                }
                lemma_first_index_at(e2, k, e.len() as int);
            } else {
                lemma_first_index_push(e, (k, v), k2);
                if let Some(a) = first_index(e, k2) {
                    assert(e2[a] == e[a]);
                }
            }
        },
    }
}

/// After an insertion into the mapping reached by `parts`, the key reached
/// through that mapping holds the inserted value.
pub proof fn lemma_insert_then_get(m: YamlModel, parts: Seq<Seq<char>>, key: Seq<char>, v: YamlModel)
    requires
        edit_at_path(m, parts, EditModel::Insert(YamlModel::Str(key), v)) is Some,
    ensures
        edit_at_path(m, parts, EditModel::Insert(YamlModel::Str(key), v)) matches Some(m2)
            && get_path(m2, parts.push(key)) == Some(v),
    decreases parts.len(), m,
{
    let op = EditModel::Insert(YamlModel::Str(key), v);
    let k = YamlModel::Str(key);
    match m {
        YamlModel::Tagged(t, inner) => {
            lemma_insert_then_get(*inner, parts, key, v);
            let x = edit_at_path(*inner, parts, op).unwrap();
            lemma_untag_tagged(t, x);
            assert(parts.push(key).len() > 0);
            lemma_get_path_untag(YamlModel::Tagged(t, Box::new(x)), x, parts.push(key));
            assert(edit_at_path(m, parts, op) == Some(YamlModel::Tagged(t, Box::new(x))));
            assert(get_path(x, parts.push(key)) == Some(v));
            assert(get_path(YamlModel::Tagged(t, Box::new(x)), parts.push(key)) == Some(v));
            let m2 = edit_at_path(m, parts, op).unwrap();
            assert(m2 == YamlModel::Tagged(t, Box::new(x)));
            assert(get_path(m2, parts.push(key)) == Some(v));
        },
        YamlModel::Dict(entries) => {
            if parts.len() == 0 {
                let e2 = apply_edit(entries, op);
                assert(parts.push(key) =~= seq![key]);
                match first_index(entries, k) {
                    Some(j) => {
                        lemma_first_index_update(entries, k, j, v);
                    },
                    None => {
                        lemma_first_index(entries, k);
                        assert forall|j: int| 0 <= j < entries.len() implies e2[j].0 != k by {
                            assert(e2[j] == entries[j]);
                        }
                        lemma_first_index_at(e2, k, entries.len() as int);
                    },
                }
                assert(get_key(YamlModel::Dict(e2), key) == Some(v));
                assert(seq![key].skip(1).len() == 0);
                assert(seq![key][0] == key);
                assert(get_path(v, seq![key].skip(1)) == Some(v));
                assert(get_path(YamlModel::Dict(e2), seq![key]) == Some(v));
                assert(edit_at_path(m, parts, op) == Some(YamlModel::Dict(e2)));
            } else {
                let i = first_index(entries, YamlModel::Str(parts[0])).unwrap();
                lemma_insert_then_get(entries[i].1, parts.skip(1), key, v);
                let x = edit_at_path(entries[i].1, parts.skip(1), op).unwrap();
                lemma_first_index_update(entries, YamlModel::Str(parts[0]), i, x);
                let e2 = entries.update(i, (entries[i].0, x));
                assert(get_key(YamlModel::Dict(e2), parts[0]) == Some(x));
                assert(parts.push(key)[0] == parts[0]);
                assert(parts.push(key).skip(1) =~= parts.skip(1).push(key));
                assert(get_path(YamlModel::Dict(e2), parts.push(key)) == Some(v));
                assert(edit_at_path(m, parts, op) == Some(YamlModel::Dict(e2)));
            }
        },
        _ => {},
    }
}

/// Looking up a key in a tagged value looks it up in the value.
proof fn lemma_untag_tagged(t: Seq<char>, inner: YamlModel)
    ensures
        untag(YamlModel::Tagged(t, Box::new(inner))) == untag(inner),
{
}

/// A tagged value and the value it tags have the same paths.
proof fn lemma_get_path_untag(m: YamlModel, inner: YamlModel, parts: Seq<Seq<char>>)
    requires
        untag(m) == untag(inner),
        parts.len() > 0,
    ensures
        get_path(m, parts) == get_path(inner, parts),
{
}

/// Replacing the value of the first entry with a key keeps that entry first.
proof fn lemma_first_index_update(entries: Seq<(YamlModel, YamlModel)>, key: YamlModel, i: int, x: YamlModel)
    requires
        first_index(entries, key) == Some(i),
    ensures
        0 <= i < entries.len(),
        first_index(entries.update(i, (entries[i].0, x)), key) == Some(i),
{
    lemma_first_index(entries, key);
    let e2 = entries.update(i, (entries[i].0, x));
    assert forall|j: int| 0 <= j < i implies e2[j].0 != key by {
        assert(e2[j] == entries[j]);
    }
    lemma_first_index_at(e2, key, i);
}


/// Merges `over` onto `base`: two mappings merge key by key (an existing key
/// keeps its place and has its value merged, a new key is appended); in any
/// other case `over` wins.
pub open spec fn merge_model(base: YamlModel, over: YamlModel) -> YamlModel
    decreases over,
{
    match (base, over) {
        (YamlModel::Dict(b), YamlModel::Dict(o)) => YamlModel::Dict(merge_entries(b, o)),
        _ => over,
    }
}

/// Merges one entry of an overriding mapping into the entries of a base.
pub open spec fn merge_step(b: Seq<(YamlModel, YamlModel)>, kv: (YamlModel, YamlModel)) -> Seq<(YamlModel, YamlModel)>
    decreases kv,
{
    match first_index(b, kv.0) {
        Some(j) => if 0 <= j < b.len() {
            b.update(j, (b[j].0, merge_model(b[j].1, kv.1)))
        } else {
            b
        },
        None => b.push(kv),
    }
}

/// Merges the entries of an overriding mapping, in order, into a base.
pub open spec fn merge_entries(b: Seq<(YamlModel, YamlModel)>, o: Seq<(YamlModel, YamlModel)>) -> Seq<(YamlModel, YamlModel)>
    decreases o,
{
    if o.len() == 0 {
        b
    } else {
        merge_entries(merge_step(b, o[0]), o.subrange(1, o.len() as int))
    }
}

/// Merges `over` onto `base` (see `merge_model`).
#[verifier::loop_isolation(false)]
pub fn merge_ref(base: &YamlValue, over: &YamlValue) -> (r: YamlValue)
    ensures
        r@ == merge_model(base@, over@),
    decreases over,
{
    match (base, over) {
        (YamlValue::Mapping(bm), YamlValue::Mapping(om)) => {
            proof {
                lemma_map_model(*bm);
                lemma_map_model(*om);
            }
            let ghost b0 = entry_models(bm@);
            let ghost o = entry_models(om@);
            let mut cur = clone_entries(bm);
            let mut i: usize = 0;
            assert(o.skip(0) =~= o);
            while i < om.len()
                invariant
                    o == entry_models(om@),
                    i <= om.len(),
                    merge_entries(entry_models(cur@), o.skip(i as int)) == merge_entries(b0, o),
                decreases om.len() - i,
            {
                let ghost c = entry_models(cur@);
                assert(o.skip(i as int)[0] == o[i as int]);
                assert(o.skip(i as int).subrange(1, o.skip(i as int).len() as int) =~= o.skip(i + 1));
                assert(o[i as int] == (om@[i as int].0@, om@[i as int].1@));
                match find_entry(&cur, &om[i].0) {
                    Some(j) => {
                        let merged = merge_ref(&cur[j].1, &om[i].1);
                        let key = clone_yaml(&cur[j].0);
                        cur.set(j, (key, merged));
                        assert(entry_models(cur@) =~= c.update(j as int, (c[j as int].0, merge_model(c[j as int].1, o[i as int].1))));
                    },
                    None => {
                        let key = clone_yaml(&om[i].0);
                        let value = clone_yaml(&om[i].1);
                        cur.push((key, value));
                        assert(entry_models(cur@) =~= c.push(o[i as int]));
                    },
                }
                assert(entry_models(cur@) == merge_step(c, o[i as int]));
                i = i + 1;
            }
            assert(o.skip(om.len() as int) =~= Seq::<(YamlModel, YamlModel)>::empty());
            proof {
                lemma_map_model(cur);
            }
            YamlValue::Mapping(cur)
        },
        _ => clone_yaml(over),
    }
}

/// Merges `over` onto `base` (see `merge_model`), as the configuration
/// loader merges a configuration file onto the defaults.
pub fn merge_yaml(base: YamlValue, over: YamlValue) -> (r: YamlValue)
    ensures
        r@ == merge_model(base@, over@),
{
    merge_ref(&base, &over)
}


/// The value of the first entry with key `key`, if any.
pub open spec fn lookup_model(entries: Seq<(YamlModel, YamlModel)>, key: YamlModel) -> Option<YamlModel> {
    match first_index(entries, key) {
        Some(j) => Some(entries[j].1),
        None => None,
    }
}

/// No key occurs twice among the entries (as in every `serde_yaml` mapping).
pub open spec fn distinct_keys(entries: Seq<(YamlModel, YamlModel)>) -> bool {
    forall|i: int, j: int| 0 <= i < j < entries.len() ==> entries[i].0 != entries[j].0
}

/// What a merge gives for one key: the base's value when the overriding
/// mapping lacks the key, the overriding value when the base lacks it, and
/// the merge of both otherwise.
pub open spec fn merged_lookup(b: Option<YamlModel>, o: Option<YamlModel>) -> Option<YamlModel> {
    match (b, o) {
        (_, None) => b,
        (None, Some(ov)) => Some(ov),
        (Some(bv), Some(ov)) => Some(merge_model(bv, ov)),
    }
}

/// Merging one entry leaves the lookups of other keys unchanged, and gives
/// its own key the merged value.
proof fn lemma_merge_step_lookup(b: Seq<(YamlModel, YamlModel)>, kv: (YamlModel, YamlModel), k: YamlModel)
    ensures
        kv.0 != k ==> lookup_model(merge_step(b, kv), k) == lookup_model(b, k),
        kv.0 == k ==> lookup_model(merge_step(b, kv), k) == merged_lookup(lookup_model(b, k), Some(kv.1)),
{
    lemma_first_index(b, kv.0);
    lemma_first_index(b, k);
    let s = merge_step(b, kv);
    match first_index(b, kv.0) {
        Some(j) => {
            assert(s.len() == b.len());
            assert forall|i: int| 0 <= i < s.len() && i != j implies s[i] == b[i] by {}
            assert(s[j].0 == b[j].0);
            match first_index(b, k) {
                Some(m) => {
                    assert forall|i: int| 0 <= i < m implies s[i].0 != k by {
                        assert(s[i].0 == b[i].0);
                    }
                    lemma_first_index_at(s, k, m);
                },
                None => {
                    lemma_first_index(s, k);
                    if let Some(m) = first_index(s, k) {
                        assert(s[m].0 == b[m].0);
                    }
                },
            }
        },
        None => {
            assert(s =~= b.push(kv));
            match first_index(b, k) {
                Some(m) => {
                    assert forall|i: int| 0 <= i < m implies s[i].0 != k by {
                        assert(s[i] == b[i]);
                    }
                    assert(s[m] == b[m]);
                    lemma_first_index_at(s, k, m);
                },
                None => {
                    lemma_first_index(s, k);
                    if kv.0 == k {
                        assert forall|i: int| 0 <= i < b.len() implies s[i].0 != k by {
                            assert(s[i] == b[i]);
                        }
                        lemma_first_index_at(s, k, b.len() as int);
                    } else {
                        if let Some(m) = first_index(s, k) {
                            if m < b.len() {
                                assert(s[m] == b[m]);
                            }
                        }
                    }
                },
            }
        },
    }
}

/// Lookups in merged entries, key by key.
proof fn lemma_merge_entries_lookup(b: Seq<(YamlModel, YamlModel)>, o: Seq<(YamlModel, YamlModel)>, k: YamlModel)
    requires
        distinct_keys(o),
    ensures
        lookup_model(merge_entries(b, o), k) == merged_lookup(lookup_model(b, k), lookup_model(o, k)),
    decreases o.len(),
{
    if o.len() > 0 {
        let rest = o.subrange(1, o.len() as int);
        assert(distinct_keys(rest)) by {
            assert forall|i: int, j: int| 0 <= i < j < rest.len() implies rest[i].0 != rest[j].0 by {
                assert(rest[i] == o[i + 1] && rest[j] == o[j + 1]);
            }
        }
        lemma_merge_step_lookup(b, o[0], k);
        lemma_merge_entries_lookup(merge_step(b, o[0]), rest, k);
        lemma_first_index(o, k);
        lemma_first_index(rest, k);
        if o[0].0 == k {
            lemma_first_index_at(o, k, 0);
            if let Some(m) = first_index(rest, k) {
                assert(rest[m] == o[m + 1]);
            }
        } else {
            match first_index(rest, k) {
                Some(m) => {
                    assert(rest[m] == o[m + 1]);
                    assert forall|i: int| 0 <= i < m + 1 implies o[i].0 != k by {
                        if i > 0 {
                            assert(o[i] == rest[i - 1]);
                        }
                    }
                    lemma_first_index_at(o, k, m + 1);
                },
                None => {
                    if let Some(m) = first_index(o, k) {
                        assert(o[m] == rest[m - 1]);
                    }
                },
            }
        }
    }
}

/// Merging a configuration onto defaults keeps every default the file does
/// not set, takes every value the file adds, and merges values both have:
/// for any string key, the merged mapping's value is `merged_lookup` of the
/// two mappings' values.
pub proof fn lemma_merge_fills_defaults(
    base: Seq<(YamlModel, YamlModel)>,
    over: Seq<(YamlModel, YamlModel)>,
    key: Seq<char>,
)
    requires
        distinct_keys(over),
    ensures
        get_key(merge_model(YamlModel::Dict(base), YamlModel::Dict(over)), key)
            == merged_lookup(get_key(YamlModel::Dict(base), key), get_key(YamlModel::Dict(over), key)),
{
    lemma_merge_entries_lookup(base, over, YamlModel::Str(key));
}

/// A value that is not a mapping replaces whatever it is merged onto.
pub proof fn lemma_merge_scalar_wins(base: YamlModel, over: YamlModel)
    requires
        !(over is Dict),
    ensures
        merge_model(base, over) == over,
{
}


/// An edit of a mapping.
pub enum MappingEdit {
    /// Adds the entry unless the key is present.
    InsertIfAbsent(YamlValue, YamlValue),
    /// Sets the key's value, appending the entry when the key is absent.
    Insert(YamlValue, YamlValue),
    /// Removes the key's entry by moving the last entry into its place.
    SwapRemove(YamlValue),
}

/// The abstract value of an edit of a mapping.
pub enum EditModel {
    InsertIfAbsent(YamlModel, YamlModel),
    Insert(YamlModel, YamlModel),
    SwapRemove(YamlModel),
}

impl View for MappingEdit {
    type V = EditModel;

    open spec fn view(&self) -> EditModel {
        match self {
            MappingEdit::InsertIfAbsent(k, v) => EditModel::InsertIfAbsent(k@, v@),
            MappingEdit::Insert(k, v) => EditModel::Insert(k@, v@),
            MappingEdit::SwapRemove(k) => EditModel::SwapRemove(k@),
        }
    }
}

/// The effect of an edit on the entries of a mapping.
pub open spec fn apply_edit(e: Seq<(YamlModel, YamlModel)>, op: EditModel) -> Seq<(YamlModel, YamlModel)> {
    match op {
        EditModel::InsertIfAbsent(k, v) => match first_index(e, k) {
            Some(_) => e,
            None => e.push((k, v)),
        },
        EditModel::Insert(k, v) => match first_index(e, k) {
            Some(j) => e.update(j, (e[j].0, v)),
            None => e.push((k, v)),
        },
        EditModel::SwapRemove(k) => match first_index(e, k) {
            Some(j) => e.update(j, e.last()).drop_last(),
            None => e,
        },
    }
}

/// The value with the mapping reached by following `parts` (tags removed)
/// edited; none when the path does not exist or does not lead to a mapping.
pub open spec fn edit_at_path(m: YamlModel, parts: Seq<Seq<char>>, op: EditModel) -> Option<YamlModel>
    decreases parts.len(), m,
{
    match m {
        YamlModel::Tagged(t, inner) => match edit_at_path(*inner, parts, op) {
            Some(x) => Some(YamlModel::Tagged(t, Box::new(x))),
            None => None,
        },
        YamlModel::Dict(entries) => if parts.len() == 0 {
            Some(YamlModel::Dict(apply_edit(entries, op)))
        } else {
            match first_index(entries, YamlModel::Str(parts[0])) {
                Some(i) => match edit_at_path(entries[i].1, parts.skip(1), op) {
                    Some(x) => Some(YamlModel::Dict(entries.update(i, (entries[i].0, x)))),
                    None => None,
                },
                None => None,
            }
        },
        _ => None,
    }
}

/// Applies an edit to a copy of the entries.
pub fn apply_edit_exec(entries: &Vec<(YamlValue, YamlValue)>, op: &MappingEdit) -> (r: Vec<(YamlValue, YamlValue)>)
    ensures
        entry_models(r@) == apply_edit(entry_models(entries@), op@),
{
    let mut out = clone_entries(entries);
    let ghost e = entry_models(entries@);
    match op {
        MappingEdit::InsertIfAbsent(k, v) => {
            match find_entry(&out, k) {
                Some(_) => {},
                None => {
                    out.push((clone_yaml(k), clone_yaml(v)));
                    assert(entry_models(out@) =~= e.push((k@, v@)));
                },
            }
        },
        MappingEdit::Insert(k, v) => {
            match find_entry(&out, k) {
                Some(j) => {
                    let key = clone_yaml(&out[j].0);
                    out.set(j, (key, clone_yaml(v)));
                    assert(entry_models(out@) =~= e.update(j as int, (e[j as int].0, v@)));
                },
                None => {
                    out.push((clone_yaml(k), clone_yaml(v)));
                    assert(entry_models(out@) =~= e.push((k@, v@)));
                },
            }
        },
        MappingEdit::SwapRemove(k) => {
            match find_entry(&out, k) {
                Some(j) => {
                    let last = out.len() - 1;
                    let moved = (clone_yaml(&out[last].0), clone_yaml(&out[last].1));
                    out.set(j, moved);
                    out.pop();
                    assert(entry_models(out@) =~= e.update(j as int, e.last()).drop_last());
                },
                None => {},
            }
        },
    }
    out
}

impl YamlValue {
    /// A copy of the value with the mapping reached by following
    /// `parts[from..]` edited; none when the path does not exist or does not
    /// lead to a mapping.
    pub fn edit_by_parts(&self, parts: &Vec<String>, from: usize, op: &MappingEdit) -> (r: Option<YamlValue>)
        requires
            from <= parts@.len(),
        ensures
            r matches Some(x) ==> edit_at_path(self@, crate::utils::text::views(parts@).skip(from as int), op@) == Some(x@),
            r is None ==> edit_at_path(self@, crate::utils::text::views(parts@).skip(from as int), op@) is None,
        decreases parts@.len() - from, self,
    {
        let ghost ps = crate::utils::text::views(parts@).skip(from as int);
        match self {
            YamlValue::Tagged(t, inner) => {
                match (&**inner).edit_by_parts(parts, from, op) {
                    Some(x) => Some(YamlValue::Tagged(t.clone(), Box::new(x))),
                    None => None,
                }
            },
            YamlValue::Mapping(entries) => {
                proof {
                    lemma_map_model(*entries);
                }
                if from == parts.len() {
                    let out = apply_edit_exec(entries, op);
                    proof {
                        lemma_map_model(out);
                    }
                    return Some(YamlValue::Mapping(out));
                }
                assert(ps[0] == parts@[from as int]@);
                assert(ps.skip(1) =~= crate::utils::text::views(parts@).skip(from + 1));
                let k = YamlValue::String(parts[from].clone());
                match find_entry(entries, &k) {
                    Some(i) => {
                        match entries[i].1.edit_by_parts(parts, from + 1, op) {
                            Some(x) => {
                                let mut out = clone_entries(entries);
                                let key_copy = clone_yaml(&entries[i].0);
                                out.set(i, (key_copy, x));
                                proof {
                                    lemma_map_model(out);
                                }
                                assert(entry_models(out@) =~= entry_models(entries@).update(
                                    i as int, (entry_models(entries@)[i as int].0, x@)));
                                Some(YamlValue::Mapping(out))
                            },
                            None => None,
                        }
                    },
                    None => None,
                }
            },
            _ => None,
        }
    }
}


} // verus!
