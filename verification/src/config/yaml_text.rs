//! Reading YAML text with `serde_yaml` into the library's YAML tree.
use vstd::prelude::*;
use serde_yaml::{Number, Value};
use crate::config::yaml::{YamlModel, YamlNumber, YamlValue, entry_models, item_models};

verus! {

#[verifier::external_type_specification]
#[verifier::external_body]
pub struct ExSerdeYamlValue(serde_yaml::Value);

#[verifier::external_type_specification]
#[verifier::external_body]
pub struct ExSerdeYamlNumber(serde_yaml::Number);

/// The value `serde_yaml` reads from `text`; none when it cannot read it.
/// Its mappings keep their entries in the order of the text.
pub uninterp spec fn yaml_text_value(text: Seq<char>) -> Option<YamlModel>;

/// What a `serde_yaml` value holds, its mappings in their order.
pub uninterp spec fn serde_value_model(v: Value) -> YamlModel;

/// What `Number::as_u64` gives for a number.
pub uninterp spec fn number_as_u64(n: Number) -> Option<u64>;

/// What `Number::as_i64` gives for a number.
pub uninterp spec fn number_as_i64(n: Number) -> Option<i64>;

/// The text `serde_yaml` writes for a number.
pub uninterp spec fn number_text(n: Number) -> Seq<char>;

/// A number as the library holds it: a non-negative integer, a negative
/// integer, or a floating-point number by its text.
pub open spec fn number_model(n: Number) -> YamlModel {
    match number_as_u64(n) {
        Some(u) => YamlModel::PosInt(u),
        None => match number_as_i64(n) {
            Some(i) => YamlModel::NegInt(i),
            None => YamlModel::Float(number_text(n)),
        },
    }
}

/// `serde_yaml::from_str::<Value>`: reads YAML text, or fails. What it reads
/// is given the name `yaml_text_value`; the value returned holds it.
#[verifier::external_body]
fn load_yaml_value(text: &str) -> (r: Option<Value>)
    ensures
        r is None <==> yaml_text_value(text@) is None,
        r matches Some(v) ==> yaml_text_value(text@) == Some(serde_value_model(v)),
{
    serde_yaml::from_str::<Value>(text).ok()
}

/// `serde_yaml::Number::as_u64`.
#[verifier::external_body]
fn serde_number_as_u64(n: &Number) -> (r: Option<u64>)
    ensures
        r == number_as_u64(*n),
{
    n.as_u64()
}

/// `serde_yaml::Number::as_i64`.
#[verifier::external_body]
fn serde_number_as_i64(n: &Number) -> (r: Option<i64>)
    ensures
        r == number_as_i64(*n),
{
    n.as_i64()
}

/// The text of a number (`Number` implements `Display`).
#[verifier::external_body]
fn serde_number_text(n: &Number) -> (r: String)
    ensures
        r@ == number_text(*n),
{
    n.to_string()
}

/// The variant of a `serde_yaml` value and what it holds.
pub enum SerdeValueShape<'a> {
    Null,
    Bool(bool),
    Number(&'a Number),
    String(String),
    Sequence(Vec<&'a Value>),
    Mapping(Vec<(&'a Value, &'a Value)>),
    Tagged(String, &'a Value),
}

/// The variant of a `serde_yaml::Value` and its contents: a sequence's items
/// in order, a mapping's entries in order (`Mapping` keeps insertion order),
/// a tagged value's tag (written as `Tag` displays it) and value.
#[verifier::external_body]
fn serde_value_shape<'a>(v: &'a Value) -> (r: SerdeValueShape<'a>)
    ensures
        match r {
            SerdeValueShape::Null => serde_value_model(*v) == YamlModel::Null,
            SerdeValueShape::Bool(b) => serde_value_model(*v) == YamlModel::Bool(b),
            SerdeValueShape::Number(n) => serde_value_model(*v) == number_model(*n),
            SerdeValueShape::String(s) => serde_value_model(*v) == YamlModel::Str(s@),
            SerdeValueShape::Sequence(items) => serde_value_model(*v) == YamlModel::List(
                items@.map_values(|x: &Value| serde_value_model(*x)),
            ),
            SerdeValueShape::Mapping(entries) => serde_value_model(*v) == YamlModel::Dict(
                entries@.map_values(|p: (&Value, &Value)| (serde_value_model(*p.0), serde_value_model(*p.1))),
            ),
            SerdeValueShape::Tagged(tag, inner) => serde_value_model(*v) == YamlModel::Tagged(
                tag@, Box::new(serde_value_model(*inner)),
            ),
        },
{
    match v {
        Value::Null => SerdeValueShape::Null,
        Value::Bool(b) => SerdeValueShape::Bool(*b),
        Value::Number(n) => SerdeValueShape::Number(n),
        Value::String(s) => SerdeValueShape::String(s.clone()),
        Value::Sequence(items) => SerdeValueShape::Sequence(items.iter().collect()),
        Value::Mapping(m) => SerdeValueShape::Mapping(m.iter().collect()),
        Value::Tagged(t) => SerdeValueShape::Tagged(t.tag.to_string(), &t.value),
    }
}

/// A number as the library holds it.
fn number_from_serde(n: &Number) -> (r: YamlNumber)
    ensures
        YamlValue::Number(r)@ == number_model(*n),
{
    match serde_number_as_u64(n) {
        Some(u) => YamlNumber::PosInt(u),
        None => match serde_number_as_i64(n) {
            Some(i) => YamlNumber::NegInt(i),
            None => YamlNumber::Float(serde_number_text(n)),
        },
    }
}

/// The library's copy of a `serde_yaml` value.
fn value_from_serde(v: &Value) -> (r: YamlValue)
    ensures
        r@ == serde_value_model(*v),
    decreases serde_value_model(*v),
{
    match serde_value_shape(v) {
        SerdeValueShape::Null => YamlValue::Null,
        SerdeValueShape::Bool(b) => YamlValue::Bool(b),
        SerdeValueShape::Number(n) => YamlValue::Number(number_from_serde(n)),
        SerdeValueShape::String(s) => YamlValue::String(s),
        SerdeValueShape::Sequence(items) => {
            let ghost m = items@.map_values(|x: &Value| serde_value_model(*x));
            let mut out: Vec<YamlValue> = Vec::new();
            let mut i: usize = 0;
            while i < items.len()
                invariant
                    i <= items@.len(),
                    m == items@.map_values(|x: &Value| serde_value_model(*x)),
                    serde_value_model(*v) == YamlModel::List(m),
                    item_models(out@) == m.take(i as int),
                decreases items.len() - i,
            {
                assert(decreases_to!(serde_value_model(*v) => m[i as int])) by {
                    let em = serde_value_model(*v);
                    assert(em->List_0 == m);
                    assert(decreases_to!(em => em->List_0));
                    assert(decreases_to!(m => m[i as int]));
                }
                let child = value_from_serde(items[i]);
                let ghost before = item_models(out@);
                out.push(child);
                assert(item_models(out@) =~= before.push(m[i as int]));
                assert(m.take(i + 1) =~= m.take(i as int).push(m[i as int]));
                i = i + 1;
            }
            assert(m.take(i as int) =~= m);
            proof {
                crate::config::yaml::lemma_list_model(out);
            }
            YamlValue::Sequence(out)
        },
        SerdeValueShape::Mapping(entries) => {
            let ghost m = entries@.map_values(|p: (&Value, &Value)| (serde_value_model(*p.0), serde_value_model(*p.1)));
            let mut out: Vec<(YamlValue, YamlValue)> = Vec::new();
            let mut i: usize = 0;
            while i < entries.len()
                invariant
                    i <= entries@.len(),
                    m == entries@.map_values(|p: (&Value, &Value)| (serde_value_model(*p.0), serde_value_model(*p.1))),
                    serde_value_model(*v) == YamlModel::Dict(m),
                    entry_models(out@) == m.take(i as int),
                decreases entries.len() - i,
            {
                assert(decreases_to!(serde_value_model(*v) => m[i as int].0)) by {
                    let em = serde_value_model(*v);
                    assert(em->Dict_0 == m);
                    assert(decreases_to!(em => em->Dict_0));
                    assert(decreases_to!(m => m[i as int]));
                    assert(decreases_to!(m[i as int] => m[i as int].0));
                }
                assert(decreases_to!(serde_value_model(*v) => m[i as int].1)) by {
                    let em = serde_value_model(*v);
                    assert(em->Dict_0 == m);
                    assert(decreases_to!(em => em->Dict_0));
                    assert(decreases_to!(m => m[i as int]));
                    assert(decreases_to!(m[i as int] => m[i as int].1));
                }
                let key = value_from_serde(entries[i].0);
                let val = value_from_serde(entries[i].1);
                let ghost before = entry_models(out@);
                out.push((key, val));
                assert(entry_models(out@) =~= before.push(m[i as int]));
                assert(m.take(i + 1) =~= m.take(i as int).push(m[i as int]));
                i = i + 1;
            }
            assert(m.take(i as int) =~= m);
            proof {
                crate::config::yaml::lemma_map_model_pub(out);
            }
            YamlValue::Mapping(out)
        },
        SerdeValueShape::Tagged(tag, inner) => {
            assert(decreases_to!(serde_value_model(*v) => serde_value_model(*inner))) by {
                let em = serde_value_model(*v);
                assert(decreases_to!(em => em->Tagged_1));
            }
            let x = value_from_serde(inner);
            YamlValue::Tagged(tag, Box::new(x))
        },
    }
}

/// Reads YAML text (such as the configuration file) into the library's YAML
/// tree: exactly what `serde_yaml` reads, mappings in the order of the
/// text; none when `serde_yaml` cannot read it.
pub fn parse_yaml_text(text: &str) -> (r: Option<YamlValue>)
    ensures
        match r {
            Some(v) => yaml_text_value(text@) == Some(v@),
            None => yaml_text_value(text@) is None,
        },
{
    match load_yaml_value(text) {
        Some(v) => Some(value_from_serde(&v)),
        None => None,
    }
}

} // verus!
