//! Reading the text of a Valve data file with `vdf_reader`.
use vstd::prelude::*;
use vdf_reader::entry::{Entry, Table};
use crate::steam::vdf::{VdfEntry, VdfModel, VdfTree, key_index, lemma_array_model, lemma_table_model, table_models, vdf_distinct, vdf_tree};

verus! {

#[verifier::external_type_specification]
#[verifier::external_body]
pub struct ExVdfReaderEntry(vdf_reader::entry::Entry);

#[verifier::external_type_specification]
#[verifier::external_body]
pub struct ExVdfReaderTable(vdf_reader::entry::Table);

/// What `vdf_reader` reads from `text`: the names of its top-level table
/// and what each holds (a repeated name becomes an array, in the order of
/// the text); none when it cannot read the text.
pub uninterp spec fn vdf_text_model(text: Seq<char>) -> Option<Map<Seq<char>, VdfTree>>;

/// What a `vdf_reader` entry holds.
pub uninterp spec fn reader_entry_tree(e: Entry) -> VdfTree;

/// What a `vdf_reader` table holds: its names and their entries.
pub uninterp spec fn reader_table_tree(t: Table) -> Map<Seq<char>, VdfTree>;

/// How deeply a `vdf_reader` entry nests: more than any table or item it
/// holds.
pub uninterp spec fn reader_entry_depth(e: Entry) -> nat;

/// How deeply a `vdf_reader` table nests: more than any entry it holds.
pub uninterp spec fn reader_table_depth(t: Table) -> nat;

/// `vdf_reader::entry::Table::load_from_str`: reads VDF text as a table, or
/// fails. What it reads is given the name `vdf_text_model`, which the
/// table returned holds.
#[verifier::external_body]
fn load_vdf_table(text: &str) -> (r: Option<Table>)
    ensures
        r is Some <==> vdf_text_model(text@) is Some,
        r matches Some(t) ==> vdf_text_model(text@) == Some(reader_table_tree(t)),
{
    Table::load_from_str(text).ok()
}

/// The entries of a `vdf_reader` table (`Table` dereferences to a
/// `HashMap`): each name of the table exactly once, with its entry. The
/// order in which the map hands them out is not stated. Each entry nests
/// less deeply than the table.
#[verifier::external_body]
fn reader_table_entries<'a>(t: &'a Table) -> (r: Vec<(String, &'a Entry)>)
    ensures
        forall|i: int| 0 <= i < r@.len() ==> reader_table_tree(*t).contains_key(#[trigger] r@[i].0@)
            && reader_table_tree(*t)[r@[i].0@] == reader_entry_tree(*r@[i].1),
        forall|k: Seq<char>| reader_table_tree(*t).contains_key(k) ==> exists|i: int| 0 <= i < r@.len() && #[trigger] r@[i].0@ == k,
        forall|i: int, j: int| 0 <= i < j < r@.len() ==> r@[i].0@ != r@[j].0@,
        forall|i: int| 0 <= i < r@.len() ==> reader_entry_depth(*#[trigger] r@[i].1) < reader_table_depth(*t),
{
    t.iter().map(|(k, v)| (k.clone(), v)).collect()
}

/// The variant of a `vdf_reader` entry and what it holds.
pub enum ReaderEntryShape<'a> {
    Table(&'a Table),
    Array(Vec<&'a Entry>),
    Value(String),
    Statement(String),
}

/// The variant of a `vdf_reader::entry::Entry` and its contents: a table,
/// an array's items in order (`Array` dereferences to a `Vec`), the text of
/// a value or a statement (both dereference to `str`). Tables and items
/// nest less deeply than the entry.
#[verifier::external_body]
fn reader_entry_shape<'a>(e: &'a Entry) -> (r: ReaderEntryShape<'a>)
    ensures
        match r {
            ReaderEntryShape::Table(t) => reader_entry_tree(*e) == VdfTree::Table(reader_table_tree(*t))
                && reader_table_depth(*t) < reader_entry_depth(*e),
            ReaderEntryShape::Array(items) => reader_entry_tree(*e) == VdfTree::Array(
                items@.map_values(|x: &Entry| reader_entry_tree(*x)),
            ) && forall|i: int| 0 <= i < items@.len() ==> reader_entry_depth(*#[trigger] items@[i]) < reader_entry_depth(*e),
            ReaderEntryShape::Value(s) => reader_entry_tree(*e) == VdfTree::Value(s@),
            ReaderEntryShape::Statement(s) => reader_entry_tree(*e) == VdfTree::Statement(s@),
        },
{
    match e {
        Entry::Table(t) => ReaderEntryShape::Table(t),
        Entry::Array(a) => ReaderEntryShape::Array(a.iter().collect()),
        Entry::Value(v) => ReaderEntryShape::Value((**v).to_string()),
        Entry::Statement(s) => ReaderEntryShape::Statement((**s).to_string()),
    }
}

/// The library's copy of a `vdf_reader` table: its entries, each name once,
/// in the order in which the table hands them out.
fn table_from_reader(t: &Table) -> (r: Vec<(String, VdfEntry)>)
    ensures
        vdf_tree(VdfModel::Table(table_models(r@))) == VdfTree::Table(reader_table_tree(*t)),
        vdf_distinct(VdfModel::Table(table_models(r@))),
    decreases reader_table_depth(*t), 0nat,
{
    let entries = reader_table_entries(t);
    let ghost tm = reader_table_tree(*t);
    let mut out: Vec<(String, VdfEntry)> = Vec::new();
    let mut i: usize = 0;
    while i < entries.len()
        invariant
            i <= entries@.len(),
            out@.len() == i,
            tm == reader_table_tree(*t),
            forall|j: int| 0 <= j < entries@.len() ==> tm.contains_key(#[trigger] entries@[j].0@)
                && tm[entries@[j].0@] == reader_entry_tree(*entries@[j].1),
            forall|j: int| 0 <= j < entries@.len() ==> reader_entry_depth(*#[trigger] entries@[j].1) < reader_table_depth(*t),
            forall|j: int| 0 <= j < i ==> (#[trigger] out@[j]).0@ == entries@[j].0@
                && vdf_tree(out@[j].1@) == reader_entry_tree(*entries@[j].1) && vdf_distinct(out@[j].1@),
        decreases entries.len() - i,
    {
        let child = entry_from_reader(entries[i].1);
        out.push((entries[i].0.clone(), child));
        i = i + 1;
    }
    let ghost s = table_models(out@);
    assert forall|a: int, b: int| 0 <= a < b < s.len() implies s[a].0 != s[b].0 by {
        assert(s[a].0 == out@[a].0@ && s[b].0 == out@[b].0@);
    }
    assert forall|j: int| 0 <= j < s.len() implies vdf_distinct(#[trigger] s[j].1) by {
        assert(s[j].1 == out@[j].1@);
    }
    let ghost m = vdf_tree(VdfModel::Table(s))->Table_0;
    assert forall|k: Seq<char>| m.contains_key(k) <==> tm.contains_key(k) by {
        if m.contains_key(k) {
            let j = choose|j: int| 0 <= j < s.len() && s[j].0 == k;
            assert(out@[j].0@ == entries@[j].0@);
        }
        if tm.contains_key(k) {
            let j = choose|j: int| 0 <= j < entries@.len() && entries@[j].0@ == k;
            assert(out@[j].0@ == entries@[j].0@);
            assert(s[j].0 == k);
        }
    }
    assert forall|k: Seq<char>| m.contains_key(k) implies m[k] == tm[k] by {
        let j = key_index(s, k);
        assert(0 <= j < s.len() && s[j].0 == k);
        assert(out@[j].0@ == entries@[j].0@);
        assert(s[j].1 == out@[j].1@);
    }
    assert(m =~= tm);
    out
}

/// The library's copy of a `vdf_reader` entry.
fn entry_from_reader(e: &Entry) -> (r: VdfEntry)
    ensures
        vdf_tree(r@) == reader_entry_tree(*e),
        vdf_distinct(r@),
    decreases reader_entry_depth(*e), 1nat,
{
    match reader_entry_shape(e) {
        ReaderEntryShape::Table(t) => {
            let entries = table_from_reader(t);
            proof {
                lemma_table_model(entries);
            }
            VdfEntry::Table(entries)
        },
        ReaderEntryShape::Array(items) => {
            let ghost trees = items@.map_values(|x: &Entry| reader_entry_tree(*x));
            let mut out: Vec<VdfEntry> = Vec::new();
            let mut i: usize = 0;
            while i < items.len()
                invariant
                    i <= items@.len(),
                    out@.len() == i,
                    trees == items@.map_values(|x: &Entry| reader_entry_tree(*x)),
                    forall|j: int| 0 <= j < items@.len() ==> reader_entry_depth(*#[trigger] items@[j]) < reader_entry_depth(*e),
                    forall|j: int| 0 <= j < i ==> vdf_tree((#[trigger] out@[j])@) == trees[j] && vdf_distinct(out@[j]@),
                decreases items.len() - i,
            {
                let child = entry_from_reader(items[i]);
                out.push(child);
                i = i + 1;
            }
            proof {
                lemma_array_model(out);
            }
            let r = VdfEntry::Array(out);
            let ghost ms = out@.map_values(|x: VdfEntry| x@);
            assert(r@ == VdfModel::Array(ms));
            assert(vdf_tree(r@)->Array_0 =~= trees) by {
                assert forall|j: int| 0 <= j < trees.len() implies vdf_tree(r@)->Array_0[j] == trees[j] by {
                    assert(ms[j] == out@[j]@);
                }
            }
            assert forall|j: int| 0 <= j < ms.len() implies vdf_distinct(#[trigger] ms[j]) by {
                assert(ms[j] == out@[j]@);
            }
            r
        },
        ReaderEntryShape::Value(s) => VdfEntry::Value(s),
        ReaderEntryShape::Statement(s) => VdfEntry::Statement(s),
    }
}

/// Reads the text of a Valve data file (such as `toolmanifest.vdf` or
/// `libraryfolders.vdf`) as a table of entries: what `vdf_reader` reads,
/// each name of a table once, the entries of each table in the order in
/// which `vdf_reader`'s hash map hands them out; none when `vdf_reader`
/// cannot read the text.
pub fn parse_vdf_text(text: &str) -> (r: Option<VdfEntry>)
    ensures
        r is Some <==> vdf_text_model(text@) is Some,
        r matches Some(e) ==> vdf_text_model(text@) matches Some(t) && vdf_tree(e@) == VdfTree::Table(t)
            && vdf_distinct(e@) && e@ is Table,
{
    match load_vdf_table(text) {
        Some(root) => {
            let entries = table_from_reader(&root);
            proof {
                lemma_table_model(entries);
            }
            Some(VdfEntry::Table(entries))
        },
        None => None,
    }
}

} // verus!
