//! Valve data files (VDF): tables of named entries, as `vdf_reader` reads
//! them. A table is kept as the list of its entries, in the order in which
//! they were read.
use vstd::prelude::*;
use crate::utils::numbers::{parse_i64, parse_i64_spec};
use crate::utils::text::{split_dots, split_on, str_eq, str_starts_with, starts_with_seq, trim_all, trim_seq, views};

verus! {

/// An entry of a VDF file.
pub enum VdfEntry {
    /// A table of named entries.
    Table(Vec<(String, VdfEntry)>),
    /// Several values under one name.
    Array(Vec<VdfEntry>),
    /// A value.
    Value(String),
    /// A statement (a value starting with `#`).
    Statement(String),
}

/// The abstract value of an entry.
pub enum VdfModel {
    Table(Seq<(Seq<char>, VdfModel)>),
    Array(Seq<VdfModel>),
    Value(Seq<char>),
    Statement(Seq<char>),
}

/// The abstract value of an entry.
pub open spec fn vdf_model(e: &VdfEntry) -> VdfModel
    decreases e,
{
    match e {
        VdfEntry::Table(entries) => VdfModel::Table(
            Seq::new(entries.len() as nat, |i: int|
                if 0 <= i < entries.len() { (entries[i].0@, vdf_model(&entries[i].1)) } else { (Seq::empty(), VdfModel::Value(Seq::empty())) }),
        ),
        VdfEntry::Array(items) => VdfModel::Array(
            Seq::new(items.len() as nat, |i: int| if 0 <= i < items.len() { vdf_model(&items[i]) } else { VdfModel::Value(Seq::empty()) }),
        ),
        VdfEntry::Value(s) => VdfModel::Value(s@),
        VdfEntry::Statement(s) => VdfModel::Statement(s@),
    }
}

impl View for VdfEntry {
    type V = VdfModel;

    open spec fn view(&self) -> VdfModel {
        vdf_model(self)
    }
}

/// The models of the entries of a table.
pub open spec fn table_models(entries: Seq<(String, VdfEntry)>) -> Seq<(Seq<char>, VdfModel)> {
    entries.map_values(|e: (String, VdfEntry)| (e.0@, e.1@))
}

/// The model of a table is the models of its entries.
pub proof fn lemma_table_model(entries: Vec<(String, VdfEntry)>)
    ensures
        VdfEntry::Table(entries)@ == VdfModel::Table(table_models(entries@)),
{
    if let VdfModel::Table(m) = VdfEntry::Table(entries)@ {
        assert(m =~= table_models(entries@));
    }
}

/// The model of an array is the models of its items.
pub proof fn lemma_array_model(items: Vec<VdfEntry>)
    ensures
        VdfEntry::Array(items)@ == VdfModel::Array(items@.map_values(|x: VdfEntry| x@)),
{
    if let VdfModel::Array(m) = VdfEntry::Array(items)@ {
        assert(m =~= items@.map_values(|x: VdfEntry| x@));
    }
}

/// The entry named `name` in a table (the first one with that name).
pub open spec fn table_get(entries: Seq<(Seq<char>, VdfModel)>, name: Seq<char>) -> Option<VdfModel>
    decreases entries.len(),
{
    if entries.len() == 0 {
        None
    } else if entries[0].0 == name {
        Some(entries[0].1)
    } else {
        table_get(entries.skip(1), name)
    }
}

/// The index that `name` denotes in an array: its text as an unsigned
/// integer (an optional `+`, then digits).
pub open spec fn array_index(name: Seq<char>) -> Option<int> {
    if starts_with_seq(name, "-"@) {
        None
    } else {
        parse_i64_spec(name)
    }
}

/// `Entry::get`: the entry named `name` in a table, or the item at the
/// index `name` in an array.
pub open spec fn entry_get(e: VdfModel, name: Seq<char>) -> Option<VdfModel> {
    match e {
        VdfModel::Table(entries) => table_get(entries, name),
        VdfModel::Array(items) => match array_index(name) {
            Some(i) => if 0 <= i < items.len() { Some(items[i]) } else { None },
            None => None,
        },
        _ => None,
    }
}

/// `Entry::as_str`: the text of a value or statement.
pub open spec fn entry_str(e: VdfModel) -> Option<Seq<char>> {
    match e {
        VdfModel::Value(s) => Some(s),
        VdfModel::Statement(s) => Some(s),
        _ => None,
    }
}

/// What an entry holds without regard to the order of the entries of its
/// tables: a table is a map from names to entries.
pub enum VdfTree {
    Table(Map<Seq<char>, VdfTree>),
    Array(Seq<VdfTree>),
    Value(Seq<char>),
    Statement(Seq<char>),
}

/// An index of an entry of a table with the name `name`.
pub open spec fn key_index(entries: Seq<(Seq<char>, VdfModel)>, name: Seq<char>) -> int {
    choose|i: int| 0 <= i < entries.len() && entries[i].0 == name
}

/// What an entry holds, without regard to the order of its tables.
pub open spec fn vdf_tree(e: VdfModel) -> VdfTree
    decreases e,
{
    match e {
        VdfModel::Table(entries) => VdfTree::Table(
            Map::new(
                |k: Seq<char>| exists|i: int| 0 <= i < entries.len() && entries[i].0 == k,
                |k: Seq<char>| {
                    let i = key_index(entries, k);
                    if 0 <= i < entries.len() { vdf_tree(entries[i].1) } else { VdfTree::Value(Seq::empty()) }
                },
            ),
        ),
        VdfModel::Array(items) => VdfTree::Array(
            Seq::new(items.len(), |i: int| if 0 <= i < items.len() { vdf_tree(items[i]) } else { VdfTree::Value(Seq::empty()) }),
        ),
        VdfModel::Value(s) => VdfTree::Value(s),
        VdfModel::Statement(s) => VdfTree::Statement(s),
    }
}

/// No table, at any depth, holds two entries with the same name.
pub open spec fn vdf_distinct(e: VdfModel) -> bool
    decreases e,
{
    match e {
        VdfModel::Table(entries) => {
            &&& forall|i: int, j: int| 0 <= i < j < entries.len() ==> entries[i].0 != entries[j].0
            &&& forall|i: int| 0 <= i < entries.len() ==> vdf_distinct(#[trigger] entries[i].1)
        },
        VdfModel::Array(items) => forall|i: int| 0 <= i < items.len() ==> vdf_distinct(#[trigger] items[i]),
        _ => true,
    }
}

/// In a table whose names are distinct, the entry named `name` is the one
/// entry with that name.
pub proof fn lemma_table_get_distinct(entries: Seq<(Seq<char>, VdfModel)>, name: Seq<char>)
    requires
        forall|i: int, j: int| 0 <= i < j < entries.len() ==> entries[i].0 != entries[j].0,
    ensures
        table_get(entries, name) is Some <==> exists|i: int| 0 <= i < entries.len() && entries[i].0 == name,
        forall|i: int| 0 <= i < entries.len() && entries[i].0 == name ==> table_get(entries, name) == Some(entries[i].1),
    decreases entries.len(),
{
    if entries.len() > 0 {
        let rest = entries.skip(1);
        assert forall|i: int, j: int| 0 <= i < j < rest.len() implies rest[i].0 != rest[j].0 by {
            assert(rest[i] == entries[i + 1] && rest[j] == entries[j + 1]);
        }
        lemma_table_get_distinct(rest, name);
        if entries[0].0 != name {
            assert forall|i: int| 1 <= i < entries.len() implies entries[i] == rest[i - 1] by {}
            if exists|i: int| 0 <= i < entries.len() && entries[i].0 == name {
                let i = choose|i: int| 0 <= i < entries.len() && entries[i].0 == name;
                assert(rest[i - 1].0 == name);
            }
        }
    }
}

/// The tree of a table maps each name to the tree of the entry with that
/// name, when the names are distinct.
pub proof fn lemma_table_tree_at(entries: Seq<(Seq<char>, VdfModel)>, i: int)
    requires
        forall|a: int, b: int| 0 <= a < b < entries.len() ==> entries[a].0 != entries[b].0,
        0 <= i < entries.len(),
    ensures
        vdf_tree(VdfModel::Table(entries)) matches VdfTree::Table(m) && m.contains_key(entries[i].0)
            && m[entries[i].0] == vdf_tree(entries[i].1),
{
    let k = key_index(entries, entries[i].0);
    assert(0 <= k < entries.len() && entries[k].0 == entries[i].0);
    assert(k == i);
}

/// Two distinct-named entries with the same tree give entries with the same
/// tree for every name, and the same text.
pub proof fn lemma_same_tree_get(a: VdfModel, b: VdfModel, name: Seq<char>)
    requires
        vdf_distinct(a),
        vdf_distinct(b),
        vdf_tree(a) == vdf_tree(b),
    ensures
        entry_get(a, name) is Some <==> entry_get(b, name) is Some,
        entry_get(a, name) matches Some(x) ==> entry_get(b, name) matches Some(y) && vdf_tree(x) == vdf_tree(y)
            && vdf_distinct(x) && vdf_distinct(y),
        entry_str(a) == entry_str(b),
{
    match a {
        VdfModel::Table(s1) => {
            let s2 = b->Table_0;
            let m1 = vdf_tree(a)->Table_0;
            let m2 = vdf_tree(b)->Table_0;
            assert(m1 == m2);
            lemma_table_get_distinct(s1, name);
            lemma_table_get_distinct(s2, name);
            if exists|i: int| 0 <= i < s1.len() && s1[i].0 == name {
                let i = choose|i: int| 0 <= i < s1.len() && s1[i].0 == name;
                lemma_table_tree_at(s1, i);
                assert(m2.contains_key(name));
                let j = choose|j: int| 0 <= j < s2.len() && s2[j].0 == name;
                lemma_table_tree_at(s2, j);
                assert(vdf_distinct(s1[i].1));
                assert(vdf_distinct(s2[j].1));
            } else if exists|j: int| 0 <= j < s2.len() && s2[j].0 == name {
                let j = choose|j: int| 0 <= j < s2.len() && s2[j].0 == name;
                lemma_table_tree_at(s2, j);
                assert(m1.contains_key(name));
            }
        },
        VdfModel::Array(s1) => {
            let s2 = b->Array_0;
            let t1 = vdf_tree(a)->Array_0;
            let t2 = vdf_tree(b)->Array_0;
            assert(t1 == t2);
            assert(s1.len() == t1.len() && s2.len() == t2.len());
            if let Some(i) = array_index(name) {
                if 0 <= i < s1.len() {
                    assert(t1[i] == vdf_tree(s1[i]));
                    assert(t2[i] == vdf_tree(s2[i]));
                    assert(vdf_distinct(s1[i]));
                    assert(vdf_distinct(s2[i]));
                }
            }
        },
        _ => {},
    }
}

/// Follows the names of `path` in turn.
pub open spec fn entry_path(e: VdfModel, path: Seq<Seq<char>>) -> Option<VdfModel>
    decreases path.len(),
{
    if path.len() == 0 {
        Some(e)
    } else {
        match entry_get(e, path[0]) {
            Some(x) => entry_path(x, path.skip(1)),
            None => None,
        }
    }
}

/// The names that `Entry::lookup` follows for `path`: the pieces between
/// dots, each without surrounding white space.
pub open spec fn lookup_path(path: Seq<char>) -> Seq<Seq<char>> {
    split_on(path, '.').map_values(|p: Seq<char>| trim_seq(p))
}

/// The entry named `name` in a table.
pub fn table_lookup<'a>(entries: &'a Vec<(String, VdfEntry)>, name: &str) -> (r: Option<&'a VdfEntry>)
    ensures
        match r {
            Some(x) => table_get(table_models(entries@), name@) == Some(x@),
            None => table_get(table_models(entries@), name@) is None,
        },
{
    let ghost tm = table_models(entries@);
    assert(tm.skip(0) =~= tm);
    let mut i: usize = 0;
    while i < entries.len()
        invariant
            tm == table_models(entries@),
            i <= entries.len(),
            table_get(tm.skip(i as int), name@) == table_get(tm, name@),
        decreases entries.len() - i,
    {
        assert(tm.skip(i as int)[0] == tm[i as int]);
        assert(tm.skip(i as int).skip(1) =~= tm.skip(i + 1));
        if str_eq(entries[i].0.as_str(), name) {
            return Some(&entries[i].1);
        }
        i = i + 1;
    }
    assert(tm.skip(entries.len() as int) =~= Seq::<(Seq<char>, VdfModel)>::empty());
    None
}

impl VdfEntry {
    /// `Entry::get`: the entry named `name` in a table, or the item at the
    /// index `name` in an array.
    pub fn get(&self, name: &str) -> (r: Option<&VdfEntry>)
        ensures
            match r {
                Some(x) => entry_get(self@, name@) == Some(x@),
                None => entry_get(self@, name@) is None,
            },
    {
        match self {
            VdfEntry::Table(entries) => {
                proof {
                    lemma_table_model(*entries);
                }
                table_lookup(entries, name)
            },
            VdfEntry::Array(items) => {
                proof {
                    lemma_array_model(*items);
                    reveal_strlit("-");
                }
                if str_starts_with(name, "-") {
                    return None;
                }
                match parse_i64(name) {
                    Some(i) => {
                        if 0 <= i && (i as u64) < (items.len() as u64) {
                            Some(&items[i as usize])
                        } else {
                            None
                        }
                    },
                    None => None,
                }
            },
            _ => None,
        }
    }

    /// `Entry::as_str`: the text of a value or statement.
    pub fn as_str(&self) -> (r: Option<&str>)
        ensures
            match r {
                Some(s) => entry_str(self@) == Some(s@),
                None => entry_str(self@) is None,
            },
    {
        match self {
            VdfEntry::Value(s) => Some(s.as_str()),
            VdfEntry::Statement(s) => Some(s.as_str()),
            _ => None,
        }
    }

    /// `Entry::as_table`: the entries of a table.
    pub fn as_table(&self) -> (r: Option<&Vec<(String, VdfEntry)>>)
        ensures
            match r {
                Some(t) => self@ == VdfModel::Table(table_models(t@)),
                None => !(self@ is Table),
            },
    {
        match self {
            VdfEntry::Table(entries) => {
                proof {
                    lemma_table_model(*entries);
                }
                Some(entries)
            },
            _ => None,
        }
    }

    /// `Entry::lookup`: follows the dot-separated names of `path` in turn.
    pub fn lookup(&self, path: &str) -> (r: Option<&VdfEntry>)
        ensures
            match r {
                Some(x) => entry_path(self@, lookup_path(path@)) == Some(x@),
                None => entry_path(self@, lookup_path(path@)) is None,
            },
    {
        let parts = trim_all(&split_dots(path));
        assert(views(parts@).skip(0) =~= lookup_path(path@));
        self.lookup_parts(&parts, 0)
    }

    /// Follows the names `path[from..]` in turn.
    pub fn lookup_parts(&self, path: &Vec<String>, from: usize) -> (r: Option<&VdfEntry>)
        requires
            from <= path@.len(),
        ensures
            match r {
                Some(x) => entry_path(self@, crate::utils::text::views(path@).skip(from as int)) == Some(x@),
                None => entry_path(self@, crate::utils::text::views(path@).skip(from as int)) is None,
            },
        decreases path@.len() - from,
    {
        let ghost ps = crate::utils::text::views(path@).skip(from as int);
        if from == path.len() {
            return Some(self);
        }
        assert(ps[0] == path@[from as int]@);
        assert(ps.skip(1) =~= crate::utils::text::views(path@).skip(from + 1));
        match self.get(path[from].as_str()) {
            Some(x) => x.lookup_parts(path, from + 1),
            None => None,
        }
    }
}

} // verus!
