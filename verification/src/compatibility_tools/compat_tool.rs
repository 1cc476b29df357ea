//! A compatibility tool (such as a Proton build) that can run a game.
use vstd::prelude::*;
use crate::config::config::{Options};
use crate::runner::game_process_wrapper::{RunVerb, substitute_verb, verb_command_seq, verb_name};
use crate::runner::runtime::{Runtime, RuntimeView};
use crate::utils::text::{clone_strings, contains_seq, lemma_replace_absent, occurs_at, path_join, path_join_seq, replace_seq, str_eq, to_string, views};

verus! {

/// The kind of a compatibility tool.
#[derive(Debug, Clone, Copy, PartialEq, Eq, Structural)]
pub enum CompatToolType {
    SimpleSteamWrapper,
    Proton,
    ScoutInContainer,
}

/// The kebab-case name of a kind of compatibility tool.
pub open spec fn compat_type_name(t: CompatToolType) -> Seq<char> {
    match t {
        CompatToolType::SimpleSteamWrapper => "simple-steam-wrapper"@,
        CompatToolType::Proton => "proton"@,
        CompatToolType::ScoutInContainer => "scout-in-container"@,
    }
}

/// The kind of compatibility tool named by `s`, if any.
pub open spec fn compat_type_of_name(s: Seq<char>) -> Option<CompatToolType> {
    if s == "simple-steam-wrapper"@ {
        Some(CompatToolType::SimpleSteamWrapper)
    } else if s == "proton"@ {
        Some(CompatToolType::Proton)
    } else if s == "scout-in-container"@ {
        Some(CompatToolType::ScoutInContainer)
    } else {
        None
    }
}

impl CompatToolType {
    /// The kebab-case name of the kind.
    pub fn to_string(&self) -> (r: String)
        ensures
            r@ == compat_type_name(*self),
    {
        match self {
            CompatToolType::SimpleSteamWrapper => to_string("simple-steam-wrapper"),
            CompatToolType::Proton => to_string("proton"),
            CompatToolType::ScoutInContainer => to_string("scout-in-container"),
        }
    }

    /// Parses a kind from its kebab-case name.
    pub fn from_str(s: &str) -> (r: Option<CompatToolType>)
        ensures
            r == compat_type_of_name(s@),
    {
        if str_eq(s, "simple-steam-wrapper") {
            Some(CompatToolType::SimpleSteamWrapper)
        } else if str_eq(s, "proton") {
            Some(CompatToolType::Proton)
        } else if str_eq(s, "scout-in-container") {
            Some(CompatToolType::ScoutInContainer)
        } else {
            None
        }
    }
}

/// Parsing the name of a kind of compatibility tool gives the kind back.
pub proof fn lemma_compat_type_name_round_trip(t: CompatToolType)
    ensures
        compat_type_of_name(compat_type_name(t)) == Some(t),
{
    reveal_strlit("simple-steam-wrapper");
    reveal_strlit("proton");
    reveal_strlit("scout-in-container");
    assert("simple-steam-wrapper"@ != "proton"@) by {
        assert("simple-steam-wrapper"@.len() != "proton"@.len());
    }
    assert("simple-steam-wrapper"@ != "scout-in-container"@) by {
        assert("simple-steam-wrapper"@[1] != "scout-in-container"@[1]);
    }
    assert("proton"@ != "scout-in-container"@) by {
        assert("proton"@.len() != "scout-in-container"@.len());
    }
}

/// A compatibility tool: its kind, its display name, its directory, its
/// command line (relative to the directory, `%verb%` standing for the verb)
/// and the runtime it needs, if any.
pub struct CompatTool {
    pub compat_type: CompatToolType,
    pub name: String,
    pub dir_path: String,
    pub cmd_line: Vec<String>,
    pub required_runtime: Option<Runtime>,
}

/// The abstract value of a compatibility tool.
pub struct CompatToolView {
    pub compat_type: CompatToolType,
    pub name: Seq<char>,
    pub dir_path: Seq<char>,
    pub cmd_line: Seq<Seq<char>>,
    pub required_runtime: Option<RuntimeView>,
}

impl View for CompatTool {
    type V = CompatToolView;

    open spec fn view(&self) -> CompatToolView {
        CompatToolView {
            compat_type: self.compat_type,
            name: self.name@,
            dir_path: self.dir_path@,
            cmd_line: views(self.cmd_line@),
            required_runtime: match self.required_runtime {
                Some(r) => Some(r@),
                None => None,
            },
        }
    }
}

impl Clone for CompatTool {
    fn clone(&self) -> (r: Self)
        ensures
            r@ == self@,
    {
        CompatTool {
            compat_type: self.compat_type,
            name: self.name.clone(),
            dir_path: self.dir_path.clone(),
            cmd_line: clone_strings(&self.cmd_line),
            required_runtime: match &self.required_runtime {
                Some(r) => Some(r.clone()),
                None => None,
            },
        }
    }
}

/// The places where a Proton build keeps its wine binary, in order.
pub open spec fn wine_bin_candidates(dir: Seq<char>) -> Seq<Seq<char>> {
    seq![
        path_join_seq(dir, "files/bin/wine"@),
        path_join_seq(dir, "bin/wine"@),
        path_join_seq(dir, "usr/bin/wine"@),
    ]
}

/// `std::path::Path::exists`: whether something exists at this path. What
/// is on disk is not known here, so nothing is stated of the result.
#[verifier::external_body]
pub(crate) fn path_exists(path: &str) -> (found: bool) {
    std::path::Path::new(path).exists()
}

impl CompatTool {
    /// The places where this tool's wine binary may be, in order.
    pub fn wine_bin_candidate_paths(&self) -> (r: Vec<String>)
        ensures
            views(r@) == wine_bin_candidates(self.dir_path@),
    {
        let dir = self.dir_path.as_str();
        let r = vec![
            path_join(dir, "files/bin/wine"),
            path_join(dir, "bin/wine"),
            path_join(dir, "usr/bin/wine"),
        ];
        assert(views(r@) =~= wine_bin_candidates(self.dir_path@));
        r
    }

    /// Finds the wine binary of a Proton tool: the first candidate path
    /// that exists. Other kinds of tools have none.
    pub fn find_wine_bin(&self) -> (r: Option<String>)
        ensures
            self.compat_type != CompatToolType::Proton ==> r is None,
            r matches Some(p) ==> wine_bin_candidates(self.dir_path@).contains(p@),
    {
        if self.compat_type != CompatToolType::Proton {
            return None;
        }
        let candidates = self.wine_bin_candidate_paths();
        let mut exists: Vec<bool> = Vec::new();
        let mut i: usize = 0;
        while i < candidates.len()
            invariant
                i <= candidates.len(),
                exists@.len() == i,
            decreases candidates.len() - i,
        {
            exists.push(path_exists(candidates[i].as_str()));
            i = i + 1;
        }
        let r = crate::command_helpers::first_existing(&candidates, &exists);
        r
    }

    /// The tool's executable: the first element of its command line joined
    /// to its directory.
    pub fn get_exec_path(&self) -> (r: String)
        requires
            self.cmd_line@.len() > 0,
        ensures
            r@ == path_join_seq(self.dir_path@, self.cmd_line@[0]@),
    {
        path_join(self.dir_path.as_str(), self.cmd_line[0].as_str())
    }

    /// The command that runs the tool for `verb`: the executable followed by
    /// the rest of the command line, with `%verb%` replaced by the verb.
    pub fn get_full_command(&self, verb: RunVerb) -> (r: Vec<String>)
        requires
            self.cmd_line@.len() > 0,
        ensures
            views(r@) == verb_command_seq(
                path_join_seq(self.dir_path@, self.cmd_line@[0]@),
                views(self.cmd_line@).skip(1),
                verb,
            ),
    {
        let exec_path = self.get_exec_path();
        substitute_verb(exec_path, &self.cmd_line, verb)
    }
}

/// The index of the first tool named `name`, if any.
pub open spec fn first_named(tools: Seq<CompatToolView>, name: Seq<char>) -> Option<int> {
    if exists|i: int| 0 <= i < tools.len() && tools[i].name == name {
        Some(choose|i: int| 0 <= i < tools.len() && tools[i].name == name
            && forall|j: int| 0 <= j < i ==> tools[j].name != name)
    } else {
        None
    }
}

/// The views of a list of tools.
pub open spec fn tool_views(v: Seq<CompatTool>) -> Seq<CompatToolView> {
    v.map_values(|t: CompatTool| t@)
}

/// The first tool named `name`, found by scanning.
pub fn find_tool_by_name(tools: &Vec<CompatTool>, name: &str) -> (r: Option<usize>)
    ensures
        r matches Some(k) ==> k < tools@.len() && first_named(tool_views(tools@), name@) == Some(k as int),
        r is None ==> first_named(tool_views(tools@), name@) is None,
{
    let ghost tv = tool_views(tools@);
    let mut i: usize = 0;
    while i < tools.len()
        invariant
            tv == tool_views(tools@),
            i <= tools.len(),
            forall|j: int| 0 <= j < i ==> tv[j].name != name@,
        decreases tools.len() - i,
    {
        if str_eq(tools[i].name.as_str(), name) {
            proof {
                assert(tv[i as int].name == name@);
                let w = choose|k: int| 0 <= k < tv.len() && tv[k].name == name@
                    && forall|j: int| 0 <= j < k ==> tv[j].name != name@;
                if w < i {
                } else if w > i {
                    assert(tv[i as int].name != name@);
                }
            }
            return Some(i);
        }
        i = i + 1;
    }
    None
}

/// The compatibility tool selected by the options: none when no tool is
/// selected (empty name) or when no tool of `all_compat_tools` has the
/// selected name, else the first tool with that name.
pub fn get_compat_tool_from_config(options: &Options, all_compat_tools: &Vec<CompatTool>) -> (r: Option<CompatTool>)
    ensures
        options.compat_tool@.len() == 0 ==> r is None,
        options.compat_tool@.len() > 0 ==> match first_named(tool_views(all_compat_tools@), options.compat_tool@) {
            Some(i) => r matches Some(t) && t@ == all_compat_tools@[i]@,
            None => r is None,
        },
{
    let found = find_tool_by_name(all_compat_tools, options.compat_tool.as_str());
    if options.compat_tool.as_str().unicode_len() == 0 {
        return None;
    }
    match found {
        Some(i) => Some(all_compat_tools[i].clone()),
        None => None,
    }
}


/// A copy of a list of tools.
pub fn clone_tools(v: &Vec<CompatTool>) -> (r: Vec<CompatTool>)
    ensures
        tool_views(r@) == tool_views(v@),
{
    let mut r: Vec<CompatTool> = Vec::new();
    let mut i: usize = 0;
    while i < v.len()
        invariant
            i <= v.len(),
            tool_views(r@) == tool_views(v@).take(i as int),
        decreases v.len() - i,
    {
        let ghost before = tool_views(r@);
        r.push(v[i].clone());
        assert(tool_views(r@) =~= before.push(v@[i as int]@));
        assert(tool_views(v@).take(i + 1) =~= tool_views(v@).take(i as int).push(v@[i as int]@));
        i = i + 1;
    }
    assert(tool_views(v@).take(i as int) =~= tool_views(v@));
    r
}


/// The tool that a Steam-listed tool stands for: a Proton tool run as its
/// executable followed by the verb, needing no runtime of its own.
pub open spec fn tool_of_listed(name: Seq<char>, dir_path: Seq<char>, path: Seq<char>) -> CompatToolView {
    CompatToolView {
        compat_type: CompatToolType::Proton,
        name: name,
        dir_path: dir_path,
        cmd_line: seq![path, "%verb%"@],
        required_runtime: None,
    }
}

impl CompatTool {
    /// The tool that a Steam-listed tool stands for.
    pub fn from_listed(listed: &crate::runner::compat_tools_wrapper::CompatTool) -> (r: CompatTool)
        ensures
            r@ == tool_of_listed(listed.name@, listed.dir_path@, listed.path@),
    {
        let r = CompatTool {
            compat_type: CompatToolType::Proton,
            name: listed.name.clone(),
            dir_path: listed.dir_path.clone(),
            cmd_line: vec![listed.path.clone(), to_string("%verb%")],
            required_runtime: None,
        };
        assert(r@.cmd_line =~= seq![listed.path@, "%verb%"@]);
        r
    }
}


/// A tool that Steam lists with an absolute executable path runs as that
/// executable followed by the verb (for a path without `%verb%` in it).
pub proof fn lemma_listed_tool_command(name: Seq<char>, dir_path: Seq<char>, path: Seq<char>, verb: RunVerb)
    requires
        path.len() > 0,
        path[0] == '/',
        !contains_seq(path, "%verb%"@),
    ensures
        ({
            let t = tool_of_listed(name, dir_path, path);
            verb_command_seq(path_join_seq(t.dir_path, t.cmd_line[0]), t.cmd_line.skip(1), verb)
                == seq![path, verb_name(verb)]
        }),
{
    let t = tool_of_listed(name, dir_path, path);
    assert(t.cmd_line.skip(1) =~= seq!["%verb%"@]);
    assert(path_join_seq(t.dir_path, t.cmd_line[0]) == path);
    lemma_replace_absent(path, "%verb%"@, verb_name(verb));
    reveal_strlit("%verb%");
    let p = "%verb%"@;
    assert(occurs_at(p, p, 0)) by {
        assert(p.subrange(0, p.len() as int) =~= p);
    }
    assert(p.len() > 0);
    assert(p.skip(p.len() as int) =~= Seq::<char>::empty());
    assert(replace_seq(p.skip(p.len() as int), p, verb_name(verb)) == Seq::<char>::empty());
    assert(replace_seq(p, p, verb_name(verb)) == verb_name(verb) + replace_seq(p.skip(p.len() as int), p, verb_name(verb)));
    assert(replace_seq(p, p, verb_name(verb)) =~= verb_name(verb));
    assert(verb_command_seq(path, seq![p], verb) =~= seq![path, verb_name(verb)]);
}

} // verus!
