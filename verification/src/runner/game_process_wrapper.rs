//! What is run when Steam starts a game through the wrapper.
use vstd::prelude::*;
use crate::command_helpers::{quoted_seq, to_quoted_string};
use crate::tweak_collector::{PreparedCommand, in_running_order, runs_before, tweak_enabled};
use crate::utils::text::{replace_all, replace_seq, str_eq, to_string, views};

verus! {

/// The verb Steam passes as first argument to a compatibility tool.
#[derive(Debug, Clone, Copy, PartialEq, Eq, Structural)]
pub enum RunVerb {
    Run,
    Waitforexitandrun,
}

/// The lowercase name of a verb.
pub open spec fn verb_name(v: RunVerb) -> Seq<char> {
    match v {
        RunVerb::Run => "run"@,
        RunVerb::Waitforexitandrun => "waitforexitandrun"@,
    }
}

/// The verb named by `s`, if any (names are lowercase and matched exactly).
pub open spec fn verb_of_name(s: Seq<char>) -> Option<RunVerb> {
    if s == "run"@ {
        Some(RunVerb::Run)
    } else if s == "waitforexitandrun"@ {
        Some(RunVerb::Waitforexitandrun)
    } else {
        None
    }
}

impl RunVerb {
    /// The lowercase name of the verb, as passed on the command line.
    pub fn to_string(&self) -> (r: String)
        ensures
            r@ == verb_name(*self),
    {
        match self {
            RunVerb::Run => to_string("run"),
            RunVerb::Waitforexitandrun => to_string("waitforexitandrun"),
        }
    }

    /// Parses a verb from its lowercase name.
    pub fn from_str(s: &str) -> (r: Option<RunVerb>)
        ensures
            r == verb_of_name(s@),
    {
        if crate::utils::text::str_eq(s, "run") {
            Some(RunVerb::Run)
        } else if crate::utils::text::str_eq(s, "waitforexitandrun") {
            Some(RunVerb::Waitforexitandrun)
        } else {
            None
        }
    }
}

/// Parsing the name of a verb gives the verb back.
pub proof fn lemma_verb_name_round_trip(v: RunVerb)
    ensures
        verb_of_name(verb_name(v)) == Some(v),
{
    reveal_strlit("run");
    reveal_strlit("waitforexitandrun");
    assert("run"@ != "waitforexitandrun"@) by {
        assert("run"@.len() != "waitforexitandrun"@.len());
    }
}

/// The verb given as first command-line argument, if it names one.
pub fn get_run_verb(first_arg: Option<String>) -> (r: Option<RunVerb>)
    ensures
        r == match first_arg {
            Some(a) => verb_of_name(a@),
            None => None,
        },
{
    match first_arg {
        Some(a) => RunVerb::from_str(a.as_str()),
        None => None,
    }
}

/// A command line in which `%verb%` is replaced by the verb's name in every
/// element: the executable first, then the remaining arguments.
pub open spec fn verb_command_seq(exec: Seq<char>, rest: Seq<Seq<char>>, verb: RunVerb) -> Seq<Seq<char>> {
    (seq![exec] + rest).map_values(|a: Seq<char>| replace_seq(a, "%verb%"@, verb_name(verb)))
}

/// Builds `exec_path` followed by `cmd_line[1..]`, with `%verb%` replaced by
/// the verb's name in every element.
pub fn substitute_verb(exec_path: String, cmd_line: &Vec<String>, verb: RunVerb) -> (r: Vec<String>)
    requires
        cmd_line@.len() > 0,
    ensures
        views(r@) == verb_command_seq(exec_path@, views(cmd_line@).skip(1), verb),
{
    let verb_str = verb.to_string();
    let ghost full = seq![exec_path@] + views(cmd_line@).skip(1);
    proof {
        reveal_strlit("%verb%");
    }
    let mut r: Vec<String> = Vec::new();
    r.push(replace_all(exec_path.as_str(), "%verb%", verb_str.as_str()));
    let mut i: usize = 1;
    while i < cmd_line.len()
        invariant
            1 <= i <= cmd_line@.len(),
            full == seq![exec_path@] + views(cmd_line@).skip(1),
            verb_str@ == verb_name(verb),
            "%verb%"@.len() > 0,
            r@.len() == i,
            forall|k: int| 0 <= k < i ==> #[trigger] r@[k]@ == replace_seq(full[k], "%verb%"@, verb_name(verb)),
        decreases cmd_line.len() - i,
    {
        assert(full[i as int] == cmd_line@[i as int]@);
        r.push(replace_all(cmd_line[i].as_str(), "%verb%", verb_str.as_str()));
        i = i + 1;
    }
    assert(views(r@) =~= verb_command_seq(exec_path@, views(cmd_line@).skip(1), verb));
    r
}


/// Whether the tweak named `name` is enabled in `enabled_tweaks`.
pub fn is_tweak_enabled(enabled_tweaks: &Vec<(String, bool)>, name: &str) -> (r: bool)
    ensures
        r == tweak_enabled(enabled_tweaks@.map_values(|p: (String, bool)| (p.0@, p.1)), name@),
{
    let ghost e = enabled_tweaks@.map_values(|p: (String, bool)| (p.0@, p.1));
    let mut i: usize = 0;
    while i < enabled_tweaks.len()
        invariant
            e == enabled_tweaks@.map_values(|p: (String, bool)| (p.0@, p.1)),
            i <= enabled_tweaks@.len(),
            forall|j: int| 0 <= j < i ==> e[j].0 != name@,
        decreases enabled_tweaks.len() - i,
    {
        assert(e[i as int] == (enabled_tweaks@[i as int].0@, enabled_tweaks@[i as int].1));
        if str_eq(enabled_tweaks[i].0.as_str(), name) {
            proof {
                let w = choose|k: int| 0 <= k < e.len() && e[k].0 == name@
                    && forall|j: int| 0 <= j < k ==> e[j].0 != name@;
                if w < i {
                } else if w > i {
                    assert(e[i as int].0 != name@);
                }
            }
            return enabled_tweaks[i].1;
        }
        i = i + 1;
    }
    false
}

/// In an order by priority, the entries after the first one above `pi`
/// are all above `pi`.
proof fn lemma_after_are_greater(p: Seq<i32>, order: Seq<usize>, k: int, pi: i32)
    requires
        in_running_order(p, order),
        0 <= k <= order.len(),
        k < order.len() ==> p[order[k] as int] > pi,
    ensures
        forall|m: int| k <= m < order.len() ==> p[#[trigger] order[m] as int] > pi,
{
    assert forall|m: int| k <= m < order.len() implies p[#[trigger] order[m] as int] > pi by {
        if m > k {
            assert(runs_before(p, order[k] as int, order[m] as int));
        }
    }
}

/// Inserting a later tweak `i` after the tweaks of priority at most its own
/// and before those above keeps the running order.
proof fn lemma_insert_keeps_order(p: Seq<i32>, order: Seq<usize>, k: int, i: usize)
    requires
        in_running_order(p, order),
        0 <= k <= order.len(),
        i < p.len(),
        forall|m: int| 0 <= m < order.len() ==> #[trigger] order[m] < i,
        forall|m: int| 0 <= m < k ==> p[#[trigger] order[m] as int] <= p[i as int],
        forall|m: int| k <= m < order.len() ==> p[#[trigger] order[m] as int] > p[i as int],
    ensures
        in_running_order(p, order.insert(k, i)),
{
    let t = order.insert(k, i);
    assert forall|x: int, y: int| 0 <= x < y < t.len() implies runs_before(p, t[x] as int, t[y] as int) by {
        if y < k {
            assert(t[x] == order[x] && t[y] == order[y]);
        } else if y == k {
            assert(t[x] == order[x]);
        } else if x < k {
            assert(t[x] == order[x] && t[y] == order[y - 1]);
        } else if x == k {
            assert(t[y] == order[y - 1]);
        } else {
            assert(t[x] == order[x - 1] && t[y] == order[y - 1]);
        }
    }
}

/// What an insertion holds.
proof fn lemma_insert_contains(order: Seq<usize>, k: int, i: usize, j: usize)
    requires
        0 <= k <= order.len(),
    ensures
        order.insert(k, i).contains(j) <==> (order.contains(j) || j == i),
{
    let t = order.insert(k, i);
    if order.contains(j) {
        let m = choose|m: int| 0 <= m < order.len() && order[m] == j;
        if m < k {
            assert(t[m] == j);
        } else {
            assert(t[m + 1] == j);
        }
    }
    if j == i {
        assert(t[k] == i);
    }
    if t.contains(j) && j != i {
        let m = choose|m: int| 0 <= m < t.len() && t[m] == j;
        if m < k {
            assert(order[m] == j);
        } else if m > k {
            assert(order[m - 1] == j);
        }
    }
}

/// The enabled tweaks, in the order in which they run: `tweaks` lists each
/// tweak's name and priority; the result lists the indices of the enabled
/// ones by increasing priority, equal priorities in listed order.
pub fn enabled_tweaks_in_order(tweaks: &Vec<(String, i32)>, enabled_tweaks: &Vec<(String, bool)>) -> (r: Vec<usize>)
    ensures
        in_running_order(tweaks@.map_values(|t: (String, i32)| t.1), r@),
        forall|i: int| #![trigger r@.contains(i as usize)] 0 <= i < tweaks@.len() ==> (r@.contains(i as usize) <==> tweak_enabled(
            enabled_tweaks@.map_values(|p: (String, bool)| (p.0@, p.1)),
            tweaks@[i].0@,
        )),
        forall|k: int| 0 <= k < r@.len() ==> #[trigger] r@[k] < tweaks@.len(),
{
    let ghost p = tweaks@.map_values(|t: (String, i32)| t.1);
    let ghost e = enabled_tweaks@.map_values(|q: (String, bool)| (q.0@, q.1));
    let mut order: Vec<usize> = Vec::new();
    let mut i: usize = 0;
    while i < tweaks.len()
        invariant
            p == tweaks@.map_values(|t: (String, i32)| t.1),
            e == enabled_tweaks@.map_values(|q: (String, bool)| (q.0@, q.1)),
            i <= tweaks@.len(),
            in_running_order(p, order@),
            forall|k: int| 0 <= k < order@.len() ==> #[trigger] order@[k] < i,
            forall|j: int| #![trigger order@.contains(j as usize)] 0 <= j < tweaks@.len() ==> (order@.contains(j as usize) <==> (j < i && tweak_enabled(e, tweaks@[j].0@))),
        decreases tweaks.len() - i,
    {
        if is_tweak_enabled(enabled_tweaks, tweaks[i].0.as_str()) {
            let pi = tweaks[i].1;
            assert(p[i as int] == pi);
            let mut k: usize = 0;
            while k < order.len() && tweaks[order[k]].1 <= pi
                invariant
                    p == tweaks@.map_values(|t: (String, i32)| t.1),
                    i < tweaks@.len(),
                    pi == p[i as int],
                    k <= order@.len(),
                    forall|m: int| 0 <= m < order@.len() ==> #[trigger] order@[m] < i,
                    forall|m: int| 0 <= m < k ==> p[#[trigger] order@[m] as int] <= pi,
                decreases order.len() - k,
            {
                assert(p[order@[k as int] as int] == tweaks@[order@[k as int] as int].1);
                k = k + 1;
            }
            proof {
                if k < order@.len() {
                    assert(p[order@[k as int] as int] == tweaks@[order@[k as int] as int].1);
                }
                lemma_after_are_greater(p, order@, k as int, pi);
            }
            let ghost old_order = order@;
            order.insert(k, i);
            proof {
                lemma_insert_keeps_order(p, old_order, k as int, i);
                assert forall|j: int| #![trigger order@.contains(j as usize)] 0 <= j < tweaks@.len() implies (order@.contains(j as usize) <==> (j < i + 1 && tweak_enabled(e, tweaks@[j].0@))) by {
                    lemma_insert_contains(old_order, k as int, i, j as usize);
                }
            }
        } else {
            assert forall|j: int| #![trigger order@.contains(j as usize)] 0 <= j < tweaks@.len() implies (order@.contains(j as usize) <==> (j < i + 1 && tweak_enabled(e, tweaks@[j].0@))) by {
                if j == i && order@.contains(j as usize) {
                    let m = choose|m: int| 0 <= m < order@.len() && order@[m] == j as usize;
                    assert(order@[m] < i);
                }
            }
        }
        i = i + 1;
    }
    order
}

/// The command line that runs the game: the tweaks' prefixes (only when
/// waiting for the game to exit, and when there are any), the runtime's
/// entry point, the tool and the verb, then the game's arguments.
pub open spec fn wrapper_command_seq(
    verb: RunVerb,
    prefixes: Seq<Seq<char>>,
    runtime_entrypoint: Seq<Seq<char>>,
    tool_path: Seq<char>,
    arguments: Seq<Seq<char>>,
) -> Seq<Seq<char>> {
    (if verb == RunVerb::Waitforexitandrun && prefixes.len() > 0 { prefixes } else { Seq::empty() })
        + runtime_entrypoint + seq![tool_path, verb_name(verb)] + arguments
}

/// How the command line that runs a game is laid out. When waiting for the
/// game to exit, the tweaks' prefixes come first, wrapping everything else:
/// the runtime's entry point follows them at once, then the tool, the verb
/// and the game's arguments. When only running, no prefix appears: the
/// line starts with the runtime's entry point.
pub proof fn lemma_wrapper_command_layout(
    verb: RunVerb,
    prefixes: Seq<Seq<char>>,
    runtime_entrypoint: Seq<Seq<char>>,
    tool_path: Seq<char>,
    arguments: Seq<Seq<char>>,
)
    ensures
        verb == RunVerb::Waitforexitandrun ==> {
            let c = wrapper_command_seq(verb, prefixes, runtime_entrypoint, tool_path, arguments);
            let n = prefixes.len() as int;
            let e = runtime_entrypoint.len() as int;
            &&& c.len() == n + e + 2 + arguments.len()
            &&& c.take(n) == prefixes
            &&& c.subrange(n, n + e) == runtime_entrypoint
            &&& c[n + e] == tool_path
            &&& c[n + e + 1] == "waitforexitandrun"@
            &&& c.skip(n + e + 2) == arguments
        },
        verb == RunVerb::Run ==> {
            let c = wrapper_command_seq(verb, prefixes, runtime_entrypoint, tool_path, arguments);
            let e = runtime_entrypoint.len() as int;
            &&& c.len() == e + 2 + arguments.len()
            &&& c.take(e) == runtime_entrypoint
            &&& c[e] == tool_path
            &&& c[e + 1] == "run"@
            &&& c.skip(e + 2) == arguments
        },
{
    let c = wrapper_command_seq(verb, prefixes, runtime_entrypoint, tool_path, arguments);
    let e = runtime_entrypoint.len() as int;
    if verb == RunVerb::Waitforexitandrun {
        let n = prefixes.len() as int;
        let pre: Seq<Seq<char>> = if prefixes.len() > 0 { prefixes } else { Seq::empty() };
        assert(pre =~= prefixes);
        assert(c =~= prefixes + runtime_entrypoint + seq![tool_path, "waitforexitandrun"@] + arguments);
        assert(c.take(n) =~= prefixes);
        assert(c.subrange(n, n + e) =~= runtime_entrypoint);
        assert(c.skip(n + e + 2) =~= arguments);
    } else {
        assert(c =~= runtime_entrypoint + seq![tool_path, "run"@] + arguments);
        assert(c.take(e) =~= runtime_entrypoint);
        assert(c.skip(e + 2) =~= arguments);
    }
}

/// Appends copies of `extra` to `v`.
fn extend_strings(v: &mut Vec<String>, extra: &Vec<String>)
    ensures
        views(final(v)@) == views(old(v)@) + views(extra@),
{
    let ghost start = views(v@);
    let mut i: usize = 0;
    while i < extra.len()
        invariant
            i <= extra@.len(),
            views(v@) == start + views(extra@).take(i as int),
        decreases extra.len() - i,
    {
        let ghost before = views(v@);
        v.push(extra[i].clone());
        assert(views(v@) =~= before.push(extra@[i as int]@));
        assert(views(extra@).take(i + 1) =~= views(extra@).take(i as int).push(extra@[i as int]@));
        i = i + 1;
    }
    assert(views(extra@).take(i as int) =~= views(extra@));
}

/// The command line that runs the game with the tool at `tool_path`, as a
/// list of arguments.
pub fn wrapper_command(
    verb: RunVerb,
    prepared_command: &PreparedCommand,
    runtime_entrypoint: &Vec<String>,
    tool_path: &str,
) -> (r: Vec<String>)
    ensures
        views(r@) == wrapper_command_seq(
            verb,
            prepared_command@.command_prefixes,
            views(runtime_entrypoint@),
            tool_path@,
            prepared_command@.arguments,
        ),
{
    let mut r: Vec<String> = Vec::new();
    assert(views(r@) =~= Seq::<Seq<char>>::empty());
    if verb == RunVerb::Waitforexitandrun && prepared_command.command_prefixes.len() > 0 {
        extend_strings(&mut r, &prepared_command.command_prefixes);
    }
    extend_strings(&mut r, runtime_entrypoint);
    let tail = vec![to_string(tool_path), verb.to_string()];
    assert(views(tail@) =~= seq![tool_path@, verb_name(verb)]);
    extend_strings(&mut r, &tail);
    extend_strings(&mut r, &prepared_command.arguments);
    assert(views(r@) =~= wrapper_command_seq(
        verb,
        prepared_command@.command_prefixes,
        views(runtime_entrypoint@),
        tool_path@,
        prepared_command@.arguments,
    ));
    r
}

/// The shell command line that runs the game: the arguments of
/// `wrapper_command`, each quoted.
pub fn wrapper_command_line(
    verb: RunVerb,
    prepared_command: &PreparedCommand,
    runtime_entrypoint: &Vec<String>,
    tool_path: &str,
) -> (r: String)
    ensures
        r@ == quoted_seq(wrapper_command_seq(
            verb,
            prepared_command@.command_prefixes,
            views(runtime_entrypoint@),
            tool_path@,
            prepared_command@.arguments,
        )),
{
    to_quoted_string(wrapper_command(verb, prepared_command, runtime_entrypoint, tool_path))
}

} // verus!
