//! Helpers to build shell command lines and to find a terminal emulator.
use vstd::prelude::*;
use crate::utils::text::{join, lemma_first_occurrence, lemma_split_str_first, occurs_at, seq_join, split_str_seq, first_occurrence, to_string, views};

verus! {

/// The quoting of a command line: every argument between double quotes,
/// separated by single spaces.
pub open spec fn quoted_seq(args: Seq<Seq<char>>) -> Seq<char> {
    seq!['"'] + seq_join(args, seq!['"', ' ', '"']) + seq!['"']
}

/// Quotes each argument with double quotes and joins them with spaces:
/// `["a", "b c"]` becomes `"a" "b c"`.
pub fn to_quoted_string(args: Vec<String>) -> (r: String)
    ensures
        r@ == quoted_seq(views(args@)),
{
    let sep = "\" \"";
    let body = join(&args, sep);
    let mut r = to_string("\"");
    r.append(body.as_str());
    r.append("\"");
    proof {
        reveal_strlit("\" \"");
        reveal_strlit("\"");
        assert(sep@ =~= seq!['"', ' ', '"']);
    }
    assert(r@ =~= quoted_seq(views(args@)));
    r
}

/// The separator of quoted arguments: `" "`.
pub open spec fn quote_sep() -> Seq<char> {
    seq!['"', ' ', '"']
}

/// No argument holds a double quote.
pub open spec fn no_quotes(args: Seq<Seq<char>>) -> bool {
    forall|i: int, j: int| 0 <= i < args.len() && 0 <= j < args[i].len() ==> #[trigger] args[i][j] != '"'
}

/// The lengths of the arguments added up.
pub open spec fn total_len(args: Seq<Seq<char>>) -> nat
    decreases args.len(),
{
    if args.len() == 0 {
        0
    } else {
        total_len(args.drop_last()) + args.last().len()
    }
}

/// A join of two or more parts is the first part, the separator and the
/// join of the rest.
proof fn lemma_join_front(parts: Seq<Seq<char>>, sep: Seq<char>)
    requires
        parts.len() >= 2,
    ensures
        seq_join(parts, sep) == parts[0] + sep + seq_join(parts.skip(1), sep),
    decreases parts.len(),
{
    let rest = parts.skip(1);
    if parts.len() == 2 {
        assert(parts.drop_last().len() == 1);
        assert(rest.len() == 1);
        assert(seq_join(rest, sep) == rest[0]);
        assert(seq_join(parts.drop_last(), sep) == parts[0]);
    } else {
        let front = parts.drop_last();
        lemma_join_front(front, sep);
        assert(front.skip(1) =~= rest.drop_last());
        assert(rest.last() == parts.last());
        assert(seq_join(rest, sep) == seq_join(rest.drop_last(), sep) + sep + rest.last());
        assert(seq_join(parts, sep) =~= parts[0] + sep + seq_join(rest, sep));
    }
}

/// The length of a join of one or more parts.
proof fn lemma_join_len(parts: Seq<Seq<char>>, sep: Seq<char>)
    requires
        parts.len() >= 1,
    ensures
        seq_join(parts, sep).len() == total_len(parts) + sep.len() * (parts.len() - 1),
    decreases parts.len(),
{
    if parts.len() > 1 {
        let front = parts.drop_last();
        lemma_join_len(front, sep);
        let k: int = front.len() - 1;
        assert(front.len() - 1 == k);
        assert(parts.len() - 1 == k + 1);
        assert(sep.len() * (k + 1) == sep.len() * k + sep.len()) by (nonlinear_arith);
        assert(seq_join(parts, sep) == seq_join(front, sep) + sep + parts.last());
        assert(total_len(parts) == total_len(front) + parts.last().len());
    } else {
        assert(parts.drop_last().len() == 0);
        assert(total_len(parts.drop_last()) == 0);
        assert(parts.last() == parts[0]);
        assert(total_len(parts) == parts[0].len());
        assert(sep.len() * (parts.len() - 1) == 0) by (nonlinear_arith)
            requires
                parts.len() == 1,
        ;
    }
}

/// Splitting a join of quote-free parts at `" "` gives back the parts.
proof fn lemma_split_join(parts: Seq<Seq<char>>)
    requires
        parts.len() >= 1,
        no_quotes(parts),
    ensures
        split_str_seq(seq_join(parts, quote_sep()), quote_sep()) == parts,
    decreases parts.len(),
{
    let sep = quote_sep();
    let a = parts[0];
    if parts.len() == 1 {
        assert(seq_join(parts, sep) == a);
        lemma_first_occurrence(a, sep);
        if first_occurrence(a, sep) >= 0 {
            let k = first_occurrence(a, sep);
            assert(a.subrange(k, k + 3)[0] == a[k]);
            assert(parts[0][k] != '"');
        }
        assert(split_str_seq(a, sep) == seq![a]);
        assert(seq![a] =~= parts);
    } else {
        let rest = parts.skip(1);
        lemma_join_front(parts, sep);
        let t = seq_join(parts, sep);
        let tail = seq_join(rest, sep);
        assert(t == a + sep + tail);
        assert(t.take(a.len() as int) =~= a);
        assert(t.subrange(a.len() as int, a.len() + 3int) =~= sep);
        assert(occurs_at(t, sep, a.len() as int));
        assert forall|j: int| 0 <= j < a.len() implies !occurs_at(t, sep, j) by {
            if occurs_at(t, sep, j) {
                assert(t.subrange(j, j + 3)[0] == t[j]);
                assert(t[j] == a[j]);
                assert(parts[0][j] != '"');
            }
        }
        lemma_split_str_first(t, sep, a.len() as int);
        assert(t.skip(a.len() + 3int) =~= tail);
        assert(no_quotes(rest)) by {
            assert forall|i: int, j: int| 0 <= i < rest.len() && 0 <= j < rest[i].len() implies #[trigger] rest[i][j] != '"' by {
                assert(rest[i] == parts[i + 1]);
                assert(parts[i + 1][j] != '"');
            }
        }
        lemma_split_join(rest);
        assert(seq![a] + rest =~= parts);
    }
}

/// Quoting undoes itself where no argument holds a double quote: stripping
/// the outer quotes of the line and splitting it at `" "` gives back the
/// arguments. The line starts and ends with a double quote and is as long
/// as the arguments together plus three characters for each argument, less
/// one; with no arguments it is `""`.
pub proof fn lemma_quoted_splits_back(args: Seq<Seq<char>>)
    requires
        no_quotes(args),
    ensures
        args.len() == 0 ==> quoted_seq(args) == seq!['"', '"'],
        args.len() >= 1 ==> {
            let q = quoted_seq(args);
            &&& q.len() == total_len(args) + 3 * args.len() - 1
            &&& q[0] == '"'
            &&& q[q.len() - 1] == '"'
            &&& split_str_seq(q.subrange(1, q.len() - 1), quote_sep()) == args
        },
{
    if args.len() == 0 {
        assert(quoted_seq(args) =~= seq!['"', '"']);
    } else {
        let q = quoted_seq(args);
        let body = seq_join(args, quote_sep());
        lemma_join_len(args, quote_sep());
        assert(quote_sep().len() == 3);
        assert(q == seq!['"'] + body + seq!['"']);
        assert(q.len() == body.len() + 2);
        assert(q[0] == '"');
        assert(q[q.len() - 1] == '"');
        assert(q.subrange(1, q.len() - 1) =~= body);
        lemma_split_join(args);
    }
}

/// The terminal emulators that are tried, in order of preference.
pub open spec fn terminal_emulator_names() -> Seq<Seq<char>> {
    seq![
        "x-terminal-emulator"@, "gnome-terminal"@, "konsole"@,
        "xfce4-terminal"@, "tilix"@, "mate-terminal"@,
        "lxterminal"@, "terminator"@, "xterm"@,
    ]
}

/// The terminal emulators that are tried, in order of preference.
pub fn terminal_emulators() -> (r: Vec<String>)
    ensures
        views(r@) == terminal_emulator_names(),
{
    let r = vec![
        to_string("x-terminal-emulator"), to_string("gnome-terminal"), to_string("konsole"),
        to_string("xfce4-terminal"), to_string("tilix"), to_string("mate-terminal"),
        to_string("lxterminal"), to_string("terminator"), to_string("xterm"),
    ];
    assert(views(r@) =~= terminal_emulator_names());
    r
}

/// The index of the first flag that is set, if any.
pub open spec fn first_set(flags: Seq<bool>) -> Option<int> {
    if exists|i: int| 0 <= i < flags.len() && flags[i] {
        Some(choose|i: int| 0 <= i < flags.len() && flags[i] && forall|j: int| 0 <= j < i ==> !flags[j])
    } else {
        None
    }
}

/// The first flag that is set, found by scanning.
pub fn first_set_index(flags: &Vec<bool>) -> (r: Option<usize>)
    ensures
        match r {
            Some(i) => i < flags@.len() && flags@[i as int] && forall|j: int| 0 <= j < i ==> !flags@[j],
            None => forall|j: int| 0 <= j < flags@.len() ==> !flags@[j],
        },
        r matches Some(i) ==> first_set(flags@) == Some(i as int),
        r is None ==> first_set(flags@) is None,
{
    let mut i: usize = 0;
    while i < flags.len()
        invariant
            i <= flags.len(),
            forall|j: int| 0 <= j < i ==> !flags@[j],
        decreases flags.len() - i,
    {
        if flags[i] {
            proof {
                let w = choose|k: int| 0 <= k < flags@.len() && flags@[k] && forall|j: int| 0 <= j < k ==> !flags@[j];
                assert(0 <= i < flags@.len() && flags@[i as int] && forall|j: int| 0 <= j < i ==> !flags@[j]);
                if w < i {
                } else if w > i {
                    assert(!flags@[i as int]);
                }
            }
            return Some(i);
        }
        i = i + 1;
    }
    None
}

/// Of `paths`, the first one whose flag in `exists` is set (the flags say,
/// in order, whether each path exists).
pub fn first_existing(paths: &Vec<String>, exists: &Vec<bool>) -> (r: Option<String>)
    requires
        paths@.len() == exists@.len(),
    ensures
        match first_set(exists@) {
            Some(i) => r matches Some(p) && p@ == paths@[i]@,
            None => r is None,
        },
        r matches Some(p) ==> views(paths@).contains(p@),
{
    match first_set_index(exists) {
        Some(i) => {
            assert(views(paths@)[i as int] == paths@[i as int]@);
            Some(paths[i].clone())
        },
        None => None,
    }
}

/// Given, for each terminal emulator of `terminal_emulator_names()` in order,
/// whether it is installed, the first installed one.
pub fn first_available_terminal(available: &Vec<bool>) -> (r: Option<String>)
    requires
        available@.len() == terminal_emulator_names().len(),
    ensures
        match first_set(available@) {
            Some(i) => r matches Some(t) && t@ == terminal_emulator_names()[i],
            None => r is None,
        },
{
    let terms = terminal_emulators();
    match first_set_index(available) {
        Some(i) => {
            assert(terms@[i as int]@ == views(terms@)[i as int]);
            Some(terms[i].clone())
        },
        None => None,
    }
}

/// `which::which`: reports whether an executable of this name is found in the
/// directories of `PATH`. What it finds depends on the machine, so nothing is
/// stated of the result.
#[verifier::external_body]
fn executable_in_path(name: &str) -> (found: bool) {
    which::which(name).is_ok()
}

/// Finds an installed terminal emulator, preferring the earlier ones of
/// `terminal_emulator_names()`. Which ones are installed depends on the
/// machine; whatever is found is one of the names.
pub fn find_terminal_emulator() -> (r: Option<String>)
    ensures
        r matches Some(t) ==> terminal_emulator_names().contains(t@),
{
    let terms = terminal_emulators();
    let mut available: Vec<bool> = Vec::new();
    let mut i: usize = 0;
    while i < terms.len()
        invariant
            views(terms@) == terminal_emulator_names(),
            i <= terms.len(),
            available@.len() == i,
        decreases terms.len() - i,
    {
        let found = executable_in_path(terms[i].as_str());
        available.push(found);
        i = i + 1;
    }
    let r = first_available_terminal(&available);
    proof {
        if let Some(k) = first_set(available@) {
            assert(terminal_emulator_names()[k] == terminal_emulator_names()[k]);
        }
    }
    r
}

} // verus!

verus! {

/// A process to start: the program, its arguments, and environment
/// assignments applied in order (a later one for the same variable wins).
pub struct CommandPlan {
    pub program: String,
    pub args: Vec<String>,
    pub envs: Vec<(String, String)>,
}

/// The abstract value of a command plan.
pub struct CommandPlanView {
    pub program: Seq<char>,
    pub args: Seq<Seq<char>>,
    pub envs: Seq<(Seq<char>, Seq<char>)>,
}

/// The views of a list of environment assignments.
pub open spec fn env_views(v: Seq<(String, String)>) -> Seq<(Seq<char>, Seq<char>)> {
    v.map_values(|p: (String, String)| (p.0@, p.1@))
}

impl View for CommandPlan {
    type V = CommandPlanView;

    open spec fn view(&self) -> CommandPlanView {
        CommandPlanView { program: self.program@, args: views(self.args@), envs: env_views(self.envs@) }
    }
}

/// An environment assignment built from two string literals.
pub fn env_pair(key: &str, value: &str) -> (r: (String, String))
    ensures
        r.0@ == key@,
        r.1@ == value@,
{
    (to_string(key), to_string(value))
}

/// Appends `extra` to `envs`, keeping the order.
pub fn append_envs(envs: &mut Vec<(String, String)>, extra: &Vec<(String, String)>)
    ensures
        env_views(final(envs)@) == env_views(old(envs)@) + env_views(extra@),
{
    let ghost start = env_views(envs@);
    let mut i: usize = 0;
    while i < extra.len()
        invariant
            i <= extra.len(),
            env_views(envs@) == start + env_views(extra@).take(i as int),
        decreases extra.len() - i,
    {
        let ghost before = env_views(envs@);
        envs.push((extra[i].0.clone(), extra[i].1.clone()));
        assert(env_views(extra@).take(i + 1) =~= env_views(extra@).take(i as int) + seq![(extra@[i as int].0@, extra@[i as int].1@)]);
        assert(env_views(envs@) =~= before + seq![(extra@[i as int].0@, extra@[i as int].1@)]);
        i = i + 1;
    }
    assert(env_views(extra@).take(extra.len() as int) =~= env_views(extra@));
}

} // verus!
