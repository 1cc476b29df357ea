//! A wine prefix, either a Proton prefix (whose wine prefix is its `pfx`
//! subdirectory) or a plain wine prefix.
use vstd::prelude::*;
use crate::command_helpers::{
    CommandPlan, CommandPlanView, env_pair, env_views, append_envs, find_terminal_emulator,
    quoted_seq, terminal_emulator_names, to_quoted_string,
};
use crate::compatibility_tools::compat_tool::{CompatTool, CompatToolType, wine_bin_candidates};
use crate::utils::text::{opt_view, path_join, path_join_seq, to_string, views};

verus! {

/// The prefix of a game.
pub struct AppPrefix {
    path: String,
    proton: bool,
}

/// The abstract value of a prefix: its directory and whether it is a
/// Proton prefix.
pub struct AppPrefixView {
    pub path: Seq<char>,
    pub proton: bool,
}

impl View for AppPrefix {
    type V = AppPrefixView;

    closed spec fn view(&self) -> AppPrefixView {
        AppPrefixView { path: self.path@, proton: self.proton }
    }
}

/// The wine prefix inside a prefix.
pub open spec fn wine_path_of(p: AppPrefixView) -> Seq<char> {
    if p.proton {
        path_join_seq(p.path, "pfx"@)
    } else {
        p.path
    }
}

/// The command that opens winetricks on a prefix.
pub open spec fn winetricks_plan(wine_path: Seq<char>, wine_bin: Seq<char>) -> CommandPlanView {
    CommandPlanView {
        program: "winetricks"@,
        args: seq!["--gui"@],
        envs: seq![
            ("WINEPREFIX"@, wine_path),
            ("WINE"@, wine_bin),
            ("WINEDEBUG"@, "-a"@),
            ("LD_PRELOAD"@, Seq::empty()),
            ("LD_LIBRARY_PATH"@, Seq::empty()),
        ],
    }
}

/// The command that recreates a prefix with a tool whose executable is
/// `tool_exec`: `run /bin/true` for a Proton prefix, `wineboot --init`
/// otherwise.
pub open spec fn reset_plan(p: AppPrefixView, tool_exec: Seq<char>) -> CommandPlanView {
    if p.proton {
        CommandPlanView {
            program: tool_exec,
            args: seq!["run"@, "/bin/true"@],
            envs: seq![("STEAM_COMPAT_DATA_PATH"@, p.path)],
        }
    } else {
        CommandPlanView {
            program: tool_exec,
            args: seq!["wineboot"@, "--init"@],
            envs: seq![("WINEPREFIX"@, p.path), ("WINEARCH"@, "64"@), ("WINEDEBUG"@, "-a"@)],
        }
    }
}

/// The command that runs `program args` with wine in a prefix: through
/// `sh -c`, or through `terminal -e` when a terminal is given; the command's
/// own variables come after the shell's and before the prefix's.
pub open spec fn run_in_prefix_plan(
    wine_path: Seq<char>,
    wine_bin: Seq<char>,
    program: Seq<char>,
    args: Seq<Seq<char>>,
    envs: Seq<(Seq<char>, Seq<char>)>,
    terminal: Option<Seq<char>>,
) -> CommandPlanView {
    let line = quoted_seq(seq![wine_bin, program] + args);
    let tail = envs + seq![
        ("WINEPREFIX"@, wine_path),
        ("LD_PRELOAD"@, Seq::empty()),
        ("LD_LIBRARY_PATH"@, Seq::empty()),
    ];
    match terminal {
        Some(t) => CommandPlanView {
            program: t,
            args: seq!["-e"@, line],
            envs: seq![("WINEDEBUG"@, Seq::empty())] + tail,
        },
        None => CommandPlanView {
            program: "sh"@,
            args: seq!["-c"@, line],
            envs: seq![("WINEDEBUG"@, "-a"@)] + tail,
        },
    }
}

impl AppPrefix {
    /// The Proton prefix at `data_path` (the value of
    /// `STEAM_COMPAT_DATA_PATH`).
    pub fn from_env(data_path: String) -> (r: Self)
        ensures
            r@.path == data_path@,
            r@.proton,
    {
        AppPrefix { path: data_path, proton: true }
    }

    /// The directory of a Proton prefix; an error for a plain wine prefix.
    pub fn as_proton_path(&self) -> (r: Result<String, &'static str>)
        ensures
            self@.proton ==> (r matches Ok(p) && p@ == self@.path),
            !self@.proton ==> (r matches Err(e) && e@ == "Unable to transform path, not a proton prefix"@),
    {
        if !self.proton {
            return Err("Unable to transform path, not a proton prefix");
        }
        Ok(self.path.clone())
    }

    /// The wine prefix: `pfx` inside a Proton prefix, the directory itself
    /// otherwise.
    pub fn as_wine_path(&self) -> (r: String)
        ensures
            r@ == wine_path_of(self@),
    {
        if self.proton {
            return path_join(self.path.as_str(), "pfx");
        }
        self.path.clone()
    }

    /// The prefix's own directory.
    pub fn as_path(&self) -> (r: String)
        ensures
            r@ == self@.path,
    {
        match self.proton {
            true => match self.as_proton_path() {
                Ok(p) => p,
                Err(_) => self.path.clone(),
            },
            false => self.as_wine_path(),
        }
    }

    /// The winetricks command for this prefix, given the tool's wine binary.
    pub fn winetricks_command(&self, wine_bin: String) -> (r: CommandPlan)
        ensures
            r@ == winetricks_plan(wine_path_of(self@), wine_bin@),
    {
        let wine_path = self.as_wine_path();
        let r = CommandPlan {
            program: to_string("winetricks"),
            args: vec![to_string("--gui")],
            envs: vec![
                (to_string("WINEPREFIX"), wine_path),
                (to_string("WINE"), wine_bin),
                env_pair("WINEDEBUG", "-a"),
                env_pair("LD_PRELOAD", ""),
                env_pair("LD_LIBRARY_PATH", ""),
            ],
        };
        proof {
            reveal_strlit("");
        }
        assert(r@.envs[3].1 =~= Seq::<char>::empty());
        assert(r@.envs[4].1 =~= Seq::<char>::empty());
        assert(r@.args =~= seq!["--gui"@]);
        assert(r@.envs =~= winetricks_plan(wine_path_of(self@), wine_bin@).envs);
        r
    }

    /// The winetricks command for this prefix with `compat_tool`'s wine
    /// binary; none when the tool has no wine binary.
    pub fn run_wiretricks(&self, compat_tool: &CompatTool) -> (r: Option<CommandPlan>)
        ensures
            compat_tool.compat_type != CompatToolType::Proton ==> r is None,
            r matches Some(plan) ==> exists|bin: Seq<char>|
                wine_bin_candidates(compat_tool.dir_path@).contains(bin)
                && plan@ == winetricks_plan(wine_path_of(self@), bin),
    {
        match compat_tool.find_wine_bin() {
            Some(bin) => {
                let ghost b = bin@;
                let plan = self.winetricks_command(bin);
                assert(wine_bin_candidates(compat_tool.dir_path@).contains(b));
                Some(plan)
            },
            None => None,
        }
    }

    /// The command that recreates this prefix with a tool whose executable
    /// is `tool_exec`.
    pub fn reset_prefix_command(&self, tool_exec: String) -> (r: CommandPlan)
        ensures
            r@ == reset_plan(self@, tool_exec@),
    {
        let prefix = self.as_path();
        let r = if self.proton {
            CommandPlan {
                program: tool_exec,
                args: vec![to_string("run"), to_string("/bin/true")],
                envs: vec![(to_string("STEAM_COMPAT_DATA_PATH"), prefix)],
            }
        } else {
            CommandPlan {
                program: tool_exec,
                args: vec![to_string("wineboot"), to_string("--init")],
                envs: vec![
                    (to_string("WINEPREFIX"), prefix),
                    env_pair("WINEARCH", "64"),
                    env_pair("WINEDEBUG", "-a"),
                ],
            }
        };
        assert(r@.args =~= reset_plan(self@, tool_exec@).args);
        assert(r@.envs =~= reset_plan(self@, tool_exec@).envs);
        r
    }

    /// The command that runs `program args` (with the variables `envs`) in
    /// this prefix with wine binary `wine_bin`, in `terminal` if one is given.
    pub fn run_in_prefix_command(
        &self,
        wine_bin: String,
        program: String,
        args: Vec<String>,
        envs: Vec<(String, String)>,
        terminal: Option<String>,
    ) -> (r: CommandPlan)
        ensures
            r@ == run_in_prefix_plan(
                wine_path_of(self@),
                wine_bin@,
                program@,
                views(args@),
                env_views(envs@),
                opt_view(terminal),
            ),
    {
        let ghost t_view = opt_view(terminal);
        let mut cmd: Vec<String> = Vec::new();
        cmd.push(wine_bin);
        cmd.push(program);
        let mut i: usize = 0;
        while i < args.len()
            invariant
                i <= args.len(),
                cmd@.len() == i + 2,
                views(cmd@) == seq![wine_bin@, program@] + views(args@).take(i as int),
            decreases args.len() - i,
        {
            let ghost before = views(cmd@);
            cmd.push(args[i].clone());
            assert(views(cmd@) =~= before + seq![args@[i as int]@]);
            assert(views(args@).take(i + 1) =~= views(args@).take(i as int) + seq![args@[i as int]@]);
            i = i + 1;
        }
        assert(views(args@).take(args.len() as int) =~= views(args@));
        let line = to_quoted_string(cmd);
        let (prog, first_arg, mut plan_envs) = match terminal {
            Some(t) => (t, to_string("-e"), vec![env_pair("WINEDEBUG", "")]),
            None => (to_string("sh"), to_string("-c"), vec![env_pair("WINEDEBUG", "-a")]),
        };
        let ghost first = env_views(plan_envs@);
        append_envs(&mut plan_envs, &envs);
        let wine_path = self.as_wine_path();
        let tail = vec![
            (to_string("WINEPREFIX"), wine_path),
            env_pair("LD_PRELOAD", ""),
            env_pair("LD_LIBRARY_PATH", ""),
        ];
        proof {
            reveal_strlit("");
        }
        assert(tail@[1].1@ =~= Seq::<char>::empty());
        assert(tail@[2].1@ =~= Seq::<char>::empty());
        assert(env_views(tail@) =~= seq![
            ("WINEPREFIX"@, wine_path_of(self@)),
            ("LD_PRELOAD"@, Seq::<char>::empty()),
            ("LD_LIBRARY_PATH"@, Seq::<char>::empty()),
        ]);
        append_envs(&mut plan_envs, &tail);
        assert(first =~= seq![("WINEDEBUG"@, if t_view is Some { Seq::<char>::empty() } else { "-a"@ })]);
        let r = CommandPlan { program: prog, args: vec![first_arg, line], envs: plan_envs };
        let ghost expected = run_in_prefix_plan(
            wine_path_of(self@), wine_bin@, program@, views(args@), env_views(envs@), t_view);
        assert(r@.args =~= expected.args);
        assert(r@.envs =~= expected.envs);
        r
    }

    /// The command that runs `program args` with variables `envs` in this
    /// prefix with `compat_tool`'s wine binary, in a terminal emulator when
    /// `in_terminal` and one is installed; none when the tool has no wine
    /// binary.
    pub fn run_in_prefix(
        &self,
        compat_tool: &CompatTool,
        program: String,
        args: Vec<String>,
        envs: Vec<(String, String)>,
        in_terminal: bool,
    ) -> (r: Option<CommandPlan>)
        ensures
            compat_tool.compat_type != CompatToolType::Proton ==> r is None,
            r matches Some(plan) ==> exists|bin: Seq<char>, terminal: Option<Seq<char>>|
                wine_bin_candidates(compat_tool.dir_path@).contains(bin)
                && (terminal matches Some(t) ==> in_terminal && terminal_emulator_names().contains(t))
                && plan@ == run_in_prefix_plan(
                    wine_path_of(self@), bin, program@, views(args@), env_views(envs@), terminal),
    {
        let wine_bin = match compat_tool.find_wine_bin() {
            Some(b) => b,
            None => return None,
        };
        let terminal = if in_terminal { find_terminal_emulator() } else { None };
        let ghost b = wine_bin@;
        let ghost t = opt_view(terminal);
        let ghost pv = program@;
        let ghost av = views(args@);
        let ghost ev = env_views(envs@);
        let plan = self.run_in_prefix_command(wine_bin, program, args, envs, terminal);
        assert(plan@ == run_in_prefix_plan(wine_path_of(self@), b, pv, av, ev, t));
        Some(plan)
    }
}

/// A prefix's directory is its own path whatever its kind, and its wine
/// prefix is the `pfx` subdirectory exactly for Proton prefixes.
pub proof fn lemma_prefix_paths(p: AppPrefixView)
    ensures
        p.proton ==> wine_path_of(p) == path_join_seq(p.path, "pfx"@),
        !p.proton ==> wine_path_of(p) == p.path,
{
}

/// Recreating a prefix works on the prefix's own directory. For a Proton
/// prefix, the tool runs `run /bin/true` with `STEAM_COMPAT_DATA_PATH` set to
/// that directory (the tool makes the wine prefix `pfx` inside it), never
/// to the wine prefix itself; for a plain wine prefix, `wineboot --init`
/// runs with `WINEPREFIX` set to that directory, which is its wine prefix.
/// The tool given is the program run.
pub proof fn lemma_reset_targets_prefix_dir(p: AppPrefixView, tool_exec: Seq<char>)
    ensures ({
        let r = reset_plan(p, tool_exec);
        &&& r.program == tool_exec
        &&& p.proton ==> r.args == seq!["run"@, "/bin/true"@]
            && r.envs == seq![("STEAM_COMPAT_DATA_PATH"@, p.path)]
            && path_join_seq(r.envs[0].1, "pfx"@) == wine_path_of(p)
        &&& !p.proton ==> r.args == seq!["wineboot"@, "--init"@]
            && r.envs.len() == 3 && r.envs[0] == ("WINEPREFIX"@, p.path) && r.envs[0].1 == wine_path_of(p)
    }),
{
}

/// Winetricks opens on the wine prefix of the prefix, with the wine binary
/// given.
pub proof fn lemma_winetricks_targets_wine_prefix(p: AppPrefixView, wine_bin: Seq<char>)
    ensures ({
        let w = winetricks_plan(wine_path_of(p), wine_bin);
        &&& w.program == "winetricks"@
        &&& w.envs[0] == ("WINEPREFIX"@, if p.proton { path_join_seq(p.path, "pfx"@) } else { p.path })
        &&& w.envs[1] == ("WINE"@, wine_bin)
    }),
{
}

/// A program run in a prefix runs with wine in the wine prefix: the
/// command's own variables come first among those after `WINEDEBUG`, in
/// order, and `WINEPREFIX` (set after them, so it wins) is the wine prefix;
/// the line run is the wine binary, the program and its arguments.
pub proof fn lemma_run_in_prefix_targets_wine_prefix(
    p: AppPrefixView,
    wine_bin: Seq<char>,
    program: Seq<char>,
    args: Seq<Seq<char>>,
    envs: Seq<(Seq<char>, Seq<char>)>,
    terminal: Option<Seq<char>>,
)
    ensures ({
        let r = run_in_prefix_plan(wine_path_of(p), wine_bin, program, args, envs, terminal);
        let n = envs.len() as int;
        &&& r.envs.len() == n + 4
        &&& r.envs[0].0 == "WINEDEBUG"@
        &&& r.envs.subrange(1, n + 1) == envs
        &&& r.envs[n + 1] == ("WINEPREFIX"@, wine_path_of(p))
        &&& r.envs[n + 2] == ("LD_PRELOAD"@, Seq::<char>::empty())
        &&& r.envs[n + 3] == ("LD_LIBRARY_PATH"@, Seq::<char>::empty())
        &&& r.args.len() == 2
        &&& r.args[1] == quoted_seq(seq![wine_bin, program] + args)
        &&& (terminal matches Some(t) ==> r.program == t && r.args[0] == "-e"@)
        &&& (terminal is None ==> r.program == "sh"@ && r.args[0] == "-c"@)
    }),
{
    let r = run_in_prefix_plan(wine_path_of(p), wine_bin, program, args, envs, terminal);
    let n = envs.len() as int;
    assert(r.envs.subrange(1, n + 1) =~= envs);
}

} // verus!
