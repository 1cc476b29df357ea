//! Commands on the prefix of the running game (`STEAM_COMPAT_DATA_PATH`)
//! with a compatibility tool as Steam lists it.
use vstd::prelude::*;
use crate::command_helpers::{CommandPlan, CommandPlanView, append_envs, env_pair, env_views, quoted_seq, to_quoted_string};
use crate::runner::compat_tools_wrapper::CompatTool;
use crate::utils::text::{opt_view, path_join, path_join_seq, to_string};

verus! {

/// The wine variables for the prefix at `data_path` with the tool whose
/// directory is `tool_dir`, for the game installed at `game_path`.
pub open spec fn wine_variables(data_path: Seq<char>, tool_dir: Seq<char>, game_path: Seq<char>) -> Seq<(Seq<char>, Seq<char>)> {
    seq![
        ("WINEPREFIX"@, path_join_seq(data_path, "pfx"@)),
        ("WINE"@, path_join_seq(tool_dir, "files/bin/wine"@)),
        ("PWD"@, game_path),
        ("WINEDEBUG"@, "-all"@),
    ]
}

/// The wine variables for the prefix at `data_path` (the value of
/// `STEAM_COMPAT_DATA_PATH`) with `compat_tool`, for the game installed at
/// `game_data_path` (the value of `STEAM_COMPAT_INSTALL_PATH`).
pub fn get_wine_variables(data_path: &str, compat_tool: &CompatTool, game_data_path: &str) -> (r: Vec<(String, String)>)
    ensures
        env_views(r@) == wine_variables(data_path@, compat_tool.dir_path@, game_data_path@),
{
    let r = vec![
        (to_string("WINEPREFIX"), path_join(data_path, "pfx")),
        (to_string("WINE"), path_join(compat_tool.dir_path.as_str(), "files/bin/wine")),
        (to_string("PWD"), to_string(game_data_path)),
        env_pair("WINEDEBUG", "-all"),
    ];
    assert(env_views(r@) =~= wine_variables(data_path@, compat_tool.dir_path@, game_data_path@));
    r
}

/// The command that opens winetricks with the wine variables `wine_vars`.
pub open spec fn winetricks_in_prefix_plan(wine_vars: Seq<(Seq<char>, Seq<char>)>) -> CommandPlanView {
    CommandPlanView {
        program: "winetricks"@,
        args: seq!["--gui"@],
        envs: wine_vars + seq![("LD_PRELOAD"@, Seq::empty()), ("LD_LIBRARY_PATH"@, Seq::empty())],
    }
}

/// The command that opens winetricks on the prefix, given its wine
/// variables.
pub fn winetricks_in_prefix_command(wine_vars: &Vec<(String, String)>) -> (r: CommandPlan)
    ensures
        r@ == winetricks_in_prefix_plan(env_views(wine_vars@)),
{
    let mut envs: Vec<(String, String)> = Vec::new();
    append_envs(&mut envs, wine_vars);
    let tail = vec![env_pair("LD_PRELOAD", ""), env_pair("LD_LIBRARY_PATH", "")];
    proof {
        reveal_strlit("");
    }
    assert(""@ =~= Seq::<char>::empty());
    assert(env_views(tail@) =~= seq![("LD_PRELOAD"@, Seq::<char>::empty()), ("LD_LIBRARY_PATH"@, Seq::<char>::empty())]);
    append_envs(&mut envs, &tail);
    let r = CommandPlan { program: to_string("winetricks"), args: vec![to_string("--gui")], envs };
    assert(r@.args =~= seq!["--gui"@]);
    assert(r@.envs =~= winetricks_in_prefix_plan(env_views(wine_vars@)).envs);
    r
}

/// The command that recreates the prefix at `data_path` with a tool whose
/// executable is `tool_path`.
pub open spec fn reset_prefix_plan(tool_path: Seq<char>, data_path: Seq<char>) -> CommandPlanView {
    CommandPlanView {
        program: tool_path,
        args: seq!["run"@, "/bin/true"@],
        envs: seq![("STEAM_COMPAT_DATA_PATH"@, data_path)],
    }
}

/// The command that recreates the prefix at `data_path` with `compat_tool`
/// (after the old prefix has been removed).
pub fn reset_prefix_command(compat_tool: &CompatTool, data_path: &str) -> (r: CommandPlan)
    ensures
        r@ == reset_prefix_plan(compat_tool.path@, data_path@),
{
    let r = CommandPlan {
        program: compat_tool.path.clone(),
        args: vec![to_string("run"), to_string("/bin/true")],
        envs: vec![(to_string("STEAM_COMPAT_DATA_PATH"), to_string(data_path))],
    };
    assert(r@.args =~= reset_prefix_plan(compat_tool.path@, data_path@).args);
    assert(r@.envs =~= reset_prefix_plan(compat_tool.path@, data_path@).envs);
    r
}

/// The command that runs `executable` with the tool's wine (`wine_bin`) in
/// the prefix: in `terminal -e` when a terminal is given, else in `sh -c`.
pub open spec fn run_executable_plan(
    wine_vars: Seq<(Seq<char>, Seq<char>)>,
    wine_bin: Seq<char>,
    executable: Seq<char>,
    terminal: Option<Seq<char>>,
) -> CommandPlanView {
    let (program, flag) = match terminal {
        Some(t) => (t, "-e"@),
        None => ("sh"@, "-c"@),
    };
    CommandPlanView {
        program: program,
        args: seq![flag, quoted_seq(seq![wine_bin, executable])],
        envs: wine_vars + seq![
            ("LD_PRELOAD"@, Seq::empty()),
            ("LD_LIBRARY_PATH"@, Seq::empty()),
            ("WINEDEBUG"@, Seq::empty()),
        ],
    }
}

/// The command that runs `executable` in the prefix with `compat_tool`'s
/// wine (`files/bin/wine` in its directory), given the wine variables and
/// the terminal emulator to run it in (none for `sh`).
pub fn run_in_prefix_command(
    wine_vars: &Vec<(String, String)>,
    compat_tool: &CompatTool,
    executable: &str,
    terminal: Option<String>,
) -> (r: CommandPlan)
    ensures
        r@ == run_executable_plan(
            env_views(wine_vars@),
            path_join_seq(compat_tool.dir_path@, "files/bin/wine"@),
            executable@,
            opt_view(terminal),
        ),
{
    let ghost t_view = opt_view(terminal);
    let wine_bin = path_join(compat_tool.dir_path.as_str(), "files/bin/wine");
    let cmd = vec![wine_bin, to_string(executable)];
    let ghost cmd_view = seq![cmd@[0]@, cmd@[1]@];
    assert(crate::utils::text::views(cmd@) =~= cmd_view);
    let line = to_quoted_string(cmd);
    let (program, flag) = match terminal {
        Some(t) => (t, to_string("-e")),
        None => (to_string("sh"), to_string("-c")),
    };
    let mut envs: Vec<(String, String)> = Vec::new();
    append_envs(&mut envs, wine_vars);
    let tail = vec![env_pair("LD_PRELOAD", ""), env_pair("LD_LIBRARY_PATH", ""), env_pair("WINEDEBUG", "")];
    proof {
        reveal_strlit("");
    }
    assert(""@ =~= Seq::<char>::empty());
    assert(env_views(tail@) =~= seq![
        ("LD_PRELOAD"@, Seq::<char>::empty()),
        ("LD_LIBRARY_PATH"@, Seq::<char>::empty()),
        ("WINEDEBUG"@, Seq::<char>::empty()),
    ]);
    append_envs(&mut envs, &tail);
    let r = CommandPlan { program, args: vec![flag, line], envs };
    let ghost expected = run_executable_plan(
        env_views(wine_vars@),
        path_join_seq(compat_tool.dir_path@, "files/bin/wine"@),
        executable@,
        t_view,
    );
    assert(r@.args =~= expected.args);
    assert(r@.envs =~= expected.envs);
    r
}

/// The command that runs an executable in a prefix keeps every wine
/// variable given, in order, and only after them clears `LD_PRELOAD`,
/// `LD_LIBRARY_PATH` and `WINEDEBUG`; it runs the wine binary on the
/// executable, quoted, through `terminal -e` or else `sh -c`.
pub proof fn lemma_run_executable_keeps_wine_vars(
    wine_vars: Seq<(Seq<char>, Seq<char>)>,
    wine_bin: Seq<char>,
    executable: Seq<char>,
    terminal: Option<Seq<char>>,
)
    ensures ({
        let p = run_executable_plan(wine_vars, wine_bin, executable, terminal);
        &&& p.envs.len() == wine_vars.len() + 3
        &&& p.envs.take(wine_vars.len() as int) == wine_vars
        &&& p.envs[wine_vars.len() as int] == ("LD_PRELOAD"@, Seq::<char>::empty())
        &&& p.envs[wine_vars.len() + 1int] == ("LD_LIBRARY_PATH"@, Seq::<char>::empty())
        &&& p.envs[wine_vars.len() + 2int] == ("WINEDEBUG"@, Seq::<char>::empty())
        &&& p.args.len() == 2
        &&& p.args[1] == quoted_seq(seq![wine_bin, executable])
        &&& (terminal matches Some(t) ==> p.program == t && p.args[0] == "-e"@)
        &&& (terminal is None ==> p.program == "sh"@ && p.args[0] == "-c"@)
    }),
{
    let p = run_executable_plan(wine_vars, wine_bin, executable, terminal);
    assert(p.envs.take(wine_vars.len() as int) =~= wine_vars);
}

/// Run with the wine variables of the game's prefix, an executable runs in
/// that prefix: `WINEPREFIX` is the `pfx` directory inside the prefix that
/// a reset recreates (`STEAM_COMPAT_DATA_PATH`), and `WINE` is the wine
/// binary the command runs; it starts in the game's directory. A reset runs
/// the tool's `run /bin/true` on that prefix.
pub proof fn lemma_run_executable_in_game_prefix(
    data_path: Seq<char>,
    tool_dir: Seq<char>,
    game_path: Seq<char>,
    executable: Seq<char>,
    terminal: Option<Seq<char>>,
    tool_exec: Seq<char>,
)
    ensures ({
        let wine_bin = path_join_seq(tool_dir, "files/bin/wine"@);
        let p = run_executable_plan(wine_variables(data_path, tool_dir, game_path), wine_bin, executable, terminal);
        let reset = reset_prefix_plan(tool_exec, data_path);
        &&& p.envs[0] == ("WINEPREFIX"@, path_join_seq(reset.envs[0].1, "pfx"@))
        &&& reset.envs == seq![("STEAM_COMPAT_DATA_PATH"@, data_path)]
        &&& reset.program == tool_exec
        &&& reset.args == seq!["run"@, "/bin/true"@]
        &&& p.envs[1] == ("WINE"@, wine_bin)
        &&& p.envs[2] == ("PWD"@, game_path)
        &&& p.args[1] == quoted_seq(seq![wine_bin, executable])
    }),
{
}

/// Winetricks opens on the prefix of the wine variables given: they all
/// come first, in order, then `LD_PRELOAD` and `LD_LIBRARY_PATH` are
/// cleared.
pub proof fn lemma_winetricks_keeps_wine_vars(wine_vars: Seq<(Seq<char>, Seq<char>)>)
    ensures ({
        let p = winetricks_in_prefix_plan(wine_vars);
        &&& p.program == "winetricks"@
        &&& p.envs.len() == wine_vars.len() + 2
        &&& p.envs.take(wine_vars.len() as int) == wine_vars
        &&& p.envs[wine_vars.len() as int] == ("LD_PRELOAD"@, Seq::<char>::empty())
        &&& p.envs[wine_vars.len() + 1int] == ("LD_LIBRARY_PATH"@, Seq::<char>::empty())
    }),
{
    let p = winetricks_in_prefix_plan(wine_vars);
    assert(p.envs.take(wine_vars.len() as int) =~= wine_vars);
}

} // verus!
