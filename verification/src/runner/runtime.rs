//! A container runtime (such as Steam Linux Runtime "sniper") that wraps the
//! compatibility tool.
use vstd::prelude::*;
use crate::runner::game_process_wrapper::{RunVerb, substitute_verb, verb_command_seq};
use crate::utils::text::{clone_strings, path_join, path_join_seq, views};

verus! {

/// A runtime installed at `path`, started with the command line `cmdline`
/// (relative to `path`, `%verb%` standing for the run verb).
pub struct Runtime {
    pub path: String,
    pub cmdline: Vec<String>,
    pub name: String,
}

/// The abstract value of a runtime.
pub struct RuntimeView {
    pub path: Seq<char>,
    pub cmdline: Seq<Seq<char>>,
    pub name: Seq<char>,
}

impl View for Runtime {
    type V = RuntimeView;

    open spec fn view(&self) -> RuntimeView {
        RuntimeView { path: self.path@, cmdline: views(self.cmdline@), name: self.name@ }
    }
}

impl Clone for Runtime {
    fn clone(&self) -> (r: Self)
        ensures
            r@ == self@,
    {
        Runtime { path: self.path.clone(), cmdline: clone_strings(&self.cmdline), name: self.name.clone() }
    }
}

impl Runtime {
    /// The executable of the runtime: the first element of the command line,
    /// joined to the runtime's directory.
    pub fn get_exec_path(&self) -> (r: String)
        requires
            self.cmdline@.len() > 0,
        ensures
            r@ == path_join_seq(self.path@, self.cmdline@[0]@),
    {
        path_join(self.path.as_str(), self.cmdline[0].as_str())
    }

    /// The full command that starts the runtime for `verb`: the executable
    /// followed by the rest of the command line, with `%verb%` replaced.
    pub fn get_full_command(&self, verb: RunVerb) -> (r: Vec<String>)
        requires
            self.cmdline@.len() > 0,
        ensures
            views(r@) == verb_command_seq(
                path_join_seq(self.path@, self.cmdline@[0]@),
                views(self.cmdline@).skip(1),
                verb,
            ),
    {
        let exec_path = self.get_exec_path();
        substitute_verb(exec_path, &self.cmdline, verb)
    }
}

} // verus!
