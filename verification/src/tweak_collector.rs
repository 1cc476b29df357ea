//! The command being prepared for a game, as the tweaks change it.
use vstd::prelude::*;
use crate::utils::text::views;

verus! {

/// The command being prepared: what goes before the entry point, and the
/// game's own arguments.
pub struct PreparedCommand {
    pub command_prefixes: Vec<String>,
    pub arguments: Vec<String>,
}

/// The abstract value of a prepared command.
pub struct PreparedCommandView {
    pub command_prefixes: Seq<Seq<char>>,
    pub arguments: Seq<Seq<char>>,
}

impl View for PreparedCommand {
    type V = PreparedCommandView;

    open spec fn view(&self) -> PreparedCommandView {
        PreparedCommandView { command_prefixes: views(self.command_prefixes@), arguments: views(self.arguments@) }
    }
}

impl PreparedCommand {
    /// A command with no prefix and the game's arguments `arguments`.
    pub fn new(arguments: Vec<String>) -> (r: Self)
        ensures
            r@.command_prefixes == Seq::<Seq<char>>::empty(),
            r@.arguments == views(arguments@),
    {
        let r = PreparedCommand { command_prefixes: Vec::new(), arguments };
        assert(r@.command_prefixes =~= Seq::<Seq<char>>::empty());
        r
    }
}

/// The order in which tweaks run: by increasing priority, and in their
/// listed order among equal priorities (`a` runs before `b`).
pub open spec fn runs_before(priorities: Seq<i32>, a: int, b: int) -> bool {
    priorities[a] < priorities[b] || (priorities[a] == priorities[b] && a < b)
}

/// `order` lists tweak indices in running order.
pub open spec fn in_running_order(priorities: Seq<i32>, order: Seq<usize>) -> bool {
    forall|x: int, y: int| 0 <= x < y < order.len() ==> runs_before(priorities, order[x] as int, order[y] as int)
}

/// Whether the tweak named `name` is enabled in `enabled_tweaks` (the
/// first entry for the name decides; a tweak without entry is disabled).
pub open spec fn tweak_enabled(enabled_tweaks: Seq<(Seq<char>, bool)>, name: Seq<char>) -> bool {
    crate::config::config::lookup(enabled_tweaks, name) == Some(true)
}

} // verus!
