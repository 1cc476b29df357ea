//! The compatibility tools found, kept until they are looked for again.
use vstd::prelude::*;
use crate::compatibility_tools::compat_tool::{CompatTool, CompatToolView, clone_tools, tool_views};

verus! {

/// The compatibility tools found so far.
pub struct CompatToolsList {
    state: Vec<CompatTool>,
}

impl View for CompatToolsList {
    type V = Seq<CompatToolView>;

    closed spec fn view(&self) -> Seq<CompatToolView> {
        tool_views(self.state@)
    }
}

impl CompatToolsList {
    /// No tool found yet.
    pub fn new() -> (r: Self)
        ensures
            r@ == Seq::<CompatToolView>::empty(),
    {
        let r = CompatToolsList { state: Vec::new() };
        assert(r@ =~= Seq::<CompatToolView>::empty());
        r
    }

    /// The tools kept.
    pub fn get_list_internal(&self) -> (r: Vec<CompatTool>)
        ensures
            tool_views(r@) == self@,
    {
        clone_tools(&self.state)
    }

    /// The tools kept; when none is kept, looks for them with
    /// `list_compat_tools` first and keeps what it finds.
    pub fn get<F: FnOnce() -> Vec<CompatTool>>(&mut self, list_compat_tools: F) -> (r: Vec<CompatTool>)
        requires
            call_requires(list_compat_tools, ()),
        ensures
            old(self)@.len() > 0 ==> final(self)@ == old(self)@,
            old(self)@.len() == 0 ==> exists|found: Vec<CompatTool>| call_ensures(list_compat_tools, (), found)
                && final(self)@ == tool_views(found@),
            tool_views(r@) == final(self)@,
    {
        if self.state.len() == 0 {
            let found = list_compat_tools();
            self.refresh(found);
        }
        self.get_list_internal()
    }

    /// Keeps `compat_tools` as the tools found.
    pub fn refresh(&mut self, compat_tools: Vec<CompatTool>)
        ensures
            final(self)@ == tool_views(compat_tools@),
    {
        self.state = compat_tools;
    }
}

} // verus!
