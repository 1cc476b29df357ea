//! The compatibility tools that Steam knows, kept until they are looked for
//! again.
use vstd::prelude::*;
use crate::compatibility_tools::compat_tool::{CompatTool, CompatToolView, clone_tools, tool_views};

verus! {

/// The Steam compatibility tools found so far.
pub struct SteamCompatToolsList {
    state: Vec<CompatTool>,
}

impl View for SteamCompatToolsList {
    type V = Seq<CompatToolView>;

    closed spec fn view(&self) -> Seq<CompatToolView> {
        tool_views(self.state@)
    }
}

impl SteamCompatToolsList {
    /// No tool found yet.
    pub fn new() -> (r: Self)
        ensures
            r@ == Seq::<CompatToolView>::empty(),
    {
        let r = SteamCompatToolsList { state: Vec::new() };
        assert(r@ =~= Seq::<CompatToolView>::empty());
        r
    }

    /// Keeps `compat_tools`, the tools just listed, as the tools found.
    pub fn refresh_list_internal(&mut self, compat_tools: Vec<CompatTool>)
        ensures
            final(self)@ == tool_views(compat_tools@),
    {
        self.state = compat_tools;
    }

    /// The tools kept.
    pub fn get_list_internal(&self) -> (r: Vec<CompatTool>)
        ensures
            tool_views(r@) == self@,
    {
        clone_tools(&self.state)
    }

    /// Lists the tools again with `list_compat_tools` and keeps them.
    pub fn refresh_list<F: FnOnce() -> Vec<CompatTool>>(&mut self, list_compat_tools: F)
        requires
            call_requires(list_compat_tools, ()),
        ensures
            exists|found: Vec<CompatTool>| call_ensures(list_compat_tools, (), found)
                && final(self)@ == tool_views(found@),
    {
        let found = list_compat_tools();
        self.refresh_list_internal(found);
    }

    /// The tools kept; when none is kept, lists them with
    /// `list_compat_tools` first and keeps what it finds.
    pub fn get_list<F: FnOnce() -> Vec<CompatTool>>(&mut self, list_compat_tools: F) -> (r: Vec<CompatTool>)
        requires
            call_requires(list_compat_tools, ()),
        ensures
            old(self)@.len() > 0 ==> final(self)@ == old(self)@,
            old(self)@.len() == 0 ==> exists|found: Vec<CompatTool>| call_ensures(list_compat_tools, (), found)
                && final(self)@ == tool_views(found@),
            tool_views(r@) == final(self)@,
    {
        if self.state.len() == 0 {
            self.refresh_list(list_compat_tools);
        }
        self.get_list_internal()
    }
}

} // verus!
