//! The compatibility tools that can be downloaded.
use vstd::prelude::*;
use crate::utils::text::to_string;

verus! {

/// A compatibility tool published on GitHub: its name and its repository.
pub struct DownloadableCompatTool {
    pub name: String,
    pub remote_path: String,
}

/// The downloadable tools: (name, repository) in order.
pub open spec fn downloadable_tools() -> Seq<(Seq<char>, Seq<char>)> {
    seq![("proton-cachyos"@, "CachyOS/proton-cachyos"@), ("GE-Proton"@, "GloriousEggroll/proton"@)]
}

/// The compatibility tools that can be downloaded.
pub fn downloadable_compat_tools() -> (r: Vec<DownloadableCompatTool>)
    ensures
        r@.map_values(|t: DownloadableCompatTool| (t.name@, t.remote_path@)) == downloadable_tools(),
{
    let r = vec![
        DownloadableCompatTool { name: to_string("proton-cachyos"), remote_path: to_string("CachyOS/proton-cachyos") },
        DownloadableCompatTool { name: to_string("GE-Proton"), remote_path: to_string("GloriousEggroll/proton") },
    ];
    assert(r@.map_values(|t: DownloadableCompatTool| (t.name@, t.remote_path@)) =~= downloadable_tools());
    r
}

} // verus!
