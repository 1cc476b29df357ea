//! Steam's folders and files: where Steam is, the compatibility tools it
//! knows, and the declaration file of a compatibility tool.
use vstd::prelude::*;
use crate::compatibility_tools::compat_tool::path_exists;
use crate::runner::compat_tools_wrapper::{CompatTool, ListedToolView, listed_views};
use crate::steam::installed_steam_apps::{InstalledSteamApp, InstalledSteamAppView, InstalledSteamApps};
use crate::steam::vdf::{VdfEntry, VdfModel, VdfTree, entry_get, entry_str, lemma_same_tree_get, vdf_distinct, vdf_tree};
use crate::steam::vdf_text::{parse_vdf_text, vdf_text_model};
use crate::utils::text::{path_join, path_join_seq, replace_all, replace_seq, str_eq, str_starts_with, starts_with_seq, substring, to_string, views};

verus! {

/// The tools that were read, in order, leaving out those that could not be.
pub open spec fn read_tools(found: Seq<Option<ListedToolView>>) -> Seq<ListedToolView>
    decreases found.len(),
{
    if found.len() == 0 {
        Seq::empty()
    } else {
        let rest = read_tools(found.drop_last());
        match found.last() {
            Some(t) => rest.push(t),
            None => rest,
        }
    }
}

/// The views of the tools found.
pub open spec fn found_views(found: Seq<Option<CompatTool>>) -> Seq<Option<ListedToolView>> {
    found.map_values(|o: Option<CompatTool>| match o {
        Some(t) => Some(t@),
        None => None,
    })
}

/// Appends the tools that were read to `results`, in order.
fn push_read_tools(results: &mut Vec<CompatTool>, found: Vec<Option<CompatTool>>)
    ensures
        listed_views(final(results)@) == listed_views(old(results)@) + read_tools(found_views(found@)),
{
    let ghost start = listed_views(results@);
    let mut i: usize = 0;
    while i < found.len()
        invariant
            i <= found@.len(),
            listed_views(results@) == start + read_tools(found_views(found@).take(i as int)),
        decreases found.len() - i,
    {
        let ghost before = listed_views(results@);
        assert(found_views(found@).take(i + 1).drop_last() =~= found_views(found@).take(i as int));
        match &found[i] {
            Some(t) => {
                results.push(t.clone());
                assert(listed_views(results@) =~= before.push(t@));
            },
            None => {},
        }
        i = i + 1;
    }
    assert(found_views(found@).take(i as int) =~= found_views(found@));
}

/// The compatibility tools Steam knows: the tools read from the folders of
/// the compatibility tools folder (`folder_tools`, none where a folder
/// could not be read as a tool), then those read from the installed Steam
/// apps that are compatibility tools (`app_tools`), in order.
pub fn list_steam_compat_tools(folder_tools: Vec<Option<CompatTool>>, app_tools: Vec<Option<CompatTool>>) -> (r: Vec<CompatTool>)
    ensures
        listed_views(r@) == read_tools(found_views(folder_tools@)) + read_tools(found_views(app_tools@)),
{
    let mut results: Vec<CompatTool> = Vec::new();
    assert(listed_views(results@) =~= Seq::<ListedToolView>::empty());
    push_read_tools(&mut results, folder_tools);
    push_read_tools(&mut results, app_tools);
    assert(Seq::<ListedToolView>::empty() + read_tools(found_views(folder_tools@)) =~= read_tools(found_views(folder_tools@)));
    results
}

/// The ids of the Steam apps that are compatibility tools.
pub open spec fn valid_compat_app_ids() -> Seq<Seq<char>> {
    seq![
        "2230260"@, "2180100"@, "1493710"@, "3658110"@, "2805730"@, "2348590"@, "1887720"@,
        "1580130"@, "1420170"@, "1245040"@, "1113280"@, "1054830"@, "961940"@, "858280"@,
    ]
}

/// The ids of the Steam apps that are compatibility tools, in order.
pub fn steam_valid_compat_app_ids() -> (r: Vec<String>)
    ensures
        views(r@) == valid_compat_app_ids(),
{
    let r = vec![
        to_string("2230260"), to_string("2180100"), to_string("1493710"), to_string("3658110"),
        to_string("2805730"), to_string("2348590"), to_string("1887720"), to_string("1580130"),
        to_string("1420170"), to_string("1245040"), to_string("1113280"), to_string("1054830"),
        to_string("961940"), to_string("858280"),
    ];
    assert(views(r@) =~= valid_compat_app_ids());
    r
}

/// The places where Steam may be installed below the home directory, in
/// order.
pub open spec fn steam_path_candidates(home: Seq<char>) -> Seq<Seq<char>> {
    seq![path_join_seq(home, ".local/share/Steam"@), path_join_seq(home, ".steam/steam"@)]
}

/// The Steam folder: the first candidate below the home directory (`home`,
/// the value of `HOME`) that exists; none without a home directory.
pub fn get_steam_path(home: &Option<String>) -> (r: Option<String>)
    ensures
        home is None ==> r is None,
        r matches Some(p) ==> home matches Some(h) && steam_path_candidates(h@).contains(p@),
{
    let h = match home {
        Some(h) => h,
        None => return None,
    };
    let candidates = vec![path_join(h.as_str(), ".local/share/Steam"), path_join(h.as_str(), ".steam/steam")];
    assert(views(candidates@) =~= steam_path_candidates(h@));
    let exists = vec![path_exists(candidates[0].as_str()), path_exists(candidates[1].as_str())];
    let r = crate::command_helpers::first_existing(&candidates, &exists);
    r
}

/// The folder where Steam looks for extra compatibility tools.
pub fn get_steam_compat_tools_path(steam_path: &str) -> (r: String)
    ensures
        r@ == path_join_seq(steam_path@, "compatibilitytools.d"@),
{
    path_join(steam_path, "compatibilitytools.d")
}

/// The Steam Linux Runtime (sniper), if it is installed.
pub fn get_steam_sniper_runtime(apps: &InstalledSteamApps) -> (r: Option<InstalledSteamApp>)
    ensures
        match r {
            Some(a) => apps@.contains_key("1628350"@) && a@ == apps@["1628350"@],
            None => !apps@.contains_key("1628350"@),
        },
{
    match apps.get("1628350") {
        Some(a) => Some(a.clone()),
        None => None,
    }
}

/// The text of the entry `name` of `e`, if it is a value.
pub open spec fn entry_text(e: VdfModel, name: Seq<char>) -> Option<Seq<char>> {
    match entry_get(e, name) {
        Some(x) => entry_str(x),
        None => None,
    }
}

/// The command of a tool manifest (`toolmanifest.vdf`): its
/// `manifest.commandline` without the leading `/`; the empty text when
/// there is no command line or it does not start with `/`.
pub open spec fn manifest_command(manifest: VdfModel) -> Seq<char> {
    let line = match entry_text(manifest, "commandline"@) {
        Some(s) => s,
        None => Seq::empty(),
    };
    if starts_with_seq(line, "/"@) {
        line.skip(1)
    } else {
        Seq::empty()
    }
}

/// Reads the command from a tool manifest (`toolmanifest.vdf`, read as
/// `tool_manifest`). `None` when the file has no `manifest` entry, where a
/// lookup by index fails.
pub fn read_cmd_from_manifest(tool_manifest: &VdfEntry) -> (r: Option<String>)
    ensures
        match entry_get(tool_manifest@, "manifest"@) {
            Some(m) => r matches Some(s) && s@ == manifest_command(m),
            None => r is None,
        },
{
    let manifest = match tool_manifest.get("manifest") {
        Some(m) => m,
        None => return None,
    };
    let line: &str = match manifest.get("commandline") {
        Some(c) => match c.as_str() {
            Some(s) => s,
            None => "",
        },
        None => "",
    };
    proof {
        reveal_strlit("");
        reveal_strlit("/");
    }
    if str_starts_with(line, "/") {
        let n: usize = line.unicode_len();
        Some(substring(line, 1, n))
    } else {
        Some(String::new())
    }
}

/// The listed tool with display name `name`, directory `dir_path`, and the
/// executable at `cmd` (without its ` %verb%`) inside the directory.
pub open spec fn listed_tool(name: Seq<char>, dir_path: Seq<char>, cmd: Seq<char>) -> ListedToolView {
    ListedToolView {
        name: name,
        dir_path: dir_path,
        path: path_join_seq(dir_path, replace_seq(cmd, " %verb%"@, Seq::empty())),
    }
}

/// Builds a listed tool from its display name, its directory and its
/// manifest command.
pub fn listed_tool_from_parts(name: &str, dir_path: &str, cmd: &str) -> (r: CompatTool)
    ensures
        r@ == listed_tool(name@, dir_path@, cmd@),
{
    proof {
        reveal_strlit(" %verb%");
        reveal_strlit("");
    }
    assert(""@ =~= Seq::<char>::empty());
    let exe = replace_all(cmd, " %verb%", "");
    CompatTool { name: to_string(name), dir_path: to_string(dir_path), path: path_join(dir_path, exe.as_str()) }
}

/// The compatibility tool of an installed Steam app, from the app and its
/// tool manifest. `None` when the manifest has no `manifest` entry.
pub fn parse_steam_compat_tool_from_app(app: &InstalledSteamApp, tool_manifest: &VdfEntry) -> (r: Option<CompatTool>)
    ensures
        match entry_get(tool_manifest@, "manifest"@) {
            Some(m) => r matches Some(t) && t@ == listed_tool(app.name@, app.path@, manifest_command(m)),
            None => r is None,
        },
{
    let cmd = read_cmd_from_manifest(tool_manifest)?;
    Some(listed_tool_from_parts(app.name.as_str(), app.path.as_str(), cmd.as_str()))
}

/// The apps of `ids` present in `apps`, in the order of `ids`.
pub open spec fn present_apps(ids: Seq<Seq<char>>, apps: Map<Seq<char>, InstalledSteamAppView>) -> Seq<InstalledSteamAppView>
    decreases ids.len(),
{
    if ids.len() == 0 {
        Seq::empty()
    } else {
        let rest = present_apps(ids.drop_last(), apps);
        if apps.contains_key(ids.last()) {
            rest.push(apps[ids.last()])
        } else {
            rest
        }
    }
}

/// The installed apps that are compatibility tools, in the order of
/// `valid_compat_app_ids`.
pub fn installed_compat_tool_apps(apps: &InstalledSteamApps) -> (r: Vec<InstalledSteamApp>)
    ensures
        r@.map_values(|a: InstalledSteamApp| a@) == present_apps(valid_compat_app_ids(), apps@),
{
    let ids = steam_valid_compat_app_ids();
    let mut r: Vec<InstalledSteamApp> = Vec::new();
    let mut i: usize = 0;
    while i < ids.len()
        invariant
            views(ids@) == valid_compat_app_ids(),
            i <= ids.len(),
            r@.map_values(|a: InstalledSteamApp| a@) == present_apps(views(ids@).take(i as int), apps@),
        decreases ids.len() - i,
    {
        let ghost before = r@.map_values(|a: InstalledSteamApp| a@);
        assert(views(ids@).take(i + 1).drop_last() =~= views(ids@).take(i as int));
        assert(views(ids@).take(i + 1).last() == ids@[i as int]@);
        match apps.get(ids[i].as_str()) {
            Some(a) => {
                r.push(a.clone());
                assert(r@.map_values(|a: InstalledSteamApp| a@) =~= before.push(a@));
            },
            None => {},
        }
        i = i + 1;
    }
    assert(views(ids@).take(i as int) =~= views(ids@));
    r
}


/// The lowercase form of `s`, as `str::to_lowercase` computes it.
pub uninterp spec fn lowercase(s: Seq<char>) -> Seq<char>;

/// `str::to_lowercase`: the lowercase form of `s` by the Unicode case
/// mappings. Its result is given the name `lowercase`; nothing more is
/// stated of it here.
#[verifier::external_body]
fn to_lowercase(s: &str) -> (r: String)
    ensures
        r@ == lowercase(s@),
{
    s.to_lowercase()
}

/// Whether a lowercased `from_oslist` names Windows.
pub fn is_windows_os_list(lowered: &str) -> (r: bool)
    ensures
        r == (lowered@ == "windows"@),
{
    str_eq(lowered, "windows")
}

/// Why no command was read from the text of a tool manifest.
#[derive(Debug, Clone, Copy, PartialEq, Eq, Structural)]
pub enum ManifestError {
    /// The text is not a Valve data file.
    Unreadable,
    /// The file has no `manifest` entry (where a lookup by index fails).
    NoManifest,
}

/// `r` is the command read from the tool manifest `tool_manifest` (see
/// `read_cmd_from_manifest`).
pub open spec fn manifest_read(tool_manifest: VdfModel, r: Result<String, ManifestError>) -> bool {
    match entry_get(tool_manifest, "manifest"@) {
        Some(x) => r matches Ok(s) && s@ == manifest_command(x),
        None => r matches Err(ManifestError::NoManifest),
    }
}

/// The command of a tool manifest depends only on what the manifest holds,
/// not on the order of the entries of its tables: two manifests holding the
/// same, each name of a table once, give the same command, or both none.
pub proof fn lemma_manifest_read_order_free(a: VdfModel, b: VdfModel, r: Result<String, ManifestError>)
    requires
        vdf_distinct(a),
        vdf_distinct(b),
        vdf_tree(a) == vdf_tree(b),
    ensures
        manifest_read(a, r) <==> manifest_read(b, r),
{
    lemma_same_tree_get(a, b, "manifest"@);
    if let Some(x) = entry_get(a, "manifest"@) {
        let y = entry_get(b, "manifest"@).unwrap();
        lemma_same_tree_get(x, y, "commandline"@);
        if let Some(c) = entry_get(x, "commandline"@) {
            let d = entry_get(y, "commandline"@).unwrap();
            lemma_same_tree_get(c, d, "commandline"@);
        }
        assert(manifest_command(x) == manifest_command(y));
    }
}

/// Reads the command from the text of a tool manifest
/// (`toolmanifest.vdf`): the command of what `vdf_reader` reads from the
/// text (see `read_cmd_from_manifest`; by
/// `lemma_manifest_read_order_free` the order in which the tables' entries
/// come makes no difference).
pub fn read_cmd_from_manifest_text(text: &str) -> (r: Result<String, ManifestError>)
    ensures
        vdf_text_model(text@) is None <==> r matches Err(ManifestError::Unreadable),
        vdf_text_model(text@) matches Some(t) ==> exists|m: VdfModel|
            #![trigger vdf_tree(m)]
            vdf_tree(m) == VdfTree::Table(t) && vdf_distinct(m) && manifest_read(m, r),
{
    match parse_vdf_text(text) {
        None => Err(ManifestError::Unreadable),
        Some(entry) => {
            let r0 = read_cmd_from_manifest(&entry);
            let r = match r0 {
                Some(s) => Ok(s),
                None => Err(ManifestError::NoManifest),
            };
            assert(manifest_read(entry@, r));
            assert(vdf_tree(entry@) == VdfTree::Table(vdf_text_model(text@)->0));
            r
        },
    }
}

/// What the declaration of a compatibility tool (`compatibilitytool.vdf`)
/// says: where the tool is (before the path is made canonical) and its
/// display name, when it has one.
pub struct CompatToolDeclaration {
    pub install_dir: String,
    pub display_name: Option<String>,
}

/// Why a declaration was not accepted.
#[derive(Debug, Clone, Copy, PartialEq, Eq, Structural)]
pub enum CompatToolVdfError {
    /// The file declares no tool (where a lookup by index or an unwrap
    /// fails).
    Malformed,
    /// The tool does not run Windows programs.
    NotForWindows,
    /// The text is not a Valve data file.
    Unreadable,
}

/// The tool declared in a `compatibilitytool.vdf`: the first entry of
/// `compatibilitytools.compat_tools`.
pub open spec fn declared_tool(vdf: VdfModel) -> Option<VdfModel> {
    match entry_get(vdf, "compatibilitytools"@) {
        Some(ct) => match entry_get(ct, "compat_tools"@) {
            Some(VdfModel::Table(entries)) => if entries.len() > 0 {
                Some(entries[0].1)
            } else {
                None
            },
            _ => None,
        },
        None => None,
    }
}

/// The text of an entry, or the empty text when it is not a value.
pub open spec fn str_or_empty(e: VdfModel) -> Seq<char> {
    match entry_str(e) {
        Some(s) => s,
        None => Seq::empty(),
    }
}

/// A declared tool runs Windows programs: it has no `from_oslist`, or its
/// `from_oslist` is `windows` in any case.
pub open spec fn runs_windows_programs(data: VdfModel) -> bool {
    match entry_get(data, "from_oslist"@) {
        Some(os) => lowercase(str_or_empty(os)) == "windows"@,
        None => true,
    }
}

/// The directory of a declared tool: its `install_path` inside `tool_dir`.
pub open spec fn declared_install_dir(tool_dir: Seq<char>, data: VdfModel) -> Seq<char> {
    path_join_seq(tool_dir, match entry_text(data, "install_path"@) {
        Some(p) => p,
        None => Seq::empty(),
    })
}

/// The display name of a declared tool: its `display_name`, `Borken` when
/// that is not a value, none when there is no `display_name`.
pub open spec fn declared_display_name(data: VdfModel) -> Option<Seq<char>> {
    match entry_get(data, "display_name"@) {
        Some(d) => Some(match entry_str(d) {
            Some(s) => s,
            None => "Borken"@,
        }),
        None => None,
    }
}

/// `r` is what the declaration `vdf` of the compatibility tool in
/// `tool_dir` says.
pub open spec fn declaration_read(tool_dir: Seq<char>, vdf: VdfModel, r: Result<CompatToolDeclaration, CompatToolVdfError>) -> bool {
    match declared_tool(vdf) {
        None => r matches Err(CompatToolVdfError::Malformed),
        Some(d) => if !runs_windows_programs(d) {
            r matches Err(CompatToolVdfError::NotForWindows)
        } else {
            r matches Ok(decl) && decl.install_dir@ == declared_install_dir(tool_dir, d)
                && match decl.display_name {
                    Some(n) => declared_display_name(d) == Some(n@),
                    None => declared_display_name(d) is None,
                }
        },
    }
}

/// The tools of a declaration: the entries of
/// `compatibilitytools.compat_tools`, when it is a table.
pub open spec fn declared_tools(vdf: VdfModel) -> Option<Seq<(Seq<char>, VdfModel)>> {
    match entry_get(vdf, "compatibilitytools"@) {
        Some(ct) => match entry_get(ct, "compat_tools"@) {
            Some(VdfModel::Table(entries)) => Some(entries),
            _ => None,
        },
        None => None,
    }
}

/// Two tools holding the same, each name of a table once, are read alike.
proof fn lemma_tool_read_order_free(tool_dir: Seq<char>, d: VdfModel, e: VdfModel)
    requires
        vdf_distinct(d),
        vdf_distinct(e),
        vdf_tree(d) == vdf_tree(e),
    ensures
        runs_windows_programs(d) == runs_windows_programs(e),
        declared_install_dir(tool_dir, d) == declared_install_dir(tool_dir, e),
        declared_display_name(d) == declared_display_name(e),
{
    lemma_same_tree_get(d, e, "from_oslist"@);
    lemma_same_tree_get(d, e, "install_path"@);
    lemma_same_tree_get(d, e, "display_name"@);
    if let Some(x) = entry_get(d, "from_oslist"@) {
        lemma_same_tree_get(x, entry_get(e, "from_oslist"@).unwrap(), "from_oslist"@);
    }
    if let Some(x) = entry_get(d, "install_path"@) {
        lemma_same_tree_get(x, entry_get(e, "install_path"@).unwrap(), "install_path"@);
    }
    if let Some(x) = entry_get(d, "display_name"@) {
        lemma_same_tree_get(x, entry_get(e, "display_name"@).unwrap(), "display_name"@);
    }
}

/// A declaration of at most one tool is read alike whatever the order of
/// the entries of its tables: two declarations holding the same, each name
/// of a table once, give the same result.
pub proof fn lemma_declaration_read_order_free(
    tool_dir: Seq<char>,
    a: VdfModel,
    b: VdfModel,
    r: Result<CompatToolDeclaration, CompatToolVdfError>,
)
    requires
        vdf_distinct(a),
        vdf_distinct(b),
        vdf_tree(a) == vdf_tree(b),
        declared_tools(a) matches Some(tools) ==> tools.len() <= 1,
    ensures
        declaration_read(tool_dir, a, r) <==> declaration_read(tool_dir, b, r),
{
    lemma_same_tree_get(a, b, "compatibilitytools"@);
    if let Some(ct) = entry_get(a, "compatibilitytools"@) {
        let cu = entry_get(b, "compatibilitytools"@).unwrap();
        lemma_same_tree_get(ct, cu, "compat_tools"@);
        if let Some(x) = entry_get(ct, "compat_tools"@) {
            let y = entry_get(cu, "compat_tools"@).unwrap();
            if let VdfModel::Table(ea) = x {
                let eb = y->Table_0;
                let ma = vdf_tree(x)->Table_0;
                let mb = vdf_tree(y)->Table_0;
                assert(ma == mb);
                if ea.len() > 0 {
                    crate::steam::vdf::lemma_table_tree_at(ea, 0);
                    assert(mb.contains_key(ea[0].0));
                    let j = choose|j: int| 0 <= j < eb.len() && eb[j].0 == ea[0].0;
                    assert(eb.len() > 0);
                    if eb.len() > 1 {
                        crate::steam::vdf::lemma_table_tree_at(eb, 1);
                        assert(ma.contains_key(eb[1].0));
                        let i = choose|i: int| 0 <= i < ea.len() && ea[i].0 == eb[1].0;
                        assert(i == 0);
                        crate::steam::vdf::lemma_table_tree_at(eb, 0);
                        assert(ma.contains_key(eb[0].0));
                        let i0 = choose|i: int| 0 <= i < ea.len() && ea[i].0 == eb[0].0;
                        assert(i0 == 0);
                        assert(false);
                    }
                    assert(j == 0);
                    crate::steam::vdf::lemma_table_tree_at(eb, 0);
                    assert(vdf_distinct(ea[0].1));
                    assert(vdf_distinct(eb[0].1));
                    lemma_tool_read_order_free(tool_dir, ea[0].1, eb[0].1);
                } else if eb.len() > 0 {
                    crate::steam::vdf::lemma_table_tree_at(eb, 0);
                    assert(ma.contains_key(eb[0].0));
                }
            }
        }
    }
}

/// Reads the declaration of the compatibility tool in `tool_dir` from its
/// `compatibilitytool.vdf` (read as `compat_tool_vdf`).
pub fn read_compat_tool_declaration(tool_dir: &str, compat_tool_vdf: &VdfEntry) -> (r: Result<CompatToolDeclaration, CompatToolVdfError>)
    ensures
        declaration_read(tool_dir@, compat_tool_vdf@, r),
{
    let ct = match compat_tool_vdf.get("compatibilitytools") {
        Some(c) => c,
        None => return Err(CompatToolVdfError::Malformed),
    };
    let tools = match ct.get("compat_tools") {
        Some(t) => t,
        None => return Err(CompatToolVdfError::Malformed),
    };
    let entries = match tools.as_table() {
        Some(e) => e,
        None => return Err(CompatToolVdfError::Malformed),
    };
    if entries.len() == 0 {
        return Err(CompatToolVdfError::Malformed);
    }
    let data = &entries[0].1;
    proof {
        reveal_strlit("");
        assert(""@ =~= Seq::<char>::empty());
    }
    match data.get("from_oslist") {
        Some(os) => {
            let text: &str = match os.as_str() {
                Some(s) => s,
                None => "",
            };
            let lowered = to_lowercase(text);
            if !is_windows_os_list(lowered.as_str()) {
                return Err(CompatToolVdfError::NotForWindows);
            }
        },
        None => {},
    }
    let install_path: &str = match data.get("install_path") {
        Some(p) => match p.as_str() {
            Some(s) => s,
            None => "",
        },
        None => "",
    };
    let display_name = match data.get("display_name") {
        Some(d) => match d.as_str() {
            Some(s) => Some(to_string(s)),
            None => Some(to_string("Borken")),
        },
        None => None,
    };
    Ok(CompatToolDeclaration { install_dir: path_join(tool_dir, install_path), display_name })
}

/// Reads the declaration of the compatibility tool in `tool_dir` from the
/// text of its `compatibilitytool.vdf`: the declaration of what `vdf_reader`
/// reads from the text (see `read_compat_tool_declaration`). Where the file
/// declares several tools, the one read is the first that `vdf_reader`'s
/// hash map hands out; with at most one, the order makes no difference
/// (`lemma_declaration_read_order_free`).
pub fn read_compat_tool_declaration_text(tool_dir: &str, text: &str) -> (r: Result<CompatToolDeclaration, CompatToolVdfError>)
    ensures
        vdf_text_model(text@) is None <==> r matches Err(CompatToolVdfError::Unreadable),
        vdf_text_model(text@) matches Some(t) ==> exists|m: VdfModel|
            #![trigger vdf_tree(m)]
            vdf_tree(m) == VdfTree::Table(t) && vdf_distinct(m) && declaration_read(tool_dir@, m, r),
{
    match parse_vdf_text(text) {
        None => Err(CompatToolVdfError::Unreadable),
        Some(entry) => {
            let r = read_compat_tool_declaration(tool_dir, &entry);
            assert(declaration_read(tool_dir@, entry@, r));
            assert(vdf_tree(entry@) == VdfTree::Table(vdf_text_model(text@)->0));
            r
        },
    }
}

/// The beginning of a compatibility tool declaration, up to the tool's
/// internal name.
pub const VDF_TEMPLATE_HEAD: &'static str = r#""compatibilitytools"
{
  "compat_tools"
  {
    ""#;

/// The part of a compatibility tool declaration between the internal name
/// and the display name.
pub const VDF_TEMPLATE_MIDDLE: &'static str = r#"" // Internal name of this tool
    {
      // Can register this tool with Steam in two ways:
      //
      // - The tool can be placed as a subdirectory in compatibilitytools.d, in which case this
      //   should be '.'
      //
      // - This manifest can be placed directly in compatibilitytools.d, in which case this should
      //   be the relative or absolute path to the tool's dist directory.
      "install_path" "."

      // For this template, we're going to substitute the display_name key in here, e.g.:
      "display_name" ""#;

/// The end of a compatibility tool declaration, after the display name.
pub const VDF_TEMPLATE_TAIL: &'static str = r#""

      "from_oslist"  "windows"
      "to_oslist"    "linux"
    }
  }
}
"#;

/// The declaration (`compatibilitytool.vdf`) of a compatibility tool kept
/// in its own subdirectory of `compatibilitytools.d`, with internal name
/// `compat_tool_name` and display name `display_name`, for running Windows
/// programs on Linux.
pub fn create_compatibility_tool_vdf(compat_tool_name: &str, display_name: &str) -> (r: String)
    ensures
        r@ == VDF_TEMPLATE_HEAD@ + compat_tool_name@ + VDF_TEMPLATE_MIDDLE@ + display_name@ + VDF_TEMPLATE_TAIL@,
{
    let mut r = String::new();
    r.append(VDF_TEMPLATE_HEAD);
    r.append(compat_tool_name);
    r.append(VDF_TEMPLATE_MIDDLE);
    r.append(display_name);
    r.append(VDF_TEMPLATE_TAIL);
    r
}

} // verus!
