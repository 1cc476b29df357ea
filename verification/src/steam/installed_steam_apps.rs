//! The Steam apps installed in the Steam libraries, keyed by app id.
use vstd::prelude::*;
use crate::steam::vdf::{VdfEntry, VdfModel, entry_get, entry_str, table_models};
use crate::utils::text::{concat, path_join, path_join_seq, str_eq, to_string};

verus! {

/// An installed Steam app: its id, its name and its install directory.
pub struct InstalledSteamApp {
    pub id: String,
    pub name: String,
    pub path: String,
}

/// The abstract value of an installed app.
pub struct InstalledSteamAppView {
    pub id: Seq<char>,
    pub name: Seq<char>,
    pub path: Seq<char>,
}

impl View for InstalledSteamApp {
    type V = InstalledSteamAppView;

    open spec fn view(&self) -> InstalledSteamAppView {
        InstalledSteamAppView { id: self.id@, name: self.name@, path: self.path@ }
    }
}

impl Clone for InstalledSteamApp {
    fn clone(&self) -> (r: Self)
        ensures
            r@ == self@,
    {
        InstalledSteamApp { id: self.id.clone(), name: self.name.clone(), path: self.path.clone() }
    }
}

/// The views of a list of apps.
pub open spec fn app_views(v: Seq<InstalledSteamApp>) -> Seq<InstalledSteamAppView> {
    v.map_values(|a: InstalledSteamApp| a@)
}

/// No two apps of `s` have the same id.
pub open spec fn ids_distinct(s: Seq<InstalledSteamAppView>) -> bool {
    forall|i: int, j: int| 0 <= i < s.len() && 0 <= j < s.len() && i != j ==> s[i].id != s[j].id
}

/// The apps of `s` keyed by their ids.
pub open spec fn apps_map(s: Seq<InstalledSteamAppView>) -> Map<Seq<char>, InstalledSteamAppView> {
    Map::new(
        |k: Seq<char>| exists|i: int| 0 <= i < s.len() && s[i].id == k,
        |k: Seq<char>| s[choose|i: int| 0 <= i < s.len() && s[i].id == k],
    )
}

/// In a list with distinct ids, the map holds each app under its id.
pub proof fn lemma_apps_map_at(s: Seq<InstalledSteamAppView>, i: int)
    requires
        ids_distinct(s),
        0 <= i < s.len(),
    ensures
        apps_map(s).contains_key(s[i].id),
        apps_map(s)[s[i].id] == s[i],
{
    let k = s[i].id;
    assert(exists|j: int| 0 <= j < s.len() && s[j].id == k);
    let c = choose|j: int| 0 <= j < s.len() && s[j].id == k;
    assert(c == i);
}

/// The installed apps, keyed by app id (a later app replaces an earlier one
/// with the same id).
pub struct InstalledSteamApps {
    apps: Vec<InstalledSteamApp>,
}

impl View for InstalledSteamApps {
    type V = Map<Seq<char>, InstalledSteamAppView>;

    closed spec fn view(&self) -> Map<Seq<char>, InstalledSteamAppView> {
        apps_map(app_views(self.apps@))
    }
}

impl InstalledSteamApps {
    #[verifier::type_invariant]
    spec fn distinct(self) -> bool {
        ids_distinct(app_views(self.apps@))
    }

    /// No app.
    pub fn new() -> (r: Self)
        ensures
            r@ == Map::<Seq<char>, InstalledSteamAppView>::empty(),
    {
        let r = InstalledSteamApps { apps: Vec::new() };
        assert(r@ =~= Map::<Seq<char>, InstalledSteamAppView>::empty());
        r
    }

    /// The position of the app with id `id`.
    fn position(&self, id: &str) -> (r: Option<usize>)
        ensures
            r matches Some(i) ==> i < self.apps@.len() && self.apps@[i as int].id@ == id@,
            r is None ==> forall|j: int| 0 <= j < self.apps@.len() ==> self.apps@[j].id@ != id@,
    {
        let mut i: usize = 0;
        while i < self.apps.len()
            invariant
                i <= self.apps@.len(),
                forall|j: int| 0 <= j < i ==> self.apps@[j].id@ != id@,
            decreases self.apps.len() - i,
        {
            if str_eq(self.apps[i].id.as_str(), id) {
                return Some(i);
            }
            i = i + 1;
        }
        None
    }

    /// The app with id `id`.
    pub fn get(&self, id: &str) -> (r: Option<&InstalledSteamApp>)
        ensures
            match r {
                Some(a) => self@.contains_key(id@) && self@[id@] == a@,
                None => !self@.contains_key(id@),
            },
    {
        proof {
            use_type_invariant(self);
        }
        let ghost s = app_views(self.apps@);
        match self.position(id) {
            Some(i) => {
                proof {
                    lemma_apps_map_at(s, i as int);
                }
                Some(&self.apps[i])
            },
            None => {
                assert(!self@.contains_key(id@)) by {
                    if exists|j: int| 0 <= j < s.len() && s[j].id == id@ {
                        let j = choose|j: int| 0 <= j < s.len() && s[j].id == id@;
                        assert(self.apps@[j].id@ != id@);
                    }
                }
                None
            },
        }
    }

    /// Adds `app` under its id, replacing the app that had that id.
    pub fn insert(&mut self, app: InstalledSteamApp)
        ensures
            final(self)@ == old(self)@.insert(app.id@, app@),
    {
        proof {
            use_type_invariant(&*self);
        }
        let ghost s = app_views(self.apps@);
        let ghost a = app@;
        let found = self.position(app.id.as_str());
        let mut v: Vec<InstalledSteamApp> = Vec::new();
        std::mem::swap(&mut v, &mut self.apps);
        assert(app_views(v@) == s);
        match found {
            Some(i) => {
                let ghost t = s.update(i as int, a);
                assert(s[i as int].id == a.id);
                assert(ids_distinct(t)) by {
                    assert forall|p: int, q: int| 0 <= p < t.len() && 0 <= q < t.len() && p != q implies t[p].id != t[q].id by {
                        if p == i {
                            assert(t[p].id == s[p].id);
                        } else if q == i {
                            assert(t[q].id == s[q].id);
                        }
                    }
                }
                v.set(i, app);
                assert(app_views(v@) =~= t);
                self.apps = v;
                proof {
                    self.lemma_replaced(s, t, i as int, a);
                }
            },
            None => {
                let ghost t = s.push(a);
                assert(ids_distinct(t)) by {
                    assert forall|p: int, q: int| 0 <= p < t.len() && 0 <= q < t.len() && p != q implies t[p].id != t[q].id by {
                        if p == s.len() {
                            assert(v@[q].id@ == s[q].id);
                        } else if q == s.len() {
                            assert(v@[p].id@ == s[p].id);
                        }
                    }
                }
                v.push(app);
                assert(app_views(v@) =~= t);
                self.apps = v;
                proof {
                    self.lemma_pushed(s, t, a);
                }
            },
        }
    }

    /// Replacing the app at `i` by one with the same id inserts it.
    proof fn lemma_replaced(&self, s: Seq<InstalledSteamAppView>, t: Seq<InstalledSteamAppView>, i: int, a: InstalledSteamAppView)
        requires
            ids_distinct(s),
            0 <= i < s.len(),
            s[i].id == a.id,
            t == s.update(i, a),
            ids_distinct(t),
        ensures
            apps_map(t) == apps_map(s).insert(a.id, a),
    {
        lemma_apps_map_at(t, i);
        assert forall|k: Seq<char>| #[trigger] apps_map(t).contains_key(k) <==> apps_map(s).insert(a.id, a).contains_key(k) by {
            if exists|j: int| 0 <= j < s.len() && s[j].id == k {
                let j = choose|j: int| 0 <= j < s.len() && s[j].id == k;
                assert(t[j].id == k);
            }
            if exists|j: int| 0 <= j < t.len() && t[j].id == k {
                let j = choose|j: int| 0 <= j < t.len() && t[j].id == k;
                assert(s[j].id == k);
            }
        }
        assert forall|k: Seq<char>| apps_map(t).contains_key(k) implies #[trigger] apps_map(t)[k] == apps_map(s).insert(a.id, a)[k] by {
            if k != a.id {
                let j = choose|j: int| 0 <= j < t.len() && t[j].id == k;
                assert(j != i);
                lemma_apps_map_at(t, j);
                lemma_apps_map_at(s, j);
            }
        }
        assert(apps_map(t) =~= apps_map(s).insert(a.id, a));
    }

    /// Appending an app with a new id inserts it.
    proof fn lemma_pushed(&self, s: Seq<InstalledSteamAppView>, t: Seq<InstalledSteamAppView>, a: InstalledSteamAppView)
        requires
            ids_distinct(s),
            t == s.push(a),
            ids_distinct(t),
        ensures
            apps_map(t) == apps_map(s).insert(a.id, a),
    {
        lemma_apps_map_at(t, s.len() as int);
        assert forall|k: Seq<char>| #[trigger] apps_map(t).contains_key(k) <==> apps_map(s).insert(a.id, a).contains_key(k) by {
            if exists|j: int| 0 <= j < s.len() && s[j].id == k {
                let j = choose|j: int| 0 <= j < s.len() && s[j].id == k;
                assert(t[j].id == k);
            }
            if exists|j: int| 0 <= j < t.len() && t[j].id == k {
                let j = choose|j: int| 0 <= j < t.len() && t[j].id == k;
                if j < s.len() {
                    assert(s[j].id == k);
                }
            }
        }
        assert forall|k: Seq<char>| apps_map(t).contains_key(k) implies #[trigger] apps_map(t)[k] == apps_map(s).insert(a.id, a)[k] by {
            if k != a.id {
                let j = choose|j: int| 0 <= j < t.len() && t[j].id == k;
                assert(j < s.len());
                lemma_apps_map_at(t, j);
                lemma_apps_map_at(s, j);
            }
        }
        assert(apps_map(t) =~= apps_map(s).insert(a.id, a));
    }

    /// A copy of the apps.
    pub fn clone_apps(&self) -> (r: Self)
        ensures
            r@ == self@,
    {
        proof {
            use_type_invariant(self);
        }
        let mut v: Vec<InstalledSteamApp> = Vec::new();
        let mut i: usize = 0;
        while i < self.apps.len()
            invariant
                i <= self.apps@.len(),
                app_views(v@) == app_views(self.apps@).take(i as int),
            decreases self.apps.len() - i,
        {
            let ghost before = app_views(v@);
            v.push(self.apps[i].clone());
            assert(app_views(v@) =~= before.push(self.apps@[i as int]@));
            assert(app_views(self.apps@).take(i + 1) =~= app_views(self.apps@).take(i as int).push(self.apps@[i as int]@));
            i = i + 1;
        }
        assert(app_views(self.apps@).take(i as int) =~= app_views(self.apps@));
        InstalledSteamApps { apps: v }
    }
}

/// The installed apps as loaded: a copy of `loaded`.
pub fn get_installed_steam_apps(loaded: &InstalledSteamApps) -> (r: InstalledSteamApps)
    ensures
        r@ == loaded@,
{
    loaded.clone_apps()
}


/// Where the manifest of an app of a Steam library is: the library's
/// folder, the app's id and the manifest file.
pub struct AppManifestRef {
    pub library_path: String,
    pub app_id: String,
    pub manifest_path: String,
}

/// The abstract value of a manifest reference.
pub struct AppManifestRefView {
    pub library_path: Seq<char>,
    pub app_id: Seq<char>,
    pub manifest_path: Seq<char>,
}

impl View for AppManifestRef {
    type V = AppManifestRefView;

    open spec fn view(&self) -> AppManifestRefView {
        AppManifestRefView { library_path: self.library_path@, app_id: self.app_id@, manifest_path: self.manifest_path@ }
    }
}

/// The views of a list of manifest references.
pub open spec fn ref_views(v: Seq<AppManifestRef>) -> Seq<AppManifestRefView> {
    v.map_values(|r: AppManifestRef| r@)
}

/// The manifest of app `app_id` in the library at `library`.
pub open spec fn manifest_ref(library: Seq<char>, app_id: Seq<char>) -> AppManifestRefView {
    AppManifestRefView {
        library_path: library,
        app_id: app_id,
        manifest_path: path_join_seq(library, "steamapps/appmanifest_"@ + app_id + ".acf"@),
    }
}

/// The text of the entry `name` of `e`, if it is a value.
pub open spec fn text_of(e: VdfModel, name: Seq<char>) -> Option<Seq<char>> {
    match entry_get(e, name) {
        Some(x) => entry_str(x),
        None => None,
    }
}

/// The manifests of the apps of one library entry of
/// `libraryfolders.vdf`: one for each key of its `apps` table. None when
/// the entry has no `path` text or no `apps` table.
pub open spec fn library_refs(lib: VdfModel) -> Option<Seq<AppManifestRefView>> {
    match text_of(lib, "path"@) {
        Some(path) => match entry_get(lib, "apps"@) {
            Some(VdfModel::Table(apps)) => Some(apps.map_values(|e: (Seq<char>, VdfModel)| manifest_ref(path, e.0))),
            _ => None,
        },
        None => None,
    }
}

/// The manifests of the apps of all the libraries, library after library.
pub open spec fn libraries_refs(libs: Seq<(Seq<char>, VdfModel)>) -> Option<Seq<AppManifestRefView>>
    decreases libs.len(),
{
    if libs.len() == 0 {
        Some(Seq::empty())
    } else {
        match (libraries_refs(libs.drop_last()), library_refs(libs.last().1)) {
            (Some(a), Some(b)) => Some(a + b),
            _ => None,
        }
    }
}

/// The manifests of the installed apps listed in `libraryfolders.vdf`.
/// None when it has no `libraryfolders` table or a library lacks its path
/// or its apps (where the lookups by index and the unwraps fail).
pub open spec fn all_manifest_refs(library_vdf: VdfModel) -> Option<Seq<AppManifestRefView>> {
    match entry_get(library_vdf, "libraryfolders"@) {
        Some(VdfModel::Table(libs)) => libraries_refs(libs),
        _ => None,
    }
}

/// The manifests of the apps of one library entry.
fn library_manifest_refs(lib: &VdfEntry) -> (r: Option<Vec<AppManifestRef>>)
    ensures
        match r {
            Some(v) => library_refs(lib@) == Some(ref_views(v@)),
            None => library_refs(lib@) is None,
        },
{
    let path: &str = match lib.get("path") {
        Some(p) => match p.as_str() {
            Some(s) => s,
            None => return None,
        },
        None => return None,
    };
    let apps = match lib.get("apps") {
        Some(a) => match a.as_table() {
            Some(t) => t,
            None => return None,
        },
        None => return None,
    };
    let ghost am = table_models(apps@);
    let mut refs: Vec<AppManifestRef> = Vec::new();
    let mut i: usize = 0;
    while i < apps.len()
        invariant
            am == table_models(apps@),
            i <= apps.len(),
            ref_views(refs@) == am.take(i as int).map_values(|e: (Seq<char>, VdfModel)| manifest_ref(path@, e.0)),
        decreases apps.len() - i,
    {
        let id = &apps[i].0;
        let file = concat(concat("steamapps/appmanifest_", id.as_str()).as_str(), ".acf");
        let ghost before = ref_views(refs@);
        refs.push(AppManifestRef { library_path: to_string(path), app_id: id.clone(), manifest_path: path_join(path, file.as_str()) });
        assert(am[i as int].0 == id@);
        assert(ref_views(refs@) =~= before.push(manifest_ref(path@, id@)));
        assert(am.take(i + 1) =~= am.take(i as int).push(am[i as int]));
        i = i + 1;
    }
    assert(am.take(i as int) =~= am);
    Some(refs)
}

/// The manifests of the installed apps listed in `libraryfolders.vdf` (read
/// as `library_vdf`), in the order of its libraries and their apps.
pub fn app_manifest_refs(library_vdf: &VdfEntry) -> (r: Option<Vec<AppManifestRef>>)
    ensures
        match r {
            Some(v) => all_manifest_refs(library_vdf@) == Some(ref_views(v@)),
            None => all_manifest_refs(library_vdf@) is None,
        },
{
    let libs = match library_vdf.get("libraryfolders") {
        Some(l) => match l.as_table() {
            Some(t) => t,
            None => return None,
        },
        None => return None,
    };
    let ghost lm = table_models(libs@);
    let mut refs: Vec<AppManifestRef> = Vec::new();
    let mut i: usize = 0;
    assert(lm.take(0) =~= Seq::<(Seq<char>, VdfModel)>::empty());
    assert(all_manifest_refs(library_vdf@) == libraries_refs(lm));
    while i < libs.len()
        invariant
            all_manifest_refs(library_vdf@) == libraries_refs(lm),
            lm == table_models(libs@),
            i <= libs.len(),
            libraries_refs(lm.take(i as int)) == Some(ref_views(refs@)),
        decreases libs.len() - i,
    {
        assert(lm.take(i + 1).drop_last() =~= lm.take(i as int));
        assert(lm.take(i + 1).last() == lm[i as int]);
        assert(lm[i as int].1 == libs@[i as int].1@);
        match library_manifest_refs(&libs[i].1) {
            Some(more) => {
                let ghost before = ref_views(refs@);
                let mut k: usize = 0;
                while k < more.len()
                    invariant
                        k <= more.len(),
                        ref_views(refs@) == before + ref_views(more@).take(k as int),
                    decreases more.len() - k,
                {
                    let ghost b2 = ref_views(refs@);
                    let m = &more[k];
                    refs.push(AppManifestRef { library_path: m.library_path.clone(), app_id: m.app_id.clone(), manifest_path: m.manifest_path.clone() });
                    assert(ref_views(refs@) =~= b2.push(more@[k as int]@));
                    assert(ref_views(more@).take(k + 1) =~= ref_views(more@).take(k as int).push(more@[k as int]@));
                    k = k + 1;
                }
                assert(ref_views(more@).take(k as int) =~= ref_views(more@));
            },
            None => {
                assert(library_refs(lm[i as int].1) is None);
                assert(libraries_refs(lm.take(i + 1)) is None);
                proof {
                    lemma_refs_none(lm, i as int + 1, lm.len() as int);
                }
                assert(lm.take(lm.len() as int) =~= lm);
                return None;
            },
        }
        i = i + 1;
    }
    assert(lm.take(i as int) =~= lm);
    Some(refs)
}

/// Once a prefix of the libraries has no manifests, no longer prefix has.
proof fn lemma_refs_none(libs: Seq<(Seq<char>, VdfModel)>, k: int, n: int)
    requires
        0 <= k <= n <= libs.len(),
        libraries_refs(libs.take(k)) is None,
    ensures
        libraries_refs(libs.take(n)) is None,
    decreases n - k,
{
    if k < n {
        assert(libs.take(k + 1).drop_last() =~= libs.take(k));
        lemma_refs_none(libs, k + 1, n);
    }
}

/// The app that a manifest (`appmanifest_<id>.acf`) describes: its name and
/// its folder `steamapps/common/<installdir>` in the library. None when the
/// manifest has no `AppState` table, or it lacks a `name` or an
/// `installdir` text (where the unwraps fail).
pub open spec fn app_from_manifest(r: AppManifestRefView, manifest: VdfModel) -> Option<InstalledSteamAppView> {
    match entry_get(manifest, "AppState"@) {
        Some(root) => if root is Table {
            match (text_of(root, "name"@), text_of(root, "installdir"@)) {
                (Some(name), Some(dir)) => Some(InstalledSteamAppView {
                    id: r.app_id,
                    name: name,
                    path: path_join_seq(path_join_seq(path_join_seq(r.library_path, "steamapps"@), "common"@), dir),
                }),
                _ => None,
            }
        } else {
            None
        },
        None => None,
    }
}

/// The installed app that the manifest `manifest` of `r` describes.
pub fn installed_app_from_manifest(r: &AppManifestRef, manifest: &VdfEntry) -> (a: Option<InstalledSteamApp>)
    ensures
        match a {
            Some(app) => app_from_manifest(r@, manifest@) == Some(app@),
            None => app_from_manifest(r@, manifest@) is None,
        },
{
    let root = match manifest.get("AppState") {
        Some(x) => x,
        None => return None,
    };
    if root.as_table().is_none() {
        return None;
    }
    let name: &str = match root.get("name") {
        Some(n) => match n.as_str() {
            Some(s) => s,
            None => return None,
        },
        None => return None,
    };
    let dir: &str = match root.get("installdir") {
        Some(d) => match d.as_str() {
            Some(s) => s,
            None => return None,
        },
        None => return None,
    };
    let common = path_join(path_join(r.library_path.as_str(), "steamapps").as_str(), "common");
    Some(InstalledSteamApp { id: r.app_id.clone(), name: to_string(name), path: path_join(common.as_str(), dir) })
}

/// The views of the manifests as read: a reference and, when it could be
/// read, the manifest.
pub open spec fn read_views(v: Seq<(AppManifestRef, Option<VdfEntry>)>) -> Seq<(AppManifestRefView, Option<VdfModel>)> {
    v.map_values(|p: (AppManifestRef, Option<VdfEntry>)| (p.0@, match p.1 {
        Some(e) => Some(e@),
        None => None,
    }))
}

/// The installed apps from the manifests as read, in order: a manifest that
/// could not be read is passed over, a later app replaces an earlier one
/// with the same id. None when a manifest that was read describes no app.
pub open spec fn collect_apps(read: Seq<(AppManifestRefView, Option<VdfModel>)>) -> Option<Map<Seq<char>, InstalledSteamAppView>>
    decreases read.len(),
{
    if read.len() == 0 {
        Some(Map::empty())
    } else {
        match collect_apps(read.drop_last()) {
            Some(m) => match read.last().1 {
                Some(manifest) => match app_from_manifest(read.last().0, manifest) {
                    Some(a) => Some(m.insert(a.id, a)),
                    None => None,
                },
                None => Some(m),
            },
            None => None,
        }
    }
}

/// Once a prefix gives no apps, no longer prefix does.
proof fn lemma_collect_none(read: Seq<(AppManifestRefView, Option<VdfModel>)>, k: int, n: int)
    requires
        0 <= k <= n <= read.len(),
        collect_apps(read.take(k)) is None,
    ensures
        collect_apps(read.take(n)) is None,
    decreases n - k,
{
    if k < n {
        assert(read.take(k + 1).drop_last() =~= read.take(k));
        lemma_collect_none(read, k + 1, n);
    }
}

/// The installed apps, from the manifests of the apps of the Steam
/// libraries, each with the manifest read from its file (`None` where it
/// could not be read).
pub fn get_installed_steam_apps_inner(read: &Vec<(AppManifestRef, Option<VdfEntry>)>) -> (r: Option<InstalledSteamApps>)
    ensures
        match r {
            Some(apps) => collect_apps(read_views(read@)) == Some(apps@),
            None => collect_apps(read_views(read@)) is None,
        },
{
    let ghost rv = read_views(read@);
    let mut apps = InstalledSteamApps::new();
    let mut i: usize = 0;
    assert(rv.take(0) =~= Seq::<(AppManifestRefView, Option<VdfModel>)>::empty());
    while i < read.len()
        invariant
            rv == read_views(read@),
            i <= read.len(),
            collect_apps(rv.take(i as int)) == Some(apps@),
        decreases read.len() - i,
    {
        assert(rv.take(i + 1).drop_last() =~= rv.take(i as int));
        assert(rv.take(i + 1).last() == rv[i as int]);
        match &read[i].1 {
            Some(manifest) => {
                match installed_app_from_manifest(&read[i].0, manifest) {
                    Some(app) => {
                        apps.insert(app);
                    },
                    None => {
                        proof {
                            lemma_collect_none(rv, i as int + 1, rv.len() as int);
                        }
                        assert(rv.take(rv.len() as int) =~= rv);
                        return None;
                    },
                }
            },
            None => {},
        }
        i = i + 1;
    }
    assert(rv.take(i as int) =~= rv);
    Some(apps)
}


/// Reading what was written: after `insert` of an app, `get` of its id
/// gives that app, and `get` of any other id gives what it gave before.
pub proof fn lemma_insert_then_get(
    before: Map<Seq<char>, InstalledSteamAppView>,
    app: InstalledSteamAppView,
    other: Seq<char>,
)
    ensures
        before.insert(app.id, app).contains_key(app.id),
        before.insert(app.id, app)[app.id] == app,
        other != app.id ==> before.insert(app.id, app).contains_key(other) == before.contains_key(other),
        other != app.id && before.contains_key(other) ==> before.insert(app.id, app)[other] == before[other],
{
}

} // verus!
