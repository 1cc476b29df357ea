//! Where compatibility tools are published, the archives found there grouped
//! by variant, and the archives already fetched.
use vstd::prelude::*;
use crate::dl_manager::downloadable_asset::{DownloadableAsset, DownloadableAssetView, downloadable_of};
use crate::dl_manager::github_api::{AssetView, SimplifiedGithubRelease, asset_views, assets_of_type, first_supported};
use crate::utils::keyed::{keyed_map, keys_distinct, lemma_keyed_map_absent, lemma_keyed_map_at, lemma_keyed_push, lemma_keyed_update};
use crate::utils::text::{contains_seq, str_contains, str_eq, to_string, views};

verus! {

/// The views of a list of downloadable archives.
pub open spec fn download_views(v: Seq<DownloadableAsset>) -> Seq<DownloadableAssetView> {
    v.map_values(|a: DownloadableAsset| a@)
}

/// A copy of a list of downloadable archives.
pub fn clone_downloads(v: &Vec<DownloadableAsset>) -> (r: Vec<DownloadableAsset>)
    ensures
        download_views(r@) == download_views(v@),
{
    let mut r: Vec<DownloadableAsset> = Vec::new();
    let mut i: usize = 0;
    while i < v.len()
        invariant
            i <= v.len(),
            download_views(r@) == download_views(v@).take(i as int),
        decreases v.len() - i,
    {
        let ghost before = download_views(r@);
        r.push(v[i].clone());
        assert(download_views(r@) =~= before.push(v@[i as int]@));
        assert(download_views(v@).take(i + 1) =~= download_views(v@).take(i as int).push(v@[i as int]@));
        i = i + 1;
    }
    assert(download_views(v@).take(i as int) =~= download_views(v@));
    r
}

/// The views of the entries of an `AssetsByName`.
pub open spec fn entry_views(v: Seq<(String, Vec<DownloadableAsset>)>) -> Seq<(Seq<char>, Seq<DownloadableAssetView>)> {
    v.map_values(|e: (String, Vec<DownloadableAsset>)| (e.0@, download_views(e.1@)))
}

/// Lists of downloadable archives filed under names.
pub struct AssetsByName {
    entries: Vec<(String, Vec<DownloadableAsset>)>,
}

impl View for AssetsByName {
    type V = Map<Seq<char>, Seq<DownloadableAssetView>>;

    closed spec fn view(&self) -> Map<Seq<char>, Seq<DownloadableAssetView>> {
        keyed_map(entry_views(self.entries@))
    }
}

impl AssetsByName {
    #[verifier::type_invariant]
    spec fn distinct(self) -> bool {
        keys_distinct(entry_views(self.entries@))
    }

    /// Nothing filed.
    pub fn new() -> (r: Self)
        ensures
            r@ == Map::<Seq<char>, Seq<DownloadableAssetView>>::empty(),
    {
        let r = AssetsByName { entries: Vec::new() };
        assert(r@ =~= Map::<Seq<char>, Seq<DownloadableAssetView>>::empty());
        r
    }

    /// The position of the entry named `name`.
    fn position(&self, name: &str) -> (r: Option<usize>)
        ensures
            r matches Some(i) ==> i < self.entries@.len() && entry_views(self.entries@)[i as int].0 == name@,
            r is None ==> forall|j: int| 0 <= j < self.entries@.len() ==> entry_views(self.entries@)[j].0 != name@,
    {
        let ghost ev = entry_views(self.entries@);
        let mut i: usize = 0;
        while i < self.entries.len()
            invariant
                ev == entry_views(self.entries@),
                i <= self.entries@.len(),
                forall|j: int| 0 <= j < i ==> ev[j].0 != name@,
            decreases self.entries.len() - i,
        {
            assert(ev[i as int].0 == self.entries@[i as int].0@);
            if str_eq(self.entries[i].0.as_str(), name) {
                return Some(i);
            }
            i = i + 1;
        }
        None
    }

    /// A copy of the archives filed under `name`.
    pub fn get(&self, name: &str) -> (r: Option<Vec<DownloadableAsset>>)
        ensures
            match r {
                Some(v) => self@.contains_key(name@) && self@[name@] == download_views(v@),
                None => !self@.contains_key(name@),
            },
    {
        proof {
            use_type_invariant(self);
        }
        let ghost ev = entry_views(self.entries@);
        match self.position(name) {
            Some(i) => {
                proof {
                    lemma_keyed_map_at(ev, i as int);
                }
                assert(ev[i as int].1 == download_views(self.entries@[i as int].1@));
                Some(clone_downloads(&self.entries[i].1))
            },
            None => {
                proof {
                    lemma_keyed_map_absent(ev, name@);
                }
                None
            },
        }
    }

    /// Files `values` under `name`, in place of what was filed there.
    pub fn insert(&mut self, name: String, values: Vec<DownloadableAsset>)
        ensures
            final(self)@ == old(self)@.insert(name@, download_views(values@)),
    {
        proof {
            use_type_invariant(&*self);
        }
        let ghost ev = entry_views(self.entries@);
        let ghost vv = download_views(values@);
        let found = self.position(name.as_str());
        let mut entries: Vec<(String, Vec<DownloadableAsset>)> = Vec::new();
        std::mem::swap(&mut entries, &mut self.entries);
        assert(entry_views(entries@) == ev);
        match found {
            Some(i) => {
                let ghost k = ev[i as int].0;
                proof {
                    lemma_keyed_update(ev, i as int, vv);
                }
                entries.set(i, (name, values));
                assert(entry_views(entries@) =~= ev.update(i as int, (k, vv)));
            },
            None => {
                let ghost k = name@;
                proof {
                    lemma_keyed_push(ev, k, vv);
                }
                entries.push((name, values));
                assert(entry_views(entries@) =~= ev.push((k, vv)));
            },
        }
        self.entries = entries;
    }

    /// Adds `asset` at the end of the archives filed under `name` (a new
    /// list when nothing is filed there).
    pub fn push(&mut self, name: &str, asset: DownloadableAsset)
        ensures
            final(self)@ == old(self)@.insert(
                name@,
                (if old(self)@.contains_key(name@) { old(self)@[name@] } else { Seq::empty() }).push(asset@),
            ),
    {
        let current = self.get(name);
        let mut values = match current {
            Some(v) => v,
            None => {
                let v: Vec<DownloadableAsset> = Vec::new();
                assert(download_views(v@) =~= Seq::<DownloadableAssetView>::empty());
                v
            },
        };
        let ghost before = download_views(values@);
        let ghost a = asset@;
        values.push(asset);
        assert(download_views(values@) =~= before.push(a));
        self.insert(to_string(name), values);
    }

    /// The names under which something is filed.
    pub fn names(&self) -> (r: Vec<String>)
        ensures
            forall|k: Seq<char>| self@.contains_key(k) <==> views(r@).contains(k),
    {
        proof {
            use_type_invariant(self);
        }
        let ghost ev = entry_views(self.entries@);
        let mut r: Vec<String> = Vec::new();
        let mut i: usize = 0;
        while i < self.entries.len()
            invariant
                ev == entry_views(self.entries@),
                i <= self.entries@.len(),
                views(r@) == ev.take(i as int).map_values(|e: (Seq<char>, Seq<DownloadableAssetView>)| e.0),
            decreases self.entries.len() - i,
        {
            let ghost before = views(r@);
            r.push(self.entries[i].0.clone());
            assert(views(r@) =~= before.push(ev[i as int].0));
            assert(ev.take(i + 1).map_values(|e: (Seq<char>, Seq<DownloadableAssetView>)| e.0)
                =~= ev.take(i as int).map_values(|e: (Seq<char>, Seq<DownloadableAssetView>)| e.0).push(ev[i as int].0));
            i = i + 1;
        }
        assert(ev.take(i as int) =~= ev);
        assert forall|k: Seq<char>| self@.contains_key(k) <==> views(r@).contains(k) by {
            if self@.contains_key(k) {
                let j = choose|j: int| 0 <= j < ev.len() && ev[j].0 == k;
                assert(views(r@)[j] == k);
            }
            if views(r@).contains(k) {
                let j = choose|j: int| 0 <= j < views(r@).len() && views(r@)[j] == k;
                assert(ev[j].0 == k);
            }
        }
        r
    }
}

/// A place where a compatibility tool is published: its name, its GitHub
/// repository and the variants of the tool that its archives are named
/// after.
pub struct RemoteCompatToolsProvider {
    pub name: String,
    pub remote_path: String,
    pub variants: Vec<String>,
}

/// The variant that an archive named `name` belongs to: the last of
/// `variants` that occurs in the name.
pub open spec fn chosen_variant(variants: Seq<Seq<char>>, name: Seq<char>) -> Option<Seq<char>>
    decreases variants.len(),
{
    if variants.len() == 0 {
        None
    } else if contains_seq(name, variants.last()) {
        Some(variants.last())
    } else {
        chosen_variant(variants.drop_last(), name)
    }
}

/// The archives grouped by variant: each archive, in order, goes at the end
/// of the group of its variant; an archive of no variant is left out.
pub open spec fn grouped(variants: Seq<Seq<char>>, assets: Seq<DownloadableAssetView>) -> Map<Seq<char>, Seq<DownloadableAssetView>>
    decreases assets.len(),
{
    if assets.len() == 0 {
        Map::empty()
    } else {
        let m = grouped(variants, assets.drop_last());
        match chosen_variant(variants, assets.last().asset_name) {
            Some(v) => m.insert(v, (if m.contains_key(v) { m[v] } else { Seq::empty() }).push(assets.last())),
            None => m,
        }
    }
}

/// The index of the variant of an archive named `name`.
fn chosen_variant_index(variants: &Vec<String>, name: &str) -> (r: Option<usize>)
    ensures
        match r {
            Some(k) => k < variants@.len() && chosen_variant(views(variants@), name@) == Some(variants@[k as int]@),
            None => chosen_variant(views(variants@), name@) is None,
        },
{
    let ghost vs = views(variants@);
    let mut k: usize = variants.len();
    assert(vs.take(k as int) =~= vs);
    while k > 0
        invariant
            vs == views(variants@),
            k <= variants@.len(),
            chosen_variant(vs.take(k as int), name@) == chosen_variant(vs, name@),
        decreases k,
    {
        assert(vs.take(k as int).last() == variants@[k - 1]@);
        assert(vs.take(k as int).drop_last() =~= vs.take(k - 1));
        if str_contains(name, variants[k - 1].as_str()) {
            return Some(k - 1);
        }
        k = k - 1;
    }
    None
}

/// The providers: name, repository and variants.
pub open spec fn provider_list() -> Seq<(Seq<char>, Seq<char>, Seq<Seq<char>>)> {
    seq![
        ("proton-cachyos"@, "CachyOS/proton-cachyos"@, seq!["slr-x86_64"@, "slr-x86_64_v2"@, "slr-x86_64_v3"@, "slr-x86_64_v4"@]),
        ("GE-Proton"@, "GloriousEggroll/proton-ge-custom"@, seq![""@]),
    ]
}

/// The places where compatibility tools are published.
pub fn remote_compat_tool_providers() -> (r: Vec<RemoteCompatToolsProvider>)
    ensures
        r@.map_values(|p: RemoteCompatToolsProvider| (p.name@, p.remote_path@, views(p.variants@))) == provider_list(),
{
    let r = vec![
        RemoteCompatToolsProvider {
            name: to_string("proton-cachyos"),
            remote_path: to_string("CachyOS/proton-cachyos"),
            variants: vec![to_string("slr-x86_64"), to_string("slr-x86_64_v2"), to_string("slr-x86_64_v3"), to_string("slr-x86_64_v4")],
        },
        RemoteCompatToolsProvider {
            name: to_string("GE-Proton"),
            remote_path: to_string("GloriousEggroll/proton-ge-custom"),
            variants: vec![to_string("")],
        },
    ];
    assert(views(r@[0].variants@) =~= provider_list()[0].2);
    assert(views(r@[1].variants@) =~= provider_list()[1].2);
    assert(r@.map_values(|p: RemoteCompatToolsProvider| (p.name@, p.remote_path@, views(p.variants@))) =~= provider_list());
    r
}

/// The unique archives of a release (see `get_unique_assets`).
pub open spec fn unique_assets_of(r: SimplifiedGithubRelease) -> Seq<AssetView> {
    let av = asset_views(r.assets@);
    assets_of_type(av, av[first_supported(av).unwrap()].content_type)
}

/// The downloadable archives of the releases, release after release.
pub open spec fn downloads_of(releases: Seq<SimplifiedGithubRelease>) -> Seq<DownloadableAssetView>
    decreases releases.len(),
{
    if releases.len() == 0 {
        Seq::empty()
    } else {
        downloads_of(releases.drop_last()) + unique_assets_of(releases.last()).map_values(|a: AssetView| downloadable_of(a))
    }
}

/// The downloadable archives of the releases of a tool: the unique assets
/// of each release, release after release. Each release must have an
/// archive that can be unpacked.
pub fn assets_from_releases(releases: &Vec<SimplifiedGithubRelease>) -> (r: Vec<DownloadableAsset>)
    requires
        forall|i: int| 0 <= i < releases@.len() ==> (#[trigger] first_supported(asset_views(releases@[i].assets@))) is Some,
    ensures
        download_views(r@) == downloads_of(releases@),
{
    let mut r: Vec<DownloadableAsset> = Vec::new();
    let mut i: usize = 0;
    assert(releases@.take(0) =~= Seq::<SimplifiedGithubRelease>::empty());
    while i < releases.len()
        invariant
            i <= releases@.len(),
            forall|j: int| 0 <= j < releases@.len() ==> (#[trigger] first_supported(asset_views(releases@[j].assets@))) is Some,
            download_views(r@) == downloads_of(releases@.take(i as int)),
        decreases releases.len() - i,
    {
        assert(releases@.take(i + 1).drop_last() =~= releases@.take(i as int));
        assert(releases@.take(i + 1).last() == releases@[i as int]);
        assert(first_supported(asset_views(releases@[i as int].assets@)) is Some);
        let unique = releases[i].get_unique_assets();
        let ghost start = download_views(r@);
        let ghost ua = unique_assets_of(releases@[i as int]);
        assert(asset_views(unique@) == ua);
        let mut k: usize = 0;
        while k < unique.len()
            invariant
                k <= unique@.len(),
                asset_views(unique@) == ua,
                download_views(r@) == start + ua.take(k as int).map_values(|a: AssetView| downloadable_of(a)),
            decreases unique.len() - k,
        {
            let ghost before = download_views(r@);
            let d = DownloadableAsset::from(&unique[k]);
            r.push(d);
            assert(ua[k as int] == unique@[k as int]@);
            assert(download_views(r@) =~= before.push(downloadable_of(ua[k as int])));
            assert(ua.take(k + 1).map_values(|a: AssetView| downloadable_of(a))
                =~= ua.take(k as int).map_values(|a: AssetView| downloadable_of(a)).push(downloadable_of(ua[k as int])));
            k = k + 1;
        }
        assert(ua.take(k as int) =~= ua);
        i = i + 1;
    }
    assert(releases@.take(i as int) =~= releases@);
    r
}

/// The archives already fetched for the repository `remote_path`, when
/// they may be used: never when a refresh is forced.
pub fn assets_from_cache(cache: &AssetsByName, remote_path: &str, force_refresh: bool) -> (r: Option<Vec<DownloadableAsset>>)
    ensures
        force_refresh ==> r is None,
        !force_refresh ==> match r {
            Some(v) => cache@.contains_key(remote_path@) && cache@[remote_path@] == download_views(v@),
            None => !cache@.contains_key(remote_path@),
        },
{
    if force_refresh {
        return None;
    }
    cache.get(remote_path)
}

impl RemoteCompatToolsProvider {
    /// The archives grouped by the variant they belong to (see
    /// `chosen_variant`).
    pub fn group_assets_by_variant(&self, assets: &Vec<DownloadableAsset>) -> (r: AssetsByName)
        ensures
            r@ == grouped(views(self.variants@), download_views(assets@)),
    {
        let ghost vs = views(self.variants@);
        let ghost av = download_views(assets@);
        let mut groups = AssetsByName::new();
        let mut i: usize = 0;
        assert(av.take(0) =~= Seq::<DownloadableAssetView>::empty());
        while i < assets.len()
            invariant
                vs == views(self.variants@),
                av == download_views(assets@),
                i <= assets@.len(),
                groups@ == grouped(vs, av.take(i as int)),
            decreases assets.len() - i,
        {
            assert(av.take(i + 1).drop_last() =~= av.take(i as int));
            assert(av.take(i + 1).last() == assets@[i as int]@);
            match chosen_variant_index(&self.variants, assets[i].asset_name.as_str()) {
                Some(k) => {
                    groups.push(self.variants[k].as_str(), assets[i].clone());
                },
                None => {},
            }
            i = i + 1;
        }
        assert(av.take(i as int) =~= av);
        groups
    }

    /// The archives already fetched for this provider's repository (see
    /// `assets_from_cache`).
    pub fn get_cache(&self, cache: &AssetsByName) -> (r: Option<Vec<DownloadableAsset>>)
        ensures
            match r {
                Some(v) => cache@.contains_key(self.remote_path@) && cache@[self.remote_path@] == download_views(v@),
                None => !cache@.contains_key(self.remote_path@),
            },
    {
        cache.get(self.remote_path.as_str())
    }

    /// Keeps `values` as the archives fetched for this provider's
    /// repository.
    pub fn update_cache(&self, cache: &mut AssetsByName, values: Vec<DownloadableAsset>)
        ensures
            final(cache)@ == old(cache)@.insert(self.remote_path@, download_views(values@)),
    {
        cache.insert(self.remote_path.clone(), values);
    }

}


/// Reading what was cached: after `update_cache` for a repository,
/// `get_cache` for it gives the archives stored, and the archives of other
/// repositories are unchanged.
pub proof fn lemma_update_then_get_cache(
    before: Map<Seq<char>, Seq<DownloadableAssetView>>,
    remote_path: Seq<char>,
    values: Seq<DownloadableAssetView>,
    other: Seq<char>,
)
    ensures
        before.insert(remote_path, values).contains_key(remote_path),
        before.insert(remote_path, values)[remote_path] == values,
        other != remote_path ==> before.insert(remote_path, values).contains_key(other) == before.contains_key(other),
        other != remote_path && before.contains_key(other) ==> before.insert(remote_path, values)[other] == before[other],
{
}

} // verus!
