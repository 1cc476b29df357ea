use simple_steam_wrapper::compatibility_tools::compat_tool::{CompatTool, CompatToolType};
use simple_steam_wrapper::compatibility_tools::remote_compat_tools_provider::{
    assets_from_cache, assets_from_releases, remote_compat_tool_providers, AssetsByName, RemoteCompatToolsProvider,
};
use simple_steam_wrapper::compatibility_tools::updatable_compat_tool::{installed_version_file, UpdatableCompatTool};
use simple_steam_wrapper::dl_manager::dl_manager::find_first_supported_archive;
use simple_steam_wrapper::dl_manager::dl_manager_installer::extraction_plan;
use simple_steam_wrapper::dl_manager::downloadable_asset::DownloadableAsset;
use simple_steam_wrapper::dl_manager::github_api::{SimplifiedGithubAsset, SimplifiedGithubRelease};
use simple_steam_wrapper::dl_manager::remote_compat_tools::downloadable_compat_tools;
use simple_steam_wrapper::dl_manager::updatable_compat_tool::{installed_version_path, UpdatableCompatTool as DlUpdatable};
use simple_steam_wrapper::gui::dl_manager_gui::{asset_to_download, build_dl_assets_rows, compat_tool_to_delete, DownloadRow};
use simple_steam_wrapper::runner::compat_tools_wrapper::CompatTool as ListedTool;

fn asset(id: usize, name: &str, content_type: &str) -> SimplifiedGithubAsset {
    SimplifiedGithubAsset {
        id,
        name: name.to_string(),
        browser_download_url: format!("https://example.invalid/{}", name),
        content_type: content_type.to_string(),
        created_at: "2025-01-01T00:00:00Z".to_string(),
    }
}

fn release(assets: Vec<SimplifiedGithubAsset>) -> SimplifiedGithubRelease {
    SimplifiedGithubRelease {
        id: 1,
        name: "r".to_string(),
        tag_name: "t".to_string(),
        published_at: "2025-01-01T00:00:00Z".to_string(),
        assets,
    }
}

fn download(name: &str) -> DownloadableAsset {
    DownloadableAsset {
        display_name: name.to_string(),
        asset_name: name.to_string(),
        browser_download_url: format!("https://example.invalid/{}.tar.xz", name),
        content_type: "application/x-xz".to_string(),
        custom_folder: None,
    }
}

fn tool(name: &str) -> CompatTool {
    CompatTool {
        compat_type: CompatToolType::Proton,
        name: name.to_string(),
        dir_path: format!("/ct/{}", name),
        cmd_line: vec!["proton".to_string(), "%verb%".to_string()],
        required_runtime: None,
    }
}

#[test]
fn supported_archives_are_chosen() {
    let r = release(vec![
        asset(1, "sha512sum", "text/plain"),
        asset(2, "GE-Proton9-20.tar.gz", "application/gzip"),
        asset(3, "GE-Proton9-20-x.tar.xz", "application/x-xz"),
        asset(4, "GE-Proton9-20-b.tar.gz", "application/gzip"),
    ]);
    assert_eq!(find_first_supported_archive(&r).unwrap().id, 2);
    let unique: Vec<usize> = r.get_unique_assets().iter().map(|a| a.id).collect();
    assert_eq!(unique, vec![2, 4]);
    assert!(find_first_supported_archive(&release(vec![asset(1, "x", "text/plain")])).is_none());
    assert_eq!(r.assets[1].name_without_ext(), "GE-Proton9-20");
}

#[test]
fn downloadable_asset_from_release_asset() {
    let d = DownloadableAsset::from(&asset(7, "proton-cachyos-10.0-slr-x86_64.tar.xz", "application/x-xz"));
    assert_eq!(d.asset_name, "proton-cachyos-10");
    assert_eq!(d.display_name, d.asset_name);
    assert_eq!(d.content_type, "application/x-xz");
    assert!(d.custom_folder.is_none());
}

#[test]
fn assets_of_releases_in_order() {
    let rels = vec![
        release(vec![asset(1, "a.tar.gz", "application/gzip"), asset(2, "b.tar.xz", "application/x-xz")]),
        release(vec![asset(3, "c.tar.zst", "application/zstd")]),
    ];
    let names: Vec<String> = assets_from_releases(&rels).into_iter().map(|a| a.asset_name).collect();
    assert_eq!(names, vec!["a".to_string(), "c".to_string()]);
}

#[test]
fn assets_grouped_by_last_matching_variant() {
    let providers = remote_compat_tool_providers();
    assert_eq!(providers.len(), 2);
    let cachy = &providers[0];
    assert_eq!(cachy.remote_path, "CachyOS/proton-cachyos");
    let assets = vec![
        download("proton-cachyos-1-slr-x86_64_v3"),
        download("proton-cachyos-1-slr-x86_64"),
        download("proton-cachyos-2-slr-x86_64_v3"),
        download("other"),
    ];
    let groups = cachy.group_assets_by_variant(&assets);
    let v3: Vec<String> = groups.get("slr-x86_64_v3").unwrap().into_iter().map(|a| a.asset_name).collect();
    assert_eq!(v3, vec!["proton-cachyos-1-slr-x86_64_v3".to_string(), "proton-cachyos-2-slr-x86_64_v3".to_string()]);
    assert_eq!(groups.get("slr-x86_64").unwrap().len(), 1);
    assert!(groups.get("slr-x86_64_v2").is_none());
    let ge = &providers[1];
    assert_eq!(ge.group_assets_by_variant(&assets).get("").unwrap().len(), 4);
    let mut names = groups.names();
    names.sort();
    assert_eq!(names, vec!["slr-x86_64".to_string(), "slr-x86_64_v3".to_string()]);
}

#[test]
fn cache_returns_what_was_stored() {
    let provider = RemoteCompatToolsProvider {
        name: "GE-Proton".to_string(),
        remote_path: "GloriousEggroll/proton-ge-custom".to_string(),
        variants: vec![String::new()],
    };
    let mut cache = AssetsByName::new();
    assert!(provider.get_cache(&cache).is_none());
    provider.update_cache(&mut cache, vec![download("a")]);
    assert_eq!(provider.get_cache(&cache).unwrap()[0].asset_name, "a");
    provider.update_cache(&mut cache, vec![download("b"), download("c")]);
    assert_eq!(provider.get_cache(&cache).unwrap().len(), 2);
    assert!(assets_from_cache(&cache, "GloriousEggroll/proton-ge-custom", true).is_none());
    assert_eq!(assets_from_cache(&cache, "GloriousEggroll/proton-ge-custom", false).unwrap().len(), 2);
    assert!(assets_from_cache(&cache, "other", false).is_none());
}

#[test]
fn downloadable_tools_list() {
    let tools = downloadable_compat_tools();
    assert_eq!(tools[1].name, "GE-Proton");
    assert_eq!(tools[1].remote_path, "GloriousEggroll/proton");
}

#[test]
fn updatable_tool_and_version() {
    let tools = vec![tool("proton-cachyos-updatable")];
    assert_eq!(
        installed_version_file("proton-cachyos", &tools),
        Some("/ct/proton-cachyos-updatable/ssw_version".to_string())
    );
    assert_eq!(installed_version_file("GE-Proton", &tools), None);
    let t = UpdatableCompatTool::from_tool_name("proton-cachyos", "/s/compatibilitytools.d", Some(" 10.0-2 \n".to_string()));
    assert_eq!(t.name, "proton-cachyos-updatable");
    assert_eq!(t.path, "/s/compatibilitytools.d/proton-cachyos-updatable");
    assert_eq!(t.local_version, Some("10.0-2".to_string()));
    assert_eq!(t.display_name, "proton-cachyos-updatable (10.0-2)");
    let none = UpdatableCompatTool::from_tool_name("GE-Proton", "/s", None);
    assert_eq!(none.display_name, "GE-Proton-updatable (None)");
    let listed = vec![ListedTool { name: "GE-Proton-Updatable".to_string(), dir_path: "/ct/ge".to_string(), path: "/ct/ge/proton".to_string() }];
    assert_eq!(installed_version_path("GE-Proton", &listed), Some("/ct/ge/version".to_string()));
    let dl = DlUpdatable::from_tool_name("GE", "GE-Proton", Some("9-20\n".to_string()));
    assert_eq!(dl.local_version, Some("9-20".to_string()));
}

#[test]
fn download_rows_and_clicks() {
    let updatable = UpdatableCompatTool::from_tool_name("GE-Proton", "/s", None);
    let assets = vec![download("GE-Proton9-20"), download("GE-Proton9-19")];
    let installed = vec![tool("GE-Proton9-19")];
    let rows = build_dl_assets_rows(&updatable, &assets, &installed);
    assert_eq!(rows.len(), 3);
    assert!(rows[0].can_be_updated && !rows[0].already_downloaded && rows[0].id == 0);
    assert_eq!((rows[1].id, rows[1].already_downloaded), (1, false));
    assert_eq!((rows[2].id, rows[2].already_downloaded), (2, true));
    let update = asset_to_download(&rows[0], &assets, "/s/GE-Proton-updatable").unwrap();
    assert_eq!(update.asset_name, "GE-Proton9-20");
    assert_eq!(update.custom_folder, Some("/s/GE-Proton-updatable".to_string()));
    assert_eq!(asset_to_download(&rows[2], &assets, "/x").unwrap().asset_name, "GE-Proton9-19");
    let missing = DownloadRow { id: 9, already_downloaded: false, can_be_updated: false, display_name: String::new(), name: "nope".to_string() };
    assert!(asset_to_download(&missing, &assets, "/x").is_none());
    assert!(asset_to_download(&rows[0], &Vec::new(), "/x").is_none());
    assert_eq!(compat_tool_to_delete("GE-Proton9-19", &installed), Some("/ct/GE-Proton9-19".to_string()));
    assert_eq!(compat_tool_to_delete("nope", &installed), None);
}

#[test]
fn extraction_destination_and_marker() {
    let plain = extraction_plan(&download("GE-Proton9-20"), "/s/ct", "GE-Proton9-20").unwrap();
    assert!(plain.use_xz);
    assert_eq!(plain.destination, "/s/ct/GE-Proton9-20");
    assert!(plain.marker.is_none());
    let mut own = download("GE-Proton9-20");
    own.content_type = "application/gzip".to_string();
    own.custom_folder = Some("/s/ct/GE-Proton-updatable".to_string());
    let plan = extraction_plan(&own, "/s/ct", "ignored").unwrap();
    assert!(!plan.use_xz);
    assert_eq!(plan.destination, "/s/ct/GE-Proton-updatable");
    let marker = plan.marker.unwrap();
    assert_eq!(marker.version_file, "/s/ct/GE-Proton-updatable/ssw_ct_version");
    assert_eq!(marker.version, "GE-Proton9-20");
    assert_eq!(marker.declaration_file, "/s/ct/GE-Proton-updatable/compatibilitytool.vdf");
    assert!(marker.declaration.contains("\"GE-Proton-updatable\" // Internal name of this tool"));
    let mut root = download("x");
    root.custom_folder = Some("/".to_string());
    assert!(extraction_plan(&root, "/s/ct", "x").is_none());
}
