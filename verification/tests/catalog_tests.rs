use voxel_launcher::catalog::{
    build_catalog, find_platform_version, local_scan_catalog, parse_sidecar, refresh_catalog,
    resolve_release, try_find, Release, ReleaseAsset, Version,
};
use voxel_launcher::codec::serialize_descriptor;
use voxel_launcher::config::LauncherConfig;
use voxel_launcher::descriptor::VersionData;
use voxel_launcher::paths::Platform;

fn asset(name: &str, url: &str) -> ReleaseAsset {
    ReleaseAsset { name: name.to_string(), browser_download_url: url.to_string() }
}

fn release(name: Option<&str>, assets: Vec<ReleaseAsset>, zipball: Option<&str>) -> Release {
    Release {
        name: name.map(|n| n.to_string()),
        assets,
        zipball_url: zipball.map(|z| z.to_string()),
    }
}

#[test]
fn sidecar_wins_over_everything() {
    let rel = release(
        Some("v20"),
        vec![asset("VoxelEngine.AppImage", "https://example.org/bin")],
        Some("https://example.org/zip"),
    );
    let sidecar = VersionData::Local {
        binary: "VoxelEngine.AppImage".to_string(),
        origin: Box::new(VersionData::GitLatest),
    };
    let v = resolve_release(&rel, Some(&sidecar), true, Platform::Unix).unwrap();
    assert_eq!(v.name, "v20");
    assert_eq!(v.data, sidecar);
}

#[test]
fn platform_binary_when_prebuilt_preferred() {
    let rel = release(
        Some("v20"),
        vec![
            asset("source.tar.gz", "https://example.org/src"),
            asset("VoxelEngine-win64.zip", "https://example.org/win"),
            asset("VoxelEngine.AppImage", "https://example.org/app"),
        ],
        Some("https://example.org/zip"),
    );
    let v = resolve_release(&rel, None, true, Platform::Unix).unwrap();
    assert_eq!(
        v.data,
        VersionData::Binary { url: "https://example.org/app".to_string(), unzip: false }
    );
    let v = resolve_release(&rel, None, true, Platform::Windows).unwrap();
    assert_eq!(
        v.data,
        VersionData::Binary { url: "https://example.org/win".to_string(), unzip: true }
    );
}

#[test]
fn source_archive_when_binaries_not_preferred() {
    let rel = release(
        Some("v20"),
        vec![asset("VoxelEngine.AppImage", "https://example.org/app")],
        Some("https://example.org/zip"),
    );
    let v = resolve_release(&rel, None, false, Platform::Unix).unwrap();
    assert_eq!(v.data, VersionData::Source { zipball_url: "https://example.org/zip".to_string() });
}

#[test]
fn source_archive_when_no_platform_asset() {
    let rel = release(
        Some("v20"),
        vec![asset("VoxelEngine-win64.zip", "https://example.org/win")],
        Some("https://example.org/zip"),
    );
    let v = resolve_release(&rel, None, true, Platform::Unix).unwrap();
    assert_eq!(v.data, VersionData::Source { zipball_url: "https://example.org/zip".to_string() });
}

#[test]
fn not_found_when_nothing_usable() {
    let rel = release(Some("v20"), vec![], None);
    let v = resolve_release(&rel, None, true, Platform::Unix).unwrap();
    assert_eq!(v.data, VersionData::NotFound);
}

#[test]
fn nameless_release_is_skipped() {
    let rel = release(None, vec![], Some("https://example.org/zip"));
    assert!(resolve_release(&rel, None, true, Platform::Unix).is_none());
}

#[test]
fn no_prebuilt_on_other_platforms() {
    let rel = release(
        Some("v20"),
        vec![
            asset("VoxelEngine-win64.zip", "https://example.org/win"),
            asset("VoxelEngine.AppImage", "https://example.org/app"),
        ],
        None,
    );
    let v = resolve_release(&rel, None, true, Platform::Other).unwrap();
    assert_eq!(v.data, VersionData::NotFound);
}

#[test]
fn find_platform_version_picks_first_match() {
    let assets = vec![
        asset("notes.txt", "https://example.org/notes"),
        asset("a-AppImage-build", "https://example.org/first"),
        asset("b.AppImage", "https://example.org/second"),
    ];
    assert_eq!(
        find_platform_version(&assets, Platform::Unix),
        Some("https://example.org/first".to_string())
    );
    assert_eq!(find_platform_version(&assets, Platform::Windows), None);
}

#[test]
fn refresh_prepends_synthetic_entry() {
    let rels = vec![
        release(Some("v20"), vec![], Some("https://example.org/z20")),
        release(None, vec![], None),
        release(Some("v19"), vec![], None),
    ];
    let sidecars = vec![None, None, None];
    let config = LauncherConfig::default();
    let catalog = refresh_catalog(&rels, &sidecars, &config, Platform::Unix);
    assert_eq!(catalog.len(), 3);
    assert_eq!(catalog[0].name, "Latest (Git)");
    assert_eq!(catalog[0].data, VersionData::GitLatest);
    assert_eq!(catalog[1].name, "v20");
    assert_eq!(
        catalog[1].data,
        VersionData::Source { zipball_url: "https://example.org/z20".to_string() }
    );
    assert_eq!(catalog[2].name, "v19");
    assert_eq!(catalog[2].data, VersionData::NotFound);
}

#[test]
fn refresh_twice_yields_equal_catalogs() {
    let rels = vec![
        release(Some("v20"), vec![asset("x.AppImage", "https://example.org/a")], None),
        release(Some("v19"), vec![], Some("https://example.org/z")),
    ];
    let sidecars = vec![None, Some(VersionData::GitLatest)];
    let config = LauncherConfig::default();
    let one = refresh_catalog(&rels, &sidecars, &config, Platform::Unix);
    let two = refresh_catalog(&rels, &sidecars, &config, Platform::Unix);
    assert_eq!(one.len(), two.len());
    for (a, b) in one.iter().zip(two.iter()) {
        assert_eq!(a.name, b.name);
        assert_eq!(a.data, b.data);
    }
    assert_eq!(one[0].data, VersionData::GitLatest);
}

#[test]
fn host_failure_falls_back_to_local_scan() {
    // The host query failed: the catalog equals the local-directory
    // scan results (only entries with a valid sidecar) plus the
    // synthetic tracking entry at index 0.
    let good = serialize_descriptor(&VersionData::Local {
        binary: "VoxelEngine.AppImage".to_string(),
        origin: Box::new(VersionData::Binary {
            url: "https://example.org/a".to_string(),
            unzip: false,
        }),
    });
    let names = vec!["v20".to_string(), "v19".to_string(), "v18".to_string()];
    let parsed = vec![
        parse_sidecar(Some(&good)),
        parse_sidecar(Some(&"half a sidecar".to_string())),
        parse_sidecar(None),
    ];
    let entries = local_scan_catalog(&names, parsed);
    let catalog = build_catalog(entries);
    assert_eq!(catalog.len(), 2);
    assert_eq!(catalog[0].name, "Latest (Git)");
    assert_eq!(catalog[0].data, VersionData::GitLatest);
    assert_eq!(catalog[1].name, "v20");
    assert!(matches!(&catalog[1].data, VersionData::Local { .. }));
}

#[test]
fn try_find_matches_by_name() {
    let catalog = vec![
        Version { name: "Latest (Git)".to_string(), data: VersionData::GitLatest },
        Version { name: "v20".to_string(), data: VersionData::NotFound },
    ];
    let found = try_find(&catalog, "v20").unwrap();
    assert_eq!(found.name, "v20");
    assert!(try_find(&catalog, "v21").is_none());
}

#[test]
fn empty_host_response_still_has_the_synthetic_entry() {
    let config = LauncherConfig::default();
    let catalog = refresh_catalog(&vec![], &vec![], &config, Platform::Unix);
    assert_eq!(catalog.len(), 1);
    assert_eq!(catalog[0].name, "Latest (Git)");
    assert_eq!(catalog[0].data, VersionData::GitLatest);
}

#[test]
fn try_find_picks_the_first_of_equal_names() {
    let catalog = vec![
        Version { name: "v20".to_string(), data: VersionData::GitLatest },
        Version { name: "v20".to_string(), data: VersionData::NotFound },
    ];
    let found = try_find(&catalog, "v20").unwrap();
    assert_eq!(found.data, VersionData::GitLatest);
}

#[test]
fn version_paths_follow_the_layout() {
    let v = Version { name: "v20".to_string(), data: VersionData::GitLatest };
    assert_eq!(v.path(), "versions/v20");
    assert_eq!(v.downloaded_path(Platform::Unix), "versions/v20/VoxelEngine.AppImage");
    assert_eq!(v.downloaded_path(Platform::Windows), "versions/v20/VoxelEngine.exe");
}
