use voxel_launcher::config::LauncherConfig;
use voxel_launcher::descriptor::VersionData;
use voxel_launcher::engine::{start, EngineAction, EngineEvent, Phase, Transition};
use voxel_launcher::paths::Platform;

fn config(build_unsupported: bool, download_lua: bool) -> LauncherConfig {
    LauncherConfig {
        dark_mode: true,
        build_unsupported,
        use_prebuilt_when_possible: true,
        download_lua,
        last_version: None,
    }
}

fn begin(
    name: &str,
    descriptor: &VersionData,
    platform: Platform,
    cfg: &LauncherConfig,
    force_refresh: bool,
) -> Transition {
    start(
        name.to_string(),
        descriptor,
        platform,
        cfg,
        "/home/user/.luajit".to_string(),
        force_refresh,
    )
}

#[test]
fn raw_binary_download_gets_executable_bit_on_unix() {
    // A Binary descriptor with unzip=false on a non-Windows target:
    // download, write, make executable at the expected path, persist,
    // launch -- in that order.
    let desc = VersionData::Binary { url: "https://example.org/bin".to_string(), unzip: false };
    let t = begin("v20", &desc, Platform::Unix, &config(true, false), false);
    assert_eq!(t.engine.phase, Phase::Downloading);
    assert!(matches!(&t.action, EngineAction::Download { url } if url == "https://example.org/bin"));

    let t = t.engine.step(EngineEvent::Success);
    assert_eq!(t.engine.phase, Phase::WritingBinary);
    assert!(
        matches!(&t.action, EngineAction::WriteFile { path } if path == "versions/v20/VoxelEngine.AppImage")
    );

    let t = t.engine.step(EngineEvent::Success);
    assert_eq!(t.engine.phase, Phase::SettingExecutable);
    assert!(
        matches!(&t.action, EngineAction::MakeExecutable { path } if path == "versions/v20/VoxelEngine.AppImage")
    );

    let t = t.engine.step(EngineEvent::Success);
    assert_eq!(t.engine.phase, Phase::Finishing);
    match &t.action {
        EngineAction::Persist { descriptor, sidecar, path } => {
            assert_eq!(path, "versions/v20/version.ron");
            match descriptor {
                VersionData::Local { binary, origin } => {
                    assert_eq!(binary, "VoxelEngine.AppImage");
                    assert_eq!(**origin, desc);
                },
                other => panic!("expected a Local descriptor, got {:?}", other),
            }
            assert_eq!(
                sidecar,
                "Local(binary:\"VoxelEngine.AppImage\",origin:Binary(url:\"https://example.org/bin\",unzip:false))"
            );
        },
        other => panic!("expected Persist, got {:?}", other),
    }

    let t = t.engine.step(EngineEvent::Success);
    assert_eq!(t.engine.phase, Phase::Launching);
    assert!(matches!(&t.action, EngineAction::Launch { binary, dir }
        if binary == "VoxelEngine.AppImage" && dir == "versions/v20"));

    let t = t.engine.step(EngineEvent::Success);
    assert_eq!(t.engine.phase, Phase::Done);
    assert!(matches!(t.action, EngineAction::Done));
}

#[test]
fn windows_raw_binary_needs_no_permission_step() {
    let desc = VersionData::Binary { url: "https://example.org/bin".to_string(), unzip: false };
    let t = begin("v20", &desc, Platform::Windows, &config(true, false), false);
    let t = t.engine.step(EngineEvent::Success);
    assert_eq!(t.engine.phase, Phase::WritingBinary);
    let t = t.engine.step(EngineEvent::Success);
    assert_eq!(t.engine.phase, Phase::Finishing);
}

#[test]
fn zipped_binary_is_unpacked() {
    let desc = VersionData::Binary { url: "https://example.org/win.zip".to_string(), unzip: true };
    let t = begin("v20", &desc, Platform::Windows, &config(true, false), false);
    let t = t.engine.step(EngineEvent::Success);
    assert_eq!(t.engine.phase, Phase::Unpacking);
    assert!(matches!(&t.action, EngineAction::Unpack { dir } if dir == "versions/v20"));
    let t = t.engine.step(EngineEvent::Success);
    assert_eq!(t.engine.phase, Phase::Finishing);
}

#[test]
fn legacy_source_versions_are_rejected() {
    // Release "v11" with a Source descriptor and build-unsupported
    // disallowed: the engine fails before any directory mutation.
    let desc = VersionData::Source { zipball_url: "https://example.org/z".to_string() };
    let t = begin("v11", &desc, Platform::Unix, &config(false, false), false);
    assert_eq!(t.engine.phase, Phase::Failed);
    match &t.action {
        EngineAction::Fail { message } => {
            assert_eq!(message, "Versions 0.11 and 0.12 are not supported by the launcher");
            assert!(message.contains("not supported by the launcher"));
        },
        other => panic!("expected Fail, got {:?}", other),
    }
}

#[test]
fn source_without_build_permission_is_rejected() {
    let desc = VersionData::Source { zipball_url: "https://example.org/z".to_string() };
    let t = begin("v15", &desc, Platform::Unix, &config(false, false), false);
    assert_eq!(t.engine.phase, Phase::Failed);
    assert!(matches!(&t.action, EngineAction::Fail { message }
        if message == "This version doesn't have prebuilt binaries for your platform"));
}

#[test]
fn git_latest_without_build_permission_is_rejected() {
    let t = begin("Latest (Git)", &VersionData::GitLatest, Platform::Unix, &config(false, false), false);
    assert_eq!(t.engine.phase, Phase::Failed);
    assert!(matches!(&t.action, EngineAction::Fail { message }
        if message == "This version has to be built from source"));
}

#[test]
fn not_found_is_an_error() {
    let t = begin("v20", &VersionData::NotFound, Platform::Unix, &config(true, false), false);
    assert_eq!(t.engine.phase, Phase::Failed);
    assert!(matches!(&t.action, EngineAction::Fail { message }
        if message == "Version files not found or it's not supported on your platform"));
}

#[test]
fn force_refresh_redoes_the_origin_strategy() {
    // Force refresh on a Local descriptor restores and re-executes
    // the origin strategy, and the descriptor persisted after success
    // wraps that same origin again, never double-wrapped.
    let origin = VersionData::Binary { url: "https://example.org/bin".to_string(), unzip: false };
    let desc = VersionData::Local {
        binary: "VoxelEngine.AppImage".to_string(),
        origin: Box::new(origin.clone()),
    };
    let t = begin("v20", &desc, Platform::Unix, &config(true, false), true);
    assert_eq!(t.engine.phase, Phase::Downloading);
    let t = t.engine.step(EngineEvent::Success);
    let t = t.engine.step(EngineEvent::Success);
    let t = t.engine.step(EngineEvent::Success);
    assert_eq!(t.engine.phase, Phase::Finishing);
    match &t.action {
        EngineAction::Persist { descriptor, .. } => match descriptor {
            VersionData::Local { origin: persisted_origin, .. } => {
                assert_eq!(**persisted_origin, origin);
                assert!(!matches!(**persisted_origin, VersionData::Local { .. }));
            },
            other => panic!("expected a Local descriptor, got {:?}", other),
        },
        other => panic!("expected Persist, got {:?}", other),
    }
}

#[test]
fn without_force_refresh_local_launches_directly() {
    let desc = VersionData::Local {
        binary: "VoxelEngine.AppImage".to_string(),
        origin: Box::new(VersionData::GitLatest),
    };
    let t = begin("v20", &desc, Platform::Unix, &config(true, false), false);
    assert_eq!(t.engine.phase, Phase::Launching);
    assert!(matches!(&t.action, EngineAction::Launch { binary, dir }
        if binary == "VoxelEngine.AppImage" && dir == "versions/v20"));
}

#[test]
fn git_latest_clones_then_builds() {
    let t = begin("Latest (Git)", &VersionData::GitLatest, Platform::Unix, &config(true, false), false);
    assert_eq!(t.engine.phase, Phase::CheckingSrc);
    assert!(matches!(&t.action, EngineAction::CheckExists { path }
        if path == "versions/Latest (Git)/src"));

    let t = t.engine.step(EngineEvent::Absent);
    assert_eq!(t.engine.phase, Phase::Cloning);
    match &t.action {
        EngineAction::RunCommand { program, args, dir } => {
            assert_eq!(program, "git");
            assert_eq!(
                args,
                &vec![
                    "clone".to_string(),
                    "https://github.com/MihailRis/VoxelEngine-Cpp".to_string(),
                    "versions/Latest (Git)".to_string(),
                ]
            );
            assert!(dir.is_none());
        },
        other => panic!("expected RunCommand, got {:?}", other),
    }

    let t = t.engine.step(EngineEvent::Success);
    assert_eq!(t.engine.phase, Phase::PreparingBuildDir);
    assert!(matches!(&t.action, EngineAction::PrepareBuildDir { dir, wipe }
        if dir == "versions/Latest (Git)/build" && !*wipe));

    let t = t.engine.step(EngineEvent::Success);
    assert_eq!(t.engine.phase, Phase::Configuring);
    assert!(matches!(&t.action, EngineAction::RunCommand { program, .. } if program == "cmake"));

    let t = t.engine.step(EngineEvent::Success);
    assert_eq!(t.engine.phase, Phase::Compiling);

    let t = t.engine.step(EngineEvent::Success);
    assert_eq!(t.engine.phase, Phase::Finishing);
    match &t.action {
        EngineAction::Persist { descriptor, .. } => match descriptor {
            VersionData::Local { binary, origin } => {
                assert_eq!(binary, "build/VoxelEngine");
                assert_eq!(**origin, VersionData::GitLatest);
            },
            other => panic!("expected a Local descriptor, got {:?}", other),
        },
        other => panic!("expected Persist, got {:?}", other),
    }
}

#[test]
fn source_build_finishes_with_the_build_output_path() {
    let desc = VersionData::Source { zipball_url: "https://example.org/z".to_string() };
    let t = begin("v15", &desc, Platform::Unix, &config(true, false), false);
    assert_eq!(t.engine.phase, Phase::Downloading);
    let t = t.engine.step(EngineEvent::Success);
    assert_eq!(t.engine.phase, Phase::Unpacking);
    let t = t.engine.step(EngineEvent::Success);
    assert_eq!(t.engine.phase, Phase::PreparingBuildDir);
    let t = t.engine.step(EngineEvent::Success);
    let t = t.engine.step(EngineEvent::Success);
    let t = t.engine.step(EngineEvent::Success);
    assert_eq!(t.engine.phase, Phase::Finishing);
    match &t.action {
        EngineAction::Persist { descriptor, .. } => match descriptor {
            VersionData::Local { binary, origin } => {
                assert_eq!(binary, "build/VoxelEngine");
                assert_eq!(**origin, desc);
            },
            other => panic!("expected a Local descriptor, got {:?}", other),
        },
        other => panic!("expected Persist, got {:?}", other),
    }
}

#[test]
fn pull_failure_downgrades_to_a_warning() {
    let t = begin("Latest (Git)", &VersionData::GitLatest, Platform::Unix, &config(true, false), false);
    let t = t.engine.step(EngineEvent::Present);
    assert_eq!(t.engine.phase, Phase::Pulling);
    assert!(matches!(&t.action, EngineAction::RunCommand { program, args, dir }
        if program == "git" && args == &vec!["pull".to_string()] && dir.as_deref() == Some("versions/Latest (Git)")));

    let t = t.engine.step(EngineEvent::Failure);
    assert_eq!(
        t.warning.as_deref(),
        Some("Failed to clone the repo. Running the latest local commit instead")
    );
    assert_eq!(t.engine.phase, Phase::PreparingBuildDir);
}

#[test]
fn clone_failure_aborts() {
    let t = begin("Latest (Git)", &VersionData::GitLatest, Platform::Unix, &config(true, false), false);
    let t = t.engine.step(EngineEvent::Absent);
    let t = t.engine.step(EngineEvent::Failure);
    assert_eq!(t.engine.phase, Phase::Failed);
    assert!(matches!(t.action, EngineAction::Abort));
}

#[test]
fn download_failure_aborts_with_no_state_change() {
    let desc = VersionData::Binary { url: "https://example.org/bin".to_string(), unzip: false };
    let t = begin("v20", &desc, Platform::Unix, &config(true, false), false);
    let t = t.engine.step(EngineEvent::Failure);
    assert_eq!(t.engine.phase, Phase::Failed);
    assert!(matches!(t.action, EngineAction::Abort));
}

#[test]
fn bundled_interpreter_pipeline_runs_before_the_build() {
    let desc = VersionData::Source { zipball_url: "https://example.org/z".to_string() };
    let t = begin("v15", &desc, Platform::Unix, &config(true, true), false);
    assert_eq!(t.engine.phase, Phase::Downloading);
    let t = t.engine.step(EngineEvent::Success);
    assert_eq!(t.engine.phase, Phase::Unpacking);
    let t = t.engine.step(EngineEvent::Success);
    assert_eq!(t.engine.phase, Phase::CheckingLua);
    assert!(matches!(&t.action, EngineAction::CheckExists { path } if path == "/home/user/.luajit/lib"));

    let t = t.engine.step(EngineEvent::Absent);
    assert_eq!(t.engine.phase, Phase::CloningLua);
    let t = t.engine.step(EngineEvent::Success);
    assert_eq!(t.engine.phase, Phase::MakingLua);
    assert!(matches!(&t.action, EngineAction::RunCommand { program, args, dir }
        if program == "make" && args.is_empty() && dir.as_deref() == Some("/home/user/.luajit")));

    let t = t.engine.step(EngineEvent::Success);
    assert_eq!(t.engine.phase, Phase::InstallingLua);
    assert!(matches!(&t.action, EngineAction::RunCommand { program, args, .. }
        if program == "make"
            && args == &vec!["install".to_string(), "PREFIX=\"/home/user/.luajit/lib\"".to_string()]));

    let t = t.engine.step(EngineEvent::Success);
    assert_eq!(t.engine.phase, Phase::RewritingBuildConfig);
    assert!(matches!(&t.action, EngineAction::RewriteBuildConfig { dir, lua_path }
        if dir == "versions/v15" && lua_path == "/home/user/.luajit"));

    let t = t.engine.step(EngineEvent::Success);
    assert_eq!(t.engine.phase, Phase::PreparingBuildDir);
}

#[test]
fn interpreter_already_present_skips_its_build() {
    let desc = VersionData::Source { zipball_url: "https://example.org/z".to_string() };
    let t = begin("v15", &desc, Platform::Unix, &config(true, true), false);
    let t = t.engine.step(EngineEvent::Success);
    let t = t.engine.step(EngineEvent::Success);
    assert_eq!(t.engine.phase, Phase::CheckingLua);
    let t = t.engine.step(EngineEvent::Present);
    assert_eq!(t.engine.phase, Phase::RewritingBuildConfig);
}

#[test]
fn force_refresh_wipes_the_build_directory() {
    let t = begin("Latest (Git)", &VersionData::GitLatest, Platform::Unix, &config(true, false), true);
    let t = t.engine.step(EngineEvent::Present);
    let t = t.engine.step(EngineEvent::Success);
    assert_eq!(t.engine.phase, Phase::PreparingBuildDir);
    assert!(matches!(&t.action, EngineAction::PrepareBuildDir { wipe, .. } if *wipe));
}
