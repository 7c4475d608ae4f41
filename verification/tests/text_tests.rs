use voxel_launcher::config::LauncherConfig;
use voxel_launcher::paths::{
    binary_name, downloaded_name, executable_name, get_version_path, get_versions_path, Platform,
};
use voxel_launcher::text::{
    contains_sub, keep_stderr_line, parse_progress_line, replace_first, rewrite_build_config,
    str_eq,
};

#[test]
fn compile_progress_line_is_scraped() {
    // The build tool emits "[42%] Building CXX object foo.cpp.o":
    // progress is reported as 0.42 with that literal line as label.
    let line = "[42%] Building CXX object foo.cpp.o";
    let pct = parse_progress_line(line);
    assert_eq!(pct, Some(42));
    assert_eq!(pct.unwrap() as f32 / 100.0, 0.42);
}

#[test]
fn progress_prefix_tolerates_padding() {
    assert_eq!(parse_progress_line("[ 7%] Building C object x.c.o"), Some(7));
    assert_eq!(parse_progress_line("[100%] Linking CXX executable VoxelEngine"), Some(100));
    assert_eq!(parse_progress_line("[ 42 % ] padded"), Some(42));
    assert_eq!(parse_progress_line("[0%]"), Some(0));
}

#[test]
fn non_matching_lines_are_not_progress() {
    assert_eq!(parse_progress_line(""), None);
    assert_eq!(parse_progress_line("Scanning dependencies of target engine"), None);
    assert_eq!(parse_progress_line("[no percent] text"), None);
    assert_eq!(parse_progress_line("[%] text"), None);
    assert_eq!(parse_progress_line("[42] text"), None);
    assert_eq!(parse_progress_line("42%] text"), None);
    assert_eq!(parse_progress_line("[42% text"), None);
    assert_eq!(parse_progress_line("[99999999999999999999%] overflow"), None);
}

#[test]
fn noisy_version_control_stderr_is_dropped() {
    assert!(!keep_stderr_line("Cloning into 'versions/Latest (Git)'..."));
    assert!(keep_stderr_line("fatal: repository not found"));
    assert!(keep_stderr_line(""));
}

#[test]
fn substring_search() {
    assert!(contains_sub("VoxelEngine-win64.zip", "win64"));
    assert!(!contains_sub("VoxelEngine.AppImage", "win64"));
    assert!(contains_sub("abc", ""));
    assert!(!contains_sub("ab", "abc"));
    assert!(str_eq("abc", "abc"));
    assert!(!str_eq("abc", "abd"));
    assert!(!str_eq("abc", "ab"));
}

#[test]
fn build_config_rewrite_fires_only_on_the_directive() {
    let cmake = "project(engine)\nfind_package(Lua REQUIRED)\nadd_executable(engine main.cpp)\n";
    let out = rewrite_build_config(cmake, "/home/user/.luajit");
    assert_eq!(
        out,
        "project(engine)\ninclude_directories(\"/home/user/.luajit/include/luajit-2.1/\")\n\
         set(LUA_LIBRARIES \"/home/user/.luajit/lib/libluajit-5.1.a\")\nadd_executable(engine main.cpp)\n"
    );
    // idempotent: the directive is gone, a second pass changes nothing
    let again = rewrite_build_config(out.as_str(), "/home/user/.luajit");
    assert_eq!(again, out);

    let untouched = "project(engine)\n";
    assert_eq!(rewrite_build_config(untouched, "/p"), untouched);
}

#[test]
fn replace_first_replaces_only_the_first() {
    assert_eq!(replace_first("aXbXc", "X", "-"), "a-bXc");
    assert_eq!(replace_first("abc", "X", "-"), "abc");
}

#[test]
fn platform_names() {
    assert_eq!(downloaded_name(Platform::Windows), "VoxelEngine.exe");
    assert_eq!(downloaded_name(Platform::Unix), "VoxelEngine.AppImage");
    assert_eq!(executable_name(Platform::Unix), "VoxelEngine.AppImage");
    assert_eq!(binary_name(Platform::Windows), "VoxelEngine.exe");
    assert_eq!(binary_name(Platform::Unix), "VoxelEngine");
    assert_eq!(get_versions_path(), "versions");
    assert_eq!(get_version_path("v20"), "versions/v20");
}

#[test]
fn config_defaults() {
    let c = LauncherConfig::default();
    assert!(c.dark_mode);
    assert!(c.build_unsupported);
    assert!(c.use_prebuilt_when_possible);
    assert!(!c.download_lua);
    assert!(c.last_version.is_none());
}
