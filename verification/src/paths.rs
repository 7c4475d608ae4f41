//! Target platform and the filesystem naming conventions of the
//! launcher: where versions live, and what the engine executable and
//! the downloaded artifact are called on each platform.
//!
//! Paths are plain strings joined with `/`; the unverified shell hands
//! them to the operating system as-is.

use vstd::prelude::*;

verus! {

/// Target platform of the running launcher.  It decides which release
/// asset fits, what the executable is called, and whether a prebuilt
/// download is an archive.
#[derive(Clone, Copy, Debug, PartialEq, Eq, Structural)]
pub enum Platform {
    Windows,
    Unix,
    Other,
}

/// Name of the file a prebuilt download is stored under, inside the
/// version's directory.
pub open spec fn spec_downloaded_name(platform: Platform) -> Seq<char> {
    if platform == Platform::Windows {
        "VoxelEngine.exe"@
    } else {
        "VoxelEngine.AppImage"@
    }
}

/// Name of the executable a source build produces in its output
/// directory.
pub open spec fn spec_binary_name(platform: Platform) -> Seq<char> {
    if platform == Platform::Windows {
        "VoxelEngine.exe"@
    } else {
        "VoxelEngine"@
    }
}

/// Root directory holding one subdirectory per version.
pub open spec fn spec_versions_path() -> Seq<char> {
    "versions"@
}

/// Directory of the version called `name`.
pub open spec fn spec_version_path(name: Seq<char>) -> Seq<char> {
    spec_versions_path() + "/"@ + name
}

pub fn downloaded_name(platform: Platform) -> (r: String)
    ensures
        r@ == spec_downloaded_name(platform),
{
    match platform {
        Platform::Windows => "VoxelEngine.exe".to_owned(),
        Platform::Unix => "VoxelEngine.AppImage".to_owned(),
        Platform::Other => "VoxelEngine.AppImage".to_owned(),
    }
}

/// Name of the ready-to-run engine executable expected in a version's
/// directory.
pub fn executable_name(platform: Platform) -> (r: String)
    ensures
        r@ == spec_downloaded_name(platform),
{
    downloaded_name(platform)
}

pub fn binary_name(platform: Platform) -> (r: String)
    ensures
        r@ == spec_binary_name(platform),
{
    match platform {
        Platform::Windows => "VoxelEngine.exe".to_owned(),
        Platform::Unix => "VoxelEngine".to_owned(),
        Platform::Other => "VoxelEngine".to_owned(),
    }
}

pub fn get_versions_path() -> (r: String)
    ensures
        r@ == spec_versions_path(),
{
    "versions".to_owned()
}

pub fn get_version_path(name: &str) -> (r: String)
    ensures
        r@ == spec_version_path(name@),
{
    let mut r = get_versions_path();
    r.append("/");
    r.append(name);
    r
}

/// Joins two relative path components with `/`.
pub fn join_path(base: &str, rest: &str) -> (r: String)
    ensures
        r@ == base@ + "/"@ + rest@,
{
    let mut r = base.to_owned();
    r.append("/");
    r.append(rest);
    r
}

} // verus!
