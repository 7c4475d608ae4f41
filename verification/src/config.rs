//! User configuration toggles of the launcher.

use vstd::prelude::*;

verus! {

/// The launcher's user toggles.  A missing or unparsable
/// configuration file silently yields the defaults.
#[derive(Debug)]
pub struct LauncherConfig {
    /// Dark or light theme.
    pub dark_mode: bool,
    /// Permit building unsupported versions from source.
    pub build_unsupported: bool,
    /// Prefer prebuilt binaries where a release offers one.
    pub use_prebuilt_when_possible: bool,
    /// Bundle the third-party interpreter dependency into the build.
    pub download_lua: bool,
    /// Name of the last played version, if any.
    pub last_version: Option<String>,
}

impl Clone for LauncherConfig {
    fn clone(&self) -> (r: Self)
        ensures
            r.dark_mode == self.dark_mode,
            r.build_unsupported == self.build_unsupported,
            r.use_prebuilt_when_possible == self.use_prebuilt_when_possible,
            r.download_lua == self.download_lua,
            r.last_version is Some <==> self.last_version is Some,
            r.last_version matches Some(n) ==> (self.last_version matches Some(m) && n@ == m@),
    {
        LauncherConfig {
            dark_mode: self.dark_mode,
            build_unsupported: self.build_unsupported,
            use_prebuilt_when_possible: self.use_prebuilt_when_possible,
            download_lua: self.download_lua,
            last_version: match &self.last_version {
                Some(name) => Some(name.clone()),
                None => None,
            },
        }
    }
}

impl Default for LauncherConfig {
    fn default() -> (r: Self)
        ensures
            r.dark_mode,
            r.build_unsupported,
            r.use_prebuilt_when_possible,
            !r.download_lua,
            r.last_version is None,
    {
        LauncherConfig {
            dark_mode: true,
            build_unsupported: true,
            use_prebuilt_when_possible: true,
            download_lua: false,
            last_version: None,
        }
    }
}

} // verus!
