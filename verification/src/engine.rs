//! The acquisition engine: a state machine from descriptor and
//! events to the next external action.
//!
//! The unverified shell drives the machine: [`start`] inspects a
//! version's descriptor and returns the first [`EngineAction`]; the
//! shell performs it (a download, an external command, a filesystem
//! step) and hands the outcome back to [`Engine::step`], which
//! decides the next action, until the phase reaches `Done` or
//! `Failed`.  Every decision of the original play operation lives
//! here; the shell only executes.

use crate::codec::{serialize_descriptor, spec_ser};
use crate::config::LauncherConfig;
use crate::descriptor::{
    effective_descriptor, spec_effective, spec_wrap_local, wrap_local, DescView, VersionData,
};
use crate::paths::{
    binary_name, downloaded_name, get_version_path, join_path, spec_binary_name,
    spec_downloaded_name, spec_version_path, Platform,
};
use crate::text::str_eq;
use vstd::prelude::*;

verus! {

/// Where the acquisition stands.
#[derive(Clone, Copy, Debug, PartialEq, Eq, Structural)]
pub enum Phase {
    /// Asking whether a source checkout is already present.
    CheckingSrc,
    Cloning,
    Pulling,
    /// Asking whether the bundled interpreter is already built.
    CheckingLua,
    CloningLua,
    MakingLua,
    InstallingLua,
    RewritingBuildConfig,
    PreparingBuildDir,
    Configuring,
    Compiling,
    Downloading,
    Unpacking,
    WritingBinary,
    SettingExecutable,
    Finishing,
    Launching,
    Done,
    Failed,
}

/// Outcome of the last action, handed back by the shell.
#[derive(Clone, Copy, Debug, PartialEq, Eq, Structural)]
pub enum EngineEvent {
    /// The asked-about path exists.
    Present,
    /// The asked-about path does not exist.
    Absent,
    /// The action finished successfully.
    Success,
    /// The action failed; the shell has already surfaced the error.
    Failure,
}

/// What the shell must do next.  `Fail` carries an error the engine
/// itself owes; on `Fail` and `Abort` the shell reports or has
/// reported the failure, clears the progress display, and stops with
/// no further state mutation.
#[derive(Debug)]
#[allow(inconsistent_fields)]
pub enum EngineAction {
    /// Report this error, clear progress, stop.
    Fail { message: String },
    /// The failure was already surfaced at its action; clear progress
    /// and stop.
    Abort,
    /// Answer with `Present` or `Absent` for this path.
    CheckExists { path: String },
    /// Run an external command, streaming its output lines.
    RunCommand { program: String, args: Vec<String>, dir: Option<String> },
    /// Download this URL into memory, reporting byte progress.
    Download { url: String },
    /// Extract the downloaded archive into `dir`, discarding the
    /// top-level archive folder component.
    Unpack { dir: String },
    /// Write the downloaded payload to this file.
    WriteFile { path: String },
    /// Set the file's permission bits executable (mode 0755).
    MakeExecutable { path: String },
    /// Pass the build-configuration file of `dir`, if it can be read,
    /// through the dependency rewrite against `lua_path`.
    RewriteBuildConfig { dir: String, lua_path: String },
    /// Create the build output directory, wiping a previous one first
    /// when `wipe` is set; creation failures are ignored.
    PrepareBuildDir { dir: String, wipe: bool },
    /// Replace the version's descriptor by `descriptor` and write
    /// `sidecar` to the sidecar file at `path`.
    Persist { descriptor: VersionData, sidecar: String, path: String },
    /// Launch `binary` with working directory `dir`.
    Launch { binary: String, dir: String },
    /// Nothing is left to do.
    Done,
}

/// The engine's state between two actions.
pub struct Engine {
    pub name: String,
    /// The strategy being executed: the version's descriptor after
    /// the force-refresh unwrapping.
    pub strategy: VersionData,
    pub platform: Platform,
    pub force_refresh: bool,
    pub build_unsupported: bool,
    pub download_lua: bool,
    /// User-profile location the bundled interpreter is built in.
    pub lua_path: String,
    pub phase: Phase,
}

/// One decision: the next state, an optional warning to surface, and
/// the action the shell must perform.
pub struct Transition {
    pub engine: Engine,
    pub warning: Option<String>,
    pub action: EngineAction,
}

pub open spec fn spec_repo_url() -> Seq<char> {
    "https://github.com/MihailRis/VoxelEngine-Cpp"@
}

pub open spec fn spec_luajit_url() -> Seq<char> {
    "https://luajit.org/git/luajit.git"@
}

/// Path of a version's sidecar file.
pub open spec fn spec_sidecar_path(name: Seq<char>) -> Seq<char> {
    spec_version_path(name) + "/"@ + "version.ron"@
}

/// The binary path recorded and launched after a successful
/// acquisition: the raw download for a prebuilt binary, the
/// conventional build output for everything built from source.
pub open spec fn spec_finish_binary(strategy: DescView, p: Platform) -> Seq<char> {
    if strategy is Binary {
        spec_downloaded_name(p)
    } else {
        "build/"@ + spec_binary_name(p)
    }
}

/// Build-pipeline entry: the interpreter pre-step runs only when the
/// configuration asks for the bundled interpreter.
pub open spec fn spec_build_entry(e: Engine) -> Phase {
    if e.download_lua {
        Phase::CheckingLua
    } else {
        Phase::PreparingBuildDir
    }
}

/// The phase transition relation of the engine.
pub open spec fn spec_next_phase(e: Engine, ev: EngineEvent) -> Phase {
    match e.phase {
        Phase::CheckingSrc => if ev == EngineEvent::Absent {
            Phase::Cloning
        } else if ev == EngineEvent::Present {
            Phase::Pulling
        } else {
            Phase::Failed
        },
        Phase::Cloning => if ev == EngineEvent::Success {
            spec_build_entry(e)
        } else {
            Phase::Failed
        },
        Phase::Pulling => if ev == EngineEvent::Success || ev == EngineEvent::Failure {
            spec_build_entry(e)
        } else {
            Phase::Failed
        },
        Phase::CheckingLua => if ev == EngineEvent::Absent {
            Phase::CloningLua
        } else if ev == EngineEvent::Present {
            Phase::RewritingBuildConfig
        } else {
            Phase::Failed
        },
        Phase::CloningLua => if ev == EngineEvent::Success {
            Phase::MakingLua
        } else {
            Phase::Failed
        },
        Phase::MakingLua => if ev == EngineEvent::Success {
            Phase::InstallingLua
        } else {
            Phase::Failed
        },
        Phase::InstallingLua => if ev == EngineEvent::Success {
            Phase::RewritingBuildConfig
        } else {
            Phase::Failed
        },
        Phase::RewritingBuildConfig => if ev == EngineEvent::Success {
            Phase::PreparingBuildDir
        } else {
            Phase::Failed
        },
        Phase::PreparingBuildDir => if ev == EngineEvent::Success {
            Phase::Configuring
        } else {
            Phase::Failed
        },
        Phase::Configuring => if ev == EngineEvent::Success {
            Phase::Compiling
        } else {
            Phase::Failed
        },
        Phase::Compiling => if ev == EngineEvent::Success {
            Phase::Finishing
        } else {
            Phase::Failed
        },
        Phase::Downloading => if ev == EngineEvent::Success {
            match e.strategy@ {
                DescView::Binary { unzip, .. } => if unzip {
                    Phase::Unpacking
                } else {
                    Phase::WritingBinary
                },
                DescView::Source { .. } => Phase::Unpacking,
                _ => Phase::Failed,
            }
        } else {
            Phase::Failed
        },
        Phase::Unpacking => if ev == EngineEvent::Success {
            match e.strategy@ {
                DescView::Binary { .. } => Phase::Finishing,
                DescView::Source { .. } => spec_build_entry(e),
                _ => Phase::Failed,
            }
        } else {
            Phase::Failed
        },
        Phase::WritingBinary => if ev == EngineEvent::Success {
            if e.platform != Platform::Windows {
                Phase::SettingExecutable
            } else {
                Phase::Finishing
            }
        } else {
            Phase::Failed
        },
        Phase::SettingExecutable => if ev == EngineEvent::Success {
            Phase::Finishing
        } else {
            Phase::Failed
        },
        Phase::Finishing => if ev == EngineEvent::Success {
            Phase::Launching
        } else {
            Phase::Failed
        },
        Phase::Launching => if ev == EngineEvent::Success {
            Phase::Done
        } else {
            Phase::Failed
        },
        Phase::Done => Phase::Done,
        Phase::Failed => Phase::Failed,
    }
}

impl Engine {
    /// Which strategies each phase can be working for.
    pub open spec fn wf(self) -> bool {
        &&& self.strategy@.wf()
        &&& (match self.phase {
            Phase::CheckingSrc | Phase::Cloning | Phase::Pulling => self.strategy@
                is GitLatest,
            Phase::CheckingLua | Phase::CloningLua | Phase::MakingLua | Phase::InstallingLua
                | Phase::RewritingBuildConfig | Phase::PreparingBuildDir | Phase::Configuring
                | Phase::Compiling => self.strategy@ is GitLatest || self.strategy@ is Source,
            Phase::Downloading => self.strategy@ is Binary || self.strategy@ is Source,
            Phase::Unpacking => (self.strategy@ matches DescView::Binary { unzip, .. } && unzip)
                || self.strategy@ is Source,
            Phase::WritingBinary => self.strategy@ matches DescView::Binary { unzip, .. }
                && !unzip,
            Phase::SettingExecutable => (self.strategy@ matches DescView::Binary { unzip, .. }
                && !unzip) && self.platform != Platform::Windows,
            Phase::Finishing => !(self.strategy@ is Local) && !(self.strategy@ is NotFound),
            Phase::Launching | Phase::Done | Phase::Failed => true,
        })
    }

    fn version_path(&self) -> (r: String)
        ensures
            r@ == spec_version_path(self.name@),
    {
        get_version_path(self.name.as_str())
    }

    fn finish_binary(&self) -> (r: String)
        ensures
            r@ == spec_finish_binary(self.strategy@, self.platform),
    {
        match &self.strategy {
            VersionData::Binary { .. } => downloaded_name(self.platform),
            _ => {
                let mut r = "build/".to_owned();
                r.append(binary_name(self.platform).as_str());
                r
            },
        }
    }
}

/// The action clauses: what the shell is told to do whenever the
/// engine enters each phase.
pub open spec fn spec_action_for(e: Engine, t: Transition) -> bool {
    &&& (t.engine.phase == Phase::Cloning ==> (t.action matches EngineAction::RunCommand {
        program,
        args,
        dir,
    } && program@ == "git"@ && args@.len() == 3 && args@[0]@ == "clone"@ && args@[1]@
        == spec_repo_url() && args@[2]@ == spec_version_path(e.name@) && dir is None))
    &&& (t.engine.phase == Phase::Pulling ==> (t.action matches EngineAction::RunCommand {
        program,
        args,
        dir,
    } && program@ == "git"@ && args@.len() == 1 && args@[0]@ == "pull"@ && (dir matches Some(d)
        && d@ == spec_version_path(e.name@))))
    &&& (t.engine.phase == Phase::CheckingLua ==> (t.action matches EngineAction::CheckExists {
        path,
    } && path@ == e.lua_path@ + "/"@ + "lib"@))
    &&& (t.engine.phase == Phase::CloningLua ==> (t.action matches EngineAction::RunCommand {
        program,
        args,
        dir,
    } && program@ == "git"@ && args@.len() == 3 && args@[0]@ == "clone"@ && args@[1]@
        == spec_luajit_url() && args@[2]@ == e.lua_path@ && dir is None))
    &&& (t.engine.phase == Phase::MakingLua ==> (t.action matches EngineAction::RunCommand {
        program,
        args,
        dir,
    } && program@ == "make"@ && args@.len() == 0 && (dir matches Some(d) && d@ == e.lua_path@)))
    &&& (t.engine.phase == Phase::InstallingLua ==> (t.action matches EngineAction::RunCommand {
        program,
        args,
        dir,
    } && program@ == "make"@ && args@.len() == 2 && args@[0]@ == "install"@ && args@[1]@
        == "PREFIX=\""@ + e.lua_path@ + "/lib\""@ && (dir matches Some(d) && d@ == e.lua_path@)))
    &&& (t.engine.phase == Phase::RewritingBuildConfig ==> (t.action
        matches EngineAction::RewriteBuildConfig { dir, lua_path } && dir@ == spec_version_path(
        e.name@,
    ) && lua_path@ == e.lua_path@))
    &&& (t.engine.phase == Phase::PreparingBuildDir ==> (t.action
        matches EngineAction::PrepareBuildDir { dir, wipe } && dir@ == spec_version_path(e.name@)
        + "/"@ + "build"@ && wipe == e.force_refresh))
    &&& (t.engine.phase == Phase::Configuring ==> (t.action matches EngineAction::RunCommand {
        program,
        args,
        dir,
    } && program@ == "cmake"@ && args@.len() == 2 && args@[0]@ == "-DCMAKE_BUILD_TYPE=Release"@
        && args@[1]@ == "-Bbuild"@ && (dir matches Some(d) && d@ == spec_version_path(e.name@))))
    &&& (t.engine.phase == Phase::Compiling ==> (t.action matches EngineAction::RunCommand {
        program,
        args,
        dir,
    } && program@ == "cmake"@ && args@.len() == 2 && args@[0]@ == "--build"@ && args@[1]@
        == "build"@ && (dir matches Some(d) && d@ == spec_version_path(e.name@))))
    &&& (t.engine.phase == Phase::Unpacking ==> (t.action matches EngineAction::Unpack { dir }
        && dir@ == spec_version_path(e.name@)))
    &&& (t.engine.phase == Phase::WritingBinary ==> (t.action matches EngineAction::WriteFile {
        path,
    } && path@ == spec_version_path(e.name@) + "/"@ + spec_downloaded_name(e.platform)))
    &&& (t.engine.phase == Phase::SettingExecutable ==> (t.action
        matches EngineAction::MakeExecutable { path } && path@ == spec_version_path(e.name@) + "/"@
        + spec_downloaded_name(e.platform)))
    &&& (t.engine.phase == Phase::Finishing ==> (t.action matches EngineAction::Persist {
        descriptor,
        sidecar,
        path,
    } && descriptor@ == spec_wrap_local(
        spec_finish_binary(e.strategy@, e.platform),
        e.strategy@,
    ) && descriptor@.wf() && sidecar@ == spec_ser(descriptor@) && path@ == spec_sidecar_path(
        e.name@,
    )))
    &&& (t.engine.phase == Phase::Launching ==> (t.action matches EngineAction::Launch {
        binary,
        dir,
    } && binary@ == spec_finish_binary(e.strategy@, e.platform) && dir@ == spec_version_path(
        e.name@,
    )))
    &&& (t.engine.phase == Phase::Done ==> t.action is Done)
    &&& (t.engine.phase == Phase::Failed ==> t.action is Abort)
}

/// The engine's fields other than the phase never change underway.
pub open spec fn spec_same_engine(a: Engine, b: Engine) -> bool {
    &&& a.name == b.name
    &&& a.strategy == b.strategy
    &&& a.platform == b.platform
    &&& a.force_refresh == b.force_refresh
    &&& a.build_unsupported == b.build_unsupported
    &&& a.download_lua == b.download_lua
    &&& a.lua_path == b.lua_path
}

impl Engine {
    /// Enters the build pipeline.
    fn enter_build(self, warning: Option<String>) -> (t: Transition)
        requires
            self.wf(),
            self.strategy@ is GitLatest || self.strategy@ is Source,
        ensures
            t.engine.wf(),
            spec_same_engine(self, t.engine),
            t.engine.phase == spec_build_entry(self),
            spec_action_for(self, t),
            t.warning == warning,
    {
        if self.download_lua {
            let path = join_path(self.lua_path.as_str(), "lib");
            let engine = Engine { phase: Phase::CheckingLua, ..self };
            Transition { engine, warning, action: EngineAction::CheckExists { path } }
        } else {
            let dir = join_path(self.version_path().as_str(), "build");
            let wipe = self.force_refresh;
            let engine = Engine { phase: Phase::PreparingBuildDir, ..self };
            Transition { engine, warning, action: EngineAction::PrepareBuildDir { dir, wipe } }
        }
    }

    /// Wraps the acquired strategy into a `Local` descriptor and asks
    /// the shell to persist it.
    fn enter_finish(self) -> (t: Transition)
        requires
            self.wf(),
            !(self.strategy@ is Local),
            !(self.strategy@ is NotFound),
        ensures
            t.engine.wf(),
            spec_same_engine(self, t.engine),
            t.engine.phase == Phase::Finishing,
            spec_action_for(self, t),
            t.warning is None,
    {
        let binary = self.finish_binary();
        let descriptor = wrap_local(binary, self.strategy.clone());
        let sidecar = serialize_descriptor(&descriptor);
        let path = join_path(self.version_path().as_str(), "version.ron");
        let engine = Engine { phase: Phase::Finishing, ..self };
        Transition {
            engine,
            warning: None,
            action: EngineAction::Persist { descriptor, sidecar, path },
        }
    }

    /// Fails this acquisition; the error was surfaced where it
    /// happened.
    fn enter_abort(self) -> (t: Transition)
        requires
            self.strategy@.wf(),
        ensures
            t.engine.wf(),
            spec_same_engine(self, t.engine),
            t.engine.phase == Phase::Failed,
            t.action is Abort,
            t.warning is None,
    {
        let engine = Engine { phase: Phase::Failed, ..self };
        Transition { engine, warning: None, action: EngineAction::Abort }
    }

    /// One decision of the acquisition state machine: from the
    /// outcome of the last action to the next phase and action.
    pub fn step(self, ev: EngineEvent) -> (t: Transition)
        requires
            self.wf(),
        ensures
            t.engine.wf(),
            spec_same_engine(self, t.engine),
            t.engine.phase == spec_next_phase(self, ev),
            spec_action_for(self, t),
            t.warning is Some <==> (self.phase == Phase::Pulling && ev == EngineEvent::Failure),
            self.phase == Phase::Pulling && ev == EngineEvent::Failure ==> (t.warning matches Some(
                w,
            ) && w@ == "Failed to clone the repo. Running the latest local commit instead"@),
    {
        match self.phase {
            Phase::CheckingSrc => match ev {
                EngineEvent::Absent => {
                    let mut args: Vec<String> = Vec::new();
                    args.push("clone".to_owned());
                    args.push("https://github.com/MihailRis/VoxelEngine-Cpp".to_owned());
                    args.push(self.version_path());
                    let engine = Engine { phase: Phase::Cloning, ..self };
                    Transition {
                        engine,
                        warning: None,
                        action: EngineAction::RunCommand {
                            program: "git".to_owned(),
                            args,
                            dir: None,
                        },
                    }
                },
                EngineEvent::Present => {
                    let mut args: Vec<String> = Vec::new();
                    args.push("pull".to_owned());
                    let dir = Some(self.version_path());
                    let engine = Engine { phase: Phase::Pulling, ..self };
                    Transition {
                        engine,
                        warning: None,
                        action: EngineAction::RunCommand {
                            program: "git".to_owned(),
                            args,
                            dir,
                        },
                    }
                },
                _ => self.enter_abort(),
            },
            Phase::Cloning => match ev {
                EngineEvent::Success => self.enter_build(None),
                _ => self.enter_abort(),
            },
            Phase::Pulling => match ev {
                EngineEvent::Success => self.enter_build(None),
                EngineEvent::Failure => self.enter_build(
                    Some("Failed to clone the repo. Running the latest local commit instead"
                        .to_owned()),
                ),
                _ => self.enter_abort(),
            },
            Phase::CheckingLua => match ev {
                EngineEvent::Absent => {
                    let mut args: Vec<String> = Vec::new();
                    args.push("clone".to_owned());
                    args.push("https://luajit.org/git/luajit.git".to_owned());
                    args.push(self.lua_path.clone());
                    let engine = Engine { phase: Phase::CloningLua, ..self };
                    Transition {
                        engine,
                        warning: None,
                        action: EngineAction::RunCommand {
                            program: "git".to_owned(),
                            args,
                            dir: None,
                        },
                    }
                },
                EngineEvent::Present => {
                    let dir = self.version_path();
                    let lua_path = self.lua_path.clone();
                    let engine = Engine { phase: Phase::RewritingBuildConfig, ..self };
                    Transition {
                        engine,
                        warning: None,
                        action: EngineAction::RewriteBuildConfig { dir, lua_path },
                    }
                },
                _ => self.enter_abort(),
            },
            Phase::CloningLua => match ev {
                EngineEvent::Success => {
                    let dir = Some(self.lua_path.clone());
                    let engine = Engine { phase: Phase::MakingLua, ..self };
                    Transition {
                        engine,
                        warning: None,
                        action: EngineAction::RunCommand {
                            program: "make".to_owned(),
                            args: Vec::new(),
                            dir,
                        },
                    }
                },
                _ => self.enter_abort(),
            },
            Phase::MakingLua => match ev {
                EngineEvent::Success => {
                    let mut prefix = "PREFIX=\"".to_owned();
                    prefix.append(self.lua_path.as_str());
                    prefix.append("/lib\"");
                    let mut args: Vec<String> = Vec::new();
                    args.push("install".to_owned());
                    args.push(prefix);
                    let dir = Some(self.lua_path.clone());
                    let engine = Engine { phase: Phase::InstallingLua, ..self };
                    Transition {
                        engine,
                        warning: None,
                        action: EngineAction::RunCommand {
                            program: "make".to_owned(),
                            args,
                            dir,
                        },
                    }
                },
                _ => self.enter_abort(),
            },
            Phase::InstallingLua => match ev {
                EngineEvent::Success => {
                    let dir = self.version_path();
                    let lua_path = self.lua_path.clone();
                    let engine = Engine { phase: Phase::RewritingBuildConfig, ..self };
                    Transition {
                        engine,
                        warning: None,
                        action: EngineAction::RewriteBuildConfig { dir, lua_path },
                    }
                },
                _ => self.enter_abort(),
            },
            Phase::RewritingBuildConfig => match ev {
                EngineEvent::Success => {
                    let dir = join_path(self.version_path().as_str(), "build");
                    let wipe = self.force_refresh;
                    let engine = Engine { phase: Phase::PreparingBuildDir, ..self };
                    Transition {
                        engine,
                        warning: None,
                        action: EngineAction::PrepareBuildDir { dir, wipe },
                    }
                },
                _ => self.enter_abort(),
            },
            Phase::PreparingBuildDir => match ev {
                EngineEvent::Success => {
                    let mut args: Vec<String> = Vec::new();
                    args.push("-DCMAKE_BUILD_TYPE=Release".to_owned());
                    args.push("-Bbuild".to_owned());
                    let dir = Some(self.version_path());
                    let engine = Engine { phase: Phase::Configuring, ..self };
                    Transition {
                        engine,
                        warning: None,
                        action: EngineAction::RunCommand {
                            program: "cmake".to_owned(),
                            args,
                            dir,
                        },
                    }
                },
                _ => self.enter_abort(),
            },
            Phase::Configuring => match ev {
                EngineEvent::Success => {
                    let mut args: Vec<String> = Vec::new();
                    args.push("--build".to_owned());
                    args.push("build".to_owned());
                    let dir = Some(self.version_path());
                    let engine = Engine { phase: Phase::Compiling, ..self };
                    Transition {
                        engine,
                        warning: None,
                        action: EngineAction::RunCommand {
                            program: "cmake".to_owned(),
                            args,
                            dir,
                        },
                    }
                },
                _ => self.enter_abort(),
            },
            Phase::Compiling => match ev {
                EngineEvent::Success => self.enter_finish(),
                _ => self.enter_abort(),
            },
            Phase::Downloading => match ev {
                EngineEvent::Success => match &self.strategy {
                    VersionData::Binary { unzip, .. } => {
                        if *unzip {
                            let dir = self.version_path();
                            let engine = Engine { phase: Phase::Unpacking, ..self };
                            Transition {
                                engine,
                                warning: None,
                                action: EngineAction::Unpack { dir },
                            }
                        } else {
                            let path = join_path(
                                self.version_path().as_str(),
                                downloaded_name(self.platform).as_str(),
                            );
                            let engine = Engine { phase: Phase::WritingBinary, ..self };
                            Transition {
                                engine,
                                warning: None,
                                action: EngineAction::WriteFile { path },
                            }
                        }
                    },
                    VersionData::Source { .. } => {
                        let dir = self.version_path();
                        let engine = Engine { phase: Phase::Unpacking, ..self };
                        Transition { engine, warning: None, action: EngineAction::Unpack { dir } }
                    },
                    _ => self.enter_abort(),
                },
                _ => self.enter_abort(),
            },
            Phase::Unpacking => match ev {
                EngineEvent::Success => match &self.strategy {
                    VersionData::Binary { .. } => self.enter_finish(),
                    VersionData::Source { .. } => self.enter_build(None),
                    _ => self.enter_abort(),
                },
                _ => self.enter_abort(),
            },
            Phase::WritingBinary => match ev {
                EngineEvent::Success => {
                    if !matches!(self.platform, Platform::Windows) {
                        let path = join_path(
                            self.version_path().as_str(),
                            downloaded_name(self.platform).as_str(),
                        );
                        let engine = Engine { phase: Phase::SettingExecutable, ..self };
                        Transition {
                            engine,
                            warning: None,
                            action: EngineAction::MakeExecutable { path },
                        }
                    } else {
                        self.enter_finish()
                    }
                },
                _ => self.enter_abort(),
            },
            Phase::SettingExecutable => match ev {
                EngineEvent::Success => self.enter_finish(),
                _ => self.enter_abort(),
            },
            Phase::Finishing => match ev {
                EngineEvent::Success => {
                    let binary = self.finish_binary();
                    let dir = self.version_path();
                    let engine = Engine { phase: Phase::Launching, ..self };
                    Transition {
                        engine,
                        warning: None,
                        action: EngineAction::Launch { binary, dir },
                    }
                },
                _ => self.enter_abort(),
            },
            Phase::Launching => match ev {
                EngineEvent::Success => {
                    let engine = Engine { phase: Phase::Done, ..self };
                    Transition { engine, warning: None, action: EngineAction::Done }
                },
                _ => self.enter_abort(),
            },
            Phase::Done => {
                let engine = Engine { phase: Phase::Done, ..self };
                Transition { engine, warning: None, action: EngineAction::Done }
            },
            Phase::Failed => self.enter_abort(),
        }
    }
}

/// The first decision of a play operation on `descriptor`, after the
/// force-refresh unwrapping: policy errors are rejected before any
/// filesystem or network action, each strategy starts its pipeline,
/// and an already-local version goes straight to launch.
pub fn start(
    name: String,
    descriptor: &VersionData,
    platform: Platform,
    config: &LauncherConfig,
    lua_path: String,
    force_refresh: bool,
) -> (t: Transition)
    requires
        descriptor@.wf(),
    ensures
        t.engine.wf(),
        t.engine.name == name,
        t.engine.platform == platform,
        t.engine.force_refresh == force_refresh,
        t.engine.build_unsupported == config.build_unsupported,
        t.engine.download_lua == config.download_lua,
        t.engine.lua_path == lua_path,
        t.engine.strategy@ == spec_effective(descriptor@, force_refresh),
        t.warning is None,
        ({
            let eff = spec_effective(descriptor@, force_refresh);
            &&& (eff is GitLatest && !config.build_unsupported ==> t.engine.phase == Phase::Failed
                && (t.action matches EngineAction::Fail { message } && message@
                == "This version has to be built from source"@))
            &&& (eff is GitLatest && config.build_unsupported ==> t.engine.phase
                == Phase::CheckingSrc && (t.action matches EngineAction::CheckExists { path }
                && path@ == spec_version_path(name@) + "/"@ + "src"@))
            &&& (eff is Binary ==> t.engine.phase == Phase::Downloading && (t.action
                matches EngineAction::Download { url } && url@ == eff->Binary_url))
            &&& (eff is Source && (name@ == "v11"@ || name@ == "v12"@) ==> t.engine.phase
                == Phase::Failed && (t.action matches EngineAction::Fail { message } && message@
                == "Versions 0.11 and 0.12 are not supported by the launcher"@))
            &&& (eff is Source && !(name@ == "v11"@ || name@ == "v12"@)
                && !config.build_unsupported ==> t.engine.phase == Phase::Failed && (t.action
                matches EngineAction::Fail { message } && message@
                == "This version doesn't have prebuilt binaries for your platform"@))
            &&& (eff is Source && !(name@ == "v11"@ || name@ == "v12"@)
                && config.build_unsupported ==> t.engine.phase == Phase::Downloading && (t.action
                matches EngineAction::Download { url } && url@ == eff->Source_zipball_url))
            &&& (eff is Local ==> t.engine.phase == Phase::Launching && (t.action
                matches EngineAction::Launch { binary, dir } && binary@ == eff->Local_binary
                && dir@ == spec_version_path(name@)))
            &&& (eff is NotFound ==> t.engine.phase == Phase::Failed && (t.action
                matches EngineAction::Fail { message } && message@
                == "Version files not found or it's not supported on your platform"@))
        }),
{
    let strategy = effective_descriptor(descriptor, force_refresh);
    let engine = Engine {
        name,
        strategy,
        platform,
        force_refresh,
        build_unsupported: config.build_unsupported,
        download_lua: config.download_lua,
        lua_path,
        phase: Phase::Failed,
    };
    match &engine.strategy {
        VersionData::GitLatest => {
            if !engine.build_unsupported {
                let engine = Engine { phase: Phase::Failed, ..engine };
                Transition {
                    engine,
                    warning: None,
                    action: EngineAction::Fail {
                        message: "This version has to be built from source".to_owned(),
                    },
                }
            } else {
                let path = join_path(engine.version_path().as_str(), "src");
                let engine = Engine { phase: Phase::CheckingSrc, ..engine };
                Transition { engine, warning: None, action: EngineAction::CheckExists { path } }
            }
        },
        VersionData::Binary { url, .. } => {
            let url = url.clone();
            let engine = Engine { phase: Phase::Downloading, ..engine };
            Transition { engine, warning: None, action: EngineAction::Download { url } }
        },
        VersionData::Source { zipball_url } => {
            if str_eq(engine.name.as_str(), "v11") || str_eq(engine.name.as_str(), "v12") {
                let engine = Engine { phase: Phase::Failed, ..engine };
                Transition {
                    engine,
                    warning: None,
                    action: EngineAction::Fail {
                        message: "Versions 0.11 and 0.12 are not supported by the launcher"
                            .to_owned(),
                    },
                }
            } else if !engine.build_unsupported {
                let engine = Engine { phase: Phase::Failed, ..engine };
                Transition {
                    engine,
                    warning: None,
                    action: EngineAction::Fail {
                        message: "This version doesn't have prebuilt binaries for your platform"
                            .to_owned(),
                    },
                }
            } else {
                let url = zipball_url.clone();
                let engine = Engine { phase: Phase::Downloading, ..engine };
                Transition { engine, warning: None, action: EngineAction::Download { url } }
            }
        },
        VersionData::Local { binary, .. } => {
            let binary = binary.clone();
            let dir = engine.version_path();
            let engine = Engine { phase: Phase::Launching, ..engine };
            Transition { engine, warning: None, action: EngineAction::Launch { binary, dir } }
        },
        VersionData::NotFound => {
            let engine = Engine { phase: Phase::Failed, ..engine };
            Transition {
                engine,
                warning: None,
                action: EngineAction::Fail {
                    message: "Version files not found or it's not supported on your platform"
                        .to_owned(),
                },
            }
        },
    }
}

/// Force refresh on a `Local` descriptor re-executes its origin, and
/// the descriptor persisted after success wraps that same origin
/// again: the `Local` wrapper never nests.
pub proof fn lemma_force_refresh_round_trip(d: DescView, binary: Seq<char>)
    requires
        d.wf(),
        d is Local,
    ensures
        ({
            let strategy = spec_effective(d, true);
            let persisted = spec_wrap_local(binary, strategy);
            &&& strategy == *d->Local_origin
            &&& !(strategy is Local)
            &&& (persisted matches DescView::Local { origin, .. } && *origin == *d->Local_origin)
            &&& persisted.wf()
        }),
{
}

/// On a non-Windows target a raw binary write is always followed by
/// setting the executable bit: the engine cannot step from
/// `WritingBinary` to `Finishing` directly, and a successful write
/// leads to `SettingExecutable` on the downloaded file.
pub proof fn lemma_executable_bit_before_finish(e: Engine, ev: EngineEvent)
    requires
        e.wf(),
        e.phase == Phase::WritingBinary,
        e.platform != Platform::Windows,
    ensures
        spec_next_phase(e, ev) != Phase::Finishing,
        spec_next_phase(e, ev) != Phase::Launching,
        ev == EngineEvent::Success ==> spec_next_phase(e, ev) == Phase::SettingExecutable,
{
}

} // verus!
