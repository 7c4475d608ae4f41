//! The acquisition descriptor: how a named release maps to a runnable
//! artifact, and the one-level `Local` wrapping invariant that makes a
//! force refresh recover the original strategy.

use vstd::prelude::*;

verus! {

/// Mathematical model of an acquisition descriptor, with strings as
/// character sequences.
pub enum DescView {
    GitLatest,
    Binary { url: Seq<char>, unzip: bool },
    Source { zipball_url: Seq<char> },
    Local { binary: Seq<char>, origin: Box<DescView> },
    NotFound,
}

impl DescView {
    /// The wrapping invariant: a `Local` descriptor's origin is never
    /// itself `Local`, so unwrapping once always reaches the strategy
    /// that produced the artifact.
    pub open spec fn wf(self) -> bool {
        match self {
            DescView::Local { origin, .. } => !(*origin is Local),
            _ => true,
        }
    }
}

/// How a named release maps to a runnable artifact.
#[derive(Debug)]
pub enum VersionData {
    /// Track the repository's latest commit; built from source on each
    /// play unless already built.
    GitLatest,
    /// A prebuilt downloadable artifact; `unzip` says the payload is an
    /// archive needing extraction rather than a single executable file.
    Binary { url: String, unzip: bool },
    /// Only a source snapshot is available; it must be compiled.
    Source { zipball_url: String },
    /// The version was acquired; `binary` is relative to the version's
    /// directory, and `origin` retains the strategy that produced the
    /// result, so a force refresh can redo acquisition from it.
    Local { binary: String, origin: Box<VersionData> },
    /// No usable artifact exists for the current platform.
    NotFound,
}

pub open spec fn vd_view(d: VersionData) -> DescView
    decreases d,
{
    match d {
        VersionData::GitLatest => DescView::GitLatest,
        VersionData::Binary { url, unzip } => DescView::Binary { url: url@, unzip },
        VersionData::Source { zipball_url } => DescView::Source { zipball_url: zipball_url@ },
        VersionData::Local { binary, origin } => DescView::Local {
            binary: binary@,
            origin: Box::new(vd_view(*origin)),
        },
        VersionData::NotFound => DescView::NotFound,
    }
}

impl View for VersionData {
    type V = DescView;

    open spec fn view(&self) -> DescView {
        vd_view(*self)
    }
}

impl VersionData {
    /// Checks the wrapping invariant: no `Local` nested inside a
    /// `Local`.
    pub fn is_wf(&self) -> (r: bool)
        ensures
            r == self@.wf(),
    {
        proof {
            reveal_with_fuel(vd_view, 2);
        }
        match self {
            VersionData::Local { origin, .. } => match &**origin {
                VersionData::Local { .. } => false,
                VersionData::GitLatest => true,
                VersionData::Binary { .. } => true,
                VersionData::Source { .. } => true,
                VersionData::NotFound => true,
            },
            VersionData::GitLatest => true,
            VersionData::Binary { .. } => true,
            VersionData::Source { .. } => true,
            VersionData::NotFound => true,
        }
    }
}

impl Clone for VersionData {
    fn clone(&self) -> (r: Self)
        ensures
            r@ == self@,
        decreases self,
    {
        match self {
            VersionData::GitLatest => VersionData::GitLatest,
            VersionData::Binary { url, unzip } => VersionData::Binary {
                url: url.clone(),
                unzip: *unzip,
            },
            VersionData::Source { zipball_url } => VersionData::Source {
                zipball_url: zipball_url.clone(),
            },
            VersionData::Local { binary, origin } => VersionData::Local {
                binary: binary.clone(),
                origin: Box::new((**origin).clone()),
            },
            VersionData::NotFound => VersionData::NotFound,
        }
    }
}

fn vd_eq(a: &VersionData, b: &VersionData) -> (r: bool)
    ensures
        r == (a@ == b@),
    decreases a,
{
    proof {
        reveal_with_fuel(vd_view, 2);
    }
    match (a, b) {
        (VersionData::GitLatest, VersionData::GitLatest) => true,
        (
            VersionData::Binary { url: u1, unzip: z1 },
            VersionData::Binary { url: u2, unzip: z2 },
        ) => {
            let r = *u1 == *u2 && *z1 == *z2;
            assert(r == (a@ == b@));
            r
        },
        (VersionData::Source { zipball_url: u1 }, VersionData::Source { zipball_url: u2 }) => {
            let r = *u1 == *u2;
            assert(r == (a@ == b@));
            r
        },
        (
            VersionData::Local { binary: b1, origin: o1 },
            VersionData::Local { binary: b2, origin: o2 },
        ) => {
            let r = *b1 == *b2 && vd_eq(&**o1, &**o2);
            assert(r == (a@ == b@));
            r
        },
        (VersionData::NotFound, VersionData::NotFound) => true,
        _ => {
            assert(a@ != b@);
            false
        },
    }
}

impl PartialEq for VersionData {
    fn eq(&self, other: &Self) -> (r: bool) {
        vd_eq(self, other)
    }
}

impl vstd::std_specs::cmp::PartialEqSpecImpl for VersionData {
    open spec fn obeys_eq_spec() -> bool {
        true
    }

    open spec fn eq_spec(&self, other: &Self) -> bool {
        self@ == other@
    }
}

impl Eq for VersionData {}

/// The descriptor a play operation actually executes: a force refresh
/// on a `Local` descriptor discards the wrapper and redoes acquisition
/// from its origin; everything else is taken as it stands.
pub open spec fn spec_effective(d: DescView, force_refresh: bool) -> DescView {
    if force_refresh && d is Local {
        *d->Local_origin
    } else {
        d
    }
}

pub fn effective_descriptor(d: &VersionData, force_refresh: bool) -> (r: VersionData)
    ensures
        r@ == spec_effective(d@, force_refresh),
{
    if force_refresh {
        match d {
            VersionData::Local { origin, .. } => (**origin).clone(),
            _ => d.clone(),
        }
    } else {
        d.clone()
    }
}

/// The descriptor recorded after a successful acquisition.
pub open spec fn spec_wrap_local(binary: Seq<char>, origin: DescView) -> DescView {
    DescView::Local { binary, origin: Box::new(origin) }
}

/// Wraps a finished acquisition into a `Local` descriptor retaining
/// its origin strategy.
pub fn wrap_local(binary: String, origin: VersionData) -> (r: VersionData)
    requires
        !(origin@ is Local),
    ensures
        r@ == spec_wrap_local(binary@, origin@),
        r@.wf(),
{
    VersionData::Local { binary, origin: Box::new(origin) }
}

/// Unwrapping a well-formed descriptor and re-wrapping the finished
/// result yields a `Local` whose origin equals the original strategy:
/// the wrapper never nests.
pub proof fn lemma_local_never_nests(d: DescView, binary: Seq<char>)
    requires
        d.wf(),
    ensures
        spec_wrap_local(binary, spec_effective(d, true)) matches DescView::Local { origin, .. }
            && *origin == spec_effective(d, true),
        d is Local ==> spec_effective(d, true) == *d->Local_origin,
        spec_wrap_local(binary, spec_effective(d, true)).wf(),
{
}

} // verus!
