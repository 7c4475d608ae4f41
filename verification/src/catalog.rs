//! The remote catalog: how each host release resolves to a version
//! with an acquisition descriptor, and how the ordered catalog is
//! rebuilt on every refresh.

use crate::codec::parse_descriptor;
use crate::config::LauncherConfig;
use crate::descriptor::{DescView, VersionData};
use crate::paths::Platform;
use crate::text::{contains_sub, spec_contains, str_eq};
use vstd::prelude::*;

verus! {

/// One downloadable asset of a host release.
#[derive(Debug)]
pub struct ReleaseAsset {
    pub name: String,
    pub browser_download_url: String,
}

pub struct AssetView {
    pub name: Seq<char>,
    pub url: Seq<char>,
}

impl View for ReleaseAsset {
    type V = AssetView;

    open spec fn view(&self) -> AssetView {
        AssetView { name: self.name@, url: self.browser_download_url@ }
    }
}

/// One release as the host lists it: a display name, its downloadable
/// assets, and the generated source-archive reference.
#[derive(Debug)]
pub struct Release {
    pub name: Option<String>,
    pub assets: Vec<ReleaseAsset>,
    pub zipball_url: Option<String>,
}

pub struct ReleaseView {
    pub name: Option<Seq<char>>,
    pub assets: Seq<AssetView>,
    pub zipball_url: Option<Seq<char>>,
}

impl View for Release {
    type V = ReleaseView;

    open spec fn view(&self) -> ReleaseView {
        ReleaseView {
            name: match self.name {
                Some(n) => Some(n@),
                None => None,
            },
            assets: self.assets@.map_values(|a: ReleaseAsset| a@),
            zipball_url: match self.zipball_url {
                Some(u) => Some(u@),
                None => None,
            },
        }
    }
}

/// A named version of the catalog, owning its acquisition descriptor.
#[derive(Debug)]
pub struct Version {
    pub name: String,
    pub data: VersionData,
}

impl Clone for Version {
    fn clone(&self) -> (r: Self)
        ensures
            r@ == self@,
    {
        Version { name: self.name.clone(), data: self.data.clone() }
    }
}

impl PartialEq for Version {
    fn eq(&self, other: &Self) -> (r: bool) {
        str_eq(self.name.as_str(), other.name.as_str())
    }
}

impl vstd::std_specs::cmp::PartialEqSpecImpl for Version {
    open spec fn obeys_eq_spec() -> bool {
        true
    }

    open spec fn eq_spec(&self, other: &Self) -> bool {
        self.name@ == other.name@
    }
}

impl Version {
    /// Directory of this version under the versions root.
    pub fn path(&self) -> (r: String)
        ensures
            r@ == crate::paths::spec_version_path(self.name@),
    {
        crate::paths::get_version_path(self.name.as_str())
    }

    /// Where a raw prebuilt download of this version is stored.
    pub fn downloaded_path(&self, platform: Platform) -> (r: String)
        ensures
            r@ == crate::paths::spec_version_path(self.name@) + "/"@
                + crate::paths::spec_downloaded_name(platform),
    {
        crate::paths::join_path(
            self.path().as_str(),
            crate::paths::downloaded_name(platform).as_str(),
        )
    }

    /// Resolves one host release to a version; see [`resolve_release`]
    /// for the precedence this follows.
    pub fn parse(
        release: &Release,
        sidecar: Option<&VersionData>,
        use_prebuilt: bool,
        platform: Platform,
    ) -> (r: Option<Version>)
        requires
            sidecar matches Some(d) ==> d@.wf(),
        ensures
            match r {
                Some(v) => spec_resolve_release(
                    release@,
                    opt_desc_view(sidecar),
                    use_prebuilt,
                    platform,
                ) == Some(v@) && v@.data.wf(),
                None => spec_resolve_release(
                    release@,
                    opt_desc_view(sidecar),
                    use_prebuilt,
                    platform,
                ) is None,
            },
    {
        resolve_release(release, sidecar, use_prebuilt, platform)
    }
}

pub struct VersionView {
    pub name: Seq<char>,
    pub data: DescView,
}

impl View for Version {
    type V = VersionView;

    open spec fn view(&self) -> VersionView {
        VersionView { name: self.name@, data: self.data@ }
    }
}

pub open spec fn version_views(s: Seq<Version>) -> Seq<VersionView> {
    s.map_values(|v: Version| v@)
}

pub open spec fn sidecar_views(s: Seq<Option<VersionData>>) -> Seq<Option<DescView>> {
    s.map_values(
        |o: Option<VersionData>|
            match o {
                Some(d) => Some(d@),
                None => None,
            },
    )
}

pub open spec fn release_views(s: Seq<Release>) -> Seq<ReleaseView> {
    s.map_values(|r: Release| r@)
}

/// An asset fits the running platform: the host marks its Windows
/// builds `win64` and its portable Unix builds `AppImage`; any other
/// platform has no prebuilt artifact.
pub open spec fn spec_asset_matches(a: AssetView, p: Platform) -> bool {
    match p {
        Platform::Windows => spec_contains(a.name, "win64"@),
        Platform::Unix => spec_contains(a.name, "AppImage"@),
        Platform::Other => false,
    }
}

pub fn asset_matches(a: &ReleaseAsset, p: Platform) -> (r: bool)
    ensures
        r == spec_asset_matches(a@, p),
{
    match p {
        Platform::Windows => contains_sub(a.name.as_str(), "win64"),
        Platform::Unix => contains_sub(a.name.as_str(), "AppImage"),
        Platform::Other => false,
    }
}

/// Download URL of the first platform-appropriate asset, if any.
pub open spec fn spec_find_asset(assets: Seq<AssetView>, p: Platform) -> Option<Seq<char>>
    decreases assets.len(),
{
    if assets.len() == 0 {
        None
    } else if spec_asset_matches(assets[0], p) {
        Some(assets[0].url)
    } else {
        spec_find_asset(assets.skip(1), p)
    }
}

pub fn find_platform_version(assets: &Vec<ReleaseAsset>, platform: Platform) -> (r: Option<
    String,
>)
    ensures
        match r {
            Some(u) => spec_find_asset(assets@.map_values(|a: ReleaseAsset| a@), platform) == Some(
                u@,
            ),
            None => spec_find_asset(assets@.map_values(|a: ReleaseAsset| a@), platform) is None,
        },
{
    let ghost full = assets@.map_values(|a: ReleaseAsset| a@);
    proof {
        assert(full.skip(0) =~= full);
    }
    let n = assets.len();
    let mut i: usize = 0;
    while i < n
        invariant
            n == assets@.len(),
            i <= n,
            full == assets@.map_values(|a: ReleaseAsset| a@),
            spec_find_asset(full, platform) == spec_find_asset(full.skip(i as int), platform),
        decreases n - i,
    {
        if asset_matches(&assets[i], platform) {
            proof {
                assert(full.skip(i as int)[0] == full[i as int]);
            }
            return Some(assets[i].browser_download_url.clone());
        }
        proof {
            assert(full.skip(i as int)[0] == full[i as int]);
            assert(full.skip(i as int).skip(1) =~= full.skip(i as int + 1));
        }
        i += 1;
    }
    proof {
        assert(full.skip(n as int) =~= Seq::<AssetView>::empty());
    }
    None
}

/// The descriptor a release resolves to, by the fixed precedence:
/// an existing sidecar descriptor wins; else a platform-appropriate
/// prebuilt binary, if the configuration prefers prebuilt binaries
/// and the release offers one; else the source archive; else nothing
/// usable exists.
pub open spec fn spec_resolve_data(
    rel: ReleaseView,
    sidecar: Option<DescView>,
    use_prebuilt: bool,
    p: Platform,
) -> DescView {
    if sidecar is Some {
        sidecar->0
    } else if use_prebuilt && spec_find_asset(rel.assets, p) is Some {
        DescView::Binary {
            url: spec_find_asset(rel.assets, p)->0,
            unzip: p == Platform::Windows,
        }
    } else if rel.zipball_url is Some {
        DescView::Source { zipball_url: rel.zipball_url->0 }
    } else {
        DescView::NotFound
    }
}

/// A release with a usable name resolves to exactly one version; one
/// without is skipped.
pub open spec fn spec_resolve_release(
    rel: ReleaseView,
    sidecar: Option<DescView>,
    use_prebuilt: bool,
    p: Platform,
) -> Option<VersionView> {
    match rel.name {
        Some(nm) => Some(
            VersionView { name: nm, data: spec_resolve_data(rel, sidecar, use_prebuilt, p) },
        ),
        None => None,
    }
}

/// Every release the host returns is assigned exactly one
/// descriptor, by the fixed precedence: an existing sidecar, then a
/// platform binary when prebuilt binaries are preferred, then the
/// source archive, then nothing usable.
pub proof fn lemma_resolve_precedence(
    rel: ReleaseView,
    sidecar: Option<DescView>,
    use_prebuilt: bool,
    p: Platform,
)
    ensures
        ({
            let d = spec_resolve_data(rel, sidecar, use_prebuilt, p);
            &&& (sidecar is Some ==> d == sidecar->0)
            &&& (sidecar is None && use_prebuilt && spec_find_asset(rel.assets, p) is Some ==> d
                == (DescView::Binary {
                url: spec_find_asset(rel.assets, p)->0,
                unzip: p == Platform::Windows,
            }))
            &&& (sidecar is None && !(use_prebuilt && spec_find_asset(rel.assets, p) is Some)
                && rel.zipball_url is Some ==> d == (DescView::Source {
                zipball_url: rel.zipball_url->0,
            }))
            &&& (sidecar is None && !(use_prebuilt && spec_find_asset(rel.assets, p) is Some)
                && rel.zipball_url is None ==> d == DescView::NotFound)
        }),
{
}

pub open spec fn opt_desc_view(o: Option<&VersionData>) -> Option<DescView> {
    match o {
        Some(d) => Some(d@),
        None => None,
    }
}

/// Resolves one host release to a version, assigning exactly one
/// descriptor variant by the sidecar > prebuilt binary > source
/// archive > not-found precedence.
pub fn resolve_release(
    release: &Release,
    sidecar: Option<&VersionData>,
    use_prebuilt: bool,
    platform: Platform,
) -> (r: Option<Version>)
    requires
        sidecar matches Some(d) ==> d@.wf(),
    ensures
        match r {
            Some(v) => spec_resolve_release(release@, opt_desc_view(sidecar), use_prebuilt, platform)
                == Some(v@) && v@.data.wf(),
            None => spec_resolve_release(release@, opt_desc_view(sidecar), use_prebuilt, platform)
                is None,
        },
{
    let name = match &release.name {
        Some(n) => n.clone(),
        None => {
            return None;
        },
    };
    let data = if let Some(d) = sidecar {
        d.clone()
    } else {
        let found = if use_prebuilt {
            find_platform_version(&release.assets, platform)
        } else {
            None
        };
        match found {
            Some(url) => VersionData::Binary { url, unzip: platform == Platform::Windows },
            None => match &release.zipball_url {
                Some(z) => VersionData::Source { zipball_url: z.clone() },
                None => VersionData::NotFound,
            },
        }
    };
    Some(Version { name, data })
}

/// Reserved display label of the synthetic tracking entry that heads
/// every catalog.
pub open spec fn spec_latest_name() -> Seq<char> {
    "Latest (Git)"@
}

pub fn latest_name() -> (r: String)
    ensures
        r@ == spec_latest_name(),
{
    "Latest (Git)".to_owned()
}

/// The catalog built from an ordered sequence of resolved versions:
/// the synthetic tracking entry always stands at index 0 and the
/// resolved versions follow in host order.
pub fn build_catalog(resolved: Vec<Version>) -> (r: Vec<Version>)
    ensures
        r@.len() == resolved@.len() + 1,
        r@[0]@.name == spec_latest_name(),
        r@[0]@.data == DescView::GitLatest,
        forall|i: int| 0 <= i < resolved@.len() ==> r@[i + 1] == resolved@[i],
{
    let mut r: Vec<Version> = Vec::new();
    r.push(Version { name: latest_name(), data: VersionData::GitLatest });
    let mut rest = resolved;
    r.append(&mut rest);
    r
}

/// In-order resolution of every host release; releases lacking a
/// usable name are skipped.
pub open spec fn spec_resolve_catalog(
    rels: Seq<ReleaseView>,
    sidecars: Seq<Option<DescView>>,
    use_prebuilt: bool,
    p: Platform,
) -> Seq<VersionView>
    decreases rels.len(),
{
    if rels.len() == 0 {
        Seq::empty()
    } else {
        (match spec_resolve_release(rels[0], sidecars[0], use_prebuilt, p) {
            Some(v) => seq![v],
            None => Seq::empty(),
        }) + spec_resolve_catalog(rels.skip(1), sidecars.skip(1), use_prebuilt, p)
    }
}

/// The whole catalog a refresh publishes for a given host response:
/// the synthetic tracking entry, then the resolved releases in order.
pub open spec fn spec_refresh_catalog(
    rels: Seq<ReleaseView>,
    sidecars: Seq<Option<DescView>>,
    use_prebuilt: bool,
    p: Platform,
) -> Seq<VersionView> {
    seq![VersionView { name: spec_latest_name(), data: DescView::GitLatest }]
        + spec_resolve_catalog(rels, sidecars, use_prebuilt, p)
}

/// Resolves a whole host response in listing order.
pub fn resolve_catalog(
    releases: &Vec<Release>,
    sidecars: &Vec<Option<VersionData>>,
    use_prebuilt: bool,
    platform: Platform,
) -> (r: Vec<Version>)
    requires
        releases@.len() == sidecars@.len(),
        forall|i: int|
            0 <= i < sidecars@.len() ==> ((#[trigger] sidecars@[i]) matches Some(d) ==> d@.wf()),
    ensures
        version_views(r@) == spec_resolve_catalog(
            release_views(releases@),
            sidecar_views(sidecars@),
            use_prebuilt,
            platform,
        ),
        forall|i: int| 0 <= i < r@.len() ==> (#[trigger] r@[i])@.data.wf(),
{
    let ghost rels = release_views(releases@);
    let ghost scs = sidecar_views(sidecars@);
    let n = releases.len();
    let mut r: Vec<Version> = Vec::new();
    proof {
        assert(rels.skip(0) =~= rels);
        assert(scs.skip(0) =~= scs);
        assert(version_views(r@) =~= Seq::<VersionView>::empty());
        assert(Seq::<VersionView>::empty() + spec_resolve_catalog(rels, scs, use_prebuilt, platform)
            =~= spec_resolve_catalog(rels, scs, use_prebuilt, platform));
    }
    let mut i: usize = 0;
    while i < n
        invariant
            n == releases@.len(),
            n == sidecars@.len(),
            i <= n,
            rels == release_views(releases@),
            scs == sidecar_views(sidecars@),
            forall|k: int|
                0 <= k < sidecars@.len() ==> ((#[trigger] sidecars@[k]) matches Some(d) ==> d@.wf()),
            spec_resolve_catalog(rels, scs, use_prebuilt, platform) == version_views(r@)
                + spec_resolve_catalog(
                rels.skip(i as int),
                scs.skip(i as int),
                use_prebuilt,
                platform,
            ),
            forall|k: int| 0 <= k < r@.len() ==> (#[trigger] r@[k])@.data.wf(),
        decreases n - i,
    {
        let sidecar = match &sidecars[i] {
            Some(d) => Some(d),
            None => None,
        };
        let ghost r_old = r@;
        let resolved = resolve_release(&releases[i], sidecar, use_prebuilt, platform);
        proof {
            assert(rels.skip(i as int)[0] == rels[i as int]);
            assert(scs.skip(i as int)[0] == scs[i as int]);
            assert(rels.skip(i as int).skip(1) =~= rels.skip(i as int + 1));
            assert(scs.skip(i as int).skip(1) =~= scs.skip(i as int + 1));
            assert(rels[i as int] == releases@[i as int]@);
            assert(scs[i as int] == opt_desc_view(match &sidecars@[i as int] {
                Some(d) => Some(d),
                None => None,
            }));
        }
        match resolved {
            Some(v) => {
                r.push(v);
                proof {
                    assert(version_views(r@) =~= version_views(r_old) + seq![v@]);
                    assert(version_views(r_old) + (seq![v@] + spec_resolve_catalog(
                        rels.skip(i as int + 1),
                        scs.skip(i as int + 1),
                        use_prebuilt,
                        platform,
                    )) =~= version_views(r@) + spec_resolve_catalog(
                        rels.skip(i as int + 1),
                        scs.skip(i as int + 1),
                        use_prebuilt,
                        platform,
                    ));
                }
            },
            None => {
                proof {
                    assert(Seq::<VersionView>::empty() + spec_resolve_catalog(
                        rels.skip(i as int + 1),
                        scs.skip(i as int + 1),
                        use_prebuilt,
                        platform,
                    ) =~= spec_resolve_catalog(
                        rels.skip(i as int + 1),
                        scs.skip(i as int + 1),
                        use_prebuilt,
                        platform,
                    ));
                }
            },
        }
        i += 1;
    }
    proof {
        assert(rels.skip(n as int) =~= Seq::<ReleaseView>::empty());
        assert(version_views(r@) + spec_resolve_catalog(
            rels.skip(n as int),
            scs.skip(n as int),
            use_prebuilt,
            platform,
        ) =~= version_views(r@));
    }
    r
}

/// Refresh, success path: resolves the host response and publishes
/// the catalog with the synthetic tracking entry prepended.
pub fn refresh_catalog(
    releases: &Vec<Release>,
    sidecars: &Vec<Option<VersionData>>,
    config: &LauncherConfig,
    platform: Platform,
) -> (r: Vec<Version>)
    requires
        releases@.len() == sidecars@.len(),
        forall|i: int|
            0 <= i < sidecars@.len() ==> ((#[trigger] sidecars@[i]) matches Some(d) ==> d@.wf()),
    ensures
        version_views(r@) == spec_refresh_catalog(
            release_views(releases@),
            sidecar_views(sidecars@),
            config.use_prebuilt_when_possible,
            platform,
        ),
        r@.len() >= 1,
        r@[0]@.name == spec_latest_name(),
        r@[0]@.data == DescView::GitLatest,
        forall|i: int| 0 <= i < r@.len() ==> (#[trigger] r@[i])@.data.wf(),
{
    let resolved = resolve_catalog(
        releases,
        sidecars,
        config.use_prebuilt_when_possible,
        platform,
    );
    let ghost resolved_views = version_views(resolved@);
    proof {
        assert forall|i: int| 0 <= i < resolved_views.len() implies (#[trigger] resolved_views[i]).data.wf() by {
            assert(resolved_views[i] == resolved@[i]@);
        }
    }
    let r = build_catalog(resolved);
    proof {
        assert(version_views(r@) =~= spec_refresh_catalog(
            release_views(releases@),
            sidecar_views(sidecars@),
            config.use_prebuilt_when_possible,
            platform,
        ));
        assert forall|i: int| 0 <= i < r@.len() implies (#[trigger] r@[i])@.data.wf() by {
            if i > 0 {
                assert(version_views(r@)[i] == r@[i]@);
                assert(version_views(r@)[i] == resolved_views[i - 1]);
            }
        }
    }
    r
}

/// Rebuilding the catalog from an unchanged host response and
/// unchanged sidecar state yields a catalog equal in content, with
/// the synthetic tracking entry at index 0 both times.
pub proof fn lemma_refresh_idempotent(
    rels: Seq<ReleaseView>,
    sidecars: Seq<Option<DescView>>,
    use_prebuilt: bool,
    p: Platform,
)
    ensures
        ({
            let c1 = spec_refresh_catalog(rels, sidecars, use_prebuilt, p);
            let c2 = spec_refresh_catalog(rels, sidecars, use_prebuilt, p);
            &&& c1 == c2
            &&& c1.len() >= 1
            &&& c1[0].name == spec_latest_name()
            &&& c1[0].data == DescView::GitLatest
            &&& c1.skip(1) == c2.skip(1)
        }),
{
}

/// Refresh, fallback path: the catalog built from a scan of the local
/// versions directory.  Each scanned subdirectory with a readable
/// sidecar descriptor becomes a version; the rest are skipped.
pub open spec fn spec_local_catalog(
    names: Seq<Seq<char>>,
    sidecars: Seq<Option<DescView>>,
) -> Seq<VersionView>
    decreases names.len(),
{
    if names.len() == 0 {
        Seq::empty()
    } else {
        (match sidecars[0] {
            Some(d) => seq![VersionView { name: names[0], data: d }],
            None => Seq::empty(),
        }) + spec_local_catalog(names.skip(1), sidecars.skip(1))
    }
}

/// Parses a sidecar text if one could be read.  A missing or corrupt
/// sidecar yields nothing; a sidecar holding the text of a
/// well-formed descriptor yields that descriptor.
pub fn parse_sidecar(text: Option<&String>) -> (r: Option<VersionData>)
    ensures
        r matches Some(v) ==> v@.wf(),
        forall|d: DescView|
            d.wf() && (text matches Some(t) && t@ == crate::codec::spec_ser(d)) ==> (r matches Some(
                v,
            ) && v@ == d),
{
    match text {
        Some(t) => parse_descriptor(t.as_str()),
        None => None,
    }
}

/// Builds the fallback catalog entries from the scanned directory
/// names and their parsed sidecars, in scan order.
pub fn local_scan_catalog(names: &Vec<String>, sidecars: Vec<Option<VersionData>>) -> (r: Vec<
    Version,
>)
    requires
        names@.len() == sidecars@.len(),
    ensures
        version_views(r@) == spec_local_catalog(
            names@.map_values(|n: String| n@),
            sidecar_views(sidecars@),
        ),
{
    let ghost nms = names@.map_values(|n: String| n@);
    let ghost scs = sidecar_views(sidecars@);
    let n = names.len();
    let mut rest = sidecars;
    let mut r: Vec<Version> = Vec::new();
    proof {
        assert(nms.skip(0) =~= nms);
        assert(scs.skip(0) =~= scs);
        assert(version_views(r@) =~= Seq::<VersionView>::empty());
        assert(Seq::<VersionView>::empty() + spec_local_catalog(nms, scs) =~= spec_local_catalog(
            nms,
            scs,
        ));
    }
    let mut i: usize = 0;
    while i < n
        invariant
            n == names@.len(),
            n == rest@.len(),
            i <= n,
            nms == names@.map_values(|n2: String| n2@),
            scs == sidecar_views(rest@),
            spec_local_catalog(nms, scs) == version_views(r@) + spec_local_catalog(
                nms.skip(i as int),
                scs.skip(i as int),
            ),
        decreases n - i,
    {
        let ghost r_old = r@;
        proof {
            assert(nms.skip(i as int)[0] == nms[i as int]);
            assert(scs.skip(i as int)[0] == scs[i as int]);
            assert(nms.skip(i as int).skip(1) =~= nms.skip(i as int + 1));
            assert(scs.skip(i as int).skip(1) =~= scs.skip(i as int + 1));
        }
        match &rest[i] {
            Some(d) => {
                let v = Version { name: names[i].clone(), data: d.clone() };
                r.push(v);
                proof {
                    assert(version_views(r@) =~= version_views(r_old) + seq![
                        VersionView { name: nms[i as int], data: scs[i as int]->0 },
                    ]);
                    assert(version_views(r_old) + (seq![
                        VersionView { name: nms[i as int], data: scs[i as int]->0 },
                    ] + spec_local_catalog(nms.skip(i as int + 1), scs.skip(i as int + 1)))
                        =~= version_views(r@) + spec_local_catalog(
                        nms.skip(i as int + 1),
                        scs.skip(i as int + 1),
                    ));
                }
            },
            None => {
                proof {
                    assert(Seq::<VersionView>::empty() + spec_local_catalog(
                        nms.skip(i as int + 1),
                        scs.skip(i as int + 1),
                    ) =~= spec_local_catalog(nms.skip(i as int + 1), scs.skip(i as int + 1)));
                }
            },
        }
        i += 1;
    }
    proof {
        assert(nms.skip(n as int) =~= Seq::<Seq<char>>::empty());
        assert(version_views(r@) + spec_local_catalog(nms.skip(n as int), scs.skip(n as int))
            =~= version_views(r@));
    }
    r
}

/// Finds the first catalog entry with the given name.
pub fn try_find(catalog: &Vec<Version>, name: &str) -> (r: Option<Version>)
    ensures
        match r {
            Some(v) => exists|i: int|
                0 <= i < catalog@.len() && (#[trigger] catalog@[i])@.name == name@ && v@
                    == catalog@[i]@ && forall|m: int|
                    0 <= m < i ==> (#[trigger] catalog@[m])@.name != name@,
            None => forall|i: int|
                0 <= i < catalog@.len() ==> (#[trigger] catalog@[i])@.name != name@,
        },
{
    let n = catalog.len();
    let mut i: usize = 0;
    while i < n
        invariant
            n == catalog@.len(),
            i <= n,
            forall|k: int| 0 <= k < i ==> (#[trigger] catalog@[k])@.name != name@,
        decreases n - i,
    {
        if str_eq(catalog[i].name.as_str(), name) {
            return Some(catalog[i].clone());
        }
        i += 1;
    }
    None
}

} // verus!
