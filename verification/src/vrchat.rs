//! A census of a game's download cache: how many files of each kind it holds
//! and how much texture memory they would take at the chosen budget.

use vstd::prelude::*;
use crate::path::{extension_or_empty, lower_extension};
use crate::text::{decimal, eq_str, extend_chars, from_chars, lower, push_decimal, to_chars};
use crate::unity_bundle::{is_probable_bundle, spec_probable_bundle};
use crate::watch::{is_texture_ext, texture_ext};

verus! {

/// Counts of the files found in a cache.
#[derive(Debug, Clone, PartialEq, Eq)]
pub struct VrchatAssetReport {
    pub textures: usize,
    pub meshes: usize,
    pub probable_bundles: usize,
    pub passthrough: usize,
    pub estimated_texture_megabytes: u64,
}

impl Default for VrchatAssetReport {
    fn default() -> (r: Self)
        ensures
            r.textures == 0 && r.meshes == 0 && r.probable_bundles == 0 && r.passthrough == 0
                && r.estimated_texture_megabytes == 0,
    {
        VrchatAssetReport {
            textures: 0,
            meshes: 0,
            probable_bundles: 0,
            passthrough: 0,
            estimated_texture_megabytes: 0,
        }
    }
}

/// Whether `max_side` is small enough for the estimate to fit a `u64`.
pub open spec fn estimate_fits(max_side: u32) -> bool {
    (max_side as nat) * (max_side as nat) * 4 <= u64::MAX
}

/// Mebibytes of an RGBA8 texture of `max_side` by `max_side`, at least one.
pub open spec fn spec_estimate_mb(max_side: u32) -> nat {
    let mb = (max_side as nat) * (max_side as nat) * 4 / (1024 * 1024);
    if mb < 1 {
        1
    } else {
        mb
    }
}

pub fn estimate_texture_mb(max_side: u32) -> (mb: u64)
    requires
        estimate_fits(max_side),
    ensures
        mb == spec_estimate_mb(max_side),
{
    let m = max_side as u64;
    let v = m * m * 4 / (1024 * 1024);
    if v < 1 {
        1
    } else {
        v
    }
}

/// The kinds a cache file is counted under.
pub enum CacheKind {
    Texture,
    Mesh,
    Bundle,
    Other,
}

/// The kind of the file at `path`: by its lowercased extension, then by the
/// probable-bundle rule.
pub open spec fn kind_of(path: Seq<char>) -> CacheKind {
    let e = lower(extension_or_empty(path));
    if is_texture_ext(e) {
        CacheKind::Texture
    } else if e == "obj"@ {
        CacheKind::Mesh
    } else if spec_probable_bundle(path) {
        CacheKind::Bundle
    } else {
        CacheKind::Other
    }
}

/// The number of files of each kind among `files`, as
/// (textures, meshes, bundles, others).
pub open spec fn census(files: Seq<Seq<char>>) -> (nat, nat, nat, nat)
    decreases files.len(),
{
    if files.len() == 0 {
        (0, 0, 0, 0)
    } else {
        let (t, m, b, o) = census(files.drop_last());
        match kind_of(files.last()) {
            CacheKind::Texture => (t + 1, m, b, o),
            CacheKind::Mesh => (t, m + 1, b, o),
            CacheKind::Bundle => (t, m, b + 1, o),
            CacheKind::Other => (t, m, b, o + 1),
        }
    }
}

/// Every file of the cache is counted under exactly one kind.
pub proof fn lemma_census_total(files: Seq<Seq<char>>)
    ensures
        census(files).0 + census(files).1 + census(files).2 + census(files).3 == files.len(),
    decreases files.len(),
{
    if files.len() > 0 {
        lemma_census_total(files.drop_last());
    }
}

/// A prefix of a cache holds no more textures than the whole cache.
proof fn lemma_census_textures_prefix(files: Seq<Seq<char>>, i: int)
    requires
        0 <= i <= files.len(),
    ensures
        census(files.take(i)).0 <= census(files).0,
    decreases files.len(),
{
    if i < files.len() {
        assert(files.drop_last().take(i) =~= files.take(i));
        lemma_census_textures_prefix(files.drop_last(), i);
    } else {
        assert(files.take(i) =~= files);
    }
}

/// The paths of a list of strings.
pub open spec fn path_views(files: Seq<String>) -> Seq<Seq<char>> {
    files.map_values(|f: String| f@)
}

/// Counts the files of a cache (every regular file found under its root) and
/// estimates their texture memory at `max_texture_size`.
pub fn analyze_cache(files: &[String], max_texture_size: u32) -> (r: VrchatAssetReport)
    requires
        census(path_views(files@)).0 > 0 ==> estimate_fits(max_texture_size) && census(
            path_views(files@),
        ).0 * spec_estimate_mb(max_texture_size) <= u64::MAX,
    ensures
        ({
            let (t, m, b, o) = census(path_views(files@));
            &&& r.textures == t
            &&& r.meshes == m
            &&& r.probable_bundles == b
            &&& r.passthrough == o
            &&& r.estimated_texture_megabytes == t * spec_estimate_mb(max_texture_size)
        }),
{
    let mut report = VrchatAssetReport::default();
    let ghost pv = path_views(files@);
    let ghost est = spec_estimate_mb(max_texture_size);
    let n = files.len();
    for i in 0..n
        invariant
            n == files@.len() == pv.len(),
            pv == path_views(files@),
            est == spec_estimate_mb(max_texture_size),
            census(pv).0 > 0 ==> estimate_fits(max_texture_size) && census(pv).0 * est <= u64::MAX,
            ({
                let (t, m, b, o) = census(pv.take(i as int));
                &&& report.textures == t
                &&& report.meshes == m
                &&& report.probable_bundles == b
                &&& report.passthrough == o
                &&& report.estimated_texture_megabytes == t * est
            }),
    {
        proof {
            lemma_census_total(pv.take(i as int));
            assert(pv.take(i + 1).drop_last() =~= pv.take(i as int));
            assert(pv[i as int] == files@[i as int]@);
        }
        let path = files[i].as_str();
        let e = lower_extension(path);
        if texture_ext(e.as_slice()) {
            proof {
                let t = census(pv.take(i as int)).0;
                let total = census(pv).0;
                lemma_census_textures_prefix(pv, i + 1);
                assert(census(pv.take(i + 1)).0 == t + 1);
                assert((t + 1) * est <= total * est && (t + 1) * est == t * est + est)
                    by (nonlinear_arith)
                    requires
                        t + 1 <= total,
                ;
            }
            let mb = estimate_texture_mb(max_texture_size);
            report.textures = report.textures + 1;
            report.estimated_texture_megabytes = report.estimated_texture_megabytes + mb;
        } else if eq_str(e.as_slice(), "obj") {
            report.meshes = report.meshes + 1;
        } else if is_probable_bundle(path) {
            report.probable_bundles = report.probable_bundles + 1;
        } else {
            report.passthrough = report.passthrough + 1;
        }
    }
    assert(pv.take(n as int) =~= pv);
    report
}

/// The number of textures among `files`, by the census's rule.
fn count_textures(files: &[String]) -> (c: usize)
    ensures
        c == census(path_views(files@)).0,
{
    let ghost pv = path_views(files@);
    let mut c: usize = 0;
    let n = files.len();
    for i in 0..n
        invariant
            n == files@.len() == pv.len(),
            pv == path_views(files@),
            c == census(pv.take(i as int)).0,
    {
        proof {
            lemma_census_total(pv.take(i as int));
            assert(pv.take(i + 1).drop_last() =~= pv.take(i as int));
            assert(pv[i as int] == files@[i as int]@);
        }
        let e = lower_extension(files[i].as_str());
        if texture_ext(e.as_slice()) {
            c = c + 1;
        }
    }
    assert(pv.take(n as int) =~= pv);
    c
}

/// The census of a cache, or none where it holds textures and their estimate
/// would not fit a `u64` (a texture side too large for the per-texture
/// estimate, or more textures than the total can count).
pub fn analyze_cache_checked(files: &[String], max_texture_size: u32) -> (r: Option<
    VrchatAssetReport,
>)
    ensures
        r is Some <==> (census(path_views(files@)).0 > 0 ==> estimate_fits(max_texture_size)
            && census(path_views(files@)).0 * spec_estimate_mb(max_texture_size) <= u64::MAX),
        r matches Some(rep) ==> ({
            let (t, m, b, o) = census(path_views(files@));
            &&& rep.textures == t
            &&& rep.meshes == m
            &&& rep.probable_bundles == b
            &&& rep.passthrough == o
            &&& rep.estimated_texture_megabytes == t * spec_estimate_mb(max_texture_size)
        }),
{
    let textures = count_textures(files);
    if textures == 0 {
        return Some(analyze_cache(files, max_texture_size));
    }
    let m = max_texture_size as u64;
    assert(m * m <= 0xffff_ffff_ffff_ffff) by (nonlinear_arith)
        requires
            m <= 0xffff_ffff,
    ;
    let square = m * m;
    if square > u64::MAX / 4 {
        assert(!estimate_fits(max_texture_size)) by (nonlinear_arith)
            requires
                square == (max_texture_size as nat) * (max_texture_size as nat),
                square > 0xffff_ffff_ffff_ffffnat / 4,
        ;
        return None;
    }
    assert(estimate_fits(max_texture_size)) by (nonlinear_arith)
        requires
            square == (max_texture_size as nat) * (max_texture_size as nat),
            square <= 0xffff_ffff_ffff_ffffnat / 4,
    ;
    let est = estimate_texture_mb(max_texture_size);
    assert(est * textures == textures * est) by (nonlinear_arith);
    match est.checked_mul(textures as u64) {
        None => None,
        Some(_) => Some(analyze_cache(files, max_texture_size)),
    }
}

/// The first line of the report.
pub open spec fn summary_line(r: VrchatAssetReport) -> Seq<char> {
    "VRChat asset report: textures="@ + decimal(r.textures as nat) + ", meshes="@ + decimal(
        r.meshes as nat,
    ) + ", probable_bundles="@ + decimal(r.probable_bundles as nat) + ", passthrough="@ + decimal(
        r.passthrough as nat,
    ) + ", estimated_texture_budget="@ + decimal(r.estimated_texture_megabytes as nat) + "MiB"@
}

pub open spec fn bundle_note() -> Seq<char> {
    "Unity bundles detected; currently staged safely unless a supported decoder is added for rewrite."@
}

pub open spec fn texture_budget_note() -> Seq<char> {
    "Recommendation: try --max-texture-size 768 for Intel HD 620 shared-memory stability."@
}

/// The lines reported for a cache: the counts, a note when bundles were found,
/// and advice when the texture estimate passes 512 MiB.
pub open spec fn spec_recommendation_lines(r: VrchatAssetReport) -> Seq<Seq<char>> {
    seq![summary_line(r)] + (if r.probable_bundles > 0 {
        seq![bundle_note()]
    } else {
        seq![]
    }) + (if r.estimated_texture_megabytes > 512 {
        seq![texture_budget_note()]
    } else {
        seq![]
    })
}

fn push_str(out: &mut Vec<char>, s: &str)
    ensures
        final(out)@ == old(out)@ + s@,
{
    let c = to_chars(s);
    extend_chars(out, c.as_slice());
}

/// The text lines that describe `report`.
pub fn recommendation_lines(report: &VrchatAssetReport) -> (lines: Vec<String>)
    ensures
        lines@.map_values(|s: String| s@) == spec_recommendation_lines(*report),
{
    let mut first: Vec<char> = Vec::new();
    push_str(&mut first, "VRChat asset report: textures=");
    push_decimal(&mut first, report.textures as u64);
    push_str(&mut first, ", meshes=");
    push_decimal(&mut first, report.meshes as u64);
    push_str(&mut first, ", probable_bundles=");
    push_decimal(&mut first, report.probable_bundles as u64);
    push_str(&mut first, ", passthrough=");
    push_decimal(&mut first, report.passthrough as u64);
    push_str(&mut first, ", estimated_texture_budget=");
    push_decimal(&mut first, report.estimated_texture_megabytes);
    push_str(&mut first, "MiB");
    let mut lines: Vec<String> = Vec::new();
    let s0 = from_chars(first.as_slice());
    assert(s0@ =~= summary_line(*report));
    lines.push(s0);
    let ghost after_first = lines@.map_values(|s: String| s@);
    assert(after_first =~= seq![summary_line(*report)]);
    if report.probable_bundles > 0 {
        lines.push(
            String::from_str(
                "Unity bundles detected; currently staged safely unless a supported decoder is added for rewrite.",
            ),
        );
    }
    let ghost mid = lines@.map_values(|s: String| s@);
    assert(mid =~= seq![summary_line(*report)] + (if report.probable_bundles > 0 {
        seq![bundle_note()]
    } else {
        seq![]
    }));
    if report.estimated_texture_megabytes > 512 {
        lines.push(
            String::from_str(
                "Recommendation: try --max-texture-size 768 for Intel HD 620 shared-memory stability.",
            ),
        );
    }
    assert(lines@.map_values(|s: String| s@) =~= spec_recommendation_lines(*report));
    lines
}


/// The cache census and the live watcher agree: a file is counted as a texture
/// exactly when the watcher routes it to the texture pass, as a mesh exactly when
/// it is routed to the mesh pass, and every file routed to the bundle pass is
/// counted as a probable bundle.
pub proof fn lemma_census_agrees_with_routing(path: Seq<char>)
    ensures
        (kind_of(path) is Texture) == (crate::watch::route_for_ext(
            lower(extension_or_empty(path)),
        ) == crate::watch::AssetRoute::Texture),
        (kind_of(path) is Mesh) == (crate::watch::route_for_ext(lower(extension_or_empty(path)))
            == crate::watch::AssetRoute::Mesh),
        crate::watch::route_for_ext(lower(extension_or_empty(path)))
            == crate::watch::AssetRoute::UnityBundle ==> kind_of(path) is Bundle,
{
}

} // verus!
