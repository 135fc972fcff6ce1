//! Recognition of graphics adapters from the names that system tools print,
//! and the tuning advice that follows from them.

use vstd::prelude::*;
use crate::text::{
    contains, contains_str, lines, lower, occurs_at, parse_u32, parse_unsigned, split_lines,
    starts_with_str, to_chars, to_lower, trim, trimmed, from_chars,
};

verus! {

/// Makers of graphics adapters that the advice distinguishes.
#[derive(Debug, Clone, Copy, PartialEq, Eq, Structural)]
pub enum GpuVendor {
    Intel,
    Nvidia,
    Amd,
    Apple,
    Unknown,
}

/// One graphics adapter as reported by the system.
#[derive(Debug, Clone, PartialEq, Eq)]
pub struct GpuInfo {
    pub vendor: GpuVendor,
    pub name: String,
}

impl View for GpuInfo {
    type V = (GpuVendor, Seq<char>);

    open spec fn view(&self) -> (GpuVendor, Seq<char>) {
        (self.vendor, self.name@)
    }
}

/// The views of a list of adapters.
pub open spec fn gpu_views(gs: Seq<GpuInfo>) -> Seq<(GpuVendor, Seq<char>)> {
    gs.map_values(|g: GpuInfo| g@)
}

/// The vendor named by a lowercased adapter name; earlier rules win.
pub open spec fn vendor_of(l: Seq<char>) -> GpuVendor {
    if contains(l, "intel"@) {
        GpuVendor::Intel
    } else if contains(l, "nvidia"@) || contains(l, "geforce"@) || contains(l, "rtx"@)
        || contains(l, "gtx"@) {
        GpuVendor::Nvidia
    } else if contains(l, "amd"@) || contains(l, "radeon"@) {
        GpuVendor::Amd
    } else if contains(l, "apple"@) {
        GpuVendor::Apple
    } else {
        GpuVendor::Unknown
    }
}

/// An adapter is Intel's exactly when its lowercased name mentions `intel`
/// anywhere (an `lspci` line such as `00:02.0 VGA compatible controller: Intel
/// Corporation ...` included); otherwise `nvidia`, `geforce`, `rtx` or `gtx`
/// anywhere make it NVIDIA's, then `amd` or `radeon` AMD's, then `apple`
/// Apple's, and anything else is unknown.
pub proof fn lemma_vendor_by_name(name: Seq<char>)
    ensures
        (vendor_of(lower(name)) == GpuVendor::Intel) == contains(lower(name), "intel"@),
        (vendor_of(lower(name)) == GpuVendor::Nvidia) == (!contains(lower(name), "intel"@) && (
        contains(lower(name), "nvidia"@) || contains(lower(name), "geforce"@) || contains(
            lower(name),
            "rtx"@,
        ) || contains(lower(name), "gtx"@))),
        (vendor_of(lower(name)) == GpuVendor::Amd) == (!contains(lower(name), "intel"@) && !(
        contains(lower(name), "nvidia"@) || contains(lower(name), "geforce"@) || contains(
            lower(name),
            "rtx"@,
        ) || contains(lower(name), "gtx"@)) && (contains(lower(name), "amd"@) || contains(
            lower(name),
            "radeon"@,
        ))),
        (vendor_of(lower(name)) == GpuVendor::Apple) == (!contains(lower(name), "intel"@) && !(
        contains(lower(name), "nvidia"@) || contains(lower(name), "geforce"@) || contains(
            lower(name),
            "rtx"@,
        ) || contains(lower(name), "gtx"@)) && !(contains(lower(name), "amd"@) || contains(
            lower(name),
            "radeon"@,
        )) && contains(lower(name), "apple"@)),
{
}

/// The vendor of the adapter called `name`, ignoring ASCII case.
pub fn classify_vendor(name: &[char]) -> (v: GpuVendor)
    ensures
        v == vendor_of(lower(name@)),
{
    let l = to_lower(name);
    let l = l.as_slice();
    if contains_str(l, "intel") {
        GpuVendor::Intel
    } else if contains_str(l, "nvidia") || contains_str(l, "geforce") || contains_str(l, "rtx")
        || contains_str(l, "gtx") {
        GpuVendor::Nvidia
    } else if contains_str(l, "amd") || contains_str(l, "radeon") {
        GpuVendor::Amd
    } else if contains_str(l, "apple") {
        GpuVendor::Apple
    } else {
        GpuVendor::Unknown
    }
}

/// One adapter per line that is not blank: its trimmed text and the vendor it names.
pub open spec fn gpus_from_lines(ls: Seq<Seq<char>>) -> Seq<(GpuVendor, Seq<char>)>
    decreases ls.len(),
{
    if ls.len() == 0 {
        seq![]
    } else {
        let r = gpus_from_lines(ls.drop_last());
        let t = trim(ls.last());
        if t.len() == 0 {
            r
        } else {
            r.push((vendor_of(lower(t)), t))
        }
    }
}

/// Each adapter read from a tool's lines is the trimmed text of one non-blank
/// line, in order, and is Intel's exactly when that text mentions `intel`
/// anywhere, ignoring ASCII case.
pub proof fn lemma_adapters_from_lines(ls: Seq<Seq<char>>)
    ensures
        gpus_from_lines(ls).len() <= ls.len(),
        forall|i: int|
            0 <= i < gpus_from_lines(ls).len() ==> {
                &&& (#[trigger] gpus_from_lines(ls)[i]).1.len() > 0
                &&& (gpus_from_lines(ls)[i].0 == GpuVendor::Intel) == contains(
                    lower(gpus_from_lines(ls)[i].1),
                    "intel"@,
                )
                &&& exists|j: int| 0 <= j < ls.len() && gpus_from_lines(ls)[i].1 == trim(ls[j])
            },
    decreases ls.len(),
{
    if ls.len() > 0 {
        let pre = ls.drop_last();
        lemma_adapters_from_lines(pre);
        let r = gpus_from_lines(pre);
        let t = trim(ls.last());
        lemma_vendor_by_name(t);
        assert forall|i: int| 0 <= i < gpus_from_lines(ls).len() implies {
            &&& (#[trigger] gpus_from_lines(ls)[i]).1.len() > 0
            &&& (gpus_from_lines(ls)[i].0 == GpuVendor::Intel) == contains(
                lower(gpus_from_lines(ls)[i].1),
                "intel"@,
            )
            &&& exists|j: int| 0 <= j < ls.len() && gpus_from_lines(ls)[i].1 == trim(ls[j])
        } by {
            if i < r.len() {
                assert(gpus_from_lines(ls)[i] == r[i]);
                let j = choose|j: int| 0 <= j < pre.len() && r[i].1 == trim(pre[j]);
                assert(ls[j] == pre[j]);
            } else {
                assert(gpus_from_lines(ls)[i] == (vendor_of(lower(t)), t));
                assert(ls[ls.len() - 1] == ls.last());
            }
        }
    }
}

/// The adapters listed in the output of a system tool, one per non-blank line.
pub fn parse_gpu_names(output: &str) -> (gpus: Vec<GpuInfo>)
    ensures
        gpu_views(gpus@) == gpus_from_lines(lines(output@)),
{
    let chars = to_chars(output);
    let ls = split_lines(chars.as_slice());
    let ghost lsv = ls.deep_view();
    let mut gpus: Vec<GpuInfo> = Vec::new();
    let n = ls.len();
    for i in 0..n
        invariant
            n == ls@.len() == lsv.len(),
            lsv == ls.deep_view(),
            gpu_views(gpus@) == gpus_from_lines(lsv.take(i as int)),
    {
        let t = trimmed(ls[i].as_slice());
        assert(lsv.take(i + 1).drop_last() =~= lsv.take(i as int));
        assert(lsv[i as int] == ls@[i as int]@);
        if t.len() > 0 {
            let vendor = classify_vendor(t.as_slice());
            let name = from_chars(t.as_slice());
            let ghost before = gpus@;
            gpus.push(GpuInfo { vendor, name });
            assert(gpu_views(gpus@) =~= gpu_views(before).push((vendor, t@)));
        }
    }
    assert(lsv.take(n as int) =~= lsv);
    gpus
}

/// Advice for an Intel HD Graphics 620.
pub open spec fn hd620_advice() -> Seq<char> {
    "Intel HD Graphics 620 detected: use --max-texture-size 1024 for quality, 768 for stability, keep live asset passes enabled, and prefer driver/OS upscaling over native high resolution."@
}

/// Advice for other Intel integrated adapters.
pub open spec fn intel_advice() -> Seq<char> {
    "Intel integrated GPU detected: start with --max-texture-size 1024 and lower to 768 if shared memory pressure remains high."@
}

/// Advice when no low-end Intel adapter is present.
pub open spec fn generic_advice() -> Seq<char> {
    "No low-end Intel iGPU profile detected; use Balanced texture preset defaults and adjust after testing."@
}

/// Whether some adapter's name mentions the HD Graphics 620, ignoring ASCII case.
pub open spec fn any_hd620(gs: Seq<GpuInfo>) -> bool {
    exists|i: int| 0 <= i < gs.len() && contains(lower(#[trigger] gs[i].name@), "hd graphics 620"@)
}

/// Whether some adapter is made by Intel.
pub open spec fn any_intel(gs: Seq<GpuInfo>) -> bool {
    exists|i: int| 0 <= i < gs.len() && #[trigger] gs[i].vendor == GpuVendor::Intel
}

/// The advice for a set of adapters.
pub open spec fn spec_recommendation(gs: Seq<GpuInfo>) -> Seq<char> {
    if any_hd620(gs) {
        hd620_advice()
    } else if any_intel(gs) {
        intel_advice()
    } else {
        generic_advice()
    }
}

/// Texture-budget advice for the adapters found.
pub fn recommendation_for(gpus: &[GpuInfo]) -> (s: String)
    ensures
        s@ == spec_recommendation(gpus@),
{
    let n = gpus.len();
    let mut hd620 = false;
    let mut intel = false;
    for i in 0..n
        invariant
            n == gpus@.len(),
            hd620 == exists|j: int|
                0 <= j < i && contains(lower(#[trigger] gpus@[j].name@), "hd graphics 620"@),
            intel == exists|j: int| 0 <= j < i && #[trigger] gpus@[j].vendor == GpuVendor::Intel,
    {
        let name = to_chars(gpus[i].name.as_str());
        let l = to_lower(name.as_slice());
        if contains_str(l.as_slice(), "hd graphics 620") {
            hd620 = true;
        }
        if gpus[i].vendor == GpuVendor::Intel {
            intel = true;
        }
    }
    if hd620 {
        String::from_str(
            "Intel HD Graphics 620 detected: use --max-texture-size 1024 for quality, 768 for stability, keep live asset passes enabled, and prefer driver/OS upscaling over native high resolution.",
        )
    } else if intel {
        String::from_str(
            "Intel integrated GPU detected: start with --max-texture-size 1024 and lower to 768 if shared memory pressure remains high.",
        )
    } else {
        String::from_str(
            "No low-end Intel iGPU profile detected; use Balanced texture preset defaults and adjust after testing.",
        )
    }
}

/// The advice does not depend on the order in which the adapters were listed:
/// any reordering of the same adapters gets the same advice.
pub proof fn lemma_recommendation_ignores_order(gs1: Seq<GpuInfo>, gs2: Seq<GpuInfo>)
    requires
        gs1.to_multiset() == gs2.to_multiset(),
    ensures
        spec_recommendation(gs1) == spec_recommendation(gs2),
{
    assert forall|g: GpuInfo| gs1.contains(g) <==> gs2.contains(g) by {
        vstd::seq_lib::to_multiset_contains(gs1, g);
        vstd::seq_lib::to_multiset_contains(gs2, g);
    }
    if any_hd620(gs1) {
        let i = choose|i: int|
            0 <= i < gs1.len() && contains(lower(#[trigger] gs1[i].name@), "hd graphics 620"@);
        assert(gs1.contains(gs1[i]));
        let j = choose|j: int| 0 <= j < gs2.len() && gs2[j] == gs1[i];
        assert(contains(lower(gs2[j].name@), "hd graphics 620"@));
    }
    if any_hd620(gs2) {
        let i = choose|i: int|
            0 <= i < gs2.len() && contains(lower(#[trigger] gs2[i].name@), "hd graphics 620"@);
        assert(gs2.contains(gs2[i]));
        let j = choose|j: int| 0 <= j < gs1.len() && gs1[j] == gs2[i];
        assert(contains(lower(gs1[j].name@), "hd graphics 620"@));
    }
    if any_intel(gs1) {
        let i = choose|i: int| 0 <= i < gs1.len() && #[trigger] gs1[i].vendor == GpuVendor::Intel;
        assert(gs1.contains(gs1[i]));
        let j = choose|j: int| 0 <= j < gs2.len() && gs2[j] == gs1[i];
        assert(gs2[j].vendor == GpuVendor::Intel);
    }
    if any_intel(gs2) {
        let i = choose|i: int| 0 <= i < gs2.len() && #[trigger] gs2[i].vendor == GpuVendor::Intel;
        assert(gs2.contains(gs2[i]));
        let j = choose|j: int| 0 <= j < gs1.len() && gs1[j] == gs2[i];
        assert(gs1[j].vendor == GpuVendor::Intel);
    }
}

/// Frequency limits of an Intel adapter before they were pinned.
#[derive(Debug, Clone)]
pub struct IntelGpuState {
    pub card_path: String,
    pub original_min: u32,
    pub original_max: u32,
}

/// A DRM device entry that is a whole card (`card0`), not a connector (`card0-HDMI-A-1`).
pub open spec fn is_card_name(name: Seq<char>) -> bool {
    occurs_at(name, "card"@, 0) && !contains(name, "-"@)
}

pub fn is_gpu_card_name(name: &str) -> (b: bool)
    ensures
        b == is_card_name(name@),
{
    let n = to_chars(name);
    starts_with_str(n.as_slice(), "card") && !contains_str(n.as_slice(), "-")
}

/// The number in a sysfs frequency file: the trimmed text parsed as a `u32`.
pub open spec fn spec_sysfs_u32(text: Seq<char>) -> Option<u32> {
    match parse_unsigned(trim(text), u32::MAX as nat) {
        Ok(v) => Some(v as u32),
        Err(_) => None,
    }
}

pub fn parse_sysfs_u32(text: &str) -> (r: Option<u32>)
    ensures
        r == spec_sysfs_u32(text@),
{
    let c = to_chars(text);
    let t = trimmed(c.as_slice());
    match parse_u32(t.as_slice()) {
        Ok(v) => Some(v),
        Err(_) => None,
    }
}


/// Whether some adapter is made by Intel, so that its clock may be pinned.
pub fn has_intel_gpu(gpus: &[GpuInfo]) -> (b: bool)
    ensures
        b == any_intel(gpus@),
{
    let n = gpus.len();
    for i in 0..n
        invariant
            n == gpus@.len(),
            forall|j: int| 0 <= j < i ==> #[trigger] gpus@[j].vendor != GpuVendor::Intel,
    {
        if gpus[i].vendor == GpuVendor::Intel {
            return true;
        }
    }
    false
}

/// The shell query that lists graphics adapters on `platform`.
pub open spec fn spec_gpu_query(platform: crate::platform::Platform) -> (Seq<char>, Seq<Seq<char>>) {
    match platform {
        crate::platform::Platform::Windows => (
            "powershell"@,
            seq![
                "-NoProfile"@,
                "-Command"@,
                "Get-CimInstance Win32_VideoController | Select-Object -ExpandProperty Name"@,
            ],
        ),
        crate::platform::Platform::MacOs => (
            "sh"@,
            seq![
                "-c"@,
                "system_profiler SPDisplaysDataType | awk -F': ' '/Chipset Model/{print $2}'"@,
            ],
        ),
        crate::platform::Platform::Linux => (
            "sh"@,
            seq![
                "-c"@,
                "(command -v lspci >/dev/null && lspci | grep -Ei 'vga|3d|display') || (command -v lshw >/dev/null && lshw -C display 2>/dev/null | grep -Ei 'product|vendor') || (command -v glxinfo >/dev/null && glxinfo | grep -Ei 'OpenGL renderer string') || true"@,
            ],
        ),
    }
}

/// The command whose output `parse_gpu_names` reads on `platform`.
pub fn gpu_query_command(platform: crate::platform::Platform) -> (c: crate::optimizer::CommandSpec)
    ensures
        c@ == spec_gpu_query(platform),
{
    match platform {
        crate::platform::Platform::Windows => {
            let c = crate::optimizer::CommandSpec::new(
                "powershell",
                &[
                    "-NoProfile",
                    "-Command",
                    "Get-CimInstance Win32_VideoController | Select-Object -ExpandProperty Name",
                ],
            );
            assert(c@.1 =~= spec_gpu_query(platform).1);
            c
        },
        crate::platform::Platform::MacOs => {
            let c = crate::optimizer::CommandSpec::new(
                "sh",
                &[
                    "-c",
                    "system_profiler SPDisplaysDataType | awk -F': ' '/Chipset Model/{print $2}'",
                ],
            );
            assert(c@.1 =~= spec_gpu_query(platform).1);
            c
        },
        crate::platform::Platform::Linux => {
            let c = crate::optimizer::CommandSpec::new(
                "sh",
                &[
                    "-c",
                    "(command -v lspci >/dev/null && lspci | grep -Ei 'vga|3d|display') || (command -v lshw >/dev/null && lshw -C display 2>/dev/null | grep -Ei 'product|vendor') || (command -v glxinfo >/dev/null && glxinfo | grep -Ei 'OpenGL renderer string') || true",
                ],
            );
            assert(c@.1 =~= spec_gpu_query(platform).1);
            c
        },
    }
}

} // verus!
