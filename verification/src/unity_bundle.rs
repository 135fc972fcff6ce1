//! Recognition of Unity asset bundles by their header and by their file name.

use vstd::prelude::*;
use crate::path::{extension_or_empty, file_name_or_empty, lower_extension, lower_file_name};
use crate::text::{eq_str, from_chars, lower, to_chars};
use crate::watch::{bundle_ext, is_bundle_ext};

verus! {

/// What the header of a Unity bundle tells.
#[derive(Debug, Clone, PartialEq, Eq)]
pub struct UnityBundleInfo {
    pub path: String,
    pub signature: String,
    pub supported_for_rewrite: bool,
}

/// The number of header bytes that are examined.
pub const HEADER_LEN: usize = 128;

/// The header as a zero-filled buffer of `HEADER_LEN` bytes.
pub open spec fn padded(h: Seq<u8>) -> Seq<u8> {
    h + Seq::new((HEADER_LEN - h.len()) as nat, |i: int| 0u8)
}

/// Whether the window `w` begins with the bytes `p`.
pub open spec fn bytes_start_with(w: Seq<u8>, p: Seq<u8>) -> bool {
    p.len() <= w.len() && w.subrange(0, p.len() as int) == p
}

pub open spec fn unityfs_magic() -> Seq<u8> {
    seq![0x55u8, 0x6e, 0x69, 0x74, 0x79, 0x46, 0x53]
}

pub open spec fn unityweb_magic() -> Seq<u8> {
    seq![0x55u8, 0x6e, 0x69, 0x74, 0x79, 0x57, 0x65, 0x62]
}

pub open spec fn unityraw_magic() -> Seq<u8> {
    seq![0x55u8, 0x6e, 0x69, 0x74, 0x79, 0x52, 0x61, 0x77]
}

/// A byte that may appear in a Unity version string: an ASCII letter or digit, or `.`.
pub open spec fn is_version_byte(b: u8) -> bool {
    (0x30 <= b && b <= 0x39) || (0x41 <= b && b <= 0x5a) || (0x61 <= b && b <= 0x7a) || b == 0x2e
}

/// Index of the first zero byte of `v`, or `v.len()`.
pub open spec fn zero_span(v: Seq<u8>) -> nat
    decreases v.len(),
{
    if v.len() == 0 || v[0] == 0 {
        0
    } else {
        1 + zero_span(v.drop_first())
    }
}

/// The version string that follows the 12 header bytes: the bytes up to the next
/// zero byte of the zero-filled buffer, kept only when that zero byte exists, the
/// string is not empty and every byte is a version byte; empty otherwise.
pub open spec fn version_bytes(h: Seq<u8>) -> Seq<u8> {
    if h.len() <= 12 {
        seq![]
    } else {
        let v = padded(h).subrange(12, HEADER_LEN as int);
        let k = zero_span(v);
        let s = v.take(k as int);
        if k < v.len() && s.len() > 0 && forall|i: int| 0 <= i < s.len() ==> is_version_byte(
            #[trigger] s[i],
        ) {
            s
        } else {
            seq![]
        }
    }
}

/// The first `HEADER_LEN` bytes of `h`.
pub open spec fn header_window(h: Seq<u8>) -> Seq<u8> {
    if h.len() > HEADER_LEN {
        h.take(HEADER_LEN as int)
    } else {
        h
    }
}

/// The bundle described by the first bytes of a file (only the first `HEADER_LEN`
/// count): none unless at least 12 bytes were read and the first 7 of them spell
/// `UnityFS` (the 8-byte `UnityWeb` and `UnityRaw` magics never fit the 7-byte
/// window); the signature carries the Unity version when one is present.
pub open spec fn spec_inspect(path: Seq<char>, bytes: Seq<u8>) -> Option<(Seq<char>, Seq<char>, bool)> {
    let h = header_window(bytes);
    if h.len() < 12 || !bytes_start_with(h.subrange(0, 7), unityfs_magic()) {
        None
    } else {
        let v = version_bytes(h);
        Some(
            (
                path,
                if v.len() == 0 {
                    "UnityFS"@
                } else {
                    "UnityFS - Unity "@ + v.map_values(|b: u8| b as char)
                },
                false,
            ),
        )
    }
}

impl View for UnityBundleInfo {
    type V = (Seq<char>, Seq<char>, bool);

    open spec fn view(&self) -> (Seq<char>, Seq<char>, bool) {
        (self.path@, self.signature@, self.supported_for_rewrite)
    }
}

fn window_starts_with(w: &[u8], p: &[u8]) -> (b: bool)
    ensures
        b == bytes_start_with(w@, p@),
{
    if p.len() > w.len() {
        return false;
    }
    let n = p.len();
    for i in 0..n
        invariant
            n == p@.len() <= w@.len(),
            forall|j: int| 0 <= j < i ==> w@[j] == p@[j],
    {
        if w[i] != p[i] {
            assert(w@.subrange(0, n as int)[i as int] != p@[i as int]);
            return false;
        }
    }
    assert(w@.subrange(0, n as int) =~= p@);
    true
}

fn version_byte(b: u8) -> (r: bool)
    ensures
        r == is_version_byte(b),
{
    (0x30 <= b && b <= 0x39) || (0x41 <= b && b <= 0x5a) || (0x61 <= b && b <= 0x7a) || b == 0x2e
}

proof fn lemma_zero_span_at(v: Seq<u8>, m: int)
    requires
        0 <= m <= v.len(),
        forall|k: int| 0 <= k < m ==> #[trigger] v[k] != 0,
        m == v.len() || v[m] == 0,
    ensures
        zero_span(v) == m,
    decreases m,
{
    if m > 0 {
        let t = v.drop_first();
        assert forall|k: int| 0 <= k < m - 1 implies #[trigger] t[k] != 0 by {
            assert(t[k] == v[k + 1]);
        }
        lemma_zero_span_at(t, m - 1);
    }
}

fn extract_version(h: &[u8]) -> (v: Vec<u8>)
    requires
        h@.len() <= HEADER_LEN,
    ensures
        v@ == version_bytes(h@),
{
    if h.len() <= 12 {
        return Vec::new();
    }
    let ghost pv = padded(h@).subrange(12, HEADER_LEN as int);
    let mut out: Vec<u8> = Vec::new();
    let mut all_ok = true;
    let mut i: usize = 12;
    let mut found = false;
    while i < HEADER_LEN
        invariant_except_break
            !found,
        invariant
            12 <= i <= HEADER_LEN,
            12 < h@.len() <= HEADER_LEN,
            pv == padded(h@).subrange(12, HEADER_LEN as int),
            out@ == pv.take(i - 12),
            forall|k: int| 0 <= k < i - 12 ==> #[trigger] pv[k] != 0,
            all_ok == forall|k: int| 0 <= k < out@.len() ==> is_version_byte(#[trigger] out@[k]),
        ensures
            found ==> (i < HEADER_LEN && pv[i - 12] == 0),
            !found ==> i == HEADER_LEN,
            out@ == pv.take(i - 12),
            forall|k: int| 0 <= k < i - 12 ==> #[trigger] pv[k] != 0,
            all_ok == forall|k: int| 0 <= k < out@.len() ==> is_version_byte(#[trigger] out@[k]),
        decreases HEADER_LEN - i,
    {
        let b = if i < h.len() {
            h[i]
        } else {
            0u8
        };
        assert(pv[i - 12] == b);
        if b == 0 {
            found = true;
            break;
        }
        let ghost prev = out@;
        let ghost prev_ok = all_ok;
        if !version_byte(b) {
            all_ok = false;
        }
        out.push(b);
        assert(all_ok == forall|k: int| 0 <= k < out@.len() ==> is_version_byte(#[trigger] out@[k]))
            by {
            if all_ok {
                assert forall|k: int| 0 <= k < out@.len() implies is_version_byte(
                    #[trigger] out@[k],
                ) by {
                    if k < prev.len() {
                        assert(out@[k] == prev[k]);
                    }
                }
            } else {
                if !is_version_byte(b) {
                    assert(out@[prev.len() as int] == b);
                } else {
                    assert(!prev_ok);
                    let k = choose|k: int| 0 <= k < prev.len() && !is_version_byte(prev[k]);
                    assert(out@[k] == prev[k]);
                }
            }
        }
        assert(pv.take(i - 11) =~= pv.take(i - 12).push(b));
        i = i + 1;
    }
    proof {
        lemma_zero_span_at(pv, i - 12);
    }
    if found && out.len() > 0 && all_ok {
        out
    } else {
        Vec::new()
    }
}

/// Reads a bundle description from the first bytes of the file at `path`, as one
/// read returned them.
pub fn inspect_header(path: &str, bytes: &[u8]) -> (r: Option<UnityBundleInfo>)
    ensures
        match spec_inspect(path@, bytes@) {
            Some(v) => r matches Some(info) && info@ == v,
            None => r is None,
        },
{
    let header = if bytes.len() > HEADER_LEN {
        &bytes[0..HEADER_LEN]
    } else {
        bytes
    };
    assert(header@ =~= header_window(bytes@));
    if header.len() < 12 {
        return None;
    }
    let window = &header[0..7];
    let fs: [u8; 7] = [0x55, 0x6e, 0x69, 0x74, 0x79, 0x46, 0x53];
    let web: [u8; 8] = [0x55, 0x6e, 0x69, 0x74, 0x79, 0x57, 0x65, 0x62];
    let raw: [u8; 8] = [0x55, 0x6e, 0x69, 0x74, 0x79, 0x52, 0x61, 0x77];
    assert(fs@ =~= unityfs_magic());
    assert(web@ =~= unityweb_magic());
    assert(raw@ =~= unityraw_magic());
    assert(window@ =~= header@.subrange(0, 7));
    let recognized = if window_starts_with(window, &fs) {
        true
    } else if window_starts_with(window, &web) {
        true
    } else if window_starts_with(window, &raw) {
        true
    } else {
        false
    };
    if !recognized {
        return None;
    }
    let v = extract_version(header);
    let mut sig = to_chars("UnityFS");
    if v.len() > 0 {
        sig = to_chars("UnityFS - Unity ");
        let ghost before = sig@;
        let n = v.len();
        for i in 0..n
            invariant
                n == v@.len(),
                sig@ == before + v@.take(i as int).map_values(|b: u8| b as char),
        {
            sig.push(v[i] as char);
            assert(v@.take(i + 1).map_values(|b: u8| b as char) =~= v@.take(i as int).map_values(
                |b: u8| b as char,
            ).push(v@[i as int] as char));
        }
        assert(v@.take(n as int) =~= v@);
    }
    Some(
        UnityBundleInfo {
            path: String::from_str(path),
            signature: from_chars(sig.as_slice()),
            supported_for_rewrite: false,
        },
    )
}

/// Whether a file is probably a Unity bundle: it is called `__data`, or has a
/// bundle extension, ignoring ASCII case.
pub open spec fn spec_probable_bundle(path: Seq<char>) -> bool {
    lower(file_name_or_empty(path)) == "__data"@ || is_bundle_ext(
        lower(extension_or_empty(path)),
    )
}

pub fn is_probable_bundle(path: &str) -> (b: bool)
    ensures
        b == spec_probable_bundle(path@),
{
    let name = lower_file_name(path);
    if eq_str(name.as_slice(), "__data") {
        return true;
    }
    let e = lower_extension(path);
    bundle_ext(e.as_slice())
}

} // verus!
