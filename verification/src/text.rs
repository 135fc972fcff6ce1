//! Character-level text primitives with the meaning of the corresponding
//! `str` operations of std, stated over `Seq<char>`.

use vstd::prelude::*;
use vstd::std_specs::iter::IteratorSpec;

verus! {

/// Wraps `String::push`: appends one character to the string.
#[verifier::external_body]
fn push_char(s: &mut String, c: char)
    ensures
        final(s)@ == old(s)@.push(c),
{
    s.push(c);
}

/// The characters of `s`, in order.
pub fn to_chars(s: &str) -> (out: Vec<char>)
    ensures
        out@ == s@,
{
    let mut out: Vec<char> = Vec::new();
    for c in it: s.chars()
        invariant
            out@ == it.seq().take(it.index() as int),
    {
        out.push(c);
    }
    out
}

/// A `String` holding exactly the characters of `chars`.
pub fn from_chars(chars: &[char]) -> (out: String)
    ensures
        out@ == chars@,
{
    let mut out = String::new();
    let n = chars.len();
    for i in 0..n
        invariant
            n == chars@.len(),
            out@ == chars@.take(i as int),
    {
        push_char(&mut out, chars[i]);
        assert(chars@.take(i + 1) == chars@.take(i as int).push(chars@[i as int]));
    }
    assert(chars@.take(n as int) == chars@);
    out
}


/// Unicode `White_Space`, the set that `char::is_whitespace` tests.
pub open spec fn is_ws(c: char) -> bool {
    let u = c as u32;
    (0x9 <= u && u <= 0xd) || u == 0x20 || u == 0x85 || u == 0xa0 || u == 0x1680 || (0x2000 <= u
        && u <= 0x200a) || u == 0x2028 || u == 0x2029 || u == 0x202f || u == 0x205f || u == 0x3000
}

/// `char::is_whitespace`.
pub fn is_whitespace(c: char) -> (b: bool)
    ensures
        b == is_ws(c),
{
    let u = c as u32;
    (0x9 <= u && u <= 0xd) || u == 0x20 || u == 0x85 || u == 0xa0 || u == 0x1680 || (0x2000 <= u
        && u <= 0x200a) || u == 0x2028 || u == 0x2029 || u == 0x202f || u == 0x205f || u == 0x3000
}

/// ASCII lower-casing of one character; every other character is kept.
pub open spec fn lower_char(c: char) -> char {
    if 'A' <= c && c <= 'Z' {
        ((c as u32) + 32) as char
    } else {
        c
    }
}

/// `to_ascii_lowercase` on a character sequence.
pub open spec fn lower(s: Seq<char>) -> Seq<char> {
    s.map_values(|c: char| lower_char(c))
}

pub fn to_lower_char(c: char) -> (d: char)
    ensures
        d == lower_char(c),
{
    if 'A' <= c && c <= 'Z' {
        ((c as u8) + 32) as char
    } else {
        c
    }
}

/// The ASCII-lowercased copy of `s`.
pub fn to_lower(s: &[char]) -> (out: Vec<char>)
    ensures
        out@ == lower(s@),
{
    let mut out: Vec<char> = Vec::new();
    let n = s.len();
    for i in 0..n
        invariant
            n == s@.len(),
            out@ == lower(s@.take(i as int)),
    {
        out.push(to_lower_char(s[i]));
        assert(lower(s@.take(i + 1)) == lower(s@.take(i as int)).push(lower_char(s@[i as int])));
    }
    assert(s@.take(n as int) == s@);
    out
}


/// `needle` occurs in `hay` starting at index `i`.
pub open spec fn occurs_at(hay: Seq<char>, needle: Seq<char>, i: int) -> bool {
    0 <= i && i + needle.len() <= hay.len() && hay.subrange(i, i + needle.len()) == needle
}

/// `str::contains` with a string pattern.
pub open spec fn contains(hay: Seq<char>, needle: Seq<char>) -> bool {
    exists|i: int| #[trigger] occurs_at(hay, needle, i)
}

pub fn matches_at(hay: &[char], needle: &[char], i: usize) -> (b: bool)
    ensures
        b == occurs_at(hay@, needle@, i as int),
{
    if needle.len() > hay.len() || i > hay.len() - needle.len() {
        return false;
    }
    let m = needle.len();
    for k in 0..m
        invariant
            m == needle@.len(),
            i + m <= hay.len(),
            forall|j: int| 0 <= j < k ==> hay@[i + j] == needle@[j],
    {
        if hay[i + k] != needle[k] {
            assert(hay@.subrange(i as int, i + m)[k as int] != needle@[k as int]);
            return false;
        }
    }
    assert(hay@.subrange(i as int, i + m) =~= needle@);
    true
}

/// Whether `needle` occurs anywhere in `hay`.
pub fn contains_chars(hay: &[char], needle: &[char]) -> (b: bool)
    ensures
        b == contains(hay@, needle@),
{
    if needle.len() > hay.len() {
        assert(forall|i: int| !#[trigger] occurs_at(hay@, needle@, i));
        return false;
    }
    let last = hay.len() - needle.len();
    let mut i: usize = 0;
    loop
        invariant
            last == hay@.len() - needle@.len(),
            i <= last,
            forall|j: int| 0 <= j < i ==> !#[trigger] occurs_at(hay@, needle@, j),
        ensures
            forall|j: int| 0 <= j <= last ==> !#[trigger] occurs_at(hay@, needle@, j),
        decreases last - i,
    {
        if matches_at(hay, needle, i) {
            return true;
        }
        if i == last {
            break;
        }
        i = i + 1;
    }
    assert forall|j: int| !#[trigger] occurs_at(hay@, needle@, j) by {
        if 0 <= j <= last {
        }
    }
    false
}

/// Whether the characters of `needle` occur in `hay`.
pub fn contains_str(hay: &[char], needle: &str) -> (b: bool)
    ensures
        b == contains(hay@, needle@),
{
    let n = to_chars(needle);
    contains_chars(hay, n.as_slice())
}

/// Whether `s` is exactly the string `t`.
pub fn eq_str(s: &[char], t: &str) -> (b: bool)
    ensures
        b == (s@ == t@),
{
    let tc = to_chars(t);
    if s.len() != tc.len() {
        return false;
    }
    let b = matches_at(s, tc.as_slice(), 0);
    assert(b ==> s@.subrange(0, s@.len() as int) =~= s@);
    proof {
        if s@ == t@ {
            assert(s@.subrange(0, s@.len() as int) =~= s@);
        }
    }
    b
}

/// Whether `s` begins with the characters of `p`.
pub fn starts_with_str(s: &[char], p: &str) -> (b: bool)
    ensures
        b == occurs_at(s@, p@, 0),
{
    let pc = to_chars(p);
    matches_at(s, pc.as_slice(), 0)
}

/// The characters `s[from..to]` as a vector.
pub fn slice_to_vec(s: &[char], from: usize, to: usize) -> (out: Vec<char>)
    requires
        from <= to <= s@.len(),
    ensures
        out@ == s@.subrange(from as int, to as int),
{
    let mut out: Vec<char> = Vec::new();
    let mut i = from;
    while i < to
        invariant
            from <= i <= to <= s@.len(),
            out@ == s@.subrange(from as int, i as int),
        decreases to - i,
    {
        out.push(s[i]);
        assert(s@.subrange(from as int, i + 1) == s@.subrange(from as int, i as int).push(
            s@[i as int],
        ));
        i = i + 1;
    }
    out
}


/// `str::trim_start`: leading white space removed.
pub open spec fn trim_start(s: Seq<char>) -> Seq<char>
    decreases s.len(),
{
    if s.len() > 0 && is_ws(s[0]) {
        trim_start(s.drop_first())
    } else {
        s
    }
}

/// `str::trim_end`: trailing white space removed.
pub open spec fn trim_end(s: Seq<char>) -> Seq<char>
    decreases s.len(),
{
    if s.len() > 0 && is_ws(s.last()) {
        trim_end(s.drop_last())
    } else {
        s
    }
}

/// `str::trim`.
pub open spec fn trim(s: Seq<char>) -> Seq<char> {
    trim_end(trim_start(s))
}

/// `trim_start(s)` drops exactly the first `i` characters when they are white
/// space and the next one is not.
pub proof fn lemma_trim_start_at(s: Seq<char>, i: int)
    requires
        0 <= i <= s.len(),
        forall|k: int| 0 <= k < i ==> is_ws(#[trigger] s[k]),
        i == s.len() || !is_ws(s[i]),
    ensures
        trim_start(s) == s.skip(i),
    decreases i,
{
    if i == 0 {
        assert(s.skip(0) =~= s);
    } else {
        let t = s.drop_first();
        assert forall|k: int| 0 <= k < i - 1 implies is_ws(#[trigger] t[k]) by {
            assert(t[k] == s[k + 1]);
        }
        lemma_trim_start_at(t, i - 1);
        assert(t.skip(i - 1) =~= s.skip(i));
    }
}

proof fn lemma_trim_end_at(s: Seq<char>, j: int)
    requires
        0 <= j <= s.len(),
        forall|k: int| j <= k < s.len() ==> is_ws(#[trigger] s[k]),
        j == 0 || !is_ws(s[j - 1]),
    ensures
        trim_end(s) == s.take(j),
    decreases s.len() - j,
{
    if j == s.len() {
        assert(s.take(j) =~= s);
    } else {
        let t = s.drop_last();
        assert forall|k: int| j <= k < t.len() implies is_ws(#[trigger] t[k]) by {
            assert(t[k] == s[k]);
        }
        lemma_trim_end_at(t, j);
        assert(t.take(j) =~= s.take(j));
    }
}

/// The bounds `(start, end)` of `trim(s)` within `s`.
pub fn trim_bounds(s: &[char]) -> (r: (usize, usize))
    ensures
        r.0 <= r.1 <= s@.len(),
        s@.subrange(r.0 as int, r.1 as int) == trim(s@),
{
    let n = s.len();
    let mut i: usize = 0;
    while i < n && is_whitespace(s[i])
        invariant
            i <= n == s@.len(),
            forall|k: int| 0 <= k < i ==> is_ws(#[trigger] s@[k]),
        decreases n - i,
    {
        i = i + 1;
    }
    proof {
        lemma_trim_start_at(s@, i as int);
    }
    let ghost t = s@.skip(i as int);
    let mut j: usize = n;
    while j > i && is_whitespace(s[j - 1])
        invariant
            i <= j <= n == s@.len(),
            t == s@.skip(i as int),
            forall|k: int| j <= k < n ==> is_ws(#[trigger] s@[k]),
        decreases j,
    {
        j = j - 1;
    }
    proof {
        assert forall|k: int| j - i <= k < t.len() implies is_ws(#[trigger] t[k]) by {
            assert(t[k] == s@[k + i]);
        }
        if j > i {
            assert(t[j - i - 1] == s@[j - 1]);
        }
        lemma_trim_end_at(t, j - i);
        assert(t.take(j - i) =~= s@.subrange(i as int, j as int));
    }
    (i, j)
}

/// `trim(s)` as a vector.
pub fn trimmed(s: &[char]) -> (out: Vec<char>)
    ensures
        out@ == trim(s@),
{
    let (a, b) = trim_bounds(s);
    slice_to_vec(s, a, b)
}

/// Length of the run of non-white-space characters at the front of `s`.
pub open spec fn token_len(s: Seq<char>) -> nat
    decreases s.len(),
{
    if s.len() == 0 || is_ws(s[0]) {
        0
    } else {
        1 + token_len(s.drop_first())
    }
}

/// `str::split_whitespace`: the maximal non-empty runs of non-white-space characters.
pub open spec fn fields(s: Seq<char>) -> Seq<Seq<char>>
    decreases s.len(),
{
    if s.len() == 0 {
        seq![]
    } else if is_ws(s[0]) {
        fields(s.drop_first())
    } else {
        let k = token_len(s);
        proof {
            lemma_token_len_bound(s);
        }
        seq![s.take(k as int)] + fields(s.skip(k as int))
    }
}

/// `token_len(s) == m` when `m` non-white-space characters are followed by the
/// end of `s` or a white-space character.
pub proof fn lemma_token_len_at(s: Seq<char>, m: int)
    requires
        0 <= m <= s.len(),
        forall|k: int| 0 <= k < m ==> !is_ws(#[trigger] s[k]),
        m == s.len() || is_ws(s[m]),
    ensures
        token_len(s) == m,
    decreases m,
{
    if m > 0 {
        let t = s.drop_first();
        assert forall|k: int| 0 <= k < m - 1 implies !is_ws(#[trigger] t[k]) by {
            assert(t[k] == s[k + 1]);
        }
        lemma_token_len_at(t, m - 1);
    }
}

/// A token lies within `s` and is not empty when `s` starts with a non-white-space
/// character.
pub proof fn lemma_token_len_bound(s: Seq<char>)
    ensures
        token_len(s) <= s.len(),
        s.len() > 0 && !is_ws(s[0]) ==> token_len(s) > 0,
    decreases s.len(),
{
    if s.len() > 0 && !is_ws(s[0]) {
        lemma_token_len_bound(s.drop_first());
    }
}

/// The white-space separated fields of `s`.
pub fn split_fields(s: &[char]) -> (out: Vec<Vec<char>>)
    ensures
        out.deep_view() == fields(s@),
{
    let n = s.len();
    let mut out: Vec<Vec<char>> = Vec::new();
    let mut i: usize = 0;
    assert(s@.skip(0) =~= s@);
    while i < n
        invariant
            i <= n == s@.len(),
            out.deep_view() + fields(s@.skip(i as int)) == fields(s@),
        decreases n - i,
    {
        let ghost rest = s@.skip(i as int);
        if is_whitespace(s[i]) {
            assert(rest.drop_first() =~= s@.skip(i + 1));
            i = i + 1;
        } else {
            let mut j = i + 1;
            while j < n && !is_whitespace(s[j])
                invariant
                    i < j <= n == s@.len(),
                    forall|k: int| i <= k < j ==> !is_ws(#[trigger] s@[k]),
                decreases n - j,
            {
                j = j + 1;
            }
            proof {
                assert forall|k: int| 0 <= k < j - i implies !is_ws(#[trigger] rest[k]) by {
                    assert(rest[k] == s@[k + i]);
                }
                if j < n {
                    assert(rest[j - i] == s@[j as int]);
                }
                lemma_token_len_at(rest, j - i);
                assert(rest.take(j - i) =~= s@.subrange(i as int, j as int));
                assert(rest.skip(j - i) =~= s@.skip(j as int));
            }
            let tok = slice_to_vec(s, i, j);
            let ghost before = out.deep_view();
            assert(tok.deep_view() =~= tok@);
            out.push(tok);
            assert(out.deep_view() =~= before.push(tok@)) by {
                assert forall|k: int| 0 <= k < out.deep_view().len() implies out.deep_view()[k]
                    == before.push(tok@)[k] by {
                    if k < before.len() {
                    } else {
                    }
                }
            }
            assert(fields(rest) == seq![rest.take(j - i)] + fields(rest.skip(j - i)));
            assert(before + fields(rest) =~= before.push(tok@) + fields(s@.skip(j as int)));
            i = j;
        }
    }
    assert(fields(s@.skip(n as int)) =~= seq![]) by {
        assert(s@.skip(n as int).len() == 0);
    }
    assert(out.deep_view() + seq![] =~= out.deep_view());
    out
}


/// Index of the first `'\n'` in `s`, or `s.len()` when there is none.
pub open spec fn line_len(s: Seq<char>) -> nat
    decreases s.len(),
{
    if s.len() == 0 || s[0] == '\n' {
        0
    } else {
        1 + line_len(s.drop_first())
    }
}

/// A line without the `'\r'` of a `"\r\n"` ending.
pub open spec fn strip_cr(l: Seq<char>) -> Seq<char> {
    if l.len() > 0 && l.last() == '\r' {
        l.drop_last()
    } else {
        l
    }
}

/// `str::lines`: split at `'\n'`, a `'\r'` before a `'\n'` dropped, no empty last line
/// after a final `'\n'`, and a bare `'\r'` at the very end kept.
pub open spec fn lines(s: Seq<char>) -> Seq<Seq<char>>
    decreases s.len(),
{
    if s.len() == 0 {
        seq![]
    } else {
        let k = line_len(s);
        proof {
            lemma_line_len_bound(s);
        }
        if k == s.len() {
            seq![s]
        } else {
            seq![strip_cr(s.take(k as int))] + lines(s.skip(k as int + 1))
        }
    }
}

/// The first line lies within `s` and is ended by `'\n'` when shorter than `s`.
pub proof fn lemma_line_len_bound(s: Seq<char>)
    ensures
        line_len(s) <= s.len(),
        line_len(s) < s.len() ==> s[line_len(s) as int] == '\n',
    decreases s.len(),
{
    if s.len() > 0 && s[0] != '\n' {
        lemma_line_len_bound(s.drop_first());
    }
}

proof fn lemma_line_len_at(s: Seq<char>, m: int)
    requires
        0 <= m <= s.len(),
        forall|k: int| 0 <= k < m ==> #[trigger] s[k] != '\n',
        m == s.len() || s[m] == '\n',
    ensures
        line_len(s) == m,
    decreases m,
{
    if m > 0 {
        let t = s.drop_first();
        assert forall|k: int| 0 <= k < m - 1 implies #[trigger] t[k] != '\n' by {
            assert(t[k] == s[k + 1]);
        }
        lemma_line_len_at(t, m - 1);
    }
}

proof fn lemma_push_deep(before: Seq<Seq<char>>, v: Vec<char>, after: Vec<Vec<char>>)
    requires
        after@.len() == before.len() + 1,
        forall|k: int| 0 <= k < before.len() ==> (#[trigger] after@[k]).deep_view() == before[k],
        after@[before.len() as int] == v,
    ensures
        after.deep_view() == before.push(v@),
{
    assert(v.deep_view() =~= v@);
    assert(after.deep_view() =~= before.push(v@));
}

/// The lines of `s`, each as a vector.
pub fn split_lines(s: &[char]) -> (out: Vec<Vec<char>>)
    ensures
        out.deep_view() == lines(s@),
{
    let n = s.len();
    let mut out: Vec<Vec<char>> = Vec::new();
    let mut i: usize = 0;
    assert(s@.skip(0) =~= s@);
    while i < n
        invariant
            i <= n == s@.len(),
            out.deep_view() + lines(s@.skip(i as int)) == lines(s@),
        decreases n - i,
    {
        let ghost rest = s@.skip(i as int);
        let mut j = i;
        while j < n && s[j] != '\n'
            invariant
                i <= j <= n == s@.len(),
                forall|k: int| i <= k < j ==> #[trigger] s@[k] != '\n',
            decreases n - j,
        {
            j = j + 1;
        }
        proof {
            assert forall|k: int| 0 <= k < j - i implies #[trigger] rest[k] != '\n' by {
                assert(rest[k] == s@[k + i]);
            }
            if j < n {
                assert(rest[j - i] == s@[j as int]);
            }
            lemma_line_len_at(rest, j - i);
        }
        let ghost before = out.deep_view();
        if j == n {
            let line = slice_to_vec(s, i, n);
            assert(line@ =~= rest);
            out.push(line);
            proof {
                lemma_push_deep(before, line, out);
            }
            assert(lines(rest) == seq![rest]);
            assert(s@.skip(n as int).len() == 0);
            assert(before + lines(rest) =~= out.deep_view() + lines(s@.skip(n as int)));
            i = n;
        } else {
            let end = if j > i && s[j - 1] == '\r' { j - 1 } else { j };
            let line = slice_to_vec(s, i, end);
            assert(rest.take(j - i) =~= s@.subrange(i as int, j as int));
            assert(line@ =~= strip_cr(rest.take(j - i)));
            out.push(line);
            proof {
                lemma_push_deep(before, line, out);
            }
            assert(rest.skip(j - i + 1) =~= s@.skip(j + 1));
            assert(before + lines(rest) =~= out.deep_view() + lines(s@.skip(j + 1)));
            i = j + 1;
        }
    }
    assert(lines(s@.skip(n as int)) =~= seq![]) by {
        assert(s@.skip(n as int).len() == 0);
    }
    assert(out.deep_view() + seq![] =~= out.deep_view());
    out
}


/// Why a decimal number did not parse; the kinds of `std::num::IntErrorKind`
/// that unsigned parsing can produce.
#[derive(Clone, Copy, Debug, PartialEq, Eq, Structural)]
pub enum IntErrorKind {
    Empty,
    InvalidDigit,
    PosOverflow,
}

impl IntErrorKind {
    /// The text of the matching `ParseIntError`.
    pub fn message(&self) -> (s: String)
        ensures
            s@ == spec_int_error_message(*self),
    {
        match self {
            IntErrorKind::Empty => String::from_str("cannot parse integer from empty string"),
            IntErrorKind::InvalidDigit => String::from_str("invalid digit found in string"),
            IntErrorKind::PosOverflow => String::from_str("number too large to fit in target type"),
        }
    }
}

pub open spec fn spec_int_error_message(k: IntErrorKind) -> Seq<char> {
    match k {
        IntErrorKind::Empty => "cannot parse integer from empty string"@,
        IntErrorKind::InvalidDigit => "invalid digit found in string"@,
        IntErrorKind::PosOverflow => "number too large to fit in target type"@,
    }
}

pub open spec fn is_digit(c: char) -> bool {
    '0' <= c && c <= '9'
}

pub open spec fn digit_value(c: char) -> nat {
    ((c as u32) - ('0' as u32)) as nat
}

/// Left-to-right accumulation of decimal digits, failing at the first character
/// that is not a digit or at the first prefix whose value exceeds `max`.
pub open spec fn scan_digits(d: Seq<char>, acc: nat, max: nat) -> Result<nat, IntErrorKind>
    decreases d.len(),
{
    if d.len() == 0 {
        Ok(acc)
    } else if !is_digit(d[0]) {
        Err(IntErrorKind::InvalidDigit)
    } else if 10 * acc + digit_value(d[0]) > max {
        Err(IntErrorKind::PosOverflow)
    } else {
        scan_digits(d.drop_first(), 10 * acc + digit_value(d[0]), max)
    }
}

/// `FromStr` for an unsigned integer type whose largest value is `max`: an optional
/// leading `'+'`, then decimal digits.
pub open spec fn parse_unsigned(s: Seq<char>, max: nat) -> Result<nat, IntErrorKind> {
    if s.len() == 0 {
        Err(IntErrorKind::Empty)
    } else if s.len() == 1 && (s[0] == '+' || s[0] == '-') {
        Err(IntErrorKind::InvalidDigit)
    } else if s[0] == '+' {
        scan_digits(s.drop_first(), 0, max)
    } else {
        scan_digits(s, 0, max)
    }
}

/// Parses `s` as an unsigned decimal number no larger than `max`.
pub fn parse_unsigned_chars(s: &[char], max: u64) -> (r: Result<u64, IntErrorKind>)
    ensures
        match parse_unsigned(s@, max as nat) {
            Ok(v) => r == Ok::<u64, IntErrorKind>(v as u64),
            Err(e) => r == Err::<u64, IntErrorKind>(e),
        },
{
    let n = s.len();
    if n == 0 {
        return Err(IntErrorKind::Empty);
    }
    if n == 1 && (s[0] == '+' || s[0] == '-') {
        return Err(IntErrorKind::InvalidDigit);
    }
    let start: usize = if s[0] == '+' { 1 } else { 0 };
    let ghost d = s@.skip(start as int);
    assert(start == 1 ==> d =~= s@.drop_first());
    assert(start == 0 ==> d =~= s@);
    let mut acc: u64 = 0;
    let mut i = start;
    assert(s@.skip(i as int) =~= d);
    assert(parse_unsigned(s@, max as nat) == scan_digits(d, 0, max as nat));
    while i < n
        invariant
            start <= i <= n == s@.len(),
            acc <= max,
            scan_digits(s@.skip(i as int), acc as nat, max as nat) == scan_digits(d, 0, max as nat),
            parse_unsigned(s@, max as nat) == scan_digits(d, 0, max as nat),
        decreases n - i,
    {
        let c = s[i];
        let ghost rest = s@.skip(i as int);
        assert(rest[0] == c);
        if !('0' <= c && c <= '9') {
            return Err(IntErrorKind::InvalidDigit);
        }
        let dv = ((c as u32) - ('0' as u32)) as u64;
        let next: u128 = (acc as u128) * 10 + (dv as u128);
        if next > max as u128 {
            return Err(IntErrorKind::PosOverflow);
        }
        acc = next as u64;
        assert(rest.drop_first() =~= s@.skip(i + 1));
        i = i + 1;
    }
    assert(s@.skip(n as int).len() == 0);
    Ok(acc)
}

/// Parses `s` as a `u32`, as `str::parse::<u32>` does.
pub fn parse_u32(s: &[char]) -> (r: Result<u32, IntErrorKind>)
    ensures
        match parse_unsigned(s@, u32::MAX as nat) {
            Ok(v) => r == Ok::<u32, IntErrorKind>(v as u32),
            Err(e) => r == Err::<u32, IntErrorKind>(e),
        },
        r matches Ok(x) ==> parse_unsigned(s@, u32::MAX as nat) == Ok::<nat, IntErrorKind>(x as nat),
{
    match parse_unsigned_chars(s, u32::MAX as u64) {
        Ok(v) => {
            proof {
                lemma_scan_bounded(s@, u32::MAX as nat);
            }
            Ok(v as u32)
        },
        Err(e) => Err(e),
    }
}

/// Parses `s` as a `usize`, as `str::parse::<usize>` does.
pub fn parse_usize(s: &[char]) -> (r: Result<usize, IntErrorKind>)
    ensures
        match parse_unsigned(s@, usize::MAX as nat) {
            Ok(v) => r == Ok::<usize, IntErrorKind>(v as usize),
            Err(e) => r == Err::<usize, IntErrorKind>(e),
        },
        r matches Ok(x) ==> parse_unsigned(s@, usize::MAX as nat) == Ok::<nat, IntErrorKind>(x as nat),
{
    match parse_unsigned_chars(s, usize::MAX as u64) {
        Ok(v) => {
            proof {
                lemma_scan_bounded(s@, usize::MAX as nat);
            }
            Ok(v as usize)
        },
        Err(e) => Err(e),
    }
}

proof fn lemma_scan_digits_bounded(d: Seq<char>, acc: nat, max: nat)
    requires
        acc <= max,
    ensures
        scan_digits(d, acc, max) matches Ok(v) ==> v <= max,
    decreases d.len(),
{
    if d.len() > 0 && is_digit(d[0]) && 10 * acc + digit_value(d[0]) <= max {
        lemma_scan_digits_bounded(d.drop_first(), 10 * acc + digit_value(d[0]), max);
    }
}

proof fn lemma_scan_bounded(s: Seq<char>, max: nat)
    ensures
        parse_unsigned(s, max) matches Ok(v) ==> v <= max,
{
    if s.len() > 0 {
        lemma_scan_digits_bounded(s.drop_first(), 0, max);
        lemma_scan_digits_bounded(s, 0, max);
    }
}

/// The decimal digit character for `d < 10`.
pub open spec fn digit_char(d: nat) -> char {
    (('0' as u32) + d) as char
}

/// Decimal notation of `n`, as `n.to_string()` writes it.
pub open spec fn decimal(n: nat) -> Seq<char>
    decreases n,
{
    if n < 10 {
        seq![digit_char(n)]
    } else {
        decimal(n / 10).push(digit_char(n % 10))
    }
}

/// Appends the decimal notation of `n` to `out`.
pub fn push_decimal(out: &mut Vec<char>, n: u64)
    ensures
        final(out)@ == old(out)@ + decimal(n as nat),
    decreases n,
{
    if n >= 10 {
        push_decimal(out, n / 10);
    }
    let d = (n % 10) as u32;
    let c = (('0' as u32) + d) as u8 as char;
    out.push(c);
    proof {
        if n >= 10 {
            assert(decimal(n as nat) == decimal((n / 10) as nat).push(digit_char((n % 10) as nat)));
        } else {
            assert(decimal(n as nat) == seq![digit_char(n as nat)]);
        }
    }
}


/// The part of `s` after the last `c`, or all of `s` when `c` does not occur:
/// the last piece of `s.split(c)`.
pub open spec fn after_last(s: Seq<char>, c: char) -> Seq<char>
    decreases s.len(),
{
    if s.len() == 0 {
        s
    } else if s.last() == c {
        seq![]
    } else {
        after_last(s.drop_last(), c).push(s.last())
    }
}

/// `after_last(s, c)` holds no `c`.
pub proof fn lemma_after_last_excludes(s: Seq<char>, c: char)
    ensures
        forall|k: int| 0 <= k < after_last(s, c).len() ==> #[trigger] after_last(s, c)[k] != c,
    decreases s.len(),
{
    if s.len() > 0 && s.last() != c {
        lemma_after_last_excludes(s.drop_last(), c);
        let a = after_last(s.drop_last(), c);
        assert forall|k: int| 0 <= k < a.push(s.last()).len() implies #[trigger] a.push(
            s.last(),
        )[k] != c by {
            if k < a.len() {
                assert(a.push(s.last())[k] == a[k]);
            }
        }
    }
}

proof fn lemma_after_last_at(s: Seq<char>, c: char, start: int)
    requires
        0 <= start <= s.len(),
        forall|k: int| start <= k < s.len() ==> #[trigger] s[k] != c,
        start == 0 || s[start - 1] == c,
    ensures
        after_last(s, c) == s.skip(start),
    decreases s.len() - start,
{
    if start == s.len() {
        if start == 0 {
            assert(s.skip(0) =~= s);
        } else {
            assert(s.skip(start) =~= seq![]);
        }
    } else {
        let t = s.drop_last();
        assert forall|k: int| start <= k < t.len() implies #[trigger] t[k] != c by {
            assert(t[k] == s[k]);
        }
        if start > 0 {
            assert(t[start - 1] == s[start - 1]);
        }
        lemma_after_last_at(t, c, start);
        assert(t.skip(start).push(s.last()) =~= s.skip(start));
    }
}

/// Index where `after_last(s, c)` begins.
pub fn after_last_start(s: &[char], c: char) -> (start: usize)
    ensures
        start <= s@.len(),
        s@.skip(start as int) == after_last(s@, c),
        start == 0 || s@[start - 1] == c,
{
    let mut start = s.len();
    while start > 0 && s[start - 1] != c
        invariant
            start <= s@.len(),
            forall|k: int| start <= k < s@.len() ==> #[trigger] s@[k] != c,
        decreases start,
    {
        start = start - 1;
    }
    proof {
        lemma_after_last_at(s@, c, start as int);
    }
    start
}

/// Index of the first `c` in `s`, or `s.len()` when there is none.
pub open spec fn span_until(s: Seq<char>, c: char) -> nat
    decreases s.len(),
{
    if s.len() == 0 || s[0] == c {
        0
    } else {
        1 + span_until(s.drop_first(), c)
    }
}

/// The span lies within `s`.
pub proof fn lemma_span_until_bound(s: Seq<char>, c: char)
    ensures
        span_until(s, c) <= s.len(),
    decreases s.len(),
{
    if s.len() > 0 && s[0] != c {
        lemma_span_until_bound(s.drop_first(), c);
    }
}

proof fn lemma_span_until_at(s: Seq<char>, c: char, m: int)
    requires
        0 <= m <= s.len(),
        forall|k: int| 0 <= k < m ==> #[trigger] s[k] != c,
        m == s.len() || s[m] == c,
    ensures
        span_until(s, c) == m,
    decreases m,
{
    if m > 0 {
        let t = s.drop_first();
        assert forall|k: int| 0 <= k < m - 1 implies #[trigger] t[k] != c by {
            assert(t[k] == s[k + 1]);
        }
        lemma_span_until_at(t, c, m - 1);
    }
}

/// `span_until(s, c)`, computed.
pub fn find_span(s: &[char], c: char) -> (m: usize)
    ensures
        m == span_until(s@, c),
        m <= s@.len(),
        forall|k: int| 0 <= k < m ==> #[trigger] s@[k] != c,
        m == s@.len() || s@[m as int] == c,
{
    let mut m: usize = 0;
    while m < s.len() && s[m] != c
        invariant
            m <= s@.len(),
            forall|k: int| 0 <= k < m ==> #[trigger] s@[k] != c,
        decreases s@.len() - m,
    {
        m = m + 1;
    }
    proof {
        lemma_span_until_at(s@, c, m as int);
    }
    m
}

/// `str::trim_start_matches` with a single character.
pub open spec fn trim_start_char(s: Seq<char>, c: char) -> Seq<char>
    decreases s.len(),
{
    if s.len() > 0 && s[0] == c {
        trim_start_char(s.drop_first(), c)
    } else {
        s
    }
}

/// `str::trim_end_matches` with a single character.
pub open spec fn trim_end_char(s: Seq<char>, c: char) -> Seq<char>
    decreases s.len(),
{
    if s.len() > 0 && s.last() == c {
        trim_end_char(s.drop_last(), c)
    } else {
        s
    }
}

/// `str::trim_matches` with a single character.
pub open spec fn trim_char(s: Seq<char>, c: char) -> Seq<char> {
    trim_end_char(trim_start_char(s, c), c)
}

proof fn lemma_trim_start_char_at(s: Seq<char>, c: char, i: int)
    requires
        0 <= i <= s.len(),
        forall|k: int| 0 <= k < i ==> #[trigger] s[k] == c,
        i == s.len() || s[i] != c,
    ensures
        trim_start_char(s, c) == s.skip(i),
    decreases i,
{
    if i == 0 {
        assert(s.skip(0) =~= s);
    } else {
        let t = s.drop_first();
        assert forall|k: int| 0 <= k < i - 1 implies #[trigger] t[k] == c by {
            assert(t[k] == s[k + 1]);
        }
        lemma_trim_start_char_at(t, c, i - 1);
        assert(t.skip(i - 1) =~= s.skip(i));
    }
}

proof fn lemma_trim_end_char_at(s: Seq<char>, c: char, j: int)
    requires
        0 <= j <= s.len(),
        forall|k: int| j <= k < s.len() ==> #[trigger] s[k] == c,
        j == 0 || s[j - 1] != c,
    ensures
        trim_end_char(s, c) == s.take(j),
    decreases s.len() - j,
{
    if j == s.len() {
        assert(s.take(j) =~= s);
    } else {
        let t = s.drop_last();
        assert forall|k: int| j <= k < t.len() implies #[trigger] t[k] == c by {
            assert(t[k] == s[k]);
        }
        lemma_trim_end_char_at(t, c, j);
        assert(t.take(j) =~= s.take(j));
    }
}

/// `trim_char(s, c)` as a vector.
pub fn trimmed_char(s: &[char], c: char) -> (out: Vec<char>)
    ensures
        out@ == trim_char(s@, c),
{
    let n = s.len();
    let mut i: usize = 0;
    while i < n && s[i] == c
        invariant
            i <= n == s@.len(),
            forall|k: int| 0 <= k < i ==> #[trigger] s@[k] == c,
        decreases n - i,
    {
        i = i + 1;
    }
    proof {
        lemma_trim_start_char_at(s@, c, i as int);
    }
    let ghost t = s@.skip(i as int);
    let mut j: usize = n;
    while j > i && s[j - 1] == c
        invariant
            i <= j <= n == s@.len(),
            t == s@.skip(i as int),
            forall|k: int| j <= k < n ==> #[trigger] s@[k] == c,
        decreases j,
    {
        j = j - 1;
    }
    proof {
        assert forall|k: int| j - i <= k < t.len() implies #[trigger] t[k] == c by {
            assert(t[k] == s@[k + i]);
        }
        if j > i {
            assert(t[j - i - 1] == s@[j - 1]);
        }
        lemma_trim_end_char_at(t, c, j - i);
        assert(t.take(j - i) =~= s@.subrange(i as int, j as int));
    }
    slice_to_vec(s, i, j)
}

/// `str::split` with a non-empty string separator: the pieces between the
/// left-most non-overlapping occurrences of `sep`.
pub open spec fn split_on(s: Seq<char>, sep: Seq<char>) -> Seq<Seq<char>>
    decreases s.len(),
{
    if s.len() == 0 {
        seq![seq![]]
    } else if sep.len() > 0 && occurs_at(s, sep, 0) {
        seq![seq![]] + split_on(s.skip(sep.len() as int), sep)
    } else {
        let r = split_on(s.drop_first(), sep);
        r.update(0, seq![s[0]] + r[0])
    }
}

/// Splitting always yields at least one piece.
pub proof fn lemma_split_on_nonempty(s: Seq<char>, sep: Seq<char>)
    ensures
        split_on(s, sep).len() >= 1,
    decreases s.len(),
{
    if s.len() > 0 {
        if sep.len() > 0 && occurs_at(s, sep, 0) {
            lemma_split_on_nonempty(s.skip(sep.len() as int), sep);
        } else {
            lemma_split_on_nonempty(s.drop_first(), sep);
        }
    }
}

/// `cur` placed before the first piece of `r`.
pub open spec fn prepend_first(cur: Seq<char>, r: Seq<Seq<char>>) -> Seq<Seq<char>> {
    r.update(0, cur + r[0])
}

/// The pieces of `s` between the occurrences of `sep`, as `str::split` yields them.
pub fn split_on_str(s: &[char], sep: &str) -> (out: Vec<Vec<char>>)
    requires
        sep@.len() > 0,
    ensures
        out.deep_view() == split_on(s@, sep@),
{
    let sepc = to_chars(sep);
    let m = sepc.len();
    let n = s.len();
    let mut out: Vec<Vec<char>> = Vec::new();
    let mut cur: Vec<char> = Vec::new();
    let mut i: usize = 0;
    proof {
        assert(s@.skip(0) =~= s@);
        lemma_split_on_nonempty(s@, sep@);
        assert(prepend_first(seq![], split_on(s@, sep@)) =~= split_on(s@, sep@));
        assert(out.deep_view() + prepend_first(cur@, split_on(s@, sep@)) =~= split_on(s@, sep@));
    }
    while i < n
        invariant
            i <= n == s@.len(),
            m == sepc@.len() == sep@.len() > 0,
            sepc@ == sep@,
            out.deep_view() + prepend_first(cur@, split_on(s@.skip(i as int), sep@)) == split_on(
                s@,
                sep@,
            ),
        decreases n - i,
    {
        let ghost rest = s@.skip(i as int);
        proof {
            lemma_split_on_nonempty(rest, sep@);
        }
        if matches_at(s, sepc.as_slice(), i) {
            assert(rest.len() > 0);
            assert(rest.subrange(0, m as int) =~= s@.subrange(i as int, i + m));
            assert(occurs_at(rest, sep@, 0));
            let ghost x = split_on(rest.skip(m as int), sep@);
            proof {
                lemma_split_on_nonempty(rest.skip(m as int), sep@);
            }
            assert(split_on(rest, sep@) == seq![seq![]] + x);
            let ghost before = out.deep_view();
            let piece = cur;
            out.push(piece);
            proof {
                lemma_push_deep(before, piece, out);
            }
            cur = Vec::new();
            assert(rest.skip(m as int) =~= s@.skip(i + m));
            assert(prepend_first(piece@, seq![seq![]] + x) =~= seq![piece@] + x);
            assert(prepend_first(cur@, x) =~= x);
            assert(before + (seq![piece@] + x) =~= out.deep_view() + x);
            i = i + m;
        } else {
            proof {
                if occurs_at(rest, sep@, 0) {
                    assert(rest.subrange(0, m as int) =~= s@.subrange(i as int, i + m));
                }
            }
            let ghost r = split_on(rest.drop_first(), sep@);
            proof {
                lemma_split_on_nonempty(rest.drop_first(), sep@);
            }
            assert(split_on(rest, sep@) == r.update(0, seq![rest[0]] + r[0]));
            let ghost old_cur = cur@;
            cur.push(s[i]);
            assert(rest[0] == s@[i as int]);
            assert(old_cur + (seq![rest[0]] + r[0]) =~= cur@ + r[0]);
            assert(prepend_first(old_cur, r.update(0, seq![rest[0]] + r[0])) =~= prepend_first(
                cur@,
                r,
            ));
            assert(rest.drop_first() =~= s@.skip(i + 1));
            i = i + 1;
        }
    }
    proof {
        assert(s@.skip(i as int).len() == 0);
        assert(split_on(s@.skip(i as int), sep@) == seq![Seq::<char>::empty()]);
    }
    let ghost before = out.deep_view();
    let piece = cur;
    out.push(piece);
    proof {
        lemma_push_deep(before, piece, out);
        assert(prepend_first(piece@, seq![Seq::<char>::empty()]) =~= seq![piece@]);
    }
    out
}


/// `parts.join(sep)`.
pub open spec fn join_with(parts: Seq<Seq<char>>, sep: Seq<char>) -> Seq<char>
    decreases parts.len(),
{
    if parts.len() == 0 {
        seq![]
    } else if parts.len() == 1 {
        parts[0]
    } else {
        join_with(parts.drop_last(), sep) + sep + parts.last()
    }
}

/// Appends the characters of `src` to `out`.
pub fn extend_chars(out: &mut Vec<char>, src: &[char])
    ensures
        final(out)@ == old(out)@ + src@,
{
    let ghost start = out@;
    let n = src.len();
    for i in 0..n
        invariant
            n == src@.len(),
            out@ == start + src@.take(i as int),
    {
        out.push(src[i]);
        assert(src@.take(i + 1) == src@.take(i as int).push(src@[i as int]));
    }
    assert(src@.take(n as int) =~= src@);
}

/// The parts joined by `sep`.
pub fn join_chars_with(parts: &Vec<Vec<char>>, sep: &str) -> (out: Vec<char>)
    ensures
        out@ == join_with(parts.deep_view(), sep@),
{
    let sepc = to_chars(sep);
    let ghost pv = parts.deep_view();
    let mut out: Vec<char> = Vec::new();
    let n = parts.len();
    for i in 0..n
        invariant
            n == parts@.len() == pv.len(),
            pv == parts.deep_view(),
            sepc@ == sep@,
            out@ == join_with(pv.take(i as int), sep@),
    {
        assert(pv[i as int] == parts@[i as int]@);
        assert(pv.take(i + 1).drop_last() =~= pv.take(i as int));
        if i > 0 {
            extend_chars(&mut out, sepc.as_slice());
        }
        extend_chars(&mut out, parts[i].as_slice());
        proof {
            if i == 0 {
                assert(pv.take(1) =~= seq![pv[0]]);
                assert(join_with(pv.take(0), sep@) =~= seq![]);
            }
        }
    }
    assert(pv.take(n as int) =~= pv);
    out
}

/// The characters of each string.
pub fn strings_to_chars(ss: &[String]) -> (out: Vec<Vec<char>>)
    ensures
        out.deep_view() == ss@.map_values(|s: String| s@),
{
    let mut out: Vec<Vec<char>> = Vec::new();
    let n = ss.len();
    for i in 0..n
        invariant
            n == ss@.len(),
            out.deep_view() == ss@.take(i as int).map_values(|s: String| s@),
    {
        let c = to_chars(ss[i].as_str());
        let ghost before = out.deep_view();
        out.push(c);
        proof {
            lemma_push_deep(before, c, out);
        }
        assert(ss@.take(i + 1).map_values(|s: String| s@) =~= ss@.take(i as int).map_values(
            |s: String| s@,
        ).push(c@));
    }
    assert(ss@.take(n as int) =~= ss@);
    out
}

/// Whether `a` and `b` hold the same characters.
pub fn chars_equal(a: &[char], b: &[char]) -> (r: bool)
    ensures
        r == (a@ == b@),
{
    if a.len() != b.len() {
        return false;
    }
    let r = crate::text::matches_at(a, b, 0);
    assert(a@.subrange(0, a@.len() as int) =~= a@);
    r
}


proof fn lemma_scan_push(s: Seq<char>, c: char, acc: nat, max: nat, v: nat)
    requires
        scan_digits(s, acc, max) == Ok::<nat, IntErrorKind>(v),
        is_digit(c),
        10 * v + digit_value(c) <= max,
    ensures
        scan_digits(s.push(c), acc, max) == Ok::<nat, IntErrorKind>(10 * v + digit_value(c)),
    decreases s.len(),
{
    let t = s.push(c);
    if s.len() == 0 {
        assert(v == acc);
        assert(t.drop_first() =~= Seq::<char>::empty());
        assert(t[0] == c);
        assert(scan_digits(Seq::<char>::empty(), 10 * acc + digit_value(c), max) == Ok::<
            nat,
            IntErrorKind,
        >(10 * acc + digit_value(c)));
        assert(scan_digits(t, acc, max) == scan_digits(t.drop_first(), 10 * acc + digit_value(c), max));
    } else {
        let a = 10 * acc + digit_value(s[0]);
        assert(is_digit(s[0]) && a <= max);
        assert(scan_digits(s.drop_first(), a, max) == Ok::<nat, IntErrorKind>(v));
        assert(t[0] == s[0]);
        assert(t.drop_first() =~= s.drop_first().push(c));
        lemma_scan_push(s.drop_first(), c, a, max, v);
        assert(scan_digits(t, acc, max) == scan_digits(t.drop_first(), a, max));
    }
}

proof fn lemma_digit_char(d: nat)
    requires
        d < 10,
    ensures
        is_digit(digit_char(d)),
        digit_value(digit_char(d)) == d,
        digit_char(d) != '+',
        digit_char(d) != '-',
{
    assert(('0' as u32) == 48);
    assert((48 + d) as char as u32 == 48 + d);
}

proof fn lemma_decimal_scans(n: nat, max: nat)
    requires
        n <= max,
    ensures
        scan_digits(decimal(n), 0, max) == Ok::<nat, IntErrorKind>(n),
        decimal(n).len() >= 1,
        is_digit(decimal(n)[0]),
    decreases n,
{
    if n < 10 {
        lemma_digit_char(n);
        let d = seq![digit_char(n)];
        assert(decimal(n) == d);
        assert(d.drop_first() =~= Seq::<char>::empty());
        assert(scan_digits(Seq::<char>::empty(), n, max) == Ok::<nat, IntErrorKind>(n));
        assert(scan_digits(d, 0, max) == scan_digits(d.drop_first(), n, max));
    } else {
        lemma_decimal_scans(n / 10, max);
        lemma_digit_char(n % 10);
        lemma_scan_push(decimal(n / 10), digit_char(n % 10), 0, max, n / 10);
        assert(decimal(n)[0] == decimal(n / 10)[0]);
    }
}

/// Writing a number in decimal and parsing it back gives the number again, for
/// every number that the parsed type can hold.
pub proof fn lemma_decimal_roundtrip(n: nat, max: nat)
    requires
        n <= max,
    ensures
        parse_unsigned(decimal(n), max) == Ok::<nat, IntErrorKind>(n),
{
    lemma_decimal_scans(n, max);
}

/// A field as `split_whitespace` gives it: not empty, and without white space.
pub open spec fn is_token(t: Seq<char>) -> bool {
    t.len() > 0 && forall|k: int| 0 <= k < t.len() ==> !is_ws(#[trigger] t[k])
}

proof fn lemma_token_prefix(s: Seq<char>)
    ensures
        forall|j: int| 0 <= j < token_len(s) ==> !is_ws(#[trigger] s[j]),
    decreases s.len(),
{
    lemma_token_len_bound(s);
    if s.len() > 0 && !is_ws(s[0]) {
        let t = s.drop_first();
        lemma_token_prefix(t);
        assert forall|j: int| 0 <= j < token_len(s) implies !is_ws(#[trigger] s[j]) by {
            if j > 0 {
                assert(s[j] == t[j - 1]);
            }
        }
    }
}

/// Every field of `s` is a token.
pub proof fn lemma_fields_are_tokens(s: Seq<char>)
    ensures
        forall|i: int| 0 <= i < fields(s).len() ==> is_token(#[trigger] fields(s)[i]),
    decreases s.len(),
{
    if s.len() > 0 {
        if is_ws(s[0]) {
            lemma_fields_are_tokens(s.drop_first());
            assert(fields(s) == fields(s.drop_first()));
        } else {
            let k = token_len(s);
            lemma_token_len_bound(s);
            lemma_token_prefix(s);
            lemma_fields_are_tokens(s.skip(k as int));
            let head = s.take(k as int);
            assert(is_token(head)) by {
                assert forall|m: int| 0 <= m < head.len() implies !is_ws(#[trigger] head[m]) by {
                    assert(head[m] == s[m]);
                }
            }
            assert(fields(s) == seq![head] + fields(s.skip(k as int)));
            assert forall|i: int| 0 <= i < fields(s).len() implies is_token(
                #[trigger] fields(s)[i],
            ) by {
                if i > 0 {
                    assert(fields(s)[i] == fields(s.skip(k as int))[i - 1]);
                }
            }
        }
    }
}

proof fn lemma_join_front(ts: Seq<Seq<char>>, sep: Seq<char>)
    requires
        ts.len() >= 2,
    ensures
        join_with(ts, sep) == ts[0] + sep + join_with(ts.drop_first(), sep),
    decreases ts.len(),
{
    if ts.len() == 2 {
        assert(ts.drop_last() =~= seq![ts[0]]);
        assert(ts.drop_first() =~= seq![ts[1]]);
        assert(join_with(ts.drop_last(), sep) == ts[0]);
        assert(join_with(ts.drop_first(), sep) == ts[1]);
        assert(join_with(ts, sep) == join_with(ts.drop_last(), sep) + sep + ts.last());
    } else {
        let d = ts.drop_last();
        lemma_join_front(d, sep);
        let e = ts.drop_first();
        assert(d.drop_first() =~= e.drop_last());
        assert(e.last() == ts.last());
        assert(d[0] == ts[0]);
        let a = ts[0];
        let b = join_with(d.drop_first(), sep);
        let c = ts.last();
        assert(join_with(ts, sep) == join_with(d, sep) + sep + c);
        assert(join_with(e, sep) == join_with(e.drop_last(), sep) + sep + e.last());
        assert(join_with(e, sep) == b + sep + c);
        assert(a + sep + b + sep + c =~= a + sep + (b + sep + c));
    }
}

proof fn lemma_fields_of_token(t: Seq<char>)
    requires
        is_token(t),
    ensures
        fields(t) == seq![t],
{
    lemma_token_len_at(t, t.len() as int);
    assert(t.take(t.len() as int) =~= t);
    assert(t.skip(t.len() as int) =~= Seq::<char>::empty());
    assert(fields(t.skip(t.len() as int)) == Seq::<Seq<char>>::empty());
    assert(fields(t) =~= seq![t]);
}

/// Splitting tokens joined by single spaces gives the tokens back.
pub proof fn lemma_fields_of_joined_tokens(ts: Seq<Seq<char>>)
    requires
        forall|i: int| 0 <= i < ts.len() ==> is_token(#[trigger] ts[i]),
    ensures
        fields(join_with(ts, " "@)) == ts,
    decreases ts.len(),
{
    if ts.len() == 0 {
        assert(join_with(ts, " "@) =~= Seq::<char>::empty());
        assert(fields(Seq::<char>::empty()) =~= ts);
    } else if ts.len() == 1 {
        assert(is_token(ts[0]));
        lemma_fields_of_token(ts[0]);
        assert(seq![ts[0]] =~= ts);
    } else {
        let rest = ts.drop_first();
        assert forall|i: int| 0 <= i < rest.len() implies is_token(#[trigger] rest[i]) by {
            assert(rest[i] == ts[i + 1]);
        }
        lemma_fields_of_joined_tokens(rest);
        lemma_join_front(ts, " "@);
        let t0 = ts[0];
        assert(is_token(t0));
        let r = join_with(rest, " "@);
        let s = t0 + " "@ + r;
        let n = t0.len();
        reveal_strlit(" ");
        assert(' ' as u32 == 32);
        assert(is_ws(' '));
        assert(s[n as int] == ' ');
        assert forall|k: int| 0 <= k < n implies !is_ws(#[trigger] s[k]) by {
            assert(s[k] == t0[k]);
        }
        lemma_token_len_at(s, n as int);
        assert(s.take(n as int) =~= t0);
        let after = s.skip(n as int);
        assert(after =~= " "@ + r);
        assert(after.drop_first() =~= r);
        assert(fields(after) == fields(r));
        assert(fields(s) == seq![t0] + fields(after));
        assert(seq![t0] + rest =~= ts);
    }
}

/// The decimal notation of a number is a token.
pub proof fn lemma_decimal_is_token(n: nat)
    ensures
        is_token(decimal(n)),
    decreases n,
{
    if n < 10 {
        lemma_digit_char(n);
        assert(('0' as u32) == 48);
        assert((48 + n) as char as u32 == 48 + n);
        assert(!is_ws(decimal(n)[0]));
    } else {
        lemma_decimal_is_token(n / 10);
        let d = decimal(n / 10);
        let c = digit_char(n % 10);
        assert(('0' as u32) == 48);
        assert((48 + n % 10) as char as u32 == 48 + n % 10);
        assert(!is_ws(c));
        assert forall|k: int| 0 <= k < d.push(c).len() implies !is_ws(#[trigger] d.push(c)[k]) by {
            if k < d.len() {
                assert(d.push(c)[k] == d[k]);
            }
        }
    }
}

} // verus!
