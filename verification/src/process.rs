//! Recognition of the game among running processes, and the parsing of the
//! process tables that `ps` and `tasklist` print.

use vstd::prelude::*;
use vstd::utf8::{decode_utf8, valid_utf8};
use crate::text::{
    after_last, after_last_start, chars_equal, contains, contains_chars, contains_str, from_chars,
    lines, lower, occurs_at, parse_u32, parse_unsigned, slice_to_vec, spec_int_error_message,
    split_lines, split_on, split_on_str, to_chars, to_lower, token_len, trim, trim_char, trimmed,
    trimmed_char,
};

verus! {

/// A running process: its id and its command line or image name.
#[derive(Debug, Clone)]
pub struct GameProcess {
    pub pid: u32,
    pub name: String,
}

impl View for GameProcess {
    type V = (u32, Seq<char>);

    open spec fn view(&self) -> (u32, Seq<char>) {
        (self.pid, self.name@)
    }
}

/// The views of a list of processes.
pub open spec fn process_views(ps: Seq<GameProcess>) -> Seq<(u32, Seq<char>)> {
    ps.map_values(|p: GameProcess| p@)
}

/// The views of a list of strings.
pub open spec fn string_views(ss: Seq<String>) -> Seq<Seq<char>> {
    ss.map_values(|s: String| s@)
}

// ---------------------------------------------------------------- ps

/// One non-blank line of `ps -eo pid=,args=`: the first word is the pid, the
/// rest after the white-space character that ends it, trimmed, is the name.
pub open spec fn ps_line(t: Seq<char>) -> Result<(u32, Seq<char>), Seq<char>> {
    let k = token_len(t);
    match parse_unsigned(t.take(k as int), u32::MAX as nat) {
        Err(e) => Err(spec_int_error_message(e)),
        Ok(pid) => Ok(
            (
                pid as u32,
                if k >= t.len() {
                    seq![]
                } else {
                    trim(t.skip(k as int + 1))
                },
            ),
        ),
    }
}

/// The table of `ps` lines: blank lines are passed over, the first line that
/// does not start with a pid makes the whole parse fail.
pub open spec fn ps_table(ls: Seq<Seq<char>>) -> Result<Seq<(u32, Seq<char>)>, Seq<char>>
    decreases ls.len(),
{
    if ls.len() == 0 {
        Ok(seq![])
    } else {
        match ps_table(ls.drop_last()) {
            Err(m) => Err(m),
            Ok(v) => {
                let t = trim(ls.last());
                if t.len() == 0 {
                    Ok(v)
                } else {
                    match ps_line(t) {
                        Err(m) => Err(m),
                        Ok(p) => Ok(v.push(p)),
                    }
                }
            },
        }
    }
}

/// Whether a parse result agrees with its specification.
pub open spec fn table_matches(
    r: Result<Vec<GameProcess>, String>,
    s: Result<Seq<(u32, Seq<char>)>, Seq<char>>,
) -> bool {
    match (r, s) {
        (Ok(v), Ok(sv)) => process_views(v@) == sv,
        (Err(m), Err(sm)) => m@ == sm,
        _ => false,
    }
}

fn parse_ps_line(t: &[char]) -> (r: Result<GameProcess, String>)
    requires
        t@.len() > 0,
    ensures
        match (r, ps_line(t@)) {
            (Ok(p), Ok(sp)) => p@ == sp,
            (Err(m), Err(sm)) => m@ == sm,
            _ => false,
        },
{
    let mut k: usize = 0;
    while k < t.len() && !crate::text::is_whitespace(t[k])
        invariant
            k <= t@.len(),
            forall|j: int| 0 <= j < k ==> !crate::text::is_ws(#[trigger] t@[j]),
        decreases t@.len() - k,
    {
        k = k + 1;
    }
    proof {
        crate::text::lemma_token_len_at(t@, k as int);
    }
    let first = slice_to_vec(t, 0, k);
    assert(first@ =~= t@.take(k as int));
    match parse_u32(first.as_slice()) {
        Err(e) => Err(e.message()),
        Ok(pid) => {
            let name = if k >= t.len() {
                String::new()
            } else {
                let rest = slice_to_vec(t, k + 1, t.len());
                assert(rest@ =~= t@.skip(k + 1));
                let tr = trimmed(rest.as_slice());
                from_chars(tr.as_slice())
            };
            Ok(GameProcess { pid, name })
        },
    }
}

/// Parses the output of `ps -eo pid=,args=`.
pub fn parse_ps(output: &str) -> (r: Result<Vec<GameProcess>, String>)
    ensures
        table_matches(r, ps_table(lines(output@))),
{
    let chars = to_chars(output);
    let ls = split_lines(chars.as_slice());
    let ghost lsv = ls.deep_view();
    let mut out: Vec<GameProcess> = Vec::new();
    let n = ls.len();
    assert(lsv.take(0) =~= seq![]);
    assert(process_views(out@) =~= seq![]);
    for i in 0..n
        invariant
            n == ls@.len() == lsv.len(),
            lsv == ls.deep_view(),
            lsv == lines(output@),
            ps_table(lsv.take(i as int)) == Ok::<Seq<(u32, Seq<char>)>, Seq<char>>(
                process_views(out@),
            ),
    {
        assert(lsv.take(i + 1).drop_last() =~= lsv.take(i as int));
        assert(lsv[i as int] == ls@[i as int]@);
        let t = trimmed(ls[i].as_slice());
        if t.len() > 0 {
            match parse_ps_line(t.as_slice()) {
                Err(m) => {
                    assert(lsv.take(i + 1).last() == lsv[i as int]);
                    assert(ps_table(lsv.take(i + 1)) == Err::<Seq<(u32, Seq<char>)>, Seq<char>>(
                        m@,
                    ));
                    proof {
                        lemma_ps_table_err_extends(lsv, i as int + 1, m@);
                    }
                    assert(lsv.take(n as int) =~= lsv);
                    return Err(m);
                },
                Ok(p) => {
                    let ghost before = out@;
                    out.push(p);
                    assert(process_views(out@) =~= process_views(before).push(p@));
                },
            }
        }
    }
    assert(lsv.take(n as int) =~= lsv);
    Ok(out)
}

proof fn lemma_ps_table_err_extends(ls: Seq<Seq<char>>, i: int, m: Seq<char>)
    requires
        0 <= i <= ls.len(),
        ps_table(ls.take(i)) == Err::<Seq<(u32, Seq<char>)>, Seq<char>>(m),
    ensures
        ps_table(ls) == Err::<Seq<(u32, Seq<char>)>, Seq<char>>(m),
    decreases ls.len() - i,
{
    if i == ls.len() {
        assert(ls.take(i) =~= ls);
    } else {
        assert(ls.take(i + 1).drop_last() =~= ls.take(i));
        lemma_ps_table_err_extends(ls, i + 1, m);
    }
}

// ---------------------------------------------------------------- tasklist

/// The fields of one CSV line of `tasklist /FO CSV`: outer quotes removed, then
/// split at `","`.
pub open spec fn csv_fields(line: Seq<char>) -> Seq<Seq<char>> {
    split_on(trim_char(line, '"'), "\",\""@)
}

/// Splits one quoted CSV line into its fields.
pub fn parse_csv_line(line: &str) -> (cols: Vec<String>)
    ensures
        string_views(cols@) == csv_fields(line@),
{
    let c = to_chars(line);
    let t = trimmed_char(c.as_slice(), '"');
    proof {
        reveal_strlit("\",\"");
    }
    let pieces = split_on_str(t.as_slice(), "\",\"");
    let ghost pv = pieces.deep_view();
    let mut cols: Vec<String> = Vec::new();
    let n = pieces.len();
    for i in 0..n
        invariant
            n == pieces@.len() == pv.len(),
            pv == pieces.deep_view(),
            string_views(cols@) == pv.take(i as int),
    {
        assert(pv[i as int] == pieces@[i as int]@);
        let s = from_chars(pieces[i].as_slice());
        let ghost before = cols@;
        cols.push(s);
        assert(string_views(cols@) =~= string_views(before).push(s@));
        assert(pv.take(i + 1) =~= pv.take(i as int).push(pv[i as int]));
    }
    assert(pv.take(n as int) =~= pv);
    cols
}

/// The process named by one `tasklist` line, when it has a pid column that parses.
pub open spec fn tasklist_line(line: Seq<char>) -> Option<(u32, Seq<char>)> {
    let cols = csv_fields(line);
    if cols.len() < 2 {
        None
    } else {
        match parse_unsigned(cols[1], u32::MAX as nat) {
            Ok(pid) => Some((pid as u32, cols[0])),
            Err(_) => None,
        }
    }
}

/// The processes of a `tasklist` table; lines that name none are passed over.
pub open spec fn tasklist_table(ls: Seq<Seq<char>>) -> Seq<(u32, Seq<char>)>
    decreases ls.len(),
{
    if ls.len() == 0 {
        seq![]
    } else {
        let r = tasklist_table(ls.drop_last());
        match tasklist_line(ls.last()) {
            Some(p) => r.push(p),
            None => r,
        }
    }
}

/// Parses the output of `tasklist /FO CSV /NH`; this never fails.
pub fn parse_tasklist(output: &str) -> (r: Result<Vec<GameProcess>, String>)
    ensures
        r matches Ok(v) && process_views(v@) == tasklist_table(lines(output@)),
{
    let chars = to_chars(output);
    let ls = split_lines(chars.as_slice());
    let ghost lsv = ls.deep_view();
    let mut out: Vec<GameProcess> = Vec::new();
    let n = ls.len();
    for i in 0..n
        invariant
            n == ls@.len() == lsv.len(),
            lsv == ls.deep_view(),
            process_views(out@) == tasklist_table(lsv.take(i as int)),
    {
        assert(lsv.take(i + 1).drop_last() =~= lsv.take(i as int));
        assert(lsv[i as int] == ls@[i as int]@);
        let line = from_chars(ls[i].as_slice());
        let cols = parse_csv_line(line.as_str());
        if cols.len() >= 2 {
            let pid_chars = to_chars(cols[1].as_str());
            match parse_u32(pid_chars.as_slice()) {
                Ok(pid) => {
                    let name = cols[0].clone();
                    let ghost before = out@;
                    out.push(GameProcess { pid, name });
                    assert(process_views(out@) =~= process_views(before).push((pid, cols@[0]@)));
                },
                Err(_) => {},
            }
        }
    }
    assert(lsv.take(n as int) =~= lsv);
    Ok(out)
}


// ---------------------------------------------------------------- matching

/// `str::trim_end_matches` with a string pattern: `p` removed from the end as
/// long as `s` ends with it.
pub open spec fn trim_end_str(s: Seq<char>, p: Seq<char>) -> Seq<char>
    decreases s.len(),
{
    if p.len() > 0 && p.len() <= s.len() && occurs_at(s, p, s.len() - p.len()) {
        trim_end_str(s.take(s.len() - p.len()), p)
    } else {
        s
    }
}

fn trimmed_end_str(s: &[char], p: &str) -> (out: Vec<char>)
    ensures
        out@ == trim_end_str(s@, p@),
{
    let pc = to_chars(p);
    let m = pc.len();
    let mut end = s.len();
    assert(s@.take(end as int) =~= s@);
    while m > 0 && m <= end && crate::text::matches_at(s, pc.as_slice(), end - m)
        invariant
            end <= s@.len(),
            m == pc@.len() == p@.len(),
            pc@ == p@,
            trim_end_str(s@.take(end as int), p@) == trim_end_str(s@, p@),
        decreases end,
    {
        let ghost t = s@.take(end as int);
        assert(t.subrange(end - m, end as int) =~= s@.subrange(end - m, end as int));
        assert(t.take(end - m) =~= s@.take(end - m));
        end = end - m;
    }
    proof {
        let t = s@.take(end as int);
        if m > 0 && m <= end {
            assert(t.subrange(end - m, end as int) =~= s@.subrange(end - m, end as int));
        }
    }
    slice_to_vec(s, 0, end)
}

/// The executable part of a command line: what follows the last `/`, then the
/// last `\`.
pub open spec fn exe_file_name(name: Seq<char>) -> Seq<char> {
    after_last(after_last(name, '/'), '\\')
}

/// Launchers, wrappers and helpers that are never taken for the game itself.
pub open spec fn is_helper_process(f: Seq<char>) -> bool {
    contains(f, "steam-launch-wrapper"@) || contains(f, "reaper"@) || contains(
        f,
        "pressure-vessel"@,
    ) || contains(f, "proton waitforexitandrun"@) || contains(f, "mitmdump"@) || contains(
        f,
        "key_sniffer"@,
    ) || contains(f, "game-op"@) || contains(f, "launch"@) || contains(f, "protected"@)
        || contains(f, "crash"@)
}

/// Whether a process called `name` is the game `target`: its lowercased file
/// name is not a helper and equals the target, equals it without `.exe`, or
/// contains it.
pub open spec fn is_game_process(name: Seq<char>, target: Seq<char>) -> bool {
    let f = lower(exe_file_name(name));
    let t = lower(target);
    if is_helper_process(f) {
        false
    } else {
        f == t || f == trim_end_str(t, ".exe"@) || (contains(f, t) && !contains(f, "launch"@)
            && !contains(f, "protected"@) && !contains(f, "crash"@))
    }
}

fn helper_process(f: &[char]) -> (b: bool)
    ensures
        b == is_helper_process(f@),
{
    contains_str(f, "steam-launch-wrapper") || contains_str(f, "reaper") || contains_str(
        f,
        "pressure-vessel",
    ) || contains_str(f, "proton waitforexitandrun") || contains_str(f, "mitmdump")
        || contains_str(f, "key_sniffer") || contains_str(f, "game-op") || contains_str(
        f,
        "launch",
    ) || contains_str(f, "protected") || contains_str(f, "crash")
}

/// Whether the process called `name` is the game `target`.
pub fn matches_target(name: &str, target: &str) -> (b: bool)
    ensures
        b == is_game_process(name@, target@),
{
    let n = to_chars(name);
    let s1 = after_last_start(n.as_slice(), '/');
    let a = slice_to_vec(n.as_slice(), s1, n.len());
    let s2 = after_last_start(a.as_slice(), '\\');
    let fname = slice_to_vec(a.as_slice(), s2, a.len());
    let f = to_lower(fname.as_slice());
    let tc = to_chars(target);
    let t = to_lower(tc.as_slice());
    if helper_process(f.as_slice()) {
        return false;
    }
    let stem = trimmed_end_str(t.as_slice(), ".exe");
    chars_equal(f.as_slice(), t.as_slice()) || chars_equal(f.as_slice(), stem.as_slice()) || (
    contains_chars(f.as_slice(), t.as_slice()) && !contains_str(f.as_slice(), "launch")
        && !contains_str(f.as_slice(), "protected") && !contains_str(f.as_slice(), "crash"))
}

/// Looks for the game among the running processes.
pub struct ProcessWatcher {
    target: String,
}

impl ProcessWatcher {
    pub closed spec fn spec_target(&self) -> Seq<char> {
        self.target@
    }

    pub fn new(target: String) -> (w: Self)
        ensures
            w.spec_target() == target@,
    {
        Self { target }
    }

    /// The first process in `processes` that is the game, if any.
    pub fn find(&self, processes: &[GameProcess]) -> (r: Option<GameProcess>)
        ensures
            match r {
                Some(p) => exists|i: int|
                    #![trigger processes@[i]]
                    0 <= i < processes@.len() && p@ == processes@[i]@ && is_game_process(
                        processes@[i].name@,
                        self.spec_target(),
                    ) && forall|j: int|
                        0 <= j < i ==> !is_game_process(
                            #[trigger] processes@[j].name@,
                            self.spec_target(),
                        ),
                None => forall|i: int|
                    0 <= i < processes@.len() ==> !is_game_process(
                        #[trigger] processes@[i].name@,
                        self.spec_target(),
                    ),
            },
    {
        let n = processes.len();
        let mut i: usize = 0;
        while i < n
            invariant
                n == processes@.len(),
                i <= n,
                forall|j: int|
                    0 <= j < i ==> !is_game_process(
                        #[trigger] processes@[j].name@,
                        self.spec_target(),
                    ),
            decreases n - i,
        {
            if matches_target(processes[i].name.as_str(), self.target.as_str()) {
                let p = GameProcess { pid: processes[i].pid, name: processes[i].name.clone() };
                assert(p@ == processes@[i as int]@);
                return Some(p);
            }
            i = i + 1;
        }
        None
    }

    /// Whether a process with id `pid` is among `processes`.
    pub fn is_running(&self, processes: &[GameProcess], pid: u32) -> (b: bool)
        ensures
            b == exists|i: int| 0 <= i < processes@.len() && #[trigger] processes@[i].pid == pid,
    {
        let n = processes.len();
        for i in 0..n
            invariant
                n == processes@.len(),
                forall|j: int| 0 <= j < i ==> #[trigger] processes@[j].pid != pid,
        {
            if processes[i].pid == pid {
                return true;
            }
        }
        false
    }
}

// ---------------------------------------------------------------- process tables

/// Whether a process is kept in the table: not this program, and, where asked,
/// not a zombie.
pub open spec fn keeps_process(p: (u32, Seq<char>), own_pid: u32, drop_defunct: bool) -> bool {
    p.0 != own_pid && !(drop_defunct && contains(p.1, "<defunct>"@))
}

/// The processes of `ps` kept by `keeps_process`, in order.
pub open spec fn kept(ps: Seq<(u32, Seq<char>)>, own_pid: u32, drop_defunct: bool) -> Seq<
    (u32, Seq<char>),
> {
    ps.filter(|p: (u32, Seq<char>)| keeps_process(p, own_pid, drop_defunct))
}

/// Removes this program and, where asked, zombie processes from a table.
pub fn filter_processes(processes: Vec<GameProcess>, own_pid: u32, drop_defunct: bool) -> (out: Vec<
    GameProcess,
>)
    ensures
        process_views(out@) == kept(process_views(processes@), own_pid, drop_defunct),
{
    let ghost orig = processes@;
    let ghost all = process_views(processes@);
    let mut out: Vec<GameProcess> = Vec::new();
    let mut rest = processes;
    let n = rest.len();
    assert(all.take(0) =~= seq![]);
    assert(orig.skip(0) =~= orig);
    for k in 0..n
        invariant
            n == orig.len() == all.len(),
            all == process_views(orig),
            rest@ == orig.skip(k as int),
            process_views(out@) == kept(all.take(k as int), own_pid, drop_defunct),
    {
        let p = rest.remove(0);
        assert(p == orig[k as int]);
        assert(p@ == all[k as int]);
        let name = to_chars(p.name.as_str());
        let keep = p.pid != own_pid && !(drop_defunct && contains_str(name.as_slice(), "<defunct>"));
        assert(all.take(k + 1).drop_last() =~= all.take(k as int));
        reveal_with_fuel(Seq::filter, 1);
        if keep {
            let ghost before = out@;
            out.push(p);
            assert(process_views(out@) =~= process_views(before).push(p@));
        }
        assert(rest@ =~= orig.skip(k + 1));
    }
    assert(all.take(n as int) =~= all);
    out
}

/// Wraps `String::from_utf8`: the text of `bytes` exactly when they are valid
/// UTF-8, decoded character by character.
#[verifier::external_body]
fn utf8_to_string(bytes: Vec<u8>) -> (r: Option<String>)
    ensures
        r is Some <==> valid_utf8(bytes@),
        r matches Some(s) ==> s@ == decode_utf8(bytes@),
{
    String::from_utf8(bytes).ok()
}

/// A `/proc/<pid>/cmdline` with its NUL separators turned into spaces.
pub open spec fn cmdline_spaced(bytes: Seq<u8>) -> Seq<u8> {
    bytes.map_values(|b: u8| if b == 0 { 32u8 } else { b })
}

/// The process described by `/proc/<pid>/cmdline`: none for this program, for an
/// empty or non-UTF-8 command line, or for a zombie; otherwise the trimmed text.
pub open spec fn spec_cmdline_process(pid: u32, own_pid: u32, bytes: Seq<u8>) -> Option<
    (u32, Seq<char>),
> {
    if pid == own_pid || bytes.len() == 0 || !valid_utf8(cmdline_spaced(bytes)) {
        None
    } else {
        let name = trim(decode_utf8(cmdline_spaced(bytes)));
        if contains(name, "<defunct>"@) {
            None
        } else {
            Some((pid, name))
        }
    }
}

/// Builds the process entry for `/proc/<pid>/cmdline`.
pub fn process_from_cmdline(pid: u32, own_pid: u32, cmdline: &[u8]) -> (r: Option<GameProcess>)
    ensures
        match spec_cmdline_process(pid, own_pid, cmdline@) {
            Some(p) => r matches Some(q) && q@ == p,
            None => r is None,
        },
{
    if pid == own_pid || cmdline.len() == 0 {
        return None;
    }
    let mut spaced: Vec<u8> = Vec::new();
    let n = cmdline.len();
    for i in 0..n
        invariant
            n == cmdline@.len(),
            spaced@ == cmdline_spaced(cmdline@.take(i as int)),
    {
        let b = cmdline[i];
        spaced.push(if b == 0 { 32u8 } else { b });
        assert(cmdline_spaced(cmdline@.take(i + 1)) =~= cmdline_spaced(cmdline@.take(i as int)).push(
            if b == 0 { 32u8 } else { b },
        ));
    }
    assert(cmdline@.take(n as int) =~= cmdline@);
    match utf8_to_string(spaced) {
        None => None,
        Some(text) => {
            let c = to_chars(text.as_str());
            let t = trimmed(c.as_slice());
            if contains_str(t.as_slice(), "<defunct>") {
                None
            } else {
                Some(GameProcess { pid, name: from_chars(t.as_slice()) })
            }
        },
    }
}


/// Launchers, Proton wrappers, crash handlers and this program's own helpers are
/// never taken for the game, whatever the target is called.
pub proof fn lemma_helpers_never_match(name: Seq<char>, target: Seq<char>)
    requires
        is_helper_process(lower(exe_file_name(name))),
    ensures
        !is_game_process(name, target),
{
}

/// A process whose executable name equals the target, ignoring ASCII case, is the
/// game unless it is a helper.
pub proof fn lemma_exact_name_matches(name: Seq<char>, target: Seq<char>)
    requires
        lower(exe_file_name(name)) == lower(target),
        !is_helper_process(lower(exe_file_name(name))),
    ensures
        is_game_process(name, target),
{
}

/// Whether a lowercased executable name is one of the launchers, Proton
/// wrappers, crash handlers or helpers of this program, by the words it holds.
pub open spec fn names_helper(f: Seq<char>) -> bool {
    contains(f, "steam-launch-wrapper"@) || contains(f, "reaper"@) || contains(f, "pressure-vessel"@)
        || contains(f, "proton waitforexitandrun"@) || contains(f, "mitmdump"@) || contains(
        f,
        "key_sniffer"@,
    ) || contains(f, "game-op"@) || contains(f, "launch"@) || contains(f, "protected"@)
        || contains(f, "crash"@)
}

/// The game is recognised by its executable's file name: a process whose
/// lowercased file name holds the lowercased target and no helper word is the
/// game (so `VRChat.exe` under Proton is the game `VRChat`, and so is
/// `C:\Games\VRChat.exe`); a process recognised as the game holds no helper
/// word, and its file name holds the target or is the target without `.exe`.
pub proof fn lemma_game_recognition(name: Seq<char>, target: Seq<char>)
    ensures
        !names_helper(lower(exe_file_name(name))) && contains(
            lower(exe_file_name(name)),
            lower(target),
        ) ==> is_game_process(name, target),
        !names_helper(lower(exe_file_name(name))) && lower(exe_file_name(name)) == lower(target)
            + ".exe"@ ==> is_game_process(name, target),
        is_game_process(name, target) ==> !names_helper(lower(exe_file_name(name))) && (contains(
            lower(exe_file_name(name)),
            lower(target),
        ) || lower(exe_file_name(name)) == trim_end_str(lower(target), ".exe"@)),
{
    let f = lower(exe_file_name(name));
    let t = lower(target);
    if f == t + ".exe"@ {
        assert(f.subrange(0, t.len() as int) =~= t);
        assert(occurs_at(f, t, 0));
    }
    if f == t {
        assert(f.subrange(0, t.len() as int) =~= t);
        assert(occurs_at(f, t, 0));
    }
}

/// The executable's file name is the part of the command line after its last
/// `/` or `\`: a suffix of the name that holds neither separator, and that
/// follows one of them where it is not the whole name.
pub proof fn lemma_exe_file_name_shape(name: Seq<char>)
    ensures
        exe_file_name(name).len() <= name.len(),
        exe_file_name(name) == name.skip(name.len() - exe_file_name(name).len()),
        forall|k: int|
            0 <= k < exe_file_name(name).len() ==> #[trigger] exe_file_name(name)[k] != '/'
                && exe_file_name(name)[k] != '\\',
        exe_file_name(name).len() < name.len() ==> (name[name.len() - exe_file_name(name).len()
            - 1] == '/' || name[name.len() - exe_file_name(name).len() - 1] == '\\'),
{
    let a = after_last(name, '/');
    let e = after_last(a, '\\');
    crate::path::lemma_after_last_shape(name, '/');
    crate::path::lemma_after_last_shape(a, '\\');
    crate::text::lemma_after_last_excludes(name, '/');
    crate::text::lemma_after_last_excludes(a, '\\');
    assert(name.skip(name.len() - a.len()) == a);
    assert(a.skip(a.len() - e.len()) =~= name.skip(name.len() - e.len()));
    assert forall|k: int| 0 <= k < e.len() implies #[trigger] e[k] != '/' && e[k] != '\\' by {
        assert(e[k] == a[k + a.len() - e.len()]);
    }
    if e.len() < name.len() {
        if e.len() < a.len() {
            assert(name[name.len() - e.len() - 1] == a[a.len() - e.len() - 1]);
        }
    }
}

} // verus!
