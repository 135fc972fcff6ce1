//! Lossless compaction of Wavefront OBJ meshes: vertex positions that are equal
//! after quantization are stored once and the faces are renumbered.

use vstd::prelude::*;
use crate::text::{
    decimal, extend_chars, fields, find_span, join_chars_with, join_with, lines, occurs_at,
    parse_unsigned, parse_usize, push_decimal, slice_to_vec, span_until, split_fields,
    split_lines, starts_with_str, strings_to_chars, to_chars, trim, trim_bounds, trim_start,
    from_chars, is_token, is_ws, lemma_decimal_is_token, lemma_fields_are_tokens,
    lemma_fields_of_joined_tokens, lemma_span_until_bound,
};

verus! {

// ---------------------------------------------------------------- vertex lines

/// Whether an OBJ line declares a vertex position.
pub open spec fn is_vertex_line(l: Seq<char>) -> bool {
    occurs_at(l, "v "@, 0)
}

/// Whether an OBJ line declares a face.
pub open spec fn is_face_line(l: Seq<char>) -> bool {
    occurs_at(l, "f "@, 0)
}

/// The coordinate fields of every vertex line, in order.
pub open spec fn vertex_fields(ls: Seq<Seq<char>>) -> Seq<Seq<Seq<char>>>
    decreases ls.len(),
{
    if ls.len() == 0 {
        seq![]
    } else {
        let r = vertex_fields(ls.drop_last());
        if is_vertex_line(ls.last()) {
            r.push(fields(ls.last().skip(2)))
        } else {
            r
        }
    }
}

/// The views of a list of lists of strings.
pub open spec fn nested_views(v: Seq<Vec<String>>) -> Seq<Seq<Seq<char>>> {
    v.map_values(|f: Vec<String>| f@.map_values(|s: String| s@))
}

fn chars_list_to_strings(v: &Vec<Vec<char>>) -> (out: Vec<String>)
    ensures
        out@.map_values(|s: String| s@) == v.deep_view(),
{
    let ghost dv = v.deep_view();
    let mut out: Vec<String> = Vec::new();
    let n = v.len();
    for i in 0..n
        invariant
            n == v@.len() == dv.len(),
            dv == v.deep_view(),
            out@.map_values(|s: String| s@) == dv.take(i as int),
    {
        assert(dv[i as int] == v@[i as int]@);
        let s = from_chars(v[i].as_slice());
        let ghost before = out@;
        out.push(s);
        assert(out@.map_values(|s: String| s@) =~= before.map_values(|s: String| s@).push(s@));
        assert(dv.take(i + 1) =~= dv.take(i as int).push(dv[i as int]));
    }
    assert(dv.take(n as int) =~= dv);
    out
}

/// The coordinate fields of each vertex line of an OBJ text, in order.
pub fn obj_vertex_fields(source: &str) -> (out: Vec<Vec<String>>)
    ensures
        nested_views(out@) == vertex_fields(lines(source@)),
{
    let chars = to_chars(source);
    let ls = split_lines(chars.as_slice());
    let ghost lsv = ls.deep_view();
    let mut out: Vec<Vec<String>> = Vec::new();
    let n = ls.len();
    for i in 0..n
        invariant
            n == ls@.len() == lsv.len(),
            lsv == ls.deep_view(),
            nested_views(out@) == vertex_fields(lsv.take(i as int)),
    {
        assert(lsv.take(i + 1).drop_last() =~= lsv.take(i as int));
        assert(lsv[i as int] == ls@[i as int]@);
        let line = ls[i].as_slice();
        if starts_with_str(line, "v ") {
            proof {
                reveal_strlit("v ");
            }
            let rest = slice_to_vec(line, 2, line.len());
            assert(rest@ =~= lsv[i as int].skip(2));
            let fs = split_fields(rest.as_slice());
            let strs = chars_list_to_strings(&fs);
            let ghost before = out@;
            out.push(strs);
            assert(nested_views(out@) =~= nested_views(before).push(fields(rest@)));
        }
    }
    assert(lsv.take(n as int) =~= lsv);
    out
}

// ---------------------------------------------------------------- dedup

/// The distinct keys in order of first appearance.
pub open spec fn unique_keys(keys: Seq<Seq<char>>) -> Seq<Seq<char>>
    decreases keys.len(),
{
    if keys.len() == 0 {
        seq![]
    } else {
        let u = unique_keys(keys.drop_last());
        if u.contains(keys.last()) {
            u
        } else {
            u.push(keys.last())
        }
    }
}

/// Index of the first `x` in `u`, or -1.
pub open spec fn find_in(u: Seq<Seq<char>>, x: Seq<char>) -> int
    decreases u.len(),
{
    if u.len() == 0 {
        -1
    } else if u[0] == x {
        0
    } else {
        let r = find_in(u.drop_first(), x);
        if r < 0 {
            -1
        } else {
            r + 1
        }
    }
}

/// For each key, the 1-based number of its position among `unique_keys(keys)`.
pub open spec fn remap_of(keys: Seq<Seq<char>>) -> Seq<nat>
    decreases keys.len(),
{
    if keys.len() == 0 {
        seq![]
    } else {
        let u = unique_keys(keys.drop_last());
        let r = remap_of(keys.drop_last());
        let f = find_in(u, keys.last());
        if f >= 0 {
            r.push((f + 1) as nat)
        } else {
            r.push(u.len() + 1)
        }
    }
}

proof fn lemma_find_in_at(u: Seq<Seq<char>>, x: Seq<char>, k: int)
    requires
        0 <= k <= u.len(),
        forall|j: int| 0 <= j < k ==> #[trigger] u[j] != x,
        k == u.len() || u[k] == x,
    ensures
        find_in(u, x) == (if k == u.len() {
            -1
        } else {
            k
        }),
    decreases k,
{
    if k > 0 {
        let t = u.drop_first();
        assert forall|j: int| 0 <= j < k - 1 implies #[trigger] t[j] != x by {
            assert(t[j] == u[j + 1]);
        }
        lemma_find_in_at(t, x, k - 1);
    }
}

fn find_key(positions: &Vec<Vec<char>>, key: &Vec<char>) -> (r: Option<usize>)
    ensures
        match r {
            Some(k) => find_in(positions.deep_view(), key@) == k as int && k < positions@.len(),
            None => find_in(positions.deep_view(), key@) == -1 && !positions.deep_view().contains(
                key@,
            ),
        },
{
    let ghost u = positions.deep_view();
    let n = positions.len();
    for k in 0..n
        invariant
            n == positions@.len() == u.len(),
            u == positions.deep_view(),
            forall|j: int| 0 <= j < k ==> #[trigger] u[j] != key@,
    {
        assert(u[k as int] == positions@[k as int]@);
        if crate::text::chars_equal(positions[k].as_slice(), key.as_slice()) {
            proof {
                lemma_find_in_at(u, key@, k as int);
            }
            return Some(k);
        }
    }
    proof {
        lemma_find_in_at(u, key@, n as int);
    }
    None
}


/// Whether `remap` holds the numbers of `spec`.
pub open spec fn same_numbers(remap: Seq<usize>, spec: Seq<nat>) -> bool {
    remap.len() == spec.len() && forall|i: int| 0 <= i < remap.len() ==> remap[i] == spec[i]
}

/// The distinct keys in order of first appearance, and the 1-based number of
/// each key among them.
pub fn dedup_keys(keys: &Vec<Vec<char>>) -> (r: (Vec<Vec<char>>, Vec<usize>))
    ensures
        r.0.deep_view() == unique_keys(keys.deep_view()),
        same_numbers(r.1@, remap_of(keys.deep_view())),
{
    let ghost kv = keys.deep_view();
    let mut positions: Vec<Vec<char>> = Vec::new();
    let mut remap: Vec<usize> = Vec::new();
    let n = keys.len();
    for i in 0..n
        invariant
            n == keys@.len() == kv.len(),
            kv == keys.deep_view(),
            positions.deep_view() == unique_keys(kv.take(i as int)),
            same_numbers(remap@, remap_of(kv.take(i as int))),
            positions@.len() <= i,
    {
        let ghost pre = kv.take(i as int);
        assert(kv.take(i + 1).drop_last() =~= pre);
        assert(kv[i as int] == keys@[i as int]@);
        assert(kv.take(i + 1).last() == kv[i as int]);
        let ghost u = positions.deep_view();
        match find_key(&positions, &keys[i]) {
            Some(k) => {
                assert(u[k as int] == positions@[k as int]@);
                assert(u.contains(kv[i as int])) by {
                    lemma_find_in_found(u, kv[i as int]);
                }
                remap.push(k + 1);
            },
            None => {
                let key = slice_to_vec(keys[i].as_slice(), 0, keys[i].len());
                assert(key@ =~= kv[i as int]);
                remap.push(positions.len() + 1);
                let ghost before = positions.deep_view();
                positions.push(key);
                assert(positions.deep_view() =~= before.push(key@)) by {
                    assert(key.deep_view() =~= key@);
                }
            },
        }
    }
    assert(kv.take(n as int) =~= kv);
    (positions, remap)
}

proof fn lemma_find_in_found(u: Seq<Seq<char>>, x: Seq<char>)
    requires
        find_in(u, x) >= 0,
    ensures
        find_in(u, x) < u.len(),
        u[find_in(u, x)] == x,
        u.contains(x),
    decreases u.len(),
{
    if u.len() > 0 && u[0] != x {
        lemma_find_in_found(u.drop_first(), x);
        assert(u[find_in(u, x)] == u.drop_first()[find_in(u.drop_first(), x)]);
    }
}

// ---------------------------------------------------------------- faces

/// One face vertex reference `v[/vt[/vn]]` renumbered: when its position number
/// parses and names a known vertex, that number is replaced by the new one.
pub open spec fn remap_token(tok: Seq<char>, remap: Seq<nat>) -> Seq<char> {
    let k = span_until(tok, '/');
    match parse_unsigned(tok.take(k as int), usize::MAX as nat) {
        Ok(idx) => if 1 <= idx <= remap.len() {
            decimal(remap[idx - 1]) + tok.skip(k as int)
        } else {
            tok
        },
        Err(_) => tok,
    }
}

/// A face line renumbered: its fields, the first kept and the others remapped,
/// joined by single spaces.
pub open spec fn remap_face(line: Seq<char>, remap: Seq<nat>) -> Seq<char> {
    let fs = fields(line);
    if fs.len() == 0 {
        "f"@
    } else {
        join_with(
            seq![fs[0]] + fs.skip(1).map_values(|t: Seq<char>| remap_token(t, remap)),
            " "@,
        )
    }
}

fn remap_token_exec(tok: &[char], remap: &Vec<usize>, Ghost(spec): Ghost<Seq<nat>>) -> (out: Vec<
    char,
>)
    requires
        same_numbers(remap@, spec),
    ensures
        out@ == remap_token(tok@, spec),
{
    let k = find_span(tok, '/');
    let head = slice_to_vec(tok, 0, k);
    assert(head@ =~= tok@.take(k as int));
    match parse_usize(head.as_slice()) {
        Ok(idx) => {
            if 1 <= idx && idx <= remap.len() {
                let mut out: Vec<char> = Vec::new();
                push_decimal(&mut out, remap[idx - 1] as u64);
                let tail = slice_to_vec(tok, k, tok.len());
                assert(tail@ =~= tok@.skip(k as int));
                extend_chars(&mut out, tail.as_slice());
                assert(out@ =~= decimal(spec[idx - 1]) + tok@.skip(k as int));
                out
            } else {
                let out = slice_to_vec(tok, 0, tok.len());
                assert(out@ =~= tok@);
                out
            }
        },
        Err(_) => {
            let out = slice_to_vec(tok, 0, tok.len());
            assert(out@ =~= tok@);
            out
        },
    }
}

fn remap_face_exec(line: &[char], remap: &Vec<usize>, Ghost(spec): Ghost<Seq<nat>>) -> (out: Vec<
    char,
>)
    requires
        same_numbers(remap@, spec),
    ensures
        out@ == remap_face(line@, spec),
{
    let fs = split_fields(line);
    let ghost fv = fs.deep_view();
    if fs.len() == 0 {
        return to_chars("f");
    }
    let mut parts: Vec<Vec<char>> = Vec::new();
    let head = slice_to_vec(fs[0].as_slice(), 0, fs[0].len());
    assert(fv[0] == fs@[0]@);
    assert(head@ =~= fv[0]);
    parts.push(head);
    let ghost tail_spec = fv.skip(1).map_values(|t: Seq<char>| remap_token(t, spec));
    assert(parts.deep_view() =~= seq![fv[0]]) by {
        assert(parts@[0].deep_view() =~= head@);
    }
    let n = fs.len();
    let mut i: usize = 1;
    while i < n
        invariant
            n == fs@.len() == fv.len(),
            fv == fs.deep_view(),
            1 <= i <= n,
            same_numbers(remap@, spec),
            tail_spec == fv.skip(1).map_values(|t: Seq<char>| remap_token(t, spec)),
            parts.deep_view() == seq![fv[0]] + tail_spec.take(i - 1),
        decreases n - i,
    {
        assert(fv[i as int] == fs@[i as int]@);
        let t = remap_token_exec(fs[i].as_slice(), remap, Ghost(spec));
        let ghost before = parts.deep_view();
        parts.push(t);
        assert(parts.deep_view() =~= before.push(t@)) by {
            assert(t.deep_view() =~= t@);
        }
        assert(tail_spec[i - 1] == remap_token(fv[i as int], spec));
        assert(tail_spec.take(i as int) =~= tail_spec.take(i - 1).push(tail_spec[i - 1]));
        i = i + 1;
    }
    assert(tail_spec.take(n - 1) =~= tail_spec);
    join_chars_with(&parts, " ")
}


// ---------------------------------------------------------------- compaction

/// Whether a line other than a vertex or face line is kept: it is not blank and
/// not a `#` comment.
pub open spec fn is_kept_line(l: Seq<char>) -> bool {
    trim(l).len() > 0 && !occurs_at(trim_start(l), "#"@, 0)
}

/// The lines that follow the vertex block: vertex lines dropped, face lines
/// renumbered, blank and comment lines dropped, the others kept, in order.
pub open spec fn body_lines(ls: Seq<Seq<char>>, remap: Seq<nat>) -> Seq<Seq<char>>
    decreases ls.len(),
{
    if ls.len() == 0 {
        seq![]
    } else {
        let r = body_lines(ls.drop_last(), remap);
        let l = ls.last();
        if is_vertex_line(l) {
            r
        } else if is_face_line(l) {
            r.push(remap_face(l, remap))
        } else if is_kept_line(l) {
            r.push(l)
        } else {
            r
        }
    }
}

/// The key of each vertex: its quantized coordinates joined by single spaces.
pub open spec fn vertex_keys(quantized: Seq<Seq<Seq<char>>>) -> Seq<Seq<char>> {
    quantized.map_values(|f: Seq<Seq<char>>| join_with(f, " "@))
}

/// The vertex lines of the compacted mesh, one per distinct key.
pub open spec fn vertex_block(keys: Seq<Seq<char>>) -> Seq<Seq<char>> {
    unique_keys(keys).map_values(|p: Seq<char>| "v "@ + p)
}

/// The compacted OBJ text for `source` whose vertices quantize to `quantized`:
/// the distinct vertex lines, then the remaining lines, each ended by `'\n'`.
pub open spec fn compacted(source: Seq<char>, quantized: Seq<Seq<Seq<char>>>) -> Seq<char> {
    let keys = vertex_keys(quantized);
    join_with(vertex_block(keys) + body_lines(lines(source), remap_of(keys)), "\n"@) + "\n"@
}

fn vertex_key_chars(quantized: &Vec<Vec<String>>) -> (keys: Vec<Vec<char>>)
    ensures
        keys.deep_view() == vertex_keys(nested_views(quantized@)),
{
    let ghost qv = nested_views(quantized@);
    let mut keys: Vec<Vec<char>> = Vec::new();
    let n = quantized.len();
    for i in 0..n
        invariant
            n == quantized@.len() == qv.len(),
            qv == nested_views(quantized@),
            keys.deep_view() == vertex_keys(qv.take(i as int)),
    {
        let parts = strings_to_chars(quantized[i].as_slice());
        assert(parts.deep_view() == qv[i as int]);
        let k = join_chars_with(&parts, " ");
        let ghost before = keys.deep_view();
        keys.push(k);
        assert(keys.deep_view() =~= before.push(k@)) by {
            assert(k.deep_view() =~= k@);
        }
        assert(vertex_keys(qv.take(i + 1)) =~= vertex_keys(qv.take(i as int)).push(
            join_with(qv[i as int], " "@),
        ));
    }
    assert(qv.take(n as int) =~= qv);
    keys
}

/// Stores equal vertex positions once and renumbers the faces. `quantized` holds,
/// for each vertex line of `source` in order, its coordinates after quantization;
/// blank lines and `#` comments are dropped.
pub fn compact_obj_positions(source: &str, quantized: &Vec<Vec<String>>) -> (out: String)
    ensures
        out@ == compacted(source@, nested_views(quantized@)),
{
    let ghost keys_spec = vertex_keys(nested_views(quantized@));
    let keys = vertex_key_chars(quantized);
    let (positions, remap) = dedup_keys(&keys);
    let ghost remap_spec = remap_of(keys_spec);
    let ghost u = positions.deep_view();
    let mut out_lines: Vec<Vec<char>> = Vec::new();
    let np = positions.len();
    proof {
        reveal_strlit("v ");
    }
    for i in 0..np
        invariant
            np == positions@.len() == u.len(),
            u == positions.deep_view(),
            u == unique_keys(keys_spec),
            out_lines.deep_view() == vertex_block(keys_spec).take(i as int),
    {
        let mut line = to_chars("v ");
        extend_chars(&mut line, positions[i].as_slice());
        assert(u[i as int] == positions@[i as int]@);
        let ghost before = out_lines.deep_view();
        out_lines.push(line);
        assert(out_lines.deep_view() =~= before.push(line@)) by {
            assert(line.deep_view() =~= line@);
        }
        assert(vertex_block(keys_spec).take(i + 1) =~= vertex_block(keys_spec).take(i as int).push(
            "v "@ + u[i as int],
        ));
    }
    assert(vertex_block(keys_spec).take(np as int) =~= vertex_block(keys_spec));
    let chars = to_chars(source);
    let ls = split_lines(chars.as_slice());
    let ghost lsv = ls.deep_view();
    let ghost vb = vertex_block(keys_spec);
    let n = ls.len();
    for i in 0..n
        invariant
            n == ls@.len() == lsv.len(),
            lsv == ls.deep_view(),
            same_numbers(remap@, remap_spec),
            out_lines.deep_view() == vb + body_lines(lsv.take(i as int), remap_spec),
    {
        assert(lsv.take(i + 1).drop_last() =~= lsv.take(i as int));
        assert(lsv[i as int] == ls@[i as int]@);
        let line = ls[i].as_slice();
        let ghost before = out_lines.deep_view();
        if starts_with_str(line, "v ") {
        } else if starts_with_str(line, "f ") {
            let l = remap_face_exec(line, &remap, Ghost(remap_spec));
            out_lines.push(l);
            assert(out_lines.deep_view() =~= before.push(l@)) by {
                assert(l.deep_view() =~= l@);
            }
            assert(vb + body_lines(lsv.take(i + 1), remap_spec) =~= (vb + body_lines(
                lsv.take(i as int),
                remap_spec,
            )).push(l@));
        } else {
            let (a, b) = trim_bounds(line);
            let mut s: usize = 0;
            while s < line.len() && crate::text::is_whitespace(line[s])
                invariant
                    s <= line@.len(),
                    forall|k: int| 0 <= k < s ==> crate::text::is_ws(#[trigger] line@[k]),
                decreases line@.len() - s,
            {
                s = s + 1;
            }
            proof {
                crate::text::lemma_trim_start_at(line@, s as int);
            }
            let comment = s < line.len() && line[s] == '#';
            proof {
                reveal_strlit("#");
                assert("#"@ =~= seq!['#']);
                let t = line@.skip(s as int);
                if s < line@.len() {
                    assert(t.subrange(0, 1) =~= seq![line@[s as int]]);
                    if line@[s as int] != '#' {
                        assert(t.subrange(0, 1)[0] != "#"@[0]);
                    }
                } else {
                    assert(t.len() == 0);
                }
                assert(comment == occurs_at(t, "#"@, 0));
                assert(comment == occurs_at(trim_start(line@), "#"@, 0));
                assert((a < b) == (trim(line@).len() > 0));
                assert((a < b && !comment) == is_kept_line(line@));
            }
            if a < b && !comment {
                let l = slice_to_vec(line, 0, line.len());
                assert(l@ =~= line@);
                out_lines.push(l);
                assert(out_lines.deep_view() =~= before.push(l@)) by {
                    assert(l.deep_view() =~= l@);
                }
                assert(vb + body_lines(lsv.take(i + 1), remap_spec) =~= (vb + body_lines(
                    lsv.take(i as int),
                    remap_spec,
                )).push(l@));
            }
        }
    }
    assert(lsv.take(n as int) =~= lsv);
    let mut joined = join_chars_with(&out_lines, "\n");
    joined.push('\n');
    proof {
        reveal_strlit("\n");
        assert(joined@ =~= compacted(source@, nested_views(quantized@)));
    }
    from_chars(joined.as_slice())
}


// ---------------------------------------------------------------- laws

/// Compaction loses no position: the kept positions are distinct, each is the key
/// of some input vertex, and every input vertex `i` is renumbered to a kept
/// position that holds exactly its key. Faces that name vertex `i` therefore name
/// the same coordinates after renumbering.
pub proof fn lemma_compaction_lossless(keys: Seq<Seq<char>>)
    ensures
        forall|a: int, b: int|
            0 <= a < b < unique_keys(keys).len() ==> #[trigger] unique_keys(keys)[a]
                != #[trigger] unique_keys(keys)[b],
        forall|a: int| 0 <= a < unique_keys(keys).len() ==> keys.contains(#[trigger] unique_keys(keys)[a]),
        remap_of(keys).len() == keys.len(),
        forall|i: int|
            0 <= i < keys.len() ==> 1 <= #[trigger] remap_of(keys)[i] <= unique_keys(keys).len()
                && unique_keys(keys)[remap_of(keys)[i] - 1] == keys[i],
    decreases keys.len(),
{
    if keys.len() > 0 {
        let pre = keys.drop_last();
        lemma_compaction_lossless(pre);
        let u = unique_keys(pre);
        let x = keys.last();
        let f = find_in(u, x);
        if f >= 0 {
            lemma_find_in_found(u, x);
        } else {
            lemma_find_in_absent(u, x);
        }
        assert forall|a: int| 0 <= a < unique_keys(keys).len() implies keys.contains(
            #[trigger] unique_keys(keys)[a],
        ) by {
            if a < u.len() {
                assert(pre.contains(u[a]));
                let j = choose|j: int| 0 <= j < pre.len() && pre[j] == u[a];
                assert(keys[j] == pre[j]);
            } else {
                assert(keys[keys.len() - 1] == x);
            }
        }
        assert forall|i: int|
            0 <= i < keys.len() implies 1 <= #[trigger] remap_of(keys)[i] <= unique_keys(keys).len()
            && unique_keys(keys)[remap_of(keys)[i] - 1] == keys[i] by {
            if i < pre.len() {
                assert(remap_of(keys)[i] == remap_of(pre)[i]);
                assert(keys[i] == pre[i]);
            }
        }
    }
}

proof fn lemma_distinct_keys_are_fixed(u: Seq<Seq<char>>)
    requires
        forall|a: int, b: int| 0 <= a < b < u.len() ==> #[trigger] u[a] != #[trigger] u[b],
    ensures
        unique_keys(u) == u,
        remap_of(u).len() == u.len(),
        forall|i: int| 0 <= i < u.len() ==> #[trigger] remap_of(u)[i] == i + 1,
    decreases u.len(),
{
    if u.len() > 0 {
        let pre = u.drop_last();
        assert forall|a: int, b: int| 0 <= a < b < pre.len() implies #[trigger] pre[a]
            != #[trigger] pre[b] by {
            assert(pre[a] == u[a] && pre[b] == u[b]);
        }
        lemma_distinct_keys_are_fixed(pre);
        let x = u.last();
        assert(!pre.contains(x)) by {
            if pre.contains(x) {
                let j = choose|j: int| 0 <= j < pre.len() && pre[j] == x;
                assert(u[j] == u[u.len() - 1]);
            }
        }
        if find_in(pre, x) >= 0 {
            lemma_find_in_found(pre, x);
        }
        assert(pre.push(x) =~= u);
        assert forall|i: int| 0 <= i < u.len() implies #[trigger] remap_of(u)[i] == i + 1 by {
            if i < pre.len() {
                assert(remap_of(u)[i] == remap_of(pre)[i]);
            }
        }
    }
}

/// Deduplication is idempotent: deduplicating the kept positions again keeps
/// them all, in the same order, and numbers each one by its own place. Compacting
/// an already compacted list of positions therefore changes nothing.
pub proof fn lemma_dedup_idempotent(keys: Seq<Seq<char>>)
    ensures
        unique_keys(unique_keys(keys)) == unique_keys(keys),
        remap_of(unique_keys(keys)).len() == unique_keys(keys).len(),
        forall|i: int|
            0 <= i < unique_keys(keys).len() ==> #[trigger] remap_of(unique_keys(keys))[i] == i + 1,
{
    lemma_compaction_lossless(keys);
    lemma_distinct_keys_are_fixed(unique_keys(keys));
}

proof fn lemma_remap_token_is_token(tok: Seq<char>, remap: Seq<nat>)
    requires
        is_token(tok),
    ensures
        is_token(remap_token(tok, remap)),
{
    let k = span_until(tok, '/');
    lemma_span_until_bound(tok, '/');
    match parse_unsigned(tok.take(k as int), usize::MAX as nat) {
        Ok(idx) => {
            if 1 <= idx <= remap.len() {
                let d = decimal(remap[idx - 1]);
                let rest = tok.skip(k as int);
                lemma_decimal_is_token(remap[idx - 1]);
                let out = d + rest;
                assert forall|m: int| 0 <= m < out.len() implies !is_ws(#[trigger] out[m]) by {
                    if m < d.len() {
                        assert(out[m] == d[m]);
                    } else {
                        assert(out[m] == tok[m - d.len() + k]);
                    }
                }
            }
        },
        Err(_) => {},
    }
}

/// Whether `new` is the face reference `old` renumbered by compaction of the
/// vertices with `keys`: a reference whose position number `i` names a vertex
/// now names the kept position that holds the key of vertex `i`, with the rest
/// of the reference (`/vt/vn`) unchanged; any other reference stays as it was.
pub open spec fn renumbered_reference(old: Seq<char>, new: Seq<char>, keys: Seq<Seq<char>>) -> bool {
    let k = span_until(old, '/');
    match parse_unsigned(old.take(k as int), usize::MAX as nat) {
        Ok(i) => if 1 <= i <= keys.len() {
            exists|r: nat|
                1 <= r <= unique_keys(keys).len() && unique_keys(keys)[r - 1] == keys[i - 1]
                    && new == decimal(r) + old.skip(k as int)
        } else {
            new == old
        },
        Err(_) => new == old,
    }
}

/// Faces keep naming the same coordinates: a renumbered face line has the same
/// fields as the original, the first (`f`) unchanged and every vertex reference,
/// at any position, renumbered to the kept position that holds the key of the
/// vertex it named.
pub proof fn lemma_face_references_follow_keys(line: Seq<char>, keys: Seq<Seq<char>>)
    requires
        fields(line).len() > 0,
    ensures
        fields(remap_face(line, remap_of(keys))).len() == fields(line).len(),
        fields(remap_face(line, remap_of(keys)))[0] == fields(line)[0],
        forall|j: int|
            1 <= j < fields(line).len() ==> renumbered_reference(
                fields(line)[j],
                #[trigger] fields(remap_face(line, remap_of(keys)))[j],
                keys,
            ),
{
    let fs = fields(line);
    let remap = remap_of(keys);
    lemma_compaction_lossless(keys);
    lemma_fields_are_tokens(line);
    let ts = seq![fs[0]] + fs.skip(1).map_values(|t: Seq<char>| remap_token(t, remap));
    assert forall|i: int| 0 <= i < ts.len() implies is_token(#[trigger] ts[i]) by {
        if i == 0 {
            assert(ts[0] == fs[0]);
        } else {
            assert(ts[i] == remap_token(fs[i], remap));
            assert(is_token(fs[i]));
            lemma_remap_token_is_token(fs[i], remap);
        }
    }
    lemma_fields_of_joined_tokens(ts);
    assert(remap_face(line, remap) == join_with(ts, " "@));
    let out = fields(remap_face(line, remap));
    assert(out == ts);
    assert forall|j: int| 1 <= j < fs.len() implies renumbered_reference(
        fs[j],
        #[trigger] out[j],
        keys,
    ) by {
        assert(out[j] == remap_token(fs[j], remap));
        let old = fs[j];
        let k = span_until(old, '/');
        match parse_unsigned(old.take(k as int), usize::MAX as nat) {
            Ok(i) => {
                if 1 <= i <= keys.len() {
                    let r = remap[i - 1];
                    assert(1 <= r <= unique_keys(keys).len() && unique_keys(keys)[r - 1] == keys[i
                        - 1]);
                    assert(out[j] == decimal(r) + old.skip(k as int));
                }
            },
            Err(_) => {},
        }
    }
}

proof fn lemma_find_in_absent(u: Seq<Seq<char>>, x: Seq<char>)
    requires
        find_in(u, x) < 0,
    ensures
        !u.contains(x),
    decreases u.len(),
{
    if u.len() > 0 {
        lemma_find_in_absent(u.drop_first(), x);
        assert forall|j: int| 0 <= j < u.len() implies u[j] != x by {
            if j > 0 {
                assert(u[j] == u.drop_first()[j - 1]);
            }
        }
    }
}


// ---------------------------------------------------------------- the reducer

/// Where mesh optimization reads and writes.
#[derive(Debug, Clone)]
pub struct MeshPolicy {
    pub cache_dir: Option<String>,
    pub output_dir: Option<String>,
    pub dry_run: bool,
    pub verbose: bool,
}

/// Counts of one mesh pass.
#[derive(Debug, Clone, PartialEq, Eq)]
pub struct MeshReport {
    pub scanned: usize,
    pub optimized: usize,
    pub copied: usize,
    pub skipped: usize,
}

impl Default for MeshReport {
    fn default() -> (r: Self)
        ensures
            r.scanned == 0 && r.optimized == 0 && r.copied == 0 && r.skipped == 0,
    {
        MeshReport { scanned: 0, optimized: 0, copied: 0, skipped: 0 }
    }
}

impl MeshReport {
    /// Counts a file met by the walk; one that is not an OBJ mesh is skipped.
    pub fn record_scanned(&mut self, is_mesh: bool)
        requires
            old(self).scanned < usize::MAX,
            !is_mesh ==> old(self).skipped < usize::MAX,
        ensures
            final(self).scanned == old(self).scanned + 1,
            final(self).skipped == old(self).skipped + (if is_mesh {
                0int
            } else {
                1int
            }),
            final(self).optimized == old(self).optimized,
            final(self).copied == old(self).copied,
    {
        self.scanned = self.scanned + 1;
        if !is_mesh {
            self.skipped = self.skipped + 1;
        }
    }

    /// Counts the outcome of one mesh: compacted (`Some(true)`), copied or left as
    /// it was (`Some(false)`), or failed (`None`).
    pub fn record_outcome(&mut self, outcome: Option<bool>)
        requires
            outcome == Some(true) ==> old(self).optimized < usize::MAX,
            outcome == Some(false) ==> old(self).copied < usize::MAX,
            outcome is None ==> old(self).skipped < usize::MAX,
        ensures
            final(self).scanned == old(self).scanned,
            final(self).optimized == old(self).optimized + (if outcome == Some(true) {
                1int
            } else {
                0int
            }),
            final(self).copied == old(self).copied + (if outcome == Some(false) {
                1int
            } else {
                0int
            }),
            final(self).skipped == old(self).skipped + (if outcome is None {
                1int
            } else {
                0int
            }),
    {
        match outcome {
            Some(true) => self.optimized = self.optimized + 1,
            Some(false) => self.copied = self.copied + 1,
            None => self.skipped = self.skipped + 1,
        }
    }

    /// Adds the outcomes counted by one worker.
    pub fn absorb(&mut self, other: &MeshReport)
        requires
            old(self).optimized + other.optimized <= usize::MAX,
            old(self).copied + other.copied <= usize::MAX,
            old(self).skipped + other.skipped <= usize::MAX,
        ensures
            final(self).scanned == old(self).scanned,
            final(self).optimized == old(self).optimized + other.optimized,
            final(self).copied == old(self).copied + other.copied,
            final(self).skipped == old(self).skipped + other.skipped,
    {
        self.optimized = self.optimized + other.optimized;
        self.copied = self.copied + other.copied;
        self.skipped = self.skipped + other.skipped;
    }
}

/// Compacts the OBJ meshes of a cache.
#[derive(Debug, Clone)]
pub struct MeshReducer {
    policy: MeshPolicy,
}

impl MeshReducer {
    pub closed spec fn spec_policy(&self) -> MeshPolicy {
        self.policy
    }

    pub fn new(policy: MeshPolicy) -> (r: Self)
        ensures
            r.spec_policy() == policy,
    {
        Self { policy }
    }

    /// Where optimized copies are written when a cache directory is given: the
    /// output directory, or else the cache directory with the extension
    /// `game-op-mesh-optimized`.
    pub fn output_root(&self) -> (r: Option<String>)
        ensures
            match self.spec_policy().cache_dir {
                None => r is None,
                Some(c) => r matches Some(o) && o@ == match self.spec_policy().output_dir {
                    Some(d) => d@,
                    None => crate::path::with_extension(c@, "game-op-mesh-optimized"@),
                },
            },
    {
        match &self.policy.cache_dir {
            None => None,
            Some(c) => match &self.policy.output_dir {
                Some(d) => Some(d.clone()),
                None => Some(crate::path::with_extension_of(c.as_str(), "game-op-mesh-optimized")),
            },
        }
    }

    /// The policy this reducer applies.
    pub fn policy(&self) -> (p: &MeshPolicy)
        ensures
            *p == self.spec_policy(),
    {
        &self.policy
    }

    /// What to write for a mesh whose compacted text shrinks it when `changed`,
    /// and whose output is the mesh itself when `same_path`: a report in a dry
    /// run, the compacted text where it is shorter, else a plain copy.
    pub fn mesh_action(&self, changed: bool, same_path: bool) -> (a: crate::refresh::AssetAction)
        ensures
            a == crate::refresh::spec_asset_action(self.spec_policy().dry_run, changed, same_path),
    {
        crate::refresh::asset_action(self.policy.dry_run, changed, same_path)
    }

    /// Whether the compacted text is worth writing: it is shorter, in bytes, than
    /// the source.
    pub fn shrinks(source: &str, compacted: &str) -> (b: bool)
        ensures
            b == (compacted.len() < source.len()),
    {
        compacted.len() < source.len()
    }
}

/// Whether `path` names an OBJ file: its extension is `obj`, ignoring ASCII case.
pub open spec fn spec_is_obj_file(path: Seq<char>) -> bool {
    crate::text::lower(crate::path::extension_or_empty(path)) == "obj"@
}

pub fn is_obj_file(path: &str) -> (b: bool)
    ensures
        b == spec_is_obj_file(path@),
{
    let e = crate::path::lower_extension(path);
    crate::text::eq_str(e.as_slice(), "obj")
}

} // verus!
