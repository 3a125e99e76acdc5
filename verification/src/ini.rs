//! Editing one `[section]` of an INI preset file (the router's `router.ini`)
//! while leaving every other line as it was.
use vstd::prelude::*;
use crate::text::{
    chars_eq, chars_of, copy_chars, extend_chars, extend_str, first_match, is_ws,
    lemma_first_match_at, lemma_first_match_bounds,
    lemma_unlines_push, lines, push_char, split_lines, sub_chars, trim, trim_chars, trim_end, trim_start,
    trim_start_chars, unlines, vv,
};

verus! {

// ───────────────────────── the model ─────────────────────────

/// Key/value pairs as character sequences.
pub open spec fn kv_view(kv: Seq<(String, String)>) -> Seq<(Seq<char>, Seq<char>)> {
    kv.map_values(|p: (String, String)| (p.0@, p.1@))
}

/// `[section]`.
pub open spec fn header_of(section: Seq<char>) -> Seq<char> {
    seq!['['] + section + seq![']']
}

/// A line that opens a section: trimmed, it starts with `[` and ends with `]`.
pub open spec fn is_header_line(line: Seq<char>) -> bool {
    let t = trim(line);
    t.len() > 0 && t[0] == '[' && t.last() == ']'
}

/// A line whose first non-blank character is `;` or `#`.
pub open spec fn is_comment_line(line: Seq<char>) -> bool {
    let t = trim_start(line);
    t.len() > 0 && (t[0] == ';' || t[0] == '#')
}

pub open spec fn is_eq_sign(c: char) -> bool {
    c == '='
}

/// The key of a line: the text before its first `=`, trimmed.
pub open spec fn key_of(line: Seq<char>) -> Seq<char> {
    let t = trim_start(line);
    trim(t.take(first_match(t, |c: char| is_eq_sign(c))))
}

/// The line written for a pair: `key = value`.
pub open spec fn kv_line(k: Seq<char>, v: Seq<char>) -> Seq<char> {
    k + seq![' ', '=', ' '] + v
}

pub open spec fn has_key(p: (Seq<char>, Seq<char>), key: Seq<char>) -> bool {
    p.0 == key
}

/// Position of the first pair with key `key` in `rem` (`rem.len()` if none).
pub open spec fn pair_pos(rem: Seq<(Seq<char>, Seq<char>)>, key: Seq<char>) -> int {
    first_match(rem, |p: (Seq<char>, Seq<char>)| has_key(p, key))
}

/// One line of the section body against the pairs not yet written: a
/// non-comment line whose key has a pending pair is replaced by that pair,
/// which is then no longer pending; any other line stays.
pub open spec fn rewrite_line(line: Seq<char>, rem: Seq<(Seq<char>, Seq<char>)>) -> (
    Seq<char>,
    Seq<(Seq<char>, Seq<char>)>,
) {
    let key = key_of(line);
    let pos = pair_pos(rem, key);
    if !is_comment_line(line) && key.len() > 0 && pos < rem.len() {
        (kv_line(rem[pos].0, rem[pos].1), rem.remove(pos))
    } else {
        (line, rem)
    }
}

/// The section body rewritten line by line, with the pairs left pending.
pub open spec fn rewrite_body(body: Seq<Seq<char>>, kv: Seq<(Seq<char>, Seq<char>)>) -> (
    Seq<Seq<char>>,
    Seq<(Seq<char>, Seq<char>)>,
)
    decreases body.len(),
{
    if body.len() == 0 {
        (Seq::empty(), kv)
    } else {
        let (prev, rem) = rewrite_body(body.drop_last(), kv);
        let (l, rem2) = rewrite_line(body.last(), rem);
        (prev.push(l), rem2)
    }
}

pub open spec fn is_header_for(l: Seq<char>, section: Seq<char>) -> bool {
    trim(l) == header_of(section)
}

/// Index of the first line that is `[section]` once trimmed.
pub open spec fn section_start(lines: Seq<Seq<char>>, section: Seq<char>) -> int {
    first_match(lines, |l: Seq<char>| is_header_for(l, section))
}

/// Index of the first section header after `start` (or the number of lines).
pub open spec fn section_end(lines: Seq<Seq<char>>, start: int) -> int {
    start + 1 + first_match(lines.skip(start + 1), |l: Seq<char>| is_header_line(l))
}

pub open spec fn kv_lines(kv: Seq<(Seq<char>, Seq<char>)>) -> Seq<Seq<char>> {
    kv.map_values(|p: (Seq<char>, Seq<char>)| kv_line(p.0, p.1))
}

/// The lines after the upsert: everything up to and including the header,
/// the rewritten body, the pairs no body line took (in their order), then
/// everything from the next section on. `None` when the header is missing.
pub open spec fn upsert_lines(
    lines: Seq<Seq<char>>,
    section: Seq<char>,
    kv: Seq<(Seq<char>, Seq<char>)>,
) -> Option<Seq<Seq<char>>> {
    let start = section_start(lines, section);
    if start >= lines.len() {
        None
    } else {
        let end = section_end(lines, start);
        let (body, rem) = rewrite_body(lines.subrange(start + 1, end), kv);
        Some(lines.take(start + 1) + body + kv_lines(rem) + lines.skip(end))
    }
}

// ───────────────────────── executable ─────────────────────────

pub open spec fn pairs_view(v: Seq<(Vec<char>, Vec<char>)>) -> Seq<(Seq<char>, Seq<char>)> {
    v.map_values(|p: (Vec<char>, Vec<char>)| (p.0@, p.1@))
}

/// Whether a line is a section header.
fn header_like(line: &Vec<char>) -> (b: bool)
    ensures
        b == is_header_line(line@),
{
    let t = trim_chars(line);
    t.len() > 0 && t[0] == '[' && t[t.len() - 1] == ']'
}

/// Whether a line is a comment, and its key.
fn comment_and_key(line: &Vec<char>) -> (r: (bool, Vec<char>))
    ensures
        r.0 == is_comment_line(line@),
        r.1@ == key_of(line@),
{
    let t = trim_start_chars(line);
    let is_comment = t.len() > 0 && (t[0] == ';' || t[0] == '#');
    let mut i: usize = 0;
    while i < t.len() && t[i] != '='
        invariant
            i <= t.len(),
            forall|j: int| 0 <= j < i ==> !is_eq_sign(#[trigger] t@[j]),
        decreases t.len() - i,
    {
        i = i + 1;
    }
    proof {
        lemma_first_match_at(t@, |c: char| is_eq_sign(c), i as int);
        assert(t@.take(i as int) =~= t@.subrange(0, i as int));
    }
    let before = sub_chars(&t, 0, i);
    (is_comment, trim_chars(&before))
}

/// Position of the first pending pair with key `key`.
fn find_pair(rem: &Vec<(Vec<char>, Vec<char>)>, key: &Vec<char>) -> (pos: usize)
    ensures
        pos == pair_pos(pairs_view(rem@), key@),
        pos <= rem.len(),
{
    let ghost pv = pairs_view(rem@);
    let mut i: usize = 0;
    while i < rem.len()
        invariant
            i <= rem.len(),
            pv == pairs_view(rem@),
            forall|j: int| 0 <= j < i ==> !has_key(#[trigger] pv[j], key@),
        decreases rem.len() - i,
    {
        if chars_eq(&rem[i].0, key) {
            proof {
                lemma_first_match_at(pv, |p: (Seq<char>, Seq<char>)| has_key(p, key@), i as int);
            }
            return i;
        }
        i = i + 1;
    }
    proof {
        lemma_first_match_at(pv, |p: (Seq<char>, Seq<char>)| has_key(p, key@), i as int);
    }
    i
}

/// `key = value` as characters.
fn make_kv_line(k: &Vec<char>, v: &Vec<char>) -> (r: Vec<char>)
    ensures
        r@ == kv_line(k@, v@),
{
    let mut r = copy_chars(k);
    r.push(' ');
    r.push('=');
    r.push(' ');
    extend_chars(&mut r, v);
    assert(r@ =~= kv_line(k@, v@));
    r
}

/// Upserts `kv` into the `[section]` block of an INI text: a line of the
/// section whose key has a pair in `kv` becomes `key = value` (the first such
/// line for each pair), pairs no line took are added at the end of the
/// section, and every other line, in that section and elsewhere, stays as it
/// was. The result ends with a newline. `None` when no line is `[section]`.
pub fn upsert_ini_section(content: &str, section: &str, kv: &[(String, String)]) -> (r: Option<
    String,
>)
    ensures
        r is None <==> upsert_lines(lines(content@), section@, kv_view(kv@)) is None,
        r matches Some(s) ==> s@ == unlines(upsert_lines(lines(content@), section@, kv_view(kv@))->0),
{
    let ghost ls = lines(content@);
    let ghost kvv = kv_view(kv@);
    let text = chars_of(content);
    let lines_v = split_lines(&text);
    let mut header: Vec<char> = Vec::new();
    header.push('[');
    extend_str(&mut header, section);
    header.push(']');
    assert(header@ =~= header_of(section@));

    // 1. the header line
    let mut start: usize = 0;
    let mut found = false;
    while !found && start < lines_v.len()
        invariant
            start <= lines_v.len(),
            vv(lines_v@) == ls,
            header@ == header_of(section@),
            forall|j: int| 0 <= j < start ==> !is_header_for(#[trigger] ls[j], section@),
            found ==> start < lines_v.len() && is_header_for(ls[start as int], section@),
        decreases lines_v.len() - start, if found { 0int } else { 1int },
    {
        let t = trim_chars(&lines_v[start]);
        if chars_eq(&t, &header) {
            found = true;
        } else {
            start = start + 1;
        }
    }
    proof {
        lemma_first_match_at(ls, |l: Seq<char>| is_header_for(l, section@), start as int);
    }
    if start == lines_v.len() {
        return None;
    }
    // 2. the end of the section

    let mut end: usize = start + 1;
    while end < lines_v.len() && !header_like(&lines_v[end])
        invariant
            start < end <= lines_v.len(),
            vv(lines_v@) == ls,
            forall|j: int| start < j < end ==> !is_header_line(#[trigger] ls[j]),
        decreases lines_v.len() - end,
    {
        end = end + 1;
    }
    proof {
        let after = ls.skip(start + 1);
        assert forall|j: int| 0 <= j < end - start - 1 implies !is_header_line(#[trigger] after[j]) by {
            assert(after[j] == ls[start + 1 + j]);
        }
        if end < ls.len() {
            assert(after[end - start - 1] == ls[end as int]);
        }
        lemma_first_match_at(after, |l: Seq<char>| is_header_line(l), end - start - 1);
    }
    let ghost body = ls.subrange(start + 1, end as int);

    // 3. the lines up to the header
    let mut out: Vec<Vec<char>> = Vec::new();
    let mut i: usize = 0;
    while i <= start
        invariant
            i <= start + 1,
            start < lines_v.len(),
            vv(lines_v@) == ls,
            vv(out@) == ls.take(i as int),
        decreases start + 1 - i,
    {
        let ghost o = vv(out@);
        out.push(copy_chars(&lines_v[i]));
        assert(vv(out@) =~= o.push(ls[i as int]));
        assert(ls.take(i + 1) =~= ls.take(i as int).push(ls[i as int]));
        i = i + 1;
    }

    // 4. the pending pairs
    let mut rem: Vec<(Vec<char>, Vec<char>)> = Vec::new();
    let mut q: usize = 0;
    while q < kv.len()
        invariant
            q <= kv.len(),
            kvv == kv_view(kv@),
            pairs_view(rem@) == kvv.take(q as int),
        decreases kv.len() - q,
    {
        let k = chars_of(kv[q].0.as_str());
        let v = chars_of(kv[q].1.as_str());
        let ghost o = pairs_view(rem@);
        rem.push((k, v));
        assert(pairs_view(rem@) =~= o.push(kvv[q as int]));
        assert(kvv.take(q + 1) =~= kvv.take(q as int).push(kvv[q as int]));
        q = q + 1;
    }
    assert(kvv.take(kv.len() as int) =~= kvv);

    // 5. the body, line by line
    let mut b = start + 1;
    while b < end
        invariant
            start < b <= end <= lines_v.len(),
            vv(lines_v@) == ls,
            body == ls.subrange(start + 1, end as int),
            vv(out@) == ls.take(start + 1) + rewrite_body(
                ls.subrange(start + 1, b as int),
                kvv,
            ).0,
            pairs_view(rem@) == rewrite_body(ls.subrange(start + 1, b as int), kvv).1,
        decreases end - b,
    {
        let ghost sofar = ls.subrange(start + 1, b as int);
        let ghost o = vv(out@);
        let ghost rv = pairs_view(rem@);
        assert(ls.subrange(start + 1, b + 1).drop_last() =~= sofar);
        assert(ls.subrange(start + 1, b + 1).last() == ls[b as int]);
        let line = &lines_v[b];
        let (is_comment, key) = comment_and_key(line);
        let mut replaced = false;
        if !is_comment && key.len() > 0 {
            let pos = find_pair(&rem, &key);
            if pos < rem.len() {
                let (k, v) = rem.remove(pos);
                proof {
                    assert(pairs_view(rem@) =~= rv.remove(pos as int));
                }
                out.push(make_kv_line(&k, &v));
                replaced = true;
            }
        }
        if !replaced {
            out.push(copy_chars(line));
        }
        assert(vv(out@) =~= o.push(rewrite_line(ls[b as int], rv).0));
        b = b + 1;
    }

    // 6. the pairs no line took, then the rest of the file
    let ghost done = vv(out@);
    let ghost left = pairs_view(rem@);
    let mut p: usize = 0;
    while p < rem.len()
        invariant
            p <= rem.len(),
            left == pairs_view(rem@),
            vv(out@) == done + kv_lines(left.take(p as int)),
        decreases rem.len() - p,
    {
        let ghost o = vv(out@);
        out.push(make_kv_line(&rem[p].0, &rem[p].1));
        assert(kv_lines(left.take(p + 1)) =~= kv_lines(left.take(p as int)).push(
            kv_line(left[p as int].0, left[p as int].1),
        ));
        assert(vv(out@) =~= o.push(kv_line(left[p as int].0, left[p as int].1)));
        p = p + 1;
    }
    assert(left.take(rem.len() as int) =~= left);
    let ghost mid = vv(out@);
    let mut e = end;
    while e < lines_v.len()
        invariant
            end <= e <= lines_v.len(),
            vv(lines_v@) == ls,
            vv(out@) == mid + ls.subrange(end as int, e as int),
        decreases lines_v.len() - e,
    {
        let ghost o = vv(out@);
        out.push(copy_chars(&lines_v[e]));
        assert(vv(out@) =~= o.push(ls[e as int]));
        assert(ls.subrange(end as int, e + 1) =~= ls.subrange(end as int, e as int).push(
            ls[e as int],
        ));
        e = e + 1;
    }
    proof {
        assert(ls.subrange(start + 1, end as int) =~= body);
        assert(ls.subrange(end as int, ls.len() as int) =~= ls.skip(end as int));
        assert(vv(out@) =~= upsert_lines(ls, section@, kvv)->0);
    }

    // 7. join with newlines
    let mut s = String::new();
    let mut n: usize = 0;
    while n < out.len()
        invariant
            n <= out.len(),
            s@ == unlines(vv(out@).take(n as int)),
        decreases out.len() - n,
    {
        let line = &out[n];
        let mut c: usize = 0;
        let ghost base = s@;
        while c < line.len()
            invariant
                c <= line.len(),
                s@ == base + line@.take(c as int),
            decreases line.len() - c,
        {
            push_char(&mut s, line[c]);
            assert(line@.take(c + 1) =~= line@.take(c as int).push(line@[c as int]));
            c = c + 1;
        }
        push_char(&mut s, '\n');
        proof {
            assert(line@.take(line.len() as int) =~= line@);
            assert(vv(out@).take(n + 1) =~= vv(out@).take(n as int).push(line@));
            lemma_unlines_push(vv(out@).take(n as int), line@);
            assert(s@ =~= unlines(vv(out@).take(n + 1)));
        }
        n = n + 1;
    }
    assert(vv(out@).take(out.len() as int) =~= vv(out@));
    Some(s)
}

} // verus!

verus! {

// ───────────────────────── laws ─────────────────────────

/// Keys that read back as themselves from a `key = value` line: non-empty,
/// no `=`, no surrounding whitespace, and not starting like a comment or a
/// section header.
pub open spec fn well_formed_key(k: Seq<char>) -> bool {
    &&& k.len() > 0
    &&& !is_ws(k[0])
    &&& !is_ws(k.last())
    &&& k[0] != '['
    &&& k[0] != ';'
    &&& k[0] != '#'
    &&& forall|i: int| 0 <= i < k.len() ==> #[trigger] k[i] != '='
}

/// Every key well formed, and no key twice.
pub open spec fn well_formed_pairs(kv: Seq<(Seq<char>, Seq<char>)>) -> bool {
    &&& forall|j: int| 0 <= j < kv.len() ==> well_formed_key(#[trigger] kv[j].0)
    &&& forall|i: int, j: int| 0 <= i < j < kv.len() ==> #[trigger] kv[i].0 != #[trigger] kv[j].0
}

/// A setting line for key `k`.
pub open spec fn is_entry_for(line: Seq<char>, k: Seq<char>) -> bool {
    !is_comment_line(line) && key_of(line) == k
}

/// The lines of the section's body.
pub open spec fn section_body(lines: Seq<Seq<char>>, section: Seq<char>) -> Seq<Seq<char>> {
    let start = section_start(lines, section);
    lines.subrange(start + 1, section_end(lines, start))
}

/// The first setting line for key `k` in `[section]`, if any.
pub open spec fn section_lookup(lines: Seq<Seq<char>>, section: Seq<char>, k: Seq<char>) -> Option<
    Seq<char>,
> {
    if section_start(lines, section) >= lines.len() {
        None
    } else {
        let body = section_body(lines, section);
        let i = first_match(body, |l: Seq<char>| is_entry_for(l, k));
        if i < body.len() {
            Some(body[i])
        } else {
            None
        }
    }
}

proof fn lemma_trim_start_fixed(s: Seq<char>)
    requires
        s.len() > 0,
        !is_ws(s[0]),
    ensures
        trim_start(s) == s,
{
}

proof fn lemma_trim_end_keeps_first(s: Seq<char>)
    requires
        s.len() > 0,
        !is_ws(s[0]),
    ensures
        trim_end(s).len() > 0,
        trim_end(s)[0] == s[0],
    decreases s.len(),
{
    if is_ws(s.last()) {
        assert(s.len() > 1);
        lemma_trim_end_keeps_first(s.drop_last());
    }
}

proof fn lemma_kv_line_reads_back(k: Seq<char>, v: Seq<char>)
    requires
        well_formed_key(k),
    ensures
        key_of(kv_line(k, v)) == k,
        !is_comment_line(kv_line(k, v)),
        !is_header_line(kv_line(k, v)),
{
    let l = kv_line(k, v);
    lemma_trim_start_fixed(l);
    assert forall|j: int| 0 <= j < k.len() + 1 implies !is_eq_sign(#[trigger] l[j]) by {
        if j < k.len() {
            assert(l[j] == k[j]);
        }
    }
    lemma_first_match_at(l, |c: char| is_eq_sign(c), k.len() as int + 1);
    let pre = l.take(k.len() as int + 1);
    assert(pre =~= k.push(' '));
    lemma_trim_start_fixed(pre);
    assert(pre.drop_last() =~= k);
    assert(is_ws(pre.last()));
    assert(trim_end(pre) == trim_end(k));
    lemma_trim_start_fixed(l);
    lemma_trim_end_keeps_first(l);
}

/// Facts on the rewritten body: one line per body line, each line either
/// kept or replaced by one of the pairs, with the key that the line had; no
/// new section header; and every pending pair one of the given pairs.
proof fn lemma_rewrite_shape(body: Seq<Seq<char>>, kv: Seq<(Seq<char>, Seq<char>)>)
    ensures
        rewrite_body(body, kv).0.len() == body.len(),
        forall|i: int|
            #![trigger rewrite_body(body, kv).0[i]]
            0 <= i < body.len() ==> rewrite_body(body, kv).0[i] == body[i] || (!is_comment_line(
                body[i],
            ) && exists|j: int|
                0 <= j < kv.len() && #[trigger] kv[j].0 == key_of(body[i])
                    && rewrite_body(body, kv).0[i] == kv_line(kv[j].0, kv[j].1)),
        forall|x: (Seq<char>, Seq<char>)| #[trigger] rewrite_body(body, kv).1.contains(x) ==> kv.contains(
            x,
        ),
    decreases body.len(),
{
    if body.len() > 0 {
        let prev_body = body.drop_last();
        lemma_rewrite_shape(prev_body, kv);
        let (prev, rem) = rewrite_body(prev_body, kv);
        let line = body.last();
        let key = key_of(line);
        let pos = pair_pos(rem, key);
        lemma_first_match_bounds(rem, |p: (Seq<char>, Seq<char>)| has_key(p, key));
        let (new, rem2) = rewrite_body(body, kv);
        assert forall|i: int| 0 <= i < body.len() implies #[trigger] new[i] == body[i] || (
        !is_comment_line(body[i]) && exists|j: int|
            0 <= j < kv.len() && #[trigger] kv[j].0 == key_of(body[i]) && new[i] == kv_line(
                kv[j].0,
                kv[j].1,
            )) by {
            if i < body.len() - 1 {
                assert(new[i] == prev[i]);
                assert(body[i] == prev_body[i]);
            } else if !is_comment_line(line) && key.len() > 0 && pos < rem.len() {
                assert(rem.contains(rem[pos]));
                let j = choose|j: int| 0 <= j < kv.len() && kv[j] == rem[pos];
                assert(kv[j].0 == key_of(body[i]));
            }
        }
        assert forall|x: (Seq<char>, Seq<char>)| #[trigger] rem2.contains(x) implies kv.contains(
            x,
        ) by {
            if !is_comment_line(line) && key.len() > 0 && pos < rem.len() {
                let k = choose|k: int| 0 <= k < rem2.len() && rem2[k] == x;
                if k < pos {
                    assert(rem[k] == x);
                } else {
                    assert(rem[k + 1] == x);
                }
                assert(rem.contains(x));
            }
        }
    }
}

pub open spec fn distinct_keys(kv: Seq<(Seq<char>, Seq<char>)>) -> bool {
    forall|i: int, j: int| 0 <= i < j < kv.len() ==> #[trigger] kv[i].0 != #[trigger] kv[j].0
}

proof fn lemma_rewrite_distinct(body: Seq<Seq<char>>, kv: Seq<(Seq<char>, Seq<char>)>)
    requires
        distinct_keys(kv),
    ensures
        distinct_keys(rewrite_body(body, kv).1),
    decreases body.len(),
{
    if body.len() > 0 {
        lemma_rewrite_distinct(body.drop_last(), kv);
        let rem = rewrite_body(body.drop_last(), kv).1;
        let line = body.last();
        let key = key_of(line);
        let pos = pair_pos(rem, key);
        lemma_first_match_bounds(rem, |p: (Seq<char>, Seq<char>)| has_key(p, key));
        if !is_comment_line(line) && key.len() > 0 && pos < rem.len() {
            let rr = rem.remove(pos);
            assert forall|a: int, b: int| 0 <= a < b < rr.len() implies #[trigger] rr[a].0
                != #[trigger] rr[b].0 by {
                let a2 = if a < pos { a } else { a + 1 };
                let b2 = if b < pos { b } else { b + 1 };
                assert(rr[a] == rem[a2]);
                assert(rr[b] == rem[b2]);
            }
        }
    }
}

proof fn lemma_first_match_push<A>(s: Seq<A>, x: A, p: spec_fn(A) -> bool)
    ensures
        first_match(s, p) < s.len() ==> first_match(s.push(x), p) == first_match(s, p),
        first_match(s, p) >= s.len() && p(x) ==> first_match(s.push(x), p) == s.len(),
        first_match(s, p) >= s.len() && !p(x) ==> first_match(s.push(x), p) == s.len() + 1,
{
    let t = s.push(x);
    lemma_first_match_bounds(s, p);
    let f = first_match(s, p);
    assert forall|j: int| 0 <= j < f implies !p(#[trigger] t[j]) by {
        assert(t[j] == s[j]);
    }
    if f < s.len() {
        assert(t[f] == s[f]);
        lemma_first_match_at(t, p, f);
    } else if p(x) {
        lemma_first_match_at(t, p, s.len() as int);
    } else {
        assert forall|j: int| 0 <= j < s.len() + 1 implies !p(#[trigger] t[j]) by {}
        lemma_first_match_at(t, p, s.len() as int + 1);
    }
}

/// What the rewrite has done for a pair `kv[j]` after a prefix of the body:
/// either the pair is still pending, and no rewritten line is a setting for
/// its key, or the first such line is the pair's line.
pub open spec fn pair_settled(
    new: Seq<Seq<char>>,
    rem: Seq<(Seq<char>, Seq<char>)>,
    kv: Seq<(Seq<char>, Seq<char>)>,
    j: int,
) -> bool {
    let k = kv[j].0;
    if pair_pos(rem, k) < rem.len() {
        rem[pair_pos(rem, k)] == kv[j] && forall|i: int|
            0 <= i < new.len() ==> !is_entry_for(#[trigger] new[i], k)
    } else {
        first_match(new, |l: Seq<char>| is_entry_for(l, k)) < new.len() && new[first_match(
            new,
            |l: Seq<char>| is_entry_for(l, k),
        )] == kv_line(kv[j].0, kv[j].1)
    }
}

proof fn lemma_rewrite_settles(body: Seq<Seq<char>>, kv: Seq<(Seq<char>, Seq<char>)>, j: int)
    requires
        well_formed_pairs(kv),
        0 <= j < kv.len(),
    ensures
        pair_settled(rewrite_body(body, kv).0, rewrite_body(body, kv).1, kv, j),
    decreases body.len(),
{
    let k = kv[j].0;
    let ek = |l: Seq<char>| is_entry_for(l, k);
    let hk = |p: (Seq<char>, Seq<char>)| has_key(p, k);
    if body.len() == 0 {
        lemma_first_match_bounds(kv, hk);
        assert forall|i: int| 0 <= i < j implies !has_key(#[trigger] kv[i], k) by {
            assert(kv[i].0 != kv[j].0);
        }
        lemma_first_match_at(kv, hk, j);
        assert(pair_settled(rewrite_body(body, kv).0, rewrite_body(body, kv).1, kv, j));
    } else {
        let prev_body = body.drop_last();
        lemma_rewrite_settles(prev_body, kv, j);
        lemma_rewrite_shape(prev_body, kv);
        let (prev, rem) = rewrite_body(prev_body, kv);
        let line = body.last();
        let key = key_of(line);
        let pos = pair_pos(rem, key);
        lemma_first_match_bounds(rem, |p: (Seq<char>, Seq<char>)| has_key(p, key));
        lemma_first_match_bounds(rem, hk);
        lemma_first_match_bounds(prev, ek);
        let (new, rem2) = rewrite_body(body, kv);
        assert(new == prev.push(rewrite_line(line, rem).0));
        lemma_first_match_push(prev, rewrite_line(line, rem).0, ek);
        let replaced = !is_comment_line(line) && key.len() > 0 && pos < rem.len();
        if pair_pos(rem, k) < rem.len() {
            // the pair was pending before this line
            let pk = pair_pos(rem, k);
            if replaced && key == k {
                // this line takes it
                assert(pos == pk);
                assert(rem[pos] == kv[j]);
                lemma_kv_line_reads_back(kv[j].0, kv[j].1);
                assert(is_entry_for(new.last(), k));
                assert(forall|i: int| 0 <= i < prev.len() ==> !is_entry_for(#[trigger] prev[i], k));
                lemma_first_match_at(prev, ek, prev.len() as int);
                assert(first_match(new, ek) == prev.len());
                lemma_rewrite_distinct(prev_body, kv);
                let rr = rem.remove(pos);
                assert forall|i: int| 0 <= i < rr.len() implies !has_key(#[trigger] rr[i], k) by {
                    if i < pos {
                        assert(rr[i] == rem[i]);
                    } else {
                        assert(rr[i] == rem[i + 1]);
                    }
                }
                lemma_first_match_at(rr, hk, rr.len() as int);
                assert(pair_settled(new, rem2, kv, j));
            } else if replaced {
                // another pair is taken; ours stays pending
                assert(rem[pos].0 == key);
                assert(rem.contains(rem[pos]));
                let m = choose|m: int| 0 <= m < kv.len() && kv[m] == rem[pos];
                lemma_kv_line_reads_back(kv[m].0, kv[m].1);
                assert(!is_entry_for(new.last(), k));
                let rr = rem.remove(pos);
                assert(rem2 == rr);
                assert forall|i: int| 0 <= i < pk implies !has_key(#[trigger] rem[i], k) by {}
                if pk < pos {
                    assert forall|i: int| 0 <= i < pk implies !has_key(#[trigger] rr[i], k) by {
                        assert(rr[i] == rem[i]);
                    }
                    assert(rr[pk] == rem[pk]);
                    lemma_first_match_at(rr, hk, pk);
                } else {
                    assert(pk != pos);
                    assert forall|i: int| 0 <= i < pk - 1 implies !has_key(#[trigger] rr[i], k) by {
                        if i < pos {
                            assert(rr[i] == rem[i]);
                        } else {
                            assert(rr[i] == rem[i + 1]);
                        }
                    }
                    assert(rr[pk - 1] == rem[pk]);
                    lemma_first_match_at(rr, hk, pk - 1);
                }
                assert forall|i: int| 0 <= i < new.len() implies !is_entry_for(#[trigger] new[i], k) by {
                    if i < prev.len() {
                        assert(new[i] == prev[i]);
                    }
                }
                assert(pair_settled(new, rem2, kv, j));
            } else {
                // the line stays as it was
                if is_entry_for(line, k) {
                    assert(key == k);
                    assert(!is_comment_line(line));
                    assert(key.len() > 0);
                    assert(pos == pk);
                    assert(false);
                }
                assert forall|i: int| 0 <= i < new.len() implies !is_entry_for(#[trigger] new[i], k) by {
                    if i < prev.len() {
                        assert(new[i] == prev[i]);
                    }
                }
            }
        } else {
            // the pair was written before: later lines do not change the first entry
            if replaced {
                let rr = rem.remove(pos);
                assert forall|i: int| 0 <= i < rr.len() implies !has_key(#[trigger] rr[i], k) by {
                    if i < pos {
                        assert(rr[i] == rem[i]);
                    } else {
                        assert(rr[i] == rem[i + 1]);
                    }
                }
                lemma_first_match_at(rr, hk, rr.len() as int);
            }
            assert(pair_settled(new, rem2, kv, j));
        }
    }
}

/// Reading `[section]` back after `upsert_ini_section` gives, for each
/// written key, its new value: the first setting line for the key in the
/// section is `key = value`. This holds when the keys are well formed (they
/// read back as themselves) and distinct.
pub proof fn law_upsert_reads_back(
    ls: Seq<Seq<char>>,
    section: Seq<char>,
    kv: Seq<(Seq<char>, Seq<char>)>,
    j: int,
)
    requires
        upsert_lines(ls, section, kv) is Some,
        well_formed_pairs(kv),
        0 <= j < kv.len(),
    ensures
        section_lookup(upsert_lines(ls, section, kv)->0, section, kv[j].0) == Some(
            kv_line(kv[j].0, kv[j].1),
        ),
{
    let out = upsert_lines(ls, section, kv)->0;
    let start = section_start(ls, section);
    let end = section_end(ls, start);
    let hp = |l: Seq<char>| is_header_for(l, section);
    let hl = |l: Seq<char>| is_header_line(l);
    let body = ls.subrange(start + 1, end);
    let (new, rem) = rewrite_body(body, kv);
    let tail = kv_lines(rem);
    lemma_first_match_bounds(ls, hp);
    lemma_first_match_bounds(ls.skip(start + 1), hl);
    lemma_rewrite_shape(body, kv);
    lemma_rewrite_settles(body, kv, j);
    // the header is found at the same place
    assert forall|i: int| 0 <= i < start implies !is_header_for(#[trigger] out[i], section) by {
        assert(out[i] == ls[i]);
    }
    assert(out[start] == ls[start]);
    lemma_first_match_at(out, hp, start);
    // the section now ends after the rewritten body and the added pairs
    let nb = new + tail;
    let after = out.skip(start + 1);
    assert forall|i: int| 0 <= i < nb.len() implies !is_header_line(#[trigger] after[i]) by {
        assert(after[i] == nb[i]);
        if i < new.len() {
            assert(body[i] == ls.skip(start + 1)[i]);
            if new[i] != body[i] {
                let m = choose|m: int|
                    0 <= m < kv.len() && #[trigger] kv[m].0 == key_of(body[i]) && new[i] == kv_line(
                        kv[m].0,
                        kv[m].1,
                    );
                lemma_kv_line_reads_back(kv[m].0, kv[m].1);
            }
        } else {
            let q = i - new.len();
            assert(tail[q] == kv_line(rem[q].0, rem[q].1));
            assert(rem.contains(rem[q]));
            let m = choose|m: int| 0 <= m < kv.len() && kv[m] == rem[q];
            lemma_kv_line_reads_back(kv[m].0, kv[m].1);
        }
    }
    if end < ls.len() {
        assert(after[nb.len() as int] == ls[end]);
        assert(ls.skip(start + 1)[end - start - 1] == ls[end]);
    }
    lemma_first_match_at(after, hl, nb.len() as int);
    let obody = out.subrange(start + 1, start + 1 + nb.len());
    assert(obody =~= nb);
    assert(section_body(out, section) == nb);
    // the first entry for the key
    let k = kv[j].0;
    let ek = |l: Seq<char>| is_entry_for(l, k);
    lemma_first_match_bounds(new, ek);
    lemma_first_match_bounds(rem, |p: (Seq<char>, Seq<char>)| has_key(p, k));
    if pair_pos(rem, k) < rem.len() {
        let q = pair_pos(rem, k);
        assert forall|i: int| 0 <= i < new.len() + q implies !is_entry_for(#[trigger] nb[i], k) by {
            if i >= new.len() {
                let r = i - new.len();
                assert(nb[i] == kv_line(rem[r].0, rem[r].1));
                assert(rem.contains(rem[r]));
                let m = choose|m: int| 0 <= m < kv.len() && kv[m] == rem[r];
                lemma_kv_line_reads_back(kv[m].0, kv[m].1);
                assert(!has_key(rem[r], k));
            }
        }
        lemma_kv_line_reads_back(kv[j].0, kv[j].1);
        assert(nb[new.len() + q] == kv_line(kv[j].0, kv[j].1));
        lemma_first_match_at(nb, ek, new.len() + q);
    } else {
        let f = first_match(new, ek);
        assert forall|i: int| 0 <= i < f implies !is_entry_for(#[trigger] nb[i], k) by {
            assert(nb[i] == new[i]);
        }
        assert(nb[f] == new[f]);
        lemma_first_match_at(nb, ek, f);
    }
}

/// Upserting leaves every line before the section's header, the header
/// itself, and every line from the next section on exactly as they were.
pub proof fn law_upsert_keeps_other_sections(
    ls: Seq<Seq<char>>,
    section: Seq<char>,
    kv: Seq<(Seq<char>, Seq<char>)>,
)
    requires
        upsert_lines(ls, section, kv) is Some,
    ensures
        ({
            let out = upsert_lines(ls, section, kv)->0;
            let start = section_start(ls, section);
            let end = section_end(ls, start);
            &&& out.take(start + 1) == ls.take(start + 1)
            &&& out.subrange(out.len() - (ls.len() - end), out.len() as int) == ls.skip(end)
        }),
{
    let out = upsert_lines(ls, section, kv)->0;
    let start = section_start(ls, section);
    let end = section_end(ls, start);
    lemma_first_match_bounds(ls, |l: Seq<char>| is_header_for(l, section));
    lemma_first_match_bounds(ls.skip(start + 1), |l: Seq<char>| is_header_line(l));
    let body = ls.subrange(start + 1, end);
    lemma_rewrite_shape(body, kv);
    assert(out.take(start + 1) =~= ls.take(start + 1));
    assert(out.subrange(out.len() - (ls.len() - end), out.len() as int) =~= ls.skip(end));
}

/// Inside the section, each line of the old body is kept at its place, or
/// replaced by `key = value` for a pair whose key is that line's key; the
/// body keeps its length, and what follows it are the lines of the pairs no
/// line took.
pub proof fn law_upsert_keeps_other_lines(
    ls: Seq<Seq<char>>,
    section: Seq<char>,
    kv: Seq<(Seq<char>, Seq<char>)>,
    i: int,
)
    requires
        upsert_lines(ls, section, kv) is Some,
        0 <= i < section_body(ls, section).len(),
    ensures
        ({
            let out = upsert_lines(ls, section, kv)->0;
            let start = section_start(ls, section);
            let old_line = section_body(ls, section)[i];
            let new_line = out[start + 1 + i];
            new_line == old_line || (!is_comment_line(old_line) && exists|j: int|
                0 <= j < kv.len() && #[trigger] kv[j].0 == key_of(old_line) && new_line == kv_line(
                    kv[j].0,
                    kv[j].1,
                ))
        }),
{
    let out = upsert_lines(ls, section, kv)->0;
    let start = section_start(ls, section);
    let end = section_end(ls, start);
    lemma_first_match_bounds(ls, |l: Seq<char>| is_header_for(l, section));
    lemma_first_match_bounds(ls.skip(start + 1), |l: Seq<char>| is_header_line(l));
    let body = ls.subrange(start + 1, end);
    lemma_rewrite_shape(body, kv);
    let new = rewrite_body(body, kv).0;
    assert(out[start + 1 + i] == new[i]);
    assert(new[i] == body[i] || (!is_comment_line(body[i]) && exists|j: int|
        0 <= j < kv.len() && #[trigger] kv[j].0 == key_of(body[i]) && new[i] == kv_line(
            kv[j].0,
            kv[j].1,
        )));
}

/// The upsert fails exactly when no line of the text is `[section]`.
pub proof fn law_upsert_needs_header(
    ls: Seq<Seq<char>>,
    section: Seq<char>,
    kv: Seq<(Seq<char>, Seq<char>)>,
)
    ensures
        upsert_lines(ls, section, kv) is None <==> forall|i: int|
            0 <= i < ls.len() ==> trim(#[trigger] ls[i]) != header_of(section),
{
    lemma_first_match_bounds(ls, |l: Seq<char>| is_header_for(l, section));
    if upsert_lines(ls, section, kv) is Some {
        let s = section_start(ls, section);
        assert(trim(ls[s]) == header_of(section));
    }
}

} // verus!

verus! {

// ───────────────────────── applying the same upsert twice ─────────────────────────

/// Every key well formed (keys may repeat).
pub open spec fn well_formed_keys(kv: Seq<(Seq<char>, Seq<char>)>) -> bool {
    forall|j: int| 0 <= j < kv.len() ==> well_formed_key(#[trigger] kv[j].0)
}

/// The elements of `s` that satisfy `p`, in order.
pub open spec fn keep<A>(s: Seq<A>, p: spec_fn(A) -> bool) -> Seq<A>
    decreases s.len(),
{
    if s.len() == 0 {
        Seq::empty()
    } else if p(s.last()) {
        keep(s.drop_last(), p).push(s.last())
    } else {
        keep(s.drop_last(), p)
    }
}

/// The setting lines for `k`, in order.
pub open spec fn entries(ls: Seq<Seq<char>>, k: Seq<char>) -> Seq<Seq<char>> {
    keep(ls, |l: Seq<char>| is_entry_for(l, k))
}

/// The pairs with key `k`, in order.
pub open spec fn pairs_for(kv: Seq<(Seq<char>, Seq<char>)>, k: Seq<char>) -> Seq<(Seq<char>, Seq<char>)> {
    keep(kv, |p: (Seq<char>, Seq<char>)| has_key(p, k))
}

proof fn lemma_keep_add<A>(a: Seq<A>, b: Seq<A>, p: spec_fn(A) -> bool)
    ensures
        keep(a + b, p) == keep(a, p) + keep(b, p),
    decreases b.len(),
{
    if b.len() == 0 {
        assert(a + b =~= a);
        assert(keep(a, p) + keep(b, p) =~= keep(a, p));
    } else {
        lemma_keep_add(a, b.drop_last(), p);
        assert((a + b).drop_last() =~= a + b.drop_last());
        assert((a + b).last() == b.last());
        if p(b.last()) {
            assert(keep(a, p) + keep(b.drop_last(), p).push(b.last()) =~= (keep(a, p) + keep(
                b.drop_last(),
                p,
            )).push(b.last()));
        }
    }
}

proof fn lemma_keep_none<A>(s: Seq<A>, p: spec_fn(A) -> bool)
    requires
        forall|i: int| 0 <= i < s.len() ==> !p(#[trigger] s[i]),
    ensures
        keep(s, p) == Seq::<A>::empty(),
    decreases s.len(),
{
    if s.len() > 0 {
        assert(!p(s[s.len() - 1]));
        assert forall|i: int| 0 <= i < s.drop_last().len() implies !p(#[trigger] s.drop_last()[i]) by {
            assert(s.drop_last()[i] == s[i]);
        }
        lemma_keep_none(s.drop_last(), p);
    }
}

proof fn lemma_keep_one<A>(x: A, p: spec_fn(A) -> bool)
    ensures
        keep(seq![x], p) == (if p(x) { seq![x] } else { Seq::<A>::empty() }),
{
    assert(seq![x].drop_last() =~= Seq::<A>::empty());
    assert(seq![x].last() == x);
    assert(keep(Seq::<A>::empty(), p) == Seq::<A>::empty());
    assert(Seq::<A>::empty().push(x) =~= seq![x]);
}

proof fn lemma_keep_props<A>(s: Seq<A>, p: spec_fn(A) -> bool)
    ensures
        forall|i: int| 0 <= i < keep(s, p).len() ==> p(#[trigger] keep(s, p)[i]) && s.contains(keep(s, p)[i]),
    decreases s.len(),
{
    if s.len() > 0 {
        lemma_keep_props(s.drop_last(), p);
        let kd = keep(s.drop_last(), p);
        assert forall|i: int| 0 <= i < keep(s, p).len() implies p(#[trigger] keep(s, p)[i]) && s.contains(keep(s, p)[i]) by {
            if i < kd.len() {
                assert(keep(s, p)[i] == kd[i]);
                let m = choose|m: int| 0 <= m < s.drop_last().len() && s.drop_last()[m] == kd[i];
                assert(s[m] == kd[i]);
            } else {
                assert(keep(s, p)[i] == s.last());
                assert(s[s.len() - 1] == s.last());
            }
        }
    }
}

/// An element that is kept stands in the kept sequence after what is kept
/// before it.
proof fn lemma_keep_at<A>(s: Seq<A>, p: spec_fn(A) -> bool, i: int)
    requires
        0 <= i < s.len(),
        p(s[i]),
    ensures
        keep(s.take(i), p).len() < keep(s, p).len(),
        keep(s, p)[keep(s.take(i), p).len() as int] == s[i],
{
    assert(s =~= s.take(i) + seq![s[i]] + s.skip(i + 1));
    lemma_keep_add(s.take(i) + seq![s[i]], s.skip(i + 1), p);
    lemma_keep_add(s.take(i), seq![s[i]], p);
    lemma_keep_one(s[i], p);
}

proof fn lemma_pairs_for_first(r: Seq<(Seq<char>, Seq<char>)>, k: Seq<char>)
    ensures
        pair_pos(r, k) < r.len() ==> pairs_for(r, k).len() > 0 && pairs_for(r, k)[0] == r[pair_pos(r, k)],
        pair_pos(r, k) >= r.len() ==> pairs_for(r, k) == Seq::<(Seq<char>, Seq<char>)>::empty(),
{
    let hk = |q: (Seq<char>, Seq<char>)| has_key(q, k);
    lemma_first_match_bounds(r, hk);
    let pos = pair_pos(r, k);
    if pos < r.len() {
        lemma_keep_at(r, hk, pos);
        assert forall|i: int| 0 <= i < r.take(pos).len() implies !hk(#[trigger] r.take(pos)[i]) by {
            assert(r.take(pos)[i] == r[i]);
        }
        lemma_keep_none(r.take(pos), hk);
    } else {
        lemma_keep_none(r, hk);
    }
}

proof fn lemma_pairs_for_remove(r: Seq<(Seq<char>, Seq<char>)>, pos: int, k: Seq<char>)
    requires
        0 <= pos < r.len(),
        pos == pair_pos(r, r[pos].0),
    ensures
        r[pos].0 == k ==> pairs_for(r.remove(pos), k) == pairs_for(r, k).drop_first(),
        r[pos].0 != k ==> pairs_for(r.remove(pos), k) == pairs_for(r, k),
{
    let hk = |q: (Seq<char>, Seq<char>)| has_key(q, k);
    assert(r =~= r.take(pos) + seq![r[pos]] + r.skip(pos + 1));
    assert(r.remove(pos) =~= r.take(pos) + r.skip(pos + 1));
    lemma_keep_add(r.take(pos) + seq![r[pos]], r.skip(pos + 1), hk);
    lemma_keep_add(r.take(pos), seq![r[pos]], hk);
    lemma_keep_add(r.take(pos), r.skip(pos + 1), hk);
    lemma_keep_one(r[pos], hk);
    if r[pos].0 == k {
        let k0 = r[pos].0;
        lemma_first_match_bounds(r, |q: (Seq<char>, Seq<char>)| has_key(q, k0));
        assert forall|i: int| 0 <= i < r.take(pos).len() implies !hk(#[trigger] r.take(pos)[i]) by {
            assert(r.take(pos)[i] == r[i]);
        }
        lemma_keep_none(r.take(pos), hk);
        assert(pairs_for(r, k) =~= seq![r[pos]] + keep(r.skip(pos + 1), hk));
        assert((seq![r[pos]] + keep(r.skip(pos + 1), hk)).drop_first() =~= keep(r.skip(pos + 1), hk));
        assert(Seq::<(Seq<char>, Seq<char>)>::empty() + keep(r.skip(pos + 1), hk) =~= keep(
            r.skip(pos + 1),
            hk,
        ));
    } else {
        assert(keep(r.take(pos), hk) + Seq::<(Seq<char>, Seq<char>)>::empty() =~= keep(r.take(pos), hk));
    }
}

/// What one pass of the body rewrite makes of line `m`: a setting line
/// whose key still has a pair left is the next such pair's line; any other
/// line stays.
pub open spec fn pass_line(b: Seq<Seq<char>>, kv: Seq<(Seq<char>, Seq<char>)>, m: int) -> Seq<char> {
    let l = b[m];
    let k = key_of(l);
    let c = entries(b.take(m), k).len();
    if !is_comment_line(l) && k.len() > 0 && c < pairs_for(kv, k).len() {
        kv_line(pairs_for(kv, k)[c as int].0, pairs_for(kv, k)[c as int].1)
    } else {
        l
    }
}

pub open spec fn min_nat(a: nat, b: nat) -> nat {
    if a < b {
        a
    } else {
        b
    }
}

/// The setting lines for `k` after a pass: those the pairs for `k` took,
/// in order, then the old ones.
pub open spec fn entries_after(
    b: Seq<Seq<char>>,
    kv: Seq<(Seq<char>, Seq<char>)>,
    k: Seq<char>,
    t: int,
) -> Seq<char> {
    if t < pairs_for(kv, k).len() {
        kv_line(pairs_for(kv, k)[t].0, pairs_for(kv, k)[t].1)
    } else {
        entries(b, k)[t]
    }
}

proof fn lemma_no_empty_key(kv: Seq<(Seq<char>, Seq<char>)>)
    requires
        well_formed_keys(kv),
    ensures
        pairs_for(kv, Seq::<char>::empty()) == Seq::<(Seq<char>, Seq<char>)>::empty(),
{
    let e = Seq::<char>::empty();
    assert forall|i: int| 0 <= i < kv.len() implies !has_key(#[trigger] kv[i], e) by {
        assert(well_formed_key(kv[i].0));
    }
    lemma_keep_none(kv, |q: (Seq<char>, Seq<char>)| has_key(q, e));
}

/// One pass of the body rewrite, line by line, with the pairs left pending
/// for each key and the setting lines it leaves.
proof fn lemma_pass(b: Seq<Seq<char>>, kv: Seq<(Seq<char>, Seq<char>)>)
    requires
        well_formed_keys(kv),
    ensures
        rewrite_body(b, kv).0.len() == b.len(),
        forall|m: int| 0 <= m < b.len() ==> #[trigger] rewrite_body(b, kv).0[m] == pass_line(b, kv, m),
        forall|k: Seq<char>|
            #[trigger] pairs_for(rewrite_body(b, kv).1, k) == pairs_for(kv, k).skip(
                min_nat(entries(b, k).len(), pairs_for(kv, k).len()) as int,
            ),
        forall|x: (Seq<char>, Seq<char>)| #[trigger] rewrite_body(b, kv).1.contains(x) ==> kv.contains(x),
        forall|k: Seq<char>|
            #[trigger] entries(rewrite_body(b, kv).0, k).len() == entries(b, k).len(),
        forall|k: Seq<char>, t: int|
            0 <= t < entries(b, k).len() ==> #[trigger] entries(rewrite_body(b, kv).0, k)[t]
                == entries_after(b, kv, k, t),
    decreases b.len(),
{
    lemma_no_empty_key(kv);
    if b.len() == 0 {
        assert forall|k: Seq<char>| #[trigger] pairs_for(kv, k) == pairs_for(kv, k).skip(
            min_nat(entries(b, k).len(), pairs_for(kv, k).len()) as int,
        ) by {
            assert(pairs_for(kv, k).skip(0) =~= pairs_for(kv, k));
        }
    } else {
        let d = b.drop_last();
        lemma_pass(d, kv);
        let (n0, r0) = rewrite_body(d, kv);
        let l = b.last();
        let k = key_of(l);
        let pk = pairs_for(kv, k);
        let c = entries(d, k).len();
        let pos = pair_pos(r0, k);
        lemma_pairs_for_first(r0, k);
        lemma_first_match_bounds(r0, |x: (Seq<char>, Seq<char>)| has_key(x, k));
        let (l2, r2) = rewrite_line(l, r0);
        let n = rewrite_body(b, kv).0;
        assert(n == n0.push(l2));
        assert(n.drop_last() =~= n0);
        assert(n.last() == l2);
        assert(b.take(b.len() - 1) =~= d);
        let replaced = !is_comment_line(l) && k.len() > 0 && pos < r0.len();
        assert(pairs_for(r0, k) == pk.skip(min_nat(c, pk.len()) as int));
        assert(replaced ==> c < pk.len() && r0[pos] == pk[c as int]);
        assert(!is_comment_line(l) && k.len() > 0 && c < pk.len() ==> replaced);
        // the lines
        assert forall|m: int| 0 <= m < b.len() implies #[trigger] n[m] == pass_line(b, kv, m) by {
            if m < b.len() - 1 {
                assert(b.take(m) =~= d.take(m));
                assert(b[m] == d[m]);
                assert(n[m] == n0[m]);
            }
        }
        if replaced {
            lemma_keep_props(kv, |x: (Seq<char>, Seq<char>)| has_key(x, k));
            assert(has_key(pk[c as int], k));
            assert(kv.contains(pk[c as int]));
            let j = choose|j: int| 0 <= j < kv.len() && kv[j] == pk[c as int];
            assert(well_formed_key(kv[j].0));
            lemma_kv_line_reads_back(pk[c as int].0, pk[c as int].1);
        }
        // an entry for any key: the new line is one exactly when the old was
        assert forall|k2: Seq<char>| is_entry_for(l2, k2) == is_entry_for(l, k2) by {
            if replaced {
                let q = r0[pos];
                assert(has_key(q, k)) by {
                    lemma_first_match_bounds(r0, |x: (Seq<char>, Seq<char>)| has_key(x, k));
                }
            }
        }
        // the pending pairs
        assert(replaced ==> r2 == r0.remove(pos) && l2 == kv_line(r0[pos].0, r0[pos].1));
        assert(!replaced ==> r2 == r0 && l2 == l);
        assert forall|x: (Seq<char>, Seq<char>)| #[trigger] r2.contains(x) implies kv.contains(x) by {
            if replaced {
                let m = choose|m: int| 0 <= m < r2.len() && r2[m] == x;
                assert(r0.remove(pos) =~= r0.take(pos) + r0.skip(pos + 1));
                if m < pos {
                    assert(r0.take(pos)[m] == r0[m]);
                    assert(r0[m] == x);
                } else {
                    let t = r0.take(pos) + r0.skip(pos + 1);
                    assert(0 <= m < r2.len());
                    assert(r2 == r0.remove(pos));
                    assert(t.len() == r0.len() - 1);
                    assert(m + 1 < r0.len());
                    assert(t[m] == r0.skip(pos + 1)[m - pos]);
                    assert(r0.skip(pos + 1)[m - pos] == r0[m + 1]);
                    assert(r0[m + 1] == x);
                }
                assert(r0.contains(x));
            }
        }
        assert forall|k2: Seq<char>| #[trigger] pairs_for(r2, k2) == pairs_for(kv, k2).skip(
            min_nat(entries(b, k2).len(), pairs_for(kv, k2).len()) as int,
        ) by {
            let e = |x: Seq<char>| is_entry_for(x, k2);
            assert(entries(b, k2) == if is_entry_for(l, k2) {
                entries(d, k2).push(l)
            } else {
                entries(d, k2)
            });
            if replaced {
                lemma_first_match_bounds(r0, |x: (Seq<char>, Seq<char>)| has_key(x, k));
                assert(r0[pos].0 == k);
                lemma_first_match_bounds(r0, |x: (Seq<char>, Seq<char>)| has_key(x, r0[pos].0));
                lemma_pairs_for_remove(r0, pos, k2);
                if k2 == k {
                    assert(pk.skip(c as int).drop_first() =~= pk.skip(c as int + 1));
                }
            } else {
                if is_entry_for(l, k2) {
                    assert(k2 == k);
                    if k.len() == 0 {
                        assert(k =~= Seq::<char>::empty());
                        assert(pk =~= Seq::<(Seq<char>, Seq<char>)>::empty());
                    }
                }
            }
        }
        // the setting lines
        assert forall|k2: Seq<char>| #[trigger] entries(n, k2).len() == entries(b, k2).len() by {
            assert(entries(n, k2) == if is_entry_for(l2, k2) {
                entries(n0, k2).push(l2)
            } else {
                entries(n0, k2)
            });
        }
        assert forall|k2: Seq<char>, t: int| 0 <= t < entries(b, k2).len() implies #[trigger] entries(
            n,
            k2,
        )[t] == entries_after(b, kv, k2, t) by {
            assert(entries(n, k2) == if is_entry_for(l2, k2) {
                entries(n0, k2).push(l2)
            } else {
                entries(n0, k2)
            });
            assert(entries(b, k2) == if is_entry_for(l, k2) {
                entries(d, k2).push(l)
            } else {
                entries(d, k2)
            });
            if t < entries(d, k2).len() {
                assert(entries(n0, k2)[t] == entries_after(d, kv, k2, t));
            } else {
                assert(is_entry_for(l, k2));
                assert(k2 == k);
                if k.len() == 0 {
                    assert(k =~= Seq::<char>::empty());
                    assert(pk =~= Seq::<(Seq<char>, Seq<char>)>::empty());
                }
            }
        }
    }
}

proof fn lemma_entries_kv_lines(r: Seq<(Seq<char>, Seq<char>)>, k: Seq<char>)
    requires
        forall|i: int| 0 <= i < r.len() ==> well_formed_key(#[trigger] r[i].0),
    ensures
        entries(kv_lines(r), k) == kv_lines(pairs_for(r, k)),
    decreases r.len(),
{
    if r.len() > 0 {
        let d = r.drop_last();
        assert forall|i: int| 0 <= i < d.len() implies well_formed_key(#[trigger] d[i].0) by {
            assert(d[i] == r[i]);
        }
        lemma_entries_kv_lines(d, k);
        assert(kv_lines(r).drop_last() =~= kv_lines(d));
        assert(well_formed_key(r[r.len() - 1].0));
        lemma_kv_line_reads_back(r.last().0, r.last().1);
        if has_key(r.last(), k) {
            assert(kv_lines(pairs_for(d, k).push(r.last())) =~= kv_lines(pairs_for(d, k)).push(
                kv_line(r.last().0, r.last().1),
            ));
        }
    }
}

/// A body in which, for each key, the first setting lines are the pairs'
/// lines in order, and there are at least as many as there are pairs, is
/// left as it is by a pass, and no pair stays pending.
proof fn lemma_pass_fixed(b: Seq<Seq<char>>, kv: Seq<(Seq<char>, Seq<char>)>)
    requires
        well_formed_keys(kv),
        forall|k: Seq<char>| #[trigger] entries(b, k).len() >= pairs_for(kv, k).len(),
        forall|k: Seq<char>, t: int|
            0 <= t < pairs_for(kv, k).len() ==> #[trigger] entries(b, k)[t] == kv_line(
                pairs_for(kv, k)[t].0,
                pairs_for(kv, k)[t].1,
            ),
    ensures
        rewrite_body(b, kv) == (b, Seq::<(Seq<char>, Seq<char>)>::empty()),
{
    lemma_pass(b, kv);
    let (n, r) = rewrite_body(b, kv);
    assert forall|m: int| 0 <= m < b.len() implies n[m] == b[m] by {
        assert(n[m] == pass_line(b, kv, m));
        let l = b[m];
        let k = key_of(l);
        if !is_comment_line(l) && k.len() > 0 && entries(b.take(m), k).len() < pairs_for(kv, k).len() {
            lemma_keep_at(b, |x: Seq<char>| is_entry_for(x, k), m);
            assert(entries(b, k)[entries(b.take(m), k).len() as int] == l);
        }
    }
    assert(n =~= b);
    if r.len() > 0 {
        let x = r[0];
        let k = x.0;
        assert(pairs_for(r, k) == pairs_for(kv, k).skip(
            min_nat(entries(b, k).len(), pairs_for(kv, k).len()) as int,
        ));
        assert(pairs_for(r, k).len() == 0);
        lemma_keep_at(r, |q: (Seq<char>, Seq<char>)| has_key(q, k), 0);
        assert(false);
    }
    assert(r =~= Seq::<(Seq<char>, Seq<char>)>::empty());
}

/// Where the section lies after the upsert: its header where it was, and its
/// body the rewritten lines followed by the lines of the pairs no line took.
proof fn lemma_upsert_layout(ls: Seq<Seq<char>>, section: Seq<char>, kv: Seq<(Seq<char>, Seq<char>)>)
    requires
        upsert_lines(ls, section, kv) is Some,
        well_formed_keys(kv),
    ensures
        ({
            let out = upsert_lines(ls, section, kv)->0;
            let start = section_start(ls, section);
            let end = section_end(ls, start);
            let (new, rem) = rewrite_body(ls.subrange(start + 1, end), kv);
            let nb = new + kv_lines(rem);
            &&& 0 <= start < ls.len()
            &&& start < end <= ls.len()
            &&& section_start(out, section) == start
            &&& section_end(out, start) == start + 1 + nb.len()
            &&& out == ls.take(start + 1) + nb + ls.skip(end)
        }),
{
    let out = upsert_lines(ls, section, kv)->0;
    let start = section_start(ls, section);
    let end = section_end(ls, start);
    let hp = |l: Seq<char>| is_header_for(l, section);
    let hl = |l: Seq<char>| is_header_line(l);
    let body = ls.subrange(start + 1, end);
    let (new, rem) = rewrite_body(body, kv);
    let tail = kv_lines(rem);
    lemma_first_match_bounds(ls, hp);
    lemma_first_match_bounds(ls.skip(start + 1), hl);
    lemma_rewrite_shape(body, kv);
    assert forall|i: int| 0 <= i < start implies !is_header_for(#[trigger] out[i], section) by {
        assert(out[i] == ls[i]);
    }
    assert(out[start] == ls[start]);
    lemma_first_match_at(out, hp, start);
    let nb = new + tail;
    let after = out.skip(start + 1);
    assert forall|i: int| 0 <= i < nb.len() implies !is_header_line(#[trigger] after[i]) by {
        assert(after[i] == nb[i]);
        if i < new.len() {
            assert(body[i] == ls.skip(start + 1)[i]);
            if new[i] != body[i] {
                let m = choose|m: int|
                    0 <= m < kv.len() && #[trigger] kv[m].0 == key_of(body[i]) && new[i] == kv_line(
                        kv[m].0,
                        kv[m].1,
                    );
                lemma_kv_line_reads_back(kv[m].0, kv[m].1);
            }
        } else {
            let q = i - new.len();
            assert(tail[q] == kv_line(rem[q].0, rem[q].1));
            assert(rem.contains(rem[q]));
            let m = choose|m: int| 0 <= m < kv.len() && kv[m] == rem[q];
            lemma_kv_line_reads_back(kv[m].0, kv[m].1);
        }
    }
    if end < ls.len() {
        assert(after[nb.len() as int] == ls[end]);
        assert(ls.skip(start + 1)[end - start - 1] == ls[end]);
    }
    lemma_first_match_at(after, hl, nb.len() as int);
    assert(out =~= ls.take(start + 1) + nb + ls.skip(end));
}

/// After one pass, the body followed by the pending pairs' lines has, for
/// each key, at least as many setting lines as pairs, the first of them the
/// pairs' lines in order.
proof fn lemma_nb_entries(body: Seq<Seq<char>>, kv: Seq<(Seq<char>, Seq<char>)>, k: Seq<char>)
    requires
        well_formed_keys(kv),
    ensures
        ({
            let (new, rem) = rewrite_body(body, kv);
            let nb = new + kv_lines(rem);
            &&& entries(nb, k).len() >= pairs_for(kv, k).len()
            &&& forall|t: int|
                0 <= t < pairs_for(kv, k).len() ==> #[trigger] entries(nb, k)[t] == kv_line(
                    pairs_for(kv, k)[t].0,
                    pairs_for(kv, k)[t].1,
                )
        }),
{
    let (new, rem) = rewrite_body(body, kv);
    let tail = kv_lines(rem);
    let nb = new + tail;
    lemma_pass(body, kv);
    assert forall|i: int| 0 <= i < rem.len() implies well_formed_key(#[trigger] rem[i].0) by {
        assert(rem.contains(rem[i]));
        let m = choose|m: int| 0 <= m < kv.len() && kv[m] == rem[i];
        assert(well_formed_key(kv[m].0));
    }
    let pk = pairs_for(kv, k);
    let eb = entries(body, k).len();
    lemma_keep_add(new, tail, |x: Seq<char>| is_entry_for(x, k));
    lemma_entries_kv_lines(rem, k);
    assert(entries(nb, k) == entries(new, k) + kv_lines(pairs_for(rem, k)));
    assert(pairs_for(rem, k) == pk.skip(min_nat(eb, pk.len()) as int));
    assert(entries(new, k).len() == eb);
    assert forall|t: int| 0 <= t < pk.len() implies #[trigger] entries(nb, k)[t] == kv_line(
        pk[t].0,
        pk[t].1,
    ) by {
        if t < eb {
            assert(entries(new, k)[t] == entries_after(body, kv, k, t));
        } else {
            assert(entries(nb, k)[t] == kv_lines(pairs_for(rem, k))[t - eb]);
            assert(pairs_for(rem, k)[t - eb] == pk[t]);
        }
    }
}

/// Applying the same upsert to its own result changes nothing, when the
/// keys are well formed (a key may come more than once).
pub proof fn law_upsert_twice_is_once(
    ls: Seq<Seq<char>>,
    section: Seq<char>,
    kv: Seq<(Seq<char>, Seq<char>)>,
)
    requires
        upsert_lines(ls, section, kv) is Some,
        well_formed_keys(kv),
    ensures
        upsert_lines(upsert_lines(ls, section, kv)->0, section, kv) == upsert_lines(ls, section, kv),
{
    let out = upsert_lines(ls, section, kv)->0;
    let start = section_start(ls, section);
    let end = section_end(ls, start);
    let body = ls.subrange(start + 1, end);
    let (new, rem) = rewrite_body(body, kv);
    let tail = kv_lines(rem);
    let nb = new + tail;
    lemma_upsert_layout(ls, section, kv);
    lemma_pass(body, kv);
    let end2 = start + 1 + nb.len();
    assert(out.subrange(start + 1, end2) =~= nb);
    assert forall|i: int| 0 <= i < rem.len() implies well_formed_key(#[trigger] rem[i].0) by {
        assert(rem.contains(rem[i]));
        let m = choose|m: int| 0 <= m < kv.len() && kv[m] == rem[i];
        assert(well_formed_key(kv[m].0));
    }
    assert forall|k: Seq<char>, t: int| 0 <= t < pairs_for(kv, k).len() implies #[trigger] entries(
        nb,
        k,
    )[t] == kv_line(pairs_for(kv, k)[t].0, pairs_for(kv, k)[t].1) && entries(nb, k).len()
        >= pairs_for(kv, k).len() by {
        lemma_nb_entries(body, kv, k);
    }
    assert forall|k: Seq<char>| #[trigger] entries(nb, k).len() >= pairs_for(kv, k).len() by {
        lemma_nb_entries(body, kv, k);
    }
    lemma_pass_fixed(nb, kv);
    assert(kv_lines(Seq::<(Seq<char>, Seq<char>)>::empty()) =~= Seq::<Seq<char>>::empty());
    assert(out.take(start + 1) =~= ls.take(start + 1));
    assert(out.skip(end2) =~= ls.skip(end));
    assert(out.take(start + 1) + nb + Seq::<Seq<char>>::empty() + out.skip(end2) =~= out);
}

/// A line with neither a newline nor a carriage return.
pub open spec fn clean_line(l: Seq<char>) -> bool {
    forall|j: int| 0 <= j < l.len() ==> #[trigger] l[j] != '\n' && l[j] != '\r'
}

proof fn lemma_lines_clean(c: Seq<char>)
    requires
        forall|j: int| 0 <= j < c.len() ==> c[j] != '\r',
    ensures
        forall|i: int| 0 <= i < lines(c).len() ==> clean_line(#[trigger] lines(c)[i]),
{
    if c.len() > 0 {
        let p = crate::text::split_on(c, '\n');
        crate::text::lemma_split_pieces(c, '\n');
        crate::text::lemma_split_nonempty(c, '\n');
        assert forall|i: int| 0 <= i < lines(c).len() implies clean_line(#[trigger] lines(c)[i]) by {
            let q = p[i];
            assert(crate::text::contains(c, p[i]));
            let o = choose|o: int| crate::text::occurs_at(c, q, o);
            assert forall|j: int| 0 <= j < q.len() implies q[j] != '\n' && q[j] != '\r' by {
                assert(p[i][j] != '\n');
                assert(c.subrange(o, o + q.len())[j] == c[o + j]);
            }
            if q.len() > 0 {
                assert(q[q.len() - 1] != '\r');
            }
            assert(lines(c)[i] == q);
        }
    }
}

proof fn lemma_kv_line_clean(k: Seq<char>, v: Seq<char>)
    requires
        clean_line(k),
        clean_line(v),
    ensures
        clean_line(kv_line(k, v)),
{
    let l = kv_line(k, v);
    assert forall|j: int| 0 <= j < l.len() implies l[j] != '\n' && l[j] != '\r' by {
        if j < k.len() {
            assert(l[j] == k[j]);
        } else if j >= k.len() + 3 {
            assert(l[j] == v[j - k.len() - 3]);
        }
    }
}

/// Writing the upserted text and upserting the same pairs into it again
/// gives the same text, when the text has no carriage return and the keys
/// and values hold no line break and the keys are well formed (a key may
/// come more than once).
pub proof fn law_upsert_text_twice_is_once(
    c: Seq<char>,
    section: Seq<char>,
    kv: Seq<(Seq<char>, Seq<char>)>,
)
    requires
        upsert_lines(lines(c), section, kv) is Some,
        well_formed_keys(kv),
        forall|j: int| 0 <= j < c.len() ==> c[j] != '\r',
        forall|i: int| 0 <= i < kv.len() ==> clean_line(#[trigger] kv[i].0) && clean_line(kv[i].1),
    ensures
        ({
            let r = unlines(upsert_lines(lines(c), section, kv)->0);
            upsert_lines(lines(r), section, kv) matches Some(o) && unlines(o) == r
        }),
{
    let ls = lines(c);
    let out = upsert_lines(ls, section, kv)->0;
    let start = section_start(ls, section);
    let end = section_end(ls, start);
    let body = ls.subrange(start + 1, end);
    let (new, rem) = rewrite_body(body, kv);
    let tail = kv_lines(rem);
    lemma_upsert_layout(ls, section, kv);
    lemma_rewrite_shape(body, kv);
    lemma_lines_clean(c);
    assert forall|i: int| 0 <= i < out.len() implies clean_line(#[trigger] out[i]) by {
        let nb = new + tail;
        if i <= start {
            assert(out[i] == ls[i]);
        } else if i < start + 1 + new.len() {
            let q = i - start - 1;
            assert(out[i] == new[q]);
            assert(body[q] == ls[start + 1 + q]);
            if new[q] != body[q] {
                let m = choose|m: int|
                    0 <= m < kv.len() && #[trigger] kv[m].0 == key_of(body[q]) && new[q] == kv_line(
                        kv[m].0,
                        kv[m].1,
                    );
                lemma_kv_line_clean(kv[m].0, kv[m].1);
            }
        } else if i < start + 1 + nb.len() {
            let q = i - start - 1 - new.len();
            assert(out[i] == tail[q]);
            assert(rem.contains(rem[q]));
            let m = choose|m: int| 0 <= m < kv.len() && kv[m] == rem[q];
            lemma_kv_line_clean(kv[m].0, kv[m].1);
        } else {
            assert(out[i] == ls[i - nb.len() - (start + 1) + end]);
        }
    }
    crate::text::lemma_lines_unlines(out);
    law_upsert_twice_is_once(ls, section, kv);
}

} // verus!
