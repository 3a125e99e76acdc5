//! Character-level helpers shared by the parsers of this crate: whitespace,
//! trimming, line splitting, substring search and decimal rendering, each with
//! the meaning that the corresponding `str` method documents.
use vstd::prelude::*;

verus! {

// ───────────────────────── specifications ─────────────────────────

/// The Unicode `White_Space` property, which `char::is_whitespace` tests.
pub open spec fn is_ws(c: char) -> bool {
    let u = c as u32;
    (0x09 <= u && u <= 0x0d) || u == 0x20 || u == 0x85 || u == 0xa0 || u == 0x1680 || (0x2000 <= u
        && u <= 0x200a) || u == 0x2028 || u == 0x2029 || u == 0x202f || u == 0x205f || u == 0x3000
}

/// Index of the first element satisfying `p`, or `s.len()` when there is none.
pub open spec fn first_match<A>(s: Seq<A>, p: spec_fn(A) -> bool) -> int
    decreases s.len(),
{
    if s.len() == 0 {
        0
    } else if p(s[0]) {
        0
    } else {
        1 + first_match(s.skip(1), p)
    }
}

/// `s` without its leading whitespace (`str::trim_start`).
pub open spec fn trim_start(s: Seq<char>) -> Seq<char>
    decreases s.len(),
{
    if s.len() > 0 && is_ws(s[0]) {
        trim_start(s.skip(1))
    } else {
        s
    }
}

/// `s` without its trailing whitespace (`str::trim_end`).
pub open spec fn trim_end(s: Seq<char>) -> Seq<char>
    decreases s.len(),
{
    if s.len() > 0 && is_ws(s.last()) {
        trim_end(s.drop_last())
    } else {
        s
    }
}

/// `s` without leading and trailing whitespace (`str::trim`).
pub open spec fn trim(s: Seq<char>) -> Seq<char> {
    trim_end(trim_start(s))
}

/// The pieces of `s` between occurrences of `c` (`str::split`); never empty.
pub open spec fn split_on(s: Seq<char>, c: char) -> Seq<Seq<char>>
    decreases s.len(),
{
    if s.len() == 0 {
        seq![Seq::<char>::empty()]
    } else {
        let p = split_on(s.drop_last(), c);
        if s.last() == c {
            p.push(Seq::<char>::empty())
        } else {
            p.update(p.len() - 1, p.last().push(s.last()))
        }
    }
}

/// `l` without one trailing carriage return.
pub open spec fn strip_cr(l: Seq<char>) -> Seq<char> {
    if l.len() > 0 && l.last() == '\r' {
        l.drop_last()
    } else {
        l
    }
}

/// The lines of `s` as `str::lines` yields them: split at `\n`, a `\r` right
/// before a `\n` dropped, and no empty line after a final `\n`.
pub open spec fn lines(s: Seq<char>) -> Seq<Seq<char>> {
    if s.len() == 0 {
        Seq::empty()
    } else {
        let p = split_on(s, '\n');
        let n = if s.last() == '\n' {
            p.len() - 1
        } else {
            p.len() as int
        };
        Seq::new(n as nat, |i: int| if i < p.len() - 1 { strip_cr(p[i]) } else { p[i] })
    }
}

/// Each line followed by a newline, concatenated.
pub open spec fn unlines(ls: Seq<Seq<char>>) -> Seq<char>
    decreases ls.len(),
{
    if ls.len() == 0 {
        Seq::empty()
    } else {
        unlines(ls.drop_last()) + ls.last() + seq!['\n']
    }
}

/// Whether `needle` occurs in `hay` at position `i`.
pub open spec fn occurs_at(hay: Seq<char>, needle: Seq<char>, i: int) -> bool {
    0 <= i && i + needle.len() <= hay.len() && hay.subrange(i, i + needle.len()) == needle
}

/// Whether `needle` occurs in `hay` (`str::contains`).
pub open spec fn contains(hay: Seq<char>, needle: Seq<char>) -> bool {
    exists|i: int| occurs_at(hay, needle, i)
}

/// Whether `hay` begins with `prefix` (`str::starts_with`).
pub open spec fn starts_with(hay: Seq<char>, prefix: Seq<char>) -> bool {
    prefix.len() <= hay.len() && hay.take(prefix.len() as int) == prefix
}

/// The decimal digits of `n`, most significant first, without leading zeros.
pub open spec fn digits(n: nat) -> Seq<char>
    decreases n,
{
    if n < 10 {
        seq![digit_char(n)]
    } else {
        digits(n / 10).push(digit_char(n % 10))
    }
}

pub open spec fn digit_char(d: nat) -> char {
    if d == 0 {
        '0'
    } else if d == 1 {
        '1'
    } else if d == 2 {
        '2'
    } else if d == 3 {
        '3'
    } else if d == 4 {
        '4'
    } else if d == 5 {
        '5'
    } else if d == 6 {
        '6'
    } else if d == 7 {
        '7'
    } else if d == 8 {
        '8'
    } else {
        '9'
    }
}

/// An integer as `Display` writes it: an optional minus sign, then its digits.
pub open spec fn decimal(n: int) -> Seq<char> {
    if n < 0 {
        seq!['-'] + digits((-n) as nat)
    } else {
        digits(n as nat)
    }
}

/// The character sequences held by a vector of character vectors.
pub open spec fn vv(v: Seq<Vec<char>>) -> Seq<Seq<char>> {
    v.map_values(|x: Vec<char>| x@)
}

// ───────────────────────── lemmas ─────────────────────────

pub proof fn lemma_first_match<A>(s: Seq<A>, p: spec_fn(A) -> bool, i: int)
    requires
        0 <= i <= s.len(),
        forall|j: int| 0 <= j < i ==> !p(#[trigger] s[j]),
    ensures
        first_match(s, p) == i + first_match(s.skip(i), p),
        0 <= first_match(s, p) <= s.len(),
    decreases i,
{
    lemma_first_match_bounds(s, p);
    if i > 0 {
        assert(!p(s[0]));
        let t = s.skip(1);
        assert forall|j: int| 0 <= j < i - 1 implies !p(#[trigger] t[j]) by {
            assert(t[j] == s[j + 1]);
        }
        lemma_first_match(t, p, i - 1);
        assert(t.skip(i - 1) =~= s.skip(i));
    } else {
        assert(s.skip(0) =~= s);
    }
}

pub proof fn lemma_first_match_bounds<A>(s: Seq<A>, p: spec_fn(A) -> bool)
    ensures
        0 <= first_match(s, p) <= s.len(),
        first_match(s, p) < s.len() ==> p(s[first_match(s, p)]),
        forall|j: int| 0 <= j < first_match(s, p) ==> !p(#[trigger] s[j]),
    decreases s.len(),
{
    if s.len() > 0 && !p(s[0]) {
        let t = s.skip(1);
        lemma_first_match_bounds(t, p);
        assert forall|j: int| 0 <= j < first_match(s, p) implies !p(#[trigger] s[j]) by {
            if j > 0 {
                assert(s[j] == t[j - 1]);
            }
        }
    }
}

/// `first_match` at a position where the predicate holds and no earlier
/// element satisfies it.
pub proof fn lemma_first_match_at<A>(s: Seq<A>, p: spec_fn(A) -> bool, i: int)
    requires
        0 <= i <= s.len(),
        forall|j: int| 0 <= j < i ==> !p(#[trigger] s[j]),
        i == s.len() || p(s[i]),
    ensures
        first_match(s, p) == i,
{
    lemma_first_match(s, p, i);
    if i < s.len() {
        assert(s.skip(i)[0] == s[i]);
    }
}

pub proof fn lemma_split_nonempty(s: Seq<char>, c: char)
    ensures
        split_on(s, c).len() >= 1,
    decreases s.len(),
{
    if s.len() > 0 {
        lemma_split_nonempty(s.drop_last(), c);
    }
}

pub proof fn lemma_trim_start_skip(s: Seq<char>, i: int)
    requires
        0 <= i <= s.len(),
        forall|j: int| 0 <= j < i ==> is_ws(#[trigger] s[j]),
    ensures
        trim_start(s) == trim_start(s.skip(i)),
    decreases i,
{
    if i > 0 {
        let t = s.skip(1);
        assert forall|j: int| 0 <= j < i - 1 implies is_ws(#[trigger] t[j]) by {
            assert(t[j] == s[j + 1]);
        }
        lemma_trim_start_skip(t, i - 1);
        assert(t.skip(i - 1) =~= s.skip(i));
    } else {
        assert(s.skip(0) =~= s);
    }
}

pub proof fn lemma_trim_end_take(s: Seq<char>, i: int)
    requires
        0 <= i <= s.len(),
        forall|j: int| i <= j < s.len() ==> is_ws(#[trigger] s[j]),
    ensures
        trim_end(s) == trim_end(s.take(i)),
    decreases s.len() - i,
{
    if i < s.len() {
        let t = s.drop_last();
        assert forall|j: int| i <= j < t.len() implies is_ws(#[trigger] t[j]) by {
            assert(t[j] == s[j]);
        }
        lemma_trim_end_take(t, i);
        assert(t.take(i) =~= s.take(i));
    } else {
        assert(s.take(i) =~= s);
    }
}

pub proof fn lemma_unlines_push(ls: Seq<Seq<char>>, l: Seq<char>)
    ensures
        unlines(ls.push(l)) == unlines(ls) + l + seq!['\n'],
{
    assert(ls.push(l).drop_last() =~= ls);
}

/// The pieces of a split hold no separator, each occurs in the text, and the
/// last one ends it.
pub proof fn lemma_split_pieces(s: Seq<char>, c: char)
    ensures
        forall|k: int, j: int|
            0 <= k < split_on(s, c).len() && 0 <= j < split_on(s, c)[k].len()
                ==> #[trigger] split_on(s, c)[k][j] != c,
        forall|k: int| 0 <= k < split_on(s, c).len() ==> contains(s, #[trigger] split_on(s, c)[k]),
        split_on(s, c).last().len() <= s.len(),
        split_on(s, c).last() == s.skip(s.len() - split_on(s, c).last().len()),
    decreases s.len(),
{
    lemma_split_nonempty(s, c);
    if s.len() == 0 {
        assert(split_on(s, c) == seq![Seq::<char>::empty()]);
        assert(s.subrange(0, 0) =~= Seq::<char>::empty());
        assert(occurs_at(s, Seq::<char>::empty(), 0));
        assert(s.skip(0) =~= Seq::<char>::empty());
    } else {
        let d = s.drop_last();
        lemma_split_pieces(d, c);
        lemma_split_nonempty(d, c);
        let p = split_on(d, c);
        let r = split_on(s, c);
        assert forall|k: int| 0 <= k < p.len() && contains(d, p[k]) implies contains(s, p[k]) by {
            let i = choose|i: int| occurs_at(d, p[k], i);
            assert(s.subrange(i, i + p[k].len()) =~= d.subrange(i, i + p[k].len()));
            assert(occurs_at(s, p[k], i));
        }
        if s.last() == c {
            assert(r == p.push(Seq::<char>::empty()));
            assert(s.subrange(0, 0) =~= Seq::<char>::empty());
        assert(occurs_at(s, Seq::<char>::empty(), 0));
            assert(s.skip(s.len() as int) =~= Seq::<char>::empty());
            assert forall|k: int| 0 <= k < r.len() implies contains(s, #[trigger] r[k]) by {
                if k < p.len() {
                    assert(r[k] == p[k]);
                    assert(contains(d, p[k]));
                }
            }
            assert forall|k: int, j: int| 0 <= k < r.len() && 0 <= j < r[k].len() implies #[trigger] r[k][j] != c by {
                assert(r[k] == p[k]);
                assert(p[k][j] != c);
            }
        } else {
            let last = p.last().push(s.last());
            assert(r == p.update(p.len() - 1, last));
            assert(last =~= s.skip(s.len() - last.len()));
            assert(occurs_at(s, last, s.len() - last.len()));
            assert forall|k: int| 0 <= k < r.len() implies contains(s, #[trigger] r[k]) by {
                if k < p.len() - 1 {
                    assert(r[k] == p[k]);
                    assert(contains(d, p[k]));
                }
            }
            assert forall|k: int, j: int| 0 <= k < r.len() && 0 <= j < r[k].len() implies #[trigger] r[k][j] != c by {
                if k < p.len() - 1 {
                    assert(r[k] == p[k]);
                    assert(p[k][j] != c);
                } else if j < p.last().len() {
                    assert(r[k][j] == p[p.len() - 1][j]);
                    assert(p[p.len() - 1][j] != c);
                }
            }
        }
    }
}

/// A piece without separators splits to itself.
pub proof fn lemma_split_whole(n: Seq<char>, c: char)
    requires
        forall|j: int| 0 <= j < n.len() ==> n[j] != c,
    ensures
        split_on(n, c) == seq![n],
    decreases n.len(),
{
    if n.len() == 0 {
        assert(n =~= Seq::<char>::empty());
    } else {
        assert(n[n.len() - 1] != c);
        lemma_split_whole(n.drop_last(), c);
        assert(n.drop_last().push(n.last()) =~= n);
        assert(seq![n.drop_last()].update(0, n.drop_last().push(n.last())) =~= seq![n]);
    }
}


/// Splitting `a` followed by a piece without separators extends the last
/// piece of `a`.
pub proof fn lemma_split_append(a: Seq<char>, b: Seq<char>, c: char)
    requires
        forall|j: int| 0 <= j < b.len() ==> b[j] != c,
    ensures
        split_on(a + b, c) == split_on(a, c).update(
            split_on(a, c).len() - 1,
            split_on(a, c).last() + b,
        ),
    decreases b.len(),
{
    lemma_split_nonempty(a, c);
    if b.len() == 0 {
        assert(a + b =~= a);
        assert(split_on(a, c).last() + b =~= split_on(a, c).last());
        assert(split_on(a, c).update(split_on(a, c).len() - 1, split_on(a, c).last())
            =~= split_on(a, c));
    } else {
        let d = b.drop_last();
        lemma_split_append(a, d, c);
        assert((a + b).drop_last() =~= a + d);
        assert((a + b).last() == b[b.len() - 1]);
        let p = split_on(a, c);
        assert((p.last() + d).push(b.last()) =~= p.last() + b);
        let q = p.update(p.len() - 1, p.last() + d);
        assert(q.last() == p.last() + d);
        assert(q.update(q.len() - 1, q.last().push(b.last())) =~= p.update(p.len() - 1, p.last() + b));
    }
}

/// The lines of text written by `unlines` split back into those lines and
/// a final empty piece, when no line holds a newline.
pub proof fn lemma_split_unlines(ls: Seq<Seq<char>>)
    requires
        forall|i: int, j: int| 0 <= i < ls.len() && 0 <= j < ls[i].len() ==> #[trigger] ls[i][j] != '\n',
    ensures
        split_on(unlines(ls), '\n') == ls.push(Seq::<char>::empty()),
    decreases ls.len(),
{
    if ls.len() == 0 {
        assert(split_on(unlines(ls), '\n') == seq![Seq::<char>::empty()]);
        assert(ls.push(Seq::<char>::empty()) =~= seq![Seq::<char>::empty()]);
    } else {
        let d = ls.drop_last();
        let l = ls.last();
        assert forall|i: int, j: int| 0 <= i < d.len() && 0 <= j < d[i].len() implies #[trigger] d[i][j] != '\n' by {
            assert(d[i] == ls[i]);
        }
        lemma_split_unlines(d);
        assert forall|j: int| 0 <= j < l.len() implies l[j] != '\n' by {
            assert(ls[ls.len() - 1] == l);
        }
        lemma_split_append(unlines(d), l, '\n');
        let s = unlines(ls);
        assert(s == unlines(d) + l + seq!['\n']);
        assert(s.drop_last() =~= unlines(d) + l);
        let p = d.push(Seq::<char>::empty());
        assert(p.update(p.len() - 1, p.last() + l) =~= d.push(l));
        assert(d.push(l) =~= ls);
    }
}

/// `lines` reads back what `unlines` wrote, when no line holds a newline or
/// a carriage return.
pub proof fn lemma_lines_unlines(ls: Seq<Seq<char>>)
    requires
        forall|i: int, j: int|
            0 <= i < ls.len() && 0 <= j < ls[i].len() ==> #[trigger] ls[i][j] != '\n' && ls[i][j] != '\r',
    ensures
        lines(unlines(ls)) == ls,
{
    assert forall|i: int, j: int| 0 <= i < ls.len() && 0 <= j < ls[i].len() implies #[trigger] ls[i][j] != '\n' by {}
    lemma_split_unlines(ls);
    if ls.len() > 0 {
        lemma_unlines_push(ls.drop_last(), ls.last());
        assert(ls.drop_last().push(ls.last()) =~= ls);
        let s = unlines(ls);
        assert(s.len() > 0 && s.last() == '\n');
        assert forall|i: int| 0 <= i < ls.len() implies strip_cr(#[trigger] ls[i]) == ls[i] by {
            if ls[i].len() > 0 {
                assert(ls[i][ls[i].len() - 1] != '\r');
            }
        }
        assert(lines(s) =~= ls);
    } else {
        assert(lines(unlines(ls)) =~= ls);
    }
}

// ───────────────────────── executable helpers ─────────────────────────

/// Appends one character to a string (`String::push`).
#[verifier::external_body]
pub(crate) fn push_char(s: &mut String, c: char)
    ensures
        final(s)@ == old(s)@.push(c),
{
    s.push(c);
}

/// Copies the characters of `s` into a vector.
pub fn chars_of(s: &str) -> (v: Vec<char>)
    ensures
        v@ == s@,
{
    let mut v: Vec<char> = Vec::new();
    for c in it: s.chars()
        invariant
            v@ == it.seq().take(it.index() as int),
            it.seq() == s@,
    {
        v.push(c);
    }
    v
}

/// Builds a string from characters.
pub fn string_of(v: &Vec<char>) -> (s: String)
    ensures
        s@ == v@,
{
    let mut s = String::new();
    let mut i: usize = 0;
    while i < v.len()
        invariant
            i <= v.len(),
            s@ == v@.take(i as int),
        decreases v.len() - i,
    {
        push_char(&mut s, v[i]);
        assert(v@.take(i + 1) =~= v@.take(i as int).push(v@[i as int]));
        i = i + 1;
    }
    assert(v@.take(v.len() as int) =~= v@);
    s
}

/// Appends the characters of `src` to `dst`.
pub fn extend_chars(dst: &mut Vec<char>, src: &Vec<char>)
    ensures
        final(dst)@ == old(dst)@ + src@,
{
    let mut i: usize = 0;
    while i < src.len()
        invariant
            i <= src.len(),
            dst@ == old(dst)@ + src@.take(i as int),
        decreases src.len() - i,
    {
        dst.push(src[i]);
        assert(src@.take(i + 1) =~= src@.take(i as int).push(src@[i as int]));
        i = i + 1;
    }
    assert(src@.take(src.len() as int) =~= src@);
}

/// Appends the characters of a string slice to a vector.
pub fn extend_str(dst: &mut Vec<char>, src: &str)
    ensures
        final(dst)@ == old(dst)@ + src@,
{
    let cs = chars_of(src);
    extend_chars(dst, &cs);
}

/// A copy of `v[lo..hi]`.
pub fn sub_chars(v: &Vec<char>, lo: usize, hi: usize) -> (r: Vec<char>)
    requires
        lo <= hi <= v.len(),
    ensures
        r@ == v@.subrange(lo as int, hi as int),
{
    let mut r: Vec<char> = Vec::new();
    let mut i = lo;
    while i < hi
        invariant
            lo <= i <= hi <= v.len(),
            r@ == v@.subrange(lo as int, i as int),
        decreases hi - i,
    {
        r.push(v[i]);
        assert(v@.subrange(lo as int, i + 1) =~= v@.subrange(lo as int, i as int).push(
            v@[i as int],
        ));
        i = i + 1;
    }
    r
}

/// A copy of a character vector.
pub fn copy_chars(v: &Vec<char>) -> (r: Vec<char>)
    ensures
        r@ == v@,
{
    let r = sub_chars(v, 0, v.len());
    assert(v@.subrange(0, v.len() as int) =~= v@);
    r
}

/// Whether two character sequences are equal.
pub fn chars_eq(a: &Vec<char>, b: &Vec<char>) -> (r: bool)
    ensures
        r == (a@ == b@),
{
    if a.len() != b.len() {
        return false;
    }
    let mut i: usize = 0;
    while i < a.len()
        invariant
            i <= a.len() == b.len(),
            a@.take(i as int) == b@.take(i as int),
        decreases a.len() - i,
    {
        if a[i] != b[i] {
            assert(a@[i as int] != b@[i as int]);
            return false;
        }
        assert(a@.take(i + 1) =~= a@.take(i as int).push(a@[i as int]));
        assert(b@.take(i + 1) =~= b@.take(i as int).push(b@[i as int]));
        i = i + 1;
    }
    assert(a@.take(a.len() as int) =~= a@);
    assert(b@.take(b.len() as int) =~= b@);
    true
}

/// Whether `c` is whitespace (`char::is_whitespace`).
pub fn is_whitespace(c: char) -> (b: bool)
    ensures
        b == is_ws(c),
{
    let u = c as u32;
    (0x09 <= u && u <= 0x0d) || u == 0x20 || u == 0x85 || u == 0xa0 || u == 0x1680 || (0x2000 <= u
        && u <= 0x200a) || u == 0x2028 || u == 0x2029 || u == 0x202f || u == 0x205f || u == 0x3000
}

/// `v` without leading whitespace.
pub fn trim_start_chars(v: &Vec<char>) -> (r: Vec<char>)
    ensures
        r@ == trim_start(v@),
{
    let mut i: usize = 0;
    while i < v.len() && is_whitespace(v[i])
        invariant
            i <= v.len(),
            forall|j: int| 0 <= j < i ==> is_ws(#[trigger] v@[j]),
        decreases v.len() - i,
    {
        i = i + 1;
    }
    proof {
        lemma_trim_start_skip(v@, i as int);
        assert(v@.skip(i as int) =~= v@.subrange(i as int, v.len() as int));
    }
    sub_chars(v, i, v.len())
}

/// `v` without trailing whitespace.
pub fn trim_end_chars(v: &Vec<char>) -> (r: Vec<char>)
    ensures
        r@ == trim_end(v@),
{
    let mut i: usize = v.len();
    while i > 0 && is_whitespace(v[i - 1])
        invariant
            i <= v.len(),
            forall|j: int| i <= j < v.len() ==> is_ws(#[trigger] v@[j]),
        decreases i,
    {
        i = i - 1;
    }
    proof {
        lemma_trim_end_take(v@, i as int);
        assert(v@.take(i as int) =~= v@.subrange(0, i as int));
    }
    sub_chars(v, 0, i)
}

/// `v` without leading and trailing whitespace.
pub fn trim_chars(v: &Vec<char>) -> (r: Vec<char>)
    ensures
        r@ == trim(v@),
{
    let t = trim_start_chars(v);
    trim_end_chars(&t)
}

/// Whether a string is empty or whitespace only.
pub fn is_blank(v: &Vec<char>) -> (b: bool)
    ensures
        b == (trim(v@).len() == 0),
{
    let t = trim_chars(v);
    t.len() == 0
}

/// The pieces of `s` between occurrences of `c` (`str::split`).
pub fn split_chars(s: &Vec<char>, c: char) -> (r: Vec<Vec<char>>)
    ensures
        vv(r@) == split_on(s@, c),
{
    let mut done: Vec<Vec<char>> = Vec::new();
    let mut cur: Vec<char> = Vec::new();
    let mut i: usize = 0;
    while i < s.len()
        invariant
            i <= s.len(),
            split_on(s@.take(i as int), c) == vv(done@).push(cur@),
        decreases s.len() - i,
    {
        let ghost prev = s@.take(i as int);
        let ghost old_done = vv(done@);
        let ghost old_cur = cur@;
        assert(s@.take(i + 1).drop_last() =~= prev);
        assert(s@.take(i + 1).last() == s@[i as int]);
        if s[i] == c {
            done.push(cur);
            cur = Vec::new();
            assert(vv(done@) =~= old_done.push(old_cur));
        } else {
            cur.push(s[i]);
        }
        i = i + 1;
        assert(split_on(s@.take(i as int), c) =~= vv(done@).push(cur@));
    }
    assert(s@.take(s.len() as int) =~= s@);
    let ghost d = vv(done@);
    done.push(cur);
    assert(vv(done@) =~= d.push(cur@));
    done
}

/// The lines of `s`, as `str::lines` yields them.
pub fn split_lines(s: &Vec<char>) -> (r: Vec<Vec<char>>)
    ensures
        vv(r@) == lines(s@),
{
    let pieces = split_chars(s, '\n');
    let ghost p = split_on(s@, '\n');
    proof {
        lemma_split_nonempty(s@, '\n');
    }
    let last = pieces.len() - 1;
    // Every piece but the last ended at a newline: strip one carriage return.
    let mut out: Vec<Vec<char>> = Vec::new();
    let mut k: usize = 0;
    while k < last
        invariant
            k <= last,
            last == pieces.len() - 1,
            p == vv(pieces@),
            vv(out@) == Seq::new(k as nat, |j: int| strip_cr(p[j])),
        decreases last - k,
    {
        let piece = &pieces[k];
        let n = piece.len();
        let line = if n > 0 && piece[n - 1] == '\r' {
            sub_chars(piece, 0, n - 1)
        } else {
            copy_chars(piece)
        };
        proof {
            assert(p[k as int] == piece@);
            if n > 0 && piece@[n - 1] == '\r' {
                assert(piece@.drop_last() =~= piece@.subrange(0, n - 1));
            }
        }
        assert(line@ == strip_cr(p[k as int]));
        let ghost old_out = vv(out@);
        out.push(line);
        assert(vv(out@) =~= old_out.push(strip_cr(p[k as int])));
        k = k + 1;
        assert(vv(out@) =~= Seq::new(k as nat, |j: int| strip_cr(p[j])));
    }
    let ghost before = vv(out@);
    if s.len() > 0 && s[s.len() - 1] != '\n' {
        out.push(copy_chars(&pieces[last]));
        assert(vv(out@) =~= before.push(p.last()));
    }
    proof {
        if s.len() == 0 {
            assert(p =~= seq![Seq::<char>::empty()]);
        }
        assert(vv(out@) =~= lines(s@));
    }
    out
}

} // verus!

verus! {

pub fn digit_of(d: u128) -> (c: char)
    requires
        d < 10,
    ensures
        c == digit_char(d as nat),
{
    if d == 0 {
        '0'
    } else if d == 1 {
        '1'
    } else if d == 2 {
        '2'
    } else if d == 3 {
        '3'
    } else if d == 4 {
        '4'
    } else if d == 5 {
        '5'
    } else if d == 6 {
        '6'
    } else if d == 7 {
        '7'
    } else if d == 8 {
        '8'
    } else {
        '9'
    }
}

/// The decimal digits of `n`.
pub fn digits_of(n: u128) -> (v: Vec<char>)
    ensures
        v@ == digits(n as nat),
    decreases n,
{
    if n < 10 {
        let mut v = Vec::new();
        v.push(digit_of(n));
        assert(v@ =~= digits(n as nat));
        v
    } else {
        let mut v = digits_of(n / 10);
        v.push(digit_of(n % 10));
        v
    }
}

/// `n` as `Display` writes it.
pub fn decimal_of(n: i64) -> (v: Vec<char>)
    ensures
        v@ == decimal(n as int),
{
    if n < 0 {
        let m: u128 = if n == i64::MIN {
            9223372036854775808u128
        } else {
            (-n) as u128
        };
        let mut v = Vec::new();
        v.push('-');
        let d = digits_of(m);
        extend_chars(&mut v, &d);
        assert(v@ =~= decimal(n as int));
        v
    } else {
        digits_of(n as u128)
    }
}

/// `n` as a string, as `to_string` writes it.
pub fn int_to_string(n: i64) -> (s: String)
    ensures
        s@ == decimal(n as int),
{
    string_of(&decimal_of(n))
}

/// `n` as a string, as `to_string` writes it.
pub fn nat_to_string(n: u128) -> (s: String)
    ensures
        s@ == digits(n as nat),
{
    string_of(&digits_of(n))
}

/// Appends a string slice to a string.
pub fn push_str(s: &mut String, t: &str)
    ensures
        final(s)@ == old(s)@ + t@,
{
    s.append(t);
}

/// Whether `needle` occurs in `hay`.
pub fn find_in(hay: &Vec<char>, needle: &Vec<char>) -> (r: Option<usize>)
    ensures
        r is None <==> !contains(hay@, needle@),
        r matches Some(i) ==> occurs_at(hay@, needle@, i as int) && forall|j: int|
            0 <= j < i ==> !occurs_at(hay@, needle@, j),
{
    if needle.len() > hay.len() {
        assert forall|i: int| !occurs_at(hay@, needle@, i) by {}
        return None;
    }
    let last = hay.len() - needle.len();
    let mut i: usize = 0;
    while i <= last
        invariant
            needle.len() <= hay.len(),
            last == hay.len() - needle.len(),
            i <= last + 1,
            forall|j: int| 0 <= j < i ==> !occurs_at(hay@, needle@, j),
        decreases last + 1 - i,
    {
        let mut k: usize = 0;
        while k < needle.len() && hay[i + k] == needle[k]
            invariant
                i + needle.len() <= hay.len(),
                k <= needle.len(),
                hay@.subrange(i as int, i + k) == needle@.take(k as int),
            decreases needle.len() - k,
        {
            assert(hay@.subrange(i as int, i + k + 1) =~= hay@.subrange(i as int, i + k).push(
                hay@[i + k],
            ));
            assert(needle@.take(k + 1) =~= needle@.take(k as int).push(needle@[k as int]));
            k = k + 1;
        }
        if k == needle.len() {
            assert(needle@.take(needle.len() as int) =~= needle@);
            assert(occurs_at(hay@, needle@, i as int));
            return Some(i);
        }
        assert(hay@.subrange(i as int, i + needle.len())[k as int] != needle@[k as int]);
        i = i + 1;
    }
    assert forall|j: int| !occurs_at(hay@, needle@, j) by {
        if 0 <= j && j + needle.len() <= hay.len() {
            assert(j < i);
        }
    }
    None
}

/// Whether `needle` occurs in `hay` (`str::contains`).
pub fn str_contains(hay: &str, needle: &str) -> (b: bool)
    ensures
        b == contains(hay@, needle@),
{
    let h = chars_of(hay);
    let n = chars_of(needle);
    find_in(&h, &n).is_some()
}

/// Whether `hay` begins with `prefix` (`str::starts_with`).
pub fn chars_start_with(hay: &Vec<char>, prefix: &Vec<char>) -> (b: bool)
    ensures
        b == starts_with(hay@, prefix@),
{
    if prefix.len() > hay.len() {
        return false;
    }
    let head = sub_chars(hay, 0, prefix.len());
    assert(hay@.take(prefix.len() as int) =~= head@);
    chars_eq(&head, prefix)
}

} // verus!

verus! {

/// The position of the first occurrence of `needle` in `hay` (`str::find`).
#[verifier::opaque]
pub open spec fn first_occurrence(hay: Seq<char>, needle: Seq<char>) -> Option<int> {
    if contains(hay, needle) {
        Some(
            choose|i: int|
                occurs_at(hay, needle, i) && forall|j: int| 0 <= j < i ==> !occurs_at(hay, needle, j),
        )
    } else {
        None
    }
}

/// The position of the first occurrence of `needle` in `hay`.
pub fn find_first(hay: &Vec<char>, needle: &Vec<char>) -> (r: Option<usize>)
    ensures
        match r {
            Some(i) => first_occurrence(hay@, needle@) == Some(i as int),
            None => first_occurrence(hay@, needle@) is None,
        },
        r matches Some(i) ==> occurs_at(hay@, needle@, i as int),
{
    let r = find_in(hay, needle);
    proof {
        reveal(first_occurrence);
        if let Some(i) = r {
            let c = choose|c: int|
                occurs_at(hay@, needle@, c) && forall|j: int|
                    0 <= j < c ==> !occurs_at(hay@, needle@, j);
            assert(occurs_at(hay@, needle@, c));
            if c < i {
                assert(!occurs_at(hay@, needle@, c));
            }
            if c > i {
                assert(!occurs_at(hay@, needle@, i as int));
            }
        }
    }
    r
}

} // verus!

verus! {

// ───────────────────────── more splitting ─────────────────────────

/// The pieces of `s` between the non-overlapping occurrences of `sep`, found
/// from the left (`str::split` with a string pattern).
pub open spec fn split_str(s: Seq<char>, sep: Seq<char>) -> Seq<Seq<char>>
    decreases s.len(),
{
    if sep.len() == 0 {
        seq![s]
    } else {
        match first_occurrence(s, sep) {
            Some(i) => if 0 <= i && i + sep.len() <= s.len() {
                seq![s.take(i)] + split_str(s.skip(i + sep.len()), sep)
            } else {
                seq![s]
            },
            None => seq![s],
        }
    }
}

/// The pieces of `s` between whitespace characters (empty ones included).
pub open spec fn split_ws(s: Seq<char>) -> Seq<Seq<char>>
    decreases s.len(),
{
    if s.len() == 0 {
        seq![Seq::<char>::empty()]
    } else {
        let p = split_ws(s.drop_last());
        if is_ws(s.last()) {
            p.push(Seq::<char>::empty())
        } else {
            p.update(p.len() - 1, p.last().push(s.last()))
        }
    }
}

/// The non-empty sequences of `ps`, in order.
pub open spec fn non_empty(ps: Seq<Seq<char>>) -> Seq<Seq<char>>
    decreases ps.len(),
{
    if ps.len() == 0 {
        Seq::empty()
    } else if ps.last().len() > 0 {
        non_empty(ps.drop_last()).push(ps.last())
    } else {
        non_empty(ps.drop_last())
    }
}

/// The words of `s` (`str::split_whitespace`).
pub open spec fn words(s: Seq<char>) -> Seq<Seq<char>> {
    non_empty(split_ws(s))
}

/// The items joined with `sep` between them (`join`).
pub open spec fn join_with(items: Seq<Seq<char>>, sep: Seq<char>) -> Seq<char>
    decreases items.len(),
{
    if items.len() == 0 {
        Seq::empty()
    } else if items.len() == 1 {
        items[0]
    } else {
        join_with(items.drop_last(), sep) + sep + items.last()
    }
}

/// Whether no item holds the character `c`.
pub open spec fn free_of(items: Seq<Seq<char>>, c: char) -> bool {
    forall|k: int, j: int| 0 <= k < items.len() && 0 <= j < items[k].len() ==> #[trigger] items[k][j] != c
}

proof fn lemma_join_front(items: Seq<Seq<char>>, sep: Seq<char>)
    requires
        items.len() >= 2,
    ensures
        join_with(items, sep) == items[0] + sep + join_with(items.skip(1), sep),
    decreases items.len(),
{
    let d = items.drop_last();
    assert(join_with(items, sep) == join_with(d, sep) + sep + items.last());
    if items.len() == 2 {
        assert(items.skip(1) =~= seq![items[1]]);
        assert(d =~= seq![items[0]]);
        assert(join_with(d, sep) == items[0]);
        assert(join_with(items.skip(1), sep) == items[1]);
    } else {
        lemma_join_front(d, sep);
        assert(d.skip(1) =~= items.skip(1).drop_last());
        assert(items.skip(1).last() == items.last());
        assert(join_with(items.skip(1), sep) == join_with(d.skip(1), sep) + sep + items.last());
        assert(d[0] == items[0]);
        assert((d[0] + sep + join_with(d.skip(1), sep)) + sep + items.last() =~= d[0] + sep + (
        join_with(d.skip(1), sep) + sep + items.last()));
    }
}

proof fn lemma_first_occurrence_at(s: Seq<char>, sep: Seq<char>, l: int)
    requires
        sep.len() > 0,
        occurs_at(s, sep, l),
        forall|j: int| 0 <= j < l ==> s[j] != sep[0],
    ensures
        first_occurrence(s, sep) == Some(l),
{
    assert forall|j: int| 0 <= j < l implies !occurs_at(s, sep, j) by {
        if occurs_at(s, sep, j) {
            assert(s.subrange(j, j + sep.len())[0] == s[j]);
        }
    }
    reveal(first_occurrence);
    assert(contains(s, sep));
    let i = choose|i: int| occurs_at(s, sep, i) && forall|j: int| 0 <= j < i ==> !occurs_at(s, sep, j);
    assert(occurs_at(s, sep, i));
    if i < l {
        assert(!occurs_at(s, sep, i));
    }
    if i > l {
        assert(!occurs_at(s, sep, l));
    }
}

/// Items free of the separator's first character, joined with it, split
/// back into the same items.
pub proof fn lemma_split_join(items: Seq<Seq<char>>, sep: Seq<char>)
    requires
        items.len() >= 1,
        sep.len() > 0,
        free_of(items, sep[0]),
    ensures
        split_str(join_with(items, sep), sep) == items,
    decreases items.len(),
{
    let s = join_with(items, sep);
    if items.len() == 1 {
        assert(s == items[0]);
        if contains(s, sep) {
            let i = choose|i: int| occurs_at(s, sep, i);
            assert(s.subrange(i, i + sep.len())[0] == s[i]);
            assert(items[0][i] == sep[0]);
        }
        assert(!contains(s, sep));
        assert(first_occurrence(s, sep) is None) by {
            reveal(first_occurrence);
        }
        assert(seq![s] =~= items);
    } else {
        lemma_join_front(items, sep);
        let a = items[0];
        let rest = items.skip(1);
        let l = a.len() as int;
        assert forall|k: int, j: int| 0 <= k < rest.len() && 0 <= j < rest[k].len() implies #[trigger] rest[k][j]
            != sep[0] by {
            assert(rest[k] == items[k + 1]);
        }
        assert(s.subrange(l, l + sep.len()) =~= sep);
        assert forall|j: int| 0 <= j < l implies s[j] != sep[0] by {
            assert(s[j] == a[j]);
            assert(items[0][j] != sep[0]);
        }
        lemma_first_occurrence_at(s, sep, l);
        assert(s.take(l) =~= a);
        assert(s.skip(l + sep.len()) =~= join_with(rest, sep));
        lemma_split_join(rest, sep);
        assert(0 <= l && l + sep.len() <= s.len());
        assert(split_str(s, sep) == seq![s.take(l)] + split_str(s.skip(l + sep.len()), sep));
        assert(seq![a] + rest =~= items);
    }
}

pub proof fn lemma_split_ws_nonempty(s: Seq<char>)
    ensures
        split_ws(s).len() >= 1,
    decreases s.len(),
{
    if s.len() > 0 {
        lemma_split_ws_nonempty(s.drop_last());
    }
}

/// The pieces of `s` between occurrences of `sep`.
pub fn split_by(s: &Vec<char>, sep: &Vec<char>) -> (r: Vec<Vec<char>>)
    requires
        sep.len() > 0,
    ensures
        vv(r@) == split_str(s@, sep@),
{
    let mut done: Vec<Vec<char>> = Vec::new();
    let mut rest = copy_chars(s);
    loop
        invariant
            sep.len() > 0,
            vv(done@) + split_str(rest@, sep@) == split_str(s@, sep@),
        decreases rest.len(),
    {
        let found = find_first(&rest, sep);
        match found {
            Some(i) => {
                let n = rest.len();
                let head = sub_chars(&rest, 0, i);
                let tail = sub_chars(&rest, i + sep.len(), n);
                proof {
                    assert(head@ =~= rest@.take(i as int));
                    assert(tail@ =~= rest@.skip(i + sep@.len()));
                    let ghost d = vv(done@);
                    assert(split_str(rest@, sep@) == seq![head@] + split_str(tail@, sep@));
                    assert(d + split_str(rest@, sep@) =~= d.push(head@) + split_str(tail@, sep@));
                }
                let ghost d0 = vv(done@);
                done.push(head);
                assert(vv(done@) =~= d0.push(head@));
                rest = tail;
            },
            None => {
                let ghost d0 = vv(done@);
                proof {
                    assert(split_str(rest@, sep@) == seq![rest@]);
                }
                done.push(rest);
                assert(vv(done@) =~= d0 + seq![vv(done@).last()]);
                return done;
            },
        }
    }
}

/// The pieces of `s` between whitespace characters.
pub fn split_whitespace_pieces(s: &Vec<char>) -> (r: Vec<Vec<char>>)
    ensures
        vv(r@) == split_ws(s@),
{
    let mut done: Vec<Vec<char>> = Vec::new();
    let mut cur: Vec<char> = Vec::new();
    let mut i: usize = 0;
    while i < s.len()
        invariant
            i <= s.len(),
            split_ws(s@.take(i as int)) == vv(done@).push(cur@),
        decreases s.len() - i,
    {
        let ghost old_done = vv(done@);
        let ghost old_cur = cur@;
        assert(s@.take(i + 1).drop_last() =~= s@.take(i as int));
        assert(s@.take(i + 1).last() == s@[i as int]);
        if is_whitespace(s[i]) {
            done.push(cur);
            cur = Vec::new();
            assert(vv(done@) =~= old_done.push(old_cur));
        } else {
            cur.push(s[i]);
        }
        i = i + 1;
        assert(split_ws(s@.take(i as int)) =~= vv(done@).push(cur@));
    }
    assert(s@.take(s.len() as int) =~= s@);
    let ghost d = vv(done@);
    done.push(cur);
    assert(vv(done@) =~= d.push(cur@));
    done
}

/// The words of `s` (`str::split_whitespace`).
pub fn words_of(s: &Vec<char>) -> (r: Vec<Vec<char>>)
    ensures
        vv(r@) == words(s@),
{
    let pieces = split_whitespace_pieces(s);
    let ghost p = vv(pieces@);
    let mut out: Vec<Vec<char>> = Vec::new();
    let mut i: usize = 0;
    while i < pieces.len()
        invariant
            i <= pieces.len(),
            p == vv(pieces@),
            vv(out@) == non_empty(p.take(i as int)),
        decreases pieces.len() - i,
    {
        assert(p.take(i + 1).drop_last() =~= p.take(i as int));
        assert(p.take(i + 1).last() == pieces@[i as int]@);
        if pieces[i].len() > 0 {
            let ghost o = vv(out@);
            out.push(copy_chars(&pieces[i]));
            assert(vv(out@) =~= o.push(pieces@[i as int]@));
        }
        i = i + 1;
    }
    assert(p.take(pieces.len() as int) =~= p);
    out
}

/// The items joined with `sep` between them.
pub fn join_strings(items: &Vec<String>, sep: &str) -> (s: String)
    ensures
        s@ == join_with(items@.map_values(|x: String| x@), sep@),
{
    let ghost iv = items@.map_values(|x: String| x@);
    let mut s = String::new();
    let mut i: usize = 0;
    while i < items.len()
        invariant
            i <= items.len(),
            iv == items@.map_values(|x: String| x@),
            s@ == join_with(iv.take(i as int), sep@),
        decreases items.len() - i,
    {
        assert(iv.take(i + 1).drop_last() =~= iv.take(i as int));
        if i > 0 {
            push_str(&mut s, sep);
        }
        push_str(&mut s, items[i].as_str());
        proof {
            if i == 0 {
                assert(iv.take(1) =~= seq![iv[0]]);
                assert(s@ =~= iv[0]);
            }
        }
        i = i + 1;
    }
    assert(iv.take(items.len() as int) =~= iv);
    s
}

/// `s` with each of the characters in `from` replaced by `to`.
pub open spec fn replace_chars(s: Seq<char>, from: Seq<char>, to: char) -> Seq<char> {
    Seq::new(s.len(), |i: int| if from.contains(s[i]) { to } else { s[i] })
}

pub fn replace_chars_exec(s: &Vec<char>, from: &Vec<char>, to: char) -> (r: Vec<char>)
    ensures
        r@ == replace_chars(s@, from@, to),
{
    let mut r: Vec<char> = Vec::new();
    let mut i: usize = 0;
    while i < s.len()
        invariant
            i <= s.len(),
            r@ == replace_chars(s@, from@, to).take(i as int),
        decreases s.len() - i,
    {
        let mut hit = false;
        let mut k: usize = 0;
        while k < from.len()
            invariant
                i < s.len(),
                k <= from.len(),
                hit == exists|j: int| 0 <= j < k && from@[j] == s@[i as int],
            decreases from.len() - k,
        {
            if from[k] == s[i] {
                hit = true;
            }
            k = k + 1;
        }
        assert(hit == from@.contains(s@[i as int]));
        r.push(if hit { to } else { s[i] });
        assert(r@ =~= replace_chars(s@, from@, to).take(i + 1));
        i = i + 1;
    }
    assert(r@ =~= replace_chars(s@, from@, to));
    r
}

// ───────────────────────── std case mapping ─────────────────────────

/// What `str::to_uppercase` returns for a text.
pub uninterp spec fn uppercase_of(s: Seq<char>) -> Seq<char>;

/// What `str::to_lowercase` returns for a text.
pub uninterp spec fn lowercase_of(s: Seq<char>) -> Seq<char>;

/// `str::to_uppercase`: the contract claims the text `uppercase_of` names.
#[verifier::external_body]
pub(crate) fn to_uppercase(s: &str) -> (r: String)
    ensures
        r@ == uppercase_of(s@),
{
    s.to_uppercase()
}

/// `str::to_lowercase`: the contract claims the text `lowercase_of` names.
#[verifier::external_body]
pub(crate) fn to_lowercase(s: &str) -> (r: String)
    ensures
        r@ == lowercase_of(s@),
{
    s.to_lowercase()
}

} // verus!
