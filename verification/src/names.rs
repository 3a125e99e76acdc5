//! What the VRAM oracle reads from a model's file name: its quantisation
//! and the word that gives its parameter count; and the file name of a path.
use vstd::prelude::*;
use crate::text::{
    chars_eq, chars_of, contains, split_chars, split_on, str_contains, string_of, sub_chars,
    to_uppercase, uppercase_of, vv, words, words_of, replace_chars, replace_chars_exec,
};

verus! {

// ───────────────────────── quantisation ─────────────────────────

/// Bits per weight, in hundredths, that the oracle assumes for the
/// quantisation named in an upper-cased file name.
pub open spec fn bpw_hundredths_spec(up: Seq<char>) -> u32 {
    if contains(up, "Q2_K"@) {
        260
    } else if contains(up, "Q3_K"@) || contains(up, "IQ3"@) {
        350
    } else if contains(up, "IQ4_XS"@) {
        430
    } else if contains(up, "Q4_K"@) || contains(up, "IQ4"@) {
        485
    } else if contains(up, "Q5_K"@) || contains(up, "Q5_"@) {
        550
    } else if contains(up, "Q6_K"@) {
        660
    } else if contains(up, "Q8_0"@) {
        850
    } else if contains(up, "F16"@) || contains(up, "BF16"@) {
        1600
    } else {
        500
    }
}

/// Bits per weight of a model file, in hundredths (so 4.85 is 485).
pub fn bpw_hundredths(name: &str) -> (r: u32)
    ensures
        r == bpw_hundredths_spec(uppercase_of(name@)),
{
    let up = to_uppercase(name);
    bpw_of_upper(up.as_str())
}

/// Bits per weight, in hundredths, for an upper-cased file name.
pub fn bpw_of_upper(u: &str) -> (r: u32)
    ensures
        r == bpw_hundredths_spec(u@),
{
    if str_contains(u, "Q2_K") {
        260
    } else if str_contains(u, "Q3_K") || str_contains(u, "IQ3") {
        350
    } else if str_contains(u, "IQ4_XS") {
        430
    } else if str_contains(u, "Q4_K") || str_contains(u, "IQ4") {
        485
    } else if str_contains(u, "Q5_K") || str_contains(u, "Q5_") {
        550
    } else if str_contains(u, "Q6_K") {
        660
    } else if str_contains(u, "Q8_0") {
        850
    } else if str_contains(u, "F16") || str_contains(u, "BF16") {
        1600
    } else {
        500
    }
}

/// Bits per weight, in tenths, that the hot-swap deck's estimate assumes:
/// by the first of Q2 … Q8 in the upper-cased name, else 16 bits.
pub open spec fn quant_bits_tenths_spec(up: Seq<char>) -> u32 {
    if contains(up, "Q2"@) {
        25
    } else if contains(up, "Q3"@) {
        35
    } else if contains(up, "Q4"@) {
        45
    } else if contains(up, "Q5"@) {
        55
    } else if contains(up, "Q6"@) {
        65
    } else if contains(up, "Q8"@) {
        85
    } else {
        160
    }
}

pub fn quant_bits_tenths(name: &str) -> (r: u32)
    ensures
        r == quant_bits_tenths_spec(uppercase_of(name@)),
{
    let up = to_uppercase(name);
    quant_bits_of_upper(up.as_str())
}

/// Bits per weight, in tenths, for an upper-cased file name.
pub fn quant_bits_of_upper(u: &str) -> (r: u32)
    ensures
        r == quant_bits_tenths_spec(u@),
{
    if str_contains(u, "Q2") {
        25
    } else if str_contains(u, "Q3") {
        35
    } else if str_contains(u, "Q4") {
        45
    } else if str_contains(u, "Q5") {
        55
    } else if str_contains(u, "Q6") {
        65
    } else if str_contains(u, "Q8") {
        85
    } else {
        160
    }
}

// ───────────────────────── parameter-count words ─────────────────────────

/// `w` without its trailing `B`s (`trim_end_matches('B')`).
pub open spec fn strip_trailing_b(w: Seq<char>) -> Seq<char>
    decreases w.len(),
{
    if w.len() > 0 && w.last() == 'B' {
        strip_trailing_b(w.drop_last())
    } else {
        w
    }
}

/// For each word that ends in `B`, the word without its `B`s, in order.
pub open spec fn size_words(ws: Seq<Seq<char>>, all_bs: bool) -> Seq<Seq<char>>
    decreases ws.len(),
{
    if ws.len() == 0 {
        Seq::empty()
    } else {
        let prev = size_words(ws.drop_last(), all_bs);
        let w = ws.last();
        if w.len() > 0 && w.last() == 'B' {
            prev.push(
                if all_bs {
                    strip_trailing_b(w)
                } else {
                    w.drop_last()
                },
            )
        } else {
            prev
        }
    }
}

/// The candidates for the parameter count (in billions) in a file name, as
/// the control API's footprint estimate reads them: in the upper-cased name
/// with `-`, `_` and `.` as spaces, each word ending in `B`, without that
/// `B`. The first one that parses as a number in [0.3, 2000) counts.
pub open spec fn params_candidates_spec(name: Seq<char>) -> Seq<Seq<char>> {
    size_words(words(replace_chars(uppercase_of(name), seq!['-', '_', '.'], ' ')), false)
}

/// The candidates for the parameter count as the dashboard's hot-swap deck
/// reads them: in the upper-cased name with `-` and `_` as spaces, each word
/// ending in `B`, without its trailing `B`s.
pub open spec fn size_tokens_spec(name: Seq<char>) -> Seq<Seq<char>> {
    size_words(words(replace_chars(uppercase_of(name), seq!['-', '_'], ' ')), true)
}

fn strip_trailing_b_exec(w: &Vec<char>) -> (r: Vec<char>)
    ensures
        r@ == strip_trailing_b(w@),
{
    let mut n = w.len();
    assert(w@.take(n as int) =~= w@);
    while n > 0 && w[n - 1] == 'B'
        invariant
            n <= w.len(),
            strip_trailing_b(w@) == strip_trailing_b(w@.take(n as int)),
        decreases n,
    {
        assert(w@.take(n as int).drop_last() =~= w@.take(n - 1));
        n = n - 1;
    }
    assert(w@.take(n as int) =~= w@.subrange(0, n as int));
    sub_chars(w, 0, n)
}

fn size_words_exec(ws: &Vec<Vec<char>>, all_bs: bool) -> (r: Vec<String>)
    ensures
        r@.map_values(|s: String| s@) == size_words(vv(ws@), all_bs),
{
    let ghost wv = vv(ws@);
    let mut out: Vec<String> = Vec::new();
    let mut i: usize = 0;
    while i < ws.len()
        invariant
            i <= ws.len(),
            wv == vv(ws@),
            out@.map_values(|s: String| s@) == size_words(wv.take(i as int), all_bs),
        decreases ws.len() - i,
    {
        assert(wv.take(i + 1).drop_last() =~= wv.take(i as int));
        assert(wv.take(i + 1).last() == ws@[i as int]@);
        let w = &ws[i];
        let n = w.len();
        if n > 0 && w[n - 1] == 'B' {
            let t = if all_bs {
                strip_trailing_b_exec(w)
            } else {
                let t = sub_chars(w, 0, n - 1);
                assert(t@ =~= w@.drop_last());
                t
            };
            let ghost o = out@.map_values(|s: String| s@);
            out.push(string_of(&t));
            assert(out@.map_values(|s: String| s@) =~= o.push(t@));
        }
        i = i + 1;
    }
    assert(wv.take(ws.len() as int) =~= wv);
    out
}

fn size_words_of(up: &str, seps: &Vec<char>, all_bs: bool) -> (r: Vec<String>)
    ensures
        r@.map_values(|s: String| s@) == size_words(words(replace_chars(up@, seps@, ' ')), all_bs),
{
    let cs = chars_of(up);
    let spaced = replace_chars_exec(&cs, seps, ' ');
    let ws = words_of(&spaced);
    size_words_exec(&ws, all_bs)
}

/// The parameter-count candidates of a file name (see
/// `params_candidates_spec`).
pub fn params_candidates(name: &str) -> (r: Vec<String>)
    ensures
        r@.map_values(|s: String| s@) == params_candidates_spec(name@),
{
    let up = to_uppercase(name);
    params_candidates_of_upper(up.as_str())
}

/// The parameter-count candidates of an upper-cased file name.
pub fn params_candidates_of_upper(up: &str) -> (r: Vec<String>)
    ensures
        r@.map_values(|s: String| s@) == size_words(
            words(replace_chars(up@, seq!['-', '_', '.'], ' ')),
            false,
        ),
{
    let mut seps: Vec<char> = Vec::new();
    seps.push('-');
    seps.push('_');
    seps.push('.');
    assert(seps@ =~= seq!['-', '_', '.']);
    size_words_of(up, &seps, false)
}

/// The size words of a model name (see `size_tokens_spec`).
pub fn size_tokens(name: &str) -> (r: Vec<String>)
    ensures
        r@.map_values(|s: String| s@) == size_tokens_spec(name@),
{
    let up = to_uppercase(name);
    size_tokens_of_upper(up.as_str())
}

/// The size words of an upper-cased model name.
pub fn size_tokens_of_upper(up: &str) -> (r: Vec<String>)
    ensures
        r@.map_values(|s: String| s@) == size_words(
            words(replace_chars(up@, seq!['-', '_'], ' ')),
            true,
        ),
{
    let mut seps: Vec<char> = Vec::new();
    seps.push('-');
    seps.push('_');
    assert(seps@ =~= seq!['-', '_']);
    size_words_of(up, &seps, true)
}

// ───────────────────────── file names ─────────────────────────

/// The last component of a path that is a name: pieces between `/` that are
/// neither empty nor `.`.
pub open spec fn last_name(pieces: Seq<Seq<char>>) -> Option<Seq<char>>
    decreases pieces.len(),
{
    if pieces.len() == 0 {
        None
    } else if pieces.last().len() > 0 && pieces.last() != "."@ {
        Some(pieces.last())
    } else {
        last_name(pieces.drop_last())
    }
}

/// The file name of a path, as `Path::file_name` gives it, or the path
/// itself when it has none (it ends in `..`, or is a root or `.`).
pub open spec fn basename_spec(s: Seq<char>) -> Seq<char> {
    match last_name(split_on(s, '/')) {
        Some(n) => if n == ".."@ {
            s
        } else {
            n
        },
        None => s,
    }
}

/// The file name of a model path.
pub fn basename(s: &str) -> (r: String)
    ensures
        r@ == basename_spec(s@),
{
    let cs = chars_of(s);
    let pieces = split_chars(&cs, '/');
    let ghost p = vv(pieces@);
    let dot = chars_of(".");
    let mut k = pieces.len();
    assert(p.take(k as int) =~= p);
    while k > 0 && (pieces[k - 1].len() == 0 || chars_eq(&pieces[k - 1], &dot))
        invariant
            k <= pieces.len(),
            p == vv(pieces@),
            dot@ == "."@,
            last_name(p) == last_name(p.take(k as int)),
        decreases k,
    {
        assert(p.take(k as int).drop_last() =~= p.take(k - 1));
        k = k - 1;
    }
    if k == 0 {
        assert(p.take(0) =~= Seq::<Seq<char>>::empty());
        return s.to_string();
    }
    assert(p.take(k as int).last() == pieces@[k - 1]@);
    let dotdot = chars_of("..");
    if chars_eq(&pieces[k - 1], &dotdot) {
        s.to_string()
    } else {
        string_of(&pieces[k - 1])
    }
}

/// The executable name of a process path: what follows its last `/`.
pub open spec fn exe_name_spec(path: Seq<char>) -> Seq<char> {
    split_on(path, '/').last()
}

pub fn exe_name(path: &str) -> (r: String)
    ensures
        r@ == exe_name_spec(path@),
{
    let cs = chars_of(path);
    let pieces = split_chars(&cs, '/');
    proof {
        crate::text::lemma_split_nonempty(path@, '/');
    }
    string_of(&pieces[pieces.len() - 1])
}

} // verus!

verus! {

// ───────────────────────── laws ─────────────────────────

proof fn lemma_last_name_is_piece(ps: Seq<Seq<char>>)
    ensures
        last_name(ps) matches Some(n) ==> ps.contains(n) && n.len() > 0 && n != "."@,
    decreases ps.len(),
{
    if ps.len() > 0 {
        lemma_last_name_is_piece(ps.drop_last());
        if !(ps.last().len() > 0 && ps.last() != "."@) {
            if let Some(n) = last_name(ps.drop_last()) {
                let m = choose|m: int| 0 <= m < ps.drop_last().len() && ps.drop_last()[m] == n;
                assert(ps[m] == n);
            }
        } else {
            assert(ps[ps.len() - 1] == ps.last());
        }
    }
}

/// The file name of a path occurs in the path, and taking the file name of
/// it again gives it back.
pub proof fn law_basename_is_a_stable_piece(s: Seq<char>)
    ensures
        contains(s, basename_spec(s)),
        basename_spec(basename_spec(s)) == basename_spec(s),
{
    let ps = split_on(s, '/');
    crate::text::lemma_split_pieces(s, '/');
    lemma_last_name_is_piece(ps);
    match last_name(ps) {
        Some(n) => {
            let m = choose|m: int| 0 <= m < ps.len() && ps[m] == n;
            assert(contains(s, ps[m]));
            if n != ".."@ {
                assert forall|j: int| 0 <= j < n.len() implies n[j] != '/' by {
                    assert(ps[m][j] != '/');
                }
                crate::text::lemma_split_whole(n, '/');
                assert(last_name(seq![n]) == Some(n)) by {
                    assert(seq![n].last() == n);
                }
            } else {
                assert(s.subrange(0, s.len() as int) =~= s);
                assert(crate::text::occurs_at(s, s, 0));
            }
        },
        None => {
            assert(s.subrange(0, s.len() as int) =~= s);
            assert(crate::text::occurs_at(s, s, 0));
        },
    }
}


/// The bits per weight the footprint oracle reads from a file name, by its
/// quantisation marker, the first of this list that the upper-cased name
/// holds winning: `Q2_K` 2.6, `Q3_K`/`IQ3` 3.5, `IQ4_XS` 4.3, `Q4_K`/`IQ4`
/// 4.85, `Q5_K`/`Q5_` 5.5, `Q6_K` 6.6, `Q8_0` 8.5, `F16`/`BF16` 16, and 5
/// without a marker; more bits for each later marker.
pub proof fn law_bits_per_weight_by_marker(up: Seq<char>)
    ensures
        contains(up, "Q2_K"@) ==> bpw_hundredths_spec(up) == 260,
        !contains(up, "Q2_K"@) && (contains(up, "Q3_K"@) || contains(up, "IQ3"@))
            ==> bpw_hundredths_spec(up) == 350,
        !contains(up, "Q2_K"@) && !contains(up, "Q3_K"@) && !contains(up, "IQ3"@) && contains(
            up,
            "IQ4_XS"@,
        ) ==> bpw_hundredths_spec(up) == 430,
        !contains(up, "Q2_K"@) && !contains(up, "Q3_K"@) && !contains(up, "IQ3"@) && !contains(
            up,
            "IQ4_XS"@,
        ) && (contains(up, "Q4_K"@) || contains(up, "IQ4"@)) ==> bpw_hundredths_spec(up) == 485,
        !contains(up, "Q2_K"@) && !contains(up, "Q3_K"@) && !contains(up, "IQ3"@) && !contains(
            up,
            "IQ4_XS"@,
        ) && !contains(up, "Q4_K"@) && !contains(up, "IQ4"@) && (contains(up, "Q5_K"@) || contains(
            up,
            "Q5_"@,
        )) ==> bpw_hundredths_spec(up) == 550,
        !contains(up, "Q2_K"@) && !contains(up, "Q3_K"@) && !contains(up, "IQ3"@) && !contains(
            up,
            "IQ4_XS"@,
        ) && !contains(up, "Q4_K"@) && !contains(up, "IQ4"@) && !contains(up, "Q5_K"@)
            && !contains(up, "Q5_"@) && contains(up, "Q6_K"@) ==> bpw_hundredths_spec(up) == 660,
        !contains(up, "Q2_K"@) && !contains(up, "Q3_K"@) && !contains(up, "IQ3"@) && !contains(
            up,
            "IQ4_XS"@,
        ) && !contains(up, "Q4_K"@) && !contains(up, "IQ4"@) && !contains(up, "Q5_K"@)
            && !contains(up, "Q5_"@) && !contains(up, "Q6_K"@) && contains(up, "Q8_0"@)
            ==> bpw_hundredths_spec(up) == 850,
        !contains(up, "Q2_K"@) && !contains(up, "Q3_K"@) && !contains(up, "IQ3"@) && !contains(
            up,
            "IQ4_XS"@,
        ) && !contains(up, "Q4_K"@) && !contains(up, "IQ4"@) && !contains(up, "Q5_K"@)
            && !contains(up, "Q5_"@) && !contains(up, "Q6_K"@) && !contains(up, "Q8_0"@) && (
        contains(up, "F16"@) || contains(up, "BF16"@)) ==> bpw_hundredths_spec(up) == 1600,
        !contains(up, "Q2_K"@) && !contains(up, "Q3_K"@) && !contains(up, "IQ3"@) && !contains(
            up,
            "IQ4_XS"@,
        ) && !contains(up, "Q4_K"@) && !contains(up, "IQ4"@) && !contains(up, "Q5_K"@)
            && !contains(up, "Q5_"@) && !contains(up, "Q6_K"@) && !contains(up, "Q8_0"@)
            && !contains(up, "F16"@) && !contains(up, "BF16"@) ==> bpw_hundredths_spec(up) == 500,
        260 <= bpw_hundredths_spec(up) <= 1600,
{
}

/// The bits per weight the hot-swap deck's estimate reads, by the first of
/// `Q2`…`Q8` that the upper-cased name holds: 2.5, 3.5, 4.5, 5.5, 6.5, 8.5,
/// and 16 without one.
pub proof fn law_quant_bits_by_marker(up: Seq<char>)
    ensures
        contains(up, "Q2"@) ==> quant_bits_tenths_spec(up) == 25,
        !contains(up, "Q2"@) && contains(up, "Q3"@) ==> quant_bits_tenths_spec(up) == 35,
        !contains(up, "Q2"@) && !contains(up, "Q3"@) && contains(up, "Q4"@)
            ==> quant_bits_tenths_spec(up) == 45,
        !contains(up, "Q2"@) && !contains(up, "Q3"@) && !contains(up, "Q4"@) && contains(up, "Q5"@)
            ==> quant_bits_tenths_spec(up) == 55,
        !contains(up, "Q2"@) && !contains(up, "Q3"@) && !contains(up, "Q4"@) && !contains(up, "Q5"@)
            && contains(up, "Q6"@) ==> quant_bits_tenths_spec(up) == 65,
        !contains(up, "Q2"@) && !contains(up, "Q3"@) && !contains(up, "Q4"@) && !contains(up, "Q5"@)
            && !contains(up, "Q6"@) && contains(up, "Q8"@) ==> quant_bits_tenths_spec(up) == 85,
        !contains(up, "Q2"@) && !contains(up, "Q3"@) && !contains(up, "Q4"@) && !contains(up, "Q5"@)
            && !contains(up, "Q6"@) && !contains(up, "Q8"@) ==> quant_bits_tenths_spec(up) == 160,
{
}

/// Whether a word ends in `B`.
pub open spec fn ends_in_b(w: Seq<char>) -> bool {
    w.len() > 0 && w.last() == 'B'
}

/// Stripping the trailing `B`s of a word leaves a prefix of it that does not
/// end in `B`, and only `B`s were taken off.
pub proof fn law_strip_trailing_b(w: Seq<char>)
    ensures
        !ends_in_b(strip_trailing_b(w)),
        strip_trailing_b(w).len() <= w.len(),
        w.take(strip_trailing_b(w).len() as int) == strip_trailing_b(w),
        forall|k: int| strip_trailing_b(w).len() <= k < w.len() ==> w[k] == 'B',
    decreases w.len(),
{
    if w.len() > 0 && w.last() == 'B' {
        law_strip_trailing_b(w.drop_last());
        let r = strip_trailing_b(w.drop_last());
        assert(w.take(r.len() as int) =~= w.drop_last().take(r.len() as int));
        assert forall|k: int| r.len() <= k < w.len() implies w[k] == 'B' by {
            if k < w.len() - 1 {
                assert(w[k] == w.drop_last()[k]);
            }
        }
    } else {
        assert(w.take(w.len() as int) =~= w);
    }
}

/// The size candidates of a name are its words that end in `B`, in order,
/// one per such word: without that `B` for the footprint estimate, without
/// all trailing `B`s for the hot-swap deck.
pub proof fn law_size_candidates_are_b_words(ws: Seq<Seq<char>>)
    ensures
        size_words(ws, false) == ws.filter(|w: Seq<char>| ends_in_b(w)).map_values(
            |w: Seq<char>| w.drop_last(),
        ),
        size_words(ws, true) == ws.filter(|w: Seq<char>| ends_in_b(w)).map_values(
            |w: Seq<char>| strip_trailing_b(w),
        ),
    decreases ws.len(),
{
    reveal(Seq::filter);
    let p = |w: Seq<char>| ends_in_b(w);
    let f = |w: Seq<char>| w.drop_last();
    let g = |w: Seq<char>| strip_trailing_b(w);
    if ws.len() == 0 {
        assert(ws.filter(p) =~= Seq::<Seq<char>>::empty());
        assert(ws.filter(p).map_values(f) =~= Seq::<Seq<char>>::empty());
        assert(ws.filter(p).map_values(g) =~= Seq::<Seq<char>>::empty());
    } else {
        law_size_candidates_are_b_words(ws.drop_last());
        let prev = ws.drop_last().filter(p);
        if p(ws.last()) {
            assert(prev.push(ws.last()).map_values(f) =~= prev.map_values(f).push(f(ws.last())));
            assert(prev.push(ws.last()).map_values(g) =~= prev.map_values(g).push(g(ws.last())));
        }
    }
}

} // verus!
