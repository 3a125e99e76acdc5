//! Reading the hardware probes' text: `nvidia-smi` CSV rows, `/proc/meminfo`,
//! and the ranking of processes by resident memory.
use vstd::prelude::*;
use crate::names::{exe_name, exe_name_spec};
use crate::text::{
    chars_of, chars_start_with, first_match, lemma_first_match_at, lines, split_by, split_lines,
    split_str, starts_with, string_of, trim, trim_chars, vv, words, words_of, push_str, free_of,
    join_with, lemma_split_join, decimal, digits,
};
use crate::keys::concat3;

verus! {

// ───────────────────────── integers ─────────────────────────

pub open spec fn is_digit(c: char) -> bool {
    48 <= (c as u32) <= 57
}

/// The value of a string of decimal digits.
pub open spec fn digits_value(s: Seq<char>) -> int
    decreases s.len(),
{
    if s.len() == 0 {
        0
    } else {
        digits_value(s.drop_last()) * 10 + ((s.last() as u32) - 48)
    }
}

/// `s` without its sign, if it has one.
pub open spec fn unsigned_part(s: Seq<char>) -> Seq<char> {
    if s.len() > 0 && (s[0] == '-' || s[0] == '+') {
        s.skip(1)
    } else {
        s
    }
}

pub open spec fn all_digits(s: Seq<char>) -> bool {
    forall|i: int| 0 <= i < s.len() ==> is_digit(#[trigger] s[i])
}

/// An optional `+` or `-`, then one or more decimal digits.
pub open spec fn parse_int_spec(s: Seq<char>) -> Option<int> {
    let neg = s.len() > 0 && s[0] == '-';
    let body = unsigned_part(s);
    if body.len() == 0 || !all_digits(body) {
        None
    } else if neg {
        Some(-digits_value(body))
    } else {
        Some(digits_value(body))
    }
}

/// What `str::parse::<i32>` accepts, and its value.
pub open spec fn parse_i32_spec(s: Seq<char>) -> Option<i32> {
    match parse_int_spec(s) {
        Some(v) => if i32::MIN <= v <= i32::MAX {
            Some(v as i32)
        } else {
            None
        },
        None => None,
    }
}

proof fn lemma_digits_value_nonneg(s: Seq<char>)
    requires
        forall|i: int| 0 <= i < s.len() ==> is_digit(#[trigger] s[i]),
    ensures
        digits_value(s) >= 0,
    decreases s.len(),
{
    if s.len() > 0 {
        lemma_digits_value_nonneg(s.drop_last());
    }
}

/// Parses a decimal `i32` as `str::parse::<i32>` does.
pub fn parse_i32(s: &str) -> (r: Option<i32>)
    ensures
        r == parse_i32_spec(s@),
{
    let cs = chars_of(s);
    let neg = cs.len() > 0 && cs[0] == '-';
    let start: usize = if cs.len() > 0 && (cs[0] == '-' || cs[0] == '+') {
        1
    } else {
        0
    };
    let ghost body = unsigned_part(s@);
    assert(body =~= cs@.subrange(start as int, cs.len() as int));
    if start == cs.len() {
        return None;
    }
    let mut acc: u64 = 0;
    let mut big = false;
    let mut i = start;
    while i < cs.len()
        invariant
            start <= i <= cs.len(),
            start < cs.len(),
            body == unsigned_part(s@),
            body == cs@.subrange(start as int, cs.len() as int),
            forall|j: int| 0 <= j < i - start ==> is_digit(#[trigger] body[j]),
            !big ==> acc == digits_value(body.take(i - start)) && acc <= 2147483648,
            big ==> digits_value(body.take(i - start)) > 2147483648,
        decreases cs.len() - i,
    {
        let c = cs[i];
        let u: u32 = c as u32;
        assert(body[i - start] == cs@[i as int]);
        if !(48 <= u && u <= 57) {
            assert(!is_digit(body[i - start]));
            assert(!all_digits(body));
            assert(parse_int_spec(s@) is None);
            return None;
        }
        let ghost pre = body.take(i - start);
        assert(body.take(i - start + 1).drop_last() =~= pre);
        assert(body.take(i - start + 1).last() == c);
        proof {
            assert forall|j: int| 0 <= j < i - start implies is_digit(#[trigger] pre[j]) by {}
            lemma_digits_value_nonneg(pre);
        }
        if !big {
            let next = acc * 10 + (u as u64 - 48);
            if next > 2147483648 {
                big = true;
            } else {
                acc = next;
            }
        }
        i = i + 1;
    }
    assert(body.take(body.len() as int) =~= body);
    if big {
        return None;
    }
    if neg {
        let v: i64 = -(acc as i64);
        Some(v as i32)
    } else if acc <= 2147483647 {
        Some(acc as i32)
    } else {
        None
    }
}

// ───────────────────────── nvidia-smi ─────────────────────────

/// The fields of a CSV row as `nvidia-smi --format=csv,noheader` writes it.
pub open spec fn csv_fields(row: Seq<char>) -> Seq<Seq<char>> {
    split_str(row, ", "@)
}

fn fields_of(row: &Vec<char>) -> (r: Vec<Vec<char>>)
    ensures
        vv(r@) == csv_fields(row@),
{
    let sep = chars_of(", ");
    proof {
        reveal_strlit(", ");
    }
    split_by(row, &sep)
}

/// The GPU name and total memory (MiB, as text) of the start-up probe.
pub open spec fn gpu_identity_spec(out: Seq<char>) -> Option<(Seq<char>, Seq<char>)> {
    let f = csv_fields(trim(out));
    if f.len() == 2 {
        Some((f[0], f[1]))
    } else {
        None
    }
}

pub fn gpu_identity(out: &str) -> (r: Option<(String, String)>)
    ensures
        match r {
            Some((n, m)) => gpu_identity_spec(out@) == Some((n@, m@)),
            None => gpu_identity_spec(out@) is None,
        },
{
    let t = trim_chars(&chars_of(out));
    let f = fields_of(&t);
    if f.len() == 2 {
        assert(f@[0]@ == vv(f@)[0]);
        assert(f@[1]@ == vv(f@)[1]);
        Some((string_of(&f[0]), string_of(&f[1])))
    } else {
        None
    }
}

/// The GPU telemetry of one `nvidia-smi` poll, with memory still as text.
pub struct GpuReadout {
    pub vram_used: String,
    pub gpu_temp: i32,
    pub gpu_power: String,
    pub gpu_util: String,
    pub vram_util: String,
    pub gpu_fan: String,
    pub gpu_clocks: String,
}

/// The poll's fields: memory used, temperature (0 when it is not an
/// integer), `draw W / limit W`, utilisation, memory utilisation, fan, and
/// `core MHz / mem MHz`; `None` with fewer than nine fields.
pub open spec fn gpu_readout_spec(out: Seq<char>) -> Option<
    (Seq<char>, i32, Seq<char>, Seq<char>, Seq<char>, Seq<char>, Seq<char>),
> {
    let f = csv_fields(trim(out));
    if f.len() >= 9 {
        Some(
            (
                f[0],
                match parse_i32_spec(f[1]) {
                    Some(t) => t,
                    None => 0,
                },
                f[2] + "W / "@ + f[3] + "W"@,
                f[4],
                f[5],
                f[6],
                f[7] + " MHz / "@ + f[8] + " MHz"@,
            ),
        )
    } else {
        None
    }
}

pub open spec fn readout_view(g: GpuReadout) -> (
    Seq<char>,
    i32,
    Seq<char>,
    Seq<char>,
    Seq<char>,
    Seq<char>,
    Seq<char>,
) {
    (g.vram_used@, g.gpu_temp, g.gpu_power@, g.gpu_util@, g.vram_util@, g.gpu_fan@, g.gpu_clocks@)
}

pub fn gpu_readout(out: &str) -> (r: Option<GpuReadout>)
    ensures
        match r {
            Some(g) => gpu_readout_spec(out@) == Some(readout_view(g)),
            None => gpu_readout_spec(out@) is None,
        },
{
    let t = trim_chars(&chars_of(out));
    let f = fields_of(&t);
    if f.len() < 9 {
        return None;
    }
    let ghost fv = vv(f@);
    let s: Vec<String> = vec![
        string_of(&f[0]),
        string_of(&f[1]),
        string_of(&f[2]),
        string_of(&f[3]),
        string_of(&f[4]),
        string_of(&f[5]),
        string_of(&f[6]),
        string_of(&f[7]),
        string_of(&f[8]),
    ];
    assert(forall|k: int| 0 <= k < 9 ==> #[trigger] s@[k]@ == fv[k]);
    let temp = match parse_i32(s[1].as_str()) {
        Some(v) => v,
        None => 0,
    };
    let mut power = concat3(s[2].as_str(), "W / ", s[3].as_str());
    push_str(&mut power, "W");
    let mut clocks = concat3(s[7].as_str(), " MHz / ", s[8].as_str());
    push_str(&mut clocks, " MHz");
    let g = GpuReadout {
        vram_used: s[0].clone(),
        gpu_temp: temp,
        gpu_power: power,
        gpu_util: s[4].clone(),
        vram_util: s[5].clone(),
        gpu_fan: s[6].clone(),
        gpu_clocks: clocks,
    };
    Some(g)
}

/// The processes of an `nvidia-smi --query-compute-apps` listing: for each
/// line of exactly two fields, the executable name and the memory (MiB, as
/// text), in order.
pub open spec fn gpu_processes_of(ls: Seq<Seq<char>>) -> Seq<(Seq<char>, Seq<char>)>
    decreases ls.len(),
{
    if ls.len() == 0 {
        Seq::empty()
    } else {
        let prev = gpu_processes_of(ls.drop_last());
        let f = csv_fields(ls.last());
        if f.len() == 2 {
            prev.push((exe_name_spec(f[0]), f[1]))
        } else {
            prev
        }
    }
}

pub open spec fn pairs_of(v: Seq<(String, String)>) -> Seq<(Seq<char>, Seq<char>)> {
    v.map_values(|p: (String, String)| (p.0@, p.1@))
}

pub fn gpu_processes(out: &str) -> (r: Vec<(String, String)>)
    ensures
        pairs_of(r@) == gpu_processes_of(lines(out@)),
{
    let ls = split_lines(&chars_of(out));
    let ghost lv = vv(ls@);
    let mut res: Vec<(String, String)> = Vec::new();
    let mut i: usize = 0;
    while i < ls.len()
        invariant
            i <= ls.len(),
            lv == vv(ls@),
            pairs_of(res@) == gpu_processes_of(lv.take(i as int)),
        decreases ls.len() - i,
    {
        assert(lv.take(i + 1).drop_last() =~= lv.take(i as int));
        assert(lv.take(i + 1).last() == ls@[i as int]@);
        let f = fields_of(&ls[i]);
        if f.len() == 2 {
            assert(f@[0]@ == vv(f@)[0]);
            assert(f@[1]@ == vv(f@)[1]);
            let path = string_of(&f[0]);
            let name = exe_name(path.as_str());
            let mem = string_of(&f[1]);
            let ghost o = pairs_of(res@);
            res.push((name, mem));
            assert(pairs_of(res@) =~= o.push((name@, mem@)));
        }
        i = i + 1;
    }
    assert(lv.take(ls.len() as int) =~= lv);
    res
}

// ───────────────────────── /proc/meminfo ─────────────────────────

/// The second word of the first line that starts with `key` (the value in
/// kB), if there is such a line and word.
pub open spec fn meminfo_field_spec(content: Seq<char>, key: Seq<char>) -> Option<Seq<char>> {
    let ls = lines(content);
    let i = first_match(ls, |l: Seq<char>| starts_with(l, key));
    if i < ls.len() {
        let w = words(ls[i]);
        if w.len() > 1 {
            Some(w[1])
        } else {
            None
        }
    } else {
        None
    }
}

pub fn meminfo_field(content: &str, key: &str) -> (r: Option<String>)
    ensures
        match r {
            Some(v) => meminfo_field_spec(content@, key@) == Some(v@),
            None => meminfo_field_spec(content@, key@) is None,
        },
{
    let ls = split_lines(&chars_of(content));
    let ghost lv = vv(ls@);
    let k = chars_of(key);
    let mut i: usize = 0;
    while i < ls.len() && !chars_start_with(&ls[i], &k)
        invariant
            i <= ls.len(),
            lv == vv(ls@),
            k@ == key@,
            forall|j: int| 0 <= j < i ==> !starts_with(#[trigger] lv[j], key@),
        decreases ls.len() - i,
    {
        i = i + 1;
    }
    proof {
        if i < ls.len() {
            assert(lv[i as int] == ls@[i as int]@);
        }
        lemma_first_match_at(lv, |l: Seq<char>| starts_with(l, key@), i as int);
    }
    if i == ls.len() {
        return None;
    }
    let w = words_of(&ls[i]);
    if w.len() > 1 {
        assert(w@[1]@ == vv(w@)[1]);
        Some(string_of(&w[1]))
    } else {
        None
    }
}

// ───────────────────────── the system's top processes ─────────────────────────

/// Processes (name, resident bytes) sorted by memory, largest first, with
/// processes of equal memory in the order they were listed: `x` goes after every
/// entry with at least its memory.
pub open spec fn insert_by_memory(t: Seq<(Seq<char>, u64)>, x: (Seq<char>, u64)) -> Seq<
    (Seq<char>, u64),
> {
    let k = first_match(t, |p: (Seq<char>, u64)| p.1 < x.1);
    t.insert(k, x)
}

pub open spec fn sort_by_memory(s: Seq<(Seq<char>, u64)>) -> Seq<(Seq<char>, u64)>
    decreases s.len(),
{
    if s.len() == 0 {
        Seq::empty()
    } else {
        insert_by_memory(sort_by_memory(s.drop_last()), s.last())
    }
}

/// The entries above 1 MiB, in order, keeping the first entry of each name.
pub open spec fn keep_first_large(s: Seq<(Seq<char>, u64)>) -> Seq<(Seq<char>, u64)>
    decreases s.len(),
{
    if s.len() == 0 {
        Seq::empty()
    } else {
        let prev = keep_first_large(s.drop_last());
        let x = s.last();
        if x.1 > 1_048_576 && !prev.map_values(|p: (Seq<char>, u64)| p.0).contains(x.0) {
            prev.push(x)
        } else {
            prev
        }
    }
}

/// The RAM inspector's process list: largest first, only those above 1 MiB,
/// one entry per name (its largest, the first in that order).
pub open spec fn top_processes_spec(s: Seq<(Seq<char>, u64)>) -> Seq<(Seq<char>, u64)> {
    keep_first_large(sort_by_memory(s))
}

pub open spec fn procs_view(v: Seq<(String, u64)>) -> Seq<(Seq<char>, u64)> {
    v.map_values(|p: (String, u64)| (p.0@, p.1))
}

fn insert_sorted(t: &mut Vec<(String, u64)>, x: (String, u64))
    ensures
        procs_view(final(t)@) == insert_by_memory(procs_view(old(t)@), (x.0@, x.1)),
{
    let ghost tv = procs_view(t@);
    let ghost xv = (x.0@, x.1);
    let mut k: usize = 0;
    while k < t.len() && !(t[k].1 < x.1)
        invariant
            k <= t.len(),
            tv == procs_view(t@),
            xv == (x.0@, x.1),
            forall|j: int| 0 <= j < k ==> !((#[trigger] tv[j]).1 < xv.1),
        decreases t.len() - k,
    {
        assert(tv[k as int].1 == t@[k as int].1);
        k = k + 1;
    }
    proof {
        if k < t.len() {
            assert(tv[k as int].1 == t@[k as int].1);
        }
        lemma_first_match_at(tv, |p: (Seq<char>, u64)| p.1 < xv.1, k as int);
    }
    t.insert(k, x);
    assert(procs_view(t@) =~= tv.insert(k as int, xv));
}

fn name_seen(kept: &Vec<(String, u64)>, name: &String) -> (b: bool)
    ensures
        b == procs_view(kept@).map_values(|p: (Seq<char>, u64)| p.0).contains(name@),
{
    let ghost names = procs_view(kept@).map_values(|p: (Seq<char>, u64)| p.0);
    let mut i: usize = 0;
    while i < kept.len()
        invariant
            i <= kept.len(),
            names == procs_view(kept@).map_values(|p: (Seq<char>, u64)| p.0),
            forall|j: int| 0 <= j < i ==> names[j] != name@,
        decreases kept.len() - i,
    {
        if kept[i].0 == *name {
            assert(names[i as int] == name@);
            return true;
        }
        i = i + 1;
    }
    false
}

/// The RAM inspector's process list (see `top_processes_spec`).
pub fn top_processes(procs: Vec<(String, u64)>) -> (r: Vec<(String, u64)>)
    ensures
        procs_view(r@) == top_processes_spec(procs_view(procs@)),
{
    let ghost pv = procs_view(procs@);
    let mut sorted: Vec<(String, u64)> = Vec::new();
    let mut i: usize = 0;
    while i < procs.len()
        invariant
            i <= procs.len(),
            pv == procs_view(procs@),
            procs_view(sorted@) == sort_by_memory(pv.take(i as int)),
        decreases procs.len() - i,
    {
        assert(pv.take(i + 1).drop_last() =~= pv.take(i as int));
        assert(pv.take(i + 1).last() == (procs@[i as int].0@, procs@[i as int].1));
        let x = (procs[i].0.clone(), procs[i].1);
        insert_sorted(&mut sorted, x);
        i = i + 1;
    }
    assert(pv.take(procs.len() as int) =~= pv);
    let ghost sv = procs_view(sorted@);
    let mut kept: Vec<(String, u64)> = Vec::new();
    let mut j: usize = 0;
    while j < sorted.len()
        invariant
            j <= sorted.len(),
            sv == procs_view(sorted@),
            procs_view(kept@) == keep_first_large(sv.take(j as int)),
        decreases sorted.len() - j,
    {
        assert(sv.take(j + 1).drop_last() =~= sv.take(j as int));
        assert(sv.take(j + 1).last() == (sorted@[j as int].0@, sorted@[j as int].1));
        if sorted[j].1 > 1_048_576 && !name_seen(&kept, &sorted[j].0) {
            let ghost o = procs_view(kept@);
            kept.push((sorted[j].0.clone(), sorted[j].1));
            assert(procs_view(kept@) =~= o.push((sorted@[j as int].0@, sorted@[j as int].1)));
        }
        j = j + 1;
    }
    assert(sv.take(sorted.len() as int) =~= sv);
    kept
}

} // verus!

verus! {

// ───────────────────────── laws ─────────────────────────

pub open spec fn by_memory_desc(s: Seq<(Seq<char>, u64)>) -> bool {
    forall|i: int, j: int| 0 <= i < j < s.len() ==> s[i].1 >= s[j].1
}

pub open spec fn distinct_names(s: Seq<(Seq<char>, u64)>) -> bool {
    forall|i: int, j: int| 0 <= i < j < s.len() ==> s[i].0 != s[j].0
}

proof fn lemma_insert_keeps_order(t: Seq<(Seq<char>, u64)>, x: (Seq<char>, u64))
    requires
        by_memory_desc(t),
    ensures
        by_memory_desc(insert_by_memory(t, x)),
        insert_by_memory(t, x).len() == t.len() + 1,
        forall|e: (Seq<char>, u64)| #[trigger] insert_by_memory(t, x).contains(e) ==> t.contains(e) || e == x,
        insert_by_memory(t, x).contains(x),
        forall|e: (Seq<char>, u64)| t.contains(e) ==> #[trigger] insert_by_memory(t, x).contains(e),
{
    let p = |q: (Seq<char>, u64)| q.1 < x.1;
    crate::text::lemma_first_match_bounds(t, p);
    let k = first_match(t, p);
    let r = t.insert(k, x);
    assert forall|i: int, j: int| 0 <= i < j < r.len() implies r[i].1 >= r[j].1 by {
        if j < k {
            assert(r[i] == t[i] && r[j] == t[j]);
        } else if j == k {
            assert(r[i] == t[i]);
            assert(!p(t[i]));
        } else if i < k {
            assert(r[i] == t[i] && r[j] == t[j - 1]);
            assert(!p(t[i]));
            if k < t.len() {
                assert(p(t[k]));
                if j - 1 > k {
                    assert(t[k].1 >= t[j - 1].1);
                }
            }
        } else if i == k {
            assert(r[j] == t[j - 1]);
            assert(p(t[k]));
            if j - 1 > k {
                assert(t[k].1 >= t[j - 1].1);
            }
        } else {
            assert(r[i] == t[i - 1] && r[j] == t[j - 1]);
        }
    }
    assert forall|e: (Seq<char>, u64)| #[trigger] r.contains(e) implies t.contains(e) || e == x by {
        let m = choose|m: int| 0 <= m < r.len() && r[m] == e;
        if m < k {
            assert(t[m] == e);
        } else if m > k {
            assert(t[m - 1] == e);
        }
    }
    assert(r[k] == x);
    assert forall|e: (Seq<char>, u64)| t.contains(e) implies #[trigger] r.contains(e) by {
        let m = choose|m: int| 0 <= m < t.len() && t[m] == e;
        if m < k {
            assert(r[m] == e);
        } else {
            assert(r[m + 1] == e);
        }
    }
}

proof fn lemma_sort_orders(s: Seq<(Seq<char>, u64)>)
    ensures
        by_memory_desc(sort_by_memory(s)),
        sort_by_memory(s).len() == s.len(),
        forall|e: (Seq<char>, u64)| #[trigger] sort_by_memory(s).contains(e) ==> s.contains(e),
        forall|e: (Seq<char>, u64)| s.contains(e) ==> #[trigger] sort_by_memory(s).contains(e),
    decreases s.len(),
{
    if s.len() > 0 {
        lemma_sort_orders(s.drop_last());
        lemma_insert_keeps_order(sort_by_memory(s.drop_last()), s.last());
        let r = sort_by_memory(s);
        assert forall|e: (Seq<char>, u64)| #[trigger] r.contains(e) implies s.contains(e) by {
            if e == s.last() {
                assert(s[s.len() - 1] == e);
            } else {
                assert(sort_by_memory(s.drop_last()).contains(e));
                let m = choose|m: int| 0 <= m < s.drop_last().len() && s.drop_last()[m] == e;
                assert(s[m] == e);
            }
        }
        assert forall|e: (Seq<char>, u64)| s.contains(e) implies #[trigger] r.contains(e) by {
            let m = choose|m: int| 0 <= m < s.len() && s[m] == e;
            if m < s.len() - 1 {
                assert(s.drop_last()[m] == e);
                assert(s.drop_last().contains(e));
            }
        }
    }
}

proof fn lemma_keep_first_large(s: Seq<(Seq<char>, u64)>)
    requires
        by_memory_desc(s),
    ensures
        by_memory_desc(keep_first_large(s)),
        distinct_names(keep_first_large(s)),
        forall|i: int| 0 <= i < keep_first_large(s).len() ==> #[trigger] keep_first_large(s)[i].1 > 1_048_576,
        forall|e: (Seq<char>, u64)| #[trigger] keep_first_large(s).contains(e) ==> s.contains(e),
    decreases s.len(),
{
    if s.len() > 0 {
        let d = s.drop_last();
        assert(by_memory_desc(d));
        lemma_keep_first_large(d);
        let prev = keep_first_large(d);
        let x = s.last();
        let r = keep_first_large(s);
        let names = prev.map_values(|p: (Seq<char>, u64)| p.0);
        if x.1 > 1_048_576 && !names.contains(x.0) {
            assert(r == prev.push(x));
            assert forall|i: int| 0 <= i < prev.len() implies prev[i].1 >= x.1 by {
                assert(prev.contains(prev[i]));
                let m = choose|m: int| 0 <= m < d.len() && d[m] == prev[i];
                assert(s[m] == prev[i]);
                assert(s[s.len() - 1] == x);
            }
            assert forall|i: int, j: int| 0 <= i < j < r.len() implies r[i].0 != r[j].0 by {
                if j == prev.len() {
                    assert(names[i] == prev[i].0);
                } else {
                    assert(r[i] == prev[i] && r[j] == prev[j]);
                }
            }
            assert forall|i: int, j: int| 0 <= i < j < r.len() implies r[i].1 >= r[j].1 by {
                if j < prev.len() {
                    assert(r[i] == prev[i] && r[j] == prev[j]);
                }
            }
            assert forall|e: (Seq<char>, u64)| #[trigger] r.contains(e) implies s.contains(e) by {
                let m = choose|m: int| 0 <= m < r.len() && r[m] == e;
                if m < prev.len() {
                    assert(prev[m] == e);
                    assert(prev.contains(e));
                    let n = choose|n: int| 0 <= n < d.len() && d[n] == e;
                    assert(s[n] == e);
                } else {
                    assert(s[s.len() - 1] == e);
                }
            }
        } else {
            assert(r == prev);
            assert forall|e: (Seq<char>, u64)| #[trigger] r.contains(e) implies s.contains(e) by {
                let n = choose|n: int| 0 <= n < d.len() && d[n] == e;
                assert(s[n] == e);
            }
        }
    }
}

/// Every process above 1 MiB has its name in the kept list, with at least
/// its memory.
proof fn lemma_keep_covers(s: Seq<(Seq<char>, u64)>)
    requires
        by_memory_desc(s),
    ensures
        forall|e: (Seq<char>, u64)|
            #[trigger] s.contains(e) && e.1 > 1_048_576 ==> exists|i: int|
                0 <= i < keep_first_large(s).len() && keep_first_large(s)[i].0 == e.0
                    && keep_first_large(s)[i].1 >= e.1,
    decreases s.len(),
{
    if s.len() > 0 {
        let d = s.drop_last();
        assert(by_memory_desc(d));
        lemma_keep_covers(d);
        lemma_keep_first_large(d);
        let prev = keep_first_large(d);
        let x = s.last();
        let r = keep_first_large(s);
        let names = prev.map_values(|p: (Seq<char>, u64)| p.0);
        assert forall|i: int| 0 <= i < prev.len() implies #[trigger] prev[i].1 >= x.1 by {
            assert(prev.contains(prev[i]));
            let m = choose|m: int| 0 <= m < d.len() && d[m] == prev[i];
            assert(s[m] == prev[i]);
            assert(s[s.len() - 1] == x);
        }
        assert forall|i: int| 0 <= i < prev.len() implies #[trigger] r[i] == prev[i] by {}
        assert forall|e: (Seq<char>, u64)| #[trigger] s.contains(e) && e.1 > 1_048_576 implies exists|i: int|
            0 <= i < r.len() && r[i].0 == e.0 && r[i].1 >= e.1 by {
            let m = choose|m: int| 0 <= m < s.len() && s[m] == e;
            if m < s.len() - 1 {
                assert(d[m] == e);
                assert(d.contains(e));
                let i = choose|i: int| 0 <= i < prev.len() && prev[i].0 == e.0 && prev[i].1 >= e.1;
                assert(r[i] == prev[i]);
            } else {
                assert(e == x);
                if !names.contains(x.0) {
                    assert(r[prev.len() as int] == x);
                } else {
                    let i = choose|i: int| 0 <= i < names.len() && names[i] == x.0;
                    assert(prev[i].0 == x.0);
                    assert(prev[i].1 >= x.1);
                    assert(r[i] == prev[i]);
                }
            }
        }
    }
}

/// The RAM inspector's list is ordered by memory, largest first, names each
/// process once, holds only processes above 1 MiB, and only processes that
/// were listed; every process above 1 MiB has its name there, with at least
/// its memory.
pub proof fn law_top_processes_shape(s: Seq<(Seq<char>, u64)>)
    ensures
        by_memory_desc(top_processes_spec(s)),
        distinct_names(top_processes_spec(s)),
        forall|i: int|
            0 <= i < top_processes_spec(s).len() ==> #[trigger] top_processes_spec(s)[i].1 > 1_048_576,
        forall|e: (Seq<char>, u64)| #[trigger] top_processes_spec(s).contains(e) ==> s.contains(e),
        forall|e: (Seq<char>, u64)|
            #[trigger] s.contains(e) && e.1 > 1_048_576 ==> exists|i: int|
                0 <= i < top_processes_spec(s).len() && top_processes_spec(s)[i].0 == e.0
                    && top_processes_spec(s)[i].1 >= e.1,
{
    lemma_sort_orders(s);
    lemma_keep_first_large(sort_by_memory(s));
    lemma_keep_covers(sort_by_memory(s));
    assert forall|e: (Seq<char>, u64)| #[trigger] s.contains(e) && e.1 > 1_048_576 implies exists|i: int|
        0 <= i < top_processes_spec(s).len() && top_processes_spec(s)[i].0 == e.0
            && top_processes_spec(s)[i].1 >= e.1 by {
        let t = sort_by_memory(s);
        assert(t.contains(e));
        let k = keep_first_large(t);
        assert(exists|i: int| 0 <= i < k.len() && k[i].0 == e.0 && k[i].1 >= e.1);
        let i = choose|i: int| 0 <= i < k.len() && k[i].0 == e.0 && k[i].1 >= e.1;
        assert(top_processes_spec(s)[i] == k[i]);
    }
    let r = top_processes_spec(s);
    assert forall|e: (Seq<char>, u64)| #[trigger] r.contains(e) implies s.contains(e) by {
        assert(sort_by_memory(s).contains(e));
    }
}

/// An `nvidia-smi` poll is read field by field: for a poll whose fields
/// (none holding a comma) are `f`, joined by `", "`, the readout is memory
/// used `f[0]`, the temperature `f[1]` (0 when it is not an integer),
/// power `f[2] W / f[3] W`, utilisation `f[4]`, memory utilisation `f[5]`,
/// fan `f[6]` and clocks `f[7] MHz / f[8] MHz`; a poll of fewer than nine
/// fields gives none. The start-up probe's two fields are the GPU's name
/// and its total memory, in that order.
pub proof fn law_gpu_poll_reads_its_fields(out: Seq<char>, f: Seq<Seq<char>>)
    requires
        f.len() >= 1,
        free_of(f, ','),
        trim(out) == join_with(f, ", "@),
    ensures
        f.len() >= 9 ==> gpu_readout_spec(out) == Some(
            (
                f[0],
                match parse_i32_spec(f[1]) {
                    Some(t) => t,
                    None => 0,
                },
                f[2] + "W / "@ + f[3] + "W"@,
                f[4],
                f[5],
                f[6],
                f[7] + " MHz / "@ + f[8] + " MHz"@,
            ),
        ),
        f.len() < 9 ==> gpu_readout_spec(out) is None,
        f.len() == 2 ==> gpu_identity_spec(out) == Some((f[0], f[1])),
        f.len() != 2 ==> gpu_identity_spec(out) is None,
{
    reveal_strlit(", ");
    lemma_split_join(f, ", "@);
}

proof fn lemma_digit_code(d: nat)
    requires
        d < 10,
    ensures
        crate::text::digit_char(d) as u32 == 48 + d,
{
    if d == 0 {
        assert('0' as u32 == 48);
    } else if d == 1 {
        assert('1' as u32 == 49);
    } else if d == 2 {
        assert('2' as u32 == 50);
    } else if d == 3 {
        assert('3' as u32 == 51);
    } else if d == 4 {
        assert('4' as u32 == 52);
    } else if d == 5 {
        assert('5' as u32 == 53);
    } else if d == 6 {
        assert('6' as u32 == 54);
    } else if d == 7 {
        assert('7' as u32 == 55);
    } else if d == 8 {
        assert('8' as u32 == 56);
    } else {
        assert('9' as u32 == 57);
    }
}

proof fn lemma_digits_read_back(n: nat)
    ensures
        digits(n).len() >= 1,
        all_digits(digits(n)),
        digits_value(digits(n)) == n,
    decreases n,
{
    if n < 10 {
        lemma_digit_code(n);
        assert(digits(n) == seq![crate::text::digit_char(n)]);
        assert(digits(n).drop_last() =~= Seq::<char>::empty());
        assert(digits(n).last() == crate::text::digit_char(n));
        assert(digits_value(digits(n)) == digits_value(digits(n).drop_last()) * 10 + ((
        digits(n).last() as u32) - 48));
        assert(digits_value(Seq::<char>::empty()) == 0);
    } else {
        lemma_digits_read_back(n / 10);
        let d = digits(n / 10);
        let c = crate::text::digit_char(n % 10);
        lemma_digit_code(n % 10);
        assert(digits(n) == d.push(c));
        assert(digits(n).drop_last() =~= d);
        assert(digits(n).last() == c);
        assert(digits_value(digits(n)) == digits_value(d) * 10 + ((c as u32) - 48));
        assert((n / 10) * 10 + n % 10 == n) by (nonlinear_arith);
        assert forall|i: int| 0 <= i < digits(n).len() implies is_digit(#[trigger] digits(n)[i]) by {
            if i < d.len() {
                assert(digits(n)[i] == d[i]);
            }
        }
    }
}

/// Any integer written in decimal parses back to itself, and any `i32` so
/// written parses as that `i32`: a temperature the GPU prints is read as
/// the number printed.
pub proof fn law_decimal_parses_back(n: int)
    ensures
        parse_int_spec(decimal(n)) == Some(n),
        i32::MIN <= n <= i32::MAX ==> parse_i32_spec(decimal(n)) == Some(n as i32),
{
    if n < 0 {
        let m = (-n) as nat;
        lemma_digits_read_back(m);
        let s = decimal(n);
        assert(s == seq!['-'] + digits(m));
        assert(s[0] == '-');
        assert(unsigned_part(s) =~= digits(m));
    } else {
        let m = n as nat;
        lemma_digits_read_back(m);
        let s = decimal(n);
        assert(is_digit(s[0]));
        assert(unsigned_part(s) == s);
    }
}

} // verus!
