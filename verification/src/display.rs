//! What the terminal view decides before it draws: which log lines the
//! search shows and in which colour, the colour of the port and temperature
//! readouts, the tuner's rows, the console's cursor split, and where a popup
//! goes.
use vstd::prelude::*;
use crate::app::{App, Tuner};
use crate::text::{
    chars_of, contains, digits, int_to_string, lowercase_of, nat_to_string, push_char, push_str,
    str_contains, string_of, to_lowercase,
};
use crate::tuning::cache_type;
use ratatui::layout::{Constraint, Direction, Layout, Rect};

verus! {

// ───────────────────────── the log analyser ─────────────────────────

/// The colour class of a log line.
#[derive(PartialEq, Eq, Structural, Clone, Copy, Debug)]
pub enum Tone {
    /// Red: out of memory, failures and errors.
    Alert,
    /// Yellow: model loads and hot-swaps.
    Notice,
    /// Blue: the engine's own `llama_` lines.
    Engine,
    /// Grey: everything else.
    Plain,
}

pub open spec fn log_tone_spec(l: Seq<char>) -> Tone {
    if contains(l, "OOM"@) || contains(l, "Failed"@) || contains(l, "error"@) {
        Tone::Alert
    } else if contains(l, "Loading Model"@) || contains(l, "Hot-swap"@) {
        Tone::Notice
    } else if contains(l, "llama_"@) {
        Tone::Engine
    } else {
        Tone::Plain
    }
}

/// The colour class of a log line (the first match wins).
pub fn log_tone(line: &str) -> (t: Tone)
    ensures
        t == log_tone_spec(line@),
{
    if str_contains(line, "OOM") || str_contains(line, "Failed") || str_contains(line, "error") {
        Tone::Alert
    } else if str_contains(line, "Loading Model") || str_contains(line, "Hot-swap") {
        Tone::Notice
    } else if str_contains(line, "llama_") {
        Tone::Engine
    } else {
        Tone::Plain
    }
}

/// Whether the search shows a log line: every line with an empty query,
/// otherwise those whose lower-case text holds the lower-case query.
pub open spec fn log_shown(l: Seq<char>, query: Seq<char>) -> bool {
    query.len() == 0 || contains(lowercase_of(l), lowercase_of(query))
}

pub open spec fn shown_logs(ls: Seq<Seq<char>>, query: Seq<char>) -> Seq<Seq<char>>
    decreases ls.len(),
{
    if ls.len() == 0 {
        Seq::empty()
    } else if log_shown(ls.last(), query) {
        shown_logs(ls.drop_last(), query).push(ls.last())
    } else {
        shown_logs(ls.drop_last(), query)
    }
}

pub open spec fn strings_view(v: Seq<String>) -> Seq<Seq<char>> {
    v.map_values(|s: String| s@)
}

impl App {
    /// The log lines the analyser shows under the current search, in order.
    pub fn visible_logs(&self) -> (r: Vec<String>)
        ensures
            strings_view(r@) == shown_logs(self@.log.logs, self@.log.search_query),
    {
        let ghost lv = self@.log.logs;
        let query = self.log.search_query.as_str();
        let empty = chars_of(query).len() == 0;
        let q = to_lowercase(query);
        let mut out: Vec<String> = Vec::new();
        let mut i: usize = 0;
        while i < self.log.logs.len()
            invariant
                i <= self.log.logs.len(),
                lv == self@.log.logs,
                lv.len() == self.log.logs@.len(),
                empty == (self@.log.search_query.len() == 0),
                q@ == lowercase_of(self@.log.search_query),
                strings_view(out@) == shown_logs(lv.take(i as int), self@.log.search_query),
            decreases self.log.logs.len() - i,
        {
            let line = &self.log.logs[i];
            assert(lv[i as int] == line@);
            assert(lv.take(i + 1).drop_last() =~= lv.take(i as int));
            assert(lv.take(i + 1).last() == line@);
            let shown = if empty {
                true
            } else {
                let l = to_lowercase(line.as_str());
                str_contains(l.as_str(), q.as_str())
            };
            if shown {
                let ghost o = strings_view(out@);
                out.push(line.clone());
                assert(strings_view(out@) =~= o.push(line@));
            }
            i = i + 1;
        }
        assert(lv.take(self.log.logs.len() as int) =~= lv);
        out
    }
}

/// The colour class of the port auditor's verdict.
#[derive(PartialEq, Eq, Structural, Clone, Copy, Debug)]
pub enum PortTone {
    /// Red and blinking: a zombie holds the port.
    Alarm,
    /// Green: the engine holds the port.
    Secure,
    /// Dark grey: anything else.
    Muted,
}

pub open spec fn port_tone_spec(status: Seq<char>) -> PortTone {
    if contains(status, "ZOMBIE"@) {
        PortTone::Alarm
    } else if contains(status, "SECURE"@) {
        PortTone::Secure
    } else {
        PortTone::Muted
    }
}

pub fn port_tone(status: &str) -> (t: PortTone)
    ensures
        t == port_tone_spec(status@),
{
    if str_contains(status, "ZOMBIE") {
        PortTone::Alarm
    } else if str_contains(status, "SECURE") {
        PortTone::Secure
    } else {
        PortTone::Muted
    }
}

/// The colour class of the GPU core temperature.
#[derive(PartialEq, Eq, Structural, Clone, Copy, Debug)]
pub enum Heat {
    /// Red: above 80 °C.
    Hot,
    /// Yellow: above 70 °C.
    Warm,
    /// Green: otherwise.
    Cool,
}

pub fn heat_of(temp: i32) -> (h: Heat)
    ensures
        h == (if temp > 80 {
            Heat::Hot
        } else if temp > 70 {
            Heat::Warm
        } else {
            Heat::Cool
        }),
{
    if temp > 80 {
        Heat::Hot
    } else if temp > 70 {
        Heat::Warm
    } else {
        Heat::Cool
    }
}

/// The dashboard needs a terminal of at least 80 × 16 cells; below that
/// only a warning is drawn.
pub fn too_small(width: u16, height: u16) -> (b: bool)
    ensures
        b == (width < 80 || height < 16),
{
    width < 80 || height < 16
}

/// The telemetry deck is a row taller while an inspector is open.
pub fn top_height(show_gpu_inspector: bool, show_sys_inspector: bool) -> (h: u16)
    ensures
        h == (if show_gpu_inspector || show_sys_inspector {
            7u16
        } else {
            6u16
        }),
{
    if show_gpu_inspector || show_sys_inspector {
        7
    } else {
        6
    }
}

// ───────────────────────── small texts ─────────────────────────

/// `n` as at least two decimal digits.
pub open spec fn two_digits(n: nat) -> Seq<char> {
    if n < 10 {
        seq!['0'] + digits(n)
    } else {
        digits(n)
    }
}

/// The system uptime as `HHh MMm` (hours and minutes, at least two digits
/// each).
pub open spec fn uptime_text_spec(secs: u64) -> Seq<char> {
    two_digits((secs / 3600) as nat) + "h "@ + two_digits(((secs % 3600) / 60) as nat) + "m"@
}

fn two_digit_text(n: u64) -> (s: String)
    ensures
        s@ == two_digits(n as nat),
{
    let d = nat_to_string(n as u128);
    if n < 10 {
        proof {
            reveal_strlit("0");
        }
        let mut s = "0".to_string();
        push_str(&mut s, d.as_str());
        s
    } else {
        d
    }
}

pub fn uptime_text(secs: u64) -> (s: String)
    ensures
        s@ == uptime_text_spec(secs),
{
    let mut s = two_digit_text(secs / 3600);
    push_str(&mut s, "h ");
    let m = two_digit_text((secs % 3600) / 60);
    push_str(&mut s, m.as_str());
    push_str(&mut s, "m");
    s
}

/// The bytes UTF-8 takes for a character.
pub open spec fn utf8_len(c: char) -> nat {
    if (c as u32) < 0x80 {
        1
    } else if (c as u32) < 0x800 {
        2
    } else if (c as u32) < 0x10000 {
        3
    } else {
        4
    }
}

/// The UTF-8 length of a text, in bytes (`str::len`).
pub open spec fn byte_len(s: Seq<char>) -> nat
    decreases s.len(),
{
    if s.len() == 0 {
        0
    } else {
        byte_len(s.drop_last()) + utf8_len(s.last())
    }
}

/// Whether some prefix of `s` takes exactly `n` bytes.
pub open spec fn boundary_at(s: Seq<char>, n: nat) -> bool {
    exists|k: int| 0 <= k <= s.len() && byte_len(#[trigger] s.take(k)) == n
}

/// A process name for the RAM inspector: one over 24 bytes is cut to its
/// first 21 bytes and `...`.
pub open spec fn clip_name_spec(name: Seq<char>, k: int) -> Seq<char> {
    if byte_len(name) > 24 {
        name.take(k) + "..."@
    } else {
        name
    }
}

proof fn lemma_byte_len_take_grows(s: Seq<char>, k: int)
    requires
        0 <= k < s.len(),
    ensures
        byte_len(s.take(k + 1)) == byte_len(s.take(k)) + utf8_len(s[k]),
        byte_len(s.take(k + 1)) > byte_len(s.take(k)),
{
    assert(s.take(k + 1).drop_last() =~= s.take(k));
}

proof fn lemma_byte_len_mono(s: Seq<char>, j: int, k: int)
    requires
        0 <= j <= k <= s.len(),
    ensures
        byte_len(s.take(j)) <= byte_len(s.take(k)),
        j < k ==> byte_len(s.take(j)) < byte_len(s.take(k)),
    decreases k - j,
{
    if j < k {
        lemma_byte_len_mono(s, j, k - 1);
        lemma_byte_len_take_grows(s, k - 1);
    }
}

/// A process name shortened for the RAM inspector. A name over 24 bytes
/// must have a character boundary at byte 21.
pub fn clip_name(name: &str) -> (r: String)
    requires
        byte_len(name@) > 24 ==> boundary_at(name@, 21),
    ensures
        byte_len(name@) <= 24 ==> r@ == name@,
        byte_len(name@) > 24 ==> exists|k: int|
            0 <= k <= name@.len() && byte_len(name@.take(k)) == 21 && r@ == name@.take(k) + "..."@,
{
    let cs = chars_of(name);
    let mut bytes: u128 = 0;
    let mut i: usize = 0;
    let mut cut: usize = 0;
    let mut found = false;
    while i < cs.len()
        invariant
            i <= cs.len(),
            cs@ == name@,
            bytes == byte_len(cs@.take(i as int)),
            bytes <= 4 * i,
            found ==> cut <= i && byte_len(cs@.take(cut as int)) == 21,
            !found ==> forall|k: int| 0 <= k <= i ==> byte_len(#[trigger] cs@.take(k)) != 21,
        decreases cs.len() - i,
    {
        let c = cs[i];
        let u: u32 = c as u32;
        let w: u128 = if u < 0x80 {
            1
        } else if u < 0x800 {
            2
        } else if u < 0x10000 {
            3
        } else {
            4
        };
        proof {
            lemma_byte_len_take_grows(cs@, i as int);
        }
        bytes = bytes + w;
        i = i + 1;
        if !found && bytes == 21 {
            found = true;
            cut = i;
        }
    }
    assert(cs@.take(cs.len() as int) =~= cs@);
    if bytes <= 24 {
        return name.to_string();
    }
    proof {
        if !found {
            let k = choose|k: int| 0 <= k <= name@.len() && byte_len(#[trigger] name@.take(k)) == 21;
            assert(byte_len(cs@.take(k)) != 21);
        }
    }
    let mut out: Vec<char> = Vec::new();
    let mut j: usize = 0;
    while j < cut
        invariant
            j <= cut <= cs.len(),
            out@ == cs@.take(j as int),
        decreases cut - j,
    {
        out.push(cs[j]);
        j = j + 1;
        assert(out@ =~= cs@.take(j as int));
    }
    let mut r = string_of(&out);
    push_str(&mut r, "...");
    r
}

// ───────────────────────── the interrogator's input line ─────────────────────────

/// The input split around the cursor: the characters before it, the one
/// under it (none past the end) and those after it.
pub open spec fn cursor_split_spec(input: Seq<char>, cursor: nat) -> (Seq<char>, Seq<char>, Seq<char>) {
    let n = input.len();
    let c = if cursor <= n {
        cursor as int
    } else {
        n as int
    };
    let d = if cursor + 1 <= n {
        (cursor + 1) as int
    } else {
        n as int
    };
    (input.take(c), input.subrange(c, d), input.skip(d))
}

pub fn cursor_split(input: &str, cursor: usize) -> (r: (String, String, String))
    ensures
        (r.0@, r.1@, r.2@) == cursor_split_spec(input@, cursor as nat),
{
    let cs = chars_of(input);
    let n = cs.len();
    let c = if cursor <= n {
        cursor
    } else {
        n
    };
    let d = if cursor < n {
        cursor + 1
    } else {
        n
    };
    let mut a: Vec<char> = Vec::new();
    let mut b: Vec<char> = Vec::new();
    let mut z: Vec<char> = Vec::new();
    let mut i: usize = 0;
    while i < n
        invariant
            i <= n,
            n == cs.len(),
            c <= d <= n,
            a@ == cs@.take(if i < c { i as int } else { c as int }),
            b@ == cs@.subrange(c as int, if i < c { c as int } else if i < d { i as int } else { d as int }),
            z@ == cs@.subrange(d as int, if i < d { d as int } else { i as int }),
        decreases n - i,
    {
        if i < c {
            a.push(cs[i]);
        } else if i < d {
            b.push(cs[i]);
        } else {
            z.push(cs[i]);
        }
        i = i + 1;
        assert(a@ =~= cs@.take(if i < c { i as int } else { c as int }));
        assert(b@ =~= cs@.subrange(c as int, if i < c { c as int } else if i < d { i as int } else { d as int }));
        assert(z@ =~= cs@.subrange(d as int, if i < d { d as int } else { i as int }));
    }
    assert(z@ =~= cs@.skip(d as int));
    (string_of(&a), string_of(&b), string_of(&z))
}

// ───────────────────────── the tuner popup ─────────────────────────

pub open spec fn on_off_caps(b: bool) -> Seq<char> {
    if b {
        "ON"@
    } else {
        "OFF"@
    }
}

/// The heading of a tuner page.
pub open spec fn page_title_spec(page: usize) -> Seq<char> {
    if page == 0 {
        "COMPUTE & MEMORY"@
    } else if page == 1 {
        "CONTEXT & SPECULATION"@
    } else {
        "ORCHESTRATION & SECURITY"@
    }
}

pub fn page_title(page: usize) -> (s: String)
    ensures
        s@ == page_title_spec(page),
{
    if page == 0 {
        "COMPUTE & MEMORY".to_string()
    } else if page == 1 {
        "CONTEXT & SPECULATION".to_string()
    } else {
        "ORCHESTRATION & SECURITY".to_string()
    }
}

/// The label and value of each row of the tuner's current page; the RoPE
/// scale and defragmentation threshold come as the text the front end wrote
/// them as.
pub open spec fn tuner_rows_spec(t: Tuner, rope_scale: Seq<char>, defrag: Seq<char>) -> Seq<
    (Seq<char>, Seq<char>),
> {
    if t.page == 0 {
        seq![
            ("GPU Layers (ngl)"@, decimal_i(t.current_ngl)),
            ("Context Size (ctx)"@, decimal_i(t.current_ctx)),
            ("CPU Threads (threads)"@, digits(t.current_threads as nat)),
            ("Batch Size (n_batch)"@, decimal_i(t.current_batch)),
            ("Parallel Slots (np)"@, decimal_i(t.current_parallel)),
            ("Flash Attention"@, on_off_caps(t.flash_attn)),
            ("Memory Lock (mlock)"@, on_off_caps(t.mlock)),
            ("No Mem Map (no_mmap)"@, on_off_caps(t.no_mmap)),
            ("KV Cache (K-Type)"@, cache_type(t.cache_k_idx)),
            ("KV Cache (V-Type)"@, cache_type(t.cache_v_idx)),
        ]
    } else if t.page == 1 {
        seq![
            ("RoPE Base"@, decimal_i(t.rope_base)),
            ("RoPE Scale"@, rope_scale),
            ("Defrag Threshold"@, defrag),
            ("Draft Max"@, decimal_i(t.draft_max)),
            ("Draft Min"@, decimal_i(t.draft_min)),
        ]
    } else {
        seq![
            ("Threads per Batch"@, digits(t.threads_batch as nat)),
            ("U-Batch Size"@, decimal_i(t.ubatch_size)),
            ("Continuous Batching"@, on_off_caps(t.cont_batching)),
            ("Context Shift"@, on_off_caps(t.ctx_shift)),
            ("Metrics"@, on_off_caps(t.metrics)),
            ("API Key"@, on_off_caps(t.api_key)),
        ]
    }
}

pub open spec fn decimal_i(n: i32) -> Seq<char> {
    crate::text::decimal(n as int)
}

pub open spec fn pairs_view(v: Seq<(String, String)>) -> Seq<(Seq<char>, Seq<char>)> {
    v.map_values(|p: (String, String)| (p.0@, p.1@))
}

fn row(label: &str, value: String) -> (p: (String, String))
    ensures
        p.0@ == label@,
        p.1@ == value@,
{
    (label.to_string(), value)
}

fn on_off_text(b: bool) -> (s: String)
    ensures
        s@ == on_off_caps(b),
{
    if b {
        "ON".to_string()
    } else {
        "OFF".to_string()
    }
}

fn cache_text(i: usize) -> (s: String)
    requires
        i < 9,
    ensures
        s@ == cache_type(i),
{
    if i == 0 {
        "f16".to_string()
    } else if i == 1 {
        "f32".to_string()
    } else if i == 2 {
        "bf16".to_string()
    } else if i == 3 {
        "q8_0".to_string()
    } else if i == 4 {
        "q4_0".to_string()
    } else if i == 5 {
        "q4_1".to_string()
    } else if i == 6 {
        "iq4_nl".to_string()
    } else if i == 7 {
        "q5_0".to_string()
    } else {
        "q5_1".to_string()
    }
}

/// The rows of the tuner's current page.
pub fn tuner_rows(t: &Tuner, rope_scale: &str, defrag: &str) -> (r: Vec<(String, String)>)
    requires
        t.cache_k_idx < 9,
        t.cache_v_idx < 9,
    ensures
        pairs_view(r@) == tuner_rows_spec(*t, rope_scale@, defrag@),
{
    let r = if t.page == 0 {
        vec![
            row("GPU Layers (ngl)", int_to_string(t.current_ngl as i64)),
            row("Context Size (ctx)", int_to_string(t.current_ctx as i64)),
            row("CPU Threads (threads)", nat_to_string(t.current_threads as u128)),
            row("Batch Size (n_batch)", int_to_string(t.current_batch as i64)),
            row("Parallel Slots (np)", int_to_string(t.current_parallel as i64)),
            row("Flash Attention", on_off_text(t.flash_attn)),
            row("Memory Lock (mlock)", on_off_text(t.mlock)),
            row("No Mem Map (no_mmap)", on_off_text(t.no_mmap)),
            row("KV Cache (K-Type)", cache_text(t.cache_k_idx)),
            row("KV Cache (V-Type)", cache_text(t.cache_v_idx)),
        ]
    } else if t.page == 1 {
        vec![
            row("RoPE Base", int_to_string(t.rope_base as i64)),
            row("RoPE Scale", rope_scale.to_string()),
            row("Defrag Threshold", defrag.to_string()),
            row("Draft Max", int_to_string(t.draft_max as i64)),
            row("Draft Min", int_to_string(t.draft_min as i64)),
        ]
    } else {
        vec![
            row("Threads per Batch", nat_to_string(t.threads_batch as u128)),
            row("U-Batch Size", int_to_string(t.ubatch_size as i64)),
            row("Continuous Batching", on_off_text(t.cont_batching)),
            row("Context Shift", on_off_text(t.ctx_shift)),
            row("Metrics", on_off_text(t.metrics)),
            row("API Key", on_off_text(t.api_key)),
        ]
    };
    assert(pairs_view(r@) =~= tuner_rows_spec(*t, rope_scale@, defrag@));
    r
}

/// `n` spaces.
pub open spec fn spaces(n: nat) -> Seq<char> {
    Seq::new(n, |i: int| ' ')
}

/// A tuner row as shown: the label padded to 24 columns after its colon,
/// the value padded to 10, then the arrows (widths counted in characters).
pub open spec fn row_line_spec(label: Seq<char>, value: Seq<char>) -> Seq<char> {
    let pad = if label.len() < 24 {
        (24 - label.len()) as nat
    } else {
        0
    };
    let vpad = if value.len() < 10 {
        (10 - value.len()) as nat
    } else {
        0
    };
    "  "@ + label + ":"@ + spaces(pad) + value + spaces(vpad) + "[< / >]  "@
}

fn push_spaces(s: &mut String, n: usize)
    ensures
        final(s)@ == old(s)@ + spaces(n as nat),
{
    let mut i: usize = 0;
    while i < n
        invariant
            i <= n,
            s@ == old(s)@ + spaces(i as nat),
        decreases n - i,
    {
        push_char(s, ' ');
        i = i + 1;
        assert(s@ =~= old(s)@ + spaces(i as nat));
    }
}

pub fn row_line(label: &str, value: &str) -> (s: String)
    ensures
        s@ == row_line_spec(label@, value@),
{
    let ln = chars_of(label).len();
    let vn = chars_of(value).len();
    let mut s = "  ".to_string();
    push_str(&mut s, label);
    push_str(&mut s, ":");
    push_spaces(&mut s, if ln < 24 { 24 - ln } else { 0 });
    push_str(&mut s, value);
    push_spaces(&mut s, if vn < 10 { 10 - vn } else { 0 });
    push_str(&mut s, "[< / >]  ");
    s
}

// ───────────────────────── popups ─────────────────────────

/// A rectangle of terminal cells.
#[derive(PartialEq, Eq, Structural, Clone, Copy, Debug)]
pub struct Area {
    pub x: u16,
    pub y: u16,
    pub width: u16,
    pub height: u16,
}

pub open spec fn area_tuple(a: Area) -> (u16, u16, u16, u16) {
    (a.x, a.y, a.width, a.height)
}

/// What `ratatui`'s `Layout::split` gives as the middle of three areas:
/// `lead` cells, `len` cells and the rest, along the height (`vertical`) or
/// the width of `area`.
pub uninterp spec fn layout_middle(area: (u16, u16, u16, u16), vertical: bool, lead: u16, len: u16) -> (u16, u16, u16, u16);

/// `ratatui::layout::Layout::split` with the constraints `Length(lead)`,
/// `Length(len)`, `Min(0)` (default flex, no margin, no spacing). The
/// contract claims that the middle area is what `layout_middle` names for
/// these arguments, and, when both lengths fit in the split direction's
/// extent and end by the last cell coordinate (ratatui clips the area's end
/// there), that it starts `lead` cells in and is `len` cells long: the
/// solver's exact-length constraints then outweigh all its growth terms.
/// Where the lengths do not fit, how the solver shrinks them is left unsaid.
#[verifier::external_body]
fn split_middle(area: Area, vertical: bool, lead: u16, len: u16) -> (r: Area)
    ensures
        area_tuple(r) == layout_middle(area_tuple(area), vertical, lead, len),
        vertical && lead + len <= area.height && area.y + lead + len <= u16::MAX
            ==> area_tuple(r) == (
            area.x,
            (area.y + lead) as u16,
            area.width,
            len,
        ),
        !vertical && lead + len <= area.width && area.x + lead + len <= u16::MAX
            ==> area_tuple(r) == (
            (area.x + lead) as u16,
            area.y,
            len,
            area.height,
        ),
{
    let rect = Rect { x: area.x, y: area.y, width: area.width, height: area.height };
    let direction = if vertical { Direction::Vertical } else { Direction::Horizontal };
    let parts = Layout::default().direction(direction).constraints(
        [Constraint::Length(lead), Constraint::Length(len), Constraint::Min(0)],
    ).split(rect);
    Area { x: parts[1].x, y: parts[1].y, width: parts[1].width, height: parts[1].height }
}

pub open spec fn half_rest(total: u16, fixed: u16) -> u16 {
    (if total > fixed {
        ((total - fixed) / 2) as u16
    } else {
        0u16
    })
}

/// A `width` × `height` popup centred in `r`: the middle row of the split
/// that leaves half the spare height above it, then the middle column of
/// the split that leaves half the spare width to its left.
pub open spec fn centered_spec(width: u16, height: u16, r: Area) -> (u16, u16, u16, u16) {
    let row = layout_middle(area_tuple(r), true, half_rest(r.height, height), height);
    layout_middle(row, false, half_rest(r.width, width), width)
}

/// A popup that fits in the area and, placed there, ends by the last cell
/// coordinate is centred: half the spare width to its left and half the
/// spare height above it, rounded down.
pub open spec fn centered_when_fits(width: u16, height: u16, r: Area) -> (u16, u16, u16, u16) {
    (
        (r.x + (r.width - width) / 2) as u16,
        (r.y + (r.height - height) / 2) as u16,
        width,
        height,
    )
}

pub fn centered_rect_absolute(width: u16, height: u16, r: Area) -> (a: Area)
    ensures
        area_tuple(a) == centered_spec(width, height, r),
        width <= r.width && height <= r.height && r.x + (r.width - width) / 2 + width
            <= u16::MAX && r.y + (r.height - height) / 2 + height <= u16::MAX ==> area_tuple(a)
            == centered_when_fits(width, height, r),
{
    let lead_y = if r.height > height {
        (r.height - height) / 2
    } else {
        0
    };
    let row = split_middle(r, true, lead_y, height);
    let lead_x = if r.width > width {
        (r.width - width) / 2
    } else {
        0
    };
    split_middle(row, false, lead_x, width)
}

} // verus!

verus! {

// ───────────────────────── laws ─────────────────────────

/// With an empty search every log line is shown, in order.
pub proof fn law_empty_search_shows_all(ls: Seq<Seq<char>>)
    ensures
        shown_logs(ls, Seq::empty()) == ls,
    decreases ls.len(),
{
    if ls.len() > 0 {
        law_empty_search_shows_all(ls.drop_last());
        assert(ls.drop_last().push(ls.last()) =~= ls);
    }
}

/// The search only hides lines: what it shows is a subsequence of the log,
/// every shown line matches the query, and no more lines are shown than the
/// log holds.
pub proof fn law_search_only_hides(ls: Seq<Seq<char>>, query: Seq<char>)
    ensures
        shown_logs(ls, query).len() <= ls.len(),
        forall|i: int|
            0 <= i < shown_logs(ls, query).len() ==> log_shown(#[trigger] shown_logs(ls, query)[i], query)
                && ls.contains(shown_logs(ls, query)[i]),
    decreases ls.len(),
{
    if ls.len() > 0 {
        let prev = shown_logs(ls.drop_last(), query);
        law_search_only_hides(ls.drop_last(), query);
        let cur = shown_logs(ls, query);
        assert forall|i: int| 0 <= i < cur.len() implies log_shown(#[trigger] cur[i], query)
            && ls.contains(cur[i]) by {
            if i < prev.len() {
                assert(cur[i] == prev[i]);
                let j = choose|j: int| 0 <= j < ls.drop_last().len() && ls.drop_last()[j] == prev[i];
                assert(ls[j] == prev[i]);
            } else {
                assert(cur[i] == ls.last());
                assert(ls[ls.len() - 1] == ls.last());
            }
        }
    }
}

/// The console's three pieces put back together give the input.
pub proof fn law_cursor_split_rejoins(input: Seq<char>, cursor: nat)
    ensures
        cursor_split_spec(input, cursor).0 + cursor_split_spec(input, cursor).1
            + cursor_split_spec(input, cursor).2 == input,
        cursor <= input.len() ==> cursor_split_spec(input, cursor).0.len() == cursor,
{
    let (a, b, c) = cursor_split_spec(input, cursor);
    assert(a + b + c =~= input);
}

/// On its first and third pages the tuner shows exactly the rows its cursor
/// can reach: the last row index the arrow keys allow is the last row drawn.
pub proof fn law_tuner_rows_match_cursor(t: Tuner, rope_scale: Seq<char>, defrag: Seq<char>)
    requires
        t.page == 0 || t.page == 2,
    ensures
        tuner_rows_spec(t, rope_scale, defrag).len() == crate::keys::tuner_rows_max(t.page) + 1,
{
}

proof fn lemma_byte_len_concat(a: Seq<char>, b: Seq<char>)
    ensures
        byte_len(a + b) == byte_len(a) + byte_len(b),
    decreases b.len(),
{
    if b.len() == 0 {
        assert(a + b =~= a);
    } else {
        lemma_byte_len_concat(a, b.drop_last());
        assert((a + b).drop_last() =~= a + b.drop_last());
    }
}

/// A shortened name never takes more than 24 bytes.
pub proof fn law_clipped_fits(name: Seq<char>, k: int)
    requires
        0 <= k <= name.len(),
        byte_len(name.take(k)) == 21,
    ensures
        byte_len(clip_name_spec(name, k)) <= 24,
{
    reveal_strlit("...");
    if byte_len(name) > 24 {
        lemma_byte_len_concat(name.take(k), "..."@);
        assert("..."@ =~= seq!['.', '.', '.']);
        assert(seq!['.', '.', '.'].drop_last() =~= seq!['.', '.']);
        assert(seq!['.', '.'].drop_last() =~= seq!['.']);
        assert(seq!['.'].drop_last() =~= Seq::<char>::empty());
        assert(byte_len(Seq::<char>::empty()) == 0);
        assert(byte_len(seq!['.']) == 1);
        assert(byte_len(seq!['.', '.']) == 2);
        assert(byte_len(seq!['.', '.', '.']) == 3);
    }
}

/// A log line is coloured by the first class whose marker it holds: any of
/// `OOM`, `Failed` or `error` is an alert whatever else it holds; a model
/// load or hot-swap without those is a notice; an engine `llama_` line
/// without either is blue; any other line is plain.
pub proof fn law_log_tone_by_marker(l: Seq<char>)
    ensures
        contains(l, "OOM"@) ==> log_tone_spec(l) == Tone::Alert,
        contains(l, "Failed"@) ==> log_tone_spec(l) == Tone::Alert,
        contains(l, "error"@) ==> log_tone_spec(l) == Tone::Alert,
        log_tone_spec(l) == Tone::Alert ==> contains(l, "OOM"@) || contains(l, "Failed"@)
            || contains(l, "error"@),
        log_tone_spec(l) == Tone::Notice <==> !(contains(l, "OOM"@) || contains(l, "Failed"@)
            || contains(l, "error"@)) && (contains(l, "Loading Model"@) || contains(
            l,
            "Hot-swap"@,
        )),
        log_tone_spec(l) == Tone::Engine <==> !(contains(l, "OOM"@) || contains(l, "Failed"@)
            || contains(l, "error"@) || contains(l, "Loading Model"@) || contains(l, "Hot-swap"@))
            && contains(l, "llama_"@),
        log_tone_spec(l) == Tone::Plain <==> !(contains(l, "OOM"@) || contains(l, "Failed"@)
            || contains(l, "error"@) || contains(l, "Loading Model"@) || contains(l, "Hot-swap"@)
            || contains(l, "llama_"@)),
{
}

/// The port line is red when the audit found a zombie (even beside a
/// secure engine), green when the engine holds the port, and grey
/// otherwise.
pub proof fn law_port_tone_by_marker(status: Seq<char>)
    ensures
        port_tone_spec(status) == PortTone::Alarm <==> contains(status, "ZOMBIE"@),
        port_tone_spec(status) == PortTone::Secure <==> !contains(status, "ZOMBIE"@) && contains(
            status,
            "SECURE"@,
        ),
        port_tone_spec(status) == PortTone::Muted <==> !contains(status, "ZOMBIE"@) && !contains(
            status,
            "SECURE"@,
        ),
{
}

/// The uptime reads as whole hours, then the minutes past them (below 60),
/// each of at least two digits: for `h` hours and `m` minutes with
/// `h * 3600 + m * 60 <= secs < h * 3600 + m * 60 + 60` the text is
/// `HHh MMm` of `h` and `m`; a number below ten gets a leading zero.
pub proof fn law_uptime_reads_hours_and_minutes(secs: u64, h: nat, m: nat)
    requires
        m < 60,
        h * 3600 + m * 60 <= secs < h * 3600 + m * 60 + 60,
    ensures
        uptime_text_spec(secs) == two_digits(h) + "h "@ + two_digits(m) + "m"@,
        h < 10 ==> two_digits(h) == seq!['0'] + digits(h),
        h >= 10 ==> two_digits(h) == digits(h),
        m < 10 ==> two_digits(m) == seq!['0'] + digits(m),
        m >= 10 ==> two_digits(m) == digits(m),
{
    let x = secs as int;
    let r = x - h * 3600;
    vstd::arithmetic::div_mod::lemma_fundamental_div_mod_converse(x, 3600, h as int, r);
    vstd::arithmetic::div_mod::lemma_fundamental_div_mod_converse(r, 60, m as int, r - m * 60);
}

/// Stepping the highlighted tuner row left or right changes what the tuner
/// shows on that row only: every other row keeps its label and value.
pub proof fn law_step_changes_only_its_row(
    t: Tuner,
    cores: usize,
    n_models: nat,
    right: bool,
    rope_scale: Seq<char>,
    defrag: Seq<char>,
    j: int,
)
    requires
        0 <= j < tuner_rows_spec(t, rope_scale, defrag).len(),
        j != t.selected,
    ensures
        tuner_rows_spec(crate::keys::tuner_adjust(t, cores, n_models, right), rope_scale, defrag).len()
            == tuner_rows_spec(t, rope_scale, defrag).len(),
        tuner_rows_spec(crate::keys::tuner_adjust(t, cores, n_models, right), rope_scale, defrag)[j]
            == tuner_rows_spec(t, rope_scale, defrag)[j],
{
    reveal(crate::keys::tuner_adjust);
    let u = crate::keys::tuner_adjust(t, cores, n_models, right);
    let a = tuner_rows_spec(t, rope_scale, defrag);
    let b = tuner_rows_spec(u, rope_scale, defrag);
    assert(u.page == t.page);
    if t.page == 0 {
        assert(u == crate::keys::tuner_adjust_page0(t, cores, n_models, right));
        lemma_first_page_row_kept(t, u, rope_scale, defrag, j);
    } else if t.page == 1 {
        assert(u == crate::keys::tuner_adjust_page1(t, cores, n_models, right));
        assert(b[j] == a[j]);
    } else {
        assert(t.page >= 3 ==> u == t);
        assert(b[j] == a[j]);
    }
}

#[verifier::rlimit(50)]
proof fn lemma_first_page_row_kept(
    t: Tuner,
    u: Tuner,
    rope_scale: Seq<char>,
    defrag: Seq<char>,
    j: int,
)
    requires
        t.page == 0,
        u.page == 0,
        0 <= j < 10,
        j != t.selected,
        t.selected == 0 || u.current_ngl == t.current_ngl,
        t.selected == 1 || u.current_ctx == t.current_ctx,
        t.selected == 2 || u.current_threads == t.current_threads,
        t.selected == 3 || u.current_batch == t.current_batch,
        t.selected == 4 || u.current_parallel == t.current_parallel,
        t.selected == 5 || u.flash_attn == t.flash_attn,
        t.selected == 6 || u.mlock == t.mlock,
        t.selected == 7 || u.no_mmap == t.no_mmap,
        t.selected == 8 || u.cache_k_idx == t.cache_k_idx,
        t.selected == 9 || u.cache_v_idx == t.cache_v_idx,
    ensures
        tuner_rows_spec(u, rope_scale, defrag)[j] == tuner_rows_spec(t, rope_scale, defrag)[j],
{
    let a = tuner_rows_spec(t, rope_scale, defrag);
    let b = tuner_rows_spec(u, rope_scale, defrag);
    if j == 0 {
        assert(b[0] == a[0]);
    } else if j == 1 {
        assert(b[1] == a[1]);
    } else if j == 2 {
        assert(b[2] == a[2]);
    } else if j == 3 {
        assert(b[3] == a[3]);
    } else if j == 4 {
        assert(b[4] == a[4]);
    } else if j == 5 {
        assert(b[5] == a[5]);
    } else if j == 6 {
        assert(b[6] == a[6]);
    } else if j == 7 {
        assert(b[7] == a[7]);
    } else if j == 8 {
        assert(b[8] == a[8]);
    } else if j == 9 {
        assert(b[9] == a[9]);
    }
}

} // verus!
