//! The dashboard's side of the router: the model list it polls, the
//! payloads it sends, the streamed reply it reads, and the port auditor's
//! verdict.
use vstd::prelude::*;
use crate::json::{
    array_of, as_array, as_str, element, field, get_element, get_field, has_name, items_view,
    json_from_bytes, json_from_text, json_text, lemma_fields_view, lemma_items_view,
    parse_json_bytes, parse_json_text, render_json, same_str, str_of, Json, JsonView, fields_view,
};
use crate::keys::concat3;
use crate::text::{
    chars_of, chars_start_with, contains, digits, extend_str, find_first, first_match,
    first_occurrence, is_blank, lemma_first_match_at, nat_to_string, push_str, split_chars,
    split_on, starts_with, string_of, sub_chars, trim, trim_chars, vv,
};

verus! {

// ───────────────────────── the model list ─────────────────────────

/// The string ids of the entries, in order.
pub open spec fn ids_of(a: Seq<JsonView>) -> Seq<Seq<char>>
    decreases a.len(),
{
    if a.len() == 0 {
        Seq::empty()
    } else {
        let prev = ids_of(a.drop_last());
        match str_of(field(a.last(), "id"@)) {
            Some(s) => prev.push(s),
            None => prev,
        }
    }
}

/// The model ids of a parsed `/v1/models` reply; `None` when it has no
/// `data` array.
pub open spec fn reply_ids(v: JsonView) -> Option<Seq<Seq<char>>> {
    match array_of(field(v, "data"@)) {
        Some(a) => Some(ids_of(a)),
        None => None,
    }
}

/// The model ids of a `/v1/models` reply; `None` when it is not JSON or has
/// no `data` array.
pub open spec fn model_ids_spec(body: Seq<u8>) -> Option<Seq<Seq<char>>> {
    match json_from_bytes(body) {
        Some(v) => reply_ids(v),
        None => None,
    }
}

pub open spec fn strings_view(v: Seq<String>) -> Seq<Seq<char>> {
    v.map_values(|s: String| s@)
}

/// The model ids of a `/v1/models` reply.
pub fn model_ids(body: &[u8]) -> (r: Option<Vec<String>>)
    ensures
        match r {
            Some(ids) => model_ids_spec(body@) == Some(strings_view(ids@)),
            None => model_ids_spec(body@) is None,
        },
{
    match parse_json_bytes(body) {
        Some(doc) => ids_in_reply(&doc),
        None => None,
    }
}

/// The model ids of a parsed `/v1/models` reply.
pub fn ids_in_reply(doc: &Json) -> (r: Option<Vec<String>>)
    ensures
        match r {
            Some(ids) => reply_ids(doc@) == Some(strings_view(ids@)),
            None => reply_ids(doc@) is None,
        },
{
    let items = match as_array(get_field(doc, "data")) {
        Some(items) => items,
        None => return None,
    };
    proof {
        lemma_items_view(items@);
    }
    let ghost a = items_view(items@);
    let mut out: Vec<String> = Vec::new();
    let mut i: usize = 0;
    while i < items.len()
        invariant
            i <= items.len(),
            a == items_view(items@),
            a.len() == items.len(),
            forall|k: int| 0 <= k < items.len() ==> #[trigger] a[k] == items@[k]@,
            strings_view(out@) == ids_of(a.take(i as int)),
        decreases items.len() - i,
    {
        let ghost prev = strings_view(out@);
        assert(a.take(i + 1).drop_last() =~= a.take(i as int));
        assert(a.take(i + 1).last() == items@[i as int]@);
        match as_str(get_field(&items[i], "id")) {
            Some(s) => {
                out.push(s);
                assert(strings_view(out@) =~= prev.push(str_of(field(a[i as int], "id"@))->0));
            },
            None => {},
        }
        i = i + 1;
    }
    assert(a.take(items.len() as int) =~= a);
    Some(out)
}

// ───────────────────────── payloads ─────────────────────────

/// The members of an object with `key` set to `v`: the first member named
/// `key` gets the value, or the member is added at the end.
pub open spec fn set_member(fs: Seq<(Seq<char>, JsonView)>, key: Seq<char>, v: JsonView) -> Seq<
    (Seq<char>, JsonView),
> {
    let i = first_match(fs, |f: (Seq<char>, JsonView)| has_name(f, key));
    if i < fs.len() {
        fs.update(i, (key, v))
    } else {
        fs.push((key, v))
    }
}

/// An object with `"stream": true` set; any other value as it is.
pub open spec fn with_stream_flag(v: JsonView) -> JsonView {
    match v {
        JsonView::Object(fs) => JsonView::Object(set_member(fs, "stream"@, JsonView::Bool(true))),
        _ => v,
    }
}

/// The interrogator's payload as sent: parsed as JSON (an empty object when
/// it is not JSON), `"stream": true` set when it is an object, and written
/// back as compact JSON.
pub open spec fn streaming_payload_spec(payload: Seq<char>) -> Seq<char> {
    json_text(
        with_stream_flag(
            match json_from_text(payload) {
                Some(v) => v,
                None => JsonView::Object(Seq::empty()),
            },
        ),
    )
}

/// The interrogator's payload as sent to the router.
pub fn streaming_payload(payload: &str) -> (s: String)
    ensures
        s@ == streaming_payload_spec(payload@),
{
    let doc = match parse_json_text(payload) {
        Some(v) => v,
        None => {
            proof {
                lemma_fields_view(Seq::<(String, Json)>::empty());
            }
            let e = Json::Object(Vec::new());
            assert(e@ == JsonView::Object(fields_view(Seq::empty())));
            assert(fields_view(Seq::<(String, Json)>::empty()) =~= Seq::empty());
            e
        },
    };
    let flagged = with_stream_set(doc);
    render_json(&flagged)
}

/// A payload value with `"stream": true` set, when it is an object.
pub fn with_stream_set(doc: Json) -> (r: Json)
    ensures
        r@ == with_stream_flag(doc@),
{
    let ghost dv = doc@;
    match doc {
        Json::Object(mut fs) => {
            proof {
                lemma_fields_view(fs@);
            }
            let ghost fv = fields_view(fs@);
            assert(dv == JsonView::Object(fv));
            let mut i: usize = 0;
            while i < fs.len() && !same_str(fs[i].0.as_str(), "stream")
                invariant
                    i <= fs.len(),
                    fv == fields_view(fs@),
                    fv.len() == fs.len(),
                    forall|k: int| 0 <= k < fs.len() ==> #[trigger] fv[k] == (fs@[k].0@, json_view_of(fs@[k].1)),
                    forall|k: int| 0 <= k < i ==> !has_name(#[trigger] fv[k], "stream"@),
                decreases fs.len() - i,
            {
                i = i + 1;
            }
            proof {
                lemma_first_match_at(fv, |f: (Seq<char>, JsonView)| has_name(f, "stream"@), i as int);
            }
            let entry = ("stream".to_string(), Json::Bool(true));
            if i < fs.len() {
                fs.set(i, entry);
            } else {
                fs.push(entry);
            }
            proof {
                lemma_fields_view(fs@);
                assert(fields_view(fs@) =~= set_member(fv, "stream"@, JsonView::Bool(true)));
            }
            Json::Object(fs)
        },
        other => other,
    }
}

pub open spec fn json_view_of(j: Json) -> JsonView {
    j@
}

/// The hot-swap deck's one-token warm-up request for a model.
pub open spec fn warmup_payload_spec(model: Seq<char>) -> Seq<char> {
    "{\"model\": \""@ + model + "\", \"messages\": [{\"role\": \"user\", \"content\": \"warmup\"}], \"max_tokens\": 1}"@
}

pub fn warmup_payload(model: &str) -> (s: String)
    ensures
        s@ == warmup_payload_spec(model@),
{
    concat3(
        "{\"model\": \"",
        model,
        "\", \"messages\": [{\"role\": \"user\", \"content\": \"warmup\"}], \"max_tokens\": 1}",
    )
}

// ───────────────────────── the streamed reply ─────────────────────────

/// The complete lines of a stream buffer, trimmed, and what follows the
/// last newline.
pub open spec fn sse_lines_spec(buffer: Seq<char>) -> (Seq<Seq<char>>, Seq<char>) {
    let p = split_on(buffer, '\n');
    (Seq::new((p.len() - 1) as nat, |i: int| trim(p[i])), p.last())
}

/// Splits the stream buffer into its complete lines (trimmed) and the rest.
pub fn split_sse_lines(buffer: &str) -> (r: (Vec<String>, String))
    ensures
        strings_view(r.0@) == sse_lines_spec(buffer@).0,
        r.1@ == sse_lines_spec(buffer@).1,
{
    let chars = chars_of(buffer);
    let pieces = split_chars(&chars, '\n');
    let ghost p = split_on(buffer@, '\n');
    proof {
        crate::text::lemma_split_nonempty(buffer@, '\n');
    }
    let last = pieces.len() - 1;
    let mut out: Vec<String> = Vec::new();
    let mut k: usize = 0;
    while k < last
        invariant
            k <= last,
            last == pieces.len() - 1,
            p == vv(pieces@),
            strings_view(out@) == Seq::new(k as nat, |i: int| trim(p[i])),
        decreases last - k,
    {
        let t = trim_chars(&pieces[k]);
        assert(p[k as int] == pieces@[k as int]@);
        let ghost o = strings_view(out@);
        out.push(string_of(&t));
        assert(strings_view(out@) =~= o.push(trim(p[k as int])));
        k = k + 1;
        assert(strings_view(out@) =~= Seq::new(k as nat, |i: int| trim(p[i])));
    }
    assert(p.last() == pieces@[last as int]@);
    (out, string_of(&pieces[last]))
}

/// `t` with each newline shown as " ⏎ ".
pub open spec fn mark_newlines(t: Seq<char>) -> Seq<char>
    decreases t.len(),
{
    if t.len() == 0 {
        Seq::empty()
    } else if t.last() == '\n' {
        mark_newlines(t.drop_last()) + " \u{23ce} "@
    } else {
        mark_newlines(t.drop_last()).push(t.last())
    }
}

pub open spec fn field_in(o: Option<JsonView>, key: Seq<char>) -> Option<JsonView> {
    match o {
        Some(v) => field(v, key),
        None => None,
    }
}

pub open spec fn element_in(o: Option<JsonView>, i: int) -> Option<JsonView> {
    match o {
        Some(v) => element(v, i),
        None => None,
    }
}

/// The token a parsed event of a streamed chat reply carries: the string at
/// `choices[0].delta.content`, newlines marked.
pub open spec fn event_token(v: JsonView) -> Option<Seq<char>> {
    match str_of(field_in(field_in(element_in(field(v, "choices"@), 0), "delta"@), "content"@)) {
        Some(t) => Some(mark_newlines(t)),
        None => None,
    }
}

/// The token a line of a streamed chat reply carries: a `data: ` line other
/// than `data: [DONE]`, whose JSON has a string at
/// `choices[0].delta.content`, newlines marked.
pub open spec fn sse_token_spec(line: Seq<char>) -> Option<Seq<char>> {
    if !starts_with(line, "data: "@) {
        None
    } else {
        let data = line.skip("data: "@.len() as int);
        if data == "[DONE]"@ {
            None
        } else {
            match json_from_text(data) {
                Some(v) => event_token(v),
                None => None,
            }
        }
    }
}

fn mark_newlines_exec(t: &String) -> (s: String)
    ensures
        s@ == mark_newlines(t@),
{
    let cs = chars_of(t.as_str());
    let mut out: Vec<char> = Vec::new();
    let mut i: usize = 0;
    while i < cs.len()
        invariant
            i <= cs.len(),
            out@ == mark_newlines(cs@.take(i as int)),
        decreases cs.len() - i,
    {
        assert(cs@.take(i + 1).drop_last() =~= cs@.take(i as int));
        if cs[i] == '\n' {
            extend_str(&mut out, " \u{23ce} ");
        } else {
            out.push(cs[i]);
        }
        i = i + 1;
    }
    assert(cs@.take(cs.len() as int) =~= cs@);
    string_of(&out)
}

/// The token of one streamed line, if it carries one.
pub fn sse_token(line: &str) -> (r: Option<String>)
    ensures
        match r {
            Some(t) => sse_token_spec(line@) == Some(t@),
            None => sse_token_spec(line@) is None,
        },
{
    let cs = chars_of(line);
    let prefix = chars_of("data: ");
    if !chars_start_with(&cs, &prefix) {
        return None;
    }
    let data_chars = sub_chars(&cs, prefix.len(), cs.len());
    assert(data_chars@ =~= line@.skip("data: "@.len() as int));
    let data = string_of(&data_chars);
    if same_str(data.as_str(), "[DONE]") {
        return None;
    }
    match parse_json_text(data.as_str()) {
        Some(doc) => token_in_event(&doc),
        None => None,
    }
}

/// The token of one parsed event of a streamed chat reply, if it carries one.
pub fn token_in_event(doc: &Json) -> (r: Option<String>)
    ensures
        match r {
            Some(t) => event_token(doc@) == Some(t@),
            None => event_token(doc@) is None,
        },
{
    let choices = get_field(doc, "choices");
    let first = match choices {
        Some(c) => get_element(c, 0),
        None => None,
    };
    let delta = match first {
        Some(f) => get_field(f, "delta"),
        None => None,
    };
    let content = match delta {
        Some(d) => get_field(d, "content"),
        None => None,
    };
    match as_str(content) {
        Some(t) => Some(mark_newlines_exec(&t)),
        None => None,
    }
}

// ───────────────────────── the port auditor ─────────────────────────

pub open spec fn unknown_blocker() -> Seq<char> {
    "UNKNOWN (Requires Sudo?)"@
}

/// The process `ss` names as holding the port: the text between `users:(("`
/// and the next quote.
pub open spec fn blocker_name(out: Seq<char>) -> Seq<char> {
    match first_occurrence(out, "users:((\""@) {
        Some(i) => {
            let rest = out.skip(i + "users:((\""@.len());
            match first_occurrence(rest, "\""@) {
                Some(e) => rest.take(e),
                None => unknown_blocker(),
            }
        },
        None => unknown_blocker(),
    }
}

/// The auditor's verdict on the port from `ss -lptn` output (`None` when
/// `ss` could not be run): offline when nothing listens on it, secure when
/// llama-server holds it, else blocked by the process `ss` names.
pub open spec fn port_audit_spec(port: u16, out: Option<Seq<char>>) -> Seq<char> {
    let p = digits(port as nat);
    let head = "Port "@ + p;
    match out {
        None => head + ": AUDIT ERROR"@,
        Some(o) => if trim(o).len() == 0 || !contains(o, p) {
            head + ": OFFLINE (Daemon Down)"@
        } else if contains(o, "llama-server"@) || contains(o, "llama-se"@) {
            head + ": SECURE (llama-server bound)"@
        } else {
            head + ": BLOCKED BY ["@ + blocker_name(o) + "]"@
        },
    }
}

fn blocker_of(out: &Vec<char>) -> (s: String)
    ensures
        s@ == blocker_name(out@),
{
    let marker = chars_of("users:((\"");
    let found = find_first(out, &marker);
    match found {
        Some(i) => {
            assert(crate::text::occurs_at(out@, marker@, i as int));
            let n = out.len();
            let rest = sub_chars(out, i + marker.len(), out.len());
            assert(rest@ =~= out@.skip(i + "users:((\""@.len()));
            let quote = chars_of("\"");
            let q = find_first(&rest, &quote);
            match q {
                Some(e) => {
                    assert(crate::text::occurs_at(rest@, quote@, e as int));
                    let name = sub_chars(&rest, 0, e);
                    assert(name@ =~= rest@.take(e as int));
                    string_of(&name)
                },
                None => "UNKNOWN (Requires Sudo?)".to_string(),
            }
        },
        None => "UNKNOWN (Requires Sudo?)".to_string(),
    }
}

/// The port auditor's status line.
pub fn port_audit_status(port: u16, out: &Option<String>) -> (s: String)
    ensures
        s@ == port_audit_spec(port, match out {
            Some(o) => Some(o@),
            None => None,
        }),
{
    let p = nat_to_string(port as u128);
    let mut head = "Port ".to_string();
    push_str(&mut head, p.as_str());
    match out {
        None => {
            push_str(&mut head, ": AUDIT ERROR");
            head
        },
        Some(o) => {
            let cs = chars_of(o.as_str());
            let pc = chars_of(p.as_str());
            if is_blank(&cs) || crate::text::find_in(&cs, &pc).is_none() {
                push_str(&mut head, ": OFFLINE (Daemon Down)");
                head
            } else if crate::text::str_contains(o.as_str(), "llama-server")
                || crate::text::str_contains(o.as_str(), "llama-se") {
                push_str(&mut head, ": SECURE (llama-server bound)");
                head
            } else {
                let name = blocker_of(&cs);
                push_str(&mut head, ": BLOCKED BY [");
                push_str(&mut head, name.as_str());
                push_str(&mut head, "]");
                head
            }
        },
    }
}

} // verus!

verus! {

// ───────────────────────── laws ─────────────────────────

/// A payload object sent by the interrogator always asks for a streamed
/// reply: its `stream` member is `true`, whatever it was before.
pub proof fn law_payload_streams(fs: Seq<(Seq<char>, JsonView)>)
    ensures
        field(with_stream_flag(JsonView::Object(fs)), "stream"@) == Some(JsonView::Bool(true)),
{
    let p = |f: (Seq<char>, JsonView)| has_name(f, "stream"@);
    crate::text::lemma_first_match_bounds(fs, p);
    let i = first_match(fs, p);
    let out = set_member(fs, "stream"@, JsonView::Bool(true));
    if i < fs.len() {
        assert forall|j: int| 0 <= j < i implies !p(#[trigger] out[j]) by {
            assert(out[j] == fs[j]);
        }
        lemma_first_match_at(out, p, i);
    } else {
        assert forall|j: int| 0 <= j < fs.len() implies !p(#[trigger] out[j]) by {
            assert(out[j] == fs[j]);
        }
        lemma_first_match_at(out, p, fs.len() as int);
    }
}

/// Members other than `stream` keep their values when the flag is set.
pub proof fn law_payload_keeps_other_members(fs: Seq<(Seq<char>, JsonView)>, key: Seq<char>)
    requires
        key != "stream"@,
    ensures
        field(with_stream_flag(JsonView::Object(fs)), key) == field(JsonView::Object(fs), key),
{
    let p = |f: (Seq<char>, JsonView)| has_name(f, "stream"@);
    let q = |f: (Seq<char>, JsonView)| has_name(f, key);
    crate::text::lemma_first_match_bounds(fs, p);
    crate::text::lemma_first_match_bounds(fs, q);
    let i = first_match(fs, p);
    let k = first_match(fs, q);
    let out = set_member(fs, "stream"@, JsonView::Bool(true));
    assert(!q(("stream"@, JsonView::Bool(true))));
    if k < fs.len() {
        assert forall|j: int| 0 <= j < k implies !q(#[trigger] out[j]) by {
            if j != i {
                assert(out[j] == fs[j]);
            }
        }
        assert(k != i || i >= fs.len());
        assert(out[k] == fs[k]);
        lemma_first_match_at(out, q, k);
    } else {
        assert forall|j: int| 0 <= j < out.len() implies !q(#[trigger] out[j]) by {
            if j < fs.len() && j != i {
                assert(out[j] == fs[j]);
            }
        }
        lemma_first_match_at(out, q, out.len() as int);
    }
}

/// The port auditor's verdict, by what `ss` printed: no output at all is an
/// audit error; blank output, or output that never names the port, means
/// the daemon is down; output that names the port and llama-server is
/// secure; anything else is blocked by the process `ss` names. Every
/// verdict starts with `Port <port>: `.
pub proof fn law_port_audit_verdicts(port: u16, out: Option<Seq<char>>)
    ensures
        ({
            let head = "Port "@ + digits(port as nat) + ": "@;
            let v = port_audit_spec(port, out);
            &&& v.take(head.len() as int) == head
            &&& out is None ==> v == head + "AUDIT ERROR"@
            &&& out matches Some(o) ==> {
                &&& trim(o).len() == 0 ==> v == head + "OFFLINE (Daemon Down)"@
                &&& !contains(o, digits(port as nat)) ==> v == head + "OFFLINE (Daemon Down)"@
                &&& trim(o).len() > 0 && contains(o, digits(port as nat)) && contains(
                    o,
                    "llama-server"@,
                ) ==> v == head + "SECURE (llama-server bound)"@
                &&& trim(o).len() > 0 && contains(o, digits(port as nat)) && !contains(
                    o,
                    "llama-server"@,
                ) && !contains(o, "llama-se"@) ==> v == head + "BLOCKED BY ["@ + blocker_name(o)
                    + "]"@
            }
        }),
{
    let p = digits(port as nat);
    let head = "Port "@ + p + ": "@;
    let v = port_audit_spec(port, out);
    reveal_strlit(": ");
    reveal_strlit(": AUDIT ERROR");
    reveal_strlit("AUDIT ERROR");
    reveal_strlit(": OFFLINE (Daemon Down)");
    reveal_strlit("OFFLINE (Daemon Down)");
    reveal_strlit(": SECURE (llama-server bound)");
    reveal_strlit("SECURE (llama-server bound)");
    reveal_strlit(": BLOCKED BY [");
    reveal_strlit("BLOCKED BY [");
    assert(": AUDIT ERROR"@ =~= ": "@ + "AUDIT ERROR"@);
    assert(": OFFLINE (Daemon Down)"@ =~= ": "@ + "OFFLINE (Daemon Down)"@);
    assert(": SECURE (llama-server bound)"@ =~= ": "@ + "SECURE (llama-server bound)"@);
    assert(": BLOCKED BY ["@ =~= ": "@ + "BLOCKED BY ["@);
    assert(("Port "@ + p) + ": AUDIT ERROR"@ =~= head + "AUDIT ERROR"@);
    assert(("Port "@ + p) + ": OFFLINE (Daemon Down)"@ =~= head + "OFFLINE (Daemon Down)"@);
    assert(("Port "@ + p) + ": SECURE (llama-server bound)"@ =~= head
        + "SECURE (llama-server bound)"@);
    match out {
        Some(o) => {
            assert(("Port "@ + p) + ": BLOCKED BY ["@ + blocker_name(o) + "]"@ =~= head
                + "BLOCKED BY ["@ + blocker_name(o) + "]"@);
        },
        None => {},
    }
    assert(v.take(head.len() as int) =~= head);
}

/// Whether a `/v1/models` entry has a string id.
pub open spec fn has_string_id(m: JsonView) -> bool {
    str_of(field(m, "id"@)) is Some
}

/// An entry's string id.
pub open spec fn string_id(m: JsonView) -> Seq<char> {
    str_of(field(m, "id"@))->0
}

/// The model list of a `/v1/models` reply holds the string id of every
/// entry of its `data` array that has one, in the order of the array, and
/// nothing else.
pub proof fn law_every_listed_model_is_read(a: Seq<JsonView>)
    ensures
        ids_of(a) == a.filter(|m: JsonView| has_string_id(m)).map_values(|m: JsonView| string_id(m)),
    decreases a.len(),
{
    reveal(Seq::filter);
    let p = |m: JsonView| has_string_id(m);
    let f = |m: JsonView| string_id(m);
    if a.len() == 0 {
        assert(a.filter(p) =~= Seq::<JsonView>::empty());
        assert(a.filter(p).map_values(f) =~= Seq::<Seq<char>>::empty());
    } else {
        law_every_listed_model_is_read(a.drop_last());
        let prev = a.drop_last().filter(p);
        if p(a.last()) {
            assert(prev.push(a.last()).map_values(f) =~= prev.map_values(f).push(f(a.last())));
        }
    }
}

/// Splitting a stream buffer keeps what follows its last newline for the
/// next read: that rest holds no newline and is the buffer's tail, and
/// there is one complete line per newline of the buffer, trimmed.
pub proof fn law_stream_rest_is_the_unfinished_tail(buffer: Seq<char>)
    ensures
        forall|j: int| 0 <= j < sse_lines_spec(buffer).1.len() ==> #[trigger] sse_lines_spec(
            buffer,
        ).1[j] != '\n',
        sse_lines_spec(buffer).1.len() <= buffer.len(),
        buffer.skip(buffer.len() - sse_lines_spec(buffer).1.len()) == sse_lines_spec(buffer).1,
        buffer.len() > 0 && buffer.last() == '\n' ==> sse_lines_spec(buffer).1.len() == 0,
        sse_lines_spec(buffer).0.len() + 1 == split_on(buffer, '\n').len(),
        forall|i: int| 0 <= i < sse_lines_spec(buffer).0.len() ==> #[trigger] sse_lines_spec(
            buffer,
        ).0[i] == trim(split_on(buffer, '\n')[i]),
{
    crate::text::lemma_split_nonempty(buffer, '\n');
    crate::text::lemma_split_pieces(buffer, '\n');
    let p = split_on(buffer, '\n');
    let r = p.last();
    assert forall|j: int| 0 <= j < r.len() implies #[trigger] r[j] != '\n' by {
        assert(p[p.len() - 1][j] != '\n');
    }
    if buffer.len() > 0 && buffer.last() == '\n' {
        if r.len() > 0 {
            assert(r[r.len() - 1] == buffer.skip(buffer.len() - r.len())[r.len() - 1]);
            assert(p[p.len() - 1][r.len() - 1] != '\n');
        }
    }
}

} // verus!
