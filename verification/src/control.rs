//! The headless control API that sits in front of the model router: who may
//! call it, and the decisions of "make this profile resident" (an
//! already-resident profile is answered at once, a load the VRAM/RAM oracle
//! refuses is not attempted unless forced).
use vstd::prelude::*;
use crate::json::{
    array_of, as_array, as_bool, as_str, bool_of, field, fields_view, get_field, items_view,
    json_from_bytes, json_text, json_view, lemma_items_view, parse_json_bytes, render_json,
    same_str, str_of, Json, JsonView,
};
use crate::keys::concat3;
use crate::text::push_str;

verus! {

/// A request to make a profile resident (`force` loads past the oracle;
/// `token` authenticates the event-stream variant, which cannot set headers).
pub struct EnsureRequest {
    pub profile: String,
    pub force: Option<bool>,
    pub token: Option<String>,
}

/// The base URL of the OpenAI-compatible endpoint behind the router.
pub fn infer_endpoint(router_base: &str) -> (s: String)
    ensures
        s@ == router_base@ + "/v1"@,
{
    let mut s = router_base.to_string();
    push_str(&mut s, "/v1");
    s
}

/// The router's model list URL.
pub fn models_url(router_base: &str) -> (s: String)
    ensures
        s@ == router_base@ + "/v1/models"@,
{
    let mut s = router_base.to_string();
    push_str(&mut s, "/v1/models");
    s
}

/// The router's chat completion URL.
pub fn chat_url(router_base: &str) -> (s: String)
    ensures
        s@ == router_base@ + "/v1/chat/completions"@,
{
    let mut s = router_base.to_string();
    push_str(&mut s, "/v1/chat/completions");
    s
}

/// The `Authorization` header value for a bearer token.
pub fn bearer(token: &str) -> (s: String)
    ensures
        s@ == "Bearer "@ + token@,
{
    let mut s = "Bearer ".to_string();
    push_str(&mut s, token);
    s
}

/// Whether a request may use the control API: always when no control token
/// is configured, else when its `Authorization` header is `Bearer <token>`.
pub fn auth_ok(control_token: &Option<String>, authorization: &Option<String>) -> (b: bool)
    ensures
        b == match control_token {
            None => true,
            Some(t) => authorization matches Some(h) && h@ == "Bearer "@ + t@,
        },
{
    match control_token {
        None => true,
        Some(t) => match authorization {
            Some(h) => {
                let expected = bearer(t.as_str());
                *h == expected
            },
            None => false,
        },
    }
}

/// Whether an event-stream request may use the control API: by its header as
/// `auth_ok` says, or by a `token` query parameter equal to the control
/// token (or with no control token configured).
pub fn stream_auth_ok(
    control_token: &Option<String>,
    authorization: &Option<String>,
    query_token: &Option<String>,
) -> (b: bool)
    ensures
        b == (match control_token {
            None => true,
            Some(t) => authorization matches Some(h) && h@ == "Bearer "@ + t@,
        } || match control_token {
            None => true,
            Some(t) => query_token matches Some(q) && q@ == t@,
        }),
{
    let token_ok = match control_token {
        None => true,
        Some(t) => match query_token {
            Some(q) => *q == *t,
            None => false,
        },
    };
    auth_ok(control_token, authorization) || token_ok
}

/// The one-token request that makes the router load and warm a preset.
pub open spec fn warmup_body_spec(preset: Seq<char>) -> Seq<char> {
    "{\"model\":\""@ + preset + "\",\"messages\":[{\"role\":\"user\",\"content\":\"warmup\"}],\"max_tokens\":1}"@
}

pub fn warmup_body(preset: &str) -> (s: String)
    ensures
        s@ == warmup_body_spec(preset@),
{
    concat3(
        "{\"model\":\"",
        preset,
        "\",\"messages\":[{\"role\":\"user\",\"content\":\"warmup\"}],\"max_tokens\":1}",
    )
}

/// The error of a warm-up the router answered with a failure status.
pub fn router_status_error(status: &str) -> (s: String)
    ensures
        s@ == "router returned "@ + status@,
{
    let mut s = "router returned ".to_string();
    push_str(&mut s, status);
    s
}

// ───────────────────────── the ensure decisions ─────────────────────────

#[derive(PartialEq, Eq, Structural, Clone, Copy)]
pub enum EnsurePhase {
    /// Is the profile configured?
    CheckProfile,
    /// Is it already resident on the router?
    CheckResident,
    /// Would it fit, by the oracle?
    ConsultOracle,
    /// The router is loading it.
    Loading,
    /// A verdict was given.
    Finished,
}

/// One ensure in progress.
pub struct EnsureMachine {
    pub profile: String,
    pub force: bool,
    pub phase: EnsurePhase,
}

pub struct EnsureMachineView {
    pub profile: Seq<char>,
    pub force: bool,
    pub phase: EnsurePhase,
}

impl View for EnsureMachine {
    type V = EnsureMachineView;

    open spec fn view(&self) -> EnsureMachineView {
        EnsureMachineView { profile: self.profile@, force: self.force, phase: self.phase }
    }
}

/// What the front end learned for the current phase.
pub enum EnsureInput {
    /// Whether the profile is among the configured ones.
    ProfileKnown(bool),
    /// The ids the router reports as loaded.
    ResidentModels(Vec<String>),
    /// Whether the oracle says the profile fits.
    OracleFits(bool),
    /// How the warm-up request went.
    LoadResult(Result<(), String>),
}

pub enum EnsureInputView {
    ProfileKnown(bool),
    ResidentModels(Seq<Seq<char>>),
    OracleFits(bool),
    LoadResult(Result<(), Seq<char>>),
}

impl View for EnsureInput {
    type V = EnsureInputView;

    open spec fn view(&self) -> EnsureInputView {
        match self {
            EnsureInput::ProfileKnown(b) => EnsureInputView::ProfileKnown(*b),
            EnsureInput::ResidentModels(ids) => EnsureInputView::ResidentModels(
                ids@.map_values(|s: String| s@),
            ),
            EnsureInput::OracleFits(b) => EnsureInputView::OracleFits(*b),
            EnsureInput::LoadResult(r) => EnsureInputView::LoadResult(
                match r {
                    Ok(()) => Ok(()),
                    Err(e) => Err(e@),
                },
            ),
        }
    }
}

/// How an ensure ended.
pub enum EnsureVerdict {
    /// The router loaded and warmed the profile.
    Loaded,
    /// The profile was resident already.
    AlreadyResident,
    /// The oracle predicts it would not fit, and the request did not force.
    Oom,
    /// The request was bad (an unknown profile).
    Bad(String),
    /// The router failed to load it.
    Failed(String),
}

pub enum EnsureVerdictView {
    Loaded,
    AlreadyResident,
    Oom,
    Bad(Seq<char>),
    Failed(Seq<char>),
}

impl View for EnsureVerdict {
    type V = EnsureVerdictView;

    open spec fn view(&self) -> EnsureVerdictView {
        match self {
            EnsureVerdict::Loaded => EnsureVerdictView::Loaded,
            EnsureVerdict::AlreadyResident => EnsureVerdictView::AlreadyResident,
            EnsureVerdict::Oom => EnsureVerdictView::Oom,
            EnsureVerdict::Bad(e) => EnsureVerdictView::Bad(e@),
            EnsureVerdict::Failed(e) => EnsureVerdictView::Failed(e@),
        }
    }
}

/// What the front end does next.
pub enum EnsureAction {
    /// Report the request received, take the one-ensure-at-a-time lock, and
    /// ask the router which models are loaded.
    QueryResident,
    /// Ask the oracle whether the profile fits.
    ConsultOracle,
    /// Warm-load the profile; `forced` when the oracle objected and the
    /// request forced the load.
    Load { forced: bool },
    /// Answer with this verdict.
    Finish(EnsureVerdict),
}

pub enum EnsureActionView {
    QueryResident,
    ConsultOracle,
    Load { forced: bool },
    Finish(EnsureVerdictView),
}

impl View for EnsureAction {
    type V = EnsureActionView;

    open spec fn view(&self) -> EnsureActionView {
        match self {
            EnsureAction::QueryResident => EnsureActionView::QueryResident,
            EnsureAction::ConsultOracle => EnsureActionView::ConsultOracle,
            EnsureAction::Load { forced } => EnsureActionView::Load { forced: *forced },
            EnsureAction::Finish(v) => EnsureActionView::Finish(v@),
        }
    }
}

/// Whether `input` is what the machine waits for in its phase.
pub open spec fn expects(phase: EnsurePhase, input: EnsureInputView) -> bool {
    match input {
        EnsureInputView::ProfileKnown(_) => phase == EnsurePhase::CheckProfile,
        EnsureInputView::ResidentModels(_) => phase == EnsurePhase::CheckResident,
        EnsureInputView::OracleFits(_) => phase == EnsurePhase::ConsultOracle,
        EnsureInputView::LoadResult(_) => phase == EnsurePhase::Loading,
    }
}

pub open spec fn in_phase(m: EnsureMachineView, p: EnsurePhase) -> EnsureMachineView {
    EnsureMachineView { phase: p, ..m }
}

/// One step of an ensure.
pub open spec fn ensure_step(m: EnsureMachineView, input: EnsureInputView) -> (
    EnsureMachineView,
    EnsureActionView,
) {
    match input {
        EnsureInputView::ProfileKnown(known) => if known {
            (in_phase(m, EnsurePhase::CheckResident), EnsureActionView::QueryResident)
        } else {
            (
                in_phase(m, EnsurePhase::Finished),
                EnsureActionView::Finish(
                    EnsureVerdictView::Bad("unknown profile '"@ + m.profile + "'"@),
                ),
            )
        },
        EnsureInputView::ResidentModels(ids) => if ids.contains(m.profile) {
            (
                in_phase(m, EnsurePhase::Finished),
                EnsureActionView::Finish(EnsureVerdictView::AlreadyResident),
            )
        } else {
            (in_phase(m, EnsurePhase::ConsultOracle), EnsureActionView::ConsultOracle)
        },
        EnsureInputView::OracleFits(fits) => if fits {
            (in_phase(m, EnsurePhase::Loading), EnsureActionView::Load { forced: false })
        } else if m.force {
            (in_phase(m, EnsurePhase::Loading), EnsureActionView::Load { forced: true })
        } else {
            (in_phase(m, EnsurePhase::Finished), EnsureActionView::Finish(EnsureVerdictView::Oom))
        },
        EnsureInputView::LoadResult(r) => match r {
            Ok(()) => (
                in_phase(m, EnsurePhase::Finished),
                EnsureActionView::Finish(EnsureVerdictView::Loaded),
            ),
            Err(e) => (
                in_phase(m, EnsurePhase::Finished),
                EnsureActionView::Finish(EnsureVerdictView::Failed("router load failed: "@ + e)),
            ),
        },
    }
}

/// Whether a model id is in a list.
pub fn list_contains(ids: &Vec<String>, id: &String) -> (b: bool)
    ensures
        b == ids@.map_values(|s: String| s@).contains(id@),
{
    let ghost v = ids@.map_values(|s: String| s@);
    let mut i: usize = 0;
    while i < ids.len()
        invariant
            i <= ids.len(),
            v == ids@.map_values(|s: String| s@),
            forall|j: int| 0 <= j < i ==> v[j] != id@,
        decreases ids.len() - i,
    {
        if ids[i] == *id {
            assert(v[i as int] == id@);
            return true;
        }
        i = i + 1;
    }
    false
}

impl EnsureMachine {
    /// A new ensure for a request, waiting to hear whether the profile is
    /// configured.
    pub fn new(req: &EnsureRequest) -> (m: EnsureMachine)
        ensures
            m@ == (EnsureMachineView {
                profile: req.profile@,
                force: req.force == Some(true),
                phase: EnsurePhase::CheckProfile,
            }),
    {
        let force = match req.force {
            Some(f) => f,
            None => false,
        };
        EnsureMachine { profile: req.profile.clone(), force, phase: EnsurePhase::CheckProfile }
    }

    /// Whether `input` is what the machine waits for.
    pub fn expects_input(&self, input: &EnsureInput) -> (b: bool)
        ensures
            b == expects(self.phase, input@),
    {
        match input {
            EnsureInput::ProfileKnown(_) => self.phase == EnsurePhase::CheckProfile,
            EnsureInput::ResidentModels(_) => self.phase == EnsurePhase::CheckResident,
            EnsureInput::OracleFits(_) => self.phase == EnsurePhase::ConsultOracle,
            EnsureInput::LoadResult(_) => self.phase == EnsurePhase::Loading,
        }
    }

    /// Takes what the front end learned and says what to do next, as
    /// `ensure_step` says.
    pub fn step(&mut self, input: EnsureInput) -> (a: EnsureAction)
        requires
            expects(old(self).phase, input@),
        ensures
            (final(self)@, a@) == ensure_step(old(self)@, input@),
    {
        match input {
            EnsureInput::ProfileKnown(known) => {
                if known {
                    self.phase = EnsurePhase::CheckResident;
                    EnsureAction::QueryResident
                } else {
                    self.phase = EnsurePhase::Finished;
                    EnsureAction::Finish(
                        EnsureVerdict::Bad(concat3("unknown profile '", self.profile.as_str(), "'")),
                    )
                }
            },
            EnsureInput::ResidentModels(ids) => {
                if list_contains(&ids, &self.profile) {
                    self.phase = EnsurePhase::Finished;
                    EnsureAction::Finish(EnsureVerdict::AlreadyResident)
                } else {
                    self.phase = EnsurePhase::ConsultOracle;
                    EnsureAction::ConsultOracle
                }
            },
            EnsureInput::OracleFits(fits) => {
                if fits {
                    self.phase = EnsurePhase::Loading;
                    EnsureAction::Load { forced: false }
                } else if self.force {
                    self.phase = EnsurePhase::Loading;
                    EnsureAction::Load { forced: true }
                } else {
                    self.phase = EnsurePhase::Finished;
                    EnsureAction::Finish(EnsureVerdict::Oom)
                }
            },
            EnsureInput::LoadResult(r) => {
                self.phase = EnsurePhase::Finished;
                match r {
                    Ok(()) => EnsureAction::Finish(EnsureVerdict::Loaded),
                    Err(e) => {
                        let mut msg = "router load failed: ".to_string();
                        push_str(&mut msg, e.as_str());
                        EnsureAction::Finish(EnsureVerdict::Failed(msg))
                    },
                }
            },
        }
    }
}

// ───────────────────────── answers ─────────────────────────

/// The HTTP status of an ensure's answer.
pub open spec fn verdict_code_spec(v: EnsureVerdictView) -> u16 {
    match v {
        EnsureVerdictView::Loaded => 200,
        EnsureVerdictView::AlreadyResident => 200,
        EnsureVerdictView::Oom => 507,
        EnsureVerdictView::Bad(_) => 400,
        EnsureVerdictView::Failed(_) => 503,
    }
}

/// The `status` field of an ensure's answer.
pub open spec fn verdict_status_spec(v: EnsureVerdictView) -> Seq<char> {
    match v {
        EnsureVerdictView::Loaded => "loaded"@,
        EnsureVerdictView::AlreadyResident => "already_resident"@,
        EnsureVerdictView::Oom => "oom_rejected"@,
        EnsureVerdictView::Bad(_) => "bad_request"@,
        EnsureVerdictView::Failed(_) => "error"@,
    }
}

pub fn verdict_code(v: &EnsureVerdict) -> (c: u16)
    ensures
        c == verdict_code_spec(v@),
{
    match v {
        EnsureVerdict::Loaded => 200,
        EnsureVerdict::AlreadyResident => 200,
        EnsureVerdict::Oom => 507,
        EnsureVerdict::Bad(_) => 400,
        EnsureVerdict::Failed(_) => 503,
    }
}

pub fn verdict_status(v: &EnsureVerdict) -> (s: String)
    ensures
        s@ == verdict_status_spec(v@),
{
    match v {
        EnsureVerdict::Loaded => "loaded".to_string(),
        EnsureVerdict::AlreadyResident => "already_resident".to_string(),
        EnsureVerdict::Oom => "oom_rejected".to_string(),
        EnsureVerdict::Bad(_) => "bad_request".to_string(),
        EnsureVerdict::Failed(_) => "error".to_string(),
    }
}

/// What the chat proxy does after ensuring the requested model.
pub enum ChatGate {
    /// Forward the request to the router.
    Forward,
    /// Answer with this status and message.
    Reject { code: u16, message: String },
    /// Answer 503 with the oracle's figures.
    RejectOom,
}

pub open spec fn chat_gate_spec(model: Seq<char>, v: EnsureVerdictView) -> (u16, Option<Seq<char>>) {
    match v {
        EnsureVerdictView::Bad(e) => (404, Some("unknown model '"@ + model + "': "@ + e)),
        EnsureVerdictView::Oom => (503, None),
        EnsureVerdictView::Failed(e) => (502, Some("saltnitor: load failed: "@ + e)),
        _ => (200, None),
    }
}

/// The chat proxy's decision: a resident (or just loaded) model is
/// forwarded, an unknown one is 404, an oracle refusal 503, and a failed
/// load 502.
pub fn chat_gate(model: &str, v: &EnsureVerdict) -> (g: ChatGate)
    ensures
        match g {
            ChatGate::Forward => chat_gate_spec(model@, v@) == (200u16, None::<Seq<char>>),
            ChatGate::Reject { code, message } => chat_gate_spec(model@, v@) == (
                code,
                Some(message@),
            ),
            ChatGate::RejectOom => chat_gate_spec(model@, v@) == (503u16, None::<Seq<char>>),
        },
{
    match v {
        EnsureVerdict::Bad(e) => {
            let mut m = concat3("unknown model '", model, "': ");
            push_str(&mut m, e.as_str());
            ChatGate::Reject { code: 404, message: m }
        },
        EnsureVerdict::Oom => ChatGate::RejectOom,
        EnsureVerdict::Failed(e) => {
            let mut m = "saltnitor: load failed: ".to_string();
            push_str(&mut m, e.as_str());
            ChatGate::Reject { code: 502, message: m }
        },
        _ => ChatGate::Forward,
    }
}

// ───────────────────────── the router's JSON ─────────────────────────

/// The `model` member of a chat request body, when it is a string.
pub open spec fn request_model_spec(body: Seq<u8>) -> Option<Seq<char>> {
    match json_from_bytes(body) {
        Some(v) => str_of(field(v, "model"@)),
        None => None,
    }
}

/// The model id a parsed chat request asks for.
pub fn model_of_request(doc: &Json) -> (r: Option<String>)
    ensures
        r matches Some(s) ==> str_of(field(doc@, "model"@)) == Some(s@),
        r is None ==> str_of(field(doc@, "model"@)) is None,
{
    as_str(get_field(doc, "model"))
}

/// The model id a chat request asks for.
pub fn request_model(body: &[u8]) -> (r: Option<String>)
    ensures
        r matches Some(s) ==> request_model_spec(body@) == Some(s@),
        r is None ==> request_model_spec(body@) is None,
{
    match parse_json_bytes(body) {
        Some(v) => model_of_request(&v),
        None => None,
    }
}

/// Whether a `/v1/models` entry is loaded: `"loaded": true`, or a `state`
/// or `status` of `"loaded"`.
pub open spec fn is_loaded_entry(m: JsonView) -> bool {
    bool_of(field(m, "loaded"@)) == Some(true) || str_of(field(m, "state"@)) == Some("loaded"@)
        || str_of(field(m, "status"@)) == Some("loaded"@)
}

/// An entry's id, or the empty string.
pub open spec fn entry_id(m: JsonView) -> Seq<char> {
    match str_of(field(m, "id"@)) {
        Some(s) => s,
        None => Seq::empty(),
    }
}

/// The ids of the loaded entries with a non-empty id, in order.
pub open spec fn loaded_ids_of(a: Seq<JsonView>) -> Seq<Seq<char>>
    decreases a.len(),
{
    if a.len() == 0 {
        Seq::empty()
    } else {
        let prev = loaded_ids_of(a.drop_last());
        let m = a.last();
        if is_loaded_entry(m) && entry_id(m).len() > 0 {
            prev.push(entry_id(m))
        } else {
            prev
        }
    }
}

/// The preset names the router reports as loaded in a `/v1/models` reply
/// (none when the reply is not JSON or has no `data` array).
pub open spec fn loaded_models_spec(body: Seq<u8>) -> Seq<Seq<char>> {
    match json_from_bytes(body) {
        Some(v) => reply_loaded(v),
        None => Seq::empty(),
    }
}

/// The loaded preset names of a parsed `/v1/models` reply (none without a
/// `data` array).
pub open spec fn reply_loaded(v: JsonView) -> Seq<Seq<char>> {
    match array_of(field(v, "data"@)) {
        Some(a) => loaded_ids_of(a),
        None => Seq::empty(),
    }
}

fn entry_is_loaded(m: &Json) -> (b: bool)
    ensures
        b == is_loaded_entry(m@),
{
    let loaded = match as_bool(get_field(m, "loaded")) {
        Some(b) => b,
        None => false,
    };
    let state = as_str(get_field(m, "state"));
    let status = as_str(get_field(m, "status"));
    let state_loaded = match state {
        Some(s) => same_str(s.as_str(), "loaded"),
        None => false,
    };
    let status_loaded = match status {
        Some(s) => same_str(s.as_str(), "loaded"),
        None => false,
    };
    loaded || state_loaded || status_loaded
}

/// The loaded preset names in a `/v1/models` reply.
pub fn loaded_models(body: &[u8]) -> (r: Vec<String>)
    ensures
        r@.map_values(|s: String| s@) == loaded_models_spec(body@),
{
    match parse_json_bytes(body) {
        Some(v) => loaded_in_reply(&v),
        None => {
            let out: Vec<String> = Vec::new();
            assert(out@.map_values(|s: String| s@) =~= Seq::<Seq<char>>::empty());
            out
        },
    }
}

/// The loaded preset names in a parsed `/v1/models` reply.
pub fn loaded_in_reply(doc: &Json) -> (r: Vec<String>)
    ensures
        r@.map_values(|s: String| s@) == reply_loaded(doc@),
{
    let mut out: Vec<String> = Vec::new();
    match as_array(get_field(doc, "data")) {
        Some(items) => {
            proof {
                lemma_items_view(items@);
            }
            let ghost a = items_view(items@);
            let mut i: usize = 0;
            while i < items.len()
                invariant
                    i <= items.len(),
                    a == items_view(items@),
                    a.len() == items.len(),
                    forall|k: int| 0 <= k < items.len() ==> #[trigger] a[k] == items@[k]@,
                    out@.map_values(|s: String| s@) == loaded_ids_of(a.take(i as int)),
                decreases items.len() - i,
            {
                let m = &items[i];
                let ghost prev = out@.map_values(|s: String| s@);
                assert(a.take(i + 1).drop_last() =~= a.take(i as int));
                assert(a.take(i + 1).last() == m@);
                let id = match as_str(get_field(m, "id")) {
                    Some(s) => s,
                    None => String::new(),
                };
                assert(id@ == entry_id(m@));
                if entry_is_loaded(m) && crate::keys::char_count(&id) > 0 {
                    out.push(id);
                    assert(out@.map_values(|s: String| s@) =~= prev.push(entry_id(m@)));
                }
                i = i + 1;
            }
            assert(a.take(items.len() as int) =~= a);
        },
        None => {
            assert(out@.map_values(|s: String| s@) =~= Seq::<Seq<char>>::empty());
        },
    }
    out
}

/// The OpenAI-style model list the control API serves for its profiles.
pub open spec fn model_list_doc(ids: Seq<Seq<char>>) -> JsonView {
    JsonView::Object(
        seq![
            ("object"@, JsonView::Str("list"@)),
            (
                "data"@,
                JsonView::Array(
                    Seq::new(
                        ids.len(),
                        |i: int|
                            JsonView::Object(
                                seq![
                                    ("id"@, JsonView::Str(ids[i])),
                                    ("object"@, JsonView::Str("model"@)),
                                    ("owned_by"@, JsonView::Str("saltnitor"@)),
                                ],
                            ),
                    ),
                ),
            ),
        ],
    )
}

fn model_entry(id: &String) -> (j: Json)
    ensures
        j@ == JsonView::Object(
            seq![
                ("id"@, JsonView::Str(id@)),
                ("object"@, JsonView::Str("model"@)),
                ("owned_by"@, JsonView::Str("saltnitor"@)),
            ],
        ),
{
    let mut fs: Vec<(String, Json)> = Vec::new();
    fs.push(("id".to_string(), Json::Str(id.clone())));
    fs.push(("object".to_string(), Json::Str("model".to_string())));
    fs.push(("owned_by".to_string(), Json::Str("saltnitor".to_string())));
    proof {
        crate::json::lemma_fields_view(fs@);
    }
    assert(fields_view(fs@) =~= seq![
        ("id"@, JsonView::Str(id@)),
        ("object"@, JsonView::Str("model"@)),
        ("owned_by"@, JsonView::Str("saltnitor"@)),
    ]);
    let j = Json::Object(fs);
    assert(j@ == JsonView::Object(fields_view(fs@)));
    j
}

/// The `/v1/models` reply of the control API for these profile names.
pub fn model_list_json(ids: &Vec<String>) -> (s: String)
    ensures
        s@ == json_text(model_list_doc(ids@.map_values(|x: String| x@))),
{
    render_json(&model_list(ids))
}

/// The OpenAI-style model list document for these profile names.
pub fn model_list(ids: &Vec<String>) -> (doc: Json)
    ensures
        doc@ == model_list_doc(ids@.map_values(|x: String| x@)),
{
    let ghost iv = ids@.map_values(|x: String| x@);
    let mut items: Vec<Json> = Vec::new();
    let mut i: usize = 0;
    while i < ids.len()
        invariant
            i <= ids.len(),
            iv == ids@.map_values(|x: String| x@),
            items.len() == i,
            forall|k: int|
                0 <= k < i ==> #[trigger] items@[k]@ == JsonView::Object(
                    seq![
                        ("id"@, JsonView::Str(iv[k])),
                        ("object"@, JsonView::Str("model"@)),
                        ("owned_by"@, JsonView::Str("saltnitor"@)),
                    ],
                ),
        decreases ids.len() - i,
    {
        items.push(model_entry(&ids[i]));
        i = i + 1;
    }
    proof {
        lemma_items_view(items@);
    }
    let ghost data = items_view(items@);
    let mut fs: Vec<(String, Json)> = Vec::new();
    fs.push(("object".to_string(), Json::Str("list".to_string())));
    fs.push(("data".to_string(), Json::Array(items)));
    proof {
        crate::json::lemma_fields_view(fs@);
    }
    let ghost fsv = fs@;
    let doc = Json::Object(fs);
    assert forall|k: int| 0 <= k < data.len() implies #[trigger] data[k] == JsonView::Object(
        seq![
            ("id"@, JsonView::Str(iv[k])),
            ("object"@, JsonView::Str("model"@)),
            ("owned_by"@, JsonView::Str("saltnitor"@)),
        ],
    ) by {
        assert(data[k] == json_view(items@[k]));
        assert(items@[k]@ == json_view(items@[k]));
    }
    assert(data =~= Seq::new(
        iv.len(),
        |i: int|
            JsonView::Object(
                seq![
                    ("id"@, JsonView::Str(iv[i])),
                    ("object"@, JsonView::Str("model"@)),
                    ("owned_by"@, JsonView::Str("saltnitor"@)),
                ],
            ),
    ));
    assert(fields_view(fsv) =~= seq![
        ("object"@, JsonView::Str("list"@)),
        ("data"@, JsonView::Array(data)),
    ]);
    assert(doc@ == JsonView::Object(fields_view(fsv)));
    assert(doc@ == model_list_doc(iv));
    doc
}

} // verus!

verus! {

// ───────────────────────── laws ─────────────────────────

pub open spec fn fresh(profile: Seq<char>, force: bool) -> EnsureMachineView {
    EnsureMachineView { profile, force, phase: EnsurePhase::CheckProfile }
}

/// Ensuring a profile that the router reports as loaded answers
/// "already resident" right after the router check: no oracle, no load.
pub proof fn law_resident_profile_is_not_reloaded(
    profile: Seq<char>,
    force: bool,
    loaded: Seq<Seq<char>>,
)
    requires
        loaded.contains(profile),
    ensures
        ({
            let (m1, a1) = ensure_step(fresh(profile, force), EnsureInputView::ProfileKnown(true));
            let (m2, a2) = ensure_step(m1, EnsureInputView::ResidentModels(loaded));
            &&& a1 == EnsureActionView::QueryResident
            &&& a2 == EnsureActionView::Finish(EnsureVerdictView::AlreadyResident)
            &&& m2.phase == EnsurePhase::Finished
        }),
{
}

/// A profile the oracle says would not fit is loaded only when the request
/// forces it; otherwise the answer is the OOM refusal and nothing is loaded.
pub proof fn law_oracle_gates_the_load(profile: Seq<char>, force: bool, loaded: Seq<Seq<char>>)
    requires
        !loaded.contains(profile),
    ensures
        ({
            let (m1, a1) = ensure_step(fresh(profile, force), EnsureInputView::ProfileKnown(true));
            let (m2, a2) = ensure_step(m1, EnsureInputView::ResidentModels(loaded));
            let (m3, a3) = ensure_step(m2, EnsureInputView::OracleFits(false));
            &&& a2 == EnsureActionView::ConsultOracle
            &&& force ==> a3 == EnsureActionView::Load { forced: true } && m3.phase
                == EnsurePhase::Loading
            &&& !force ==> a3 == EnsureActionView::Finish(EnsureVerdictView::Oom) && m3.phase
                == EnsurePhase::Finished
        }),
{
}

/// A profile that fits and is not resident is loaded, and the ensure ends
/// with the router's answer to the load.
pub proof fn law_fitting_profile_is_loaded(
    profile: Seq<char>,
    force: bool,
    loaded: Seq<Seq<char>>,
    result: Result<(), Seq<char>>,
)
    requires
        !loaded.contains(profile),
    ensures
        ({
            let (m1, a1) = ensure_step(fresh(profile, force), EnsureInputView::ProfileKnown(true));
            let (m2, a2) = ensure_step(m1, EnsureInputView::ResidentModels(loaded));
            let (m3, a3) = ensure_step(m2, EnsureInputView::OracleFits(true));
            let (m4, a4) = ensure_step(m3, EnsureInputView::LoadResult(result));
            &&& a3 == EnsureActionView::Load { forced: false }
            &&& a4 == EnsureActionView::Finish(
                match result {
                    Ok(()) => EnsureVerdictView::Loaded,
                    Err(e) => EnsureVerdictView::Failed("router load failed: "@ + e),
                },
            )
        }),
{
}

/// Every ensure ends after at most four steps, each waiting for the next
/// kind of input, and a finished ensure expects nothing more.
pub proof fn law_ensure_finishes(m: EnsureMachineView, input: EnsureInputView)
    requires
        expects(m.phase, input),
    ensures
        ensure_step(m, input).0.phase == EnsurePhase::Finished || ensure_step(m, input).0.phase
            != m.phase,
        ensure_step(m, input).1 is Finish <==> ensure_step(m, input).0.phase
            == EnsurePhase::Finished,
        ensure_step(m, input).0.profile == m.profile,
{
}

/// Whether a `/v1/models` entry names a loaded preset: it is loaded and its
/// id is not empty.
pub open spec fn names_loaded_preset(m: JsonView) -> bool {
    is_loaded_entry(m) && entry_id(m).len() > 0
}

/// Whether `id` is the id of a loaded entry of `a`.
pub open spec fn id_of_loaded_entry(a: Seq<JsonView>, id: Seq<char>) -> bool {
    exists|k: int| 0 <= k < a.len() && #[trigger] names_loaded_preset(a[k]) && entry_id(a[k]) == id
}

proof fn lemma_loaded_ids_are_filtered(a: Seq<JsonView>)
    ensures
        loaded_ids_of(a) == a.filter(|m: JsonView| names_loaded_preset(m)).map_values(
            |m: JsonView| entry_id(m),
        ),
    decreases a.len(),
{
    reveal(Seq::filter);
    let p = |m: JsonView| names_loaded_preset(m);
    let f = |m: JsonView| entry_id(m);
    if a.len() == 0 {
        assert(a.filter(p) =~= Seq::<JsonView>::empty());
        assert(a.filter(p).map_values(f) =~= Seq::<Seq<char>>::empty());
    } else {
        lemma_loaded_ids_are_filtered(a.drop_last());
        let prev = a.drop_last().filter(p);
        if p(a.last()) {
            assert(prev.push(a.last()).map_values(f) =~= prev.map_values(f).push(f(a.last())));
        }
    }
}

/// A `/v1/models` reply is read entry by entry, every entry of its `data`
/// array included: the loaded presets are exactly the ids of the loaded
/// entries with an id, in the order of the array, one per such entry; a
/// reply without a `data` array has none.
pub proof fn law_every_loaded_entry_is_reported(v: JsonView)
    ensures
        array_of(field(v, "data"@)) is None ==> reply_loaded(v).len() == 0,
        array_of(field(v, "data"@)) matches Some(a) ==> {
            &&& reply_loaded(v) == a.filter(|m: JsonView| names_loaded_preset(m)).map_values(
                |m: JsonView| entry_id(m),
            )
            &&& reply_loaded(v).len() == a.filter(|m: JsonView| names_loaded_preset(m)).len()
            &&& forall|k: int|
                0 <= k < a.len() && #[trigger] names_loaded_preset(a[k]) ==> reply_loaded(
                    v,
                ).contains(entry_id(a[k]))
            &&& forall|j: int|
                0 <= j < reply_loaded(v).len() ==> id_of_loaded_entry(a, #[trigger] reply_loaded(v)[j])
        },
{
    match array_of(field(v, "data"@)) {
        Some(a) => {
            let p = |m: JsonView| names_loaded_preset(m);
            let f = |m: JsonView| entry_id(m);
            lemma_loaded_ids_are_filtered(a);
            let fa = a.filter(p);
            assert forall|k: int| 0 <= k < a.len() && #[trigger] names_loaded_preset(a[k]) implies reply_loaded(
                v,
            ).contains(entry_id(a[k])) by {
                a.lemma_filter_contains(p, k);
                let j = choose|j: int| 0 <= j < fa.len() && fa[j] == a[k];
                assert(fa.map_values(f)[j] == entry_id(a[k]));
            }
            assert forall|j: int| 0 <= j < reply_loaded(v).len() implies id_of_loaded_entry(
                a,
                #[trigger] reply_loaded(v)[j],
            ) by {
                a.lemma_filter_pred(p, j);
                assert(fa.contains(fa[j]));
                a.lemma_filter_contains_rev(p, fa[j]);
                let k = choose|k: int| 0 <= k < a.len() && a[k] == fa[j];
                assert(names_loaded_preset(a[k]));
                assert(fa.map_values(f)[j] == entry_id(a[k]));
            }
        },
        None => {},
    }
}

/// How an ensure is answered for each verdict. Loaded: 200, `loaded`.
/// Already resident: 200, `already_resident`. Refused by the oracle: 507,
/// `oom_rejected`. Bad request: 400, `bad_request`. Failed load: 503,
/// `error`. Only the two successes answer 200, and no two kinds of verdict
/// share a status.
pub proof fn law_verdict_answers(v: EnsureVerdictView, w: EnsureVerdictView)
    ensures
        v is Loaded ==> verdict_code_spec(v) == 200 && verdict_status_spec(v) == "loaded"@,
        v is AlreadyResident ==> verdict_code_spec(v) == 200 && verdict_status_spec(v)
            == "already_resident"@,
        v is Oom ==> verdict_code_spec(v) == 507 && verdict_status_spec(v) == "oom_rejected"@,
        v is Bad ==> verdict_code_spec(v) == 400 && verdict_status_spec(v) == "bad_request"@,
        v is Failed ==> verdict_code_spec(v) == 503 && verdict_status_spec(v) == "error"@,
        verdict_code_spec(v) == 200 <==> (v is Loaded || v is AlreadyResident),
        (v is Loaded) != (w is Loaded) || (v is AlreadyResident) != (w is AlreadyResident) || (
        v is Oom) != (w is Oom) || (v is Bad) != (w is Bad) ==> verdict_status_spec(v)
            != verdict_status_spec(w),
{
    reveal_strlit("loaded");
    reveal_strlit("already_resident");
    reveal_strlit("oom_rejected");
    reveal_strlit("bad_request");
    reveal_strlit("error");
    assert(verdict_status_spec(v).len() != verdict_status_spec(w).len() || (v is Loaded) == (
    w is Loaded) && (v is AlreadyResident) == (w is AlreadyResident) && (v is Oom) == (w is Oom)
        && (v is Bad) == (w is Bad));
}

/// The chat proxy forwards exactly the requests whose ensure answered 200;
/// an unknown model is refused with 404 and a message naming it and the
/// reason, an oracle refusal with a bare 503, and a failed load with 502
/// and the router's reason.
pub proof fn law_chat_gate_follows_the_verdict(model: Seq<char>, v: EnsureVerdictView)
    ensures
        chat_gate_spec(model, v) == (200u16, None::<Seq<char>>) <==> verdict_code_spec(v) == 200,
        v matches EnsureVerdictView::Bad(e) ==> chat_gate_spec(model, v) == (
            404u16,
            Some("unknown model '"@ + model + "': "@ + e),
        ),
        v is Oom ==> chat_gate_spec(model, v) == (503u16, None::<Seq<char>>),
        v matches EnsureVerdictView::Failed(e) ==> chat_gate_spec(model, v) == (
            502u16,
            Some("saltnitor: load failed: "@ + e),
        ),
{
}

} // verus!
