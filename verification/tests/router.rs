use saltnitor::client::{
    model_ids, port_audit_status, split_sse_lines, sse_token, streaming_payload, warmup_payload,
};
use saltnitor::control::{
    auth_ok, bearer, chat_gate, chat_url, infer_endpoint, list_contains, loaded_models,
    model_list_json, models_url, request_model, router_status_error, stream_auth_ok,
    verdict_code, verdict_status, warmup_body, ChatGate, EnsureAction, EnsureInput,
    EnsureMachine, EnsurePhase, EnsureRequest, EnsureVerdict,
};
use saltnitor::names::{
    basename, bpw_hundredths, exe_name, params_candidates, quant_bits_tenths, size_tokens,
};

fn s(x: &str) -> String {
    x.to_string()
}

fn req(profile: &str, force: Option<bool>) -> EnsureRequest {
    EnsureRequest { profile: s(profile), force, token: None }
}

#[test]
fn router_urls() {
    assert_eq!(infer_endpoint("http://127.0.0.1:8080"), "http://127.0.0.1:8080/v1");
    assert_eq!(models_url("http://h:1"), "http://h:1/v1/models");
    assert_eq!(chat_url("http://h:1"), "http://h:1/v1/chat/completions");
    assert_eq!(bearer("sk-1"), "Bearer sk-1");
    assert_eq!(router_status_error("500 Internal Server Error"), "router returned 500 Internal Server Error");
}

#[test]
fn control_token_guards_the_api() {
    assert!(auth_ok(&None, &None));
    assert!(auth_ok(&None, &Some(s("anything"))));
    assert!(auth_ok(&Some(s("t0k")), &Some(s("Bearer t0k"))));
    assert!(!auth_ok(&Some(s("t0k")), &Some(s("Bearer nope"))));
    assert!(!auth_ok(&Some(s("t0k")), &Some(s("t0k"))));
    assert!(!auth_ok(&Some(s("t0k")), &None));
}

#[test]
fn event_stream_accepts_the_query_token() {
    assert!(stream_auth_ok(&Some(s("t")), &None, &Some(s("t"))));
    assert!(stream_auth_ok(&Some(s("t")), &Some(s("Bearer t")), &None));
    assert!(!stream_auth_ok(&Some(s("t")), &None, &Some(s("u"))));
    assert!(!stream_auth_ok(&Some(s("t")), &None, &None));
    assert!(stream_auth_ok(&None, &None, &None));
}

#[test]
fn warmup_requests() {
    assert_eq!(
        warmup_body("fast"),
        r#"{"model":"fast","messages":[{"role":"user","content":"warmup"}],"max_tokens":1}"#
    );
    assert_eq!(
        warmup_payload("m"),
        r#"{"model": "m", "messages": [{"role": "user", "content": "warmup"}], "max_tokens": 1}"#
    );
}

#[test]
fn ensure_of_an_unknown_profile_is_bad() {
    let mut m = EnsureMachine::new(&req("nope", None));
    assert!(m.phase == EnsurePhase::CheckProfile);
    assert!(m.expects_input(&EnsureInput::ProfileKnown(false)));
    assert!(!m.expects_input(&EnsureInput::OracleFits(true)));
    match m.step(EnsureInput::ProfileKnown(false)) {
        EnsureAction::Finish(EnsureVerdict::Bad(e)) => assert_eq!(e, "unknown profile 'nope'"),
        _ => panic!("expected a bad request"),
    }
    assert!(m.phase == EnsurePhase::Finished);
}

#[test]
fn resident_profile_is_answered_at_once() {
    let mut m = EnsureMachine::new(&req("fast", None));
    assert!(matches!(m.step(EnsureInput::ProfileKnown(true)), EnsureAction::QueryResident));
    let a = m.step(EnsureInput::ResidentModels(vec![s("deep"), s("fast")]));
    assert!(matches!(a, EnsureAction::Finish(EnsureVerdict::AlreadyResident)));
}

#[test]
fn oracle_refusal_is_oom_unless_forced() {
    let mut m = EnsureMachine::new(&req("deep", Some(false)));
    m.step(EnsureInput::ProfileKnown(true));
    assert!(matches!(m.step(EnsureInput::ResidentModels(vec![s("fast")])), EnsureAction::ConsultOracle));
    assert!(matches!(m.step(EnsureInput::OracleFits(false)), EnsureAction::Finish(EnsureVerdict::Oom)));

    let mut f = EnsureMachine::new(&req("deep", Some(true)));
    assert!(f.force);
    f.step(EnsureInput::ProfileKnown(true));
    f.step(EnsureInput::ResidentModels(Vec::new()));
    assert!(matches!(f.step(EnsureInput::OracleFits(false)), EnsureAction::Load { forced: true }));
    assert!(f.phase == EnsurePhase::Loading);
    assert!(matches!(f.step(EnsureInput::LoadResult(Ok(()))), EnsureAction::Finish(EnsureVerdict::Loaded)));
}

#[test]
fn fitting_profile_is_loaded_or_fails() {
    let mut m = EnsureMachine::new(&req("fast", None));
    m.step(EnsureInput::ProfileKnown(true));
    m.step(EnsureInput::ResidentModels(Vec::new()));
    assert!(matches!(m.step(EnsureInput::OracleFits(true)), EnsureAction::Load { forced: false }));
    match m.step(EnsureInput::LoadResult(Err(s("timed out")))) {
        EnsureAction::Finish(EnsureVerdict::Failed(e)) => assert_eq!(e, "router load failed: timed out"),
        _ => panic!("expected a failure"),
    }
}

#[test]
fn verdict_codes_and_statuses() {
    assert_eq!(verdict_code(&EnsureVerdict::Loaded), 200);
    assert_eq!(verdict_code(&EnsureVerdict::AlreadyResident), 200);
    assert_eq!(verdict_code(&EnsureVerdict::Oom), 507);
    assert_eq!(verdict_code(&EnsureVerdict::Bad(s("x"))), 400);
    assert_eq!(verdict_code(&EnsureVerdict::Failed(s("x"))), 503);
    assert_eq!(verdict_status(&EnsureVerdict::Loaded), "loaded");
    assert_eq!(verdict_status(&EnsureVerdict::AlreadyResident), "already_resident");
    assert_eq!(verdict_status(&EnsureVerdict::Oom), "oom_rejected");
    assert_eq!(verdict_status(&EnsureVerdict::Bad(s("x"))), "bad_request");
    assert_eq!(verdict_status(&EnsureVerdict::Failed(s("x"))), "error");
}

#[test]
fn chat_proxy_gate() {
    assert!(matches!(chat_gate("fast", &EnsureVerdict::Loaded), ChatGate::Forward));
    assert!(matches!(chat_gate("fast", &EnsureVerdict::AlreadyResident), ChatGate::Forward));
    assert!(matches!(chat_gate("fast", &EnsureVerdict::Oom), ChatGate::RejectOom));
    match chat_gate("x", &EnsureVerdict::Bad(s("unknown profile 'x'"))) {
        ChatGate::Reject { code, message } => {
            assert_eq!(code, 404);
            assert_eq!(message, "unknown model 'x': unknown profile 'x'");
        }
        _ => panic!("expected a rejection"),
    }
    match chat_gate("x", &EnsureVerdict::Failed(s("router load failed: boom"))) {
        ChatGate::Reject { code, message } => {
            assert_eq!(code, 502);
            assert_eq!(message, "saltnitor: load failed: router load failed: boom");
        }
        _ => panic!("expected a rejection"),
    }
}

#[test]
fn chat_body_names_its_model() {
    assert_eq!(request_model(br#"{"model":"deep","messages":[]}"#), Some(s("deep")));
    assert_eq!(request_model(br#"{"model":7}"#), None);
    assert_eq!(request_model(br#"{"messages":[]}"#), None);
    assert_eq!(request_model(b"not json"), None);
}

#[test]
fn loaded_models_reads_every_flag() {
    let body = br#"{"data":[
        {"id":"a","loaded":true},
        {"id":"b","state":"loaded"},
        {"id":"c","status":"loaded"},
        {"id":"d","status":"unloaded"},
        {"id":"","loaded":true},
        {"loaded":true}
    ]}"#;
    assert_eq!(loaded_models(body), vec![s("a"), s("b"), s("c")]);
    assert!(loaded_models(b"{}").is_empty());
    assert!(loaded_models(b"garbage").is_empty());
}

#[test]
fn profile_list_is_openai_shaped() {
    let out = model_list_json(&vec![s("deep"), s("fast")]);
    let v: serde_json::Value = serde_json::from_str(&out).unwrap();
    assert_eq!(v["object"], "list");
    assert_eq!(v["data"][0]["id"], "deep");
    assert_eq!(v["data"][1]["id"], "fast");
    assert_eq!(v["data"][1]["object"], "model");
    assert_eq!(v["data"][1]["owned_by"], "saltnitor");
    assert_eq!(
        model_list_json(&Vec::new()),
        r#"{"data":[],"object":"list"}"#
    );
}

#[test]
fn list_membership() {
    assert!(list_contains(&vec![s("a"), s("b")], &s("b")));
    assert!(!list_contains(&vec![s("a")], &s("ab")));
}

#[test]
fn model_discovery_reads_ids() {
    let body = br#"{"object":"list","data":[{"id":"m1"},{"id":2},{"id":"m3"}]}"#;
    assert_eq!(model_ids(body), Some(vec![s("m1"), s("m3")]));
    assert_eq!(model_ids(br#"{"data":{}}"#), None);
    assert_eq!(model_ids(b"oops"), None);
}

#[test]
fn payload_gets_the_stream_flag() {
    let out = streaming_payload(r#"{"model":"m","stream":false,"messages":[]}"#);
    let v: serde_json::Value = serde_json::from_str(&out).unwrap();
    assert_eq!(v["stream"], true);
    assert_eq!(v["model"], "m");
    assert_eq!(streaming_payload(r#"{"model":"m"}"#), r#"{"model":"m","stream":true}"#);
    assert_eq!(streaming_payload("not json"), r#"{"stream":true}"#);
    assert_eq!(streaming_payload("[1,2]"), "[1,2]");
}

#[test]
fn stream_buffer_splits_into_lines() {
    let (lines, rest) = split_sse_lines("data: a \r\n\ndata: b\npartial");
    assert_eq!(lines, vec![s("data: a"), s(""), s("data: b")]);
    assert_eq!(rest, "partial");
    let (none, all) = split_sse_lines("no newline");
    assert!(none.is_empty());
    assert_eq!(all, "no newline");
}

#[test]
fn stream_tokens() {
    assert_eq!(
        sse_token(r#"data: {"choices":[{"delta":{"content":"Hi"}}]}"#),
        Some(s("Hi"))
    );
    assert_eq!(
        sse_token(r#"data: {"choices":[{"delta":{"content":"a\nb"}}]}"#),
        Some(s("a \u{23ce} b"))
    );
    assert_eq!(sse_token("data: [DONE]"), None);
    assert_eq!(sse_token(r#"data: {"choices":[{"delta":{}}]}"#), None);
    assert_eq!(sse_token(": keep-alive"), None);
    assert_eq!(sse_token("data: {broken"), None);
}

#[test]
fn port_auditor_verdicts() {
    assert_eq!(port_audit_status(8080, &None), "Port 8080: AUDIT ERROR");
    assert_eq!(port_audit_status(8080, &Some(s("   "))), "Port 8080: OFFLINE (Daemon Down)");
    assert_eq!(
        port_audit_status(8080, &Some(s("LISTEN 0 4096 127.0.0.1:9000"))),
        "Port 8080: OFFLINE (Daemon Down)"
    );
    assert_eq!(
        port_audit_status(8080, &Some(s("LISTEN 127.0.0.1:8080 users:((\"llama-server\",pid=1,fd=3))"))),
        "Port 8080: SECURE (llama-server bound)"
    );
    assert_eq!(
        port_audit_status(8080, &Some(s("LISTEN 127.0.0.1:8080 users:((\"python3\",pid=9,fd=3))"))),
        "Port 8080: BLOCKED BY [python3]"
    );
    assert_eq!(
        port_audit_status(8080, &Some(s("LISTEN 127.0.0.1:8080"))),
        "Port 8080: BLOCKED BY [UNKNOWN (Requires Sudo?)]"
    );
}

#[test]
fn quantisation_from_file_names() {
    assert_eq!(bpw_hundredths("qwen3-30b-A3B-Q4_K_XL.gguf"), 485);
    assert_eq!(bpw_hundredths("model-q2_k.gguf"), 260);
    assert_eq!(bpw_hundredths("x-IQ4_XS.gguf"), 430);
    assert_eq!(bpw_hundredths("x-Q8_0.gguf"), 850);
    assert_eq!(bpw_hundredths("x-bf16.gguf"), 1600);
    assert_eq!(bpw_hundredths("x.gguf"), 500);
    assert_eq!(quant_bits_tenths("llama-8b-q5_k_m"), 55);
    assert_eq!(quant_bits_tenths("llama-8b"), 160);
    assert_eq!(quant_bits_tenths("Q2-and-Q8"), 25);
}

#[test]
fn parameter_count_words() {
    assert_eq!(params_candidates("qwen3-30b-A3B-Q4_K_XL.gguf"), vec![s("30"), s("A3")]);
    assert_eq!(params_candidates("llama-3.1-8B.gguf"), vec![s("8")]);
    assert!(params_candidates("mistral").is_empty());
    assert_eq!(size_tokens("Qwen-14BB_test"), vec![s("14")]);
    assert_eq!(size_tokens("phi_3.8B"), vec![s("3.8")]);
}

#[test]
fn file_names_of_paths() {
    assert_eq!(basename("/home/you/models/qwen3-9b-Q5_K_XL.gguf"), "qwen3-9b-Q5_K_XL.gguf");
    assert_eq!(basename("plain.gguf"), "plain.gguf");
    assert_eq!(basename("dir/sub/"), "sub");
    assert_eq!(basename("dir/.."), "dir/..");
    assert_eq!(basename("/"), "/");
    assert_eq!(exe_name("/usr/bin/python3"), "python3");
    assert_eq!(exe_name("python3"), "python3");
    assert_eq!(exe_name("/opt/app/"), "");
    for p in ["/home/you/models/a.gguf", "dir/sub/", "dir/..", "/", ".", "a/./", ""] {
        let b = basename(p);
        assert_eq!(basename(&b), b, "{}", p);
        assert!(p.contains(b.as_str()), "{}", p);
    }
}

use saltnitor::client::{ids_in_reply, token_in_event, with_stream_set};
use saltnitor::control::{loaded_in_reply, model_list, model_of_request};
use saltnitor::json::Json;
use saltnitor::names::{
    bpw_of_upper, params_candidates_of_upper, quant_bits_of_upper, size_tokens_of_upper,
};

fn obj(fields: Vec<(&str, Json)>) -> Json {
    Json::Object(fields.into_iter().map(|(k, v)| (k.to_string(), v)).collect())
}

fn text(x: &str) -> Json {
    Json::Str(x.to_string())
}

#[test]
fn ids_of_a_parsed_reply() {
    let doc = obj(vec![(
        "data",
        Json::Array(vec![obj(vec![("id", text("a"))]), obj(vec![("id", Json::Null)]), obj(vec![("id", text("c"))])]),
    )]);
    assert_eq!(ids_in_reply(&doc), Some(vec![s("a"), s("c")]));
    assert_eq!(ids_in_reply(&obj(vec![("data", text("x"))])), None);
    assert_eq!(ids_in_reply(&Json::Array(vec![])), None);
}

#[test]
fn stream_flag_on_a_parsed_payload() {
    let doc = obj(vec![("model", text("m")), ("stream", Json::Bool(false)), ("n", Json::Number(s("1")))]);
    match with_stream_set(doc) {
        Json::Object(fs) => {
            assert_eq!(fs.len(), 3);
            assert_eq!(fs[1].0, "stream");
            assert!(matches!(fs[1].1, Json::Bool(true)));
            assert!(matches!(&fs[2].1, Json::Number(n) if n == "1"));
        }
        _ => panic!("expected an object"),
    }
    match with_stream_set(obj(vec![])) {
        Json::Object(fs) => {
            assert_eq!(fs.len(), 1);
            assert_eq!(fs[0].0, "stream");
        }
        _ => panic!("expected an object"),
    }
    assert!(matches!(with_stream_set(Json::Null), Json::Null));
}

#[test]
fn token_of_a_parsed_event() {
    let ev = obj(vec![(
        "choices",
        Json::Array(vec![obj(vec![("delta", obj(vec![("content", text("line\nnext"))]))])]),
    )]);
    assert_eq!(token_in_event(&ev), Some(s("line \u{23ce} next")));
    assert_eq!(token_in_event(&obj(vec![("choices", Json::Array(vec![]))])), None);
}

#[test]
fn parsed_request_and_model_lists() {
    assert_eq!(model_of_request(&obj(vec![("model", text("deep"))])), Some(s("deep")));
    assert_eq!(model_of_request(&obj(vec![("model", Json::Bool(true))])), None);
    let reply = obj(vec![(
        "data",
        Json::Array(vec![
            obj(vec![("id", text("x")), ("state", text("loaded"))]),
            obj(vec![("id", text("y")), ("loaded", Json::Bool(false))]),
        ]),
    )]);
    assert_eq!(loaded_in_reply(&reply), vec![s("x")]);
    assert!(loaded_in_reply(&Json::Null).is_empty());
    match model_list(&vec![s("p")]) {
        Json::Object(fs) => {
            assert_eq!(fs[0].0, "object");
            assert!(matches!(&fs[0].1, Json::Str(t) if t == "list"));
            assert_eq!(fs[1].0, "data");
            match &fs[1].1 {
                Json::Array(items) => assert_eq!(items.len(), 1),
                _ => panic!("expected an array"),
            }
        }
        _ => panic!("expected an object"),
    }
}

#[test]
fn upper_cased_name_readings() {
    assert_eq!(bpw_of_upper("MODEL-Q6_K.GGUF"), 660);
    assert_eq!(bpw_of_upper("model-q6_k.gguf"), 500);
    assert_eq!(bpw_of_upper("X-IQ3_M"), 350);
    assert_eq!(quant_bits_of_upper("LLAMA-Q3"), 35);
    assert_eq!(params_candidates_of_upper("QWEN2.5-72B-INSTRUCT"), vec![s("72")]);
    assert_eq!(size_tokens_of_upper("QWEN2.5-72B_X"), vec![s("72")]);
    assert!(size_tokens_of_upper("qwen-72b").is_empty());
}
