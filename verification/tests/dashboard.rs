use saltnitor::app::App;
use saltnitor::events::{Event, HardwareSample};
use saltnitor::keys::{Action, KeyCode, KeyPress, ServiceVerb};

fn app() -> App {
    App::new(
        "Ryzen 7".to_string(),
        8,
        "RTX 4070".to_string(),
        true,
        "127.0.0.1".to_string(),
        8080,
        "llama-router".to_string(),
        33,
        8192,
        Vec::new(),
    )
}

fn key(code: KeyCode) -> KeyPress {
    KeyPress { code, ctrl: false }
}

fn ctrl(c: char) -> KeyPress {
    KeyPress { code: KeyCode::Char(c), ctrl: true }
}

fn press(a: &mut App, k: KeyPress) -> Action {
    assert!(a.accepts_key(k));
    a.handle_key(k)
}

fn sample(gpu: &[&str], sys: &[&str], load: u64) -> HardwareSample {
    HardwareSample {
        cpu_load: load,
        gpu_temp: 64,
        gpu_power: "120.5W / 200.0W".to_string(),
        gpu_process_names: gpu.iter().map(|s| s.to_string()).collect(),
        sys_process_names: sys.iter().map(|s| s.to_string()).collect(),
        gpu_util: "37".to_string(),
        vram_util: "12".to_string(),
        gpu_fan: "40".to_string(),
        gpu_clocks: "1800 MHz / 7000 MHz".to_string(),
        sys_uptime: 3725,
    }
}

#[test]
fn new_dashboard_defaults() {
    let a = app();
    assert!(!a.should_quit);
    assert_eq!(a.port_status, "Port 8080: SCANNING...");
    assert_eq!(a.console.input, r#"{"model": "None", "messages": [{"role": "user", "content": "ping"}]}"#);
    assert_eq!(a.console.cursor, 68);
    assert_eq!(a.console.cursor, a.console.input.chars().count());
    assert_eq!(a.models.active, "None");
    assert_eq!(a.telemetry.cpu_history.len(), 100);
    assert!(a.telemetry.cpu_history.iter().all(|x| *x == 0));
    assert_eq!(a.tuner.current_ngl, 33);
    assert_eq!(a.tuner.current_ctx, 8192);
    assert_eq!(a.tuner.current_threads, 7);
    assert_eq!(a.tuner.threads_batch, 7);
    assert_eq!(a.tuner.current_batch, 512);
    assert_eq!(a.tuner.ubatch_size, 512);
    assert!(a.tuner.cont_batching);
    assert_eq!(a.log.selected, Some(0));
    assert!(a.log.auto_scroll);
    assert_eq!(a.console.last_api_result, "Ready. Press 'i' to focus console, Enter to fire.");
}

#[test]
fn single_core_keeps_one_thread() {
    let a = App::new(
        "cpu".to_string(), 1, "gpu".to_string(), false, "h".to_string(), 1,
        "svc".to_string(), 0, 0, Vec::new(),
    );
    assert_eq!(a.tuner.current_threads, 1);
    assert_eq!(a.tuner.threads_batch, 1);
}

#[test]
fn saved_history_puts_cursor_past_the_end() {
    let a = App::new(
        "cpu".to_string(), 4, "gpu".to_string(), false, "h".to_string(), 1,
        "svc".to_string(), 0, 0, vec!["a".to_string(), "b".to_string()],
    );
    assert_eq!(a.console.history.len(), 2);
    assert_eq!(a.console.history_index, 2);
}

#[test]
fn log_pane_keeps_the_newest_hundred() {
    let mut a = app();
    for i in 0..105 {
        a.add_log(format!("line {}", i));
    }
    assert_eq!(a.log.logs.len(), 100);
    assert_eq!(a.log.logs[0], "line 5");
    assert_eq!(a.log.logs[99], "line 104");
    assert_eq!(a.log.selected, Some(99));
}

#[test]
fn scrolling_up_then_down_returns() {
    let mut a = app();
    for i in 0..5 {
        a.add_log(format!("l{}", i));
    }
    a.scroll_logs_up();
    assert_eq!(a.log.selected, Some(3));
    assert!(!a.log.auto_scroll);
    a.scroll_logs_down();
    assert_eq!(a.log.selected, Some(4));
    assert!(!a.log.auto_scroll);
    a.scroll_logs_down();
    assert_eq!(a.log.selected, Some(4));
    assert!(a.log.auto_scroll);
}

#[test]
fn scroll_up_stops_at_the_top() {
    let mut a = app();
    a.scroll_logs_up();
    assert_eq!(a.log.selected, Some(0));
    a.add_log("x".to_string());
    assert_eq!(a.log.selected, Some(0));
}

#[test]
fn dashboard_quit_help_and_tab() {
    let mut a = app();
    assert!(matches!(press(&mut a, key(KeyCode::Tab)), Action::Nothing));
    assert_eq!(a.bottom_tab_mode, 1);
    press(&mut a, key(KeyCode::Tab));
    assert_eq!(a.bottom_tab_mode, 0);
    press(&mut a, key(KeyCode::Char('h')));
    assert!(a.show_help);
    press(&mut a, key(KeyCode::Char('q')));
    assert!(!a.show_help);
    assert!(!a.should_quit);
    press(&mut a, key(KeyCode::Char('q')));
    assert!(a.should_quit);
}

#[test]
fn inspectors_toggle_exclusively() {
    let mut a = app();
    press(&mut a, key(KeyCode::Char('g')));
    assert!(a.show_gpu_inspector);
    press(&mut a, key(KeyCode::Char('g')));
    assert!(!a.show_gpu_inspector);
    press(&mut a, key(KeyCode::Char('c')));
    assert!(a.show_sys_inspector && !a.show_gpu_inspector);
    press(&mut a, key(KeyCode::Esc));
    assert!(!a.show_sys_inspector);
}

#[test]
fn service_keys_log_and_act() {
    let mut a = app();
    match press(&mut a, key(KeyCode::Char('S'))) {
        Action::Service(ServiceVerb::Start, s) => assert_eq!(s, "llama-router"),
        _ => panic!("expected a start"),
    }
    assert_eq!(a.log.logs.back().unwrap(), ">>> SYSTEMCTL: Starting llama-router...");
    assert!(matches!(press(&mut a, key(KeyCode::Char('X'))), Action::Service(ServiceVerb::Stop, _)));
    assert_eq!(a.log.logs.back().unwrap(), ">>> SYSTEMCTL: Stopping llama-router...");
    assert!(matches!(press(&mut a, key(KeyCode::Char('R'))), Action::Service(ServiceVerb::Restart, _)));
    assert_eq!(a.log.logs.back().unwrap(), ">>> SYSTEMCTL: Restarting llama-router...");
}

#[test]
fn kill_switch_and_crash_dump() {
    let mut a = app();
    match press(&mut a, ctrl('k')) {
        Action::KillSwitch(s) => assert_eq!(s, "llama-router"),
        _ => panic!("expected the kill switch"),
    }
    assert_eq!(
        a.log.logs.back().unwrap(),
        ">>> TACTICAL KILL-SWITCH: stopping unit (frees VRAM, stays down)..."
    );
    let n = a.log.logs.len();
    assert!(matches!(press(&mut a, ctrl('d')), Action::CrashDump));
    assert_eq!(a.log.logs.len(), n);
    // without Control, `k` and `d` do nothing
    assert!(matches!(press(&mut a, key(KeyCode::Char('k'))), Action::Nothing));
    assert!(matches!(press(&mut a, key(KeyCode::Char('d'))), Action::Nothing));
}

#[test]
fn log_search_edits_the_query() {
    let mut a = app();
    press(&mut a, key(KeyCode::Char('/')));
    assert!(a.log.is_searching);
    press(&mut a, key(KeyCode::Char('e')));
    press(&mut a, key(KeyCode::Char('r')));
    press(&mut a, key(KeyCode::Backspace));
    assert_eq!(a.log.search_query, "e");
    press(&mut a, key(KeyCode::Enter));
    assert!(!a.log.is_searching);
    assert_eq!(a.log.search_query, "e");
    press(&mut a, key(KeyCode::Char('/')));
    assert_eq!(a.log.search_query, "");
}

#[test]
fn page_keys_scroll_the_log() {
    let mut a = app();
    a.add_log("a".to_string());
    a.add_log("b".to_string());
    press(&mut a, key(KeyCode::PageUp));
    assert_eq!(a.log.selected, Some(0));
    press(&mut a, key(KeyCode::PageDown));
    assert_eq!(a.log.selected, Some(1));
}

#[test]
fn sniper_spares_protected_processes() {
    let mut a = app();
    a.handle_event(Event::HardwareUpdate(sample(&["saltnitor", "llama-server-x", "blender"], &[], 5)));
    press(&mut a, key(KeyCode::Char('g')));
    assert_eq!(a.gpu_procs.selected, Some(0));
    assert!(matches!(press(&mut a, key(KeyCode::Char('x'))), Action::Nothing));
    assert_eq!(a.log.logs.back().unwrap(), ">>> PROCESS SNIPER: Access Denied.");
    press(&mut a, key(KeyCode::Down));
    assert!(matches!(press(&mut a, key(KeyCode::Delete)), Action::Nothing));
    press(&mut a, key(KeyCode::Down));
    match press(&mut a, key(KeyCode::Char('x'))) {
        Action::KillProcess(n) => assert_eq!(n, "blender"),
        _ => panic!("expected a kill"),
    }
    assert_eq!(a.log.logs.back().unwrap(), ">>> PROCESS SNIPER: Executing SIGKILL (-9) on blender");
}

#[test]
fn sniper_highlight_wraps_around() {
    let mut a = app();
    a.handle_event(Event::HardwareUpdate(sample(&[], &["a", "b", "c"], 5)));
    press(&mut a, key(KeyCode::Char('c')));
    assert_eq!(a.sys_procs.selected, Some(0));
    press(&mut a, key(KeyCode::Up));
    assert_eq!(a.sys_procs.selected, Some(2));
    press(&mut a, key(KeyCode::Down));
    assert_eq!(a.sys_procs.selected, Some(0));
    press(&mut a, key(KeyCode::Char('q')));
    assert!(!a.show_sys_inspector);
}

#[test]
fn typing_then_backspace_restores_the_input() {
    let mut a = app();
    press(&mut a, key(KeyCode::Char('i')));
    assert!(a.console.focused);
    // the start-up cursor sits at the end of the payload: typing appends
    let before = a.console.input.clone();
    press(&mut a, key(KeyCode::Char('z')));
    assert_eq!(a.console.cursor, 69);
    assert!(a.console.input.ends_with("}z"));
    press(&mut a, key(KeyCode::Backspace));
    assert_eq!(a.console.input, before);
    assert_eq!(a.console.cursor, 68);
    press(&mut a, key(KeyCode::Right));
    assert_eq!(a.console.cursor, 68);
}

#[test]
fn editing_in_the_middle() {
    let mut a = app();
    press(&mut a, key(KeyCode::Char('i')));
    for _ in 0..70 {
        press(&mut a, key(KeyCode::Left));
    }
    assert_eq!(a.console.cursor, 0);
    press(&mut a, key(KeyCode::Delete));
    assert!(a.console.input.starts_with("\"model\""));
    press(&mut a, key(KeyCode::Char('[')));
    assert!(a.console.input.starts_with("[\"model\""));
    press(&mut a, key(KeyCode::Right));
    assert_eq!(a.console.cursor, 2);
    press(&mut a, key(KeyCode::Esc));
    assert!(!a.console.focused);
}

#[test]
fn firing_records_history_bounded_to_ten() {
    let mut a = app();
    press(&mut a, key(KeyCode::Char('i')));
    for i in 0..12 {
        a.console.input = format!("payload {}", i);
        a.console.cursor = 0;
        match press(&mut a, key(KeyCode::Enter)) {
            Action::FireRequest { payload, use_api_key } => {
                assert_eq!(payload, format!("payload {}", i));
                assert!(!use_api_key);
            }
            _ => panic!("expected a request"),
        }
    }
    assert_eq!(a.console.history.len(), 10);
    assert_eq!(a.console.history[0], "payload 2");
    assert_eq!(a.console.history[9], "payload 11");
    assert_eq!(a.console.history_index, 10);
    assert_eq!(a.console.last_api_result, "Sending payload...");
    // the same payload twice is kept once
    press(&mut a, key(KeyCode::Enter));
    assert_eq!(a.console.history.len(), 10);
    assert_eq!(a.console.history[9], "payload 11");
}

#[test]
fn blank_payload_is_sent_but_not_recorded() {
    let mut a = app();
    press(&mut a, key(KeyCode::Char('i')));
    a.console.input = "   ".to_string();
    a.console.cursor = 0;
    assert!(matches!(press(&mut a, key(KeyCode::Enter)), Action::FireRequest { .. }));
    assert!(a.console.history.is_empty());
}

#[test]
fn history_walks_up_and_down() {
    let mut a = App::new(
        "cpu".to_string(), 4, "gpu".to_string(), false, "h".to_string(), 1,
        "svc".to_string(), 0, 0, vec!["one".to_string(), "two".to_string()],
    );
    press(&mut a, key(KeyCode::Char('i')));
    press(&mut a, key(KeyCode::Up));
    assert_eq!(a.console.input, "two");
    assert_eq!(a.console.cursor, 3);
    press(&mut a, key(KeyCode::Up));
    assert_eq!(a.console.input, "one");
    press(&mut a, key(KeyCode::Up));
    assert_eq!(a.console.input, "one");
    press(&mut a, key(KeyCode::Down));
    assert_eq!(a.console.input, "two");
    press(&mut a, key(KeyCode::Down));
    assert_eq!(a.console.input, "");
    assert_eq!(a.console.history_index, 2);
}

#[test]
fn tuner_pages_rows_and_bounds() {
    let mut a = app();
    press(&mut a, key(KeyCode::Char('t')));
    assert!(a.tuner.show);
    // ngl stops at 99
    for _ in 0..80 {
        press(&mut a, key(KeyCode::Right));
    }
    assert_eq!(a.tuner.current_ngl, 99);
    press(&mut a, key(KeyCode::Down));
    press(&mut a, key(KeyCode::Left));
    assert_eq!(a.tuner.current_ctx, 7168);
    press(&mut a, key(KeyCode::Down));
    press(&mut a, key(KeyCode::Right));
    assert_eq!(a.tuner.current_threads, 8);
    press(&mut a, key(KeyCode::Right));
    assert_eq!(a.tuner.current_threads, 8);
    press(&mut a, key(KeyCode::Down));
    press(&mut a, key(KeyCode::Right));
    assert_eq!(a.tuner.current_batch, 1024);
    for _ in 0..20 {
        press(&mut a, key(KeyCode::Down));
    }
    assert_eq!(a.tuner.selected, 9);
    for _ in 0..12 {
        press(&mut a, key(KeyCode::Right));
    }
    assert_eq!(a.tuner.cache_v_idx, 8);
    press(&mut a, key(KeyCode::Tab));
    assert_eq!(a.tuner.page, 1);
    assert_eq!(a.tuner.selected, 0);
    press(&mut a, key(KeyCode::Right));
    assert_eq!(a.tuner.rope_base, 20000);
    press(&mut a, key(KeyCode::Tab));
    press(&mut a, key(KeyCode::Tab));
    assert_eq!(a.tuner.page, 0);
    press(&mut a, key(KeyCode::Esc));
    assert!(!a.tuner.show);
}

#[test]
fn tuner_float_rows_are_left_to_the_front_end() {
    let mut a = app();
    press(&mut a, key(KeyCode::Char('t')));
    press(&mut a, key(KeyCode::Tab));
    press(&mut a, key(KeyCode::Down));
    assert!(matches!(press(&mut a, key(KeyCode::Right)), Action::AdjustRopeScale(true)));
    press(&mut a, key(KeyCode::Down));
    assert!(matches!(press(&mut a, key(KeyCode::Left)), Action::AdjustDefrag(false)));
}

#[test]
fn tuner_enter_without_a_model_only_logs() {
    let mut a = app();
    press(&mut a, key(KeyCode::Char('t')));
    assert!(matches!(press(&mut a, key(KeyCode::Enter)), Action::Nothing));
    assert!(a.tuner.show);
    assert_eq!(
        a.log.logs.back().unwrap(),
        ">>> TUNER: no active model - select one in the Hot-Swap deck (Tab) before applying."
    );
}

#[test]
fn tuner_enter_writes_the_active_section() {
    let mut a = app();
    a.handle_event(Event::ModelsFetched(vec!["fast".to_string()]));
    press(&mut a, key(KeyCode::Char('t')));
    a.tuner.mlock = true;
    match press(&mut a, key(KeyCode::Enter)) {
        Action::WriteTunerSection(s) => assert_eq!(s, "fast"),
        _ => panic!("expected a write"),
    }
    assert!(!a.tuner.show);
    assert_eq!(a.log.logs.back().unwrap(), ">>> TUNER: writing 15 keys to [fast] in router.ini...");
}

#[test]
fn hot_swap_enter_pins_the_chosen_model() {
    let mut a = app();
    a.handle_event(Event::ModelsFetched(vec!["qwen-7B".to_string(), "llama-70B".to_string()]));
    press(&mut a, key(KeyCode::Tab));
    press(&mut a, key(KeyCode::Char('i')));
    press(&mut a, key(KeyCode::Down));
    assert_eq!(a.models.selected, Some(1));
    match press(&mut a, key(KeyCode::Enter)) {
        Action::HotSwap(m) => assert_eq!(m, "llama-70B"),
        _ => panic!("expected a hot-swap"),
    }
    assert!(!a.console.focused);
    assert_eq!(a.models.active, "llama-70B");
    assert_eq!(
        a.console.input,
        r#"{"model": "llama-70B", "messages": [{"role": "user", "content": "ping"}]}"#
    );
    assert_eq!(a.console.cursor, a.console.input.chars().count());
    assert_eq!(a.log.logs.back().unwrap(), ">>> HOT-SWAP: Requesting [llama-70B] from router...");
    a.pin_gpu_layers(24);
    assert_eq!(a.tuner.current_ngl, 24);
}

#[test]
fn hardware_update_clamps_selections_and_keeps_history() {
    let mut a = app();
    a.handle_event(Event::HardwareUpdate(sample(&["a", "b", "c"], &["x"], 42)));
    assert_eq!(a.gpu_procs.selected, Some(0));
    assert_eq!(a.telemetry.cpu_history.len(), 100);
    assert_eq!(*a.telemetry.cpu_history.last().unwrap(), 42);
    assert_eq!(a.telemetry.gpu_temp, 64);
    assert_eq!(a.telemetry.sys_uptime, 3725);
    a.gpu_procs.selected = Some(2);
    a.handle_event(Event::HardwareUpdate(sample(&["a"], &[], 7)));
    assert_eq!(a.gpu_procs.selected, Some(0));
    assert_eq!(a.sys_procs.selected, None);
    assert_eq!(*a.telemetry.cpu_history.last().unwrap(), 7);
    assert_eq!(a.telemetry.cpu_history[98], 42);
}

#[test]
fn models_fetched_adopts_the_first_model_once() {
    let mut a = app();
    a.handle_event(Event::ModelsFetched(vec!["m1".to_string(), "m2".to_string()]));
    assert_eq!(a.models.active, "m1");
    assert_eq!(a.models.selected, Some(0));
    assert_eq!(a.console.input, r#"{"model": "m1", "messages": [{"role": "user", "content": "ping"}]}"#);
    a.handle_event(Event::ModelsFetched(vec!["m2".to_string()]));
    assert_eq!(a.models.active, "m1");
    a.handle_event(Event::ModelsFetched(Vec::new()));
    assert_eq!(a.models.selected, None);
}

#[test]
fn streamed_reply_is_logged_with_an_excerpt() {
    let mut a = app();
    a.handle_event(Event::ApiStreamStart { ttft_ms: 42 });
    assert_eq!(a.console.last_ttft, 42);
    assert_eq!(a.console.last_api_result, "");
    a.handle_event(Event::ApiStreamChunk("Hello".to_string()));
    a.handle_event(Event::ApiStreamChunk(", world! This reply is longer than thirty".to_string()));
    assert_eq!(a.console.last_api_result, "Hello, world! This reply is longer than thirty");
    a.handle_event(Event::ApiStreamEnd { status: "200 OK".to_string(), gen_rate: "12.5".to_string() });
    assert_eq!(
        a.log.logs.back().unwrap(),
        "API Strike: 42ms | Gen: 12.5 t/s | [200 OK] Hello, world! This reply is lo"
    );
}

#[test]
fn port_audit_and_external_model() {
    let mut a = app();
    a.handle_event(Event::PortAudit("Port 8080: SECURE (llama-server bound)".to_string()));
    assert_eq!(a.port_status, "Port 8080: SECURE (llama-server bound)");
    a.handle_event(Event::ActiveModelSet("deep".to_string()));
    assert_eq!(a.models.active, "deep");
    assert_eq!(a.log.logs.back().unwrap(), ">>> EXTERNAL: resident model is now deep");
    a.handle_event(Event::LogLine("journal".to_string()));
    assert_eq!(a.log.logs.back().unwrap(), "journal");
    let n = a.log.logs.len();
    a.handle_event(Event::Tick);
    assert_eq!(a.log.logs.len(), n);
}

#[test]
fn api_key_lock_adds_the_bearer_to_requests() {
    let mut a = app();
    press(&mut a, key(KeyCode::Char('t')));
    press(&mut a, key(KeyCode::Tab));
    press(&mut a, key(KeyCode::Tab));
    for _ in 0..5 {
        press(&mut a, key(KeyCode::Down));
    }
    press(&mut a, key(KeyCode::Right));
    assert!(a.tuner.api_key);
    press(&mut a, key(KeyCode::Esc));
    press(&mut a, key(KeyCode::Char('i')));
    press(&mut a, key(KeyCode::Left));
    match press(&mut a, key(KeyCode::Enter)) {
        Action::FireRequest { use_api_key, .. } => assert!(use_api_key),
        _ => panic!("expected a request"),
    }
}

#[test]
fn rope_base_at_the_top_of_i32_is_refused() {
    let mut a = app();
    press(&mut a, key(KeyCode::Char('t')));
    press(&mut a, key(KeyCode::Tab));
    a.tuner.rope_base = i32::MAX - 5000;
    assert!(!a.accepts_key(key(KeyCode::Right)));
    assert!(a.accepts_key(key(KeyCode::Left)));
}
