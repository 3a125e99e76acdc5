use saltnitor::display::{
    centered_rect_absolute, clip_name, cursor_split, heat_of, log_tone, page_title, port_tone,
    row_line, too_small, top_height, tuner_rows, uptime_text, Area, Heat, PortTone, Tone,
};
use saltnitor::probe::{
    gpu_identity, gpu_processes, gpu_readout, meminfo_field, parse_i32, top_processes,
};
use saltnitor::setup::{
    check_dependencies, config_path, crash_dump_notice, crash_dump_path, history_entries,
    history_file_text, required_commands, resolve_settings, CliArgs, FileConfig,
};
use saltnitor::app::App;
use saltnitor::tuning::{tuner_kv, tuner_write_plan, tuner_written_notice};

fn s(x: &str) -> String {
    x.to_string()
}

fn no_file() -> FileConfig {
    FileConfig {
        port: None,
        host: None,
        service_name: None,
        default_ngl: None,
        default_ctx: None,
        control_port: None,
        router_base: None,
    }
}

fn app() -> App {
    App::new(
        s("cpu"), 8, s("gpu"), true, s("127.0.0.1"), 8080, s("llama-router"), 33, 8192, Vec::new(),
    )
}

#[test]
fn config_file_location() {
    assert_eq!(
        config_path(&Some(s("laz")), &Some(s("/root"))),
        Some(s("/home/laz/.config/saltnitor/config.toml"))
    );
    assert_eq!(config_path(&None, &Some(s("/home/me"))), Some(s("/home/me/.config/saltnitor/config.toml")));
    assert_eq!(config_path(&None, &Some(s("/home/me/"))), Some(s("/home/me/.config/saltnitor/config.toml")));
    assert_eq!(config_path(&None, &Some(s(""))), Some(s(".config/saltnitor/config.toml")));
    assert_eq!(config_path(&None, &None), None);
}

#[test]
fn settings_defaults() {
    let cli = CliArgs { port: None, host: None, service_name: None };
    let st = resolve_settings(&cli, &no_file());
    assert_eq!(st.port, 8080);
    assert_eq!(st.host, "127.0.0.1");
    assert_eq!(st.service_name, "llama-router");
    assert_eq!(st.default_ngl, 33);
    assert_eq!(st.default_ctx, 8192);
    assert_eq!(st.control_port, 8765);
    assert_eq!(st.router_base, "http://127.0.0.1:8080");
}

#[test]
fn flags_win_over_the_file() {
    let cli = CliArgs { port: Some(9000), host: None, service_name: Some(s("svc")) };
    let mut file = no_file();
    file.port = Some(7000);
    file.host = Some(s("10.0.0.2"));
    file.service_name = Some(s("other"));
    file.default_ngl = Some(20);
    file.control_port = Some(1234);
    let st = resolve_settings(&cli, &file);
    assert_eq!(st.port, 9000);
    assert_eq!(st.host, "10.0.0.2");
    assert_eq!(st.service_name, "svc");
    assert_eq!(st.default_ngl, 20);
    assert_eq!(st.control_port, 1234);
    assert_eq!(st.router_base, "http://10.0.0.2:9000");
    file.router_base = Some(s("http://router:1"));
    assert_eq!(resolve_settings(&cli, &file).router_base, "http://router:1");
}

#[test]
fn dependency_check() {
    assert_eq!(required_commands(), vec![s("journalctl"), s("ss"), s("systemctl"), s("killall")]);
    assert_eq!(check_dependencies(&vec![true, true, true, true]), Ok(()));
    assert_eq!(
        check_dependencies(&vec![true, false, true, false]),
        Err(s("Missing critical Linux dependencies: ss, killall"))
    );
    assert_eq!(
        check_dependencies(&vec![false, true, true, true]),
        Err(s("Missing critical Linux dependencies: journalctl"))
    );
}

#[test]
fn history_file_round_trip() {
    let h = vec![s(r#"{"model": "a"}"#), s("second payload")];
    let text = history_file_text(&h).unwrap();
    assert_eq!(text, "{\"model\": \"a\"}\nsecond payload");
    assert_eq!(history_entries(&text), h);
    assert_eq!(history_file_text(&Vec::new()), None);
}

#[test]
fn history_skips_blank_lines() {
    assert_eq!(history_entries("a\n   \n\nb\r\n"), vec![s("a"), s("b")]);
    assert!(history_entries("").is_empty());
}

#[test]
fn crash_dump_location() {
    assert_eq!(
        crash_dump_path(&Some(s("/home/laz")), "20240101_120000"),
        "/home/laz/saltnitor_crash_20240101_120000.txt"
    );
    assert_eq!(crash_dump_path(&None, "x"), "./saltnitor_crash_x.txt");
    assert_eq!(crash_dump_notice("/tmp/d.txt"), ">>> CRASH DUMP -> /tmp/d.txt");
}

#[test]
fn tuner_keys_count_matches_the_announcement() {
    let mut a = app();
    let kv = tuner_kv(&a.tuner, "1", "-1");
    assert_eq!(kv.len(), 14);
    assert_eq!(kv[0], (s("ngl"), s("33")));
    assert_eq!(kv[4], (s("threads"), s("7")));
    assert_eq!(kv[7], (s("flash-attn"), s("off")));
    assert_eq!(kv[8], (s("cache-type-k"), s("f16")));
    assert_eq!(kv[10], (s("cont-batching"), s("true")));
    assert_eq!(kv[11], (s("rope-freq-base"), s("10000")));
    assert_eq!(kv[12], (s("rope-freq-scale"), s("1")));
    assert_eq!(kv[13], (s("defrag-thold"), s("-1")));
    a.tuner.mlock = true;
    a.tuner.no_mmap = true;
    a.tuner.cache_v_idx = 6;
    let kv = tuner_kv(&a.tuner, "1.5", "0.1");
    assert_eq!(kv.len(), 16);
    assert_eq!(kv[9], (s("cache-type-v"), s("iq4_nl")));
    assert_eq!(kv[14], (s("mlock"), s("true")));
    assert_eq!(kv[15], (s("no-mmap"), s("true")));
}

#[test]
fn tuner_write_outcomes() {
    let kv = vec![(s("ngl"), s("99"))];
    let ini = "[*]\nthreads = 7\n[fast]\nmodel = /m/a.gguf\nngl = 10\n[deep]\nngl = 5\n";
    assert_eq!(
        tuner_write_plan(&Some(s(ini)), "fast", &kv, "/r.ini"),
        Ok(s("[*]\nthreads = 7\n[fast]\nmodel = /m/a.gguf\nngl = 99\n[deep]\nngl = 5\n"))
    );
    assert_eq!(
        tuner_write_plan(&Some(s(ini)), "nope", &kv, "/r.ini"),
        Err(s(">>> TUNER ERROR: section [nope] not found in router.ini"))
    );
    assert_eq!(
        tuner_write_plan(&None, "fast", &kv, "/r.ini"),
        Err(s(">>> TUNER ERROR: cannot read /r.ini"))
    );
    assert_eq!(tuner_written_notice("fast"), ">>> TUNER: [fast] updated. Restarting router...");
}

#[test]
fn log_search_is_case_insensitive() {
    let mut a = app();
    a.add_log(s("llama_model_load: Loading"));
    a.add_log(s("Hot-swap done"));
    a.add_log(s("CUDA ERROR: out of memory"));
    assert_eq!(a.visible_logs().len(), 3);
    a.log.search_query = s("ERROR");
    assert_eq!(a.visible_logs(), vec![s("CUDA ERROR: out of memory")]);
    a.log.search_query = s("hot-SWAP");
    assert_eq!(a.visible_logs(), vec![s("Hot-swap done")]);
    a.log.search_query = s("zzz");
    assert!(a.visible_logs().is_empty());
}

#[test]
fn log_colours() {
    assert_eq!(log_tone("CUDA OOM"), Tone::Alert);
    assert_eq!(log_tone("Failed to bind"), Tone::Alert);
    assert_eq!(log_tone("an error occurred"), Tone::Alert);
    assert_eq!(log_tone("an Error occurred"), Tone::Plain);
    assert_eq!(log_tone("Loading Model x"), Tone::Notice);
    assert_eq!(log_tone("Hot-swap"), Tone::Notice);
    assert_eq!(log_tone("llama_kv_cache"), Tone::Engine);
    assert_eq!(log_tone("llama_ error"), Tone::Alert);
    assert_eq!(port_tone("Port 1: ZOMBIE"), PortTone::Alarm);
    assert_eq!(port_tone("Port 1: SECURE (llama-server bound)"), PortTone::Secure);
    assert_eq!(port_tone("Port 1: OFFLINE (Daemon Down)"), PortTone::Muted);
    assert_eq!(heat_of(81), Heat::Hot);
    assert_eq!(heat_of(80), Heat::Warm);
    assert_eq!(heat_of(71), Heat::Warm);
    assert_eq!(heat_of(70), Heat::Cool);
    assert_eq!(top_height(true, false), 7);
    assert_eq!(top_height(false, false), 6);
    assert!(too_small(79, 40));
    assert!(too_small(120, 15));
    assert!(!too_small(80, 16));
}

#[test]
fn small_texts() {
    assert_eq!(uptime_text(3725), "01h 02m");
    assert_eq!(uptime_text(0), "00h 00m");
    assert_eq!(uptime_text(360_000), "100h 00m");
    assert_eq!(clip_name("short"), "short");
    assert_eq!(clip_name("abcdefghijklmnopqrstuvwx"), "abcdefghijklmnopqrstuvwx");
    assert_eq!(clip_name("abcdefghijklmnopqrstuvwxy"), "abcdefghijklmnopqrstu...");
    assert_eq!(clip_name("éééééééééé_abcdefgh"), "éééééééééé_...");
    assert_eq!(page_title(0), "COMPUTE & MEMORY");
    assert_eq!(page_title(1), "CONTEXT & SPECULATION");
    assert_eq!(page_title(2), "ORCHESTRATION & SECURITY");
}

#[test]
fn console_cursor_split() {
    assert_eq!(cursor_split("hello", 2), (s("he"), s("l"), s("lo")));
    assert_eq!(cursor_split("hello", 5), (s("hello"), s(""), s("")));
    assert_eq!(cursor_split("hi", 9), (s("hi"), s(""), s("")));
    assert_eq!(cursor_split("", 0), (s(""), s(""), s("")));
    let (a, b, c) = cursor_split("payload", 3);
    assert_eq!(format!("{}{}{}", a, b, c), "payload");
    assert_eq!(a.chars().count(), 3);
}

#[test]
fn tuner_popup_rows() {
    let mut a = app();
    let rows = tuner_rows(&a.tuner, "1.0", "-1.0");
    assert_eq!(rows.len(), 10);
    assert_eq!(rows[0], (s("GPU Layers (ngl)"), s("33")));
    assert_eq!(rows[5], (s("Flash Attention"), s("OFF")));
    assert_eq!(rows[8], (s("KV Cache (K-Type)"), s("f16")));
    a.tuner.page = 1;
    let rows = tuner_rows(&a.tuner, "1.0", "-1.0");
    assert_eq!(rows.len(), 5);
    assert_eq!(rows[1], (s("RoPE Scale"), s("1.0")));
    assert_eq!(rows[3], (s("Draft Max"), s("16")));
    a.tuner.page = 2;
    let rows = tuner_rows(&a.tuner, "1.0", "-1.0");
    assert_eq!(rows.len(), 6);
    assert_eq!(rows[2], (s("Continuous Batching"), s("ON")));
    assert_eq!(row_line("Metrics", "OFF"), format!("  Metrics:{}OFF{}[< / >]  ", " ".repeat(17), " ".repeat(7)));
    assert_eq!(
        row_line("A label longer than twenty-four", "a value too long"),
        "  A label longer than twenty-four:a value too long[< / >]  "
    );
}

#[test]
fn popups_are_centred() {
    let r = Area { x: 0, y: 0, width: 100, height: 40 };
    assert_eq!(centered_rect_absolute(60, 20, r), Area { x: 20, y: 10, width: 60, height: 20 });
    let r = Area { x: 2, y: 3, width: 81, height: 25 };
    assert_eq!(centered_rect_absolute(65, 22, r), Area { x: 10, y: 4, width: 65, height: 22 });
    let r = Area { x: 65000, y: 0, width: 1000, height: 40 };
    assert_eq!(centered_rect_absolute(40, 20, r), Area { x: 65480, y: 10, width: 40, height: 20 });
}

#[test]
fn integers_parse_like_std() {
    assert_eq!(parse_i32("64"), Some(64));
    assert_eq!(parse_i32("+7"), Some(7));
    assert_eq!(parse_i32("-2147483648"), Some(i32::MIN));
    assert_eq!(parse_i32("2147483647"), Some(i32::MAX));
    assert_eq!(parse_i32("2147483648"), None);
    assert_eq!(parse_i32("99999999999999999999"), None);
    assert_eq!(parse_i32(""), None);
    assert_eq!(parse_i32("-"), None);
    assert_eq!(parse_i32("[N/A]"), None);
    assert_eq!(parse_i32(" 5"), None);
    for t in ["0", "-0", "12", "-301", "+0", "1x", "x1", "--1"] {
        assert_eq!(parse_i32(t), t.parse::<i32>().ok(), "{}", t);
    }
}

#[test]
fn gpu_probe_rows() {
    assert_eq!(gpu_identity("NVIDIA GeForce RTX 4070, 12282\n"), Some((s("NVIDIA GeForce RTX 4070"), s("12282"))));
    assert_eq!(gpu_identity("garbage"), None);
    let g = gpu_readout("5120, 64, 120.50, 200.00, 37, 12, 40, 1800, 7000\n").unwrap();
    assert_eq!(g.vram_used, "5120");
    assert_eq!(g.gpu_temp, 64);
    assert_eq!(g.gpu_power, "120.50W / 200.00W");
    assert_eq!(g.gpu_util, "37");
    assert_eq!(g.vram_util, "12");
    assert_eq!(g.gpu_fan, "40");
    assert_eq!(g.gpu_clocks, "1800 MHz / 7000 MHz");
    let g = gpu_readout("1, [N/A], a, b, c, d, e, f, g").unwrap();
    assert_eq!(g.gpu_temp, 0);
    assert!(gpu_readout("1, 2, 3").is_none());
}

#[test]
fn gpu_process_listing() {
    let out = "/usr/bin/python3, 2048\nbad line\n/opt/llama/llama-server, 9000\n";
    assert_eq!(
        gpu_processes(out),
        vec![(s("python3"), s("2048")), (s("llama-server"), s("9000"))]
    );
    assert!(gpu_processes("").is_empty());
}

#[test]
fn meminfo_lookup() {
    let m = "MemTotal:       32768000 kB\nMemFree:  100 kB\nMemAvailable:   16000000 kB\n";
    assert_eq!(meminfo_field(m, "MemTotal:"), Some(s("32768000")));
    assert_eq!(meminfo_field(m, "MemAvailable:"), Some(s("16000000")));
    assert_eq!(meminfo_field(m, "SwapTotal:"), None);
    assert_eq!(meminfo_field("MemTotal:\n", "MemTotal:"), None);
}

#[test]
fn top_processes_sorted_deduplicated() {
    let procs = vec![
        (s("small"), 1_000),
        (s("chrome"), 5_000_000),
        (s("code"), 9_000_000),
        (s("chrome"), 7_000_000),
        (s("tie"), 5_000_000),
    ];
    assert_eq!(
        top_processes(procs),
        vec![(s("code"), 9_000_000), (s("chrome"), 7_000_000), (s("tie"), 5_000_000)]
    );
    assert!(top_processes(Vec::new()).is_empty());
}
