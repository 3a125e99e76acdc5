//! The dashboard's state: everything the terminal view shows and the key
//! handlers change, apart from the floating-point telemetry, which the
//! terminal front end keeps beside it.
use vstd::prelude::*;
use std::collections::VecDeque;
use crate::text::{digits, nat_to_string, push_str};

verus! {

/// How many log lines the streamer keeps.
pub const LOG_CAPACITY: usize = 100;

/// How many CPU load samples the sparkline keeps.
pub const CPU_HISTORY_LEN: usize = 100;

/// The log streamer: the last lines, the highlighted line, and the search box.
pub struct LogPane {
    pub logs: VecDeque<String>,
    pub selected: Option<usize>,
    pub auto_scroll: bool,
    pub is_searching: bool,
    pub search_query: String,
}

#[verifier::ext_equal]
pub struct LogPaneView {
    pub logs: Seq<Seq<char>>,
    pub selected: Option<usize>,
    pub auto_scroll: bool,
    pub is_searching: bool,
    pub search_query: Seq<char>,
}

impl View for LogPane {
    type V = LogPaneView;

    open spec fn view(&self) -> LogPaneView {
        LogPaneView {
            logs: self.logs@.map_values(|s: String| s@),
            selected: self.selected,
            auto_scroll: self.auto_scroll,
            is_searching: self.is_searching,
            search_query: self.search_query@,
        }
    }
}

/// The API interrogator: the payload being edited, its cursor (in
/// characters), the payload history and the last reply.
pub struct Console {
    pub focused: bool,
    pub input: String,
    pub cursor: usize,
    pub history: Vec<String>,
    pub history_index: usize,
    pub last_api_result: String,
    pub last_ttft: u128,
}

#[verifier::ext_equal]
pub struct ConsoleView {
    pub focused: bool,
    pub input: Seq<char>,
    pub cursor: usize,
    pub history: Seq<Seq<char>>,
    pub history_index: usize,
    pub last_api_result: Seq<char>,
    pub last_ttft: u128,
}

impl View for Console {
    type V = ConsoleView;

    open spec fn view(&self) -> ConsoleView {
        ConsoleView {
            focused: self.focused,
            input: self.input@,
            cursor: self.cursor,
            history: self.history@.map_values(|s: String| s@),
            history_index: self.history_index,
            last_api_result: self.last_api_result@,
            last_ttft: self.last_ttft,
        }
    }
}

/// A list of process names with a highlighted entry (the process sniper).
pub struct Picker {
    pub names: Vec<String>,
    pub selected: Option<usize>,
}

#[verifier::ext_equal]
pub struct PickerView {
    pub names: Seq<Seq<char>>,
    pub selected: Option<usize>,
}

impl View for Picker {
    type V = PickerView;

    open spec fn view(&self) -> PickerView {
        PickerView { names: self.names@.map_values(|s: String| s@), selected: self.selected }
    }
}

/// The hot-swap deck: the models the router offers, the highlighted one, and
/// the model requests are aimed at.
pub struct ModelDeck {
    pub available: Vec<String>,
    pub active: String,
    pub selected: Option<usize>,
}

#[verifier::ext_equal]
pub struct ModelDeckView {
    pub available: Seq<Seq<char>>,
    pub active: Seq<char>,
    pub selected: Option<usize>,
}

impl View for ModelDeck {
    type V = ModelDeckView;

    open spec fn view(&self) -> ModelDeckView {
        ModelDeckView {
            available: self.available@.map_values(|s: String| s@),
            active: self.active@,
            selected: self.selected,
        }
    }
}

/// The telemetry that is not a floating-point quantity.
pub struct Telemetry {
    pub gpu_temp: i32,
    pub gpu_power: String,
    pub gpu_util: String,
    pub vram_util: String,
    pub gpu_fan: String,
    pub gpu_clocks: String,
    pub sys_uptime: u64,
    pub cpu_history: Vec<u64>,
}

#[verifier::ext_equal]
pub struct TelemetryView {
    pub gpu_temp: i32,
    pub gpu_power: Seq<char>,
    pub gpu_util: Seq<char>,
    pub vram_util: Seq<char>,
    pub gpu_fan: Seq<char>,
    pub gpu_clocks: Seq<char>,
    pub sys_uptime: u64,
    pub cpu_history: Seq<u64>,
}

impl View for Telemetry {
    type V = TelemetryView;

    open spec fn view(&self) -> TelemetryView {
        TelemetryView {
            gpu_temp: self.gpu_temp,
            gpu_power: self.gpu_power@,
            gpu_util: self.gpu_util@,
            vram_util: self.vram_util@,
            gpu_fan: self.gpu_fan@,
            gpu_clocks: self.gpu_clocks@,
            sys_uptime: self.sys_uptime,
            cpu_history: self.cpu_history@,
        }
    }
}

/// The deep engine tuner: its page and row, and the integer and switch
/// settings of the three pages.
#[derive(Clone, Copy)]
pub struct Tuner {
    pub show: bool,
    pub page: usize,
    pub selected: usize,
    // page 1: compute & memory
    pub current_ngl: i32,
    pub current_ctx: i32,
    pub current_threads: usize,
    pub current_batch: i32,
    pub current_parallel: i32,
    pub flash_attn: bool,
    pub mlock: bool,
    pub no_mmap: bool,
    pub cache_k_idx: usize,
    pub cache_v_idx: usize,
    // page 2: context & speculation
    pub rope_base: i32,
    pub draft_max: i32,
    pub draft_min: i32,
    pub draft_model_idx: usize,
    // page 3: orchestration & security
    pub threads_batch: usize,
    pub ubatch_size: i32,
    pub cont_batching: bool,
    pub ctx_shift: bool,
    pub metrics: bool,
    pub api_key: bool,
    // sampling default
    pub top_k: i32,
}

/// The central state of the dashboard.
pub struct App {
    pub should_quit: bool,
    // hardware and command-line configuration
    pub cpu_name: String,
    pub cpu_core_count: usize,
    pub gpu_name: String,
    pub has_nvidia: bool,
    pub host: String,
    pub port: u16,
    pub service_name: String,
    // telemetry and the two process inspectors
    pub telemetry: Telemetry,
    pub gpu_procs: Picker,
    pub sys_procs: Picker,
    pub show_gpu_inspector: bool,
    pub show_sys_inspector: bool,
    // overlays and decks
    pub tuner: Tuner,
    pub show_help: bool,
    pub console: Console,
    pub models: ModelDeck,
    pub bottom_tab_mode: usize,
    pub port_status: String,
    pub log: LogPane,
}

#[verifier::ext_equal]
pub struct AppView {
    pub should_quit: bool,
    pub cpu_name: Seq<char>,
    pub cpu_core_count: usize,
    pub gpu_name: Seq<char>,
    pub has_nvidia: bool,
    pub host: Seq<char>,
    pub port: u16,
    pub service_name: Seq<char>,
    pub telemetry: TelemetryView,
    pub gpu_procs: PickerView,
    pub sys_procs: PickerView,
    pub show_gpu_inspector: bool,
    pub show_sys_inspector: bool,
    pub tuner: Tuner,
    pub show_help: bool,
    pub console: ConsoleView,
    pub models: ModelDeckView,
    pub bottom_tab_mode: usize,
    pub port_status: Seq<char>,
    pub log: LogPaneView,
}

impl View for App {
    type V = AppView;

    open spec fn view(&self) -> AppView {
        AppView {
            should_quit: self.should_quit,
            cpu_name: self.cpu_name@,
            cpu_core_count: self.cpu_core_count,
            gpu_name: self.gpu_name@,
            has_nvidia: self.has_nvidia,
            host: self.host@,
            port: self.port,
            service_name: self.service_name@,
            telemetry: self.telemetry@,
            gpu_procs: self.gpu_procs@,
            sys_procs: self.sys_procs@,
            show_gpu_inspector: self.show_gpu_inspector,
            show_sys_inspector: self.show_sys_inspector,
            tuner: self.tuner,
            show_help: self.show_help,
            console: self.console@,
            models: self.models@,
            bottom_tab_mode: self.bottom_tab_mode,
            port_status: self.port_status@,
            log: self.log@,
        }
    }
}

// ───────────────────────── invariants ─────────────────────────

/// The tuner's settings stay where its handlers can move them without
/// leaving their types: a page index, a cache-type index into the nine
/// cache types, and positive batch sizes.
pub open spec fn tuner_wf(t: Tuner) -> bool {
    &&& t.page < 3
    &&& t.cache_k_idx < 9
    &&& t.cache_v_idx < 9
    &&& 0 < t.current_batch < 16384
    &&& 0 < t.ubatch_size < 32768
}

/// The state every handler keeps.
pub open spec fn app_wf(s: AppView) -> bool {
    &&& s.log.logs.len() <= LOG_CAPACITY
    &&& s.console.history_index <= s.console.history.len()
    &&& s.console.cursor <= s.console.input.len()
    &&& s.telemetry.cpu_history.len() <= CPU_HISTORY_LEN
    &&& tuner_wf(s.tuner)
    &&& s.bottom_tab_mode < 2
}

impl App {
    pub open spec fn wf(&self) -> bool {
        app_wf(self@)
    }
}

// ───────────────────────── the log streamer ─────────────────────────

/// The log pane after a new line: the oldest line goes when the pane is
/// full, and with auto-scroll on, the newest line is highlighted.
pub open spec fn add_log_spec(p: LogPaneView, line: Seq<char>) -> LogPaneView {
    let kept = if p.logs.len() == LOG_CAPACITY {
        p.logs.drop_first()
    } else {
        p.logs
    };
    let logs = kept.push(line);
    LogPaneView {
        logs: logs,
        selected: if p.auto_scroll {
            Some((logs.len() - 1) as usize)
        } else {
            p.selected
        },
        ..p
    }
}

/// One line up; this ends auto-scroll.
pub open spec fn scroll_up_spec(p: LogPaneView) -> LogPaneView {
    LogPaneView {
        auto_scroll: false,
        selected: Some(
            match p.selected {
                Some(i) => if i > 0 {
                    (i - 1) as usize
                } else {
                    0
                },
                None => 0,
            },
        ),
        ..p
    }
}

/// The last index of a list of `n` entries, or 0 (`n.saturating_sub(1)`).
pub open spec fn last_index(n: nat) -> usize {
    if n > 0 {
        (n - 1) as usize
    } else {
        0
    }
}

/// One line down; at the bottom, auto-scroll comes back on.
pub open spec fn scroll_down_spec(p: LogPaneView) -> LogPaneView {
    match p.selected {
        Some(i) => if i + 1 >= p.logs.len() {
            LogPaneView { auto_scroll: true, selected: Some(last_index(p.logs.len())), ..p }
        } else {
            LogPaneView { selected: Some((i + 1) as usize), ..p }
        },
        None => LogPaneView { selected: Some(0), ..p },
    }
}

// ───────────────────────── construction ─────────────────────────

pub open spec fn ping_payload(model: Seq<char>) -> Seq<char> {
    "{\"model\": \""@ + model + "\", \"messages\": [{\"role\": \"user\", \"content\": \"ping\"}]}"@
}

pub open spec fn initial_threads(cores: usize) -> usize {
    if cores > 1 {
        (cores - 1) as usize
    } else {
        1
    }
}

/// The tuner as the dashboard starts.
pub open spec fn initial_tuner(cores: usize, ngl: i32, ctx: i32) -> Tuner {
    Tuner {
        show: false,
        page: 0,
        selected: 0,
        current_ngl: ngl,
        current_ctx: ctx,
        current_threads: initial_threads(cores),
        current_batch: 512,
        current_parallel: 1,
        flash_attn: false,
        mlock: false,
        no_mmap: false,
        cache_k_idx: 0,
        cache_v_idx: 0,
        rope_base: 10000,
        draft_max: 16,
        draft_min: 5,
        draft_model_idx: 0,
        threads_batch: initial_threads(cores),
        ubatch_size: 512,
        cont_batching: true,
        ctx_shift: false,
        metrics: false,
        api_key: false,
        top_k: 40,
    }
}

impl Tuner {
    fn initial(cores: usize, ngl: i32, ctx: i32) -> (t: Tuner)
        ensures
            t == initial_tuner(cores, ngl, ctx),
    {
        let threads = if cores > 1 {
            cores - 1
        } else {
            1
        };
        Tuner {
            show: false,
            page: 0,
            selected: 0,
            current_ngl: ngl,
            current_ctx: ctx,
            current_threads: threads,
            current_batch: 512,
            current_parallel: 1,
            flash_attn: false,
            mlock: false,
            no_mmap: false,
            cache_k_idx: 0,
            cache_v_idx: 0,
            rope_base: 10000,
            draft_max: 16,
            draft_min: 5,
            draft_model_idx: 0,
            threads_batch: threads,
            ubatch_size: 512,
            cont_batching: true,
            ctx_shift: false,
            metrics: false,
            api_key: false,
            top_k: 40,
        }
    }
}

impl App {
    /// The dashboard as it starts: nothing open, no telemetry yet, a ping
    /// payload for no model in the interrogator with the cursor at its end,
    /// the saved payload history
    /// with its cursor past the last entry, and an empty log pane with its
    /// first row highlighted.
    pub fn new(
        cpu_name: String,
        cpu_core_count: usize,
        gpu_name: String,
        has_nvidia: bool,
        host: String,
        port: u16,
        service_name: String,
        default_ngl: i32,
        default_ctx: i32,
        console_history: Vec<String>,
    ) -> (app: App)
        ensures
            app.wf(),
            app@.should_quit == false,
            app@.cpu_name == cpu_name@,
            app@.cpu_core_count == cpu_core_count,
            app@.gpu_name == gpu_name@,
            app@.has_nvidia == has_nvidia,
            app@.host == host@,
            app@.port == port,
            app@.service_name == service_name@,
            app@.telemetry == (TelemetryView {
                gpu_temp: 0,
                gpu_power: "0W"@,
                gpu_util: "0%"@,
                vram_util: "0%"@,
                gpu_fan: "0%"@,
                gpu_clocks: "0 MHz"@,
                sys_uptime: 0,
                cpu_history: Seq::new(CPU_HISTORY_LEN as nat, |i: int| 0u64),
            }),
            app@.gpu_procs == (PickerView { names: Seq::empty(), selected: None }),
            app@.sys_procs == (PickerView { names: Seq::empty(), selected: None }),
            !app@.show_gpu_inspector,
            !app@.show_sys_inspector,
            app@.tuner == initial_tuner(cpu_core_count, default_ngl, default_ctx),
            !app@.show_help,
            app@.console == (ConsoleView {
                focused: false,
                input: ping_payload("None"@),
                cursor: ping_payload("None"@).len() as usize,
                history: console_history@.map_values(|s: String| s@),
                history_index: console_history.len(),
                last_api_result: "Ready. Press 'i' to focus console, Enter to fire."@,
                last_ttft: 0,
            }),
            app@.models == (ModelDeckView {
                available: Seq::empty(),
                active: "None"@,
                selected: None,
            }),
            app@.bottom_tab_mode == 0,
            app@.port_status == "Port "@ + digits(port as nat) + ": SCANNING..."@,
            app@.log == (LogPaneView {
                logs: Seq::empty(),
                selected: Some(0),
                auto_scroll: true,
                is_searching: false,
                search_query: Seq::empty(),
            }),
    {
        let mut port_status = "Port ".to_string();
        let digits_s = nat_to_string(port as u128);
        push_str(&mut port_status, digits_s.as_str());
        push_str(&mut port_status, ": SCANNING...");
        let mut cpu_history: Vec<u64> = Vec::new();
        let mut i: usize = 0;
        while i < CPU_HISTORY_LEN
            invariant
                i <= CPU_HISTORY_LEN,
                cpu_history@ == Seq::new(i as nat, |j: int| 0u64),
            decreases CPU_HISTORY_LEN - i,
        {
            cpu_history.push(0);
            i = i + 1;
            assert(cpu_history@ =~= Seq::new(i as nat, |j: int| 0u64));
        }
        let history_index = console_history.len();
        let mut input = "{\"model\": \"".to_string();
        push_str(&mut input, "None");
        push_str(&mut input, "\", \"messages\": [{\"role\": \"user\", \"content\": \"ping\"}]}");
        proof {
            reveal_strlit("{\"model\": \"");
            reveal_strlit("None");
            reveal_strlit("\", \"messages\": [{\"role\": \"user\", \"content\": \"ping\"}]}");
        }
        assert(input@.len() == 68);
        let app = App {
            should_quit: false,
            cpu_name,
            cpu_core_count,
            gpu_name,
            has_nvidia,
            host,
            port,
            service_name,
            telemetry: Telemetry {
                gpu_temp: 0,
                gpu_power: "0W".to_string(),
                gpu_util: "0%".to_string(),
                vram_util: "0%".to_string(),
                gpu_fan: "0%".to_string(),
                gpu_clocks: "0 MHz".to_string(),
                sys_uptime: 0,
                cpu_history,
            },
            gpu_procs: Picker { names: Vec::new(), selected: None },
            sys_procs: Picker { names: Vec::new(), selected: None },
            show_gpu_inspector: false,
            show_sys_inspector: false,
            tuner: Tuner::initial(cpu_core_count, default_ngl, default_ctx),
            show_help: false,
            console: Console {
                focused: false,
                input,
                cursor: 68,
                history: console_history,
                history_index,
                last_api_result: "Ready. Press 'i' to focus console, Enter to fire.".to_string(),
                last_ttft: 0,
            },
            models: ModelDeck { available: Vec::new(), active: "None".to_string(), selected: None },
            bottom_tab_mode: 0,
            port_status,
            log: LogPane {
                logs: VecDeque::new(),
                selected: Some(0),
                auto_scroll: true,
                is_searching: false,
                search_query: String::new(),
            },
        };
        assert(app@.gpu_procs.names =~= Seq::empty());
        assert(app@.sys_procs.names =~= Seq::empty());
        assert(app@.models.available =~= Seq::empty());
        assert(app@.log.logs =~= Seq::empty());
        app
    }

    /// Pushes a new log line, dropping the oldest when the pane holds
    /// `LOG_CAPACITY` lines; with auto-scroll on, the new line is highlighted.
    pub fn add_log(&mut self, log: String)
        requires
            old(self).wf(),
        ensures
            final(self).wf(),
            final(self)@ == (AppView { log: add_log_spec(old(self)@.log, log@), ..old(self)@ }),
    {
        let ghost lv = log@;
        let ghost before = self.log@.logs;
        if self.log.logs.len() == LOG_CAPACITY {
            let _ = self.log.logs.pop_front();
        }
        self.log.logs.push_back(log);
        if self.log.auto_scroll {
            self.log.selected = Some(self.log.logs.len() - 1);
        }
        proof {
            let kept = if before.len() == LOG_CAPACITY {
                before.drop_first()
            } else {
                before
            };
            assert(self.log@.logs =~= kept.push(lv));
        }
    }

    /// Moves the log highlight one line up and turns auto-scroll off.
    pub fn scroll_logs_up(&mut self)
        ensures
            final(self)@ == (AppView { log: scroll_up_spec(old(self)@.log), ..old(self)@ }),
    {
        self.log.auto_scroll = false;
        let i = match self.log.selected {
            Some(i) => if i > 0 {
                i - 1
            } else {
                0
            },
            None => 0,
        };
        self.log.selected = Some(i);
    }

    /// Moves the log highlight one line down; at the last line the
    /// highlight stays there and auto-scroll comes back on.
    pub fn scroll_logs_down(&mut self)
        ensures
            final(self)@ == (AppView { log: scroll_down_spec(old(self)@.log), ..old(self)@ }),
    {
        let n = self.log.logs.len();
        let last = if n > 0 {
            n - 1
        } else {
            0
        };
        let i = match self.log.selected {
            Some(i) => {
                if i >= last {
                    self.log.auto_scroll = true;
                    last
                } else {
                    i + 1
                }
            },
            None => 0,
        };
        self.log.selected = Some(i);
    }
}

} // verus!

verus! {

// ───────────────────────── laws ─────────────────────────

/// The log pane never holds more than `LOG_CAPACITY` lines; a new line is
/// the last one, and the lines before it are the old ones in order, less the
/// oldest when the pane was full.
pub proof fn law_log_keeps_newest(p: LogPaneView, line: Seq<char>)
    requires
        p.logs.len() <= LOG_CAPACITY,
    ensures
        add_log_spec(p, line).logs.len() <= LOG_CAPACITY,
        add_log_spec(p, line).logs.last() == line,
        add_log_spec(p, line).logs.drop_last() == (if p.logs.len() == LOG_CAPACITY {
            p.logs.drop_first()
        } else {
            p.logs
        }),
        p.auto_scroll ==> add_log_spec(p, line).selected == Some(
            (add_log_spec(p, line).logs.len() - 1) as usize,
        ),
{
    let kept = if p.logs.len() == LOG_CAPACITY {
        p.logs.drop_first()
    } else {
        p.logs
    };
    assert(kept.push(line).drop_last() =~= kept);
}

/// Scrolling the logs one line up and then one line down comes back to the
/// line that was highlighted, unless that was the first or the last line.
pub proof fn law_scroll_up_then_down(p: LogPaneView, i: usize)
    requires
        p.selected == Some(i),
        0 < i,
        i + 1 < p.logs.len(),
    ensures
        scroll_down_spec(scroll_up_spec(p)).selected == p.selected,
{
}

/// Scrolling down from the last line keeps it highlighted and turns
/// auto-scroll back on.
pub proof fn law_scroll_down_at_bottom(p: LogPaneView)
    requires
        p.selected matches Some(i) && i + 1 >= p.logs.len(),
    ensures
        scroll_down_spec(p).auto_scroll,
        scroll_down_spec(p).selected == Some(last_index(p.logs.len())),
{
}

/// The tuner starts hidden on its first row with the configured GPU layers
/// and context size, one CPU thread fewer than the cores (at least one)
/// for both thread settings, batch and micro-batch of 512, one parallel
/// slot, f16 caches, a RoPE base of 10000, a draft window of 5 to 16,
/// continuous batching on, and every other switch off.
pub proof fn law_tuner_starts_from_the_configuration(cores: usize, ngl: i32, ctx: i32)
    ensures
        ({
            let t = initial_tuner(cores, ngl, ctx);
            &&& !t.show && t.page == 0 && t.selected == 0
            &&& t.current_ngl == ngl && t.current_ctx == ctx
            &&& cores >= 2 ==> t.current_threads == cores - 1 && t.threads_batch == cores - 1
            &&& cores < 2 ==> t.current_threads == 1 && t.threads_batch == 1
            &&& t.current_batch == 512 && t.ubatch_size == 512 && t.current_parallel == 1
            &&& t.cache_k_idx == 0 && t.cache_v_idx == 0
            &&& t.rope_base == 10000 && t.draft_min == 5 && t.draft_max == 16
            &&& t.draft_model_idx == 0
            &&& t.cont_batching
            &&& !t.flash_attn && !t.mlock && !t.no_mmap && !t.ctx_shift && !t.metrics && !t.api_key
        }),
{
}

} // verus!
