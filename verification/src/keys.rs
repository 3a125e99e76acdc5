//! What a key press does to the dashboard, and what the front end must then
//! do outside it (kill a process, call systemctl, write the preset file, fire
//! a request).
use vstd::prelude::*;
use crate::app::{
    add_log_spec, last_index, ping_payload, scroll_down_spec, scroll_up_spec, App, AppView,
    ConsoleView, LogPaneView, ModelDeckView, Picker, PickerView, Tuner, app_wf,
};
use crate::text::{
    chars_of, contains, digits, is_blank, nat_to_string, push_char, push_str, str_contains,
    string_of, trim,
};

verus! {

/// A key, as the terminal reports it.
#[derive(PartialEq, Eq, Structural, Clone, Copy)]
pub enum KeyCode {
    Char(char),
    Esc,
    Enter,
    Tab,
    Backspace,
    Delete,
    Up,
    Down,
    Left,
    Right,
    PageUp,
    PageDown,
    Other,
}

/// A key with the state of the Control modifier.
#[derive(PartialEq, Eq, Structural, Clone, Copy)]
pub struct KeyPress {
    pub code: KeyCode,
    pub ctrl: bool,
}

#[derive(PartialEq, Eq, Structural, Clone, Copy)]
pub enum ServiceVerb {
    Start,
    Stop,
    Restart,
}

/// Work a key hands to the front end.
pub enum Action {
    /// Nothing beyond the state change.
    Nothing,
    /// `killall -9` the named process.
    KillProcess(String),
    /// `sudo -n systemctl <verb> <service>`, fire and forget.
    Service(ServiceVerb, String),
    /// Stop the service and report whether that worked.
    KillSwitch(String),
    /// Write the crash dump file.
    CrashDump,
    /// Move the RoPE scale half a step up (`true`) or down.
    AdjustRopeScale(bool),
    /// Move the defragmentation threshold a tenth up (`true`) or down.
    AdjustDefrag(bool),
    /// Write the tuner's settings into this section of the preset file and
    /// restart the service.
    WriteTunerSection(String),
    /// Pin the GPU layers for this model and warm it up on the router.
    HotSwap(String),
    /// Send this payload to the router, with the API key when asked.
    FireRequest { payload: String, use_api_key: bool },
}

pub enum ActionView {
    Nothing,
    KillProcess(Seq<char>),
    Service(ServiceVerb, Seq<char>),
    KillSwitch(Seq<char>),
    CrashDump,
    AdjustRopeScale(bool),
    AdjustDefrag(bool),
    WriteTunerSection(Seq<char>),
    HotSwap(Seq<char>),
    FireRequest { payload: Seq<char>, use_api_key: bool },
}

impl View for Action {
    type V = ActionView;

    open spec fn view(&self) -> ActionView {
        match self {
            Action::Nothing => ActionView::Nothing,
            Action::KillProcess(n) => ActionView::KillProcess(n@),
            Action::Service(v, s) => ActionView::Service(*v, s@),
            Action::KillSwitch(s) => ActionView::KillSwitch(s@),
            Action::CrashDump => ActionView::CrashDump,
            Action::AdjustRopeScale(r) => ActionView::AdjustRopeScale(*r),
            Action::AdjustDefrag(r) => ActionView::AdjustDefrag(*r),
            Action::WriteTunerSection(s) => ActionView::WriteTunerSection(s@),
            Action::HotSwap(m) => ActionView::HotSwap(m@),
            Action::FireRequest { payload, use_api_key } => ActionView::FireRequest {
                payload: payload@,
                use_api_key: *use_api_key,
            },
        }
    }
}

// ───────────────────────── the model ─────────────────────────

pub open spec fn with_log(s: AppView, msg: Seq<char>) -> AppView {
    AppView { log: add_log_spec(s.log, msg), ..s }
}

/// Highlight one entry up, wrapping from the first to the last.
pub open spec fn wrap_up(sel: Option<usize>, n: nat) -> Option<usize> {
    Some(
        match sel {
            Some(i) => if i == 0 {
                last_index(n)
            } else {
                (i - 1) as usize
            },
            None => 0,
        },
    )
}

/// Highlight one entry down, wrapping from the last to the first.
pub open spec fn wrap_down(sel: Option<usize>, n: nat) -> Option<usize> {
    Some(
        match sel {
            Some(i) => if i + 1 >= n {
                0
            } else {
                (i + 1) as usize
            },
            None => 0,
        },
    )
}

/// Processes the sniper refuses to kill.
pub open spec fn protected_process(name: Seq<char>) -> bool {
    name == "saltnitor"@ || contains(name, "llama-server"@)
}

pub open spec fn picker_of(s: AppView, gpu: bool) -> PickerView {
    if gpu {
        s.gpu_procs
    } else {
        s.sys_procs
    }
}

pub open spec fn with_picker(s: AppView, gpu: bool, p: PickerView) -> AppView {
    if gpu {
        AppView { gpu_procs: p, ..s }
    } else {
        AppView { sys_procs: p, ..s }
    }
}

pub open spec fn close_inspector(s: AppView, gpu: bool) -> AppView {
    if gpu {
        AppView { show_gpu_inspector: false, ..s }
    } else {
        AppView { show_sys_inspector: false, ..s }
    }
}

/// A key in an open process inspector (the GPU one or the system one).
#[verifier::opaque]
pub open spec fn inspector_key(s: AppView, k: KeyPress, gpu: bool) -> (AppView, ActionView) {
    let p = picker_of(s, gpu);
    let own = if gpu {
        'g'
    } else {
        'c'
    };
    match k.code {
        KeyCode::Esc => (close_inspector(s, gpu), ActionView::Nothing),
        KeyCode::Char(c) if c == own || c == 'q' => (close_inspector(s, gpu), ActionView::Nothing),
        KeyCode::Up => (
            with_picker(s, gpu, PickerView { selected: wrap_up(p.selected, p.names.len()), ..p }),
            ActionView::Nothing,
        ),
        KeyCode::Down => (
            with_picker(
                s,
                gpu,
                PickerView { selected: wrap_down(p.selected, p.names.len()), ..p },
            ),
            ActionView::Nothing,
        ),
        KeyCode::Char('x') | KeyCode::Delete => match p.selected {
            Some(i) if i < p.names.len() => {
                let name = p.names[i as int];
                if protected_process(name) {
                    (with_log(s, ">>> PROCESS SNIPER: Access Denied."@), ActionView::Nothing)
                } else {
                    (
                        with_log(s, ">>> PROCESS SNIPER: Executing SIGKILL (-9) on "@ + name),
                        ActionView::KillProcess(name),
                    )
                }
            },
            _ => (s, ActionView::Nothing),
        },
        _ => (s, ActionView::Nothing),
    }
}

/// The last row of each tuner page.
pub open spec fn tuner_rows_max(page: usize) -> usize {
    if page == 0 {
        9
    } else if page == 1 {
        5
    } else if page == 2 {
        5
    } else {
        0
    }
}

/// A step right (`true`) or left on an integer row of the tuner: each row
/// moves within its bounds, and switch rows flip.
#[verifier::opaque]
pub open spec fn tuner_adjust(t: Tuner, cores: usize, n_models: nat, right: bool) -> Tuner {
    if t.page == 0 {
        tuner_adjust_page0(t, cores, n_models, right)
    } else if t.page == 1 {
        tuner_adjust_page1(t, cores, n_models, right)
    } else if t.page == 2 {
        tuner_adjust_page2(t, cores, n_models, right)
    } else {
        t
    }
}

pub open spec fn tuner_adjust_page0(t: Tuner, cores: usize, n_models: nat, right: bool) -> Tuner {
    let sel = t.selected;
    if sel == 0 {
        Tuner {
            current_ngl: if right && t.current_ngl < 99 {
                (t.current_ngl + 1) as i32
            } else if !right && t.current_ngl > 0 {
                (t.current_ngl - 1) as i32
            } else {
                t.current_ngl
            },
            ..t
        }
    } else if sel == 1 {
        Tuner {
            current_ctx: if right && t.current_ctx < 131072 {
                (t.current_ctx + 1024) as i32
            } else if !right && t.current_ctx > 1024 {
                (t.current_ctx - 1024) as i32
            } else {
                t.current_ctx
            },
            ..t
        }
    } else if sel == 2 {
        Tuner {
            current_threads: if right && t.current_threads < cores {
                (t.current_threads + 1) as usize
            } else if !right && t.current_threads > 1 {
                (t.current_threads - 1) as usize
            } else {
                t.current_threads
            },
            ..t
        }
    } else if sel == 3 {
        Tuner {
            current_batch: if right && t.current_batch < 8192 {
                (t.current_batch * 2) as i32
            } else if !right && t.current_batch > 128 {
                (t.current_batch / 2) as i32
            } else {
                t.current_batch
            },
            ..t
        }
    } else if sel == 4 {
        Tuner {
            current_parallel: if right && t.current_parallel < 16 {
                (t.current_parallel + 1) as i32
            } else if !right && t.current_parallel > 1 {
                (t.current_parallel - 1) as i32
            } else {
                t.current_parallel
            },
            ..t
        }
    } else if sel == 5 {
        Tuner { flash_attn: !t.flash_attn, ..t }
    } else if sel == 6 {
        Tuner { mlock: !t.mlock, ..t }
    } else if sel == 7 {
        Tuner { no_mmap: !t.no_mmap, ..t }
    } else if sel == 8 {
        Tuner {
            cache_k_idx: if right && t.cache_k_idx < 8 {
                (t.cache_k_idx + 1) as usize
            } else if !right && t.cache_k_idx > 0 {
                (t.cache_k_idx - 1) as usize
            } else {
                t.cache_k_idx
            },
            ..t
        }
    } else if sel == 9 {
        Tuner {
            cache_v_idx: if right && t.cache_v_idx < 8 {
                (t.cache_v_idx + 1) as usize
            } else if !right && t.cache_v_idx > 0 {
                (t.cache_v_idx - 1) as usize
            } else {
                t.cache_v_idx
            },
            ..t
        }
    } else {
        t
    }
}

pub open spec fn tuner_adjust_page1(t: Tuner, cores: usize, n_models: nat, right: bool) -> Tuner {
    let sel = t.selected;
    if sel == 0 {
        Tuner {
            rope_base: if right {
                (t.rope_base + 10000) as i32
            } else if t.rope_base > 10000 {
                (t.rope_base - 10000) as i32
            } else {
                t.rope_base
            },
            ..t
        }
    } else if sel == 3 {
        Tuner {
            draft_max: if right {
                (t.draft_max + 1) as i32
            } else if t.draft_max > 1 {
                (t.draft_max - 1) as i32
            } else {
                t.draft_max
            },
            ..t
        }
    } else if sel == 4 {
        Tuner {
            draft_min: if right {
                (t.draft_min + 1) as i32
            } else if t.draft_min > 1 {
                (t.draft_min - 1) as i32
            } else {
                t.draft_min
            },
            ..t
        }
    } else if sel == 5 {
        Tuner {
            draft_model_idx: if right && t.draft_model_idx < n_models {
                (t.draft_model_idx + 1) as usize
            } else if !right && t.draft_model_idx > 0 {
                (t.draft_model_idx - 1) as usize
            } else {
                t.draft_model_idx
            },
            ..t
        }
    } else {
        t
    }
}

pub open spec fn tuner_adjust_page2(t: Tuner, cores: usize, n_models: nat, right: bool) -> Tuner {
    let sel = t.selected;
    if sel == 0 {
        Tuner {
            threads_batch: if right && t.threads_batch < cores {
                (t.threads_batch + 1) as usize
            } else if !right && t.threads_batch > 1 {
                (t.threads_batch - 1) as usize
            } else {
                t.threads_batch
            },
            ..t
        }
    } else if sel == 1 {
        Tuner {
            ubatch_size: if right && t.ubatch_size < t.current_batch {
                (t.ubatch_size * 2) as i32
            } else if !right && t.ubatch_size > 32 {
                (t.ubatch_size / 2) as i32
            } else {
                t.ubatch_size
            },
            ..t
        }
    } else if sel == 2 {
        Tuner { cont_batching: !t.cont_batching, ..t }
    } else if sel == 3 {
        Tuner { ctx_shift: !t.ctx_shift, ..t }
    } else if sel == 4 {
        Tuner { metrics: !t.metrics, ..t }
    } else if sel == 5 {
        Tuner { api_key: !t.api_key, ..t }
    } else {
        t
    }
}

/// How many settings the tuner writes: fourteen, plus `mlock` and `no-mmap`
/// when they are on.
pub open spec fn tuner_key_count(t: Tuner) -> nat {
    14 + (if t.mlock {
        1nat
    } else {
        0nat
    }) + (if t.no_mmap {
        1nat
    } else {
        0nat
    })
}

/// Left or right in the tuner: the two floating-point rows of page 2 are
/// left to the front end; any other row moves as `tuner_adjust` says.
#[verifier::opaque]
pub open spec fn tuner_arrow(s: AppView, right: bool) -> (AppView, ActionView) {
    let t = s.tuner;
    if t.page == 1 && t.selected == 1 {
        (s, ActionView::AdjustRopeScale(right))
    } else if t.page == 1 && t.selected == 2 {
        (s, ActionView::AdjustDefrag(right))
    } else {
        (
            AppView {
                tuner: tuner_adjust(t, s.cpu_core_count, s.models.available.len(), right),
                ..s
            },
            ActionView::Nothing,
        )
    }
}

/// Enter in the tuner: with an active model, its section gets the settings.
#[verifier::opaque]
pub open spec fn tuner_enter(s: AppView) -> (AppView, ActionView) {
    let t = s.tuner;
    let section = s.models.active;
    if section.len() == 0 || section == "None"@ {
        (
            with_log(
                s,
                ">>> TUNER: no active model - select one in the Hot-Swap deck (Tab) before applying."@,
            ),
            ActionView::Nothing,
        )
    } else {
        let logged = with_log(
            s,
            ">>> TUNER: writing "@ + digits(tuner_key_count(t)) + " keys to ["@ + section
                + "] in router.ini..."@,
        );
        (
            AppView { tuner: Tuner { show: false, ..t }, ..logged },
            ActionView::WriteTunerSection(section),
        )
    }
}

/// A key in the open tuner.
pub open spec fn tuner_key(s: AppView, k: KeyPress) -> (AppView, ActionView) {
    let t = s.tuner;
    match k.code {
        KeyCode::Esc | KeyCode::Char('t') => (
            AppView { tuner: Tuner { show: false, ..t }, ..s },
            ActionView::Nothing,
        ),
        KeyCode::Tab => (
            AppView { tuner: Tuner { page: ((t.page + 1) % 3) as usize, selected: 0, ..t }, ..s },
            ActionView::Nothing,
        ),
        KeyCode::Up => (
            AppView {
                tuner: Tuner {
                    selected: if t.selected > 0 {
                        (t.selected - 1) as usize
                    } else {
                        0
                    },
                    ..t
                },
                ..s
            },
            ActionView::Nothing,
        ),
        KeyCode::Down => (
            AppView {
                tuner: Tuner {
                    selected: if t.selected < tuner_rows_max(t.page) {
                        (t.selected + 1) as usize
                    } else {
                        t.selected
                    },
                    ..t
                },
                ..s
            },
            ActionView::Nothing,
        ),
        KeyCode::Left | KeyCode::Right => tuner_arrow(s, k.code == KeyCode::Right),
        KeyCode::Enter => tuner_enter(s),
        _ => (s, ActionView::Nothing),
    }
}

pub open spec fn with_models(s: AppView, m: ModelDeckView) -> AppView {
    AppView { models: m, ..s }
}

pub open spec fn with_console(s: AppView, c: ConsoleView) -> AppView {
    AppView { console: c, ..s }
}

/// A key in the focused hot-swap deck.
#[verifier::opaque]
pub open spec fn hot_swap_key(s: AppView, k: KeyPress) -> (AppView, ActionView) {
    let m = s.models;
    match k.code {
        KeyCode::Esc => (
            with_console(s, ConsoleView { focused: false, ..s.console }),
            ActionView::Nothing,
        ),
        KeyCode::Up => (
            with_models(
                s,
                ModelDeckView { selected: wrap_up(m.selected, m.available.len()), ..m },
            ),
            ActionView::Nothing,
        ),
        KeyCode::Down => (
            with_models(
                s,
                ModelDeckView { selected: wrap_down(m.selected, m.available.len()), ..m },
            ),
            ActionView::Nothing,
        ),
        KeyCode::Enter => match m.selected {
            Some(i) if i < m.available.len() => {
                let chosen = m.available[i as int];
                let payload = ping_payload(chosen);
                let s1 = AppView {
                    console: ConsoleView {
                        focused: false,
                        input: payload,
                        cursor: payload.len() as usize,
                        ..s.console
                    },
                    models: ModelDeckView { active: chosen, ..m },
                    ..s
                };
                (
                    with_log(s1, ">>> HOT-SWAP: Requesting ["@ + chosen + "] from router..."@),
                    ActionView::HotSwap(chosen),
                )
            },
            _ => (s, ActionView::Nothing),
        },
        _ => (s, ActionView::Nothing),
    }
}

/// How many payloads the interrogator keeps in its history.
pub const HISTORY_CAPACITY: usize = 10;

/// The history after sending `input`: a non-blank payload that differs from
/// the last one is added, and the oldest goes beyond `HISTORY_CAPACITY`.
pub open spec fn record_history(h: Seq<Seq<char>>, input: Seq<char>) -> Seq<Seq<char>> {
    if trim(input).len() == 0 || (h.len() > 0 && h.last() == input) {
        h
    } else if h.len() + 1 > HISTORY_CAPACITY {
        h.push(input).drop_first()
    } else {
        h.push(input)
    }
}

/// A key in the focused interrogator (the payload editor).
#[verifier::opaque]
pub open spec fn interrogator_key(s: AppView, k: KeyPress) -> (AppView, ActionView) {
    let c = s.console;
    match k.code {
        KeyCode::Esc => (with_console(s, ConsoleView { focused: false, ..c }), ActionView::Nothing),
        KeyCode::Left => (
            with_console(
                s,
                ConsoleView {
                    cursor: if c.cursor > 0 {
                        (c.cursor - 1) as usize
                    } else {
                        c.cursor
                    },
                    ..c
                },
            ),
            ActionView::Nothing,
        ),
        KeyCode::Right => (
            with_console(
                s,
                ConsoleView {
                    cursor: if c.cursor < c.input.len() {
                        (c.cursor + 1) as usize
                    } else {
                        c.cursor
                    },
                    ..c
                },
            ),
            ActionView::Nothing,
        ),
        KeyCode::Up => if c.history.len() > 0 && c.history_index > 0 {
            let h = c.history[c.history_index - 1];
            (
                with_console(
                    s,
                    ConsoleView {
                        history_index: (c.history_index - 1) as usize,
                        input: h,
                        cursor: h.len() as usize,
                        ..c
                    },
                ),
                ActionView::Nothing,
            )
        } else {
            (s, ActionView::Nothing)
        },
        KeyCode::Down => if c.history_index < c.history.len() {
            let idx = c.history_index + 1;
            let input = if idx == c.history.len() {
                Seq::empty()
            } else {
                c.history[idx]
            };
            (
                with_console(
                    s,
                    ConsoleView {
                        history_index: idx as usize,
                        input: input,
                        cursor: input.len() as usize,
                        ..c
                    },
                ),
                ActionView::Nothing,
            )
        } else {
            (s, ActionView::Nothing)
        },
        KeyCode::Char(ch) => (
            with_console(
                s,
                ConsoleView {
                    input: c.input.insert(c.cursor as int, ch),
                    cursor: (c.cursor + 1) as usize,
                    ..c
                },
            ),
            ActionView::Nothing,
        ),
        KeyCode::Backspace => if c.cursor > 0 {
            (
                with_console(
                    s,
                    ConsoleView {
                        input: c.input.remove(c.cursor - 1),
                        cursor: (c.cursor - 1) as usize,
                        ..c
                    },
                ),
                ActionView::Nothing,
            )
        } else {
            (s, ActionView::Nothing)
        },
        KeyCode::Delete => if c.cursor < c.input.len() {
            (
                with_console(s, ConsoleView { input: c.input.remove(c.cursor as int), ..c }),
                ActionView::Nothing,
            )
        } else {
            (s, ActionView::Nothing)
        },
        KeyCode::Enter => {
            let h = record_history(c.history, c.input);
            let idx = if trim(c.input).len() == 0 {
                c.history_index
            } else {
                h.len() as usize
            };
            (
                with_console(
                    s,
                    ConsoleView {
                        history: h,
                        history_index: idx,
                        last_api_result: "Sending payload..."@,
                        last_ttft: 0,
                        ..c
                    },
                ),
                ActionView::FireRequest { payload: c.input, use_api_key: s.tuner.api_key },
            )
        },
        _ => (s, ActionView::Nothing),
    }
}

/// A key in the open help overlay.
pub open spec fn help_key(s: AppView, k: KeyPress) -> (AppView, ActionView) {
    match k.code {
        KeyCode::Esc | KeyCode::Char('h') | KeyCode::Char('q') => (
            AppView { show_help: false, ..s },
            ActionView::Nothing,
        ),
        _ => (s, ActionView::Nothing),
    }
}

pub open spec fn with_log_pane(s: AppView, p: LogPaneView) -> AppView {
    AppView { log: p, ..s }
}

/// A key while the log search box is being edited.
#[verifier::opaque]
pub open spec fn search_key(s: AppView, k: KeyPress) -> (AppView, ActionView) {
    let p = s.log;
    match k.code {
        KeyCode::Esc | KeyCode::Enter => (
            with_log_pane(s, LogPaneView { is_searching: false, ..p }),
            ActionView::Nothing,
        ),
        KeyCode::Backspace => (
            with_log_pane(
                s,
                LogPaneView {
                    search_query: if p.search_query.len() > 0 {
                        p.search_query.drop_last()
                    } else {
                        p.search_query
                    },
                    ..p
                },
            ),
            ActionView::Nothing,
        ),
        KeyCode::Char(ch) => (
            with_log_pane(s, LogPaneView { search_query: p.search_query.push(ch), ..p }),
            ActionView::Nothing,
        ),
        _ => (s, ActionView::Nothing),
    }
}

/// A dashboard key that only changes what is shown.
#[verifier::opaque]
pub open spec fn dashboard_view_key(s: AppView, k: KeyPress) -> (AppView, ActionView) {
    match k.code {
        KeyCode::Char('q') => (AppView { should_quit: true, ..s }, ActionView::Nothing),
        KeyCode::Char('t') => (
            AppView { tuner: Tuner { show: true, ..s.tuner }, ..s },
            ActionView::Nothing,
        ),
        KeyCode::Char('i') => (
            with_console(s, ConsoleView { focused: true, ..s.console }),
            ActionView::Nothing,
        ),
        KeyCode::Tab => (
            AppView { bottom_tab_mode: ((s.bottom_tab_mode + 1) % 2) as usize, ..s },
            ActionView::Nothing,
        ),
        KeyCode::Char('g') => (
            AppView { show_gpu_inspector: !s.show_gpu_inspector, show_sys_inspector: false, ..s },
            ActionView::Nothing,
        ),
        KeyCode::Char('c') => (
            AppView { show_sys_inspector: !s.show_sys_inspector, show_gpu_inspector: false, ..s },
            ActionView::Nothing,
        ),
        KeyCode::Char('/') => (
            with_log_pane(
                s,
                LogPaneView { is_searching: true, search_query: Seq::empty(), ..s.log },
            ),
            ActionView::Nothing,
        ),
        KeyCode::Char('h') => (AppView { show_help: true, ..s }, ActionView::Nothing),
        KeyCode::PageUp => (with_log_pane(s, scroll_up_spec(s.log)), ActionView::Nothing),
        KeyCode::PageDown => (with_log_pane(s, scroll_down_spec(s.log)), ActionView::Nothing),
        KeyCode::Esc => (
            AppView { show_gpu_inspector: false, show_sys_inspector: false, ..s },
            ActionView::Nothing,
        ),
        _ => (s, ActionView::Nothing),
    }
}

/// A dashboard key that drives the service or the crash dump.
#[verifier::opaque]
pub open spec fn dashboard_service_key(s: AppView, k: KeyPress) -> (AppView, ActionView) {
    let svc = s.service_name;
    match k.code {
        KeyCode::Char('S') => (
            with_log(s, ">>> SYSTEMCTL: Starting "@ + svc + "..."@),
            ActionView::Service(ServiceVerb::Start, svc),
        ),
        KeyCode::Char('X') => (
            with_log(s, ">>> SYSTEMCTL: Stopping "@ + svc + "..."@),
            ActionView::Service(ServiceVerb::Stop, svc),
        ),
        KeyCode::Char('R') => (
            with_log(s, ">>> SYSTEMCTL: Restarting "@ + svc + "..."@),
            ActionView::Service(ServiceVerb::Restart, svc),
        ),
        KeyCode::Char('k') if k.ctrl => (
            with_log(s, ">>> TACTICAL KILL-SWITCH: stopping unit (frees VRAM, stays down)..."@),
            ActionView::KillSwitch(svc),
        ),
        KeyCode::Char('d') if k.ctrl => (s, ActionView::CrashDump),
        _ => (s, ActionView::Nothing),
    }
}

/// A key on the dashboard with nothing open.
pub open spec fn dashboard_key(s: AppView, k: KeyPress) -> (AppView, ActionView) {
    match k.code {
        KeyCode::Char('S') | KeyCode::Char('X') | KeyCode::Char('R') => dashboard_service_key(s, k),
        KeyCode::Char('k') if k.ctrl => dashboard_service_key(s, k),
        KeyCode::Char('d') if k.ctrl => dashboard_service_key(s, k),
        _ => dashboard_view_key(s, k),
    }
}

/// What a key does: the open overlay or focused deck takes it, in this
/// order: GPU inspector, system inspector, tuner, focused deck (hot-swap or
/// interrogator), help, log search; otherwise the dashboard.
pub open spec fn key_step(s: AppView, k: KeyPress) -> (AppView, ActionView) {
    if s.show_gpu_inspector {
        inspector_key(s, k, true)
    } else if s.show_sys_inspector {
        inspector_key(s, k, false)
    } else if s.tuner.show {
        tuner_key(s, k)
    } else if s.console.focused {
        if s.bottom_tab_mode == 1 {
            hot_swap_key(s, k)
        } else {
            interrogator_key(s, k)
        }
    } else if s.show_help {
        help_key(s, k)
    } else if s.log.is_searching {
        search_key(s, k)
    } else {
        dashboard_key(s, k)
    }
}

/// Whether the dashboard itself takes keys: no inspector, tuner, focused
/// deck, help or search is open.
pub open spec fn nothing_open(s: AppView) -> bool {
    !s.show_gpu_inspector && !s.show_sys_inspector && !s.tuner.show && !s.console.focused
        && !s.show_help && !s.log.is_searching
}

/// On the bare dashboard the service keys drive the service by name and
/// announce it in the log: `S` starts it, `X` stops it, `R` restarts it,
/// Ctrl-K is the kill switch and Ctrl-D writes the crash dump; each leaves
/// everything but the log as it was.
pub proof fn law_service_keys(s: AppView, ctrl: bool)
    requires
        nothing_open(s),
    ensures
        key_step(s, KeyPress { code: KeyCode::Char('S'), ctrl }) == (
            with_log(s, ">>> SYSTEMCTL: Starting "@ + s.service_name + "..."@),
            ActionView::Service(ServiceVerb::Start, s.service_name),
        ),
        key_step(s, KeyPress { code: KeyCode::Char('X'), ctrl }) == (
            with_log(s, ">>> SYSTEMCTL: Stopping "@ + s.service_name + "..."@),
            ActionView::Service(ServiceVerb::Stop, s.service_name),
        ),
        key_step(s, KeyPress { code: KeyCode::Char('R'), ctrl }) == (
            with_log(s, ">>> SYSTEMCTL: Restarting "@ + s.service_name + "..."@),
            ActionView::Service(ServiceVerb::Restart, s.service_name),
        ),
        key_step(s, KeyPress { code: KeyCode::Char('k'), ctrl: true }).1 == ActionView::KillSwitch(
            s.service_name,
        ),
        key_step(s, KeyPress { code: KeyCode::Char('d'), ctrl: true }) == (s, ActionView::CrashDump),
{
    reveal(dashboard_service_key);
}

/// On the bare dashboard the view keys open what they name and change
/// nothing else: `q` quits, `t` opens the tuner, `i` focuses the deck, `h`
/// opens the help, `/` starts an empty log search, `g` and `c` toggle the
/// GPU and system inspectors (closing the other one), and Tab switches the
/// bottom deck between its two tabs.
pub proof fn law_view_keys(s: AppView)
    requires
        nothing_open(s),
    ensures
        key_step(s, KeyPress { code: KeyCode::Char('q'), ctrl: false }) == (
            AppView { should_quit: true, ..s },
            ActionView::Nothing,
        ),
        key_step(s, KeyPress { code: KeyCode::Char('t'), ctrl: false }) == (
            AppView { tuner: Tuner { show: true, ..s.tuner }, ..s },
            ActionView::Nothing,
        ),
        key_step(s, KeyPress { code: KeyCode::Char('i'), ctrl: false }) == (
            AppView { console: ConsoleView { focused: true, ..s.console }, ..s },
            ActionView::Nothing,
        ),
        key_step(s, KeyPress { code: KeyCode::Char('h'), ctrl: false }) == (
            AppView { show_help: true, ..s },
            ActionView::Nothing,
        ),
        key_step(s, KeyPress { code: KeyCode::Char('/'), ctrl: false }).0.log.is_searching,
        key_step(s, KeyPress { code: KeyCode::Char('/'), ctrl: false }).0.log.search_query.len()
            == 0,
        key_step(s, KeyPress { code: KeyCode::Char('g'), ctrl: false }).0 == (AppView {
            show_gpu_inspector: true,
            show_sys_inspector: false,
            ..s
        }),
        key_step(s, KeyPress { code: KeyCode::Char('c'), ctrl: false }).0 == (AppView {
            show_sys_inspector: true,
            show_gpu_inspector: false,
            ..s
        }),
        s.bottom_tab_mode <= 1 ==> key_step(s, KeyPress { code: KeyCode::Tab, ctrl: false }).0
            == (AppView { bottom_tab_mode: (1 - s.bottom_tab_mode) as usize, ..s }),
{
    reveal(dashboard_view_key);
}

/// In the open tuner (with no inspector open): Esc and `t` close it, Tab
/// goes to the next of the three pages at its first row, Up and Down move
/// between the page's rows and stop at its first and last, and Left or
/// Right steps the highlighted setting as `tuner_adjust` says, except the
/// two scaling rows of the second page, which are handed to the front end.
pub proof fn law_tuner_keys(s: AppView, ctrl: bool)
    requires
        !s.show_gpu_inspector,
        !s.show_sys_inspector,
        s.tuner.show,
    ensures
        key_step(s, KeyPress { code: KeyCode::Esc, ctrl }).0.tuner == (Tuner {
            show: false,
            ..s.tuner
        }),
        key_step(s, KeyPress { code: KeyCode::Char('t'), ctrl }).0.tuner == (Tuner {
            show: false,
            ..s.tuner
        }),
        s.tuner.page < 3 ==> key_step(s, KeyPress { code: KeyCode::Tab, ctrl }).0.tuner == (Tuner {
            page: (if s.tuner.page == 2 {
                0
            } else {
                s.tuner.page + 1
            }) as usize,
            selected: 0,
            ..s.tuner
        }),
        s.tuner.selected > 0 ==> key_step(s, KeyPress { code: KeyCode::Up, ctrl }).0.tuner.selected
            == s.tuner.selected - 1,
        s.tuner.selected == 0 ==> key_step(s, KeyPress { code: KeyCode::Up, ctrl }).0.tuner
            == s.tuner,
        s.tuner.page == 0 && s.tuner.selected < 9 ==> key_step(
            s,
            KeyPress { code: KeyCode::Down, ctrl },
        ).0.tuner.selected == s.tuner.selected + 1,
        s.tuner.page == 0 && s.tuner.selected >= 9 ==> key_step(
            s,
            KeyPress { code: KeyCode::Down, ctrl },
        ).0.tuner == s.tuner,
        (s.tuner.page == 1 || s.tuner.page == 2) && s.tuner.selected >= 5 ==> key_step(
            s,
            KeyPress { code: KeyCode::Down, ctrl },
        ).0.tuner == s.tuner,
        !(s.tuner.page == 1 && (s.tuner.selected == 1 || s.tuner.selected == 2)) ==> key_step(
            s,
            KeyPress { code: KeyCode::Right, ctrl },
        ) == (
            AppView {
                tuner: tuner_adjust(s.tuner, s.cpu_core_count, s.models.available.len(), true),
                ..s
            },
            ActionView::Nothing,
        ),
        !(s.tuner.page == 1 && (s.tuner.selected == 1 || s.tuner.selected == 2)) ==> key_step(
            s,
            KeyPress { code: KeyCode::Left, ctrl },
        ) == (
            AppView {
                tuner: tuner_adjust(s.tuner, s.cpu_core_count, s.models.available.len(), false),
                ..s
            },
            ActionView::Nothing,
        ),
        s.tuner.page == 1 && s.tuner.selected == 1 ==> key_step(
            s,
            KeyPress { code: KeyCode::Right, ctrl },
        ) == (s, ActionView::AdjustRopeScale(true)),
        s.tuner.page == 1 && s.tuner.selected == 2 ==> key_step(
            s,
            KeyPress { code: KeyCode::Left, ctrl },
        ) == (s, ActionView::AdjustDefrag(false)),
{
    reveal(tuner_arrow);
}

/// Moving a highlight wraps around its list and one step back undoes one
/// step: from entry `i` of `n`, up then down, or down then up, is `i`
/// again, and every step lands on an entry.
pub proof fn law_highlight_steps_undo(i: usize, n: nat)
    requires
        i < n <= usize::MAX,
    ensures
        wrap_down(wrap_up(Some(i), n), n) == Some(i),
        wrap_up(wrap_down(Some(i), n), n) == Some(i),
        wrap_up(Some(i), n)->0 < n,
        wrap_down(Some(i), n)->0 < n,
        i == 0 ==> wrap_up(Some(i), n) == Some((n - 1) as usize),
        i + 1 == n ==> wrap_down(Some(i), n) == Some(0usize),
{
}

/// Enter in the hot-swap deck asks the router for the highlighted model:
/// it becomes the active model, the interrogator's payload pings it with
/// the cursor at its end, the deck loses focus, and the request is logged.
pub proof fn law_hot_swap_requests_the_highlighted_model(s: AppView, ctrl: bool, i: usize)
    requires
        !s.show_gpu_inspector,
        !s.show_sys_inspector,
        !s.tuner.show,
        s.console.focused,
        s.bottom_tab_mode == 1,
        s.models.selected == Some(i),
        i < s.models.available.len(),
    ensures
        ({
            let (r, a) = key_step(s, KeyPress { code: KeyCode::Enter, ctrl });
            let chosen = s.models.available[i as int];
            &&& a == ActionView::HotSwap(chosen)
            &&& r.models.active == chosen
            &&& r.models.available == s.models.available
            &&& r.console.input == ping_payload(chosen)
            &&& r.console.cursor == ping_payload(chosen).len() as usize
            &&& !r.console.focused
            &&& r.log.logs.len() > 0
            &&& r.log.logs.last() == ">>> HOT-SWAP: Requesting ["@ + chosen + "] from router..."@
        }),
{
    reveal(hot_swap_key);
}

/// Enter in the interrogator fires the payload as typed, with the API key
/// when the tuner's switch for it is on; the payload stays in the editor,
/// a payload that is not blank becomes the newest history entry with the
/// history cursor past it, and the reply pane says the payload is on its
/// way.
pub proof fn law_interrogator_fires_the_payload(s: AppView, ctrl: bool)
    requires
        !s.show_gpu_inspector,
        !s.show_sys_inspector,
        !s.tuner.show,
        s.console.focused,
        s.bottom_tab_mode != 1,
        s.console.history.len() < usize::MAX,
    ensures
        ({
            let (r, a) = key_step(s, KeyPress { code: KeyCode::Enter, ctrl });
            &&& a == (ActionView::FireRequest {
                payload: s.console.input,
                use_api_key: s.tuner.api_key,
            })
            &&& r.console.input == s.console.input
            &&& r.console.last_api_result == "Sending payload..."@
            &&& trim(s.console.input).len() > 0 ==> r.console.history.len() > 0
                && r.console.history.last() == s.console.input && r.console.history_index
                == r.console.history.len()
            &&& trim(s.console.input).len() == 0 ==> r.console.history == s.console.history
        }),
{
    reveal(interrogator_key);
    let h = record_history(s.console.history, s.console.input);
    if trim(s.console.input).len() > 0 {
        if !(s.console.history.len() > 0 && s.console.history.last() == s.console.input) {
            if s.console.history.len() + 1 > HISTORY_CAPACITY {
                assert(h.last() == s.console.history.push(s.console.input).last());
            }
        }
    }
}

/// The keys that the dashboard takes without leaving its integer types: a
/// step up on the RoPE base or on a draft bound at the top of `i32` is not.
pub open spec fn key_is_safe(s: AppView, k: KeyPress) -> bool {
    let t = s.tuner;
    if s.show_gpu_inspector || s.show_sys_inspector {
        true
    } else if t.show {
        !(k.code == KeyCode::Right && t.page == 1 && ((t.selected == 0 && t.rope_base
            > i32::MAX - 10000) || (t.selected == 3 && t.draft_max == i32::MAX) || (t.selected == 4
            && t.draft_min == i32::MAX)))
    } else {
        true
    }
}

} // verus!

verus! {

// ───────────────────────── executable ─────────────────────────

/// `a` followed by `b` and `c`.
pub fn concat3(a: &str, b: &str, c: &str) -> (s: String)
    ensures
        s@ == a@ + b@ + c@,
{
    let mut s = a.to_string();
    push_str(&mut s, b);
    push_str(&mut s, c);
    s
}

/// The number of characters of a string.
pub fn char_count(s: &String) -> (n: usize)
    ensures
        n == s@.len(),
{
    chars_of(s.as_str()).len()
}

/// The interrogator's ping payload for a model.
pub fn make_ping_payload(model: &str) -> (s: String)
    ensures
        s@ == ping_payload(model@),
{
    concat3(
        "{\"model\": \"",
        model,
        "\", \"messages\": [{\"role\": \"user\", \"content\": \"ping\"}]}",
    )
}

fn picker_up(p: &mut Picker)
    ensures
        final(p)@ == (PickerView { selected: wrap_up(old(p)@.selected, old(p)@.names.len()), ..old(p)@ }),
{
    let n = p.names.len();
    let i = match p.selected {
        Some(i) => if i == 0 {
            if n > 0 {
                n - 1
            } else {
                0
            }
        } else {
            i - 1
        },
        None => 0,
    };
    p.selected = Some(i);
}

fn picker_down(p: &mut Picker)
    ensures
        final(p)@ == (PickerView { selected: wrap_down(old(p)@.selected, old(p)@.names.len()), ..old(p)@ }),
{
    let n = p.names.len();
    let last = if n > 0 {
        n - 1
    } else {
        0
    };
    let i = match p.selected {
        Some(i) => if i >= last {
            0
        } else {
            i + 1
        },
        None => 0,
    };
    p.selected = Some(i);
}

/// Whether the sniper refuses to kill this process.
pub fn is_protected_process(name: &String) -> (b: bool)
    ensures
        b == protected_process(name@),
{
    *name == "saltnitor".to_string() || str_contains(name.as_str(), "llama-server")
}

pub open spec fn adjust_overflows(t: Tuner, right: bool) -> bool {
    right && t.page == 1 && ((t.selected == 0 && t.rope_base > i32::MAX - 10000) || (t.selected
        == 3 && t.draft_max == i32::MAX) || (t.selected == 4 && t.draft_min == i32::MAX))
}

impl Tuner {
    fn adjust_page0(&mut self, cores: usize, n_models: usize, right: bool)
        requires
            crate::app::tuner_wf(*old(self)),
            old(self).page == 0,
            !adjust_overflows(*old(self), right),
        ensures
            *final(self) == tuner_adjust_page0(*old(self), cores, n_models as nat, right),
            crate::app::tuner_wf(*final(self)),
    {
        let sel = self.selected;
        if sel == 0 {
            if right && self.current_ngl < 99 {
                self.current_ngl = self.current_ngl + 1;
            } else if !right && self.current_ngl > 0 {
                self.current_ngl = self.current_ngl - 1;
            }
        } else if sel == 1 {
            if right && self.current_ctx < 131072 {
                self.current_ctx = self.current_ctx + 1024;
            } else if !right && self.current_ctx > 1024 {
                self.current_ctx = self.current_ctx - 1024;
            }
        } else if sel == 2 {
            if right && self.current_threads < cores {
                self.current_threads = self.current_threads + 1;
            } else if !right && self.current_threads > 1 {
                self.current_threads = self.current_threads - 1;
            }
        } else if sel == 3 {
            if right && self.current_batch < 8192 {
                self.current_batch = self.current_batch * 2;
            } else if !right && self.current_batch > 128 {
                self.current_batch = self.current_batch / 2;
            }
        } else if sel == 4 {
            if right && self.current_parallel < 16 {
                self.current_parallel = self.current_parallel + 1;
            } else if !right && self.current_parallel > 1 {
                self.current_parallel = self.current_parallel - 1;
            }
        } else if sel == 5 {
            self.flash_attn = !self.flash_attn;
        } else if sel == 6 {
            self.mlock = !self.mlock;
        } else if sel == 7 {
            self.no_mmap = !self.no_mmap;
        } else if sel == 8 {
            if right && self.cache_k_idx < 8 {
                self.cache_k_idx = self.cache_k_idx + 1;
            } else if !right && self.cache_k_idx > 0 {
                self.cache_k_idx = self.cache_k_idx - 1;
            }
        } else if sel == 9 {
            if right && self.cache_v_idx < 8 {
                self.cache_v_idx = self.cache_v_idx + 1;
            } else if !right && self.cache_v_idx > 0 {
                self.cache_v_idx = self.cache_v_idx - 1;
            }
        }
    }

    fn adjust_page1(&mut self, cores: usize, n_models: usize, right: bool)
        requires
            crate::app::tuner_wf(*old(self)),
            old(self).page == 1,
            !adjust_overflows(*old(self), right),
        ensures
            *final(self) == tuner_adjust_page1(*old(self), cores, n_models as nat, right),
            crate::app::tuner_wf(*final(self)),
    {
        let sel = self.selected;
        if sel == 0 {
            if right {
                self.rope_base = self.rope_base + 10000;
            } else if self.rope_base > 10000 {
                self.rope_base = self.rope_base - 10000;
            }
        } else if sel == 3 {
            if right {
                self.draft_max = self.draft_max + 1;
            } else if self.draft_max > 1 {
                self.draft_max = self.draft_max - 1;
            }
        } else if sel == 4 {
            if right {
                self.draft_min = self.draft_min + 1;
            } else if self.draft_min > 1 {
                self.draft_min = self.draft_min - 1;
            }
        } else if sel == 5 {
            if right && self.draft_model_idx < n_models {
                self.draft_model_idx = self.draft_model_idx + 1;
            } else if !right && self.draft_model_idx > 0 {
                self.draft_model_idx = self.draft_model_idx - 1;
            }
        }
    }

    fn adjust_page2(&mut self, cores: usize, n_models: usize, right: bool)
        requires
            crate::app::tuner_wf(*old(self)),
            old(self).page == 2,
            !adjust_overflows(*old(self), right),
        ensures
            *final(self) == tuner_adjust_page2(*old(self), cores, n_models as nat, right),
            crate::app::tuner_wf(*final(self)),
    {
        let sel = self.selected;
        if sel == 0 {
            if right && self.threads_batch < cores {
                self.threads_batch = self.threads_batch + 1;
            } else if !right && self.threads_batch > 1 {
                self.threads_batch = self.threads_batch - 1;
            }
        } else if sel == 1 {
            if right && self.ubatch_size < self.current_batch {
                self.ubatch_size = self.ubatch_size * 2;
            } else if !right && self.ubatch_size > 32 {
                self.ubatch_size = self.ubatch_size / 2;
            }
        } else if sel == 2 {
            self.cont_batching = !self.cont_batching;
        } else if sel == 3 {
            self.ctx_shift = !self.ctx_shift;
        } else if sel == 4 {
            self.metrics = !self.metrics;
        } else if sel == 5 {
            self.api_key = !self.api_key;
        }
    }

    /// A step right or left on the highlighted integer or switch row.
    pub fn adjust(&mut self, cores: usize, n_models: usize, right: bool)
        requires
            crate::app::tuner_wf(*old(self)),
            !adjust_overflows(*old(self), right),
        ensures
            *final(self) == tuner_adjust(*old(self), cores, n_models as nat, right),
            crate::app::tuner_wf(*final(self)),
    {
        reveal(tuner_adjust);
        if self.page == 0 {
            self.adjust_page0(cores, n_models, right);
        } else if self.page == 1 {
            self.adjust_page1(cores, n_models, right);
        } else if self.page == 2 {
            self.adjust_page2(cores, n_models, right);
        }
    }
}

impl App {
    fn inspector_key_exec(&mut self, k: KeyPress, gpu: bool) -> (a: Action)
        requires
            app_wf(old(self)@),
        ensures
            app_wf(final(self)@),
            (final(self)@, a@) == inspector_key(old(self)@, k, gpu),
    {
        reveal(inspector_key);
        let own = if gpu {
            'g'
        } else {
            'c'
        };
        match k.code {
            KeyCode::Esc => {
                if gpu {
                    self.show_gpu_inspector = false;
                } else {
                    self.show_sys_inspector = false;
                }
                Action::Nothing
            },
            KeyCode::Char(c) if c == own || c == 'q' => {
                if gpu {
                    self.show_gpu_inspector = false;
                } else {
                    self.show_sys_inspector = false;
                }
                Action::Nothing
            },
            KeyCode::Up => {
                if gpu {
                    picker_up(&mut self.gpu_procs);
                } else {
                    picker_up(&mut self.sys_procs);
                }
                Action::Nothing
            },
            KeyCode::Down => {
                if gpu {
                    picker_down(&mut self.gpu_procs);
                } else {
                    picker_down(&mut self.sys_procs);
                }
                Action::Nothing
            },
            KeyCode::Char('x') | KeyCode::Delete => {
                let target = {
                    let p = if gpu {
                        &self.gpu_procs
                    } else {
                        &self.sys_procs
                    };
                    match p.selected {
                        Some(i) => if i < p.names.len() {
                            Some(p.names[i].clone())
                        } else {
                            None
                        },
                        None => None,
                    }
                };
                match target {
                    Some(name) => {
                        if is_protected_process(&name) {
                            self.add_log(">>> PROCESS SNIPER: Access Denied.".to_string());
                            Action::Nothing
                        } else {
                            let mut msg = ">>> PROCESS SNIPER: Executing SIGKILL (-9) on ".to_string();
                            push_str(&mut msg, name.as_str());
                            self.add_log(msg);
                            Action::KillProcess(name)
                        }
                    },
                    None => Action::Nothing,
                }
            },
            _ => Action::Nothing,
        }
    }

    fn tuner_arrow_exec(&mut self, right: bool) -> (a: Action)
        requires
            app_wf(old(self)@),
            !adjust_overflows(old(self)@.tuner, right),
        ensures
            app_wf(final(self)@),
            (final(self)@, a@) == tuner_arrow(old(self)@, right),
    {
        reveal(tuner_arrow);
        if self.tuner.page == 1 && self.tuner.selected == 1 {
            Action::AdjustRopeScale(right)
        } else if self.tuner.page == 1 && self.tuner.selected == 2 {
            Action::AdjustDefrag(right)
        } else {
            let cores = self.cpu_core_count;
            let n_models = self.models.available.len();
            self.tuner.adjust(cores, n_models, right);
            Action::Nothing
        }
    }

    #[verifier::rlimit(60)]
    fn tuner_enter_exec(&mut self) -> (a: Action)
        requires
            app_wf(old(self)@),
        ensures
            app_wf(final(self)@),
            (final(self)@, a@) == tuner_enter(old(self)@),
    {
        reveal(tuner_enter);
        let ghost s0 = self@;
        let section = self.models.active.clone();
        if char_count(&section) == 0 || section == "None".to_string() {
            self.add_log(
                ">>> TUNER: no active model - select one in the Hot-Swap deck (Tab) before applying.".to_string(),
            );
            Action::Nothing
        } else {
            let n: u128 = 14 + (if self.tuner.mlock {
                1u128
            } else {
                0u128
            }) + (if self.tuner.no_mmap {
                1u128
            } else {
                0u128
            });
            assert(n == tuner_key_count(s0.tuner));
            let count = nat_to_string(n);
            let mut msg = concat3(">>> TUNER: writing ", count.as_str(), " keys to [");
            push_str(&mut msg, section.as_str());
            push_str(&mut msg, "] in router.ini...");
            assert(msg@ == ">>> TUNER: writing "@ + digits(tuner_key_count(s0.tuner))
                + " keys to ["@ + s0.models.active + "] in router.ini..."@);
            self.add_log(msg);
            let ghost logged = self@;
            self.tuner.show = false;
            assert(self@ == (AppView { tuner: Tuner { show: false, ..s0.tuner }, ..logged }));
            Action::WriteTunerSection(section)
        }
    }

    #[verifier::rlimit(60)]
    fn tuner_key_exec(&mut self, k: KeyPress) -> (a: Action)
        requires
            app_wf(old(self)@),
            key_is_safe(old(self)@, k),
            old(self)@.tuner.show,
            !old(self)@.show_gpu_inspector,
            !old(self)@.show_sys_inspector,
        ensures
            app_wf(final(self)@),
            (final(self)@, a@) == tuner_key(old(self)@, k),
    {
        let c = k.code;
        if c == KeyCode::Esc || c == KeyCode::Char('t') {
            self.tuner.show = false;
            Action::Nothing
        } else if c == KeyCode::Tab {
            self.tuner.page = (self.tuner.page + 1) % 3;
            self.tuner.selected = 0;
            Action::Nothing
        } else if c == KeyCode::Up {
            if self.tuner.selected > 0 {
                self.tuner.selected = self.tuner.selected - 1;
            }
            Action::Nothing
        } else if c == KeyCode::Down {
            let max_idx: usize = if self.tuner.page == 0 {
                9
            } else if self.tuner.page == 1 {
                5
            } else if self.tuner.page == 2 {
                5
            } else {
                0
            };
            if self.tuner.selected < max_idx {
                self.tuner.selected = self.tuner.selected + 1;
            }
            Action::Nothing
        } else if c == KeyCode::Left || c == KeyCode::Right {
            self.tuner_arrow_exec(c == KeyCode::Right)
        } else if c == KeyCode::Enter {
            self.tuner_enter_exec()
        } else {
            Action::Nothing
        }
    }

    fn hot_swap_key_exec(&mut self, k: KeyPress) -> (a: Action)
        requires
            app_wf(old(self)@),
        ensures
            app_wf(final(self)@),
            (final(self)@, a@) == hot_swap_key(old(self)@, k),
    {
        reveal(hot_swap_key);
        match k.code {
            KeyCode::Esc => {
                self.console.focused = false;
                Action::Nothing
            },
            KeyCode::Up => {
                let n = self.models.available.len();
                let i = match self.models.selected {
                    Some(i) => if i == 0 {
                        if n > 0 {
                            n - 1
                        } else {
                            0
                        }
                    } else {
                        i - 1
                    },
                    None => 0,
                };
                self.models.selected = Some(i);
                Action::Nothing
            },
            KeyCode::Down => {
                let n = self.models.available.len();
                let last = if n > 0 {
                    n - 1
                } else {
                    0
                };
                let i = match self.models.selected {
                    Some(i) => if i >= last {
                        0
                    } else {
                        i + 1
                    },
                    None => 0,
                };
                self.models.selected = Some(i);
                Action::Nothing
            },
            KeyCode::Enter => {
                match self.models.selected {
                    Some(i) => {
                        if i < self.models.available.len() {
                            let chosen = self.models.available[i].clone();
                            self.console.focused = false;
                            self.models.active = chosen.clone();
                            let payload = make_ping_payload(chosen.as_str());
                            self.console.cursor = char_count(&payload);
                            self.console.input = payload;
                            let msg = concat3(
                                ">>> HOT-SWAP: Requesting [",
                                chosen.as_str(),
                                "] from router...",
                            );
                            self.add_log(msg);
                            Action::HotSwap(chosen)
                        } else {
                            Action::Nothing
                        }
                    },
                    None => Action::Nothing,
                }
            },
            _ => Action::Nothing,
        }
    }

    fn interrogator_key_exec(&mut self, k: KeyPress) -> (a: Action)
        requires
            app_wf(old(self)@),
            old(self)@.console.focused,
            old(self)@.bottom_tab_mode != 1,
            !old(self)@.show_gpu_inspector,
            !old(self)@.show_sys_inspector,
            !old(self)@.tuner.show,
        ensures
            app_wf(final(self)@),
            (final(self)@, a@) == interrogator_key(old(self)@, k),
    {
        reveal(interrogator_key);
        let ghost c0 = self@.console;
        match k.code {
            KeyCode::Esc => {
                self.console.focused = false;
                Action::Nothing
            },
            KeyCode::Left => {
                if self.console.cursor > 0 {
                    self.console.cursor = self.console.cursor - 1;
                }
                Action::Nothing
            },
            KeyCode::Right => {
                if self.console.cursor < char_count(&self.console.input) {
                    self.console.cursor = self.console.cursor + 1;
                }
                Action::Nothing
            },
            KeyCode::Up => {
                if self.console.history.len() > 0 && self.console.history_index > 0 {
                    self.console.history_index = self.console.history_index - 1;
                    let h = self.console.history[self.console.history_index].clone();
                    self.console.cursor = char_count(&h);
                    self.console.input = h;
                }
                Action::Nothing
            },
            KeyCode::Down => {
                if self.console.history_index < self.console.history.len() {
                    self.console.history_index = self.console.history_index + 1;
                    if self.console.history_index == self.console.history.len() {
                        self.console.input = String::new();
                    } else {
                        self.console.input = self.console.history[self.console.history_index].clone();
                    }
                    self.console.cursor = char_count(&self.console.input);
                }
                Action::Nothing
            },
            KeyCode::Char(ch) => {
                let mut chars = chars_of(self.console.input.as_str());
                let ghost n0 = chars@.len();
                chars.insert(self.console.cursor, ch);
                let n1 = chars.len();
                assert(n1 == n0 + 1);
                self.console.input = string_of(&chars);
                self.console.cursor = self.console.cursor + 1;
                Action::Nothing
            },
            KeyCode::Backspace => {
                if self.console.cursor > 0 {
                    let mut chars = chars_of(self.console.input.as_str());
                    let _ = chars.remove(self.console.cursor - 1);
                    self.console.input = string_of(&chars);
                    self.console.cursor = self.console.cursor - 1;
                }
                Action::Nothing
            },
            KeyCode::Delete => {
                let mut chars = chars_of(self.console.input.as_str());
                if self.console.cursor < chars.len() {
                    let _ = chars.remove(self.console.cursor);
                    self.console.input = string_of(&chars);
                }
                Action::Nothing
            },
            KeyCode::Enter => {
                let chars = chars_of(self.console.input.as_str());
                if !is_blank(&chars) {
                    let n = self.console.history.len();
                    if n == 0 || self.console.history[n - 1] != self.console.input {
                        let ghost h0 = self@.console.history;
                        self.console.history.push(self.console.input.clone());
                        assert(self@.console.history =~= h0.push(c0.input));
                        if self.console.history.len() > 10 {
                            let _ = self.console.history.remove(0);
                            assert(self@.console.history =~= h0.push(c0.input).drop_first());
                        }
                    }
                    self.console.history_index = self.console.history.len();
                }
                self.console.last_api_result = "Sending payload...".to_string();
                self.console.last_ttft = 0;
                Action::FireRequest {
                    payload: self.console.input.clone(),
                    use_api_key: self.tuner.api_key,
                }
            },
            _ => Action::Nothing,
        }
    }

    fn search_key_exec(&mut self, k: KeyPress) -> (a: Action)
        requires
            app_wf(old(self)@),
        ensures
            app_wf(final(self)@),
            (final(self)@, a@) == search_key(old(self)@, k),
    {
        reveal(search_key);
        match k.code {
            KeyCode::Esc | KeyCode::Enter => {
                self.log.is_searching = false;
                Action::Nothing
            },
            KeyCode::Backspace => {
                let mut chars = chars_of(self.log.search_query.as_str());
                if chars.len() > 0 {
                    let _ = chars.pop();
                    self.log.search_query = string_of(&chars);
                }
                Action::Nothing
            },
            KeyCode::Char(ch) => {
                push_char(&mut self.log.search_query, ch);
                Action::Nothing
            },
            _ => Action::Nothing,
        }
    }

    fn dashboard_service_key_exec(&mut self, k: KeyPress) -> (a: Action)
        requires
            app_wf(old(self)@),
        ensures
            app_wf(final(self)@),
            (final(self)@, a@) == dashboard_service_key(old(self)@, k),
    {
        reveal(dashboard_service_key);
        let svc = self.service_name.clone();
        if k.code == KeyCode::Char('S') {
            self.add_log(concat3(">>> SYSTEMCTL: Starting ", svc.as_str(), "..."));
            Action::Service(ServiceVerb::Start, svc)
        } else if k.code == KeyCode::Char('X') {
            self.add_log(concat3(">>> SYSTEMCTL: Stopping ", svc.as_str(), "..."));
            Action::Service(ServiceVerb::Stop, svc)
        } else if k.code == KeyCode::Char('R') {
            self.add_log(concat3(">>> SYSTEMCTL: Restarting ", svc.as_str(), "..."));
            Action::Service(ServiceVerb::Restart, svc)
        } else if k.code == KeyCode::Char('k') && k.ctrl {
            self.add_log(
                ">>> TACTICAL KILL-SWITCH: stopping unit (frees VRAM, stays down)...".to_string(),
            );
            Action::KillSwitch(svc)
        } else if k.code == KeyCode::Char('d') && k.ctrl {
            Action::CrashDump
        } else {
            Action::Nothing
        }
    }

    fn dashboard_key_exec(&mut self, k: KeyPress) -> (a: Action)
        requires
            app_wf(old(self)@),
        ensures
            app_wf(final(self)@),
            (final(self)@, a@) == dashboard_key(old(self)@, k),
    {
        reveal(dashboard_view_key);
        let c = k.code;
        if c == KeyCode::Char('S') || c == KeyCode::Char('X') || c == KeyCode::Char('R') || (k.ctrl
            && (c == KeyCode::Char('k') || c == KeyCode::Char('d'))) {
            self.dashboard_service_key_exec(k)
        } else if c == KeyCode::Char('q') {
            self.should_quit = true;
            Action::Nothing
        } else if c == KeyCode::Char('t') {
            self.tuner.show = true;
            Action::Nothing
        } else if c == KeyCode::Char('i') {
            self.console.focused = true;
            Action::Nothing
        } else if c == KeyCode::Tab {
            self.bottom_tab_mode = (self.bottom_tab_mode + 1) % 2;
            Action::Nothing
        } else if c == KeyCode::Char('g') {
            self.show_gpu_inspector = !self.show_gpu_inspector;
            self.show_sys_inspector = false;
            Action::Nothing
        } else if c == KeyCode::Char('c') {
            self.show_sys_inspector = !self.show_sys_inspector;
            self.show_gpu_inspector = false;
            Action::Nothing
        } else if c == KeyCode::Char('/') {
            self.log.is_searching = true;
            self.log.search_query = String::new();
            Action::Nothing
        } else if c == KeyCode::Char('h') {
            self.show_help = true;
            Action::Nothing
        } else if c == KeyCode::PageUp {
            self.scroll_logs_up();
            Action::Nothing
        } else if c == KeyCode::PageDown {
            self.scroll_logs_down();
            Action::Nothing
        } else if c == KeyCode::Esc {
            self.show_gpu_inspector = false;
            self.show_sys_inspector = false;
            Action::Nothing
        } else {
            Action::Nothing
        }
    }

    /// Whether a key can be handled (see `key_is_safe`).
    pub fn accepts_key(&self, k: KeyPress) -> (b: bool)
        ensures
            b == key_is_safe(self@, k),
    {
        let t = &self.tuner;
        if self.show_gpu_inspector || self.show_sys_inspector {
            true
        } else if t.show {
            !(k.code == KeyCode::Right && t.page == 1 && ((t.selected == 0 && t.rope_base
                > i32::MAX - 10000) || (t.selected == 3 && t.draft_max == i32::MAX) || (t.selected
                == 4 && t.draft_min == i32::MAX)))
        } else {
            true
        }
    }

    /// Handles a key press: the state changes as `key_step` says, and the
    /// returned action is the work left to the front end.
    pub fn handle_key(&mut self, k: KeyPress) -> (a: Action)
        requires
            old(self).wf(),
            key_is_safe(old(self)@, k),
        ensures
            final(self).wf(),
            (final(self)@, a@) == key_step(old(self)@, k),
    {
        if self.show_gpu_inspector {
            self.inspector_key_exec(k, true)
        } else if self.show_sys_inspector {
            self.inspector_key_exec(k, false)
        } else if self.tuner.show {
            self.tuner_key_exec(k)
        } else if self.console.focused {
            if self.bottom_tab_mode == 1 {
                self.hot_swap_key_exec(k)
            } else {
                self.interrogator_key_exec(k)
            }
        } else if self.show_help {
            match k.code {
                KeyCode::Esc | KeyCode::Char('h') | KeyCode::Char('q') => {
                    self.show_help = false;
                },
                _ => {},
            }
            Action::Nothing
        } else if self.log.is_searching {
            self.search_key_exec(k)
        } else {
            self.dashboard_key_exec(k)
        }
    }
}

} // verus!

verus! {

// ───────────────────────── laws ─────────────────────────

/// The process sniper never kills the dashboard itself or the inference
/// server: no key yields a kill for a protected name.
pub proof fn law_sniper_spares_protected(s: AppView, k: KeyPress)
    ensures
        key_step(s, k).1 matches ActionView::KillProcess(name) ==> !protected_process(name),
{
    reveal(inspector_key);
    reveal(tuner_arrow);
    reveal(tuner_enter);
    reveal(hot_swap_key);
    reveal(interrogator_key);
    reveal(search_key);
    reveal(dashboard_view_key);
    reveal(dashboard_service_key);
}

/// In the interrogator, typing a character and then Backspace gives back the
/// payload and the cursor as they were, and the whole state with them.
pub proof fn law_type_then_backspace(s: AppView, c: char)
    requires
        s.console.focused,
        s.bottom_tab_mode != 1,
        !s.show_gpu_inspector,
        !s.show_sys_inspector,
        !s.tuner.show,
        s.console.cursor <= s.console.input.len(),
        s.console.cursor < usize::MAX,
    ensures
        key_step(key_step(s, KeyPress { code: KeyCode::Char(c), ctrl: false }).0, KeyPress {
            code: KeyCode::Backspace,
            ctrl: false,
        }).0 == s,
{
    reveal(interrogator_key);
    let s1 = key_step(s, KeyPress { code: KeyCode::Char(c), ctrl: false }).0;
    assert(s1.console.input.remove(s.console.cursor as int) =~= s.console.input);
    let s2 = key_step(s1, KeyPress { code: KeyCode::Backspace, ctrl: false }).0;
    assert(s2.console =~= s.console);
    assert(s2 =~= s);
}

/// Sending a payload keeps at most `HISTORY_CAPACITY` payloads in the
/// history when it held no more before, and a non-blank payload is then the
/// last entry.
pub proof fn law_history_bounded(h: Seq<Seq<char>>, input: Seq<char>)
    requires
        h.len() <= HISTORY_CAPACITY,
    ensures
        record_history(h, input).len() <= HISTORY_CAPACITY,
        trim(input).len() > 0 ==> record_history(h, input).last() == input,
{
}

/// Every tuner row with bounds stays within them: GPU layers in 0..=99,
/// parallel slots in 1..=16, cache types within the nine known types.
pub open spec fn tuner_in_range(t: Tuner) -> bool {
    &&& 0 <= t.current_ngl <= 99
    &&& 1 <= t.current_parallel <= 16
    &&& t.cache_k_idx <= 8
    &&& t.cache_v_idx <= 8
}

pub proof fn law_tuner_stays_in_range(t: Tuner, cores: usize, n_models: nat, right: bool)
    requires
        tuner_in_range(t),
    ensures
        tuner_in_range(tuner_adjust(t, cores, n_models, right)),
{
    reveal(tuner_adjust);
}

/// Each row of the first tuner page steps its own setting and nothing
/// else: GPU layers by one within 0..=99, the context size by 1024 tokens
/// up to 131072 and down to 1024, the CPU threads by one within
/// 1..=cores, the batch size doubling below 8192 and halving above 128,
/// the parallel slots by one within 1..=16, the three switches flip, and
/// the K and V cache types move by one within the nine known types.
pub proof fn law_tuner_first_page_steps(t: Tuner, cores: usize, n_models: nat, right: bool)
    ensures
        t.page == 0 && t.selected == 0 && t.current_ngl < 99 ==> tuner_adjust(t, cores, n_models, true)
            == (Tuner { current_ngl: (t.current_ngl + 1) as i32, ..t }),
        t.page == 0 && t.selected == 0 && !(t.current_ngl < 99) ==> tuner_adjust(t, cores, n_models, true) == t,
        t.page == 0 && t.selected == 0 && t.current_ngl > 0 ==> tuner_adjust(t, cores, n_models, false)
            == (Tuner { current_ngl: (t.current_ngl - 1) as i32, ..t }),
        t.page == 0 && t.selected == 0 && !(t.current_ngl > 0) ==> tuner_adjust(t, cores, n_models, false) == t,
        t.page == 0 && t.selected == 1 && t.current_ctx < 131072 ==> tuner_adjust(t, cores, n_models, true)
            == (Tuner { current_ctx: (t.current_ctx + 1024) as i32, ..t }),
        t.page == 0 && t.selected == 1 && !(t.current_ctx < 131072) ==> tuner_adjust(t, cores, n_models, true) == t,
        t.page == 0 && t.selected == 1 && t.current_ctx > 1024 ==> tuner_adjust(t, cores, n_models, false)
            == (Tuner { current_ctx: (t.current_ctx - 1024) as i32, ..t }),
        t.page == 0 && t.selected == 1 && !(t.current_ctx > 1024) ==> tuner_adjust(t, cores, n_models, false) == t,
        t.page == 0 && t.selected == 2 && t.current_threads < cores ==> tuner_adjust(t, cores, n_models, true)
            == (Tuner { current_threads: (t.current_threads + 1) as usize, ..t }),
        t.page == 0 && t.selected == 2 && !(t.current_threads < cores) ==> tuner_adjust(t, cores, n_models, true) == t,
        t.page == 0 && t.selected == 2 && t.current_threads > 1 ==> tuner_adjust(t, cores, n_models, false)
            == (Tuner { current_threads: (t.current_threads - 1) as usize, ..t }),
        t.page == 0 && t.selected == 2 && !(t.current_threads > 1) ==> tuner_adjust(t, cores, n_models, false) == t,
        t.page == 0 && t.selected == 3 && t.current_batch < 8192 ==> tuner_adjust(t, cores, n_models, true)
            == (Tuner { current_batch: (t.current_batch * 2) as i32, ..t }),
        t.page == 0 && t.selected == 3 && !(t.current_batch < 8192) ==> tuner_adjust(t, cores, n_models, true) == t,
        t.page == 0 && t.selected == 3 && t.current_batch > 128 ==> tuner_adjust(t, cores, n_models, false)
            == (Tuner { current_batch: (t.current_batch / 2) as i32, ..t }),
        t.page == 0 && t.selected == 3 && !(t.current_batch > 128) ==> tuner_adjust(t, cores, n_models, false) == t,
        t.page == 0 && t.selected == 4 && t.current_parallel < 16 ==> tuner_adjust(t, cores, n_models, true)
            == (Tuner { current_parallel: (t.current_parallel + 1) as i32, ..t }),
        t.page == 0 && t.selected == 4 && !(t.current_parallel < 16) ==> tuner_adjust(t, cores, n_models, true) == t,
        t.page == 0 && t.selected == 4 && t.current_parallel > 1 ==> tuner_adjust(t, cores, n_models, false)
            == (Tuner { current_parallel: (t.current_parallel - 1) as i32, ..t }),
        t.page == 0 && t.selected == 4 && !(t.current_parallel > 1) ==> tuner_adjust(t, cores, n_models, false) == t,
        t.page == 0 && t.selected == 5 ==> tuner_adjust(t, cores, n_models, right)
            == (Tuner { flash_attn: !t.flash_attn, ..t }),
        t.page == 0 && t.selected == 6 ==> tuner_adjust(t, cores, n_models, right)
            == (Tuner { mlock: !t.mlock, ..t }),
        t.page == 0 && t.selected == 7 ==> tuner_adjust(t, cores, n_models, right)
            == (Tuner { no_mmap: !t.no_mmap, ..t }),
        t.page == 0 && t.selected == 8 && t.cache_k_idx < 8 ==> tuner_adjust(t, cores, n_models, true)
            == (Tuner { cache_k_idx: (t.cache_k_idx + 1) as usize, ..t }),
        t.page == 0 && t.selected == 8 && !(t.cache_k_idx < 8) ==> tuner_adjust(t, cores, n_models, true) == t,
        t.page == 0 && t.selected == 8 && t.cache_k_idx > 0 ==> tuner_adjust(t, cores, n_models, false)
            == (Tuner { cache_k_idx: (t.cache_k_idx - 1) as usize, ..t }),
        t.page == 0 && t.selected == 8 && !(t.cache_k_idx > 0) ==> tuner_adjust(t, cores, n_models, false) == t,
        t.page == 0 && t.selected == 9 && t.cache_v_idx < 8 ==> tuner_adjust(t, cores, n_models, true)
            == (Tuner { cache_v_idx: (t.cache_v_idx + 1) as usize, ..t }),
        t.page == 0 && t.selected == 9 && !(t.cache_v_idx < 8) ==> tuner_adjust(t, cores, n_models, true) == t,
        t.page == 0 && t.selected == 9 && t.cache_v_idx > 0 ==> tuner_adjust(t, cores, n_models, false)
            == (Tuner { cache_v_idx: (t.cache_v_idx - 1) as usize, ..t }),
        t.page == 0 && t.selected == 9 && !(t.cache_v_idx > 0) ==> tuner_adjust(t, cores, n_models, false) == t,
        t.page == 0 && t.selected > 9 ==> tuner_adjust(t, cores, n_models, right) == t,
{
    reveal(tuner_adjust);
}

/// Each integer row of the second tuner page steps its own setting and
/// nothing else: the RoPE base by 10000 (not below 10000 on the way down),
/// the draft window bounds by one (not below 1), and the draft model
/// through the known models; the two scaling rows are not stepped here.
pub proof fn law_tuner_second_page_steps(t: Tuner, cores: usize, n_models: nat, right: bool)
    ensures
        t.page == 1 && t.selected == 0 ==> tuner_adjust(t, cores, n_models, true)
            == (Tuner { rope_base: (t.rope_base + 10000) as i32, ..t }),
        t.page == 1 && t.selected == 0 && t.rope_base > 10000 ==> tuner_adjust(t, cores, n_models, false)
            == (Tuner { rope_base: (t.rope_base - 10000) as i32, ..t }),
        t.page == 1 && t.selected == 0 && t.rope_base <= 10000 ==> tuner_adjust(t, cores, n_models, false) == t,
        t.page == 1 && t.selected == 3 ==> tuner_adjust(t, cores, n_models, true)
            == (Tuner { draft_max: (t.draft_max + 1) as i32, ..t }),
        t.page == 1 && t.selected == 3 && t.draft_max > 1 ==> tuner_adjust(t, cores, n_models, false)
            == (Tuner { draft_max: (t.draft_max - 1) as i32, ..t }),
        t.page == 1 && t.selected == 3 && t.draft_max <= 1 ==> tuner_adjust(t, cores, n_models, false) == t,
        t.page == 1 && t.selected == 4 ==> tuner_adjust(t, cores, n_models, true)
            == (Tuner { draft_min: (t.draft_min + 1) as i32, ..t }),
        t.page == 1 && t.selected == 4 && t.draft_min > 1 ==> tuner_adjust(t, cores, n_models, false)
            == (Tuner { draft_min: (t.draft_min - 1) as i32, ..t }),
        t.page == 1 && t.selected == 4 && t.draft_min <= 1 ==> tuner_adjust(t, cores, n_models, false) == t,
        t.page == 1 && t.selected == 5 && t.draft_model_idx < n_models ==> tuner_adjust(t, cores, n_models, true)
            == (Tuner { draft_model_idx: (t.draft_model_idx + 1) as usize, ..t }),
        t.page == 1 && t.selected == 5 && !(t.draft_model_idx < n_models) ==> tuner_adjust(t, cores, n_models, true) == t,
        t.page == 1 && t.selected == 5 && t.draft_model_idx > 0 ==> tuner_adjust(t, cores, n_models, false)
            == (Tuner { draft_model_idx: (t.draft_model_idx - 1) as usize, ..t }),
        t.page == 1 && t.selected == 5 && !(t.draft_model_idx > 0) ==> tuner_adjust(t, cores, n_models, false) == t,
        t.page == 1 && (t.selected == 1 || t.selected == 2 || t.selected > 5)
            ==> tuner_adjust(t, cores, n_models, right) == t,
{
    reveal(tuner_adjust);
}

/// Each row of the third tuner page steps its own setting and nothing
/// else: the batch threads by one within 1..=cores, the micro-batch
/// doubling while below the batch size and halving above 32, and the four
/// switches flip.
pub proof fn law_tuner_third_page_steps(t: Tuner, cores: usize, n_models: nat, right: bool)
    ensures
        t.page == 2 && t.selected == 0 && t.threads_batch < cores ==> tuner_adjust(t, cores, n_models, true)
            == (Tuner { threads_batch: (t.threads_batch + 1) as usize, ..t }),
        t.page == 2 && t.selected == 0 && !(t.threads_batch < cores) ==> tuner_adjust(t, cores, n_models, true) == t,
        t.page == 2 && t.selected == 0 && t.threads_batch > 1 ==> tuner_adjust(t, cores, n_models, false)
            == (Tuner { threads_batch: (t.threads_batch - 1) as usize, ..t }),
        t.page == 2 && t.selected == 0 && !(t.threads_batch > 1) ==> tuner_adjust(t, cores, n_models, false) == t,
        t.page == 2 && t.selected == 1 && t.ubatch_size < t.current_batch ==> tuner_adjust(t, cores, n_models, true)
            == (Tuner { ubatch_size: (t.ubatch_size * 2) as i32, ..t }),
        t.page == 2 && t.selected == 1 && !(t.ubatch_size < t.current_batch) ==> tuner_adjust(t, cores, n_models, true) == t,
        t.page == 2 && t.selected == 1 && t.ubatch_size > 32 ==> tuner_adjust(t, cores, n_models, false)
            == (Tuner { ubatch_size: (t.ubatch_size / 2) as i32, ..t }),
        t.page == 2 && t.selected == 1 && !(t.ubatch_size > 32) ==> tuner_adjust(t, cores, n_models, false) == t,
        t.page == 2 && t.selected == 2 ==> tuner_adjust(t, cores, n_models, right)
            == (Tuner { cont_batching: !t.cont_batching, ..t }),
        t.page == 2 && t.selected == 3 ==> tuner_adjust(t, cores, n_models, right)
            == (Tuner { ctx_shift: !t.ctx_shift, ..t }),
        t.page == 2 && t.selected == 4 ==> tuner_adjust(t, cores, n_models, right)
            == (Tuner { metrics: !t.metrics, ..t }),
        t.page == 2 && t.selected == 5 ==> tuner_adjust(t, cores, n_models, right)
            == (Tuner { api_key: !t.api_key, ..t }),
        t.page == 2 && t.selected > 5 ==> tuner_adjust(t, cores, n_models, right) == t,
        t.page > 2 ==> tuner_adjust(t, cores, n_models, right) == t,
{
    reveal(tuner_adjust);
}

/// On the first page, a step right then a step left gives back the setting
/// wherever the right step moved it and the left step may move it back:
/// GPU layers below 99, a context size of 1 to 131071 tokens, CPU threads
/// of 1 up to below the core count, 1 to 15 parallel slots, and cache
/// types below the last one.
pub proof fn law_tuner_right_then_left(t: Tuner, cores: usize, n_models: nat)
    requires
        t.page == 0,
        t.selected == 0 ==> 0 <= t.current_ngl < 99,
        t.selected == 1 ==> 0 < t.current_ctx < 131072,
        t.selected == 2 ==> 1 <= t.current_threads < cores,
        t.selected == 4 ==> 1 <= t.current_parallel < 16,
        t.selected == 8 ==> t.cache_k_idx < 8,
        t.selected == 9 ==> t.cache_v_idx < 8,
        t.selected == 3 ==> 64 < t.current_batch < 8192,
    ensures
        tuner_adjust(tuner_adjust(t, cores, n_models, true), cores, n_models, false) == t,
{
    reveal(tuner_adjust);
}

} // verus!
