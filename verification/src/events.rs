//! The events that the background tasks send to the dashboard (keys aside),
//! and what each does to its state.
use vstd::prelude::*;
use crate::app::{
    ping_payload, App, AppView, ConsoleView, ModelDeckView, PickerView, TelemetryView, app_wf,
    CPU_HISTORY_LEN,
};
use crate::keys::{char_count, concat3, make_ping_payload, with_log};
use crate::text::{chars_of, digits, nat_to_string, push_str, string_of};

verus! {

/// One hardware poll, without its floating-point quantities.
pub struct HardwareSample {
    pub cpu_load: u64,
    pub gpu_temp: i32,
    pub gpu_power: String,
    pub gpu_process_names: Vec<String>,
    pub sys_process_names: Vec<String>,
    pub gpu_util: String,
    pub vram_util: String,
    pub gpu_fan: String,
    pub gpu_clocks: String,
    pub sys_uptime: u64,
}

pub struct HardwareSampleView {
    pub cpu_load: u64,
    pub gpu_temp: i32,
    pub gpu_power: Seq<char>,
    pub gpu_process_names: Seq<Seq<char>>,
    pub sys_process_names: Seq<Seq<char>>,
    pub gpu_util: Seq<char>,
    pub vram_util: Seq<char>,
    pub gpu_fan: Seq<char>,
    pub gpu_clocks: Seq<char>,
    pub sys_uptime: u64,
}

impl View for HardwareSample {
    type V = HardwareSampleView;

    open spec fn view(&self) -> HardwareSampleView {
        HardwareSampleView {
            cpu_load: self.cpu_load,
            gpu_temp: self.gpu_temp,
            gpu_power: self.gpu_power@,
            gpu_process_names: self.gpu_process_names@.map_values(|s: String| s@),
            sys_process_names: self.sys_process_names@.map_values(|s: String| s@),
            gpu_util: self.gpu_util@,
            vram_util: self.vram_util@,
            gpu_fan: self.gpu_fan@,
            gpu_clocks: self.gpu_clocks@,
            sys_uptime: self.sys_uptime,
        }
    }
}

/// A state change sent to the dashboard by a background task.
pub enum Event {
    HardwareUpdate(HardwareSample),
    /// A new line from the service's journal (or from a finished task).
    LogLine(String),
    /// A scheduled refresh.
    Tick,
    /// The first byte of a streamed reply arrived after this many ms.
    ApiStreamStart { ttft_ms: u128 },
    /// A token of a streamed reply.
    ApiStreamChunk(String),
    /// The streamed reply ended with this HTTP status; `gen_rate` is the
    /// generation rate already written with one decimal.
    ApiStreamEnd { status: String, gen_rate: String },
    /// The model ids the router lists.
    ModelsFetched(Vec<String>),
    /// The port auditor's verdict.
    PortAudit(String),
    /// The control API made this model resident.
    ActiveModelSet(String),
}

pub enum EventView {
    HardwareUpdate(HardwareSampleView),
    LogLine(Seq<char>),
    Tick,
    ApiStreamStart { ttft_ms: u128 },
    ApiStreamChunk(Seq<char>),
    ApiStreamEnd { status: Seq<char>, gen_rate: Seq<char> },
    ModelsFetched(Seq<Seq<char>>),
    PortAudit(Seq<char>),
    ActiveModelSet(Seq<char>),
}

impl View for Event {
    type V = EventView;

    open spec fn view(&self) -> EventView {
        match self {
            Event::HardwareUpdate(h) => EventView::HardwareUpdate(h@),
            Event::LogLine(l) => EventView::LogLine(l@),
            Event::Tick => EventView::Tick,
            Event::ApiStreamStart { ttft_ms } => EventView::ApiStreamStart { ttft_ms: *ttft_ms },
            Event::ApiStreamChunk(t) => EventView::ApiStreamChunk(t@),
            Event::ApiStreamEnd { status, gen_rate } => EventView::ApiStreamEnd {
                status: status@,
                gen_rate: gen_rate@,
            },
            Event::ModelsFetched(m) => EventView::ModelsFetched(m@.map_values(|s: String| s@)),
            Event::PortAudit(p) => EventView::PortAudit(p@),
            Event::ActiveModelSet(m) => EventView::ActiveModelSet(m@),
        }
    }
}

// ───────────────────────── the model ─────────────────────────

/// A list highlight after the list changed to `n` entries: past the end it
/// moves to the last entry, it is cleared when the list is empty, and an
/// unset highlight goes to the first entry when there is one.
pub open spec fn clamp_selection(sel: Option<usize>, n: nat) -> Option<usize> {
    match sel {
        Some(i) => if i >= n && n > 0 {
            Some((n - 1) as usize)
        } else if n == 0 {
            None
        } else {
            Some(i)
        },
        None => if n > 0 {
            Some(0)
        } else {
            None
        },
    }
}

/// The sparkline samples after a new one: the oldest goes once the history
/// is full.
pub open spec fn push_sample(h: Seq<u64>, x: u64) -> Seq<u64> {
    if h.len() >= CPU_HISTORY_LEN {
        h.drop_first().push(x)
    } else {
        h.push(x)
    }
}

pub open spec fn hardware_update(s: AppView, h: HardwareSampleView) -> AppView {
    AppView {
        telemetry: TelemetryView {
            gpu_temp: h.gpu_temp,
            gpu_power: h.gpu_power,
            gpu_util: h.gpu_util,
            vram_util: h.vram_util,
            gpu_fan: h.gpu_fan,
            gpu_clocks: h.gpu_clocks,
            sys_uptime: h.sys_uptime,
            cpu_history: push_sample(s.telemetry.cpu_history, h.cpu_load),
        },
        gpu_procs: PickerView {
            names: h.gpu_process_names,
            selected: clamp_selection(s.gpu_procs.selected, h.gpu_process_names.len()),
        },
        sys_procs: PickerView {
            names: h.sys_process_names,
            selected: clamp_selection(s.sys_procs.selected, h.sys_process_names.len()),
        },
        ..s
    }
}

/// The router's model list arrived: it replaces the deck's list; with no
/// active model yet, the first one becomes active and the interrogator's
/// payload pings it; the deck's highlight is clamped to the new list.
pub open spec fn models_fetched(s: AppView, models: Seq<Seq<char>>) -> AppView {
    let adopt = s.models.active == "None"@ && models.len() > 0;
    let active = if adopt {
        models[0]
    } else {
        s.models.active
    };
    let console = if adopt {
        ConsoleView {
            input: ping_payload(models[0]),
            cursor: ping_payload(models[0]).len() as usize,
            ..s.console
        }
    } else {
        s.console
    };
    AppView {
        models: ModelDeckView {
            available: models,
            active: active,
            selected: clamp_selection(s.models.selected, models.len()),
        },
        console: console,
        ..s
    }
}

/// The reply shown in the log, cut to its first 30 characters.
pub open spec fn reply_excerpt(r: Seq<char>) -> Seq<char> {
    if r.len() > 30 {
        r.take(30)
    } else {
        r
    }
}

pub open spec fn event_step(s: AppView, e: EventView) -> AppView {
    match e {
        EventView::HardwareUpdate(h) => hardware_update(s, h),
        EventView::LogLine(l) => with_log(s, l),
        EventView::Tick => s,
        EventView::ApiStreamStart { ttft_ms } => AppView {
            console: ConsoleView { last_ttft: ttft_ms, last_api_result: Seq::empty(), ..s.console },
            ..s
        },
        EventView::ApiStreamChunk(t) => AppView {
            console: ConsoleView { last_api_result: s.console.last_api_result + t, ..s.console },
            ..s
        },
        EventView::ApiStreamEnd { status, gen_rate } => with_log(
            s,
            "API Strike: "@ + digits(s.console.last_ttft as nat) + "ms | Gen: "@ + gen_rate
                + " t/s | ["@ + status + "] "@ + reply_excerpt(s.console.last_api_result),
        ),
        EventView::ModelsFetched(m) => models_fetched(s, m),
        EventView::PortAudit(p) => AppView { port_status: p, ..s },
        EventView::ActiveModelSet(m) => with_log(
            AppView { models: ModelDeckView { active: m, ..s.models }, ..s },
            ">>> EXTERNAL: resident model is now "@ + m,
        ),
    }
}

// ───────────────────────── executable ─────────────────────────

fn clamp(sel: Option<usize>, n: usize) -> (r: Option<usize>)
    ensures
        r == clamp_selection(sel, n as nat),
{
    match sel {
        Some(i) => if i >= n && n > 0 {
            Some(n - 1)
        } else if n == 0 {
            None
        } else {
            Some(i)
        },
        None => if n > 0 {
            Some(0)
        } else {
            None
        },
    }
}

impl App {
    fn apply_hardware(&mut self, h: HardwareSample)
        requires
            app_wf(old(self)@),
        ensures
            app_wf(final(self)@),
            final(self)@ == hardware_update(old(self)@, h@),
    {
        let ghost s0 = self@;
        let ghost hv = h@;
        let HardwareSample {
            cpu_load,
            gpu_temp,
            gpu_power,
            gpu_process_names,
            sys_process_names,
            gpu_util,
            vram_util,
            gpu_fan,
            gpu_clocks,
            sys_uptime,
        } = h;
        self.telemetry.gpu_temp = gpu_temp;
        self.telemetry.gpu_power = gpu_power;
        self.telemetry.gpu_util = gpu_util;
        self.telemetry.vram_util = vram_util;
        self.telemetry.gpu_fan = gpu_fan;
        self.telemetry.gpu_clocks = gpu_clocks;
        self.telemetry.sys_uptime = sys_uptime;
        let ng = gpu_process_names.len();
        let ns = sys_process_names.len();
        self.gpu_procs.names = gpu_process_names;
        self.gpu_procs.selected = clamp(self.gpu_procs.selected, ng);
        self.sys_procs.names = sys_process_names;
        self.sys_procs.selected = clamp(self.sys_procs.selected, ns);
        if self.telemetry.cpu_history.len() >= CPU_HISTORY_LEN {
            let _ = self.telemetry.cpu_history.remove(0);
        }
        self.telemetry.cpu_history.push(cpu_load);
        assert(self@.telemetry.cpu_history =~= push_sample(s0.telemetry.cpu_history, cpu_load));
        assert(self@ =~= hardware_update(s0, hv));
    }

    fn apply_models(&mut self, models: Vec<String>)
        requires
            app_wf(old(self)@),
        ensures
            app_wf(final(self)@),
            final(self)@ == models_fetched(old(self)@, models@.map_values(|s: String| s@)),
    {
        let ghost s0 = self@;
        let ghost mv = models@.map_values(|s: String| s@);
        let n = models.len();
        if self.models.active == "None".to_string() && n > 0 {
            let first = models[0].clone();
            let payload = make_ping_payload(first.as_str());
            self.console.cursor = char_count(&payload);
            self.console.input = payload;
            self.models.active = first;
        }
        self.models.available = models;
        self.models.selected = clamp(self.models.selected, n);
        assert(self@ =~= models_fetched(s0, mv));
    }

    /// Applies an event: the state changes as `event_step` says.
    pub fn handle_event(&mut self, e: Event)
        requires
            old(self).wf(),
        ensures
            final(self).wf(),
            final(self)@ == event_step(old(self)@, e@),
    {
        let ghost s0 = self@;
        match e {
            Event::HardwareUpdate(h) => self.apply_hardware(h),
            Event::LogLine(l) => self.add_log(l),
            Event::Tick => {},
            Event::ApiStreamStart { ttft_ms } => {
                self.console.last_ttft = ttft_ms;
                self.console.last_api_result = String::new();
            },
            Event::ApiStreamChunk(t) => {
                push_str(&mut self.console.last_api_result, t.as_str());
            },
            Event::ApiStreamEnd { status, gen_rate } => {
                let ttft = nat_to_string(self.console.last_ttft);
                let mut msg = concat3("API Strike: ", ttft.as_str(), "ms | Gen: ");
                push_str(&mut msg, gen_rate.as_str());
                push_str(&mut msg, " t/s | [");
                push_str(&mut msg, status.as_str());
                push_str(&mut msg, "] ");
                let chars = chars_of(self.console.last_api_result.as_str());
                let mut excerpt: Vec<char> = Vec::new();
                let mut i: usize = 0;
                while i < chars.len() && i < 30
                    invariant
                        i <= chars.len(),
                        i <= 30,
                        excerpt@ == chars@.take(i as int),
                    decreases chars.len() - i,
                {
                    excerpt.push(chars[i]);
                    assert(chars@.take(i + 1) =~= chars@.take(i as int).push(chars@[i as int]));
                    i = i + 1;
                }
                assert(excerpt@ =~= reply_excerpt(s0.console.last_api_result));
                let ex = string_of(&excerpt);
                push_str(&mut msg, ex.as_str());
                self.add_log(msg);
            },
            Event::ModelsFetched(m) => self.apply_models(m),
            Event::PortAudit(p) => {
                self.port_status = p;
            },
            Event::ActiveModelSet(m) => {
                self.models.active = m;
                let mut line = ">>> EXTERNAL: resident model is now ".to_string();
                push_str(&mut line, self.models.active.as_str());
                self.add_log(line);
            },
        }
    }
}

} // verus!

verus! {

// ───────────────────────── laws ─────────────────────────

/// After a list changes, its highlight is on an entry of the new list, and
/// there is one exactly when the list is not empty.
pub proof fn law_selection_in_range(sel: Option<usize>, n: nat)
    requires
        n <= usize::MAX,
    ensures
        clamp_selection(sel, n) matches Some(i) ==> i < n,
        clamp_selection(sel, n) is None <==> n == 0,
{
}

/// Both process highlights and the hot-swap highlight stay within their
/// lists across hardware polls and model-list refreshes.
pub proof fn law_updates_keep_selections(s: AppView, e: EventView)
    requires
        s.gpu_procs.selected matches Some(i) ==> i < s.gpu_procs.names.len(),
        s.sys_procs.selected matches Some(i) ==> i < s.sys_procs.names.len(),
        s.models.selected matches Some(i) ==> i < s.models.available.len(),
    ensures
        ({
            let t = event_step(s, e);
            &&& t.gpu_procs.selected matches Some(i) ==> i < t.gpu_procs.names.len()
            &&& t.sys_procs.selected matches Some(i) ==> i < t.sys_procs.names.len()
            &&& t.models.selected matches Some(i) ==> i < t.models.available.len()
        }),
{
}


/// The tokens, one after another.
pub open spec fn concat_all(ts: Seq<Seq<char>>) -> Seq<char>
    decreases ts.len(),
{
    if ts.len() == 0 {
        Seq::empty()
    } else {
        concat_all(ts.drop_last()) + ts.last()
    }
}

/// The state after these tokens of a streamed reply arrived, in order.
pub open spec fn after_chunks(s: AppView, ts: Seq<Seq<char>>) -> AppView
    decreases ts.len(),
{
    if ts.len() == 0 {
        s
    } else {
        event_step(after_chunks(s, ts.drop_last()), EventView::ApiStreamChunk(ts.last()))
    }
}

/// Once a streamed reply starts, the interrogator shows exactly the tokens
/// received since, in order, with the time to the first token.
pub proof fn law_stream_shows_its_tokens(s: AppView, ttft: u128, ts: Seq<Seq<char>>)
    ensures
        after_chunks(event_step(s, EventView::ApiStreamStart { ttft_ms: ttft }), ts).console.last_api_result
            == concat_all(ts),
        after_chunks(event_step(s, EventView::ApiStreamStart { ttft_ms: ttft }), ts).console.last_ttft
            == ttft,
    decreases ts.len(),
{
    if ts.len() > 0 {
        law_stream_shows_its_tokens(s, ttft, ts.drop_last());
    } else {
        assert(concat_all(ts) =~= Seq::<char>::empty());
    }
}

/// A hardware poll lands field for field: each telemetry reading takes the
/// sample's reading of the same name, the sparkline ends with the sample's
/// CPU load and keeps the most recent earlier samples, the process lists
/// become the sample's lists, and nothing else on the dashboard moves.
pub proof fn law_hardware_sample_lands(s: AppView, h: HardwareSampleView)
    ensures
        ({
            let r = event_step(s, EventView::HardwareUpdate(h));
            &&& r.telemetry.gpu_temp == h.gpu_temp
            &&& r.telemetry.gpu_power == h.gpu_power
            &&& r.telemetry.gpu_util == h.gpu_util
            &&& r.telemetry.vram_util == h.vram_util
            &&& r.telemetry.gpu_fan == h.gpu_fan
            &&& r.telemetry.gpu_clocks == h.gpu_clocks
            &&& r.telemetry.sys_uptime == h.sys_uptime
            &&& r.telemetry.cpu_history.len() > 0
            &&& r.telemetry.cpu_history.last() == h.cpu_load
            &&& r.telemetry.cpu_history.len() == (if s.telemetry.cpu_history.len()
                < CPU_HISTORY_LEN {
                s.telemetry.cpu_history.len() + 1
            } else {
                s.telemetry.cpu_history.len()
            })
            &&& s.telemetry.cpu_history.len() > 0 ==> r.telemetry.cpu_history.drop_last()
                == s.telemetry.cpu_history.subrange(
                s.telemetry.cpu_history.len() - (r.telemetry.cpu_history.len() - 1),
                s.telemetry.cpu_history.len() as int,
            )
            &&& r.gpu_procs.names == h.gpu_process_names
            &&& r.sys_procs.names == h.sys_process_names
            &&& (AppView {
                telemetry: s.telemetry,
                gpu_procs: s.gpu_procs,
                sys_procs: s.sys_procs,
                ..r
            }) == s
        }),
{
    let r = event_step(s, EventView::HardwareUpdate(h));
    let old_h = s.telemetry.cpu_history;
    let new_h = r.telemetry.cpu_history;
    if old_h.len() > 0 {
        if old_h.len() >= CPU_HISTORY_LEN {
            assert(new_h.drop_last() =~= old_h.subrange(1, old_h.len() as int));
        } else {
            assert(new_h.drop_last() =~= old_h.subrange(0, old_h.len() as int));
        }
    }
}

/// A model list from the router replaces the deck's list; while no model is
/// active, the first listed one becomes active and the interrogator's
/// input becomes a ping of it with the cursor at its end; an active model
/// stays active; nothing outside the deck and the interrogator moves.
pub proof fn law_model_list_arrives(s: AppView, models: Seq<Seq<char>>)
    ensures
        ({
            let r = event_step(s, EventView::ModelsFetched(models));
            &&& r.models.available == models
            &&& s.models.active == "None"@ && models.len() > 0 ==> {
                &&& r.models.active == models[0]
                &&& r.console.input == ping_payload(models[0])
                &&& r.console.cursor == r.console.input.len() as usize
                &&& (ConsoleView { input: s.console.input, cursor: s.console.cursor, ..r.console })
                    == s.console
            }
            &&& !(s.models.active == "None"@ && models.len() > 0) ==> r.models.active
                == s.models.active && r.console == s.console
            &&& (AppView { models: s.models, console: s.console, ..r }) == s
        }),
{
}

/// Each background event changes only what it is about: a log line is
/// appended as the newest line of the log, a port audit replaces the port
/// line, a model made resident elsewhere becomes the active model and is
/// announced in the log, a stream's start records its time to first token
/// and clears the last reply, and a tick changes nothing.
pub proof fn law_events_touch_their_own_fields(s: AppView, e: EventView)
    ensures
        ({
            let r = event_step(s, e);
            &&& e matches EventView::LogLine(l) ==> r.log.logs.last() == l && r.log.logs.len() > 0
                && (AppView { log: s.log, ..r }) == s
            &&& e matches EventView::PortAudit(p) ==> r.port_status == p && (AppView {
                port_status: s.port_status,
                ..r
            }) == s
            &&& e matches EventView::ActiveModelSet(m) ==> r.models.active == m
                && r.models.available == s.models.available && r.models.selected
                == s.models.selected && r.log.logs.len() > 0 && r.log.logs.last()
                == ">>> EXTERNAL: resident model is now "@ + m && (AppView {
                models: s.models,
                log: s.log,
                ..r
            }) == s
            &&& e matches EventView::ApiStreamStart { ttft_ms } ==> r.console.last_ttft == ttft_ms
                && r.console.last_api_result.len() == 0 && (ConsoleView {
                last_ttft: s.console.last_ttft,
                last_api_result: s.console.last_api_result,
                ..r.console
            }) == s.console && (AppView { console: s.console, ..r }) == s
            &&& e is Tick ==> r == s
        }),
{
}

} // verus!
