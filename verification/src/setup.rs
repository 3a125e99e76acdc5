//! Start-up and shutdown decisions: where the configuration file lives, how
//! the command line and the file combine into settings, the pre-flight
//! dependency verdict, the saved payload history, and the crash-dump path.
use vstd::prelude::*;
use crate::keys::concat3;
use crate::text::{
    chars_of, digits, is_blank, join_strings, join_with, lines, nat_to_string, push_str,
    split_lines, split_on, string_of, trim, trim_end, trim_start, vv,
};

verus! {

// ───────────────────────── the configuration file ─────────────────────────

/// The configuration file's place below a home directory.
pub open spec fn config_rel() -> Seq<char> {
    ".config/saltnitor/config.toml"@
}

/// `PathBuf::push` of a relative path onto `base`: no separator after an
/// empty base or one that already ends in `/`.
pub open spec fn path_join(base: Seq<char>, rel: Seq<char>) -> Seq<char> {
    if base.len() == 0 {
        rel
    } else if base.last() == '/' {
        base + rel
    } else {
        base + "/"@ + rel
    }
}

/// Under `sudo`, the invoking user's file; otherwise the file below `HOME`;
/// with neither, no file.
pub open spec fn config_path_spec(sudo_user: Option<Seq<char>>, home: Option<Seq<char>>) -> Option<
    Seq<char>,
> {
    match sudo_user {
        Some(u) => Some("/home/"@ + u + "/.config/saltnitor/config.toml"@),
        None => match home {
            Some(h) => Some(path_join(h, config_rel())),
            None => None,
        },
    }
}

pub open spec fn opt_view(o: Option<String>) -> Option<Seq<char>> {
    match o {
        Some(s) => Some(s@),
        None => None,
    }
}

/// Where the configuration file is read from, given `SUDO_USER` and `HOME`.
pub fn config_path(sudo_user: &Option<String>, home: &Option<String>) -> (r: Option<String>)
    ensures
        opt_view(r) == config_path_spec(opt_view(*sudo_user), opt_view(*home)),
{
    match sudo_user {
        Some(u) => Some(concat3("/home/", u.as_str(), "/.config/saltnitor/config.toml")),
        None => match home {
            Some(h) => {
                let rel = ".config/saltnitor/config.toml";
                proof {
                    reveal_strlit(".config/saltnitor/config.toml");
                }
                let hc = chars_of(h.as_str());
                if hc.len() == 0 {
                    Some(rel.to_string())
                } else if hc[hc.len() - 1] == '/' {
                    let mut s = h.clone();
                    push_str(&mut s, rel);
                    Some(s)
                } else {
                    Some(concat3(h.as_str(), "/", rel))
                }
            },
            None => None,
        },
    }
}

// ───────────────────────── settings ─────────────────────────

/// The command-line flags that override the file.
pub struct CliArgs {
    pub port: Option<u16>,
    pub host: Option<String>,
    pub service_name: Option<String>,
}

/// The integer and text settings of the configuration file.
pub struct FileConfig {
    pub port: Option<u16>,
    pub host: Option<String>,
    pub service_name: Option<String>,
    pub default_ngl: Option<i32>,
    pub default_ctx: Option<i32>,
    pub control_port: Option<u16>,
    pub router_base: Option<String>,
}

/// What the program runs with.
pub struct Settings {
    pub port: u16,
    pub host: String,
    pub service_name: String,
    pub default_ngl: i32,
    pub default_ctx: i32,
    pub control_port: u16,
    pub router_base: String,
}

pub struct SettingsView {
    pub port: u16,
    pub host: Seq<char>,
    pub service_name: Seq<char>,
    pub default_ngl: i32,
    pub default_ctx: i32,
    pub control_port: u16,
    pub router_base: Seq<char>,
}

impl View for Settings {
    type V = SettingsView;

    open spec fn view(&self) -> SettingsView {
        SettingsView {
            port: self.port,
            host: self.host@,
            service_name: self.service_name@,
            default_ngl: self.default_ngl,
            default_ctx: self.default_ctx,
            control_port: self.control_port,
            router_base: self.router_base@,
        }
    }
}

pub open spec fn or_else<T>(first: Option<T>, second: Option<T>, default: T) -> T {
    match first {
        Some(v) => v,
        None => match second {
            Some(v) => v,
            None => default,
        },
    }
}

/// A flag wins over the file, the file over the default: port 8080, host
/// `127.0.0.1`, service `llama-router`, 33 GPU layers, 8192 context, control
/// port 8765, and the router at `http://<host>:<port>`.
pub open spec fn resolve_spec(cli: &CliArgs, file: &FileConfig) -> SettingsView {
    let port = or_else(cli.port, file.port, 8080u16);
    let host = or_else(opt_view(cli.host), opt_view(file.host), "127.0.0.1"@);
    SettingsView {
        port,
        host,
        service_name: or_else(
            opt_view(cli.service_name),
            opt_view(file.service_name),
            "llama-router"@,
        ),
        default_ngl: or_else(file.default_ngl, None, 33i32),
        default_ctx: or_else(file.default_ctx, None, 8192i32),
        control_port: or_else(file.control_port, None, 8765u16),
        router_base: or_else(
            opt_view(file.router_base),
            None,
            "http://"@ + host + ":"@ + digits(port as nat),
        ),
    }
}

fn pick_text(first: &Option<String>, second: &Option<String>, default: &str) -> (r: String)
    ensures
        r@ == or_else(opt_view(*first), opt_view(*second), default@),
{
    match first {
        Some(v) => v.clone(),
        None => match second {
            Some(v) => v.clone(),
            None => default.to_string(),
        },
    }
}

/// The settings from the command line and the configuration file.
pub fn resolve_settings(cli: &CliArgs, file: &FileConfig) -> (s: Settings)
    ensures
        s@ == resolve_spec(cli, file),
{
    let port: u16 = match cli.port {
        Some(p) => p,
        None => match file.port {
            Some(p) => p,
            None => 8080,
        },
    };
    let host = pick_text(&cli.host, &file.host, "127.0.0.1");
    let service_name = pick_text(&cli.service_name, &file.service_name, "llama-router");
    let router_base = match &file.router_base {
        Some(b) => b.clone(),
        None => {
            let mut b = concat3("http://", host.as_str(), ":");
            let p = nat_to_string(port as u128);
            push_str(&mut b, p.as_str());
            b
        },
    };
    Settings {
        port,
        host,
        service_name,
        default_ngl: match file.default_ngl {
            Some(n) => n,
            None => 33,
        },
        default_ctx: match file.default_ctx {
            Some(n) => n,
            None => 8192,
        },
        control_port: match file.control_port {
            Some(p) => p,
            None => 8765,
        },
        router_base,
    }
}

// ───────────────────────── pre-flight dependencies ─────────────────────────

/// The commands the program shells out to.
pub open spec fn required_spec() -> Seq<Seq<char>> {
    seq!["journalctl"@, "ss"@, "systemctl"@, "killall"@]
}

/// The commands the program shells out to, in the order they are checked.
pub fn required_commands() -> (r: Vec<String>)
    ensures
        vv_strings(r@) == required_spec(),
{
    let r = vec![
        "journalctl".to_string(),
        "ss".to_string(),
        "systemctl".to_string(),
        "killall".to_string(),
    ];
    assert(vv_strings(r@) =~= required_spec());
    r
}

pub open spec fn vv_strings(v: Seq<String>) -> Seq<Seq<char>> {
    v.map_values(|s: String| s@)
}

/// The commands, in order, whose check came back negative.
pub open spec fn missing_of(cmds: Seq<Seq<char>>, installed: Seq<bool>) -> Seq<Seq<char>>
    decreases cmds.len(),
{
    if cmds.len() == 0 {
        Seq::empty()
    } else {
        let prev = missing_of(cmds.drop_last(), installed);
        if installed[cmds.len() - 1] {
            prev
        } else {
            prev.push(cmds.last())
        }
    }
}

/// `Ok` when every required command was found; otherwise the message that
/// names the missing ones.
pub open spec fn dependency_verdict(installed: Seq<bool>) -> Result<(), Seq<char>> {
    let missing = missing_of(required_spec(), installed);
    if missing.len() == 0 {
        Ok(())
    } else {
        Err("Missing critical Linux dependencies: "@ + join_with(missing, ", "@))
    }
}

/// The pre-flight verdict, given for each required command (in the order of
/// `required_commands`) whether the shell found it.
pub fn check_dependencies(installed: &Vec<bool>) -> (r: Result<(), String>)
    requires
        installed.len() == required_spec().len(),
    ensures
        match r {
            Ok(()) => dependency_verdict(installed@) == Ok::<(), Seq<char>>(()),
            Err(m) => dependency_verdict(installed@) == Err::<(), Seq<char>>(m@),
        },
{
    let cmds = required_commands();
    let ghost cv = vv_strings(cmds@);
    let mut missing: Vec<String> = Vec::new();
    let mut i: usize = 0;
    while i < cmds.len()
        invariant
            i <= cmds.len(),
            cmds.len() == installed.len(),
            cv == vv_strings(cmds@),
            cv == required_spec(),
            vv_strings(missing@) == missing_of(cv.take(i as int), installed@),
        decreases cmds.len() - i,
    {
        assert(cv.take(i + 1).drop_last() =~= cv.take(i as int));
        assert(cv.take(i + 1).last() == cmds@[i as int]@);
        if !installed[i] {
            let ghost o = vv_strings(missing@);
            missing.push(cmds[i].clone());
            assert(vv_strings(missing@) =~= o.push(cmds@[i as int]@));
        }
        i = i + 1;
    }
    assert(cv.take(cmds.len() as int) =~= cv);
    if missing.len() == 0 {
        Ok(())
    } else {
        let list = join_strings(&missing, ", ");
        let mut msg = "Missing critical Linux dependencies: ".to_string();
        push_str(&mut msg, list.as_str());
        Err(msg)
    }
}

// ───────────────────────── payload history ─────────────────────────

/// The lines that are not blank, in order.
pub open spec fn non_blank(ls: Seq<Seq<char>>) -> Seq<Seq<char>>
    decreases ls.len(),
{
    if ls.len() == 0 {
        Seq::empty()
    } else if trim(ls.last()).len() > 0 {
        non_blank(ls.drop_last()).push(ls.last())
    } else {
        non_blank(ls.drop_last())
    }
}

/// The saved payload history: every line of the history file that is not
/// blank, in order.
pub fn history_entries(content: &str) -> (r: Vec<String>)
    ensures
        vv_strings(r@) == non_blank(lines(content@)),
{
    let ls = split_lines(&chars_of(content));
    let ghost lv = vv(ls@);
    let mut out: Vec<String> = Vec::new();
    let mut i: usize = 0;
    while i < ls.len()
        invariant
            i <= ls.len(),
            lv == vv(ls@),
            vv_strings(out@) == non_blank(lv.take(i as int)),
        decreases ls.len() - i,
    {
        assert(lv.take(i + 1).drop_last() =~= lv.take(i as int));
        assert(lv.take(i + 1).last() == ls@[i as int]@);
        if !is_blank(&ls[i]) {
            let ghost o = vv_strings(out@);
            out.push(string_of(&ls[i]));
            assert(vv_strings(out@) =~= o.push(ls@[i as int]@));
        }
        i = i + 1;
    }
    assert(lv.take(ls.len() as int) =~= lv);
    out
}

/// What is written to the history file at exit: the payloads one per line,
/// or nothing at all (no write) when there are none.
pub fn history_file_text(history: &Vec<String>) -> (r: Option<String>)
    ensures
        match r {
            Some(t) => history.len() > 0 && t@ == join_with(vv_strings(history@), "\n"@),
            None => history.len() == 0,
        },
{
    if history.len() == 0 {
        None
    } else {
        Some(join_strings(history, "\n"))
    }
}

/// Writing the history and reading it back gives it again, when no payload
/// is blank or holds a line break, and none but the last ends in a carriage
/// return.
pub proof fn law_history_round_trip(h: Seq<Seq<char>>)
    requires
        forall|i: int| 0 <= i < h.len() ==> trim(#[trigger] h[i]).len() > 0,
        forall|i: int, j: int|
            0 <= i < h.len() && 0 <= j < h[i].len() ==> #[trigger] h[i][j] != '\n',
        forall|i: int| 0 <= i < h.len() - 1 ==> (#[trigger] h[i]).last() != '\r',
    ensures
        non_blank(lines(join_with(h, "\n"@))) == h,
{
    assert forall|i: int| 0 <= i < h.len() implies (#[trigger] h[i]).len() > 0 by {
        lemma_blank_if_empty(h[i]);
    }
    if h.len() > 0 {
        lemma_split_join(h);
        let s = join_with(h, "\n"@);
        lemma_join_ends(h);
        let p = split_on(s, '\n');
        assert(lines(s) =~= h);
    }
    lemma_non_blank_keeps(h);
}

proof fn lemma_blank_if_empty(s: Seq<char>)
    ensures
        s.len() == 0 ==> trim(s).len() == 0,
{
    if s.len() == 0 {
        assert(trim_start(s) == s);
        assert(trim_end(s) == s);
    }
}

/// A piece without line breaks splits to itself.
proof fn lemma_split_single(b: Seq<char>)
    requires
        forall|j: int| 0 <= j < b.len() ==> b[j] != '\n',
    ensures
        split_on(b, '\n') == seq![b],
    decreases b.len(),
{
    if b.len() == 0 {
        assert(b =~= Seq::<char>::empty());
    } else {
        assert(b[b.len() - 1] != '\n');
        lemma_split_single(b.drop_last());
        assert(b.drop_last().push(b.last()) =~= b);
        assert(seq![b.drop_last()].update(0, b.drop_last().push(b.last())) =~= seq![b]);
    }
}

/// Splitting `a`, a line break and a piece `b` without line breaks.
proof fn lemma_split_after_break(a: Seq<char>, b: Seq<char>)
    requires
        forall|j: int| 0 <= j < b.len() ==> b[j] != '\n',
    ensures
        split_on(a + seq!['\n'] + b, '\n') == split_on(a, '\n').push(b),
    decreases b.len(),
{
    let s = a + seq!['\n'] + b;
    if b.len() == 0 {
        assert(s.drop_last() =~= a);
        assert(b =~= Seq::<char>::empty());
    } else {
        lemma_split_after_break(a, b.drop_last());
        assert(s.drop_last() =~= a + seq!['\n'] + b.drop_last());
        assert(b.drop_last().push(b.last()) =~= b);
        assert(split_on(a, '\n').push(b.drop_last()).update(
            split_on(a, '\n').len() as int,
            b,
        ) =~= split_on(a, '\n').push(b));
    }
}

proof fn lemma_split_join(h: Seq<Seq<char>>)
    requires
        h.len() > 0,
        forall|i: int, j: int|
            0 <= i < h.len() && 0 <= j < h[i].len() ==> #[trigger] h[i][j] != '\n',
    ensures
        split_on(join_with(h, "\n"@), '\n') == h,
    decreases h.len(),
{
    reveal_strlit("\n");
    if h.len() == 1 {
        assert forall|j: int| 0 <= j < h[0].len() implies h[0][j] != '\n' by {
            assert(h[0][j] == h[0][j]);
        }
        lemma_split_single(h[0]);
        assert(seq![h[0]] =~= h);
    } else {
        let last = h.last();
        assert forall|j: int| 0 <= j < last.len() implies last[j] != '\n' by {
            assert(h[h.len() - 1][j] == last[j]);
        }
        lemma_split_join(h.drop_last());
        lemma_split_after_break(join_with(h.drop_last(), "\n"@), last);
        assert("\n"@ =~= seq!['\n']);
        assert(h.drop_last().push(last) =~= h);
    }
}

/// The joined text ends with the last piece, so it does not end in a line
/// break when that piece is not empty.
proof fn lemma_join_ends(h: Seq<Seq<char>>)
    requires
        h.len() > 0,
        h.last().len() > 0,
    ensures
        join_with(h, "\n"@).len() > 0,
        join_with(h, "\n"@).last() == h.last().last(),
{
    if h.len() > 1 {
        let a = join_with(h.drop_last(), "\n"@) + "\n"@;
        assert((a + h.last()).last() == h.last().last());
    }
}

proof fn lemma_non_blank_keeps(h: Seq<Seq<char>>)
    requires
        forall|i: int| 0 <= i < h.len() ==> trim(#[trigger] h[i]).len() > 0,
    ensures
        non_blank(h) == h,
    decreases h.len(),
{
    if h.len() > 0 {
        assert(trim(h[h.len() - 1]).len() > 0);
        lemma_non_blank_keeps(h.drop_last());
        assert(h.drop_last().push(h.last()) =~= h);
    }
}

// ───────────────────────── crash dump ─────────────────────────

/// The crash dump's file: `saltnitor_crash_<stamp>.txt` in the home
/// directory, or in `.` without one.
pub open spec fn crash_dump_path_spec(home: Option<Seq<char>>, stamp: Seq<char>) -> Seq<char> {
    or_else(home, None, "."@) + "/saltnitor_crash_"@ + stamp + ".txt"@
}

pub fn crash_dump_path(home: &Option<String>, stamp: &str) -> (p: String)
    ensures
        p@ == crash_dump_path_spec(opt_view(*home), stamp@),
{
    let mut p = match home {
        Some(h) => h.clone(),
        None => ".".to_string(),
    };
    push_str(&mut p, "/saltnitor_crash_");
    push_str(&mut p, stamp);
    push_str(&mut p, ".txt");
    p
}

/// The log line that announces a crash dump.
pub fn crash_dump_notice(path: &str) -> (s: String)
    ensures
        s@ == ">>> CRASH DUMP -> "@ + path@,
{
    let mut s = ">>> CRASH DUMP -> ".to_string();
    push_str(&mut s, path);
    s
}

/// Each setting comes from the command line when given there, else from
/// the file, else from its default (port 8080, host `127.0.0.1`, service
/// `llama-router`); the engine defaults come from the file or are 33 GPU
/// layers, 8192 tokens of context and control port 8765; the router is the
/// file's, or `http://<host>:<port>` of the settled host and port.
pub proof fn law_flag_beats_file_beats_default(cli: &CliArgs, file: &FileConfig)
    ensures
        ({
            let r = resolve_spec(cli, file);
            &&& cli.port matches Some(p) ==> r.port == p
            &&& cli.port is None ==> (file.port matches Some(p) ==> r.port == p)
            &&& cli.port is None && file.port is None ==> r.port == 8080
            &&& cli.host matches Some(h) ==> r.host == h@
            &&& cli.host is None ==> (file.host matches Some(h) ==> r.host == h@)
            &&& cli.host is None && file.host is None ==> r.host == "127.0.0.1"@
            &&& cli.service_name matches Some(n) ==> r.service_name == n@
            &&& cli.service_name is None ==> (file.service_name matches Some(n) ==> r.service_name
                == n@)
            &&& cli.service_name is None && file.service_name is None ==> r.service_name
                == "llama-router"@
            &&& file.default_ngl matches Some(n) ==> r.default_ngl == n
            &&& file.default_ngl is None ==> r.default_ngl == 33
            &&& file.default_ctx matches Some(n) ==> r.default_ctx == n
            &&& file.default_ctx is None ==> r.default_ctx == 8192
            &&& file.control_port matches Some(p) ==> r.control_port == p
            &&& file.control_port is None ==> r.control_port == 8765
            &&& file.router_base matches Some(b) ==> r.router_base == b@
            &&& file.router_base is None ==> r.router_base == "http://"@ + r.host + ":"@ + digits(
                r.port as nat,
            )
        }),
{
}

proof fn lemma_missing_commands(cmds: Seq<Seq<char>>, installed: Seq<bool>)
    requires
        installed.len() >= cmds.len(),
    ensures
        forall|i: int| 0 <= i < cmds.len() && !installed[i] ==> #[trigger] missing_of(
            cmds,
            installed,
        ).contains(cmds[i]),
        forall|j: int|
            0 <= j < missing_of(cmds, installed).len() ==> exists|i: int|
                0 <= i < cmds.len() && !installed[i] && cmds[i] == #[trigger] missing_of(
                    cmds,
                    installed,
                )[j],
        missing_of(cmds, installed).len() == 0 <==> forall|i: int|
            0 <= i < cmds.len() ==> #[trigger] installed[i],
    decreases cmds.len(),
{
    if cmds.len() > 0 {
        let prev = missing_of(cmds.drop_last(), installed);
        lemma_missing_commands(cmds.drop_last(), installed);
        let m = missing_of(cmds, installed);
        assert forall|i: int| 0 <= i < cmds.len() && !installed[i] implies #[trigger] m.contains(
            cmds[i],
        ) by {
            if i < cmds.len() - 1 {
                assert(cmds.drop_last()[i] == cmds[i]);
                assert(prev.contains(cmds.drop_last()[i]));
                let j = choose|j: int| 0 <= j < prev.len() && prev[j] == cmds[i];
                if installed[cmds.len() - 1] {
                    assert(m == prev);
                } else {
                    assert(m == prev.push(cmds.last()));
                }
                assert(m[j] == cmds[i]);
            } else {
                assert(m[m.len() - 1] == cmds[i]);
            }
        }
        assert forall|j: int| 0 <= j < m.len() implies exists|i: int|
            0 <= i < cmds.len() && !installed[i] && cmds[i] == #[trigger] m[j] by {
            if j < prev.len() {
                assert(m[j] == prev[j]);
                let i = choose|i: int|
                    0 <= i < cmds.len() - 1 && !installed[i] && cmds.drop_last()[i] == prev[j];
                assert(cmds[i] == cmds.drop_last()[i]);
            } else {
                assert(cmds[cmds.len() - 1] == m[j]);
            }
        }
        if !installed[cmds.len() - 1] {
            assert(m.len() > 0);
        } else if m.len() == 0 {
            assert forall|i: int| 0 <= i < cmds.len() implies #[trigger] installed[i] by {
                if i < cmds.len() - 1 {
                    assert(cmds.drop_last().len() == cmds.len() - 1);
                }
            }
        }
    }
}

/// The pre-flight check passes exactly when every required command was
/// found; otherwise its message names every missing command and only
/// missing ones.
pub proof fn law_preflight_names_the_missing(installed: Seq<bool>)
    requires
        installed.len() == required_spec().len(),
    ensures
        dependency_verdict(installed) is Ok <==> forall|i: int|
            0 <= i < installed.len() ==> #[trigger] installed[i],
        dependency_verdict(installed) is Err ==> dependency_verdict(installed)
            == Err::<(), Seq<char>>(
            "Missing critical Linux dependencies: "@ + join_with(
                missing_of(required_spec(), installed),
                ", "@,
            ),
        ),
        forall|i: int|
            0 <= i < installed.len() && !installed[i] ==> #[trigger] missing_of(
                required_spec(),
                installed,
            ).contains(required_spec()[i]),
        forall|j: int|
            0 <= j < missing_of(required_spec(), installed).len() ==> exists|i: int|
                0 <= i < installed.len() && !installed[i] && required_spec()[i]
                    == #[trigger] missing_of(required_spec(), installed)[j],
{
    lemma_missing_commands(required_spec(), installed);
}

} // verus!
