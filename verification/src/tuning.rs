//! Applying the deep engine tuner: the keys written into the active model's
//! section of the router's preset file, what becomes of that write, and the
//! GPU layers a hot-swap pins.
use vstd::prelude::*;
use crate::app::{App, AppView, Tuner};
use crate::ini::{kv_view, upsert_ini_section, upsert_lines};
use crate::keys::{concat3, tuner_key_count};
use crate::text::{decimal, digits, int_to_string, lines, nat_to_string, push_str, unlines};

verus! {

/// The KV cache types, by the tuner's index.
pub open spec fn cache_type(i: usize) -> Seq<char> {
    if i == 0 {
        "f16"@
    } else if i == 1 {
        "f32"@
    } else if i == 2 {
        "bf16"@
    } else if i == 3 {
        "q8_0"@
    } else if i == 4 {
        "q4_0"@
    } else if i == 5 {
        "q4_1"@
    } else if i == 6 {
        "iq4_nl"@
    } else if i == 7 {
        "q5_0"@
    } else {
        "q5_1"@
    }
}

pub open spec fn bool_text(b: bool) -> Seq<char> {
    if b {
        "true"@
    } else {
        "false"@
    }
}

pub open spec fn on_off(b: bool) -> Seq<char> {
    if b {
        "on"@
    } else {
        "off"@
    }
}

/// The fourteen keys the tuner always writes, in order, then `mlock` and
/// `no-mmap` when they are on. The RoPE scale and the defragmentation
/// threshold come as the text the front end wrote them as.
pub open spec fn tuner_kv_spec(t: Tuner, rope_scale: Seq<char>, defrag: Seq<char>) -> Seq<
    (Seq<char>, Seq<char>),
> {
    let base = seq![
        ("ngl"@, decimal(t.current_ngl as int)),
        ("ctx-size"@, decimal(t.current_ctx as int)),
        ("batch-size"@, decimal(t.current_batch as int)),
        ("ubatch-size"@, decimal(t.ubatch_size as int)),
        ("threads"@, digits(t.current_threads as nat)),
        ("threads-batch"@, digits(t.threads_batch as nat)),
        ("parallel"@, decimal(t.current_parallel as int)),
        ("flash-attn"@, on_off(t.flash_attn)),
        ("cache-type-k"@, cache_type(t.cache_k_idx)),
        ("cache-type-v"@, cache_type(t.cache_v_idx)),
        ("cont-batching"@, bool_text(t.cont_batching)),
        ("rope-freq-base"@, decimal(t.rope_base as int)),
        ("rope-freq-scale"@, rope_scale),
        ("defrag-thold"@, defrag),
    ];
    let with_mlock = if t.mlock {
        base.push(("mlock"@, "true"@))
    } else {
        base
    };
    if t.no_mmap {
        with_mlock.push(("no-mmap"@, "true"@))
    } else {
        with_mlock
    }
}

fn cache_type_text(i: usize) -> (s: String)
    requires
        i < 9,
    ensures
        s@ == cache_type(i),
{
    let names = ["f16", "f32", "bf16", "q8_0", "q4_0", "q4_1", "iq4_nl", "q5_0", "q5_1"];
    proof {
        reveal_strlit("f16");
        reveal_strlit("f32");
        reveal_strlit("bf16");
        reveal_strlit("q8_0");
        reveal_strlit("q4_0");
        reveal_strlit("q4_1");
        reveal_strlit("iq4_nl");
        reveal_strlit("q5_0");
        reveal_strlit("q5_1");
    }
    let s = names[i].to_string();
    assert(s@ == cache_type(i));
    s
}

fn text_pair(k: &str, v: String) -> (p: (String, String))
    ensures
        p.0@ == k@,
        p.1@ == v@,
{
    (k.to_string(), v)
}

/// The keys and values the tuner writes into the active model's section.
pub fn tuner_kv(t: &Tuner, rope_scale: &str, defrag: &str) -> (kv: Vec<(String, String)>)
    requires
        t.cache_k_idx < 9,
        t.cache_v_idx < 9,
    ensures
        kv_view(kv@) == tuner_kv_spec(*t, rope_scale@, defrag@),
{
    let mut kv: Vec<(String, String)> = Vec::new();
    kv.push(text_pair("ngl", int_to_string(t.current_ngl as i64)));
    kv.push(text_pair("ctx-size", int_to_string(t.current_ctx as i64)));
    kv.push(text_pair("batch-size", int_to_string(t.current_batch as i64)));
    kv.push(text_pair("ubatch-size", int_to_string(t.ubatch_size as i64)));
    kv.push(text_pair("threads", nat_to_string(t.current_threads as u128)));
    kv.push(text_pair("threads-batch", nat_to_string(t.threads_batch as u128)));
    kv.push(text_pair("parallel", int_to_string(t.current_parallel as i64)));
    let fa = if t.flash_attn {
        "on".to_string()
    } else {
        "off".to_string()
    };
    kv.push(text_pair("flash-attn", fa));
    kv.push(text_pair("cache-type-k", cache_type_text(t.cache_k_idx)));
    kv.push(text_pair("cache-type-v", cache_type_text(t.cache_v_idx)));
    let cb = if t.cont_batching {
        "true".to_string()
    } else {
        "false".to_string()
    };
    kv.push(text_pair("cont-batching", cb));
    kv.push(text_pair("rope-freq-base", int_to_string(t.rope_base as i64)));
    kv.push(text_pair("rope-freq-scale", rope_scale.to_string()));
    kv.push(text_pair("defrag-thold", defrag.to_string()));
    let ghost base = kv_view(kv@);
    assert(base =~= seq![
        ("ngl"@, decimal(t.current_ngl as int)),
        ("ctx-size"@, decimal(t.current_ctx as int)),
        ("batch-size"@, decimal(t.current_batch as int)),
        ("ubatch-size"@, decimal(t.ubatch_size as int)),
        ("threads"@, digits(t.current_threads as nat)),
        ("threads-batch"@, digits(t.threads_batch as nat)),
        ("parallel"@, decimal(t.current_parallel as int)),
        ("flash-attn"@, on_off(t.flash_attn)),
        ("cache-type-k"@, cache_type(t.cache_k_idx)),
        ("cache-type-v"@, cache_type(t.cache_v_idx)),
        ("cont-batching"@, bool_text(t.cont_batching)),
        ("rope-freq-base"@, decimal(t.rope_base as int)),
        ("rope-freq-scale"@, rope_scale@),
        ("defrag-thold"@, defrag@),
    ]);
    if t.mlock {
        kv.push(text_pair("mlock", "true".to_string()));
    }
    let ghost mid = kv_view(kv@);
    assert(mid =~= (if t.mlock {
        base.push(("mlock"@, "true"@))
    } else {
        base
    }));
    if t.no_mmap {
        kv.push(text_pair("no-mmap", "true".to_string()));
    }
    assert(kv_view(kv@) =~= (if t.no_mmap {
        mid.push(("no-mmap"@, "true"@))
    } else {
        mid
    }));
    kv
}

/// The key count the tuner announces is the number of keys it writes.
pub proof fn law_announced_count_is_written(t: Tuner, rope_scale: Seq<char>, defrag: Seq<char>)
    ensures
        tuner_kv_spec(t, rope_scale, defrag).len() == tuner_key_count(t),
{
}

/// Whether some pair has key `k`.
pub open spec fn writes_key(kv: Seq<(Seq<char>, Seq<char>)>, k: Seq<char>) -> bool {
    exists|i: int| 0 <= i < kv.len() && kv[i].0 == k
}

/// Each key the tuner writes carries its own setting: the context size
/// under `ctx-size`, the batch size under `batch-size`, and so on for every
/// key; `mlock` and `no-mmap` are written, as `true`, exactly when they are
/// on; and each of the fourteen other keys is written.
pub proof fn law_each_key_carries_its_setting(t: Tuner, rope_scale: Seq<char>, defrag: Seq<char>)
    ensures
        forall|i: int|
            #![trigger tuner_kv_spec(t, rope_scale, defrag)[i]]
            0 <= i < tuner_kv_spec(t, rope_scale, defrag).len() ==> {
                let p = tuner_kv_spec(t, rope_scale, defrag)[i];
                &&& p.0 == "ngl"@ ==> p.1 == decimal(t.current_ngl as int)
                &&& p.0 == "ctx-size"@ ==> p.1 == decimal(t.current_ctx as int)
                &&& p.0 == "batch-size"@ ==> p.1 == decimal(t.current_batch as int)
                &&& p.0 == "ubatch-size"@ ==> p.1 == decimal(t.ubatch_size as int)
                &&& p.0 == "threads"@ ==> p.1 == digits(t.current_threads as nat)
                &&& p.0 == "threads-batch"@ ==> p.1 == digits(t.threads_batch as nat)
                &&& p.0 == "parallel"@ ==> p.1 == decimal(t.current_parallel as int)
                &&& p.0 == "flash-attn"@ ==> p.1 == (if t.flash_attn { "on"@ } else { "off"@ })
                &&& p.0 == "cache-type-k"@ ==> p.1 == cache_type(t.cache_k_idx)
                &&& p.0 == "cache-type-v"@ ==> p.1 == cache_type(t.cache_v_idx)
                &&& p.0 == "cont-batching"@ ==> p.1 == (if t.cont_batching { "true"@ } else { "false"@ })
                &&& p.0 == "rope-freq-base"@ ==> p.1 == decimal(t.rope_base as int)
                &&& p.0 == "rope-freq-scale"@ ==> p.1 == rope_scale
                &&& p.0 == "defrag-thold"@ ==> p.1 == defrag
                &&& p.0 == "mlock"@ ==> p.1 == "true"@ && t.mlock
                &&& p.0 == "no-mmap"@ ==> p.1 == "true"@ && t.no_mmap
            },
        forall|k: Seq<char>|
            k == "ngl"@ || k == "ctx-size"@ || k == "batch-size"@ || k == "ubatch-size"@ || k
                == "threads"@ || k == "threads-batch"@ || k == "parallel"@ || k == "flash-attn"@
                || k == "cache-type-k"@ || k == "cache-type-v"@ || k == "cont-batching"@ || k
                == "rope-freq-base"@ || k == "rope-freq-scale"@ || k == "defrag-thold"@ || (k
                == "mlock"@ && t.mlock) || (k == "no-mmap"@ && t.no_mmap) ==> #[trigger] writes_key(
                tuner_kv_spec(t, rope_scale, defrag),
                k,
            ),
{
    reveal_strlit("ngl");
    reveal_strlit("ctx-size");
    reveal_strlit("batch-size");
    reveal_strlit("ubatch-size");
    reveal_strlit("threads");
    reveal_strlit("threads-batch");
    reveal_strlit("parallel");
    reveal_strlit("flash-attn");
    reveal_strlit("cache-type-k");
    reveal_strlit("cache-type-v");
    reveal_strlit("cont-batching");
    reveal_strlit("rope-freq-base");
    reveal_strlit("rope-freq-scale");
    reveal_strlit("defrag-thold");
    reveal_strlit("mlock");
    reveal_strlit("no-mmap");
    let kv = tuner_kv_spec(t, rope_scale, defrag);
    assert(kv[0].0 == "ngl"@);
    assert(kv[1].0 == "ctx-size"@);
    assert(kv[2].0 == "batch-size"@);
    assert(kv[3].0 == "ubatch-size"@);
    assert(kv[4].0 == "threads"@);
    assert(kv[5].0 == "threads-batch"@);
    assert(kv[6].0 == "parallel"@);
    assert(kv[7].0 == "flash-attn"@);
    assert(kv[8].0 == "cache-type-k"@);
    assert(kv[9].0 == "cache-type-v"@);
    assert(kv[10].0 == "cont-batching"@);
    assert(kv[11].0 == "rope-freq-base"@);
    assert(kv[12].0 == "rope-freq-scale"@);
    assert(kv[13].0 == "defrag-thold"@);
    if t.mlock {
        assert(kv[14].0 == "mlock"@);
    }
    if t.no_mmap {
        assert(kv[kv.len() - 1].0 == "no-mmap"@);
    }
    let keys = seq![
        "ngl"@, "ctx-size"@, "batch-size"@, "ubatch-size"@, "threads"@, "threads-batch"@,
        "parallel"@, "flash-attn"@, "cache-type-k"@, "cache-type-v"@, "cont-batching"@,
        "rope-freq-base"@, "rope-freq-scale"@, "defrag-thold"@, "mlock"@, "no-mmap"@,
    ];
    assert forall|a: int, b: int| 0 <= a < b < 16 implies #[trigger] keys[a] != #[trigger] keys[b] by {
        let x = keys[a];
        let y = keys[b];
        if x == y {
            assert(x.len() == y.len());
            assert(x[0] == y[0]);
            assert(x.len() > 11 ==> x[11] == y[11]);
            assert(x.len() > 6 ==> x[6] == y[6]);
        }
    }
}

/// The KV cache types, by the tuner's index: `f16`, `f32`, `bf16`, `q8_0`,
/// `q4_0`, `q4_1`, `iq4_nl`, `q5_0`, `q5_1`, each a different type.
pub proof fn law_cache_types_in_order()
    ensures
        cache_type(0) == "f16"@,
        cache_type(1) == "f32"@,
        cache_type(2) == "bf16"@,
        cache_type(3) == "q8_0"@,
        cache_type(4) == "q4_0"@,
        cache_type(5) == "q4_1"@,
        cache_type(6) == "iq4_nl"@,
        cache_type(7) == "q5_0"@,
        cache_type(8) == "q5_1"@,
        forall|i: usize, j: usize| i < j < 9 ==> cache_type(i) != cache_type(j),
{
    reveal_strlit("f16");
    reveal_strlit("f32");
    reveal_strlit("bf16");
    reveal_strlit("q8_0");
    reveal_strlit("q4_0");
    reveal_strlit("q4_1");
    reveal_strlit("iq4_nl");
    reveal_strlit("q5_0");
    reveal_strlit("q5_1");
    assert forall|i: usize, j: usize| i < j < 9 implies cache_type(i) != cache_type(j) by {
        let a = cache_type(i);
        let b = cache_type(j);
        if a == b {
            assert(a.len() == b.len());
            assert(a[0] == b[0] && a[a.len() - 1] == b[b.len() - 1]);
            assert(a.len() > 1 ==> a[1] == b[1]);
            assert(a.len() > 2 ==> a[2] == b[2]);
        }
    }
}

/// What the write task does with the preset file it read (`None` when it
/// could not be read): the new content to write, or the log line that says
/// why nothing is written.
pub open spec fn tuner_write_plan_spec(
    read: Option<Seq<char>>,
    section: Seq<char>,
    kv: Seq<(Seq<char>, Seq<char>)>,
    path: Seq<char>,
) -> Result<Seq<char>, Seq<char>> {
    match read {
        None => Err(">>> TUNER ERROR: cannot read "@ + path),
        Some(content) => match upsert_lines(lines(content), section, kv) {
            Some(r) => Ok(unlines(r)),
            None => Err(">>> TUNER ERROR: section ["@ + section + "] not found in router.ini"@),
        },
    }
}

pub open spec fn opt_text(o: Option<String>) -> Option<Seq<char>> {
    match o {
        Some(s) => Some(s@),
        None => None,
    }
}

pub fn tuner_write_plan(
    read: &Option<String>,
    section: &str,
    kv: &[(String, String)],
    path: &str,
) -> (r: Result<String, String>)
    ensures
        match r {
            Ok(c) => tuner_write_plan_spec(opt_text(*read), section@, kv_view(kv@), path@) == Ok::<
                Seq<char>,
                Seq<char>,
            >(c@),
            Err(m) => tuner_write_plan_spec(opt_text(*read), section@, kv_view(kv@), path@)
                == Err::<Seq<char>, Seq<char>>(m@),
        },
{
    match read {
        None => {
            let mut m = ">>> TUNER ERROR: cannot read ".to_string();
            push_str(&mut m, path);
            Err(m)
        },
        Some(content) => match upsert_ini_section(content.as_str(), section, kv) {
            Some(updated) => Ok(updated),
            None => Err(
                concat3(">>> TUNER ERROR: section [", section, "] not found in router.ini"),
            ),
        },
    }
}

/// The log line after the preset file was written.
pub fn tuner_written_notice(section: &str) -> (s: String)
    ensures
        s@ == ">>> TUNER: ["@ + section@ + "] updated. Restarting router..."@,
{
    concat3(">>> TUNER: [", section, "] updated. Restarting router...")
}

impl App {
    /// A hot-swap pins the GPU layers it chose for the new model; nothing
    /// else changes.
    pub fn pin_gpu_layers(&mut self, ngl: i32)
        requires
            old(self).wf(),
        ensures
            final(self).wf(),
            final(self)@ == (AppView {
                tuner: Tuner { current_ngl: ngl, ..old(self)@.tuner },
                ..old(self)@
            }),
    {
        self.tuner.current_ngl = ngl;
    }
}

} // verus!
