use saltnitor::ini::upsert_ini_section;

fn kv(pairs: &[(&str, &str)]) -> Vec<(String, String)> {
    pairs.iter().map(|(k, v)| (k.to_string(), v.to_string())).collect()
}

const ROUTER_INI: &str = "[*]
flash-attn = on
threads    = 7
ctx-size   = 32768

[fast]
model = /home/you/models/qwen3-9b-Q5_K_XL.gguf
ngl   = 99

[deep]
model = /home/you/models/qwen3-30b-A3B-Q4_K_XL.gguf
ngl   = 99
override-tensor = .ffn_.*_exps.=CPU
";

#[test]
fn upsert_replaces_and_appends_in_the_section() {
    let out = upsert_ini_section(ROUTER_INI, "fast", &kv(&[("ngl", "40"), ("ctx-size", "8192")])).unwrap();
    assert_eq!(
        out,
        "[*]
flash-attn = on
threads    = 7
ctx-size   = 32768

[fast]
model = /home/you/models/qwen3-9b-Q5_K_XL.gguf
ngl = 40

ctx-size = 8192
[deep]
model = /home/you/models/qwen3-30b-A3B-Q4_K_XL.gguf
ngl   = 99
override-tensor = .ffn_.*_exps.=CPU
"
    );
}

#[test]
fn upsert_keeps_the_other_sections() {
    let out = upsert_ini_section(ROUTER_INI, "deep", &kv(&[("ngl", "24")])).unwrap();
    assert!(out.starts_with("[*]\nflash-attn = on\nthreads    = 7\nctx-size   = 32768\n\n[fast]\nmodel = /home/you/models/qwen3-9b-Q5_K_XL.gguf\nngl   = 99\n"));
    assert!(out.contains("[deep]\nmodel = /home/you/models/qwen3-30b-A3B-Q4_K_XL.gguf\nngl = 24\noverride-tensor = .ffn_.*_exps.=CPU\n"));
}

#[test]
fn upsert_without_the_header_is_none() {
    assert_eq!(upsert_ini_section(ROUTER_INI, "missing", &kv(&[("ngl", "1")])), None);
    assert_eq!(upsert_ini_section("", "fast", &kv(&[("ngl", "1")])), None);
    assert_eq!(upsert_ini_section("[fastest]\n", "fast", &kv(&[])), None);
}

#[test]
fn upsert_leaves_comments_alone() {
    let ini = "[m]\n; ngl = 1\n# ngl = 2\n  ngl=3\n";
    let out = upsert_ini_section(ini, "m", &kv(&[("ngl", "9")])).unwrap();
    assert_eq!(out, "[m]\n; ngl = 1\n# ngl = 2\nngl = 9\n");
}

#[test]
fn upsert_reads_back_each_key_once() {
    let ini = "[m]\nngl = 1\nngl = 2\nthreads = 4\n";
    let out = upsert_ini_section(ini, "m", &kv(&[("ngl", "7"), ("mlock", "true")])).unwrap();
    assert_eq!(out, "[m]\nngl = 7\nngl = 2\nthreads = 4\nmlock = true\n");
}

#[test]
fn upsert_header_may_be_indented_and_last() {
    let ini = "x = 1\n  [m]  \r\nkey = old";
    let out = upsert_ini_section(ini, "m", &kv(&[("key", "new"), ("extra", "e")])).unwrap();
    assert_eq!(out, "x = 1\n  [m]  \nkey = new\nextra = e\n");
}

#[test]
fn upsert_with_no_pairs_normalises_only_the_ending() {
    let ini = "[a]\nk = v";
    assert_eq!(upsert_ini_section(ini, "a", &[]), Some("[a]\nk = v\n".to_string()));
}

#[test]
fn upserting_twice_is_upserting_once() {
    let pairs = kv(&[("ngl", "40"), ("ctx-size", "8192"), ("mlock", "true")]);
    let once = upsert_ini_section(ROUTER_INI, "fast", &pairs).unwrap();
    let twice = upsert_ini_section(&once, "fast", &pairs).unwrap();
    assert_eq!(twice, once);
    let ini = "[m]\nngl = 1\nngl = 2\n; ngl = 3\n";
    let once = upsert_ini_section(ini, "m", &kv(&[("ngl", "7")])).unwrap();
    assert_eq!(upsert_ini_section(&once, "m", &kv(&[("ngl", "7")])).unwrap(), once);
}

#[test]
fn upserting_repeated_keys_twice_is_upserting_once() {
    let pairs = kv(&[("a", "1"), ("a", "2")]);
    for ini in ["[m]\n", "[m]\na = 0\n", "[m]\na = x\nb = y\na = z\na = w\n[n]\na = 9\n"] {
        let once = upsert_ini_section(ini, "m", &pairs).unwrap();
        assert_eq!(upsert_ini_section(&once, "m", &pairs).unwrap(), once, "{}", ini);
    }
    assert_eq!(upsert_ini_section("[m]\n", "m", &pairs).unwrap(), "[m]\na = 1\na = 2\n");
}
