use sipnab::packet::Timestamp;
use sipnab::plugin::document::{plugin_input_json, CSeq, DialogMessage, MessageHeader};
use sipnab::plugin::host::{
    document_len, judge_abi, judge_answer, judge_output, judge_place, judge_start, Plugin,
};
use sipnab::plugin::sandbox::SandboxFault;
use sipnab::plugin::{
    accept_findings, malformed_output, truncate, PluginError, PluginFinding, ABI_VERSION,
    MAX_OUTPUT_BYTES,
};

/// A conforming plugin that gives a fixed reply.
fn wat_plugin(abi: i32, reply: &str) -> Vec<u8> {
    let bytes: Vec<String> = reply.bytes().map(|b| format!("\\{b:02x}")).collect();
    let wat = format!(
        r#"(module
          (memory (export "memory") 2)
          (data (i32.const 1024) "{data}")
          (func (export "sipnab_plugin_abi_version") (result i32) (i32.const {abi}))
          (func (export "sipnab_alloc") (param i32) (result i32) (i32.const 2048))
          (func (export "sipnab_dealloc") (param i32 i32))
          (func (export "sipnab_analyze") (param i32 i32) (result i64)
            (i64.or
              (i64.shl (i64.const 1024) (i64.const 32))
              (i64.const {len}))))"#,
        data = bytes.join(""),
        len = reply.len()
    );
    wat::parse_str(&wat).expect("fixture WAT assembles")
}

fn load(name: &str, bytes: &[u8]) -> Result<Plugin, PluginError> {
    Plugin::load(&format!("/tmp/{name}.wasm"), Some(name), bytes)
}

/// Read a reply, as far as these tests need it read.
fn parse(text: &str) -> Result<Vec<PluginFinding>, String> {
    let value: serde_json::Value = serde_json::from_str(text).map_err(|e| e.to_string())?;
    let mut findings = Vec::new();
    for f in value["findings"].as_array().cloned().unwrap_or_default() {
        findings.push(PluginFinding {
            plugin: f["plugin"].as_str().unwrap_or_default().to_string(),
            id: f["id"].as_str().unwrap_or_default().to_string(),
            summary: f["summary"].as_str().unwrap_or_default().to_string(),
            evidence: f["evidence"]
                .as_array()
                .cloned()
                .unwrap_or_default()
                .iter()
                .map(|n| n.as_u64().unwrap_or_default() as usize)
                .collect(),
        });
    }
    Ok(findings)
}

fn analyze(plugin: &Plugin, dialog: &str) -> Result<Vec<PluginFinding>, PluginError> {
    match plugin.analyze(dialog)? {
        Some(text) => plugin.conclude(&text, parse(&text)),
        None => Ok(Vec::new()),
    }
}

#[test]
fn a_conforming_plugin_returns_attributed_findings() {
    let reply = r#"{"findings":[{"id":"custom","summary":"found it","evidence":[2]}]}"#;
    let plugin = load("good", &wat_plugin(1, reply)).expect("loads");
    let found = analyze(&plugin, "{}").expect("analyses");
    assert_eq!(found.len(), 1);
    assert_eq!(found[0].id, "custom");
    assert_eq!(found[0].evidence, vec![2]);
    assert_eq!(found[0].plugin, "good");
}

#[test]
fn a_plugin_speaking_another_abi_is_refused_at_load() {
    match load("v99", &wat_plugin(99, r#"{"findings":[]}"#)) {
        Err(PluginError::AbiVersion { found, expected }) => {
            assert_eq!(found, 99);
            assert_eq!(expected, ABI_VERSION);
        }
        other => panic!("expected an ABI version refusal, got {:?}", other.err()),
    }
}

#[test]
fn a_finding_without_evidence_is_rejected() {
    let reply = r#"{"findings":[{"id":"vague","summary":"something","evidence":[]}]}"#;
    let plugin = load("noevidence", &wat_plugin(1, reply)).expect("loads");
    match analyze(&plugin, "{}") {
        Err(PluginError::BadOutput(m)) => assert!(m.contains("evidence"), "{m}"),
        other => panic!("expected rejection, got {other:?}"),
    }
}

#[test]
fn a_plugin_that_imports_anything_cannot_instantiate() {
    let wat = r#"(module
        (import "env" "read_file" (func $rf (param i32) (result i32)))
        (memory (export "memory") 1)
        (func (export "sipnab_plugin_abi_version") (result i32) (i32.const 1))
        (func (export "sipnab_alloc") (param i32) (result i32) (i32.const 0))
        (func (export "sipnab_dealloc") (param i32 i32))
        (func (export "sipnab_analyze") (param i32 i32) (result i64) (i64.const 0)))"#;
    match load("importer", &wat::parse_str(wat).expect("assembles")) {
        Err(PluginError::Abi(m)) => assert!(m.contains("import"), "{m}"),
        other => panic!(
            "a plugin importing a host function must not load, got {:?}",
            other.err()
        ),
    }
}

#[test]
fn an_infinite_loop_runs_out_of_fuel() {
    let wat = r#"(module
        (memory (export "memory") 1)
        (func (export "sipnab_plugin_abi_version") (result i32) (i32.const 1))
        (func (export "sipnab_alloc") (param i32) (result i32) (i32.const 0))
        (func (export "sipnab_dealloc") (param i32 i32))
        (func (export "sipnab_analyze") (param i32 i32) (result i64)
          (loop $spin (br $spin))
          (i64.const 0)))"#;
    let plugin = load("spinner", &wat::parse_str(wat).expect("assembles"))
        .expect("loads — the loop is only reached in analyze");
    match analyze(&plugin, "{}") {
        Err(PluginError::Trap(_)) => {}
        other => panic!("expected fuel exhaustion, got {other:?}"),
    }
}

#[test]
fn a_loop_with_a_place_to_write_to_runs_out_of_fuel_too() {
    let wat = r#"(module
        (memory (export "memory") 1)
        (func (export "sipnab_plugin_abi_version") (result i32) (i32.const 1))
        (func (export "sipnab_alloc") (param i32) (result i32) (i32.const 64))
        (func (export "sipnab_analyze") (param i32 i32) (result i64)
          (loop $spin (br $spin))
          (i64.const 0)))"#;
    let plugin = load("spinner2", &wat::parse_str(wat).expect("assembles")).expect("loads");
    match plugin.analyze("{}") {
        Err(PluginError::Trap(m)) => assert!(m.contains("fuel"), "{m}"),
        other => panic!("expected fuel exhaustion, got {other:?}"),
    }
}

#[test]
fn a_plugin_declaring_huge_memory_is_refused_before_allocating() {
    let wat = r#"(module
        (memory (export "memory") 32768)
        (func (export "sipnab_plugin_abi_version") (result i32) (i32.const 1))
        (func (export "sipnab_alloc") (param i32) (result i32) (i32.const 0))
        (func (export "sipnab_dealloc") (param i32 i32))
        (func (export "sipnab_analyze") (param i32 i32) (result i64) (i64.const 0)))"#;
    match load("fatmem", &wat::parse_str(wat).expect("assembles")) {
        Err(PluginError::Trap(m)) | Err(PluginError::Abi(m)) => {
            assert!(
                m.to_lowercase().contains("memory") || m.to_lowercase().contains("limit"),
                "expected a memory-limit refusal, got: {m}"
            );
        }
        other => panic!("a 2 GiB plugin must not instantiate, got {:?}", other.err()),
    }
}

#[test]
fn a_plugin_returning_garbage_is_reported_not_fatal() {
    let plugin = load("garbage", &wat_plugin(1, "not json at all")).expect("loads");
    match analyze(&plugin, "{}") {
        Err(PluginError::BadOutput(m)) => assert!(m.ends_with("; got: not json at all"), "{m}"),
        other => panic!("expected BadOutput, got {other:?}"),
    }
}

#[test]
fn a_missing_file_is_a_read_error() {
    let e = PluginError::unreadable("/nonexistent/nope.wasm", "No such file");
    assert!(matches!(e, PluginError::Read(_)));
    assert_eq!(e.to_string(), "cannot read plugin: /nonexistent/nope.wasm: No such file");
}

#[test]
fn bytes_that_are_no_module_are_invalid() {
    match load("text", b"plain text") {
        Err(PluginError::Invalid(m)) => assert!(m.starts_with("/tmp/text.wasm: "), "{m}"),
        other => panic!("expected Invalid, got {:?}", other.err()),
    }
}

#[test]
fn a_plugin_without_a_stem_has_a_default_name() {
    let bytes = wat_plugin(1, "{}");
    let plugin = Plugin::load("/tmp/x", None, &bytes).expect("loads");
    assert_eq!(plugin.name(), "plugin");
    assert_eq!(plugin.path(), "/tmp/x");
    assert_eq!(load("named", &bytes).expect("loads").name(), "named");
}

#[test]
fn a_missing_export_is_named() {
    let wat = r#"(module (memory (export "memory") 1))"#;
    match load("bare", &wat::parse_str(wat).expect("assembles")) {
        Err(PluginError::Abi(m)) => assert!(m.starts_with("sipnab_plugin_abi_version: "), "{m}"),
        other => panic!("expected Abi, got {:?}", other.err()),
    }
    let cases = [
        (r#"(func (export "sipnab_alloc") (param i32) (result i32) (i32.const 8))"#, "plugin exports no `memory`"),
        (r#"(memory (export "memory") 1)"#, "sipnab_alloc: "),
        (
            r#"(memory (export "memory") 1)
               (func (export "sipnab_alloc") (param i32) (result i32) (i32.const 8))"#,
            "sipnab_analyze: ",
        ),
    ];
    for (items, said) in cases {
        let wat = format!(
            r#"(module {items}
                (func (export "sipnab_plugin_abi_version") (result i32) (i32.const 1)))"#
        );
        let plugin = load("partial", &wat::parse_str(&wat).expect("assembles")).expect("loads");
        match plugin.analyze("{}") {
            Err(PluginError::Abi(m)) => assert!(m.starts_with(said), "{m}"),
            other => panic!("expected Abi, got {other:?}"),
        }
    }
}

#[test]
fn the_document_reaches_the_plugin_and_its_answer_comes_back() {
    // This plugin answers with the document it was given.
    let wat = r#"(module
        (memory (export "memory") 2)
        (func (export "sipnab_plugin_abi_version") (result i32) (i32.const 1))
        (func (export "sipnab_alloc") (param i32) (result i32) (i32.const 4096))
        (func (export "sipnab_analyze") (param $p i32) (param $n i32) (result i64)
          (i64.or
            (i64.shl (i64.extend_i32_u (local.get $p)) (i64.const 32))
            (i64.extend_i32_u (local.get $n)))))"#;
    let plugin = load("echo", &wat::parse_str(wat).expect("assembles")).expect("loads");
    let document = "{\"dialog\":\"sí\"}";
    assert_eq!(plugin.analyze(document).expect("runs"), Some(document.to_string()));
    assert_eq!(plugin.analyze("").expect("runs"), None);
    let long = "x".repeat(2 * 65536);
    match plugin.analyze(&long) {
        Err(PluginError::Trap(m)) => assert!(m.starts_with("writing input: "), "{m}"),
        other => panic!("the document does not fit, got {other:?}"),
    }
}

#[test]
fn an_answer_outside_the_memory_is_a_trap() {
    let wat = r#"(module
        (memory (export "memory") 1)
        (func (export "sipnab_plugin_abi_version") (result i32) (i32.const 1))
        (func (export "sipnab_alloc") (param i32) (result i32) (i32.const 8))
        (func (export "sipnab_analyze") (param i32 i32) (result i64)
          (i64.const -4294967295)))"#;
    let plugin = load("outside", &wat::parse_str(wat).expect("assembles")).expect("loads");
    match plugin.analyze("{}") {
        Err(PluginError::Trap(m)) => assert!(m.starts_with("reading output: "), "{m}"),
        other => panic!("expected a trap, got {other:?}"),
    }
}

#[test]
fn a_module_that_does_not_start_is_judged() {
    let fuel = judge_start(SandboxFault::Fuel("off".to_string()));
    assert_eq!(fuel.to_string(), "plugin trapped: off");
    let start = judge_start(SandboxFault::Start("no `env`".to_string()));
    assert_eq!(
        start.to_string(),
        "plugin ABI mismatch: instantiation failed (plugins must import nothing): no `env`"
    );
}

#[test]
fn each_answer_is_judged() {
    assert!(judge_abi(1).is_ok());
    assert!(matches!(
        judge_abi(-1),
        Err(PluginError::AbiVersion { found: u32::MAX, expected: 1 })
    ));
    assert_eq!(document_len("sí").unwrap(), 3);
    assert_eq!(judge_place(64).unwrap(), 64);
    for null in [0, -1] {
        match judge_place(null) {
            Err(PluginError::Trap(m)) => assert_eq!(m, "sipnab_alloc returned null"),
            other => panic!("expected a trap, got {other:?}"),
        }
    }
    assert_eq!(judge_answer(7 << 32).unwrap(), None);
    assert_eq!(judge_answer((1024 << 32) | 5).unwrap(), Some((1024, 5)));
    assert_eq!(judge_answer(-1 << 32 | 5).unwrap(), Some((0xFFFF_FFFF, 5)));
    let cap = i64::from(MAX_OUTPUT_BYTES);
    assert_eq!(judge_answer(cap).unwrap(), Some((0, MAX_OUTPUT_BYTES as usize)));
    match judge_answer(cap + 1) {
        Err(PluginError::BadOutput(m)) => {
            assert_eq!(m, "output 4194305 bytes exceeds the 4194304-byte cap");
        }
        other => panic!("expected BadOutput, got {other:?}"),
    }
    assert_eq!(judge_output(b"ok".to_vec()).unwrap(), "ok");
    match judge_output(vec![0x6f, 0xff]) {
        Err(PluginError::BadOutput(m)) => {
            let said = String::from_utf8(vec![0x6f, 0xff]).unwrap_err();
            assert_eq!(m, format!("output is not UTF-8: {said}"));
        }
        other => panic!("expected BadOutput, got {other:?}"),
    }
}

#[test]
fn attribution_is_the_hosts_and_one_baseless_finding_refuses_all() {
    let finding = |id: &str, evidence: Vec<usize>| PluginFinding {
        plugin: "built-in".to_string(),
        id: id.to_string(),
        summary: "s".to_string(),
        evidence,
    };
    let accepted = accept_findings("mine", vec![finding("a", vec![1]), finding("b", vec![2, 3])])
        .expect("both have evidence");
    assert!(accepted.iter().all(|f| f.plugin == "mine"));
    assert_eq!(accepted[1].evidence, vec![2, 3]);
    match accept_findings("mine", vec![finding("a", vec![1]), finding("b", vec![])]) {
        Err(PluginError::BadOutput(m)) => assert_eq!(
            m,
            "finding `b` cites no evidence; every detection must name the messages it is drawn from"
        ),
        other => panic!("expected BadOutput, got {other:?}"),
    }
}

#[test]
fn a_long_output_is_shortened_between_characters() {
    assert_eq!(truncate("short", 5), "short");
    assert_eq!(truncate("shorts", 5), "short…");
    assert_eq!(truncate("aé€𝄞", 1), "a…");
    assert_eq!(truncate("aé€𝄞", 2), "a…");
    assert_eq!(truncate("aé€𝄞", 3), "aé…");
    assert_eq!(truncate("aé€𝄞", 9), "aé€…");
    assert_eq!(truncate("aé€𝄞", 10), "aé€𝄞");
    assert_eq!(truncate("x", 0), "…");
    match malformed_output("bad", &"y".repeat(300)) {
        PluginError::BadOutput(m) => assert_eq!(m, format!("bad; got: {}…", "y".repeat(200))),
        other => panic!("expected BadOutput, got {other:?}"),
    }
}

#[test]
fn every_error_has_its_words() {
    let e = PluginError::AbiVersion { found: 9, expected: 1 };
    assert_eq!(e.to_string(), "plugin reports ABI version 9, this build speaks 1");
    let m = || "m".to_string();
    assert_eq!(PluginError::Invalid(m()).to_string(), "not a valid WASM module: m");
    assert_eq!(PluginError::Abi(m()).to_string(), "plugin ABI mismatch: m");
    assert_eq!(PluginError::Trap(m()).to_string(), "plugin trapped: m");
    assert_eq!(PluginError::BadOutput(m()).to_string(), "plugin returned malformed output: m");
}

#[test]
fn the_document_carries_the_messages_and_their_offsets() {
    let header = |name: &str, value: &str| MessageHeader {
        name: name.to_string(),
        value: value.to_string(),
    };
    let messages = vec![
        DialogMessage {
            is_request: true,
            method: Some("INVITE".to_string()),
            status_code: None,
            reason: None,
            timestamp: Timestamp { nanos: 1_000_000_000 },
            cseq: Some(CSeq { number: 1, method: "INVITE".to_string() }),
            headers: vec![header("Via", "a\"b"), header("To", "x"), header("Via", "last")],
        },
        DialogMessage {
            is_request: false,
            method: None,
            status_code: Some(200),
            reason: Some("OK".to_string()),
            timestamp: Timestamp { nanos: 1_012_999_999 },
            cseq: None,
            headers: vec![],
        },
        DialogMessage {
            is_request: false,
            method: None,
            status_code: Some(180),
            reason: None,
            timestamp: Timestamp { nanos: 998_500_001 },
            cseq: None,
            headers: vec![],
        },
    ];
    assert_eq!(
        plugin_input_json(&messages, "{\"b\": 1, \"a\": [true]}"),
        concat_text(&[
            r#"{"dialog":{"a":[true],"b":1},"messages":["#,
            r#"{"cseq_method":"INVITE","cseq_number":1,"headers":{"To":"x","Via":"last"},"#,
            r#""index":0,"is_request":true,"method":"INVITE","offset_ms":0,"reason":null,"#,
            r#""status_code":null},"#,
            r#"{"cseq_method":null,"cseq_number":null,"headers":{},"index":1,"#,
            r#""is_request":false,"method":null,"offset_ms":12,"reason":"OK","status_code":200},"#,
            r#"{"cseq_method":null,"cseq_number":null,"headers":{},"index":2,"#,
            r#""is_request":false,"method":null,"offset_ms":-1,"reason":null,"status_code":180}]}"#,
        ])
    );
    assert_eq!(
        plugin_input_json(&Vec::new(), "not json"),
        r#"{"dialog":null,"messages":[]}"#
    );
}

fn concat_text(parts: &[&str]) -> String {
    parts.join("")
}

#[test]
fn a_plugin_carries_nothing_from_one_dialog_to_the_next() {
    // This plugin counts its runs, and answers with as much of the document as
    // it has counted to.
    let wat = r#"(module
        (memory (export "memory") 1)
        (global $runs (mut i32) (i32.const 0))
        (func (export "sipnab_plugin_abi_version") (result i32) (i32.const 1))
        (func (export "sipnab_alloc") (param i32) (result i32)
          (global.set $runs (i32.add (global.get $runs) (i32.const 1)))
          (i32.const 4096))
        (func (export "sipnab_analyze") (param $p i32) (param $n i32) (result i64)
          (i64.or
            (i64.shl (i64.extend_i32_u (local.get $p)) (i64.const 32))
            (i64.extend_i32_u (global.get $runs)))))"#;
    let bytes = wat::parse_str(wat).expect("assembles");
    let plugin = load("count", &bytes).expect("loads");
    let again = Plugin::load("/elsewhere", None, &bytes).expect("loads");
    for _ in 0..3 {
        assert_eq!(plugin.analyze("abc").expect("runs"), Some("a".to_string()));
        assert_eq!(again.analyze("abc").expect("runs"), Some("a".to_string()));
    }
}

#[test]
fn a_module_that_imports_a_memory_is_refused_at_load() {
    let wat = r#"(module
        (import "env" "memory" (memory 1))
        (func (export "sipnab_plugin_abi_version") (result i32) (i32.const 1)))"#;
    match load("greedy", &wat::parse_str(wat).expect("assembles")) {
        Err(PluginError::Abi(m)) => {
            assert!(m.starts_with("instantiation failed (plugins must import nothing): "), "{m}");
        }
        Err(other) => panic!("another error: {other:?}"),
        Ok(_) => panic!("an import must be refused"),
    }
}

#[test]
fn the_document_does_not_tell_when_the_capture_ran() {
    let dialog = |start: i128| -> Vec<DialogMessage> {
        [0, 40_000_000, 90_500_000]
            .iter()
            .map(|after| DialogMessage {
                is_request: true,
                method: Some("OPTIONS".to_string()),
                status_code: None,
                reason: None,
                timestamp: Timestamp { nanos: start + after },
                cseq: None,
                headers: vec![],
            })
            .collect()
    };
    let then = plugin_input_json(&dialog(5), "{}");
    let now = plugin_input_json(&dialog(1_700_000_000_000_000_000), "{}");
    assert_eq!(then, now);
    assert!(now.contains(r#""offset_ms":90"#), "{now}");
}

#[test]
fn the_first_run_has_as_much_fuel_as_the_next() {
    // A long function that a run goes through once: what it costs to translate
    // is not taken from the run that is the first to call it. Each byte of the
    // document takes four million rounds, so that a short one brings a run
    // close to the end of its fuel and a long one past it.
    let long = "nop ".repeat(2_000_000);
    let wat = format!(
        r#"(module
        (memory (export "memory") 1)
        (func (export "sipnab_plugin_abi_version") (result i32) (i32.const 1))
        (func (export "sipnab_alloc") (param i32) (result i32) (i32.const 4096))
        (func $long {long})
        (func (export "sipnab_analyze") (param $p i32) (param $n i32) (result i64)
          (local $i i32)
          (call $long)
          (local.set $i (i32.mul (local.get $n) (i32.const 4000000)))
          (loop $again
            (local.set $i (i32.sub (local.get $i) (i32.const 1)))
            (br_if $again (local.get $i)))
          (i64.or
            (i64.shl (i64.extend_i32_u (local.get $p)) (i64.const 32))
            (i64.extend_i32_u (local.get $n)))))"#
    );
    let bytes = wat::parse_str(&wat).expect("assembles");
    let plugin = load("long", &bytes).expect("loads");
    for _ in 0..2 {
        assert_eq!(plugin.analyze("abc").expect("runs"), Some("abc".to_string()));
    }
    for _ in 0..2 {
        assert!(matches!(plugin.analyze("abcabcabc"), Err(PluginError::Trap(_))));
    }
}
