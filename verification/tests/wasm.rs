use mra::error::ToolError;
use mra::json::Json;
use mra::tool::ToolOutput;
use mra::wasm::limits::{
    DEFAULT_EPOCH_DEADLINE_TICKS, DEFAULT_MAX_MEMORY_BYTES, EPOCH_TICK_INTERVAL_MS,
    MAX_MEMORY_HARD_CAP,
};
use mra::wasm::manifest::{
    LimitsField, ManifestFields, NumberField, TextField, WasmToolManifest,
};
use mra::wasm::tool::{invoke_result, unpack_result, InvokeFailure};
use mra::wasm::{compilation_failed, WasmError};

#[test]
fn manifest_parse_full() {
    let toml = r#"
        name = "test"
        description = "A test"
        version = "1.0.0"
        wasm = "test.wasm"
        [limits]
        max_memory_bytes = 134217728
        epoch_deadline_ticks = 100
    "#;
    let m = WasmToolManifest::parse(toml).unwrap();
    assert_eq!(m.name, "test");
    assert_eq!(m.limits.max_memory_bytes, 128 * 1024 * 1024);
    assert_eq!(m.limits.epoch_deadline_ticks, 100);
}

#[test]
fn manifest_defaults_applied() {
    let toml = r#"
        name = "minimal"
        description = "Minimal"
        version = "0.1.0"
        wasm = "m.wasm"
    "#;
    let m = WasmToolManifest::parse(toml).unwrap();
    assert_eq!(m.limits.max_memory_bytes, DEFAULT_MAX_MEMORY_BYTES);
    assert_eq!(m.limits.epoch_deadline_ticks, DEFAULT_EPOCH_DEADLINE_TICKS);
}

#[test]
fn manifest_rejects_memory_over_hard_cap() {
    let toml = r#"
        name = "big"
        description = "Too much"
        version = "0.1.0"
        wasm = "big.wasm"
        [limits]
        max_memory_bytes = 536870912
    "#;
    assert!(
        WasmToolManifest::parse(toml)
            .unwrap_err()
            .to_string()
            .contains("hard cap")
    );
}

#[test]
fn manifest_rejects_whitespace_only_required_fields() {
    let toml = r#"
        name = "   "
        description = "  "
        version = "0.1.0"
        wasm = "   "
    "#;

    let error = WasmToolManifest::parse(toml).unwrap_err().to_string();
    assert!(
        error.contains("name must not be empty"),
        "unexpected error: {error}"
    );
}

#[test]
fn swarm_runtime_without_wasm_feature_compiles() {
    // The rules of WASM tools need no WASM engine.
    assert_eq!(DEFAULT_EPOCH_DEADLINE_TICKS * EPOCH_TICK_INTERVAL_MS, 5000);
}

#[test]
fn manifest_memory_may_reach_the_hard_cap() {
    let toml = r#"
        name = "big"
        description = "Just enough"
        version = "0.1.0"
        wasm = "big.wasm"
        [limits]
        max_memory_bytes = 268435456
    "#;
    let m = WasmToolManifest::parse(toml).unwrap();
    assert_eq!(m.limits.max_memory_bytes, MAX_MEMORY_HARD_CAP);
    assert_eq!(m.limits.epoch_deadline_ticks, DEFAULT_EPOCH_DEADLINE_TICKS);
}

#[test]
fn manifest_without_a_required_field_does_not_parse() {
    let toml = r#"
        name = "n"
        version = "0.1.0"
        wasm = "m.wasm"
    "#;
    let error = WasmToolManifest::parse(toml).unwrap_err();
    assert!(matches!(error, WasmError::ManifestParse(_)));
    assert!(error.to_string().contains("missing field `description`"));
}

#[test]
fn manifest_with_a_mistyped_field_does_not_parse() {
    for line in ["limits = 3", "[limits]\nmax_memory_bytes = -1", "[limits]\nepoch_deadline_ticks = 1.5"] {
        let toml = format!(
            "name = \"n\"\ndescription = \"d\"\nversion = \"1\"\nwasm = \"w\"\n{line}\n"
        );
        let error = WasmToolManifest::parse(&toml).unwrap_err();
        assert!(matches!(error, WasmError::ManifestParse(_)), "accepted: {line}");
    }
    let error = WasmToolManifest::parse("name = 3").unwrap_err();
    assert!(matches!(error, WasmError::ManifestParse(_)));
}

#[test]
fn manifest_limits_may_be_a_list() {
    let parse = |limits: &str| {
        WasmToolManifest::parse(&format!(
            "name = \"n\"\ndescription = \"d\"\nversion = \"1\"\nwasm = \"w\"\nlimits = {limits}\n"
        ))
    };
    let limits = parse("[1048576, 50]").unwrap().limits;
    assert_eq!((limits.max_memory_bytes, limits.epoch_deadline_ticks), (1_048_576, 50));
    let limits = parse("[1048576]").unwrap().limits;
    assert_eq!(limits.max_memory_bytes, 1_048_576);
    assert_eq!(limits.epoch_deadline_ticks, DEFAULT_EPOCH_DEADLINE_TICKS);
    let limits = parse("[]").unwrap().limits;
    assert_eq!(limits.max_memory_bytes, DEFAULT_MAX_MEMORY_BYTES);
    let limits = parse("[1, 2, 3]").unwrap().limits;
    assert_eq!((limits.max_memory_bytes, limits.epoch_deadline_ticks), (1, 2));
    assert!(matches!(parse("[\"x\"]"), Err(WasmError::ManifestParse(_))));
    assert!(matches!(parse("[1, -2]"), Err(WasmError::ManifestParse(_))));
    assert!(matches!(parse("[536870912]"), Err(WasmError::InvalidManifest(_))));
}

#[test]
fn deep_parameters_leave_the_other_fields_alone() {
    let keys = vec!["k"; 70].join(".");
    let value = format!("{}1{}", "{ k = ".repeat(70), " }".repeat(70));
    let toml = format!(
        "name = \"n\"\ndescription = \"d\"\nversion = \"1\"\nwasm = \"w\"\n\
         [limits]\nmax_memory_bytes = 7\n[parameters.{keys}]\nx = {value}\n"
    );
    let manifest = WasmToolManifest::parse(&toml).unwrap();
    assert_eq!(manifest.name, "n");
    assert_eq!(manifest.limits.max_memory_bytes, 7);
    let nested = format!(
        "{}{{\"x\":{}1{}}}{}",
        "{\"k\":".repeat(70),
        "{\"k\":".repeat(70),
        "}".repeat(70),
        "}".repeat(70)
    );
    assert_eq!(manifest.parameters.unwrap().as_str(), nested);
}

#[test]
fn text_that_is_no_toml_does_not_parse() {
    let error = WasmToolManifest::parse("name = ").unwrap_err();
    assert!(matches!(error, WasmError::ManifestParse(_)));
    assert!(error.to_string().starts_with("invalid wasm manifest: "));
}

#[test]
fn manifest_parameters_become_the_schema() {
    let toml = r#"
        name = "echo"
        description = "Echoes"
        version = "0.1.0"
        wasm = "echo.wasm"
        [parameters]
        type = "object"
        [parameters.properties.text]
        type = "string"
    "#;
    let spec = WasmToolManifest::parse(toml).unwrap().tool_spec();
    assert_eq!(spec.name, "echo");
    assert_eq!(
        spec.parameters.as_str(),
        r#"{"properties":{"text":{"type":"string"}},"type":"object"}"#
    );
}

fn fields() -> ManifestFields {
    ManifestFields {
        name: TextField::Text("n".into()),
        description: TextField::Text("d".into()),
        version: TextField::Text("1".into()),
        wasm: TextField::Text("w.wasm".into()),
        limits: LimitsField::Missing,
        parameters: None,
    }
}

#[test]
fn tool_without_parameters_takes_any_object() {
    let manifest = WasmToolManifest::from_fields(fields()).unwrap();
    assert_eq!(manifest.tool_spec().parameters.as_str(), r#"{"type":"object"}"#);
}

#[test]
fn fields_are_checked_in_order() {
    let mut bad = fields();
    bad.description = TextField::Missing;
    bad.wasm = TextField::Mistyped;
    match WasmToolManifest::from_fields(bad) {
        Err(WasmError::ManifestParse(what)) => assert_eq!(what, "missing field `description`"),
        other => panic!("expected ManifestParse, got: {other:?}"),
    }
    let mut big = fields();
    big.limits = LimitsField::Given {
        max_memory_bytes: NumberField::Number(300_000_000),
        epoch_deadline_ticks: NumberField::Missing,
    };
    match WasmToolManifest::from_fields(big) {
        Err(WasmError::InvalidManifest(what)) => assert_eq!(
            what,
            "manifest: max_memory_bytes (300000000) exceeds hard cap (268435456)"
        ),
        other => panic!("expected InvalidManifest, got: {other:?}"),
    }
}

#[test]
fn missing_binary_is_reported_with_both_paths() {
    let manifest = WasmToolManifest::from_fields(fields()).unwrap();
    assert!(manifest.check_binary(true, "/t/w.wasm", "/t/tool.toml").is_ok());
    let error = manifest
        .check_binary(false, "/t/w.wasm", "/t/tool.toml")
        .unwrap_err();
    assert_eq!(
        error.to_string(),
        "WASM binary not found: /t/w.wasm (referenced by /t/tool.toml)"
    );
}

#[test]
fn compilation_error_names_the_file() {
    let error = compilation_failed("/t/broken.wasm", "bad magic");
    assert!(error.to_string().contains("broken.wasm"));
}

#[test]
fn result_word_is_taken_apart() {
    assert_eq!(unpack_result(0), (0, 0));
    assert_eq!(unpack_result((1024 << 32) | 17), (1024, 17));
    assert_eq!(unpack_result(-1), (u32::MAX, u32::MAX));
    assert_eq!(unpack_result(i64::MIN), (0x8000_0000, 0));
}

#[test]
fn failures_are_told_apart() {
    let interrupted = invoke_result(Err(InvokeFailure::Interrupted));
    assert!(matches!(interrupted, Err(ToolError::ResourceExhausted)));
    match invoke_result(Err(InvokeFailure::MissingExport("invoke".into()))) {
        Err(ToolError::WasmTrap(what)) => assert_eq!(what, "missing required export: invoke"),
        other => panic!("expected WasmTrap, got: {other:?}"),
    }
    match invoke_result(Err(InvokeFailure::InvalidOutput)) {
        Err(ToolError::ExecutionFailed(what)) => assert_eq!(what, "invalid output"),
        other => panic!("expected ExecutionFailed, got: {other:?}"),
    }
    let trapped = invoke_result(Err(InvokeFailure::Trap("unreachable".into())));
    assert!(matches!(trapped, Err(ToolError::WasmTrap(_))));
    let output = ToolOutput { content: "x".into(), is_error: false };
    assert_eq!(invoke_result(Ok(output)).unwrap().content, "x");
}

#[test]
fn json_strings_are_quoted_and_escaped() {
    assert_eq!(Json::string("plain /é\u{7f}").as_str(), "\"plain /é\u{7f}\"");
    assert_eq!(
        Json::string("a\"b\\c\n\r\t\u{8}\u{c}\u{1}\u{1f}").as_str(),
        r#""a\"b\\c\n\r\t\b\f\u0001\u001f""#
    );
    assert_eq!(Json::string("").as_str(), "\"\"");
}

#[test]
fn json_values_are_looked_into() {
    let value = Json::parse(r#"{"a": {"b": "c"}, "n": 7, "m": -7}"#).unwrap();
    assert!(value.is_object());
    let inner = value.member("a").unwrap();
    assert_eq!(inner.as_str(), r#"{"b":"c"}"#);
    assert_eq!(inner.member("b").unwrap().held_text().as_deref(), Some("c"));
    assert!(inner.held_text().is_none());
    assert_eq!(value.member("n").unwrap().held_number(), Some(7));
    assert_eq!(value.member("m").unwrap().held_number(), None);
    assert!(value.member("x").is_none());
    assert!(!Json::null().is_object());
    assert!(Json::parse("{").is_err());
}
