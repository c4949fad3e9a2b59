use sncast_script::driver::{
    build_readable_text, find_main_function, finish_run, main_function_suffix,
    script_run_response, sentinel_argument, DriverError, RunResultValue, ScriptRunResponse,
};
use sncast_script::felt::Felt;

fn felts(values: &[u64]) -> Vec<Felt> {
    values.iter().map(|v| Felt::from_u64(*v)).collect()
}

fn names(values: &[&str]) -> Vec<String> {
    values.iter().map(|v| v.to_string()).collect()
}

#[test]
fn suffix_is_module_and_main() {
    assert_eq!(main_function_suffix("deploy_script"), "deploy_script::main");
    assert_eq!(main_function_suffix(""), "::main");
}

#[test]
fn main_function_is_the_first_that_ends_with_the_suffix() {
    let functions = names(&[
        "pkg::deploy_script::helper",
        "pkg::deploy_script::main",
        "other::deploy_script::main",
    ]);
    assert_eq!(find_main_function(&functions, "deploy_script"), Ok(1));
    assert_eq!(find_main_function(&functions, "other::deploy_script"), Ok(2));
    assert_eq!(find_main_function(&names(&["a::main"]), "a"), Ok(0));
}

#[test]
fn entry_point_not_found() {
    let functions = names(&["pkg::deploy_script::helper", "[12]", "main", "deploy_script::main2"]);
    let found = find_main_function(&functions, "deploy_script");
    assert_eq!(found, Err(DriverError::MainFunctionNotFound));
    let message = found.unwrap_err().message();
    assert_eq!(
        message,
        "Failed to find main function in script - please make sure `sierra-replace-ids` is not set to `false` for `dev` profile in script's Scarb.toml"
    );
    assert!(message.contains("Failed to find"));
    assert!(message.contains("sierra-replace-ids"));
    assert_eq!(find_main_function(&Vec::new(), "deploy_script"), Err(DriverError::MainFunctionNotFound));
}

#[test]
fn names_with_wide_characters_are_told_apart() {
    let functions = names(&["pkg::é::main", "pkg::e::main"]);
    assert_eq!(find_main_function(&functions, "e"), Ok(1));
    assert_eq!(find_main_function(&functions, "é"), Ok(0));
}

#[test]
fn sentinel_is_the_largest_signed_number() {
    assert_eq!(sentinel_argument(), Felt::from_u64(i64::MAX as u64));
    assert_eq!(sentinel_argument().to_u64(), Some(9_223_372_036_854_775_807));
}

#[test]
fn no_text_for_no_values() {
    assert_eq!(build_readable_text(&[]), None);
}

#[test]
fn felt_reads_in_hex_with_its_short_string() {
    assert_eq!(build_readable_text(&felts(&[42])), Some("\n    0x2a ('*')\n".to_string()));
    assert_eq!(build_readable_text(&felts(&[0x616263])), Some("\n    0x616263 ('abc')\n".to_string()));
}

#[test]
fn felt_without_short_string_reads_in_hex_only() {
    assert_eq!(build_readable_text(&felts(&[0])), Some("\n    0x0\n".to_string()));
    assert_eq!(build_readable_text(&felts(&[1])), Some("\n    0x1\n".to_string()));
    assert_eq!(build_readable_text(&felts(&[0x100])), Some("\n    0x100\n".to_string()));
    assert_eq!(
        build_readable_text(&felts(&[u64::MAX])),
        Some("\n    0xffffffffffffffff\n".to_string())
    );
}

#[test]
fn largest_felt_reads_in_full() {
    let mut bytes = [0u8; 32];
    bytes[0] = 0x08;
    bytes[7] = 0x11;
    let felt = Felt::from_bytes_be(bytes).unwrap();
    assert_eq!(
        build_readable_text(&[felt]),
        Some("\n    0x800000000000011000000000000000000000000000000000000000000000000\n".to_string())
    );
}

#[test]
fn values_are_separated_by_commas() {
    assert_eq!(
        build_readable_text(&felts(&[1, 0x6f6b, 3])),
        Some("\n    0x1, 0x6f6b ('ok'), 0x3\n".to_string())
    );
}

#[test]
fn return_is_a_success() {
    assert_eq!(
        script_run_response(&RunResultValue::Success(felts(&[0x6f6b]))),
        ScriptRunResponse {
            status: "success".to_string(),
            message: Some("\n    0x6f6b ('ok')\n".to_string()),
        }
    );
    assert_eq!(
        script_run_response(&RunResultValue::Success(Vec::new())),
        ScriptRunResponse { status: "success".to_string(), message: None }
    );
}

#[test]
fn panic_with_payload_42() {
    assert_eq!(
        finish_run(Ok(RunResultValue::Panic(felts(&[42])))),
        Ok(ScriptRunResponse {
            status: "script panicked".to_string(),
            message: Some("\n    0x2a ('*')\n".to_string()),
        })
    );
}

#[test]
fn interpreter_fault_is_no_response() {
    let report = finish_run(Err("memory segment fault".to_string()));
    assert_eq!(report, Err(DriverError::InterpreterFault("memory segment fault".to_string())));
    assert_eq!(report.unwrap_err().message(), "memory segment fault");
}
