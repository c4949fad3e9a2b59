use sncast_script::artifacts::{
    copy_artifacts, find_artifact, inject_lib_artifact, sierra_file_name, NamedArtifacts,
    StarknetContractArtifacts,
};
use sncast_script::hints::{hints_to_params, HintPlace, HintTables, OffsetHints};

fn entry(offset: usize, codes: &[&str]) -> OffsetHints {
    OffsetHints { offset, codes: codes.iter().map(|c| c.to_string()).collect() }
}

fn place(entry: usize, index: usize) -> HintPlace {
    HintPlace { entry, index }
}

fn named(name: &str, sierra: &str, casm: &str) -> NamedArtifacts {
    NamedArtifacts {
        name: name.to_string(),
        artifacts: StarknetContractArtifacts { sierra: sierra.to_string(), casm: casm.to_string() },
    }
}

#[test]
fn no_hints_no_tables() {
    assert_eq!(hints_to_params(&Vec::new()), HintTables { by_offset: vec![], by_code: vec![] });
}

#[test]
fn distinct_hints_all_stand() {
    let hints = vec![entry(0, &["a", "b"]), entry(5, &["c"])];
    assert_eq!(
        hints_to_params(&hints),
        HintTables { by_offset: vec![0, 1], by_code: vec![place(0, 0), place(0, 1), place(1, 0)] }
    );
}

#[test]
fn later_offset_and_later_code_stand() {
    let hints = vec![entry(3, &["a", "b", "a"]), entry(7, &["b"]), entry(3, &["c"]), entry(9, &[])];
    assert_eq!(
        hints_to_params(&hints),
        HintTables {
            by_offset: vec![1, 2, 3],
            by_code: vec![place(0, 2), place(1, 0), place(2, 0)],
        }
    );
}

#[test]
fn sierra_file_is_named_after_the_package() {
    assert_eq!(sierra_file_name("my_script"), "my_script.sierra.json");
    assert_eq!(sierra_file_name(""), ".sierra.json");
}

#[test]
fn script_artifact_is_injected() {
    let mut artifacts = vec![named("Token", "s1", "c1")];
    let copy = inject_lib_artifact(&mut artifacts, "program".to_string());
    let expected = vec![named("Token", "s1", "c1"), named("__sncast_script_lib", "program", "")];
    assert_eq!(artifacts, expected);
    assert_eq!(copy, expected);
    assert_eq!(find_artifact(&copy, "__sncast_script_lib"), Some(1));
    assert_eq!(find_artifact(&copy, "Token"), Some(0));
    assert_eq!(find_artifact(&copy, "Other"), None);
}

#[test]
fn injected_artifact_takes_the_place_of_an_earlier_one() {
    let mut artifacts = vec![named("__sncast_script_lib", "old", "x"), named("Token", "s1", "c1")];
    let copy = inject_lib_artifact(&mut artifacts, "new".to_string());
    let at = find_artifact(&copy, "__sncast_script_lib").unwrap();
    assert_eq!(copy[at].artifacts, StarknetContractArtifacts { sierra: "new".into(), casm: "".into() });
}

#[test]
fn copy_keeps_the_artifacts() {
    let artifacts = vec![named("A", "1", "2"), named("B", "3", "4")];
    assert_eq!(copy_artifacts(&artifacts), artifacts);
}
