use sncast_script::felt::Felt;
use sncast_script::state::{RecordedOutcome, StateManager, TransactionRecord};

fn felts(values: &[u64]) -> Vec<Felt> {
    values.iter().map(|v| Felt::from_u64(*v)).collect()
}

fn success(identity: &str, selector: &str, output: &[u64]) -> TransactionRecord {
    TransactionRecord {
        identity: identity.to_string(),
        selector: selector.to_string(),
        outcome: RecordedOutcome::Success(felts(output)),
    }
}

fn failure(identity: &str, selector: &str) -> TransactionRecord {
    TransactionRecord {
        identity: identity.to_string(),
        selector: selector.to_string(),
        outcome: RecordedOutcome::Failure,
    }
}

#[test]
fn empty_store_knows_nothing() {
    let state = StateManager::from(Some(Vec::new()));
    assert!(state.persistent());
    assert_eq!(state.get_output_if_success("abc"), None);
    assert!(state.new_entries().is_empty());
}

#[test]
fn loaded_success_is_found() {
    let state = StateManager::from(Some(vec![
        success("aa", "declare", &[1, 2]),
        success("bb", "deploy", &[3]),
    ]));
    assert_eq!(state.get_output_if_success("aa"), Some(felts(&[1, 2])));
    assert_eq!(state.get_output_if_success("bb"), Some(felts(&[3])));
    assert_eq!(state.get_output_if_success("cc"), None);
    assert!(state.new_entries().is_empty());
}

#[test]
fn recorded_failure_is_not_returned() {
    let state = StateManager::from(Some(vec![failure("aa", "declare")]));
    assert_eq!(state.get_output_if_success("aa"), None);
}

#[test]
fn later_entry_decides() {
    let state = StateManager::from(Some(vec![
        failure("aa", "declare"),
        success("aa", "declare", &[9]),
    ]));
    assert_eq!(state.get_output_if_success("aa"), Some(felts(&[9])));
    let state = StateManager::from(Some(vec![
        success("aa", "declare", &[9]),
        failure("aa", "declare"),
    ]));
    assert_eq!(state.get_output_if_success("aa"), None);
}

#[test]
fn success_is_recorded() {
    let mut state = StateManager::from(Some(vec![success("aa", "declare", &[1])]));
    let inserted = state.maybe_insert_tx_entry("bb", "invoke", &Ok(felts(&[5, 6])));
    assert!(inserted);
    assert_eq!(state.get_output_if_success("bb"), Some(felts(&[5, 6])));
    assert_eq!(state.get_output_if_success("aa"), Some(felts(&[1])));
    assert_eq!(state.new_entries(), vec![success("bb", "invoke", &[5, 6])]);
}

#[test]
fn success_replaces_a_recorded_failure() {
    let mut state = StateManager::from(Some(vec![failure("aa", "declare")]));
    assert!(state.maybe_insert_tx_entry("aa", "declare", &Ok(felts(&[4]))));
    assert_eq!(state.get_output_if_success("aa"), Some(felts(&[4])));
}

#[test]
fn failure_is_not_recorded() {
    let mut state = StateManager::from(Some(Vec::new()));
    let inserted = state.maybe_insert_tx_entry("bb", "invoke", &Err(felts(&[7])));
    assert!(!inserted);
    assert_eq!(state.get_output_if_success("bb"), None);
    assert!(state.new_entries().is_empty());
}

#[test]
fn store_without_file_discards_what_it_is_told() {
    let mut state = StateManager::from(None);
    assert!(!state.persistent());
    assert!(!state.maybe_insert_tx_entry("bb", "invoke", &Ok(felts(&[5]))));
    assert_eq!(state.get_output_if_success("bb"), None);
    assert!(state.new_entries().is_empty());
}

#[test]
fn new_entries_come_in_order() {
    let mut state = StateManager::from(Some(vec![success("aa", "declare", &[1])]));
    state.maybe_insert_tx_entry("bb", "deploy", &Ok(felts(&[2])));
    state.maybe_insert_tx_entry("cc", "invoke", &Ok(felts(&[])));
    assert_eq!(
        state.new_entries(),
        vec![success("bb", "deploy", &[2]), success("cc", "invoke", &[])]
    );
}

#[test]
fn duplicate_keeps_the_record() {
    let record = success("aa", "declare", &[1, 2, 3]);
    assert_eq!(record.duplicate(), record);
    assert_eq!(RecordedOutcome::Failure.duplicate(), RecordedOutcome::Failure);
}
