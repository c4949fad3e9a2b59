use sncast_script::document::{
    find_entry, find_field, merge_success, read_entries, read_entry, set_field, write_success,
    EntryField, FieldValue, FileEntry,
};
use sncast_script::felt::Felt;
use sncast_script::state::{RecordedOutcome, StateManager, TransactionRecord};

fn felts(values: &[u64]) -> Vec<Felt> {
    values.iter().map(|v| Felt::from_u64(*v)).collect()
}

fn text(name: &str, value: &str) -> EntryField {
    EntryField { name: name.to_string(), value: FieldValue::Text(value.to_string()) }
}

fn unknown(name: &str, raw: &str) -> EntryField {
    EntryField { name: name.to_string(), value: FieldValue::Unknown(raw.to_string()) }
}

fn output(values: &[u64]) -> EntryField {
    EntryField { name: "output".to_string(), value: FieldValue::Felts(felts(values)) }
}

fn entry(identity: &str, fields: Vec<EntryField>) -> FileEntry {
    FileEntry { identity: identity.to_string(), fields }
}

#[test]
fn entry_with_success_is_read() {
    let file_entry = entry(
        "aa",
        vec![text("name", "declare"), output(&[1, 2]), text("status", "success"), unknown("timestamp", "17")],
    );
    assert_eq!(
        read_entry(&file_entry),
        TransactionRecord {
            identity: "aa".to_string(),
            selector: "declare".to_string(),
            outcome: RecordedOutcome::Success(felts(&[1, 2])),
        }
    );
}

#[test]
fn entry_that_is_no_success_reads_as_failure() {
    let failed = entry("aa", vec![text("name", "invoke"), text("status", "error"), output(&[1])]);
    assert_eq!(read_entry(&failed).outcome, RecordedOutcome::Failure);
    let no_output = entry("aa", vec![text("name", "invoke"), text("status", "success")]);
    assert_eq!(read_entry(&no_output).outcome, RecordedOutcome::Failure);
    let odd_output =
        entry("aa", vec![text("status", "success"), unknown("output", "{\"type\":\"x\"}")]);
    assert_eq!(read_entry(&odd_output).outcome, RecordedOutcome::Failure);
    let empty = entry("aa", vec![]);
    assert_eq!(
        read_entry(&empty),
        TransactionRecord {
            identity: "aa".to_string(),
            selector: String::new(),
            outcome: RecordedOutcome::Failure,
        }
    );
}

#[test]
fn entries_are_read_in_order() {
    let entries = vec![
        entry("aa", vec![text("name", "declare"), text("status", "success"), output(&[1])]),
        entry("bb", vec![text("name", "deploy"), text("status", "error")]),
    ];
    let records = read_entries(&entries);
    assert_eq!(records.len(), 2);
    assert_eq!(records[0].identity, "aa");
    assert_eq!(records[1].outcome, RecordedOutcome::Failure);
    let state = StateManager::from(Some(records));
    assert_eq!(state.get_output_if_success("aa"), Some(felts(&[1])));
    assert_eq!(state.get_output_if_success("bb"), None);
}

#[test]
fn fields_are_found_by_name() {
    let fields = vec![text("name", "a"), text("status", "b"), text("name", "c")];
    assert_eq!(find_field(&fields, "name"), Some(0));
    assert_eq!(find_field(&fields, "status"), Some(1));
    assert_eq!(find_field(&fields, "output"), None);
}

#[test]
fn set_field_replaces_in_place_or_adds_at_the_end() {
    let mut fields = vec![text("name", "a"), unknown("misc", "null")];
    set_field(&mut fields, "name", FieldValue::Text("b".to_string()));
    assert_eq!(fields, vec![text("name", "b"), unknown("misc", "null")]);
    set_field(&mut fields, "status", FieldValue::Text("success".to_string()));
    assert_eq!(fields, vec![text("name", "b"), unknown("misc", "null"), text("status", "success")]);
}

#[test]
fn success_is_written_beside_unknown_fields() {
    let mut fields = vec![
        unknown("timestamp", "1706093159"),
        text("status", "error"),
        unknown("misc", "{\"retries\":2}"),
        text("name", "deploy"),
    ];
    write_success(&mut fields, "deploy", &felts(&[7]));
    assert_eq!(
        fields,
        vec![
            unknown("timestamp", "1706093159"),
            text("status", "success"),
            unknown("misc", "{\"retries\":2}"),
            text("name", "deploy"),
            output(&[7]),
        ]
    );
}

#[test]
fn merge_adds_an_entry_for_a_new_transaction() {
    let mut entries = vec![entry("aa", vec![text("name", "declare"), unknown("misc", "1")])];
    let at = merge_success(&mut entries, "bb", "invoke", &felts(&[5, 6]));
    assert_eq!(at, 1);
    assert_eq!(
        entries,
        vec![
            entry("aa", vec![text("name", "declare"), unknown("misc", "1")]),
            entry("bb", vec![text("name", "invoke"), text("status", "success"), output(&[5, 6])]),
        ]
    );
    assert_eq!(
        read_entry(&entries[1]),
        TransactionRecord {
            identity: "bb".to_string(),
            selector: "invoke".to_string(),
            outcome: RecordedOutcome::Success(felts(&[5, 6])),
        }
    );
}

#[test]
fn merge_keeps_what_it_does_not_write() {
    let mut entries = vec![
        entry("aa", vec![text("name", "declare"), unknown("misc", "1")]),
        entry("bb", vec![unknown("added_by_a_later_version", "[1,2]"), text("status", "error")]),
        entry("cc", vec![unknown("x", "true")]),
    ];
    let at = merge_success(&mut entries, "bb", "invoke", &felts(&[9]));
    assert_eq!(at, 1);
    assert_eq!(
        entries,
        vec![
            entry("aa", vec![text("name", "declare"), unknown("misc", "1")]),
            entry(
                "bb",
                vec![
                    unknown("added_by_a_later_version", "[1,2]"),
                    text("status", "success"),
                    text("name", "invoke"),
                    output(&[9]),
                ]
            ),
            entry("cc", vec![unknown("x", "true")]),
        ]
    );
}

#[test]
fn merge_into_an_empty_file() {
    let mut entries = Vec::new();
    assert_eq!(merge_success(&mut entries, "aa", "declare", &[]), 0);
    assert_eq!(find_entry(&entries, "aa"), Some(0));
    assert_eq!(find_entry(&entries, "bb"), None);
    assert_eq!(read_entry(&entries[0]).outcome, RecordedOutcome::Success(Vec::new()));
}
