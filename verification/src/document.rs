//! The entries of the state file as the file holds them: each with the
//! fields that this library reads and writes, and with whatever other
//! fields the file has, which are kept as they are.
//!
//! A run adds to the file by merging: the entry of a transaction gets its
//! name, its status and its output, and nothing else in the file changes.

use crate::felt::{copy_felts, Felt};
use crate::state::{OutcomeView, RecordView, RecordedOutcome, TransactionRecord};
use crate::text::str_eq;
use vstd::prelude::*;
use vstd::string::StringExecFns;

verus! {

/// The value of a field of an entry.
#[derive(Debug, PartialEq, Eq)]
pub enum FieldValue {
    /// A text.
    Text(String),
    /// A list of felts.
    Felts(Vec<Felt>),
    /// Anything else, kept in the form in which the file holds it.
    Unknown(String),
}

/// A field's value as a mathematical value.
pub enum FieldValueView {
    Text(Seq<char>),
    Felts(Seq<Felt>),
    Unknown(Seq<char>),
}

impl View for FieldValue {
    type V = FieldValueView;

    open spec fn view(&self) -> FieldValueView {
        match self {
            FieldValue::Text(text) => FieldValueView::Text(text@),
            FieldValue::Felts(felts) => FieldValueView::Felts(felts@),
            FieldValue::Unknown(raw) => FieldValueView::Unknown(raw@),
        }
    }
}

/// One field of an entry.
#[derive(Debug, PartialEq, Eq)]
pub struct EntryField {
    pub name: String,
    pub value: FieldValue,
}

/// One entry of the state file: a transaction's identifier and its fields,
/// in the order of the file.
#[derive(Debug, PartialEq, Eq)]
pub struct FileEntry {
    pub identity: String,
    pub fields: Vec<EntryField>,
}

/// Whether the field at `at` is the first with this name.
pub open spec fn is_first_field(fields: Seq<EntryField>, name: Seq<char>, at: int) -> bool {
    &&& 0 <= at < fields.len()
    &&& fields[at].name@ == name
    &&& forall|j: int| 0 <= j < at ==> (#[trigger] fields[j]).name@ != name
}

/// The value of the first field with this name, if there is one.
pub open spec fn field_value(fields: Seq<EntryField>, name: Seq<char>) -> Option<FieldValueView> {
    if exists|at: int| is_first_field(fields, name, at) {
        Some(fields[choose|at: int| is_first_field(fields, name, at)].value@)
    } else {
        None
    }
}

/// The name under which an entry was recorded: its field `name`.
pub open spec fn entry_selector(fields: Seq<EntryField>) -> Seq<char> {
    match field_value(fields, "name"@) {
        Some(FieldValueView::Text(text)) => text,
        _ => Seq::empty(),
    }
}

/// What an entry records: a success where its field `status` says so and
/// its field `output` holds the felts, and a failure in any other case.
pub open spec fn entry_outcome(fields: Seq<EntryField>) -> OutcomeView {
    match (field_value(fields, "status"@), field_value(fields, "output"@)) {
        (Some(FieldValueView::Text(status)), Some(FieldValueView::Felts(output))) => if status
            == "success"@ {
            OutcomeView::Success(output)
        } else {
            OutcomeView::Failure
        },
        _ => OutcomeView::Failure,
    }
}

/// Whether a field is one that this library writes.
pub open spec fn is_written_field(name: Seq<char>) -> bool {
    name == "name"@ || name == "status"@ || name == "output"@
}

/// The three fields that this library writes have three different names.
proof fn lemma_written_names_differ()
    ensures
        "name"@ != "status"@,
        "name"@ != "output"@,
        "status"@ != "output"@,
{
    reveal_strlit("name");
    reveal_strlit("status");
    reveal_strlit("output");
    assert("name"@.len() != "status"@.len());
    assert("name"@.len() != "output"@.len());
    assert("status"@[0] != "output"@[0]);
}

/// The first field with a name is the one that its value is read from.
proof fn lemma_field_value_at(fields: Seq<EntryField>, name: Seq<char>, at: int)
    requires
        is_first_field(fields, name, at),
    ensures
        field_value(fields, name) == Some(fields[at].value@),
{
    let chosen = choose|k: int| is_first_field(fields, name, k);
    assert(chosen == at) by {
        if chosen < at {
            assert(fields[chosen].name@ != name);
        }
        if at < chosen {
            assert(fields[at].name@ != name);
        }
    }
}

/// Where no field has a name, no value is read for it.
proof fn lemma_field_value_absent(fields: Seq<EntryField>, name: Seq<char>)
    requires
        forall|j: int| 0 <= j < fields.len() ==> (#[trigger] fields[j]).name@ != name,
    ensures
        field_value(fields, name) is None,
{
}

/// The place of the first field with this name.
pub fn find_field(fields: &Vec<EntryField>, name: &str) -> (found: Option<usize>)
    ensures
        match found {
            Some(at) => is_first_field(fields@, name@, at as int),
            None => forall|j: int| 0 <= j < fields.len() ==> (#[trigger] fields@[j]).name@ != name@,
        },
{
    let mut i: usize = 0;
    while i < fields.len()
        invariant
            i <= fields.len(),
            forall|j: int| 0 <= j < i ==> (#[trigger] fields@[j]).name@ != name@,
        decreases fields.len() - i,
    {
        if str_eq(fields[i].name.as_str(), name) {
            return Some(i);
        }
        i = i + 1;
    }
    None
}

/// Sets a field: the first field with the name gets the value, and where
/// there is none the field is added at the end. No other field changes, and
/// none changes its place.
pub fn set_field(fields: &mut Vec<EntryField>, name: &str, value: FieldValue)
    ensures
        final(fields).len() >= old(fields).len(),
        forall|i: int|
            0 <= i < old(fields).len() ==> (#[trigger] final(fields)@[i]).name@ == old(
                fields,
            )@[i].name@,
        forall|i: int|
            0 <= i < old(fields).len() && old(fields)@[i].name@ != name@ ==> (
            #[trigger] final(fields)@[i]) == old(fields)@[i],
        final(fields).len() == old(fields).len() + if field_value(old(fields)@, name@) is Some {
            0int
        } else {
            1int
        },
        field_value(final(fields)@, name@) == Some(value@),
        forall|other: Seq<char>|
            other != name@ ==> #[trigger] field_value(final(fields)@, other) == field_value(
                old(fields)@,
                other,
            ),
{
    let ghost before = fields@;
    let found = find_field(fields, name);
    let field = EntryField { name: String::from_str(name), value };
    match found {
        Some(at) => {
            fields[at] = field;
            proof {
                lemma_field_value_at(before, name@, at as int);
                assert(is_first_field(fields@, name@, at as int));
                lemma_field_value_at(fields@, name@, at as int);
            }
        },
        None => {
            fields.push(field);
            proof {
                lemma_field_value_absent(before, name@);
                assert(is_first_field(fields@, name@, before.len() as int));
                lemma_field_value_at(fields@, name@, before.len() as int);
            }
        },
    }
    proof {
        assert forall|other: Seq<char>| other != name@ implies #[trigger] field_value(
            fields@,
            other,
        ) == field_value(before, other) by {
            lemma_other_field_kept(before, fields@, name@, other);
        }
    }
}

/// A field list that differs from another only in fields of one name, and
/// in such a field at its end, reads the same for every other name.
proof fn lemma_other_field_kept(
    before: Seq<EntryField>,
    after: Seq<EntryField>,
    name: Seq<char>,
    other: Seq<char>,
)
    requires
        other != name,
        before.len() <= after.len() <= before.len() + 1,
        forall|i: int| 0 <= i < before.len() ==> (#[trigger] after[i]).name@ == before[i].name@,
        forall|i: int|
            0 <= i < before.len() && before[i].name@ != name ==> (#[trigger] after[i])
                == before[i],
        after.len() > before.len() ==> after[before.len() as int].name@ == name,
    ensures
        field_value(after, other) == field_value(before, other),
{
    if exists|at: int| is_first_field(before, other, at) {
        let at = choose|at: int| is_first_field(before, other, at);
        assert(is_first_field(after, other, at)) by {
            assert(after[at].name@ == before[at].name@);
            assert forall|j: int| 0 <= j < at implies (#[trigger] after[j]).name@ != other by {
                assert(before[j].name@ != other);
            }
        }
        lemma_field_value_at(before, other, at);
        lemma_field_value_at(after, other, at);
        assert(after[at] == before[at]);
    } else {
        assert forall|at: int| !is_first_field(after, other, at) by {
            if is_first_field(after, other, at) {
                assert(at < before.len());
                assert(after[at].name@ == before[at].name@);
                assert(is_first_field(before, other, at)) by {
                    assert forall|j: int| 0 <= j < at implies (#[trigger] before[j]).name@
                        != other by {
                        assert(after[j].name@ != other);
                    }
                }
            }
        }
    }
}

/// Reads what an entry records.
pub fn read_entry(entry: &FileEntry) -> (record: TransactionRecord)
    ensures
        record.identity@ == entry.identity@,
        record@ == (RecordView {
            selector: entry_selector(entry.fields@),
            outcome: entry_outcome(entry.fields@),
        }),
{
    let selector = match find_field(&entry.fields, "name") {
        Some(at) => {
            proof {
                lemma_field_value_at(entry.fields@, "name"@, at as int);
            }
            match &entry.fields[at].value {
                FieldValue::Text(text) => text.clone(),
                _ => String::new(),
            }
        },
        None => {
            proof {
                lemma_field_value_absent(entry.fields@, "name"@);
            }
            String::new()
        },
    };
    let status = find_field(&entry.fields, "status");
    let output = find_field(&entry.fields, "output");
    proof {
        match status {
            Some(at) => lemma_field_value_at(entry.fields@, "status"@, at as int),
            None => lemma_field_value_absent(entry.fields@, "status"@),
        }
        match output {
            Some(at) => lemma_field_value_at(entry.fields@, "output"@, at as int),
            None => lemma_field_value_absent(entry.fields@, "output"@),
        }
    }
    let outcome = match (status, output) {
        (Some(s), Some(o)) => match (&entry.fields[s].value, &entry.fields[o].value) {
            (FieldValue::Text(text), FieldValue::Felts(felts)) => if str_eq(
                text.as_str(),
                "success",
            ) {
                RecordedOutcome::Success(copy_felts(felts.as_slice()))
            } else {
                RecordedOutcome::Failure
            },
            _ => RecordedOutcome::Failure,
        },
        _ => RecordedOutcome::Failure,
    };
    TransactionRecord { identity: entry.identity.clone(), selector, outcome }
}

/// Reads what the entries record, in their order.
pub fn read_entries(entries: &Vec<FileEntry>) -> (records: Vec<TransactionRecord>)
    ensures
        records.len() == entries.len(),
        forall|i: int|
            0 <= i < entries.len() ==> (#[trigger] records@[i]).identity@ == entries@[i].identity@
                && records@[i]@ == (RecordView {
                selector: entry_selector(entries@[i].fields@),
                outcome: entry_outcome(entries@[i].fields@),
            }),
{
    let mut records: Vec<TransactionRecord> = Vec::new();
    let mut i: usize = 0;
    while i < entries.len()
        invariant
            i <= entries.len(),
            records.len() == i,
            forall|k: int|
                0 <= k < i ==> (#[trigger] records@[k]).identity@ == entries@[k].identity@
                    && records@[k]@ == (RecordView {
                    selector: entry_selector(entries@[k].fields@),
                    outcome: entry_outcome(entries@[k].fields@),
                }),
        decreases entries.len() - i,
    {
        records.push(read_entry(&entries[i]));
        i = i + 1;
    }
    records
}

/// The place of the first entry with this identifier.
pub fn find_entry(entries: &Vec<FileEntry>, identity: &str) -> (found: Option<usize>)
    ensures
        match found {
            Some(at) => {
                &&& at < entries.len()
                &&& entries@[at as int].identity@ == identity@
                &&& forall|j: int|
                    0 <= j < at ==> (#[trigger] entries@[j]).identity@ != identity@
            },
            None => forall|j: int|
                0 <= j < entries.len() ==> (#[trigger] entries@[j]).identity@ != identity@,
        },
{
    let mut i: usize = 0;
    while i < entries.len()
        invariant
            i <= entries.len(),
            forall|j: int| 0 <= j < i ==> (#[trigger] entries@[j]).identity@ != identity@,
        decreases entries.len() - i,
    {
        if str_eq(entries[i].identity.as_str(), identity) {
            return Some(i);
        }
        i = i + 1;
    }
    None
}

/// Writes a success into an entry's fields: its name, its status and its
/// output. Every other field stays as it is, in its place.
pub fn write_success(fields: &mut Vec<EntryField>, selector: &str, output: &[Felt])
    ensures
        entry_selector(final(fields)@) == selector@,
        entry_outcome(final(fields)@) == OutcomeView::Success(output@),
        final(fields).len() >= old(fields).len(),
        forall|i: int|
            0 <= i < old(fields).len() ==> (#[trigger] final(fields)@[i]).name@ == old(
                fields,
            )@[i].name@,
        forall|i: int|
            0 <= i < old(fields).len() && !is_written_field(old(fields)@[i].name@) ==> (
            #[trigger] final(fields)@[i]) == old(fields)@[i],
        forall|other: Seq<char>|
            !is_written_field(other) ==> #[trigger] field_value(final(fields)@, other)
                == field_value(old(fields)@, other),
{
    proof {
        lemma_written_names_differ();
    }
    set_field(fields, "name", FieldValue::Text(String::from_str(selector)));
    let ghost named = fields@;
    set_field(fields, "status", FieldValue::Text(String::from_str("success")));
    let ghost marked = fields@;
    set_field(fields, "output", FieldValue::Felts(copy_felts(output)));
    proof {
        assert(field_value(fields@, "name"@) == field_value(named, "name"@));
        assert(field_value(fields@, "status"@) == field_value(marked, "status"@));
        assert forall|i: int|
            0 <= i < old(fields).len() && !is_written_field(
                old(fields)@[i].name@,
            ) implies (#[trigger] fields@[i]) == old(fields)@[i] by {
            assert(named[i] == old(fields)@[i]);
            assert(marked[i] == named[i]);
        }
        assert forall|i: int| 0 <= i < old(fields).len() implies (#[trigger] fields@[i]).name@
            == old(fields)@[i].name@ by {
            assert(named[i].name@ == old(fields)@[i].name@);
            assert(marked[i].name@ == named[i].name@);
        }
        assert forall|other: Seq<char>| !is_written_field(other) implies #[trigger] field_value(
            fields@,
            other,
        ) == field_value(old(fields)@, other) by {
            assert(field_value(named, other) == field_value(old(fields)@, other));
            assert(field_value(marked, other) == field_value(named, other));
        }
    }
}

/// Merges a success into the entries of the file. The first entry with the
/// identifier gets the name, the status and the output, and where there is
/// none an entry with these three fields is added at the end. No other
/// entry changes, no entry changes its place, and the fields of the entry
/// that this library does not write stay as they are.
pub fn merge_success(
    entries: &mut Vec<FileEntry>,
    identity: &str,
    selector: &str,
    output: &[Felt],
) -> (at: usize)
    ensures
        at < final(entries).len(),
        final(entries).len() >= old(entries).len(),
        final(entries)@[at as int].identity@ == identity@,
        forall|j: int| 0 <= j < at ==> (#[trigger] final(entries)@[j]).identity@ != identity@,
        entry_selector(final(entries)@[at as int].fields@) == selector@,
        entry_outcome(final(entries)@[at as int].fields@) == OutcomeView::Success(output@),
        forall|i: int|
            0 <= i < old(entries).len() && i != at ==> (#[trigger] final(entries)@[i]) == old(
                entries,
            )@[i],
        at < old(entries).len() ==> {
            &&& final(entries).len() == old(entries).len()
            &&& old(entries)@[at as int].identity@ == identity@
            &&& final(entries)@[at as int].fields.len() >= old(entries)@[at as int].fields.len()
            &&& forall|i: int|
                0 <= i < old(entries)@[at as int].fields.len() ==> (
                #[trigger] final(entries)@[at as int].fields@[i]).name@ == old(
                    entries,
                )@[at as int].fields@[i].name@
            &&& forall|i: int|
                0 <= i < old(entries)@[at as int].fields.len() && !is_written_field(
                    old(entries)@[at as int].fields@[i].name@,
                ) ==> (#[trigger] final(entries)@[at as int].fields@[i]) == old(
                    entries,
                )@[at as int].fields@[i]
            &&& forall|other: Seq<char>|
                !is_written_field(other) ==> #[trigger] field_value(
                    final(entries)@[at as int].fields@,
                    other,
                ) == field_value(old(entries)@[at as int].fields@, other)
        },
        at >= old(entries).len() ==> {
            &&& at == old(entries).len()
            &&& final(entries).len() == old(entries).len() + 1
            &&& final(entries)@[at as int].fields.len() == 3
        },
{
    match find_entry(entries, identity) {
        Some(at) => {
            let ghost before = entries@;
            let FileEntry { identity: kept, mut fields } = entries.remove(at);
            write_success(&mut fields, selector, output);
            entries.insert(at, FileEntry { identity: kept, fields });
            proof {
                assert forall|i: int| 0 <= i < before.len() && i != at implies (
                #[trigger] entries@[i]) == before[i] by {
                    if i < at {
                        assert(before.remove(at as int)[i] == before[i]);
                    } else {
                        assert(before.remove(at as int)[i - 1] == before[i]);
                    }
                }
            }
            at
        },
        None => {
            let mut fields: Vec<EntryField> = Vec::new();
            write_fresh(&mut fields, selector, output);
            let at = entries.len();
            entries.push(FileEntry { identity: String::from_str(identity), fields });
            at
        },
    }
}

/// Writes the three fields of a success into an empty field list.
fn write_fresh(fields: &mut Vec<EntryField>, selector: &str, output: &[Felt])
    requires
        old(fields).len() == 0,
    ensures
        final(fields).len() == 3,
        entry_selector(final(fields)@) == selector@,
        entry_outcome(final(fields)@) == OutcomeView::Success(output@),
{
    proof {
        lemma_written_names_differ();
        lemma_field_value_absent(fields@, "name"@);
    }
    set_field(fields, "name", FieldValue::Text(String::from_str(selector)));
    let ghost named = fields@;
    set_field(fields, "status", FieldValue::Text(String::from_str("success")));
    let ghost marked = fields@;
    set_field(fields, "output", FieldValue::Felts(copy_felts(output)));
    proof {
        assert(field_value(fields@, "name"@) == field_value(named, "name"@));
        assert(field_value(fields@, "status"@) == field_value(marked, "status"@));
        assert(field_value(named, "status"@) == field_value(old(fields)@, "status"@));
        assert(field_value(marked, "output"@) == field_value(named, "output"@));
        assert(field_value(named, "output"@) == field_value(old(fields)@, "output"@));
        lemma_field_value_absent(old(fields)@, "status"@);
        lemma_field_value_absent(old(fields)@, "output"@);
    }
}

} // verus!
