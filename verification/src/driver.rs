//! The parts of driving a script that are decided here: which function of
//! the program is the script's entry point, with what argument it is
//! called, and what is reported of how the run ended.

use crate::felt::{as_cairo_short_string, be_nat, short_string, Felt};
use crate::text::{hex_char, hex_digit};
use vstd::prelude::*;
use vstd::string::{StrSliceExecFns, StringExecFns};

verus! {

/// Why a script could not be run, or did not run to its end.
#[derive(Debug, PartialEq, Eq)]
pub enum DriverError {
    /// The program has no function with the name of the script's entry
    /// point.
    MainFunctionNotFound,
    /// The interpreter failed: a fault of the machine, not a panic of the
    /// script.
    InterpreterFault(String),
}

impl DriverError {
    /// The text shown to the user for this error.
    pub fn message(&self) -> (text: String)
        ensures
            text@ == match self {
                DriverError::MainFunctionNotFound =>
                    "Failed to find main function in script - please make sure `sierra-replace-ids` is not set to `false` for `dev` profile in script's Scarb.toml"@,
                DriverError::InterpreterFault(fault) => fault@,
            },
    {
        match self {
            DriverError::MainFunctionNotFound => String::from_str(
                "Failed to find main function in script - please make sure `sierra-replace-ids` is not set to `false` for `dev` profile in script's Scarb.toml",
            ),
            DriverError::InterpreterFault(fault) => fault.clone(),
        }
    }
}

/// How the interpreter's run of a script ended, where it ran to an end.
#[derive(Debug, PartialEq, Eq)]
pub enum RunResultValue {
    /// The script returned, with these values.
    Success(Vec<Felt>),
    /// The script panicked, with this payload.
    Panic(Vec<Felt>),
}

/// What is reported of a script run.
#[derive(Debug, PartialEq, Eq)]
pub struct ScriptRunResponse {
    pub status: String,
    pub message: Option<String>,
}

/// Whether `name` ends with `suffix`.
pub open spec fn ends_with(name: Seq<char>, suffix: Seq<char>) -> bool {
    name.len() >= suffix.len() && name.subrange(name.len() - suffix.len(), name.len() as int)
        == suffix
}

/// The end of the name of a script's entry point: the function `main` of
/// the script's module.
pub open spec fn main_suffix(module_name: Seq<char>) -> Seq<char> {
    module_name + "::main"@
}

/// The end of the name of a script's entry point.
pub fn main_function_suffix(module_name: &str) -> (suffix: String)
    ensures
        suffix@ == main_suffix(module_name@),
{
    String::from_str(module_name).concat("::main")
}

fn name_ends_with(name: &str, suffix: &str) -> (ends: bool)
    ensures
        ends == ends_with(name@, suffix@),
{
    let name_len = name.unicode_len();
    let suffix_len = suffix.unicode_len();
    if name_len < suffix_len {
        return false;
    }
    let shift = name_len - suffix_len;
    let mut i: usize = 0;
    while i < suffix_len
        invariant
            i <= suffix_len,
            name_len == name@.len(),
            suffix_len == suffix@.len(),
            shift == name_len - suffix_len,
            forall|k: int| 0 <= k < i ==> name@[shift + k] == suffix@[k],
        decreases suffix_len - i,
    {
        if name.get_char(shift + i) != suffix.get_char(i) {
            assert(name@.subrange(shift as int, name_len as int)[i as int] != suffix@[i as int]);
            return false;
        }
        i = i + 1;
    }
    assert(name@.subrange(shift as int, name_len as int) =~= suffix@);
    true
}

/// Finds the script's entry point among the functions of the program: the
/// first whose name ends with the module's name and `::main`. The names are
/// those that the program carries for its functions; a program whose names
/// were stripped has no entry point that can be found.
pub fn find_main_function(function_names: &Vec<String>, module_name: &str) -> (found: Result<
    usize,
    DriverError,
>)
    ensures
        match found {
            Ok(index) => {
                &&& index < function_names.len()
                &&& ends_with(function_names@[index as int]@, main_suffix(module_name@))
                &&& forall|j: int|
                    0 <= j < index ==> !ends_with(
                        (#[trigger] function_names@[j])@,
                        main_suffix(module_name@),
                    )
            },
            Err(e) => {
                &&& e == DriverError::MainFunctionNotFound
                &&& forall|j: int|
                    0 <= j < function_names.len() ==> !ends_with(
                        (#[trigger] function_names@[j])@,
                        main_suffix(module_name@),
                    )
            },
        },
{
    let suffix = main_function_suffix(module_name);
    let mut i: usize = 0;
    while i < function_names.len()
        invariant
            i <= function_names.len(),
            suffix@ == main_suffix(module_name@),
            forall|j: int|
                0 <= j < i ==> !ends_with(
                    (#[trigger] function_names@[j])@,
                    main_suffix(module_name@),
                ),
        decreases function_names.len() - i,
    {
        if name_ends_with(function_names[i].as_str(), suffix.as_str()) {
            return Ok(i);
        }
        i = i + 1;
    }
    Err(DriverError::MainFunctionNotFound)
}

/// The one argument that a script's entry point is called with: the
/// largest value of a signed number of 64 bits.
pub fn sentinel_argument() -> (argument: Felt)
    ensures
        argument.value() == i64::MAX,
{
    Felt::from_u64(0x7fff_ffff_ffff_ffff)
}

/// The hexadecimal digits of a number, without leading zeros.
pub open spec fn hex_digits(n: nat) -> Seq<char>
    decreases n,
{
    if n < 16 {
        seq![hex_digit(n as int)]
    } else {
        hex_digits(n / 16).push(hex_digit((n % 16) as int))
    }
}

/// The digits written so far while a number is read from its most
/// significant digit: none while it is zero.
pub open spec fn digits_so_far(n: nat) -> Seq<char> {
    if n == 0 {
        Seq::empty()
    } else {
        hex_digits(n)
    }
}

proof fn lemma_next_digit(n: nat, digit: nat)
    requires
        digit < 16,
    ensures
        digits_so_far(n * 16 + digit) == if n == 0 && digit == 0 {
            Seq::<char>::empty()
        } else {
            digits_so_far(n).push(hex_digit(digit as int))
        },
{
    if n > 0 {
        let next = n * 16 + digit;
        assert(next / 16 == n && next % 16 == digit);
    } else if digit > 0 {
        assert(Seq::<char>::empty().push(hex_digit(digit as int)) =~= seq![
            hex_digit(digit as int),
        ]);
    }
}

/// How one felt reads: its value in hexadecimal, and behind it, in brackets
/// and quotes, the short string that it spells, where it spells one that is
/// not empty.
pub open spec fn readable_felt(felt: Felt) -> Seq<char> {
    let number = "0x"@ + hex_digits(felt.value());
    match short_string(felt@) {
        Some(text) if text.len() > 0 => number + " ('"@ + text + "')"@,
        _ => number,
    }
}

/// The felts as they read, with a comma and a blank between them.
pub open spec fn readable_list(data: Seq<Felt>) -> Seq<char>
    decreases data.len(),
{
    if data.len() == 0 {
        Seq::empty()
    } else if data.len() == 1 {
        readable_felt(data[0])
    } else {
        readable_list(data.drop_last()) + ", "@ + readable_felt(data.last())
    }
}

/// The text for a list of felts: none for an empty list, else a line of
/// its own, indented, with the felts as they read.
pub open spec fn readable_text(data: Seq<Felt>) -> Option<Seq<char>> {
    if data.len() == 0 {
        None
    } else {
        Some("\n    "@ + readable_list(data) + "\n"@)
    }
}

/// Appends the value of a felt in hexadecimal.
fn push_hex(out: &mut String, felt: &Felt)
    ensures
        final(out)@ == old(out)@ + hex_digits(felt.value()),
{
    let bytes = felt.to_bytes_be();
    proof {
        felt.lemma_len();
        assert(bytes@.take(0) =~= Seq::<u8>::empty());
    }
    let mut i: usize = 0;
    let mut written: bool = false;
    while i < 32
        invariant
            i <= 32,
            bytes@ == felt@,
            bytes@.len() == 32,
            written == (be_nat(bytes@.take(i as int)) != 0),
            out@ == old(out)@ + digits_so_far(be_nat(bytes@.take(i as int))),
        decreases 32 - i,
    {
        let byte = bytes[i];
        let high = byte / 16;
        let low = byte % 16;
        proof {
            let before = be_nat(bytes@.take(i as int));
            assert(bytes@.take(i + 1).drop_last() =~= bytes@.take(i as int));
            assert(be_nat(bytes@.take(i + 1)) == before * 256 + byte);
            lemma_next_digit(before, high as nat);
            lemma_next_digit((before * 16 + high) as nat, low as nat);
            assert((before * 16 + high) * 16 + low == before * 256 + byte);
        }
        if written || high != 0 {
            out.push(hex_char(high));
            written = true;
        }
        if written || low != 0 {
            out.push(hex_char(low));
            written = true;
        }
        proof {
            let before = be_nat(bytes@.take(i as int));
            let middle = (before * 16 + high) as nat;
            let after = (before * 256 + byte) as nat;
            assert(old(out)@ + digits_so_far(before).push(hex_digit(high as int)) =~= (old(out)@
                + digits_so_far(before)).push(hex_digit(high as int)));
            assert(old(out)@ + digits_so_far(middle).push(hex_digit(low as int)) =~= (old(out)@
                + digits_so_far(middle)).push(hex_digit(low as int)));
            assert(out@ =~= old(out)@ + digits_so_far(after));
        }
        i = i + 1;
    }
    assert(bytes@.take(32) =~= bytes@);
    if !written {
        out.push('0');
        assert(out@ =~= old(out)@ + hex_digits(0));
    }
}

/// Appends a felt as it reads.
fn push_readable_felt(out: &mut String, felt: &Felt)
    ensures
        final(out)@ == old(out)@ + readable_felt(*felt),
{
    out.append("0x");
    push_hex(out, felt);
    match as_cairo_short_string(felt) {
        Some(text) => {
            if text.as_str().unicode_len() > 0 {
                out.append(" ('");
                out.append(text.as_str());
                out.append("')");
            }
        },
        None => {},
    }
    assert(out@ =~= old(out)@ + readable_felt(*felt));
}

/// The text for a list of felts, as a person reads it: each felt in
/// hexadecimal and, where it spells a short string, the string behind it.
/// There is no text for an empty list.
pub fn build_readable_text(data: &[Felt]) -> (text: Option<String>)
    ensures
        match text {
            Some(string) => readable_text(data@) == Some(string@),
            None => readable_text(data@) is None,
        },
{
    if data.len() == 0 {
        return None;
    }
    let mut out = String::from_str("\n    ");
    push_readable_felt(&mut out, &data[0]);
    proof {
        assert(data@.take(1).len() == 1);
        assert(data@.take(1)[0] == data@[0]);
    }
    let mut i: usize = 1;
    while i < data.len()
        invariant
            1 <= i <= data.len(),
            out@ == "\n    "@ + readable_list(data@.take(i as int)),
        decreases data.len() - i,
    {
        out.append(", ");
        push_readable_felt(&mut out, &data[i]);
        proof {
            let more = data@.take(i + 1);
            assert(more.drop_last() =~= data@.take(i as int));
            assert(more.last() == data@[i as int]);
            assert(out@ =~= "\n    "@ + readable_list(more));
        }
        i = i + 1;
    }
    assert(data@.take(data.len() as int) =~= data@);
    out.append("\n");
    Some(out)
}

/// The status and the payload of a run that came to an end.
pub open spec fn response_parts(value: RunResultValue) -> (Seq<char>, Seq<Felt>) {
    match value {
        RunResultValue::Success(data) => ("success"@, data@),
        RunResultValue::Panic(data) => ("script panicked"@, data@),
    }
}

/// What is reported of a run that came to an end: a return is a success, a
/// panic is a panic of the script, and either carries the values as text.
pub fn script_run_response(value: &RunResultValue) -> (response: ScriptRunResponse)
    ensures
        response.status@ == response_parts(*value).0,
        match response.message {
            Some(text) => readable_text(response_parts(*value).1) == Some(text@),
            None => readable_text(response_parts(*value).1) is None,
        },
{
    match value {
        RunResultValue::Success(data) => ScriptRunResponse {
            status: String::from_str("success"),
            message: build_readable_text(data.as_slice()),
        },
        RunResultValue::Panic(data) => ScriptRunResponse {
            status: String::from_str("script panicked"),
            message: build_readable_text(data.as_slice()),
        },
    }
}

/// What is reported once the interpreter is done. A fault of the
/// interpreter is an error of the run and never a response: a panic of the
/// script is the only thing reported as one.
pub fn finish_run(outcome: Result<RunResultValue, String>) -> (report: Result<
    ScriptRunResponse,
    DriverError,
>)
    ensures
        match outcome {
            Ok(value) => {
                &&& report matches Ok(response)
                &&& response.status@ == response_parts(value).0
                &&& match response.message {
                    Some(text) => readable_text(response_parts(value).1) == Some(text@),
                    None => readable_text(response_parts(value).1) is None,
                }
            },
            Err(fault) => report == Err::<ScriptRunResponse, DriverError>(
                DriverError::InterpreterFault(fault),
            ),
        },
{
    match outcome {
        Ok(value) => Ok(script_run_response(&value)),
        Err(fault) => Err(DriverError::InterpreterFault(fault)),
    }
}

} // verus!
