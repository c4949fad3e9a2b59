//! Building text one character at a time.

use vstd::prelude::*;
use vstd::string::StringExecFns;

verus! {

/// `String::push` of std appends the character to the end of the string and
/// leaves the rest of it as it was.
pub assume_specification[ String::push ](text: &mut String, ch: char)
    ensures
        final(text)@ == old(text)@.push(ch),
;

/// The character for a digit below sixteen, in lower case.
pub open spec fn hex_digit(digit: int) -> char {
    if digit == 0 {
        '0'
    } else if digit == 1 {
        '1'
    } else if digit == 2 {
        '2'
    } else if digit == 3 {
        '3'
    } else if digit == 4 {
        '4'
    } else if digit == 5 {
        '5'
    } else if digit == 6 {
        '6'
    } else if digit == 7 {
        '7'
    } else if digit == 8 {
        '8'
    } else if digit == 9 {
        '9'
    } else if digit == 10 {
        'a'
    } else if digit == 11 {
        'b'
    } else if digit == 12 {
        'c'
    } else if digit == 13 {
        'd'
    } else if digit == 14 {
        'e'
    } else {
        'f'
    }
}

/// The lower-case hexadecimal text of `data`, two characters per byte.
pub open spec fn hex_lower(data: Seq<u8>) -> Seq<char> {
    Seq::new(
        2 * data.len(),
        |i: int|
            if i % 2 == 0 {
                hex_digit(data[i / 2] as int / 16)
            } else {
                hex_digit(data[i / 2] as int % 16)
            },
    )
}

/// Distinct digits below sixteen have distinct characters.
pub proof fn lemma_hex_digit_injective(a: int, b: int)
    requires
        0 <= a < 16,
        0 <= b < 16,
        hex_digit(a) == hex_digit(b),
    ensures
        a == b,
{
}

/// Distinct byte strings have distinct hexadecimal texts.
pub proof fn lemma_hex_lower_injective(a: Seq<u8>, b: Seq<u8>)
    requires
        hex_lower(a) == hex_lower(b),
    ensures
        a == b,
{
    assert(hex_lower(a).len() == 2 * a.len());
    assert(hex_lower(b).len() == 2 * b.len());
    assert forall|i: int| 0 <= i < a.len() implies a[i] == b[i] by {
        let x = a[i] as int;
        let y = b[i] as int;
        assert(hex_lower(a)[2 * i] == hex_digit(x / 16));
        assert(hex_lower(b)[2 * i] == hex_digit(y / 16));
        assert(hex_lower(a)[2 * i + 1] == hex_digit(x % 16));
        assert(hex_lower(b)[2 * i + 1] == hex_digit(y % 16));
        lemma_hex_digit_injective(x / 16, y / 16);
        lemma_hex_digit_injective(x % 16, y % 16);
    }
    assert(a =~= b);
}

/// The character for a digit below sixteen, in lower case.
pub fn hex_char(digit: u8) -> (ch: char)
    requires
        digit < 16,
    ensures
        ch == hex_digit(digit as int),
{
    if digit == 0 {
        '0'
    } else if digit == 1 {
        '1'
    } else if digit == 2 {
        '2'
    } else if digit == 3 {
        '3'
    } else if digit == 4 {
        '4'
    } else if digit == 5 {
        '5'
    } else if digit == 6 {
        '6'
    } else if digit == 7 {
        '7'
    } else if digit == 8 {
        '8'
    } else if digit == 9 {
        '9'
    } else if digit == 10 {
        'a'
    } else if digit == 11 {
        'b'
    } else if digit == 12 {
        'c'
    } else if digit == 13 {
        'd'
    } else if digit == 14 {
        'e'
    } else {
        'f'
    }
}

/// Writes `data` in lower-case hexadecimal.
pub fn hex_encode(data: &[u8]) -> (text: String)
    ensures
        text@ == hex_lower(data@),
{
    let mut text = String::new();
    let mut i: usize = 0;
    while i < data.len()
        invariant
            i <= data.len(),
            text@.len() == 2 * i,
            forall|k: int| 0 <= k < 2 * i ==> text@[k] == hex_lower(data@)[k],
        decreases data.len() - i,
    {
        let byte = data[i];
        text.push(hex_char(byte / 16));
        text.push(hex_char(byte % 16));
        i = i + 1;
    }
    assert(text@ =~= hex_lower(data@));
    text
}

/// Whether two pieces of text are the same.
pub fn str_eq(a: &str, b: &str) -> (same: bool)
    ensures
        same == (a@ == b@),
{
    String::from_str(a) == String::from_str(b)
}

/// The decimal digits of a number.
pub open spec fn decimal_digits(n: nat) -> Seq<char>
    decreases n,
{
    if n < 10 {
        seq![hex_digit(n as int)]
    } else {
        decimal_digits(n / 10).push(hex_digit((n % 10) as int))
    }
}

/// Appends a number in decimal.
pub fn push_decimal(out: &mut String, n: u64)
    ensures
        final(out)@ == old(out)@ + decimal_digits(n as nat),
    decreases n,
{
    if n >= 10 {
        push_decimal(out, n / 10);
    }
    out.push(hex_char((n % 10) as u8));
    assert(out@ =~= old(out)@ + decimal_digits(n as nat));
}

} // verus!
