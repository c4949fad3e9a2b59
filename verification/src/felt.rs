//! Field elements of the chain, held as 32 big-endian bytes.
//!
//! A [`Felt`] is always canonical: its value is below the field's prime, so
//! two felts are equal exactly when their bytes are.

use vstd::prelude::*;

verus! {

/// 256 to the power `n`.
pub open spec fn pow256(n: nat) -> nat
    decreases n,
{
    if n == 0 {
        1
    } else {
        256 * pow256((n - 1) as nat)
    }
}

/// The number that `bytes` spell in base 256, most significant byte first.
pub open spec fn be_nat(bytes: Seq<u8>) -> nat
    decreases bytes.len(),
{
    if bytes.len() == 0 {
        0
    } else {
        be_nat(bytes.drop_last()) * 256 + bytes.last() as nat
    }
}

/// The prime of the field: 2^251 + 17 * 2^192 + 1.
pub open spec fn stark_prime() -> nat {
    0x0800_0000_0000_0011_0000_0000_0000_0000_0000_0000_0000_0000_0000_0000_0000_0001nat
}

/// The powers of 256 that the conversions use.
pub proof fn lemma_pow256_values()
    ensures
        pow256(0) == 1,
        pow256(1) == 0x100,
        pow256(8) == 0x1_0000_0000_0000_0000,
        pow256(16) == 0x1_0000_0000_0000_0000_0000_0000_0000_0000,
        pow256(24) == 0x1_0000_0000_0000_0000_0000_0000_0000_0000_0000_0000_0000_0000,
{
    reveal_with_fuel(pow256, 9);
    assert(pow256(8) == 0x1_0000_0000_0000_0000);
    assert(pow256(16) == 0x1_0000_0000_0000_0000 * pow256(8));
    assert(pow256(24) == 0x1_0000_0000_0000_0000 * pow256(16));
}

/// A larger exponent gives no smaller power, and no power is zero.
pub proof fn lemma_pow256_monotonic(a: nat, b: nat)
    requires
        a <= b,
    ensures
        0 < pow256(a) <= pow256(b),
    decreases b,
{
    if b == 0 {
    } else if a == b {
        lemma_pow256_monotonic((a - 1) as nat, (b - 1) as nat);
    } else {
        lemma_pow256_monotonic(a, (b - 1) as nat);
    }
}

/// `n` bytes spell a number below 256^n.
pub proof fn lemma_be_nat_bound(bytes: Seq<u8>)
    ensures
        be_nat(bytes) < pow256(bytes.len()),
    decreases bytes.len(),
{
    if bytes.len() > 0 {
        lemma_be_nat_bound(bytes.drop_last());
    }
}

/// The bytes of `a` followed by those of `b` spell `a` shifted left by the
/// length of `b`, plus `b`.
pub proof fn lemma_be_nat_concat(a: Seq<u8>, b: Seq<u8>)
    ensures
        be_nat(a + b) == be_nat(a) * pow256(b.len()) + be_nat(b),
    decreases b.len(),
{
    if b.len() == 0 {
        assert(a + b =~= a);
        assert(pow256(0) == 1);
        assert(be_nat(a) * 1 == be_nat(a)) by (nonlinear_arith);
    } else {
        let shorter = b.drop_last();
        assert((a + b).drop_last() =~= a + shorter);
        assert((a + b).last() == b.last());
        lemma_be_nat_concat(a, shorter);
        assert(pow256(b.len()) == 256 * pow256(shorter.len()));
        let x = be_nat(a);
        let p = pow256(shorter.len());
        assert((x * p + be_nat(shorter)) * 256 == x * (256 * p) + be_nat(shorter) * 256)
            by (nonlinear_arith);
        assert(be_nat(a + b) == be_nat(a + shorter) * 256 + b.last() as nat);
        assert(be_nat(b) == be_nat(shorter) * 256 + b.last() as nat);
        assert(x * (256 * p) == x * pow256(b.len()));
    }
}

/// Bytes spell zero exactly when each of them is zero.
pub proof fn lemma_be_nat_zero(bytes: Seq<u8>)
    ensures
        be_nat(bytes) == 0 <==> (forall|i: int| 0 <= i < bytes.len() ==> bytes[i] == 0),
    decreases bytes.len(),
{
    if bytes.len() > 0 {
        let shorter = bytes.drop_last();
        lemma_be_nat_zero(shorter);
        if be_nat(bytes) == 0 {
            assert forall|i: int| 0 <= i < bytes.len() implies bytes[i] == 0 by {
                if i < shorter.len() {
                    assert(shorter[i] == bytes[i]);
                }
            }
        }
        if forall|i: int| 0 <= i < bytes.len() ==> bytes[i] == 0 {
            assert forall|i: int| 0 <= i < shorter.len() implies shorter[i] == 0 by {
                assert(shorter[i] == bytes[i]);
            }
        }
    }
}

/// Two byte strings of one length that spell the same number are the same.
pub proof fn lemma_be_nat_injective(a: Seq<u8>, b: Seq<u8>)
    requires
        a.len() == b.len(),
        be_nat(a) == be_nat(b),
    ensures
        a == b,
    decreases a.len(),
{
    if a.len() > 0 {
        lemma_be_nat_injective(a.drop_last(), b.drop_last());
        assert(a =~= a.drop_last().push(a.last()));
        assert(b =~= b.drop_last().push(b.last()));
    } else {
        assert(a =~= b);
    }
}

/// The number spelled by the bytes of `bytes` from `from` up to `to`.
fn read_uint(bytes: &[u8; 32], from: usize, to: usize) -> (v: u128)
    requires
        from <= to <= 32,
        to - from <= 16,
    ensures
        v == be_nat(bytes@.subrange(from as int, to as int)),
{
    let mut acc: u128 = 0;
    let mut i: usize = from;
    while i < to
        invariant
            from <= i <= to <= 32,
            to - from <= 16,
            acc == be_nat(bytes@.subrange(from as int, i as int)),
            acc < pow256((i - from) as nat),
        decreases to - i,
    {
        proof {
            let next = bytes@.subrange(from as int, i + 1);
            assert(next.drop_last() =~= bytes@.subrange(from as int, i as int));
            lemma_pow256_monotonic((i - from + 1) as nat, 16);
            lemma_pow256_values();
            lemma_be_nat_bound(next);
        }
        acc = acc * 256 + bytes[i] as u128;
        i = i + 1;
    }
    acc
}

/// Whether the bytes of `bytes` from `from` up to `to` are all zero.
fn all_zero(bytes: &[u8; 32], from: usize, to: usize) -> (zero: bool)
    requires
        from <= to <= 32,
    ensures
        zero <==> be_nat(bytes@.subrange(from as int, to as int)) == 0,
{
    let mut i: usize = from;
    while i < to
        invariant
            from <= i <= to <= 32,
            forall|k: int| from <= k < i ==> bytes@[k] == 0,
        decreases to - i,
    {
        if bytes[i] != 0 {
            proof {
                let part = bytes@.subrange(from as int, to as int);
                lemma_be_nat_zero(part);
                assert(part[i - from] == bytes@[i as int]);
            }
            return false;
        }
        i = i + 1;
    }
    proof {
        let part = bytes@.subrange(from as int, to as int);
        lemma_be_nat_zero(part);
        assert forall|k: int| 0 <= k < part.len() implies part[k] == 0 by {
            assert(part[k] == bytes@[from + k]);
        }
    }
    true
}

/// Whether a byte is a character of a short string: a graphic character of
/// ASCII or a blank.
pub open spec fn is_text_byte(byte: u8) -> bool {
    (0x21 <= byte <= 0x7e) || byte == 0x20 || byte == 0x09 || byte == 0x0a || byte == 0x0c || byte
        == 0x0d
}

/// Whether `bytes` hold a short string at `start..end`: zero bytes, then the
/// characters, then zero bytes.
pub open spec fn spells_short_string(bytes: Seq<u8>, start: int, end: int) -> bool {
    &&& 0 <= start <= end <= bytes.len()
    &&& forall|k: int| 0 <= k < start ==> bytes[k] == 0
    &&& forall|k: int| start <= k < end ==> is_text_byte(#[trigger] bytes[k])
    &&& forall|k: int| end <= k < bytes.len() ==> bytes[k] == 0
}

/// The characters of `bytes` at `start..end`.
pub open spec fn short_string_text(bytes: Seq<u8>, start: int, end: int) -> Seq<char> {
    Seq::new((end - start) as nat, |i: int| bytes[start + i] as char)
}

/// The short string that `bytes` spell, where they spell one: leading zero
/// bytes are skipped, the characters follow, and a zero byte ends them.
pub open spec fn short_string(bytes: Seq<u8>) -> Option<Seq<char>> {
    if exists|start: int, end: int| spells_short_string(bytes, start, end) {
        let (start, end) = choose|start: int, end: int| spells_short_string(bytes, start, end);
        Some(short_string_text(bytes, start, end))
    } else {
        None
    }
}

/// However the bounds of a short string are chosen, its text is the same.
pub proof fn lemma_short_string_unique(bytes: Seq<u8>, s1: int, e1: int, s2: int, e2: int)
    requires
        spells_short_string(bytes, s1, e1),
        spells_short_string(bytes, s2, e2),
    ensures
        short_string_text(bytes, s1, e1) == short_string_text(bytes, s2, e2),
{
    if s1 < e1 {
        assert(is_text_byte(bytes[s1]));
        assert(is_text_byte(bytes[e1 - 1]));
        assert(s2 <= s1 < e2);
        assert(s2 < e1 <= e2);
        assert(is_text_byte(bytes[s2]));
        assert(is_text_byte(bytes[e2 - 1]));
        assert(s1 == s2 && e1 == e2);
    } else if s2 < e2 {
        assert(is_text_byte(bytes[s2]));
    }
    assert(short_string_text(bytes, s1, e1) =~= short_string_text(bytes, s2, e2));
}

/// The felt with the value `v`.
pub open spec fn felt_with_value(v: nat) -> Felt {
    choose|felt: Felt| (#[trigger] felt.value()) == v
}

/// An element of the chain's field.
#[derive(Clone, Copy, Debug, PartialEq, Eq, Hash)]
pub struct Felt {
    bytes: [u8; 32],
}

impl View for Felt {
    type V = Seq<u8>;

    /// The 32 bytes of the element, most significant first.
    closed spec fn view(&self) -> Seq<u8> {
        self.bytes@
    }
}

impl Felt {
    #[verifier::type_invariant]
    spec fn canonical(self) -> bool {
        be_nat(self.bytes@) < stark_prime()
    }

    /// The element as a number.
    pub open spec fn value(&self) -> nat {
        be_nat(self@)
    }

    /// A felt has 32 bytes.
    pub proof fn lemma_len(self)
        ensures
            self@.len() == 32,
    {
    }

    /// Felts with the same bytes are the same felt.
    pub proof fn lemma_bytes_injective(self, other: Felt)
        requires
            self@ == other@,
        ensures
            self == other,
    {
        assert(self.bytes =~= other.bytes);
    }

    /// Felts with the same value are the same felt.
    pub proof fn lemma_value_injective(self, other: Felt)
        requires
            self.value() == other.value(),
        ensures
            self == other,
    {
        lemma_be_nat_injective(self@, other@);
        self.lemma_bytes_injective(other);
    }

    /// The felt with these big-endian bytes, or `None` where they spell a
    /// number that is not below the prime.
    pub fn from_bytes_be(bytes: [u8; 32]) -> (felt: Option<Felt>)
        ensures
            be_nat(bytes@) < stark_prime() <==> felt is Some,
            felt matches Some(f) ==> f@ == bytes@,
    {
        let high = read_uint(&bytes, 0, 8);
        let rest_zero = all_zero(&bytes, 8, 32);
        proof {
            let a = bytes@.subrange(0, 8);
            let b = bytes@.subrange(8, 32);
            assert(a + b =~= bytes@);
            lemma_be_nat_concat(a, b);
            lemma_be_nat_bound(a);
            lemma_be_nat_bound(b);
            lemma_pow256_values();
            let hi = be_nat(a);
            let lo = be_nat(b);
            let shift = 0x1_0000_0000_0000_0000_0000_0000_0000_0000_0000_0000_0000_0000nat;
            assert(hi * pow256(24) == hi * shift);
            assert(be_nat(bytes@) == hi * shift + lo);
            assert(stark_prime() == 0x0800_0000_0000_0011 * shift + 1);
            if hi < 0x0800_0000_0000_0011 {
                assert((hi + 1) * shift <= 0x0800_0000_0000_0011 * shift) by (nonlinear_arith)
                    requires
                        hi + 1 <= 0x0800_0000_0000_0011,
                ;
                assert((hi + 1) * shift == hi * shift + shift) by (nonlinear_arith);
            }
            if hi > 0x0800_0000_0000_0011 {
                assert(hi * shift >= (0x0800_0000_0000_0011 + 1) * shift) by (nonlinear_arith)
                    requires
                        hi >= 0x0800_0000_0000_0011 + 1,
                ;
            }
        }
        if high < 0x0800_0000_0000_0011 || (high == 0x0800_0000_0000_0011 && rest_zero) {
            Some(Felt { bytes })
        } else {
            None
        }
    }

    /// The 32 big-endian bytes of the felt.
    pub fn to_bytes_be(&self) -> (bytes: [u8; 32])
        ensures
            bytes@ == self@,
    {
        self.bytes
    }

    /// The felt whose value is `v`.
    pub fn from_u128(v: u128) -> (felt: Felt)
        ensures
            felt.value() == v,
            felt == felt_with_value(v as nat),
    {
        let mut bytes: [u8; 32] = [0u8; 32];
        let mut rest: u128 = v;
        let mut j: usize = 0;
        proof {
            lemma_pow256_values();
            assert(bytes@.subrange(32, 32) =~= Seq::<u8>::empty());
        }
        while j < 16
            invariant
                j <= 16,
                v == rest * pow256(j as nat) + be_nat(bytes@.subrange(32 - j, 32)),
                forall|k: int| 0 <= k < 32 - j ==> bytes@[k] == 0,
            decreases 16 - j,
        {
            let digit: u8 = (rest % 256) as u8;
            let ghost before = bytes@;
            bytes[31 - j] = digit;
            proof {
                let tail = before.subrange(32 - j, 32);
                let grown = bytes@.subrange(31 - j, 32);
                assert(grown =~= seq![digit] + tail);
                lemma_be_nat_concat(seq![digit], tail);
                assert(seq![digit].drop_last() =~= Seq::<u8>::empty());
                assert(be_nat(Seq::<u8>::empty()) == 0);
                assert(seq![digit].last() == digit);
                assert(be_nat(seq![digit]) == digit);
                let p = pow256(j as nat);
                let q = (rest / 256) as nat;
                assert((q * 256 + digit) * p == q * (256 * p) + digit * p) by (nonlinear_arith);
            }
            rest = rest / 256;
            j = j + 1;
        }
        proof {
            let high = bytes@.subrange(0, 16);
            let low = bytes@.subrange(16, 32);
            assert(high + low =~= bytes@);
            lemma_be_nat_concat(high, low);
            lemma_be_nat_zero(high);
            lemma_be_nat_bound(low);
            lemma_pow256_values();
            let p = pow256(16);
            assert(low =~= bytes@.subrange(32 - j, 32));
            if rest > 0 {
                assert(rest * p >= p) by (nonlinear_arith)
                    requires
                        rest >= 1,
                        p > 0,
                ;
            }
            assert(rest == 0);
        }
        let felt = Felt { bytes };
        proof {
            assert(felt.value() == v);
            felt.lemma_value_injective(felt_with_value(v as nat));
        }
        felt
    }

    /// The felt whose value is `v`.
    pub fn from_u64(v: u64) -> (felt: Felt)
        ensures
            felt.value() == v,
            felt == felt_with_value(v as nat),
    {
        Felt::from_u128(v as u128)
    }

    /// The value of the felt where it fits in 128 bits.
    pub fn to_u128(&self) -> (v: Option<u128>)
        ensures
            v == if self.value() <= u128::MAX {
                Some(self.value() as u128)
            } else {
                None::<u128>
            },
    {
        let high_zero = all_zero(&self.bytes, 0, 16);
        let low = read_uint(&self.bytes, 16, 32);
        proof {
            let a = self.bytes@.subrange(0, 16);
            let b = self.bytes@.subrange(16, 32);
            assert(a + b =~= self.bytes@);
            lemma_be_nat_concat(a, b);
            lemma_be_nat_bound(b);
            lemma_pow256_values();
        }
        if high_zero {
            Some(low)
        } else {
            None
        }
    }

    /// The value of the felt where it fits in 64 bits.
    pub fn to_u64(&self) -> (v: Option<u64>)
        ensures
            v == if self.value() <= u64::MAX {
                Some(self.value() as u64)
            } else {
                None::<u64>
            },
    {
        match self.to_u128() {
            Some(wide) => if wide <= u64::MAX as u128 {
                Some(wide as u64)
            } else {
                None
            },
            None => None,
        }
    }

    /// The value of the felt where it fits in a `usize`.
    pub fn to_usize(&self) -> (v: Option<usize>)
        ensures
            v == if self.value() <= usize::MAX {
                Some(self.value() as usize)
            } else {
                None::<usize>
            },
    {
        match self.to_u128() {
            Some(wide) => if wide <= usize::MAX as u128 {
                Some(wide as usize)
            } else {
                None
            },
            None => None,
        }
    }
}

/// Whether a byte is a character of a short string.
fn text_byte(byte: u8) -> (text: bool)
    ensures
        text == is_text_byte(byte),
{
    (0x21 <= byte && byte <= 0x7e) || byte == 0x20 || byte == 0x09 || byte == 0x0a || byte == 0x0c
        || byte == 0x0d
}

/// Reads a felt as a short string: the text that its bytes spell once the
/// leading zero bytes are dropped. There is none where a byte is neither a
/// graphic character of ASCII nor a blank, or where a character follows a
/// zero byte.
pub fn as_cairo_short_string(value: &Felt) -> (text: Option<String>)
    ensures
        match text {
            Some(string) => short_string(value@) == Some(string@),
            None => short_string(value@) is None,
        },
{
    let bytes = value.to_bytes_be();
    proof {
        value.lemma_len();
    }
    let mut start: usize = 0;
    while start < 32 && bytes[start] == 0
        invariant
            start <= 32,
            bytes@.len() == 32,
            forall|k: int| 0 <= k < start ==> bytes@[k] == 0,
        decreases 32 - start,
    {
        start = start + 1;
    }
    let mut string = String::new();
    let mut end: usize = start;
    while end < 32 && bytes[end] != 0
        invariant
            start <= end <= 32,
            bytes@.len() == 32,
            bytes@ == value@,
            start < 32 ==> bytes@[start as int] != 0,
            forall|k: int| start <= k < end ==> is_text_byte(#[trigger] bytes@[k]),
            string@ == short_string_text(bytes@, start as int, end as int),
        decreases 32 - end,
    {
        if !text_byte(bytes[end]) {
            assert forall|s: int, e: int| !spells_short_string(value@, s, e) by {
                if spells_short_string(value@, s, e) {
                    assert(s <= end < e);
                    assert(is_text_byte(value@[end as int]));
                }
            }
            return None;
        }
        string.push(bytes[end] as char);
        assert(string@ =~= short_string_text(bytes@, start as int, end + 1));
        end = end + 1;
    }
    let mut k: usize = end;
    while k < 32
        invariant
            start <= end <= k <= 32,
            bytes@.len() == 32,
            bytes@ == value@,
            end < 32 ==> bytes@[end as int] == 0,
            start < 32 ==> bytes@[start as int] != 0,
            forall|j: int| end <= j < k ==> bytes@[j] == 0,
        decreases 32 - k,
    {
        if bytes[k] != 0 {
            assert forall|s: int, e: int| !spells_short_string(value@, s, e) by {
                if spells_short_string(value@, s, e) {
                    assert(s <= k < e);
                    if end < s {
                        assert(value@[start as int] == 0);
                    } else {
                        assert(is_text_byte(value@[end as int]));
                    }
                }
            }
            return None;
        }
        k = k + 1;
    }
    proof {
        assert(spells_short_string(value@, start as int, end as int));
        let (s, e) = choose|s: int, e: int| spells_short_string(value@, s, e);
        lemma_short_string_unique(value@, start as int, end as int, s, e);
    }
    Some(string)
}

/// A copy of the felts.
pub fn copy_felts(felts: &[Felt]) -> (copy: Vec<Felt>)
    ensures
        copy@ == felts@,
{
    let mut copy: Vec<Felt> = Vec::new();
    let mut i: usize = 0;
    while i < felts.len()
        invariant
            i <= felts.len(),
            copy@ == felts@.take(i as int),
        decreases felts.len() - i,
    {
        copy.push(felts[i]);
        assert(felts@.take(i + 1) =~= felts@.take(i as int).push(felts@[i as int]));
        i = i + 1;
    }
    assert(felts@.take(felts.len() as int) =~= felts@);
    copy
}

} // verus!
