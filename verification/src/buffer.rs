//! Reading the argument buffer of a cheatcode.
//!
//! The buffer is a list of felts that the script serialised field by field.
//! Nothing in it says what a felt means: the reader takes the fields in the
//! order in which the script wrote them.

use crate::felt::{copy_felts, Felt};
use vstd::prelude::*;
use vstd::slice::slice_subrange;

verus! {

/// Why a field could not be read.
#[derive(Clone, Copy, Debug, PartialEq, Eq, Structural)]
pub enum BufferReadError {
    /// The buffer ended before the field did.
    EndOfBuffer,
    /// The felts at the field's place do not spell a value of its type.
    ParseFailed,
}

/// The fee limits that a script gives with a transaction.
#[derive(Clone, Copy, Debug, PartialEq, Eq)]
pub struct FeeSettings {
    pub max_fee: Option<Felt>,
    pub l1_gas: Option<u64>,
    pub l1_gas_price: Option<u128>,
    pub l2_gas: Option<u64>,
    pub l2_gas_price: Option<u128>,
    pub l1_data_gas: Option<u64>,
    pub l1_data_gas_price: Option<u128>,
}

/// One felt, at `at`.
pub open spec fn parse_felt(buffer: Seq<Felt>, at: nat) -> Result<(Felt, nat), BufferReadError> {
    if at < buffer.len() {
        Ok((buffer[at as int], at + 1))
    } else {
        Err(BufferReadError::EndOfBuffer)
    }
}

/// A flag: the felt 0 for false, 1 for true.
pub open spec fn parse_bool(buffer: Seq<Felt>, at: nat) -> Result<(bool, nat), BufferReadError> {
    match parse_felt(buffer, at) {
        Err(e) => Err(e),
        Ok((felt, next)) => if felt.value() == 0 {
            Ok((false, next))
        } else if felt.value() == 1 {
            Ok((true, next))
        } else {
            Err(BufferReadError::ParseFailed)
        },
    }
}

/// An optional felt: the felt 0 and then the value, or the felt 1 for none.
pub open spec fn parse_option_felt(buffer: Seq<Felt>, at: nat) -> Result<
    (Option<Felt>, nat),
    BufferReadError,
> {
    match parse_felt(buffer, at) {
        Err(e) => Err(e),
        Ok((tag, next)) => if tag.value() == 0 {
            match parse_felt(buffer, next) {
                Err(e) => Err(e),
                Ok((felt, after)) => Ok((Some(felt), after)),
            }
        } else if tag.value() == 1 {
            Ok((None, next))
        } else {
            Err(BufferReadError::ParseFailed)
        },
    }
}

/// An optional number of 128 bits, written as an optional felt.
pub open spec fn parse_option_u128(buffer: Seq<Felt>, at: nat) -> Result<
    (Option<u128>, nat),
    BufferReadError,
> {
    match parse_option_felt(buffer, at) {
        Err(e) => Err(e),
        Ok((None, next)) => Ok((None, next)),
        Ok((Some(felt), next)) => if felt.value() <= u128::MAX {
            Ok((Some(felt.value() as u128), next))
        } else {
            Err(BufferReadError::ParseFailed)
        },
    }
}

/// An optional number of 64 bits, written as an optional felt.
pub open spec fn parse_option_u64(buffer: Seq<Felt>, at: nat) -> Result<
    (Option<u64>, nat),
    BufferReadError,
> {
    match parse_option_felt(buffer, at) {
        Err(e) => Err(e),
        Ok((None, next)) => Ok((None, next)),
        Ok((Some(felt), next)) => if felt.value() <= u64::MAX {
            Ok((Some(felt.value() as u64), next))
        } else {
            Err(BufferReadError::ParseFailed)
        },
    }
}

/// A list of felts: their number, then the felts.
pub open spec fn parse_felts(buffer: Seq<Felt>, at: nat) -> Result<
    (Seq<Felt>, nat),
    BufferReadError,
> {
    match parse_felt(buffer, at) {
        Err(e) => Err(e),
        Ok((count, next)) => if next + count.value() <= buffer.len() {
            Ok(
                (
                    buffer.subrange(next as int, (next + count.value()) as int),
                    (next + count.value()) as nat,
                ),
            )
        } else {
            Err(BufferReadError::EndOfBuffer)
        },
    }
}

/// The bytes held by full words of a byte array: the low 31 bytes of each.
pub open spec fn words_bytes(words: Seq<Felt>) -> Seq<u8> {
    Seq::new(31 * words.len(), |i: int| words[i / 31]@[1 + i % 31])
}

/// Whether each word holds 31 bytes and no more.
pub open spec fn words_fit(words: Seq<Felt>) -> bool {
    forall|i: int| 0 <= i < words.len() ==> (#[trigger] words[i])@[0] == 0
}

/// Whether the last, partial word holds `len` bytes and no more.
pub open spec fn pending_fits(pending: Felt, len: nat) -> bool {
    len <= 30 && forall|k: int| 0 <= k < 32 - len ==> pending@[k] == 0
}

/// A byte array: a list of full words of 31 bytes each, then a partial
/// word and the number of bytes in it.
pub open spec fn parse_byte_array(buffer: Seq<Felt>, at: nat) -> Result<
    (Seq<u8>, nat),
    BufferReadError,
> {
    match parse_felts(buffer, at) {
        Err(e) => Err(e),
        Ok((words, next)) => if !words_fit(words) {
            Err(BufferReadError::ParseFailed)
        } else {
            match parse_felt(buffer, next) {
                Err(e) => Err(e),
                Ok((pending, after)) => match parse_felt(buffer, after) {
                    Err(e) => Err(e),
                    Ok((len, end)) => if pending_fits(pending, len.value()) {
                        Ok(
                            (
                                words_bytes(words) + pending@.subrange(
                                    32 - len.value() as int,
                                    32,
                                ),
                                end,
                            ),
                        )
                    } else {
                        Err(BufferReadError::ParseFailed)
                    },
                },
            }
        },
    }
}

/// Fee settings: seven optional limits, in the order of the fields.
pub open spec fn parse_fee_settings(buffer: Seq<Felt>, at: nat) -> Result<
    (FeeSettings, nat),
    BufferReadError,
> {
    match parse_option_felt(buffer, at) {
        Err(e) => Err(e),
        Ok((max_fee, after_1)) => match parse_option_u64(buffer, after_1) {
            Err(e) => Err(e),
            Ok((l1_gas, after_2)) => match parse_option_u128(buffer, after_2) {
                Err(e) => Err(e),
                Ok((l1_gas_price, after_3)) => match parse_option_u64(buffer, after_3) {
                    Err(e) => Err(e),
                    Ok((l2_gas, after_4)) => match parse_option_u128(buffer, after_4) {
                        Err(e) => Err(e),
                        Ok((l2_gas_price, after_5)) => match parse_option_u64(buffer, after_5) {
                            Err(e) => Err(e),
                            Ok((l1_data_gas, after_6)) => match parse_option_u128(buffer, after_6) {
                                Err(e) => Err(e),
                                Ok((l1_data_gas_price, after_7)) => Ok(
                                    (
                                        FeeSettings {
                                            max_fee,
                                            l1_gas,
                                            l1_gas_price,
                                            l2_gas,
                                            l2_gas_price,
                                            l1_data_gas,
                                            l1_data_gas_price,
                                        },
                                        after_7,
                                    ),
                                ),
                            },
                        },
                    },
                },
            },
        },
    }
}

/// The bytes of the full words of a byte array, where each word fits.
fn full_words_bytes(words: &Vec<Felt>) -> (bytes: Option<Vec<u8>>)
    ensures
        bytes is Some <==> words_fit(words@),
        bytes matches Some(b) ==> b@ == words_bytes(words@),
{
    let mut bytes: Vec<u8> = Vec::new();
    let mut i: usize = 0;
    while i < words.len()
        invariant
            i <= words.len(),
            words_fit(words@.take(i as int)),
            bytes@ == words_bytes(words@.take(i as int)),
        decreases words.len() - i,
    {
        let word = words[i].to_bytes_be();
        proof {
            words@[i as int].lemma_len();
        }
        if word[0] != 0 {
            assert(!words_fit(words@)) by {
                assert(words@[i as int]@[0] != 0);
            }
            return None;
        }
        let mut k: usize = 1;
        while k < 32
            invariant
                1 <= k <= 32,
                i < words.len(),
                word@ == words@[i as int]@,
                word@.len() == 32,
                bytes@ == words_bytes(words@.take(i as int)) + word@.subrange(1, k as int),
            decreases 32 - k,
        {
            bytes.push(word[k]);
            assert(word@.subrange(1, k + 1) =~= word@.subrange(1, k as int).push(word@[k as int]));
            k = k + 1;
        }
        proof {
            let done = words@.take(i as int);
            let more = words@.take(i + 1);
            assert(words_bytes(more) =~= words_bytes(done) + word@.subrange(1, 32)) by {
                assert forall|j: int| 0 <= j < 31 * more.len() implies words_bytes(more)[j] == (
                words_bytes(done) + word@.subrange(1, 32))[j] by {
                    if j < 31 * i {
                        assert(more[j / 31] == done[j / 31]);
                    } else {
                        assert(j / 31 == i);
                        assert(more[j / 31] == words@[i as int]);
                    }
                }
            }
            assert forall|j: int| 0 <= j < more.len() implies (#[trigger] more[j])@[0] == 0 by {
                if j < i {
                    assert(more[j] == done[j]);
                }
            }
        }
        i = i + 1;
    }
    assert(words@.take(words.len() as int) =~= words@);
    Some(bytes)
}

/// Appends the `count` bytes of the partial word where it holds no more,
/// and says whether it did.
fn push_pending_bytes(bytes: &mut Vec<u8>, pending: &Felt, count: usize) -> (pushed: bool)
    requires
        count <= 30,
    ensures
        pushed == pending_fits(*pending, count as nat),
        pushed ==> final(bytes)@ == old(bytes)@ + pending@.subrange(32 - count, 32),
{
    let last = pending.to_bytes_be();
    proof {
        pending.lemma_len();
    }
    let mut k: usize = 0;
    while k < 32 - count
        invariant
            k <= 32 - count,
            count <= 30,
            last@ == pending@,
            last@.len() == 32,
            bytes@ == old(bytes)@,
            forall|j: int| 0 <= j < k ==> pending@[j] == 0,
        decreases 32 - count - k,
    {
        if last[k] != 0 {
            assert(!pending_fits(*pending, count as nat));
            return false;
        }
        k = k + 1;
    }
    while k < 32
        invariant
            32 - count <= k <= 32,
            count <= 30,
            last@ == pending@,
            last@.len() == 32,
            pending_fits(*pending, count as nat),
            bytes@ == old(bytes)@ + last@.subrange(32 - count, k as int),
        decreases 32 - k,
    {
        bytes.push(last[k]);
        assert(last@.subrange(32 - count, k + 1) =~= last@.subrange(32 - count, k as int).push(
            last@[k as int],
        ));
        k = k + 1;
    }
    true
}

/// A reader over an argument buffer, which remembers how far it has read.
pub struct BufferReader<'a> {
    buffer: &'a [Felt],
    idx: usize,
}

impl<'a> BufferReader<'a> {
    #[verifier::type_invariant]
    spec fn in_bounds(self) -> bool {
        self.idx <= self.buffer@.len()
    }

    /// The whole buffer.
    pub closed spec fn buffer(&self) -> Seq<Felt> {
        self.buffer@
    }

    /// How many felts have been read.
    pub closed spec fn position(&self) -> nat {
        self.idx as nat
    }

    /// A reader at the start of `buffer`.
    pub fn new(buffer: &'a [Felt]) -> (reader: BufferReader<'a>)
        ensures
            reader.buffer() == buffer@,
            reader.position() == 0,
    {
        BufferReader { buffer, idx: 0 }
    }

    /// Reads one felt.
    pub fn read_felt(&mut self) -> (result: Result<Felt, BufferReadError>)
        ensures
            final(self).buffer() == old(self).buffer(),
            match result {
                Ok(felt) => parse_felt(old(self).buffer(), old(self).position()) == Ok::<
                    (Felt, nat),
                    BufferReadError,
                >((felt, final(self).position())),
                Err(e) => parse_felt(old(self).buffer(), old(self).position()) == Err::<
                    (Felt, nat),
                    BufferReadError,
                >(e),
            },
    {
        proof {
            use_type_invariant(&*self);
        }
        if self.idx < self.buffer.len() {
            let felt = self.buffer[self.idx];
            self.idx = self.idx + 1;
            Ok(felt)
        } else {
            Err(BufferReadError::EndOfBuffer)
        }
    }

    /// Reads a flag.
    pub fn read_bool(&mut self) -> (result: Result<bool, BufferReadError>)
        ensures
            final(self).buffer() == old(self).buffer(),
            match result {
                Ok(flag) => parse_bool(old(self).buffer(), old(self).position()) == Ok::<
                    (bool, nat),
                    BufferReadError,
                >((flag, final(self).position())),
                Err(e) => parse_bool(old(self).buffer(), old(self).position()) == Err::<
                    (bool, nat),
                    BufferReadError,
                >(e),
            },
    {
        match self.read_felt() {
            Err(e) => Err(e),
            Ok(felt) => match felt.to_u64() {
                Some(0) => Ok(false),
                Some(1) => Ok(true),
                _ => Err(BufferReadError::ParseFailed),
            },
        }
    }

    /// Reads an optional felt.
    pub fn read_option_felt(&mut self) -> (result: Result<Option<Felt>, BufferReadError>)
        ensures
            final(self).buffer() == old(self).buffer(),
            match result {
                Ok(value) => parse_option_felt(old(self).buffer(), old(self).position()) == Ok::<
                    (Option<Felt>, nat),
                    BufferReadError,
                >((value, final(self).position())),
                Err(e) => parse_option_felt(old(self).buffer(), old(self).position()) == Err::<
                    (Option<Felt>, nat),
                    BufferReadError,
                >(e),
            },
    {
        match self.read_felt() {
            Err(e) => Err(e),
            Ok(tag) => match tag.to_u64() {
                Some(0) => match self.read_felt() {
                    Err(e) => Err(e),
                    Ok(felt) => Ok(Some(felt)),
                },
                Some(1) => Ok(None),
                _ => Err(BufferReadError::ParseFailed),
            },
        }
    }

    /// Reads an optional number of 128 bits.
    pub fn read_option_u128(&mut self) -> (result: Result<Option<u128>, BufferReadError>)
        ensures
            final(self).buffer() == old(self).buffer(),
            match result {
                Ok(value) => parse_option_u128(old(self).buffer(), old(self).position()) == Ok::<
                    (Option<u128>, nat),
                    BufferReadError,
                >((value, final(self).position())),
                Err(e) => parse_option_u128(old(self).buffer(), old(self).position()) == Err::<
                    (Option<u128>, nat),
                    BufferReadError,
                >(e),
            },
    {
        match self.read_option_felt() {
            Err(e) => Err(e),
            Ok(None) => Ok(None),
            Ok(Some(felt)) => match felt.to_u128() {
                Some(number) => Ok(Some(number)),
                None => Err(BufferReadError::ParseFailed),
            },
        }
    }

    /// Reads an optional number of 64 bits.
    pub fn read_option_u64(&mut self) -> (result: Result<Option<u64>, BufferReadError>)
        ensures
            final(self).buffer() == old(self).buffer(),
            match result {
                Ok(value) => parse_option_u64(old(self).buffer(), old(self).position()) == Ok::<
                    (Option<u64>, nat),
                    BufferReadError,
                >((value, final(self).position())),
                Err(e) => parse_option_u64(old(self).buffer(), old(self).position()) == Err::<
                    (Option<u64>, nat),
                    BufferReadError,
                >(e),
            },
    {
        match self.read_option_felt() {
            Err(e) => Err(e),
            Ok(None) => Ok(None),
            Ok(Some(felt)) => match felt.to_u64() {
                Some(number) => Ok(Some(number)),
                None => Err(BufferReadError::ParseFailed),
            },
        }
    }

    /// Reads a list of felts.
    pub fn read_felts(&mut self) -> (result: Result<Vec<Felt>, BufferReadError>)
        ensures
            final(self).buffer() == old(self).buffer(),
            match result {
                Ok(felts) => parse_felts(old(self).buffer(), old(self).position()) == Ok::<
                    (Seq<Felt>, nat),
                    BufferReadError,
                >((felts@, final(self).position())),
                Err(e) => parse_felts(old(self).buffer(), old(self).position()) == Err::<
                    (Seq<Felt>, nat),
                    BufferReadError,
                >(e),
            },
    {
        match self.read_felt() {
            Err(e) => Err(e),
            Ok(count) => {
                proof {
                    use_type_invariant(&*self);
                }
                let total = self.buffer.len();
                match count.to_usize() {
                    Some(n) => if n <= total - self.idx {
                        let felts = copy_felts(slice_subrange(self.buffer, self.idx, self.idx + n));
                        assert(felts@ == self.buffer@.subrange(
                            self.idx as int,
                            (self.idx + count.value()) as int,
                        ));
                        self.idx = self.idx + n;
                        Ok(felts)
                    } else {
                        Err(BufferReadError::EndOfBuffer)
                    },
                    None => Err(BufferReadError::EndOfBuffer),
                }
            },
        }
    }

    /// Reads a byte array.
    pub fn read_byte_array(&mut self) -> (result: Result<Vec<u8>, BufferReadError>)
        ensures
            final(self).buffer() == old(self).buffer(),
            match result {
                Ok(bytes) => parse_byte_array(old(self).buffer(), old(self).position()) == Ok::<
                    (Seq<u8>, nat),
                    BufferReadError,
                >((bytes@, final(self).position())),
                Err(e) => parse_byte_array(old(self).buffer(), old(self).position()) == Err::<
                    (Seq<u8>, nat),
                    BufferReadError,
                >(e),
            },
    {
        let words = match self.read_felts() {
            Err(e) => {
                return Err(e);
            },
            Ok(words) => words,
        };
        let mut bytes = match full_words_bytes(&words) {
            None => {
                return Err(BufferReadError::ParseFailed);
            },
            Some(bytes) => bytes,
        };
        let pending = match self.read_felt() {
            Err(e) => {
                return Err(e);
            },
            Ok(pending) => pending,
        };
        let len = match self.read_felt() {
            Err(e) => {
                return Err(e);
            },
            Ok(len) => len,
        };
        match len.to_usize() {
            Some(count) => if count <= 30 && push_pending_bytes(&mut bytes, &pending, count) {
                Ok(bytes)
            } else {
                Err(BufferReadError::ParseFailed)
            },
            None => Err(BufferReadError::ParseFailed),
        }
    }

    /// Reads fee settings.
    pub fn read_fee_settings(&mut self) -> (result: Result<FeeSettings, BufferReadError>)
        ensures
            final(self).buffer() == old(self).buffer(),
            match result {
                Ok(fee) => parse_fee_settings(old(self).buffer(), old(self).position()) == Ok::<
                    (FeeSettings, nat),
                    BufferReadError,
                >((fee, final(self).position())),
                Err(e) => parse_fee_settings(old(self).buffer(), old(self).position()) == Err::<
                    (FeeSettings, nat),
                    BufferReadError,
                >(e),
            },
    {
        let max_fee = match self.read_option_felt() {
            Err(e) => {
                return Err(e);
            },
            Ok(value) => value,
        };
        let l1_gas = match self.read_option_u64() {
            Err(e) => {
                return Err(e);
            },
            Ok(value) => value,
        };
        let l1_gas_price = match self.read_option_u128() {
            Err(e) => {
                return Err(e);
            },
            Ok(value) => value,
        };
        let l2_gas = match self.read_option_u64() {
            Err(e) => {
                return Err(e);
            },
            Ok(value) => value,
        };
        let l2_gas_price = match self.read_option_u128() {
            Err(e) => {
                return Err(e);
            },
            Ok(value) => value,
        };
        let l1_data_gas = match self.read_option_u64() {
            Err(e) => {
                return Err(e);
            },
            Ok(value) => value,
        };
        let l1_data_gas_price = match self.read_option_u128() {
            Err(e) => {
                return Err(e);
            },
            Ok(value) => value,
        };
        Ok(
            FeeSettings {
                max_fee,
                l1_gas,
                l1_gas_price,
                l2_gas,
                l2_gas_price,
                l1_data_gas,
                l1_data_gas_price,
            },
        )
    }
}

} // verus!
