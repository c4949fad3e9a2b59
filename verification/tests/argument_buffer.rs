use sncast_script::buffer::{BufferReadError, BufferReader, FeeSettings};
use sncast_script::felt::Felt;

fn felts(values: &[u64]) -> Vec<Felt> {
    values.iter().map(|v| Felt::from_u64(*v)).collect()
}

fn word(bytes: &[u8]) -> Felt {
    let mut all = [0u8; 32];
    all[32 - bytes.len()..].copy_from_slice(bytes);
    Felt::from_bytes_be(all).unwrap()
}

#[test]
fn felts_are_read_in_order() {
    let buffer = felts(&[10, 20]);
    let mut reader = BufferReader::new(&buffer);
    assert_eq!(reader.read_felt(), Ok(Felt::from_u64(10)));
    assert_eq!(reader.read_felt(), Ok(Felt::from_u64(20)));
    assert_eq!(reader.read_felt(), Err(BufferReadError::EndOfBuffer));
}

#[test]
fn bool_is_zero_or_one() {
    let buffer = felts(&[0, 1, 2]);
    let mut reader = BufferReader::new(&buffer);
    assert_eq!(reader.read_bool(), Ok(false));
    assert_eq!(reader.read_bool(), Ok(true));
    assert_eq!(reader.read_bool(), Err(BufferReadError::ParseFailed));
    assert_eq!(reader.read_bool(), Err(BufferReadError::EndOfBuffer));
}

#[test]
fn option_is_tagged() {
    let buffer = felts(&[0, 77, 1, 5]);
    let mut reader = BufferReader::new(&buffer);
    assert_eq!(reader.read_option_felt(), Ok(Some(Felt::from_u64(77))));
    assert_eq!(reader.read_option_felt(), Ok(None));
    assert_eq!(reader.read_option_felt(), Err(BufferReadError::ParseFailed));
}

#[test]
fn option_without_its_value_ends_the_buffer() {
    let buffer = felts(&[0]);
    let mut reader = BufferReader::new(&buffer);
    assert_eq!(reader.read_option_felt(), Err(BufferReadError::EndOfBuffer));
}

#[test]
fn option_numbers_are_bounded() {
    let big = Felt::from_u128(u64::MAX as u128 + 1);
    let buffer = vec![Felt::from_u64(0), big, Felt::from_u64(0), big, Felt::from_u64(0), Felt::from_u64(3)];
    let mut reader = BufferReader::new(&buffer);
    assert_eq!(reader.read_option_u64(), Err(BufferReadError::ParseFailed));
    let mut reader = BufferReader::new(&buffer[2..]);
    assert_eq!(reader.read_option_u128(), Ok(Some(u64::MAX as u128 + 1)));
    assert_eq!(reader.read_option_u64(), Ok(Some(3)));
    let mut huge = [0u8; 32];
    huge[0] = 1;
    let buffer = vec![Felt::from_u64(0), Felt::from_bytes_be(huge).unwrap()];
    let mut reader = BufferReader::new(&buffer);
    assert_eq!(reader.read_option_u128(), Err(BufferReadError::ParseFailed));
}

#[test]
fn list_has_its_length_first() {
    let buffer = felts(&[3, 7, 8, 9, 0, 4]);
    let mut reader = BufferReader::new(&buffer);
    assert_eq!(reader.read_felts(), Ok(felts(&[7, 8, 9])));
    assert_eq!(reader.read_felts(), Ok(Vec::new()));
    assert_eq!(reader.read_felts(), Err(BufferReadError::EndOfBuffer));
}

#[test]
fn list_longer_than_the_buffer_is_refused() {
    let buffer = vec![Felt::from_u128(u128::MAX), Felt::from_u64(1)];
    let mut reader = BufferReader::new(&buffer);
    assert_eq!(reader.read_felts(), Err(BufferReadError::EndOfBuffer));
}

#[test]
fn byte_array_with_pending_word_only() {
    let buffer = vec![Felt::from_u64(0), word(b"Token"), Felt::from_u64(5)];
    let mut reader = BufferReader::new(&buffer);
    assert_eq!(reader.read_byte_array(), Ok(b"Token".to_vec()));
}

#[test]
fn byte_array_with_full_words() {
    let first = b"0123456789abcdefghijklmnopqrstu";
    assert_eq!(first.len(), 31);
    let buffer = vec![Felt::from_u64(1), word(first), word(b"vw"), Felt::from_u64(2)];
    let mut reader = BufferReader::new(&buffer);
    let mut expected = first.to_vec();
    expected.extend_from_slice(b"vw");
    assert_eq!(reader.read_byte_array(), Ok(expected));
    assert_eq!(reader.read_felt(), Err(BufferReadError::EndOfBuffer));
}

#[test]
fn empty_byte_array() {
    let buffer = felts(&[0, 0, 0]);
    let mut reader = BufferReader::new(&buffer);
    assert_eq!(reader.read_byte_array(), Ok(Vec::new()));
}

#[test]
fn byte_array_keeps_leading_zero_bytes_of_the_pending_word() {
    let buffer = vec![Felt::from_u64(0), word(b"ab"), Felt::from_u64(3)];
    let mut reader = BufferReader::new(&buffer);
    assert_eq!(reader.read_byte_array(), Ok(vec![0, b'a', b'b']));
}

#[test]
fn byte_array_refuses_a_pending_word_that_is_too_long() {
    let buffer = vec![Felt::from_u64(0), word(b"abc"), Felt::from_u64(2)];
    let mut reader = BufferReader::new(&buffer);
    assert_eq!(reader.read_byte_array(), Err(BufferReadError::ParseFailed));
    let buffer = vec![Felt::from_u64(0), word(b"abc"), Felt::from_u64(31)];
    let mut reader = BufferReader::new(&buffer);
    assert_eq!(reader.read_byte_array(), Err(BufferReadError::ParseFailed));
}

#[test]
fn byte_array_refuses_a_word_of_32_bytes() {
    let mut wide = [0u8; 32];
    wide[0] = 1;
    let buffer = vec![
        Felt::from_u64(1),
        Felt::from_bytes_be(wide).unwrap(),
        Felt::from_u64(0),
        Felt::from_u64(0),
    ];
    let mut reader = BufferReader::new(&buffer);
    assert_eq!(reader.read_byte_array(), Err(BufferReadError::ParseFailed));
}

#[test]
fn byte_array_cut_short() {
    let buffer = vec![Felt::from_u64(0), word(b"ab")];
    let mut reader = BufferReader::new(&buffer);
    assert_eq!(reader.read_byte_array(), Err(BufferReadError::EndOfBuffer));
}

#[test]
fn fee_settings_are_read_field_by_field() {
    let buffer = felts(&[0, 100, 0, 1, 0, 2, 1, 0, 4, 1, 0, 6]);
    let mut reader = BufferReader::new(&buffer);
    assert_eq!(
        reader.read_fee_settings(),
        Ok(FeeSettings {
            max_fee: Some(Felt::from_u64(100)),
            l1_gas: Some(1),
            l1_gas_price: Some(2),
            l2_gas: None,
            l2_gas_price: Some(4),
            l1_data_gas: None,
            l1_data_gas_price: Some(6),
        })
    );
    assert_eq!(reader.read_felt(), Err(BufferReadError::EndOfBuffer));
}

#[test]
fn fee_settings_cut_short() {
    let buffer = felts(&[1, 1, 1, 1, 1, 1]);
    let mut reader = BufferReader::new(&buffer);
    assert_eq!(reader.read_fee_settings(), Err(BufferReadError::EndOfBuffer));
}
