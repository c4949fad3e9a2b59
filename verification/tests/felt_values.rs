use sncast_script::felt::{as_cairo_short_string, copy_felts, Felt};

fn bytes_of(hex: &str) -> [u8; 32] {
    let mut bytes = [0u8; 32];
    for i in 0..32 {
        bytes[i] = u8::from_str_radix(&hex[2 * i..2 * i + 2], 16).unwrap();
    }
    bytes
}

#[test]
fn from_u64_round_trips() {
    for value in [0u64, 1, 42, 255, 256, 65_536, u64::MAX] {
        let felt = Felt::from_u64(value);
        assert_eq!(felt.to_u64(), Some(value));
        assert_eq!(felt.to_u128(), Some(value as u128));
    }
}

#[test]
fn from_u64_has_big_endian_bytes() {
    let bytes = Felt::from_u64(0x0102).to_bytes_be();
    assert_eq!(bytes[31], 2);
    assert_eq!(bytes[30], 1);
    assert!(bytes[..30].iter().all(|b| *b == 0));
}

#[test]
fn to_u64_refuses_what_does_not_fit() {
    let felt = Felt::from_u128(u64::MAX as u128 + 1);
    assert_eq!(felt.to_u64(), None);
    assert_eq!(felt.to_u128(), Some(u64::MAX as u128 + 1));
    assert_eq!(Felt::from_u128(u128::MAX).to_u128(), Some(u128::MAX));
}

#[test]
fn to_u128_refuses_what_does_not_fit() {
    let mut bytes = [0u8; 32];
    bytes[15] = 1;
    let felt = Felt::from_bytes_be(bytes).unwrap();
    assert_eq!(felt.to_u128(), None);
    assert_eq!(felt.to_u64(), None);
    assert_eq!(felt.to_usize(), None);
}

#[test]
fn to_usize_reads_small_values() {
    assert_eq!(Felt::from_u64(7).to_usize(), Some(7));
}

#[test]
fn from_bytes_be_accepts_below_the_prime() {
    let below = bytes_of("0800000000000011000000000000000000000000000000000000000000000000");
    let felt = Felt::from_bytes_be(below).unwrap();
    assert_eq!(felt.to_bytes_be(), below);
    assert!(Felt::from_bytes_be([0u8; 32]).is_some());
}

#[test]
fn from_bytes_be_refuses_the_prime_and_above() {
    let prime = bytes_of("0800000000000011000000000000000000000000000000000000000000000001");
    assert_eq!(Felt::from_bytes_be(prime), None);
    let above = bytes_of("0800000000000012000000000000000000000000000000000000000000000000");
    assert_eq!(Felt::from_bytes_be(above), None);
    assert_eq!(Felt::from_bytes_be([0xff; 32]), None);
}

#[test]
fn equal_values_are_equal_felts() {
    assert_eq!(Felt::from_u64(5), Felt::from_u128(5));
    assert_ne!(Felt::from_u64(5), Felt::from_u64(6));
}

#[test]
fn short_string_is_read() {
    assert_eq!(as_cairo_short_string(&Felt::from_u64(0x616263)), Some("abc".to_string()));
    assert_eq!(
        as_cairo_short_string(&Felt::from_u64(0x70656e64696e67)),
        Some("pending".to_string())
    );
    assert_eq!(as_cairo_short_string(&Felt::from_u64(0x6120620a)), Some("a b\n".to_string()));
}

#[test]
fn short_string_of_zero_is_empty() {
    assert_eq!(as_cairo_short_string(&Felt::from_u64(0)), Some(String::new()));
}

#[test]
fn short_string_may_end_in_zero_bytes() {
    assert_eq!(as_cairo_short_string(&Felt::from_u64(0x61620000)), Some("ab".to_string()));
}

#[test]
fn short_string_refuses_a_character_after_a_zero_byte() {
    assert_eq!(as_cairo_short_string(&Felt::from_u64(0x610062)), None);
}

#[test]
fn short_string_refuses_other_bytes() {
    assert_eq!(as_cairo_short_string(&Felt::from_u64(0x01)), None);
    assert_eq!(as_cairo_short_string(&Felt::from_u64(0x617f)), None);
    assert_eq!(as_cairo_short_string(&Felt::from_u64(0x61ff62)), None);
    assert_eq!(as_cairo_short_string(&Felt::from_u64(0x0b)), None);
}

#[test]
fn copy_felts_keeps_order() {
    let felts = vec![Felt::from_u64(3), Felt::from_u64(1), Felt::from_u64(2)];
    assert_eq!(copy_felts(&felts), felts);
    assert_eq!(copy_felts(&[]), Vec::<Felt>::new());
}
