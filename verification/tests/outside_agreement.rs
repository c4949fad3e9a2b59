use cairo_lang_runner::short_string::as_cairo_short_string as outside_short_string;
use sha3::{Digest, Sha3_256};
use sncast_script::felt::{as_cairo_short_string, Felt};
use sncast_script::hashing::generate_id;
use starknet_types_core::felt::Felt as OutsideFelt;

fn samples() -> Vec<u128> {
    let mut values = vec![
        0u128,
        1,
        9,
        0x0a,
        0x0b,
        0x20,
        0x21,
        0x2a,
        0x7e,
        0x7f,
        0x80,
        0xff,
        0x6100,
        0x610062,
        0x616263,
        0x61006200,
        0x6120620a,
        0x70656e64696e67,
        0x6c6174657374,
        u64::MAX as u128,
        u128::MAX,
    ];
    let mut seed: u128 = 0x9e37_79b9_7f4a_7c15_f39c_c060_5ced_c835;
    for _ in 0..200 {
        seed = seed.wrapping_mul(0x2545_f491_4f6c_dd1d).wrapping_add(0x1405_7b7e_f767_814f);
        values.push(seed);
        values.push(seed & 0x7f7f_7f7f_7f7f_7f7f_7f7f_7f7f_7f7f_7f7f);
        values.push((seed & 0x3f3f_3f3f) | 0x4040_4040);
    }
    values
}

#[test]
fn bytes_agree_with_the_field_library() {
    for value in samples() {
        let ours = Felt::from_u128(value);
        let theirs = OutsideFelt::from(value);
        assert_eq!(ours.to_bytes_be(), theirs.to_bytes_be());
        assert_eq!(Felt::from_bytes_be(theirs.to_bytes_be()), Some(ours));
    }
}

#[test]
fn largest_element_agrees_with_the_field_library() {
    let largest = OutsideFelt::MAX.to_bytes_be();
    let ours = Felt::from_bytes_be(largest).unwrap();
    assert_eq!(ours.to_bytes_be(), largest);
    assert_eq!(ours.to_u128(), None);
}

#[test]
fn short_strings_agree_with_the_runner() {
    for value in samples() {
        let ours = as_cairo_short_string(&Felt::from_u128(value));
        let theirs = outside_short_string(&OutsideFelt::from(value));
        assert_eq!(ours, theirs, "for {value:#x}");
    }
}

#[test]
fn short_string_of_a_full_word_agrees_with_the_runner() {
    let text = b"0123456789abcdefghijklmnopqrstu";
    let mut bytes = [0u8; 32];
    bytes[1..].copy_from_slice(text);
    let ours = as_cairo_short_string(&Felt::from_bytes_be(bytes).unwrap());
    let theirs = outside_short_string(&OutsideFelt::from_bytes_be(&bytes));
    assert_eq!(ours, theirs);
    assert_eq!(ours, Some("0123456789abcdefghijklmnopqrstu".to_string()));
}

#[test]
fn identifier_is_the_digest_of_the_digest_library() {
    for data in [&b""[..], b"abc", &[0u8; 200], &[0xffu8; 137]] {
        let digest = Sha3_256::digest(data);
        let hex: String = digest.iter().map(|byte| format!("{byte:02x}")).collect();
        assert_eq!(generate_id(data), hex);
    }
}

fn library_version(version: &semver::Version) -> sncast_script::requirements::Version {
    sncast_script::requirements::Version {
        major: version.major,
        minor: version.minor,
        patch: version.patch,
        pre: version.pre.as_str().to_string(),
    }
}

fn version_samples() -> Vec<semver::Version> {
    [
        "0.0.0", "0.44.0", "0.44.1", "0.43.9", "1.44.0", "0.44.0-rc.0", "0.44.0-rc.1",
        "0.44.0-alpha", "2.9.4", "2.10.0", "2.10.0-rc.1", "2.10.1-rc.1", "2.11.0", "3.0.0",
        "1.99.99", "2.10.0-0",
    ]
    .iter()
    .map(|text| semver::Version::parse(text).unwrap())
    .collect()
}

#[test]
fn exact_requirement_agrees_with_semver() {
    for tool in version_samples() {
        let theirs = semver::VersionReq {
            comparators: vec![semver::Comparator {
                op: semver::Op::Exact,
                major: tool.major,
                minor: Some(tool.minor),
                patch: Some(tool.patch),
                pre: tool.pre.clone(),
            }],
        };
        let ours = sncast_script::requirements::sncast_std_version_requirement(&library_version(&tool));
        assert_eq!(ours.text(), theirs.to_string());
        for version in version_samples() {
            assert_eq!(
                ours.matches(&library_version(&version)),
                theirs.matches(&version),
                "{theirs} against {version}"
            );
        }
    }
}

#[test]
fn order_before_a_release_agrees_with_semver() {
    let release = sncast_script::requirements::Release { major: 2, minor: 10, patch: 0 };
    let theirs = semver::Version::new(2, 10, 0);
    for version in version_samples() {
        assert_eq!(library_version(&version).is_before(release), version < theirs, "{version}");
        assert_eq!(sncast_script::requirements::needs_rust(&library_version(&version)), version < theirs);
    }
}

fn alloc_hint(offset: i16) -> cairo_lang_casm::hints::Hint {
    cairo_lang_casm::hints::Hint::Core(cairo_lang_casm::hints::CoreHintBase::Core(
        cairo_lang_casm::hints::CoreHint::AllocSegment {
            dst: cairo_lang_casm::operand::CellRef {
                register: cairo_lang_casm::operand::Register::AP,
                offset,
            },
        },
    ))
}

#[test]
fn hint_tables_agree_with_the_runner() {
    let hints = vec![
        (3usize, vec![alloc_hint(0), alloc_hint(1), alloc_hint(0)]),
        (7, vec![alloc_hint(1)]),
        (3, vec![alloc_hint(2)]),
        (9, vec![]),
        (7, vec![alloc_hint(5), alloc_hint(2)]),
    ];
    let (dict, by_string) = cairo_lang_runner::build_hints_dict(&hints);

    let codes: Vec<sncast_script::hints::OffsetHints> = hints
        .iter()
        .map(|(offset, offset_hints)| sncast_script::hints::OffsetHints {
            offset: *offset,
            codes: offset_hints.iter().map(|hint| hint.representing_string()).collect(),
        })
        .collect();
    let tables = sncast_script::hints::hints_to_params(&codes);

    assert_eq!(tables.by_offset.len(), dict.len());
    for entry in &tables.by_offset {
        let theirs: Vec<String> =
            dict[&codes[*entry].offset].iter().map(|params| params.code.clone()).collect();
        assert_eq!(theirs, codes[*entry].codes);
    }
    assert_eq!(tables.by_code.len(), by_string.len());
    for place in &tables.by_code {
        let code = &codes[place.entry].codes[place.index];
        assert_eq!(by_string.get(code), Some(&hints[place.entry].1[place.index]));
    }
}
