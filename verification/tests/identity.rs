use sncast_script::felt::Felt;
use sncast_script::hashing::{
    generate_declare_tx_id, generate_declare_tx_id_from_bytes, generate_deploy_tx_id,
    generate_id, generate_invoke_tx_id,
};
use sncast_script::text::hex_encode;

fn felts(values: &[u64]) -> Vec<Felt> {
    values.iter().map(|v| Felt::from_u64(*v)).collect()
}

#[test]
fn hex_encode_writes_two_digits_per_byte() {
    assert_eq!(hex_encode(&[]), "");
    assert_eq!(hex_encode(&[0x00, 0x0f, 0xa0, 0xff]), "000fa0ff");
    assert_eq!(hex_encode(b"abc"), "616263");
}

#[test]
fn generate_id_is_the_digest_in_hex() {
    assert_eq!(
        generate_id(&[]),
        "a7ffc6f8bf1ed76651c14756a061d662f580ff4de43b49fa82d80a4b80f8434a"
    );
    assert_eq!(
        generate_id(b"abc"),
        "3a985da74fe225b2045c172d6bd390bd855f086e3e9d525b46bfe24511431532"
    );
}

#[test]
fn declare_id_of_token() {
    assert_eq!(
        generate_declare_tx_id("Token"),
        "8b60e6f1f1421bf244a00e8f0cf8b61af311996ce8e354fa81794c38b1c28b1f"
    );
    assert_eq!(generate_declare_tx_id_from_bytes(b"Token"), generate_declare_tx_id("Token"));
}

#[test]
fn deploy_id_has_exact_value() {
    let id = generate_deploy_tx_id(
        Felt::from_u64(0x1234),
        &felts(&[1, 2]),
        Some(Felt::from_u64(0x99)),
        true,
    );
    assert_eq!(id, "796a51f2c8b21b89dbab8d2fde00e095f6670a14557165393ede1c2f0b58476e");
}

#[test]
fn invoke_id_has_exact_value() {
    let id = generate_invoke_tx_id(Felt::from_u64(0xabc), Felt::from_u64(0xdef), &felts(&[7, 8, 9]));
    assert_eq!(id, "d7182d0da07a334cb58c752623eecad768b1af9d09788f35dc02ec80d43d1554");
}

#[test]
fn identity_is_stable() {
    let class_hash = Felt::from_u64(0x1234);
    let calldata = felts(&[1, 2]);
    let salt = Some(Felt::from_u64(0x99));
    let first = generate_deploy_tx_id(class_hash, &calldata, salt, true);
    let second = generate_deploy_tx_id(class_hash, &calldata, salt, true);
    assert_eq!(first, second);
    assert_eq!(generate_declare_tx_id("Token"), generate_declare_tx_id("Token"));
    assert_eq!(
        generate_invoke_tx_id(class_hash, class_hash, &calldata),
        generate_invoke_tx_id(class_hash, class_hash, &calldata)
    );
}

#[test]
fn deploy_identity_tells_unique_from_not_unique() {
    let class_hash = Felt::from_u64(0x1234);
    let calldata = felts(&[1, 2]);
    let salt = Some(Felt::from_u64(0x99));
    let unique = generate_deploy_tx_id(class_hash, &calldata, salt, true);
    let not_unique = generate_deploy_tx_id(class_hash, &calldata, salt, false);
    assert_ne!(unique, not_unique);
    assert_eq!(not_unique, "a10617b566fb8c53bebc88f9dd273b08e08672208cfd83ed40aaa4455b425063");
}

#[test]
fn deploy_identity_changes_with_each_argument() {
    let class_hash = Felt::from_u64(0x1234);
    let calldata = felts(&[1, 2]);
    let salt = Some(Felt::from_u64(0x99));
    let base = generate_deploy_tx_id(class_hash, &calldata, salt, true);
    assert_ne!(base, generate_deploy_tx_id(Felt::from_u64(0x1235), &calldata, salt, true));
    assert_ne!(base, generate_deploy_tx_id(class_hash, &felts(&[1, 3]), salt, true));
    assert_ne!(base, generate_deploy_tx_id(class_hash, &felts(&[1]), salt, true));
    assert_ne!(base, generate_deploy_tx_id(class_hash, &calldata, Some(Felt::from_u64(0x98)), true));
    let no_salt = generate_deploy_tx_id(class_hash, &calldata, None, true);
    assert_ne!(base, no_salt);
    assert_eq!(no_salt, "d83e32bbffdd9c365b7f27f785e241903c14a31b5f03a1c8ccc9a44949fd6610");
}

#[test]
fn calldata_order_is_part_of_the_identity() {
    let class_hash = Felt::from_u64(0x1234);
    let salt = Some(Felt::from_u64(0x99));
    let swapped = generate_deploy_tx_id(class_hash, &felts(&[2, 1]), salt, true);
    assert_eq!(swapped, "ac52268dae5ff66b0730beaeb1aa7bc2c7c823eab2e69c6e73b560792c488b81");
    assert_ne!(swapped, generate_deploy_tx_id(class_hash, &felts(&[1, 2]), salt, true));
    let address = Felt::from_u64(1);
    let selector = Felt::from_u64(2);
    assert_ne!(
        generate_invoke_tx_id(address, selector, &felts(&[5, 6])),
        generate_invoke_tx_id(address, selector, &felts(&[6, 5]))
    );
}

#[test]
fn salt_is_not_taken_for_calldata() {
    let class_hash = Felt::from_u64(0x1234);
    let with_salt = generate_deploy_tx_id(class_hash, &[], Some(Felt::from_u64(1)), false);
    let with_calldata = generate_deploy_tx_id(class_hash, &felts(&[1]), None, false);
    assert_ne!(with_salt, with_calldata);
}

#[test]
fn invoke_identity_changes_with_each_argument() {
    let address = Felt::from_u64(0xabc);
    let selector = Felt::from_u64(0xdef);
    let calldata = felts(&[7, 8, 9]);
    let base = generate_invoke_tx_id(address, selector, &calldata);
    assert_ne!(base, generate_invoke_tx_id(Felt::from_u64(0xabd), selector, &calldata));
    assert_ne!(base, generate_invoke_tx_id(address, Felt::from_u64(0xdee), &calldata));
    assert_ne!(base, generate_invoke_tx_id(address, selector, &felts(&[7, 8])));
    assert_ne!(base, generate_invoke_tx_id(selector, address, &calldata));
}

#[test]
fn declare_identity_changes_with_the_name() {
    assert_ne!(generate_declare_tx_id("Token"), generate_declare_tx_id("token"));
    assert_ne!(generate_declare_tx_id("Token"), generate_declare_tx_id("Token2"));
    assert_ne!(generate_declare_tx_id(""), generate_declare_tx_id("a"));
}

#[test]
fn kinds_do_not_share_identities() {
    let felt = Felt::from_u64(0);
    let declare = generate_declare_tx_id("");
    let deploy = generate_deploy_tx_id(felt, &[], None, false);
    let invoke = generate_invoke_tx_id(felt, felt, &[]);
    assert_ne!(declare, deploy);
    assert_ne!(declare, invoke);
    assert_ne!(deploy, invoke);
}

#[test]
fn identity_has_fixed_width() {
    let long: Vec<Felt> = (0..100).map(Felt::from_u64).collect();
    assert_eq!(generate_declare_tx_id("").len(), 64);
    assert_eq!(generate_invoke_tx_id(long[0], long[1], &long).len(), 64);
    assert!(generate_declare_tx_id("Token").chars().all(|c| c.is_ascii_hexdigit() && !c.is_ascii_uppercase()));
}
