//! Deterministic identifiers of chain transactions.
//!
//! A transaction is identified by the SHA3-256 digest of an encoding of what
//! it does: the kind of operation and the arguments that make it a distinct
//! operation on the chain. The encoding is injective, so two identifiers can
//! only coincide for different operations where the digest collides.

use crate::felt::Felt;
use crate::text::{hex_encode, hex_lower, lemma_hex_lower_injective};
use sha3::Digest;
use vstd::prelude::*;
use vstd::string::StringSliceAdditionalSpecFns;

verus! {

/// First byte of the encoding of a declare operation.
pub const DECLARE_TAG: u8 = 1;

/// First byte of the encoding of a deploy operation.
pub const DEPLOY_TAG: u8 = 2;

/// First byte of the encoding of an invoke operation.
pub const INVOKE_TAG: u8 = 3;

/// The SHA3-256 digest of `data`: what `Sha3_256::digest` of the sha3 crate
/// returns for these bytes.
pub uninterp spec fn sha3_256_digest(data: Seq<u8>) -> Seq<u8>;

/// Calls `Sha3_256::digest` of the sha3 crate, which returns the SHA3-256
/// digest of the bytes it is given, 32 bytes long.
#[verifier::external_body]
fn sha3_256(data: &[u8]) -> (digest: Vec<u8>)
    ensures
        digest@ == sha3_256_digest(data@),
        digest@.len() == 32,
{
    sha3::Sha3_256::digest(data).to_vec()
}

/// The bytes of the felts, one after the other.
pub open spec fn felts_bytes(felts: Seq<Felt>) -> Seq<u8> {
    Seq::new(32 * felts.len(), |i: int| felts[i / 32]@[i % 32])
}

/// The encoding of an optional salt: a flag, then the salt where there is
/// one.
pub open spec fn salt_bytes(salt: Option<Felt>) -> Seq<u8> {
    match salt {
        None => seq![0u8],
        Some(felt) => seq![1u8] + felt@,
    }
}

/// The encoding of a flag.
pub open spec fn flag_byte(flag: bool) -> u8 {
    if flag {
        1
    } else {
        0
    }
}

/// The encoding of declaring the contract with this name.
pub open spec fn declare_preimage(contract_name: Seq<u8>) -> Seq<u8> {
    seq![DECLARE_TAG] + contract_name
}

/// The encoding of deploying a class with these constructor arguments.
pub open spec fn deploy_preimage(
    class_hash: Felt,
    constructor_calldata: Seq<Felt>,
    salt: Option<Felt>,
    unique: bool,
) -> Seq<u8> {
    seq![DEPLOY_TAG] + class_hash@ + seq![flag_byte(unique)] + salt_bytes(salt) + felts_bytes(
        constructor_calldata,
    )
}

/// The encoding of invoking an entry point of a contract with this calldata.
pub open spec fn invoke_preimage(
    contract_address: Felt,
    function_selector: Felt,
    calldata: Seq<Felt>,
) -> Seq<u8> {
    seq![INVOKE_TAG] + contract_address@ + function_selector@ + felts_bytes(calldata)
}

/// The identifier of the operation with this encoding.
pub open spec fn tx_id(preimage: Seq<u8>) -> Seq<char> {
    hex_lower(sha3_256_digest(preimage))
}

/// The identifier of declaring the contract whose name has these bytes.
pub open spec fn declare_tx_id(contract_name: Seq<u8>) -> Seq<char> {
    tx_id(declare_preimage(contract_name))
}

/// The identifier of deploying a class with these constructor arguments.
pub open spec fn deploy_tx_id(
    class_hash: Felt,
    constructor_calldata: Seq<Felt>,
    salt: Option<Felt>,
    unique: bool,
) -> Seq<char> {
    tx_id(deploy_preimage(class_hash, constructor_calldata, salt, unique))
}

/// The identifier of invoking an entry point of a contract with this
/// calldata.
pub open spec fn invoke_tx_id(
    contract_address: Felt,
    function_selector: Felt,
    calldata: Seq<Felt>,
) -> Seq<char> {
    tx_id(invoke_preimage(contract_address, function_selector, calldata))
}

/// Two different byte strings with one digest.
pub open spec fn digest_collision(a: Seq<u8>, b: Seq<u8>) -> bool {
    a != b && sha3_256_digest(a) == sha3_256_digest(b)
}

fn push_felt(out: &mut Vec<u8>, felt: &Felt)
    ensures
        final(out)@ == old(out)@ + felt@,
{
    let bytes = felt.to_bytes_be();
    let mut k: usize = 0;
    proof {
        felt.lemma_len();
    }
    while k < 32
        invariant
            k <= 32,
            bytes@ == felt@,
            felt@.len() == 32,
            out@ == old(out)@ + felt@.take(k as int),
        decreases 32 - k,
    {
        out.push(bytes[k]);
        assert(felt@.take(k + 1) =~= felt@.take(k as int).push(felt@[k as int]));
        k = k + 1;
    }
    assert(felt@.take(32) =~= felt@);
}

fn push_felts(out: &mut Vec<u8>, felts: &[Felt])
    ensures
        final(out)@ == old(out)@ + felts_bytes(felts@),
{
    let mut i: usize = 0;
    assert(felts_bytes(felts@.take(0)) =~= Seq::<u8>::empty());
    while i < felts.len()
        invariant
            i <= felts.len(),
            out@ == old(out)@ + felts_bytes(felts@.take(i as int)),
        decreases felts.len() - i,
    {
        push_felt(out, &felts[i]);
        proof {
            felts@[i as int].lemma_len();
            assert(felts_bytes(felts@.take(i + 1)) =~= felts_bytes(felts@.take(i as int))
                + felts@[i as int]@);
        }
        i = i + 1;
    }
    assert(felts@.take(felts.len() as int) =~= felts@);
}

/// The identifier of the operation with this encoding: its digest in
/// hexadecimal.
pub fn generate_id(preimage: &[u8]) -> (id: String)
    ensures
        id@ == tx_id(preimage@),
{
    let digest = sha3_256(preimage);
    hex_encode(digest.as_slice())
}

/// The identifier of declaring the contract whose name has these bytes.
pub fn generate_declare_tx_id_from_bytes(contract_name: &[u8]) -> (id: String)
    ensures
        id@ == declare_tx_id(contract_name@),
{
    let mut preimage: Vec<u8> = Vec::new();
    preimage.push(DECLARE_TAG);
    let mut i: usize = 0;
    while i < contract_name.len()
        invariant
            i <= contract_name.len(),
            preimage@ == seq![DECLARE_TAG] + contract_name@.take(i as int),
        decreases contract_name.len() - i,
    {
        preimage.push(contract_name[i]);
        assert(contract_name@.take(i + 1) =~= contract_name@.take(i as int).push(
            contract_name@[i as int],
        ));
        i = i + 1;
    }
    assert(contract_name@.take(contract_name.len() as int) =~= contract_name@);
    generate_id(preimage.as_slice())
}

/// The identifier of declaring the contract with this name.
pub fn generate_declare_tx_id(contract_name: &str) -> (id: String)
    ensures
        id@ == declare_tx_id(contract_name.spec_bytes()),
{
    generate_declare_tx_id_from_bytes(contract_name.as_bytes())
}

/// The identifier of deploying a class with these constructor arguments.
/// Whether the deployment is unique is part of what is identified.
pub fn generate_deploy_tx_id(
    class_hash: Felt,
    constructor_calldata: &[Felt],
    salt: Option<Felt>,
    unique: bool,
) -> (id: String)
    ensures
        id@ == deploy_tx_id(class_hash, constructor_calldata@, salt, unique),
{
    let mut preimage: Vec<u8> = Vec::new();
    preimage.push(DEPLOY_TAG);
    push_felt(&mut preimage, &class_hash);
    preimage.push(if unique {
        1
    } else {
        0
    });
    match salt {
        None => {
            preimage.push(0);
        },
        Some(felt) => {
            preimage.push(1);
            push_felt(&mut preimage, &felt);
        },
    }
    assert(preimage@ =~= seq![DEPLOY_TAG] + class_hash@ + seq![flag_byte(unique)] + salt_bytes(
        salt,
    ));
    push_felts(&mut preimage, constructor_calldata);
    generate_id(preimage.as_slice())
}

/// The identifier of invoking an entry point of a contract with this
/// calldata.
pub fn generate_invoke_tx_id(
    contract_address: Felt,
    function_selector: Felt,
    calldata: &[Felt],
) -> (id: String)
    ensures
        id@ == invoke_tx_id(contract_address, function_selector, calldata@),
{
    let mut preimage: Vec<u8> = Vec::new();
    preimage.push(INVOKE_TAG);
    push_felt(&mut preimage, &contract_address);
    push_felt(&mut preimage, &function_selector);
    push_felts(&mut preimage, calldata);
    generate_id(preimage.as_slice())
}

/// Where two concatenations are equal and their first parts have one
/// length, the parts are equal.
pub proof fn lemma_concat_split(a1: Seq<u8>, r1: Seq<u8>, a2: Seq<u8>, r2: Seq<u8>)
    requires
        a1 + r1 == a2 + r2,
        a1.len() == a2.len(),
    ensures
        a1 == a2,
        r1 == r2,
{
    let n = a1.len() as int;
    assert(a1 =~= (a1 + r1).subrange(0, n));
    assert(a2 =~= (a2 + r2).subrange(0, n));
    assert(r1 =~= (a1 + r1).subrange(n, (a1 + r1).len() as int));
    assert(r2 =~= (a2 + r2).subrange(n, (a2 + r2).len() as int));
}

/// Lists of felts with the same bytes are the same list.
pub proof fn lemma_felts_bytes_injective(a: Seq<Felt>, b: Seq<Felt>)
    requires
        felts_bytes(a) == felts_bytes(b),
    ensures
        a == b,
{
    assert(felts_bytes(a).len() == 32 * a.len());
    assert(felts_bytes(b).len() == 32 * b.len());
    assert forall|i: int| 0 <= i < a.len() implies a[i] == b[i] by {
        a[i].lemma_len();
        b[i].lemma_len();
        assert forall|k: int| 0 <= k < 32 implies a[i]@[k] == b[i]@[k] by {
            let j = 32 * i + k;
            assert(j / 32 == i && j % 32 == k);
            assert(felts_bytes(a)[j] == a[i]@[k]);
            assert(felts_bytes(b)[j] == b[i]@[k]);
        }
        assert(a[i]@ =~= b[i]@);
        a[i].lemma_bytes_injective(b[i]);
    }
    assert(a =~= b);
}

/// An optional salt can be read back from the front of what follows it.
pub proof fn lemma_salt_split(s1: Option<Felt>, r1: Seq<u8>, s2: Option<Felt>, r2: Seq<u8>)
    requires
        salt_bytes(s1) + r1 == salt_bytes(s2) + r2,
    ensures
        s1 == s2,
        r1 == r2,
{
    let whole1 = salt_bytes(s1) + r1;
    let whole2 = salt_bytes(s2) + r2;
    assert(whole1[0] == salt_bytes(s1)[0]);
    assert(whole2[0] == salt_bytes(s2)[0]);
    match (s1, s2) {
        (Some(f1), Some(f2)) => {
            f1.lemma_len();
            f2.lemma_len();
            lemma_concat_split(salt_bytes(s1), r1, salt_bytes(s2), r2);
            lemma_concat_split(seq![1u8], f1@, seq![1u8], f2@);
            f1.lemma_bytes_injective(f2);
        },
        (None, None) => {
            lemma_concat_split(salt_bytes(s1), r1, salt_bytes(s2), r2);
        },
        _ => {},
    }
}

/// A declare encoding determines the contract name.
pub proof fn lemma_declare_preimage_injective(name_a: Seq<u8>, name_b: Seq<u8>)
    requires
        declare_preimage(name_a) == declare_preimage(name_b),
    ensures
        name_a == name_b,
{
    lemma_concat_split(seq![DECLARE_TAG], name_a, seq![DECLARE_TAG], name_b);
}

/// A deploy encoding determines each of the arguments.
pub proof fn lemma_deploy_preimage_injective(
    class_hash_a: Felt,
    calldata_a: Seq<Felt>,
    salt_a: Option<Felt>,
    unique_a: bool,
    class_hash_b: Felt,
    calldata_b: Seq<Felt>,
    salt_b: Option<Felt>,
    unique_b: bool,
)
    requires
        deploy_preimage(class_hash_a, calldata_a, salt_a, unique_a) == deploy_preimage(
            class_hash_b,
            calldata_b,
            salt_b,
            unique_b,
        ),
    ensures
        class_hash_a == class_hash_b,
        calldata_a == calldata_b,
        salt_a == salt_b,
        unique_a == unique_b,
{
    class_hash_a.lemma_len();
    class_hash_b.lemma_len();
    let tag = seq![DEPLOY_TAG];
    let tail_a = salt_bytes(salt_a) + felts_bytes(calldata_a);
    let tail_b = salt_bytes(salt_b) + felts_bytes(calldata_b);
    let flagged_a = seq![flag_byte(unique_a)] + tail_a;
    let flagged_b = seq![flag_byte(unique_b)] + tail_b;
    let body_a = class_hash_a@ + flagged_a;
    let body_b = class_hash_b@ + flagged_b;
    assert(deploy_preimage(class_hash_a, calldata_a, salt_a, unique_a) =~= tag + body_a);
    assert(deploy_preimage(class_hash_b, calldata_b, salt_b, unique_b) =~= tag + body_b);
    lemma_concat_split(tag, body_a, tag, body_b);
    lemma_concat_split(class_hash_a@, flagged_a, class_hash_b@, flagged_b);
    class_hash_a.lemma_bytes_injective(class_hash_b);
    lemma_concat_split(seq![flag_byte(unique_a)], tail_a, seq![flag_byte(unique_b)], tail_b);
    assert(seq![flag_byte(unique_a)][0] == seq![flag_byte(unique_b)][0]);
    lemma_salt_split(salt_a, felts_bytes(calldata_a), salt_b, felts_bytes(calldata_b));
    lemma_felts_bytes_injective(calldata_a, calldata_b);
}

/// An invoke encoding determines each of the arguments.
pub proof fn lemma_invoke_preimage_injective(
    address_a: Felt,
    selector_a: Felt,
    calldata_a: Seq<Felt>,
    address_b: Felt,
    selector_b: Felt,
    calldata_b: Seq<Felt>,
)
    requires
        invoke_preimage(address_a, selector_a, calldata_a) == invoke_preimage(
            address_b,
            selector_b,
            calldata_b,
        ),
    ensures
        address_a == address_b,
        selector_a == selector_b,
        calldata_a == calldata_b,
{
    address_a.lemma_len();
    address_b.lemma_len();
    selector_a.lemma_len();
    selector_b.lemma_len();
    let tag = seq![INVOKE_TAG];
    let tail_a = selector_a@ + felts_bytes(calldata_a);
    let tail_b = selector_b@ + felts_bytes(calldata_b);
    let body_a = address_a@ + tail_a;
    let body_b = address_b@ + tail_b;
    assert(invoke_preimage(address_a, selector_a, calldata_a) =~= tag + body_a);
    assert(invoke_preimage(address_b, selector_b, calldata_b) =~= tag + body_b);
    lemma_concat_split(tag, body_a, tag, body_b);
    lemma_concat_split(address_a@, tail_a, address_b@, tail_b);
    lemma_concat_split(selector_a@, felts_bytes(calldata_a), selector_b@, felts_bytes(calldata_b));
    address_a.lemma_bytes_injective(address_b);
    selector_a.lemma_bytes_injective(selector_b);
    lemma_felts_bytes_injective(calldata_a, calldata_b);
}

/// Two encodings get one identifier only where they are the same encoding
/// or the digest collides on them.
pub proof fn law_tx_id_discrimination(a: Seq<u8>, b: Seq<u8>)
    ensures
        tx_id(a) == tx_id(b) ==> a == b || digest_collision(a, b),
{
    if tx_id(a) == tx_id(b) {
        lemma_hex_lower_injective(sha3_256_digest(a), sha3_256_digest(b));
    }
}

/// Identifiers discriminate declares: another contract name gives another
/// identifier, unless the digest collides on the two encodings.
pub proof fn law_declare_identity_discrimination(name_a: Seq<u8>, name_b: Seq<u8>)
    ensures
        declare_tx_id(name_a) == declare_tx_id(name_b) ==> name_a == name_b || digest_collision(
            declare_preimage(name_a),
            declare_preimage(name_b),
        ),
{
    let pa = declare_preimage(name_a);
    let pb = declare_preimage(name_b);
    law_tx_id_discrimination(pa, pb);
    if pa == pb {
        lemma_declare_preimage_injective(name_a, name_b);
    }
}

/// Identifiers discriminate deploys: changing the class hash, the
/// constructor calldata (its order too), the salt or the uniqueness flag
/// gives another identifier, unless the digest collides on the two
/// encodings.
pub proof fn law_deploy_identity_discrimination(
    class_hash_a: Felt,
    calldata_a: Seq<Felt>,
    salt_a: Option<Felt>,
    unique_a: bool,
    class_hash_b: Felt,
    calldata_b: Seq<Felt>,
    salt_b: Option<Felt>,
    unique_b: bool,
)
    ensures
        deploy_tx_id(class_hash_a, calldata_a, salt_a, unique_a) == deploy_tx_id(
            class_hash_b,
            calldata_b,
            salt_b,
            unique_b,
        ) ==> (class_hash_a == class_hash_b && calldata_a == calldata_b && salt_a == salt_b
            && unique_a == unique_b) || digest_collision(
            deploy_preimage(class_hash_a, calldata_a, salt_a, unique_a),
            deploy_preimage(class_hash_b, calldata_b, salt_b, unique_b),
        ),
{
    let pa = deploy_preimage(class_hash_a, calldata_a, salt_a, unique_a);
    let pb = deploy_preimage(class_hash_b, calldata_b, salt_b, unique_b);
    law_tx_id_discrimination(pa, pb);
    if pa == pb {
        lemma_deploy_preimage_injective(
            class_hash_a,
            calldata_a,
            salt_a,
            unique_a,
            class_hash_b,
            calldata_b,
            salt_b,
            unique_b,
        );
    }
}

/// Identifiers discriminate invokes: changing the contract address, the
/// entry point or the calldata (its order too) gives another identifier,
/// unless the digest collides on the two encodings.
pub proof fn law_invoke_identity_discrimination(
    address_a: Felt,
    selector_a: Felt,
    calldata_a: Seq<Felt>,
    address_b: Felt,
    selector_b: Felt,
    calldata_b: Seq<Felt>,
)
    ensures
        invoke_tx_id(address_a, selector_a, calldata_a) == invoke_tx_id(
            address_b,
            selector_b,
            calldata_b,
        ) ==> (address_a == address_b && selector_a == selector_b && calldata_a == calldata_b)
            || digest_collision(
            invoke_preimage(address_a, selector_a, calldata_a),
            invoke_preimage(address_b, selector_b, calldata_b),
        ),
{
    let pa = invoke_preimage(address_a, selector_a, calldata_a);
    let pb = invoke_preimage(address_b, selector_b, calldata_b);
    law_tx_id_discrimination(pa, pb);
    if pa == pb {
        lemma_invoke_preimage_injective(
            address_a,
            selector_a,
            calldata_a,
            address_b,
            selector_b,
            calldata_b,
        );
    }
}

} // verus!
