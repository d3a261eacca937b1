use cell_wallet::hash::{bytes_equal, bytes_from_slice, bytes_to_vec, Hash160, Hash256};
use cell_wallet::key::SecretKey;
use cell_wallet::multisig::{MultisigDescriptor, MultisigScript};
use cell_wallet::script::{
    LockScript, HASH_TYPE_DATA, HASH_TYPE_TYPE, MULTISIG_TYPE_HASH, SIGHASH_TYPE_HASH,
};
use ckb_types::prelude::{Builder, Entity, Pack};

fn unhex<const N: usize>(text: &str) -> [u8; N] {
    let mut out = [0u8; N];
    for i in 0..N {
        out[i] = u8::from_str_radix(&text[2 * i..2 * i + 2], 16).unwrap();
    }
    out
}

const DEV_KEY: &str = "d00c06bfd800d27397002dca6fb0993d5ba6399b4238b2f29ee9deb97593d2bc";
const DEV_KEY_HASH: &str = "c8328aabcd9b9e8e64fbc566c4385c3bdeb219d7";
const DEV_LOCK_HASH: &str = "32e555f3ff8e135cece1351a6a2971518392c1e30375c1e006ad0ce8eac07947";

#[test]
fn code_hashes_are_those_of_the_chain() {
    assert_eq!(SIGHASH_TYPE_HASH, ckb_sdk::constants::SIGHASH_TYPE_HASH.0);
    assert_eq!(
        MULTISIG_TYPE_HASH,
        ckb_sdk::constants::MultisigScript::Legacy.script_id().code_hash.0
    );
    assert_eq!(HASH_TYPE_TYPE, ckb_types::core::ScriptHashType::Type as u8);
    assert_eq!(HASH_TYPE_DATA, ckb_types::core::ScriptHashType::Data as u8);
}

#[test]
fn key_hash_of_a_known_key() {
    let key = SecretKey::new(unhex::<32>(DEV_KEY));
    assert_eq!(key.key_hash(), Some(Hash160::new(unhex::<20>(DEV_KEY_HASH))));
}

#[test]
fn key_hash_refuses_what_is_no_key() {
    assert_eq!(SecretKey::new([0u8; 32]).key_hash(), None);
    assert_eq!(SecretKey::new([0xff; 32]).key_hash(), None);
    assert!(SecretKey::new([1u8; 32]).key_hash().is_some());
}

#[test]
fn identity_of_a_known_lock() {
    let lock = LockScript::sighash(&Hash160::new(unhex::<20>(DEV_KEY_HASH)));
    assert_eq!(lock.identity(), Hash256::new(unhex::<32>(DEV_LOCK_HASH)));
    assert_eq!(lock.code_hash.bytes, SIGHASH_TYPE_HASH);
    assert_eq!(lock.hash_type, HASH_TYPE_TYPE);
    assert_eq!(lock.args, unhex::<20>(DEV_KEY_HASH).to_vec());
}

#[test]
fn identity_agrees_with_the_chain_library() {
    let cases: Vec<(Hash256, u8, Vec<u8>)> = vec![
        (Hash256::new(SIGHASH_TYPE_HASH), 1, vec![7; 20]),
        (Hash256::new(MULTISIG_TYPE_HASH), 1, vec![9; 28]),
        (Hash256::new([0; 32]), 0, vec![]),
        (Hash256::new([0xab; 32]), 2, vec![1, 2, 3]),
        (Hash256::new([0xab; 32]), 4, vec![1, 2, 3]),
    ];
    for (code_hash, hash_type, args) in cases {
        let lock = LockScript { code_hash, hash_type, args: args.clone() };
        let script = ckb_types::packed::Script::new_builder()
            .code_hash(ckb_types::packed::Byte32::new(code_hash.bytes))
            .hash_type(ckb_types::packed::Byte::new(hash_type))
            .args(args.as_slice().pack())
            .build();
        let expected = ckb_types::packed::Script::calc_script_hash(&script);
        assert_eq!(&lock.identity().bytes[..], expected.as_slice());
        assert_ne!(lock.identity().bytes, code_hash.bytes);
    }
    let a = LockScript { code_hash: Hash256::new([1; 32]), hash_type: 1, args: vec![1] };
    let b = LockScript { code_hash: Hash256::new([1; 32]), hash_type: 1, args: vec![2] };
    let c = LockScript { code_hash: Hash256::new([1; 32]), hash_type: 0, args: vec![1] };
    assert_ne!(a.identity(), b.identity());
    assert_ne!(a.identity(), c.identity());
    assert_eq!(a.identity(), a.clone_script().identity());
}

#[test]
fn identity_matches_address_payload_of_the_chain_library() {
    let hash = unhex::<20>(DEV_KEY_HASH);
    let payload = ckb_sdk::AddressPayload::from_pubkey_hash(ckb_types::H160(hash));
    let script = ckb_types::packed::Script::from(&payload);
    let lock = LockScript::sighash(&Hash160::new(hash));
    assert_eq!(&lock.identity().bytes[..], script.calc_script_hash().as_slice());
}

#[test]
fn payable_shapes() {
    let key = Hash160::new([5; 20]);
    let single = LockScript::sighash(&key);
    assert!(single.is_single_key());
    assert!(!single.is_multisig());
    assert!(single.is_payable());
    let multisig = |len: usize| LockScript {
        code_hash: Hash256::new(MULTISIG_TYPE_HASH),
        hash_type: HASH_TYPE_TYPE,
        args: vec![1; len],
    };
    assert!(multisig(20).is_multisig());
    assert!(multisig(28).is_multisig());
    assert!(multisig(28).is_payable());
    assert!(!multisig(27).is_payable());
    assert!(!multisig(0).is_payable());
    let by_data = LockScript {
        code_hash: Hash256::new(SIGHASH_TYPE_HASH),
        hash_type: HASH_TYPE_DATA,
        args: vec![1; 20],
    };
    assert!(!by_data.is_payable());
    let long_args = LockScript {
        code_hash: Hash256::new(SIGHASH_TYPE_HASH),
        hash_type: HASH_TYPE_TYPE,
        args: vec![1; 28],
    };
    assert!(!long_args.is_payable());
    let other_code =
        LockScript { code_hash: Hash256::new([3; 32]), hash_type: HASH_TYPE_TYPE, args: vec![1; 20] };
    assert!(!other_code.is_payable());
}

#[test]
fn multisig_hash_of_a_single_key() {
    let key = Hash160::new(unhex::<20>(DEV_KEY_HASH));
    let made = MultisigDescriptor::single(MultisigScript::Legacy, key);
    assert_eq!(
        made.hash160(),
        Hash160::new(unhex::<20>("986b5c23988427044e57d188fee45530d8877bcc"))
    );
    assert_eq!(made.sighash_addresses(), &vec![key]);
    assert_eq!(made.get_threshold(), 1);
    assert_eq!(made.get_require_first_n(), 0);
    assert_eq!(made.get_script(), MultisigScript::Legacy);
    let reference = ckb_sdk::unlock::MultisigConfig::new_with(
        ckb_sdk::constants::MultisigScript::Legacy,
        vec![ckb_types::H160(key.bytes)],
        0,
        1,
    )
    .unwrap();
    assert_eq!(made.hash160().bytes, reference.hash160().0);
    assert_eq!(made.copy(), made);
}

#[test]
fn multisig_descriptor_admissibility() {
    let a = Hash160::new([1; 20]);
    let b = Hash160::new([2; 20]);
    let c = Hash160::new([3; 20]);
    assert!(MultisigDescriptor::new_with(MultisigScript::Legacy, vec![a, b, c], 1, 2).is_some());
    assert!(MultisigDescriptor::new_with(MultisigScript::V2, vec![a, b, c], 3, 3).is_some());
    assert!(MultisigDescriptor::new_with(MultisigScript::Legacy, vec![a, b, c], 0, 0).is_some());
    assert!(MultisigDescriptor::new_with(MultisigScript::Legacy, vec![a, b, a], 1, 2).is_none());
    assert!(MultisigDescriptor::new_with(MultisigScript::Legacy, vec![a, b, c], 1, 4).is_none());
    assert!(MultisigDescriptor::new_with(MultisigScript::Legacy, vec![a, b, c], 3, 2).is_none());
    assert!(MultisigDescriptor::new_with(MultisigScript::Legacy, vec![], 0, 1).is_none());
    assert!(MultisigDescriptor::new_with(MultisigScript::Legacy, vec![], 0, 0).is_some());
    let two = MultisigDescriptor::new_with(MultisigScript::Legacy, vec![a, b], 0, 1).unwrap();
    let swapped = MultisigDescriptor::new_with(MultisigScript::Legacy, vec![b, a], 0, 1).unwrap();
    assert_ne!(two.hash160(), swapped.hash160());
    let stricter = MultisigDescriptor::new_with(MultisigScript::Legacy, vec![a, b], 0, 2).unwrap();
    assert_ne!(two.hash160(), stricter.hash160());
}

#[test]
fn byte_helpers() {
    assert!(bytes_equal(&[1u8, 2, 3], &[1u8, 2, 3]));
    assert!(!bytes_equal(&[1u8, 2, 3], &[1u8, 2, 4]));
    assert_eq!(bytes_from_slice::<3>(&[1, 2, 3]), Some([1u8, 2, 3]));
    assert_eq!(bytes_from_slice::<3>(&[1, 2]), None);
    assert_eq!(bytes_from_slice::<3>(&[1, 2, 3, 4]), None);
    assert_eq!(bytes_to_vec(&[9u8, 8]), vec![9u8, 8]);
    assert_eq!(Hash160::from_slice(&[4u8; 20]), Some(Hash160::new([4; 20])));
    assert_eq!(Hash160::from_slice(&[4u8; 19]), None);
    assert_eq!(Hash256::from_slice(&[4u8; 32]), Some(Hash256::new([4; 32])));
    assert_eq!(Hash256::from_slice(&[4u8; 33]), None);
    assert_eq!(Hash160::new([4; 20]).to_vec(), vec![4u8; 20]);
    assert_eq!(Hash256::new([4; 32]).to_vec(), vec![4u8; 32]);
    assert!(Hash256::zero().is_zero());
    assert!(!Hash256::new([1; 32]).is_zero());
    let mut almost = [0u8; 32];
    almost[31] = 1;
    assert!(!Hash256::new(almost).is_zero());
    assert!(Hash256::new([1; 32]) == Hash256::new([1; 32]));
    assert!(Hash256::new([1; 32]) != Hash256::new(almost));
    assert!(Hash160::new([1; 20]) != Hash160::new([2; 20]));
}
