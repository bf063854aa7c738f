use sha2::Digest;
use wallet_core::account::{check_account_address, AccountAddress, AccountKeys, KeyPair,
    make_signatures};
use wallet_core::bsgs::BabyStepGiantStep;
use wallet_core::elgamal::{PublicKey, SecretKey};
use wallet_core::transactions::{combine_encrypted_amounts, create_encrypted_transfer,
    create_pub_to_sec_transfer, create_sec_to_pub_transfer, create_transfer,
    decrypt_encrypted_amount, make_transaction_bytes, read_sec_to_pub_data, read_transfer_data,
    serialize_sec_to_pub_data, serialize_transfer_data, EncryptedAmountTransferData,
    SecToPubTransferData, TransferContext};
use wallet_core::elgamal::Cipher;
use wallet_core::group::GroupElement;
use wallet_core::{GlobalContext, WalletError};

fn address(byte: u8) -> AccountAddress {
    AccountAddress { bytes: vec![byte; 32] }
}

fn singleton_keys() -> AccountKeys {
    AccountKeys { keys: vec![(0u8, vec![(0u8, KeyPair::generate())])] }
}

fn context(to: Option<AccountAddress>) -> TransferContext {
    TransferContext {
        from: address(1),
        to,
        expiry: 10_000,
        nonce: 7,
        keys: singleton_keys(),
        energy: 500,
    }
}

#[test]
fn plain_transfer_payload_is_41_bytes() {
    let ctx = context(Some(address(2)));
    let out = create_transfer(&ctx, 123).unwrap();
    // body = from(32) ‖ nonce(8) ‖ energy(8) ‖ payload_size(4) ‖ expiry(8) ‖ payload
    assert_eq!(out.body.len(), 32 + 8 + 8 + 4 + 8 + 41);
    // the payload size field says 41
    assert_eq!(&out.body[48..52], &[0, 0, 0, 41]);
    // payload: tag 3, then the recipient, then the amount
    assert_eq!(out.body[60], 3);
    assert_eq!(&out.body[61..93], &[2u8; 32][..]);
    assert_eq!(&out.body[93..101], &123u64.to_be_bytes());
}

#[test]
fn transfer_without_recipient_fails() {
    let ctx = context(None);
    assert_eq!(create_transfer(&ctx, 1).unwrap_err(), WalletError::MissingRecipient);
}

#[test]
fn body_layout_and_hash_match_reference_digest() {
    let ctx = context(Some(address(3)));
    let payload: Vec<u8> = vec![3, 1, 4, 1, 5];
    let (hash, body) = make_transaction_bytes(&ctx, &payload);
    assert_eq!(&body[0..32], &[1u8; 32][..]);
    assert_eq!(&body[32..40], &7u64.to_be_bytes());
    assert_eq!(&body[40..48], &500u64.to_be_bytes());
    assert_eq!(&body[48..52], &5u32.to_be_bytes());
    assert_eq!(&body[52..60], &10_000u64.to_be_bytes());
    assert_eq!(&body[60..], &payload[..]);
    let expected = sha2::Sha256::digest(&body);
    assert_eq!(hash, expected.to_vec());
}

#[test]
fn transaction_hex_matches_reference_encoding() {
    let ctx = context(Some(address(2)));
    let out = create_transfer(&ctx, 9).unwrap();
    assert_eq!(out.transaction_hex(), hex::encode(&out.body));
}

#[test]
fn signatures_verify_under_ed25519() {
    let keys = singleton_keys();
    let secret = keys.keys[0].1[0].1.secret.clone();
    let hash: Vec<u8> = vec![0xab; 32];
    let sigs = make_signatures(&keys, &hash);
    assert_eq!(sigs.signatures.len(), 1);
    assert_eq!(sigs.signatures[0].0, 0);
    let sig_bytes = &sigs.signatures[0].1[0].1.sig;
    assert_eq!(sig_bytes.len(), 64);
    let mut key_arr = [0u8; 32];
    key_arr.copy_from_slice(&secret);
    let signing = ed25519_dalek::SigningKey::from_bytes(&key_arr);
    let verifying = signing.verifying_key();
    assert_eq!(verifying.to_bytes().to_vec(), keys.keys[0].1[0].1.public);
    let mut sig_arr = [0u8; 64];
    sig_arr.copy_from_slice(sig_bytes);
    let sig = ed25519_dalek::Signature::from_bytes(&sig_arr);
    assert!(verifying.verify_strict(&hash, &sig).is_ok());
}

#[test]
fn pub_to_sec_self_encrypts_with_fixed_randomness() {
    let ctx = context(None);
    let global = GlobalContext { generator: GroupElement { v: 21 } };
    let out = create_pub_to_sec_transfer(&ctx, &global, 250);
    assert_eq!(out.added_self_encrypted_amount.c0.v, 0);
    assert_eq!(out.added_self_encrypted_amount.c1.v, 21u64.wrapping_mul(250));
    // payload = tag 17 then the amount
    assert_eq!(out.output.body[60], 17);
    assert_eq!(&out.output.body[61..69], &250u64.to_be_bytes());
}

#[test]
fn encrypted_transfer_rejects_overdraft() {
    let ctx = context(Some(address(4)));
    let sender = SecretKey { generator: GroupElement { v: 3 }, scalar: 77 };
    let receiver = PublicKey::from_secret(&SecretKey {
        generator: GroupElement { v: 3 },
        scalar: 99,
    });
    let table = BabyStepGiantStep::new(&sender.generator, 16);
    let balance = PublicKey::from_secret(&sender).encrypt_in_exponent(40, 5);
    let r = create_encrypted_transfer(&ctx, &receiver, &sender, &balance, 41, &table);
    assert_eq!(r.unwrap_err(), WalletError::InsufficientAmount);
}

#[test]
fn encrypted_transfer_remaining_decrypts() {
    let ctx = context(Some(address(4)));
    let sender = SecretKey { generator: GroupElement { v: 3 }, scalar: 77 };
    let receiver_sk = SecretKey { generator: GroupElement { v: 3 }, scalar: 99 };
    let receiver = PublicKey::from_secret(&receiver_sk);
    let table = BabyStepGiantStep::new(&sender.generator, 16);
    let balance = PublicKey::from_secret(&sender).encrypt_in_exponent(40, 5);
    let out = create_encrypted_transfer(&ctx, &receiver, &sender, &balance, 15, &table).unwrap();
    assert_eq!(decrypt_encrypted_amount(&sender, &out.remaining, &table), 25);
    assert_eq!(out.output.body[60], 16);
}

#[test]
fn sec_to_pub_transfer_builds_and_decrypts() {
    let ctx = context(None);
    let sender = SecretKey { generator: GroupElement { v: 5 }, scalar: 31 };
    let table = BabyStepGiantStep::new(&sender.generator, 16);
    let balance = PublicKey::from_secret(&sender).encrypt_in_exponent(100, 9);
    let out = create_sec_to_pub_transfer(&ctx, &sender, &balance, 60, &table).unwrap();
    assert_eq!(decrypt_encrypted_amount(&sender, &out.remaining, &table), 40);
    assert_eq!(out.output.body[60], 18);
    let over = create_sec_to_pub_transfer(&ctx, &sender, &balance, 101, &table);
    assert_eq!(over.unwrap_err(), WalletError::InsufficientAmount);
}

#[test]
fn combine_encrypted_amounts_folds() {
    let sk = SecretKey { generator: GroupElement { v: 7 }, scalar: 13 };
    let pk = PublicKey::from_secret(&sk);
    let table = BabyStepGiantStep::new(&sk.generator, 16);
    let a = pk.encrypt_in_exponent(8, 1);
    let b = pk.encrypt_in_exponent(9, 2);
    let c = combine_encrypted_amounts(&a, &b);
    assert_eq!(decrypt_encrypted_amount(&sk, &c, &table), 17);
}

#[test]
fn account_address_text_check() {
    let good: Vec<u8> = b"0123456789abcdef0123456789abcdef0123456789abcdef0123456789abcdef"
        .to_vec();
    assert!(check_account_address(&good));
    let short: Vec<u8> = b"0123".to_vec();
    assert!(!check_account_address(&short));
    let bad: Vec<u8> = b"0123456789abcdeg0123456789abcdef0123456789abcdef0123456789abcdef"
        .to_vec();
    assert!(!check_account_address(&bad));
    let upper: Vec<u8> = b"0123456789ABCDEF0123456789abcdef0123456789abcdef0123456789abcdef"
        .to_vec();
    assert!(!check_account_address(&upper));
}

#[test]
fn account_address_is_digest_of_reg_id() {
    let reg_id = GroupElement { v: 0x0102030405060708 };
    let addr = AccountAddress::new(&reg_id);
    let expected = sha2::Sha256::digest(0x0102030405060708u64.to_be_bytes());
    assert_eq!(addr.bytes, expected.to_vec());
}

#[test]
fn transfer_data_bundle_round_trip() {
    let d = EncryptedAmountTransferData {
        remaining_amount: Cipher {
            c0: GroupElement { v: 11 },
            c1: GroupElement { v: 22 },
        },
        transfer_amount: Cipher {
            c0: GroupElement { v: 33 },
            c1: GroupElement { v: 44 },
        },
        proof: vec![5, 6, 7],
    };
    let ser = serialize_transfer_data(&d);
    assert_eq!(ser.len(), 36 + 3);
    let (back, end) = read_transfer_data(&ser, 0).unwrap();
    assert_eq!(back, d);
    assert_eq!(end, ser.len());
    let truncated: Vec<u8> = ser[..ser.len() - 1].to_vec();
    assert!(read_transfer_data(&truncated, 0).is_none());
}

#[test]
fn sec_to_pub_data_bundle_round_trip() {
    let d = SecToPubTransferData {
        remaining_amount: Cipher {
            c0: GroupElement { v: 987 },
            c1: GroupElement { v: 654 },
        },
        transfer_amount: 321,
        proof: vec![1; 32],
    };
    let ser = serialize_sec_to_pub_data(&d);
    assert_eq!(ser.len(), 28 + 32);
    let (back, end) = read_sec_to_pub_data(&ser, 0).unwrap();
    assert_eq!(back, d);
    assert_eq!(end, ser.len());
    assert!(read_sec_to_pub_data(&ser, 1).is_none());
}
