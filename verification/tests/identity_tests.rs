use wallet_core::account::AccountAddress;
use wallet_core::group::GroupElement;
use wallet_core::identity::{build_policy, create_credential, create_id_request_and_private_data,
    generate_accounts, AccCredentialInfo, ArInfo, AttributeList, CredentialHolderInfo,
    CredentialTarget, IdCredentials, IdentityObject, IdObjectUseData, IpInfo};
use wallet_core::prf::PrfKey;
use wallet_core::elgamal::{PublicKey, SecretKey};
use wallet_core::{GlobalContext, WalletError};

fn global() -> GlobalContext {
    GlobalContext { generator: GroupElement { v: 7 } }
}

fn provider() -> IpInfo {
    IpInfo { id_identity: String::from("provider-one"), id_verify_key: vec![1, 2, 3] }
}

fn revoker(id: u32, scalar: u64) -> ArInfo {
    let sk = SecretKey { generator: GroupElement { v: 7 }, scalar };
    ArInfo { ar_identity: id, ar_public_key: PublicKey::from_secret(&sk) }
}

fn attribute_list() -> AttributeList {
    AttributeList {
        valid_to: 2030,
        created_at: 2020,
        max_accounts: 5,
        alist: vec![(1u8, b"al".to_vec()), (3u8, b"doe".to_vec()), (8u8, b"aa".to_vec())],
    }
}

fn identity_object_for(out: &wallet_core::identity::IdRequestOutput) -> IdentityObject {
    IdentityObject {
        id_provider: provider(),
        pre_identity_object: out.pio.clone(),
        sig: vec![9; 64],
    }
}

#[test]
fn empty_revoker_set_is_rejected() {
    let ars: Vec<ArInfo> = Vec::new();
    let r = create_id_request_and_private_data(&provider(), &ars, &global(),
        String::from("ah"), attribute_list());
    assert_eq!(r.unwrap_err(), WalletError::EmptyRevokerSet);
}

#[test]
fn threshold_tolerates_loss_of_one_revoker() {
    let ars = vec![revoker(1, 10), revoker(2, 20), revoker(3, 30)];
    let out = create_id_request_and_private_data(&provider(), &ars, &global(),
        String::from("ah"), attribute_list()).unwrap();
    assert_eq!(out.pio.threshold, 2);
    assert_eq!(out.pio.id_ar_data.len(), 3);
    assert_eq!(out.pio.id_ar_data[1].ar_identity, 2);
}

#[test]
fn single_revoker_threshold_is_one() {
    let ars = vec![revoker(1, 10)];
    let out = create_id_request_and_private_data(&provider(), &ars, &global(),
        String::from("ah"), attribute_list()).unwrap();
    assert_eq!(out.pio.threshold, 1);
}

#[test]
fn initial_account_links_encryption_key_to_address() {
    let ars = vec![revoker(1, 10)];
    let out = create_id_request_and_private_data(&provider(), &ars, &global(),
        String::from("ah"), attribute_list()).unwrap();
    let key = out.id_use_data.aci.prf_key;
    assert_eq!(Some(out.encryption_secret_key.scalar), key.prf_exponent(0));
    let reg_id = key.prf(&global().generator, 0).unwrap();
    assert_eq!(out.reg_id, reg_id);
    assert_eq!(out.account_address, AccountAddress::new(&reg_id));
}

#[test]
fn duplicate_reveal_is_rejected() {
    let alist = attribute_list();
    let tags: Vec<u8> = vec![1, 3, 1];
    assert_eq!(build_policy(&alist, &tags).unwrap_err(), WalletError::DuplicateReveal);
}

#[test]
fn unknown_attribute_is_rejected() {
    let alist = attribute_list();
    let tags: Vec<u8> = vec![1, 2];
    assert_eq!(build_policy(&alist, &tags).unwrap_err(), WalletError::UnknownAttribute);
}

#[test]
fn policy_carries_window_and_reveals_in_canonical_order() {
    let alist = attribute_list();
    let tags: Vec<u8> = vec![8, 1];
    let p = build_policy(&alist, &tags).unwrap();
    assert_eq!(p.valid_to, 2030);
    assert_eq!(p.created_at, 2020);
    assert_eq!(p.policy_vec.len(), 2);
    assert_eq!(p.policy_vec[0].0, 1);
    assert_eq!(p.policy_vec[0].1, b"al".to_vec());
    assert_eq!(p.policy_vec[1].0, 8);
}

#[test]
fn credential_flow_links_address_and_encryption_key() {
    // one identity provider, one anonymity revoker, account number zero,
    // no revealed attributes
    let g = global();
    let ars = vec![revoker(1, 10)];
    let out = create_id_request_and_private_data(&provider(), &ars, &g,
        String::from("ah"), attribute_list()).unwrap();
    let id_object = identity_object_for(&out);
    let tags: Vec<u8> = Vec::new();
    let cred = create_credential(&g, &id_object, &out.id_use_data, 0, &tags,
        &CredentialTarget::NewAccount { expiry: 12345 }).unwrap();
    let key = out.id_use_data.aci.prf_key;
    assert_eq!(cred.account_address, AccountAddress::new(&cred.cdi.reg_id));
    assert_eq!(Some(cred.encryption_secret_key.scalar), key.prf_exponent(0));
    assert_eq!(cred.cdi.policy.valid_to, 2030);
    assert_eq!(cred.cdi.policy.policy_vec.len(), 0);
    assert_eq!(cred.cdi.threshold, 1);
}

#[test]
fn credential_for_existing_account_keeps_address() {
    let g = global();
    let ars = vec![revoker(1, 10)];
    let out = create_id_request_and_private_data(&provider(), &ars, &g,
        String::from("ah"), attribute_list()).unwrap();
    let id_object = identity_object_for(&out);
    let tags: Vec<u8> = vec![3];
    let target = AccountAddress { bytes: vec![5; 32] };
    let cred = create_credential(&g, &id_object, &out.id_use_data, 2, &tags,
        &CredentialTarget::ExistingAccount { address: target.clone() }).unwrap();
    assert_eq!(cred.account_address, target);
    assert_eq!(cred.cdi.policy.policy_vec, vec![(3u8, b"doe".to_vec())]);
}

#[test]
fn credential_rejects_bad_policy() {
    let g = global();
    let ars = vec![revoker(1, 10)];
    let out = create_id_request_and_private_data(&provider(), &ars, &g,
        String::from("ah"), attribute_list()).unwrap();
    let id_object = identity_object_for(&out);
    let dup: Vec<u8> = vec![3, 3];
    let r = create_credential(&g, &id_object, &out.id_use_data, 0, &dup,
        &CredentialTarget::NewAccount { expiry: 1 });
    assert_eq!(r.unwrap_err(), WalletError::DuplicateReveal);
    let unknown: Vec<u8> = vec![9];
    let r2 = create_credential(&g, &id_object, &out.id_use_data, 0, &unknown,
        &CredentialTarget::NewAccount { expiry: 1 });
    assert_eq!(r2.unwrap_err(), WalletError::UnknownAttribute);
}

#[test]
fn enumerate_accounts_is_deterministic_and_bounded() {
    let g = global();
    let ars = vec![revoker(1, 10)];
    let out = create_id_request_and_private_data(&provider(), &ars, &g,
        String::from("ah"), attribute_list()).unwrap();
    let id_object = identity_object_for(&out);
    let accounts = generate_accounts(&g, &id_object, &out.id_use_data, 0);
    let again = generate_accounts(&g, &id_object, &out.id_use_data, 0);
    assert_eq!(accounts.len(), again.len());
    // max_accounts is 5 and the PRF can fail on at most one account number
    assert!(accounts.len() >= 4 && accounts.len() <= 5);
    let key = out.id_use_data.aci.prf_key;
    for (i, acc) in accounts.iter().enumerate() {
        assert_eq!(acc.account_address, again[i].account_address);
        assert_eq!(acc.encryption_secret_key.generator.v, 7);
        let n = (0..5u8).filter(|n| key.prf_exponent(*n).is_some()).nth(i).unwrap();
        assert_eq!(Some(acc.encryption_secret_key.scalar), key.prf_exponent(n));
    }
    let from_two = generate_accounts(&g, &id_object, &out.id_use_data, 2);
    assert!(from_two.len() <= 3);
}

#[test]
fn threshold_caps_at_field_width() {
    let ars: Vec<ArInfo> = (0..300u32).map(|i| revoker(i, 10 + i as u64)).collect();
    let out = create_id_request_and_private_data(&provider(), &ars, &global(),
        String::from("ah"), attribute_list()).unwrap();
    assert_eq!(out.pio.threshold, 255);
    assert_eq!(out.pio.id_ar_data.len(), 300);
}

#[test]
fn credential_fails_when_prf_is_out_of_domain() {
    let g = global();
    let sk = SecretKey { generator: g.generator, scalar: 5 };
    let id_use_data = IdObjectUseData {
        aci: AccCredentialInfo {
            cred_holder_info: CredentialHolderInfo {
                id_ah: String::new(),
                id_cred: IdCredentials {
                    id_cred_sec: sk,
                    id_cred_pub: PublicKey::from_secret(&sk),
                },
            },
            // the PRF is undefined exactly where key + account number wraps
            // to zero
            prf_key: PrfKey { key: 0u64.wrapping_sub(3) },
        },
        randomness: 1,
    };
    let pio = wallet_core::identity::PreIdentityObject {
        id_ah: String::new(),
        id_cred_pub: PublicKey::from_secret(&sk),
        id_ar_data: Vec::new(),
        threshold: 1,
        alist: attribute_list(),
        pok_sc: Vec::new(),
        cmm_prf: GroupElement { v: 0 },
        proof_com_eq: Vec::new(),
    };
    let id_object = IdentityObject {
        id_provider: provider(),
        pre_identity_object: pio,
        sig: Vec::new(),
    };
    let tags: Vec<u8> = Vec::new();
    let r = create_credential(&g, &id_object, &id_use_data, 3, &tags,
        &CredentialTarget::NewAccount { expiry: 1 });
    assert_eq!(r.unwrap_err(), WalletError::ConstructionFailure);
    let ok = create_credential(&g, &id_object, &id_use_data, 2, &tags,
        &CredentialTarget::NewAccount { expiry: 1 });
    assert!(ok.is_ok());
}

#[test]
fn enumerated_addresses_are_distinct() {
    let g = global();
    let ars = vec![revoker(1, 10)];
    let out = create_id_request_and_private_data(&provider(), &ars, &g,
        String::from("ah"), attribute_list()).unwrap();
    let id_object = identity_object_for(&out);
    let accounts = generate_accounts(&g, &id_object, &out.id_use_data, 0);
    for i in 0..accounts.len() {
        for j in (i + 1)..accounts.len() {
            assert_ne!(accounts[i].account_address, accounts[j].account_address);
        }
    }
}

#[test]
fn fresh_accounts_hold_exactly_one_key() {
    let g = global();
    let ars = vec![revoker(1, 10)];
    let out = create_id_request_and_private_data(&provider(), &ars, &g,
        String::from("ah"), attribute_list()).unwrap();
    assert_eq!(out.account_keys.keys.len(), 1);
    assert_eq!(out.account_keys.keys[0].0, 0);
    assert_eq!(out.account_keys.keys[0].1.len(), 1);
    assert_eq!(out.account_keys.keys[0].1[0].0, 0);
    let id_object = identity_object_for(&out);
    let tags: Vec<u8> = Vec::new();
    let cred = create_credential(&g, &id_object, &out.id_use_data, 0, &tags,
        &CredentialTarget::NewAccount { expiry: 1 }).unwrap();
    assert_eq!(cred.account_keys.keys.len(), 1);
    assert_eq!(cred.account_keys.keys[0].1.len(), 1);
}
