use pivy::agent::{
    bytes_equal, find_key, find_token, guid_matches_filter, slot_allowed, AgentSession, CachedKey,
};
use pivy::error::SignError;
use pivy::guid::Guid;
use pivy::probe::{Prober, PROBE_FAIL_LIMIT};
use pivy::sign::{
    decode_der_ecdsa_signature, encode_ecdsa_ssh_signature, pkcs1_v15_pad, prepare_sign_data,
    to_ssh_signature, RSA_DIGEST_PREFIX_SHA256, RSA_DIGEST_PREFIX_SHA512, RSA_SHA2_256,
    RSA_SHA2_512,
};
use pivy::slot::{PivAlgorithm, PivSlot};

fn guid(n: u8) -> Guid {
    Guid::from_bytes(&[n; 16]).unwrap()
}

fn key(slot_id: u8, public_key: &[u8], comment: &str) -> CachedKey {
    CachedKey {
        guid: guid(7),
        reader_name: "Reader 0".to_string(),
        slot_id,
        algorithm: PivAlgorithm::EcP256,
        public_key: public_key.to_vec(),
        comment: comment.to_string(),
    }
}

fn hex(s: &str) -> Vec<u8> {
    (0..s.len()).step_by(2).map(|i| u8::from_str_radix(&s[i..i + 2], 16).unwrap()).collect()
}

#[test]
fn list_identities_projects_cache() {
    let session = AgentSession::new(vec![key(0x9A, &[1, 2], "first"), key(0x9E, &[3], "second")]);
    let ids = session.request_identities();
    assert_eq!(ids.len(), 2);
    assert_eq!(ids[0].public_key, vec![1, 2]);
    assert_eq!(ids[0].comment, "first");
    assert_eq!(ids[1].public_key, vec![3]);
    assert_eq!(ids[1].comment, "second");
    assert!(AgentSession::new(Vec::new()).request_identities().is_empty());
}

#[test]
fn unlock_and_lock_set_and_clear_pin() {
    let mut session = AgentSession::new(vec![key(0x9A, &[1], "k")]);
    assert_eq!(session.pin(), None);
    session.unlock("123456".to_string());
    assert_eq!(session.pin(), Some("123456"));
    assert_eq!(session.keys().len(), 1);
    session.lock("anything".to_string());
    assert_eq!(session.pin(), None);
    assert_eq!(session.keys().len(), 1);
    session.unlock("1111".to_string());
    session.clear_pin();
    assert_eq!(session.pin(), None);
}

#[test]
fn sign_with_unknown_key_is_key_not_found() {
    let session = AgentSession::new(vec![key(0x9A, &[1, 2], "k")]);
    assert_eq!(session.lookup_key(&[9, 9]).err(), Some(SignError::KeyNotFound));
    let found = session.lookup_key(&[1, 2]).unwrap();
    assert_eq!(found.slot_id, 0x9A);
}

#[test]
fn pin_needed_except_for_card_auth_slot() {
    let mut session = AgentSession::new(Vec::new());
    assert_eq!(session.pin_for_slot(0x9E), Ok(None));
    assert_eq!(session.pin_for_slot(0x9A), Err(SignError::PinRequired));
    assert_eq!(session.pin_for_slot(0x82), Err(SignError::PinRequired));
    session.unlock("4321".to_string());
    assert_eq!(session.pin_for_slot(0x9A), Ok(Some("4321".to_string())));
    assert_eq!(session.pin_for_slot(0x9E), Ok(None));
}

#[test]
fn key_and_token_search() {
    let keys = vec![key(0x9A, &[1], "a"), key(0x9C, &[2], "b"), key(0x9D, &[2], "c")];
    assert_eq!(find_key(&keys, &[2]), Some(1));
    assert_eq!(find_key(&keys, &[3]), None);
    let guids = vec![guid(1), guid(2), guid(3)];
    assert_eq!(find_token(&guids, &guid(3)), Some(2));
    assert_eq!(find_token(&guids, &guid(4)), None);
    assert!(bytes_equal(&[1, 2], &[1, 2]));
    assert!(!bytes_equal(&[1, 2], &[1]));
}

#[test]
fn filters() {
    let g = Guid::from_hex("995E171383029CDA0D9CDBDBAD580813").unwrap();
    assert!(guid_matches_filter(&g, "995E171383029CDA0D9CDBDBAD580813"));
    assert!(guid_matches_filter(&g, "995E1713"));
    assert!(!guid_matches_filter(&g, "995e1713"));
    assert!(slot_allowed(None, 0x9A));
    assert!(slot_allowed(Some(&[0x9A, 0x9E]), 0x9E));
    assert!(!slot_allowed(Some(&[0x9A]), 0x9C));
}

#[test]
fn prober_clears_on_third_absence() {
    let mut p = Prober::new();
    assert!(!p.observe(false));
    assert!(!p.observe(false));
    assert!(p.observe(false));
    assert_eq!(p.failures(), PROBE_FAIL_LIMIT);
    assert!(!p.observe(true));
    assert_eq!(p.failures(), 0);
    assert!(!p.observe(false));
    assert!(!p.observe(true));
    assert!(!p.observe(false));
    assert!(!p.observe(false));
    assert!(p.observe(false));
}

#[test]
fn der_to_ssh_ecdsa() {
    let sig = to_ssh_signature(PivAlgorithm::EcP256, &[0x30, 0x06, 0x02, 0x01, 0xAA, 0x02, 0x01, 0xBB], 0).unwrap();
    assert_eq!(sig.algorithm, "ecdsa-sha2-nistp256");
    assert_eq!(sig.blob, vec![0x00, 0x00, 0x00, 0x01, 0xAA, 0x00, 0x00, 0x00, 0x01, 0xBB]);
}

#[test]
fn der_keeps_leading_zero() {
    let der = [0x30, 0x08, 0x02, 0x02, 0x00, 0x80, 0x02, 0x02, 0x00, 0x90];
    let (r, s) = decode_der_ecdsa_signature(&der).unwrap();
    assert_eq!(r, vec![0x00, 0x80]);
    assert_eq!(s, vec![0x00, 0x90]);
    assert_eq!(
        encode_ecdsa_ssh_signature(&r, &s),
        vec![0, 0, 0, 2, 0x00, 0x80, 0, 0, 0, 2, 0x00, 0x90]
    );
    let p384 = to_ssh_signature(PivAlgorithm::EcP384, &der, 0).unwrap();
    assert_eq!(p384.algorithm, "ecdsa-sha2-nistp384");
}

#[test]
fn malformed_der_is_rejected() {
    assert_eq!(decode_der_ecdsa_signature(&[0x31, 0, 2, 1, 1, 2]), Err(SignError::MalformedSignature));
    assert_eq!(
        decode_der_ecdsa_signature(&[0x30, 0x06, 0x02, 0x05, 0xAA, 0x02, 0x01, 0xBB]),
        Err(SignError::MalformedSignature)
    );
    assert_eq!(
        decode_der_ecdsa_signature(&[0x30, 0x06, 0x02, 0x01, 0xAA, 0x02, 0x03, 0xBB]),
        Err(SignError::MalformedSignature)
    );
    assert!(to_ssh_signature(PivAlgorithm::EcP256, &[0x30], 0).is_err());
}

#[test]
fn rsa_and_ed25519_signatures_pass_through() {
    let raw = vec![5u8; 256];
    let s = to_ssh_signature(PivAlgorithm::Rsa2048, &raw, RSA_SHA2_512).unwrap();
    assert_eq!(s.algorithm, "rsa-sha2-512");
    assert_eq!(s.blob, raw);
    let s = to_ssh_signature(PivAlgorithm::Rsa1024, &raw, RSA_SHA2_256).unwrap();
    assert_eq!(s.algorithm, "rsa-sha2-256");
    let s = to_ssh_signature(PivAlgorithm::Rsa1024, &raw, 0).unwrap();
    assert_eq!(s.algorithm, "rsa-sha2-256");
    let s = to_ssh_signature(PivAlgorithm::Ed25519, &[1, 2, 3], 0).unwrap();
    assert_eq!(s.algorithm, "ssh-ed25519");
    assert_eq!(s.blob, vec![1, 2, 3]);
}

#[test]
fn ecdsa_inputs_are_digests() {
    let p256 = prepare_sign_data(PivAlgorithm::EcP256, b"abc", 0).unwrap();
    assert_eq!(p256, hex("ba7816bf8f01cfea414140de5dae2223b00361a396177a9cb410ff61f20015ad"));
    let p384 = prepare_sign_data(PivAlgorithm::EcP384, b"abc", 0).unwrap();
    assert_eq!(
        p384,
        hex("cb00753f45a35e8bb5a03d699ac65007272c32ab0eded1631a8b605a43ff5bed8086072ba1e7cc2358baeca134c825a7")
    );
    let ed = prepare_sign_data(PivAlgorithm::Ed25519, b"abc", 0).unwrap();
    assert_eq!(ed, b"abc".to_vec());
}

#[test]
fn rsa_input_is_pkcs1_block() {
    let block = prepare_sign_data(PivAlgorithm::Rsa2048, b"abc", 0).unwrap();
    assert_eq!(block.len(), 256);
    assert_eq!(&block[..2], &[0x00, 0x01]);
    let pad = 256 - 19 - 32 - 3;
    assert!(block[2..2 + pad].iter().all(|&b| b == 0xFF));
    assert_eq!(block[2 + pad], 0x00);
    assert_eq!(&block[3 + pad..3 + pad + 19], &RSA_DIGEST_PREFIX_SHA256[..]);
    assert_eq!(&block[256 - 32..], &hex("ba7816bf8f01cfea414140de5dae2223b00361a396177a9cb410ff61f20015ad")[..]);

    let block = prepare_sign_data(PivAlgorithm::Rsa1024, b"abc", RSA_SHA2_512).unwrap();
    assert_eq!(block.len(), 128);
    let pad = 128 - 19 - 64 - 3;
    assert!(block[2..2 + pad].iter().all(|&b| b == 0xFF));
    assert_eq!(block[2 + pad], 0x00);
    assert_eq!(&block[3 + pad..3 + pad + 19], &RSA_DIGEST_PREFIX_SHA512[..]);
    assert_eq!(
        &block[128 - 64..],
        &hex("ddaf35a193617abacc417349ae20413112e6fa4e89a97ea20a9eeee64b55d39a2192992a274fc1a836ba3c23a3feebbd454d4423643ce80e2a9ac94fa54ca49f")[..]
    );
}

#[test]
fn pkcs1_pad_small_key_fails() {
    let hash = [0u8; 32];
    assert_eq!(pkcs1_v15_pad(&hash, &RSA_DIGEST_PREFIX_SHA256, 61), Err(SignError::KeyTooSmall));
    let ok = pkcs1_v15_pad(&hash, &RSA_DIGEST_PREFIX_SHA256, 62).unwrap();
    assert_eq!(ok.len(), 62);
    assert_eq!(&ok[2..10], &[0xFF; 8]);
    assert_eq!(ok[10], 0x00);
}

#[test]
fn cached_key_comment() {
    let g = Guid::from_hex("995E171383029CDA0D9CDBDBAD580813").unwrap();
    assert_eq!(pivy::agent::key_comment(0x9A, &g), "PIV_slot_9A 995E1713");
    assert_eq!(pivy::agent::key_comment(0x82, &g), "PIV_slot_82 995E1713");
}

#[test]
fn sign_flow_unknown_key_fails_first() {
    let session = AgentSession::new(vec![key(0x9A, &[1, 2], "k")]);
    let r = pivy::agent::SignFlow::start(&session, &[7, 7], b"data", 0);
    assert_eq!(r.err(), Some(SignError::KeyNotFound));
}

#[test]
fn sign_flow_card_auth_slot_needs_no_pin() {
    let session = AgentSession::new(vec![key(0x9E, &[1, 2], "k")]);
    let flow = pivy::agent::SignFlow::start(&session, &[1, 2], b"abc", 0).unwrap();
    assert_eq!(flow.card_guid(), guid(7));
    match flow.after_card_search(true, &session) {
        pivy::agent::SignStep::SignOnCard { slot_id, data } => {
            assert_eq!(slot_id, 0x9E);
            assert_eq!(data, hex("ba7816bf8f01cfea414140de5dae2223b00361a396177a9cb410ff61f20015ad"));
        }
        _ => panic!("expected a signing step"),
    }
    match flow.after_card_search(false, &session) {
        pivy::agent::SignStep::Failed(e) => assert_eq!(e, SignError::CardUnavailable),
        _ => panic!("expected a failure"),
    }
}

#[test]
fn sign_flow_other_slot_needs_pin() {
    let mut session = AgentSession::new(vec![key(0x9A, &[1, 2], "k")]);
    let flow = pivy::agent::SignFlow::start(&session, &[1, 2], b"abc", 0).unwrap();
    match flow.after_card_search(true, &session) {
        pivy::agent::SignStep::Failed(e) => assert_eq!(e, SignError::PinRequired),
        _ => panic!("expected PinRequired"),
    }
    session.unlock("123456".to_string());
    match flow.after_card_search(true, &session) {
        pivy::agent::SignStep::VerifyPin { pin } => assert_eq!(pin, "123456"),
        _ => panic!("expected a PIN step"),
    }
    let wrong = pivy::error::PivError::PinIncorrect { retries: 2 };
    match flow.after_pin(Err(wrong.clone())) {
        pivy::agent::SignStep::Failed(e) => assert_eq!(e, SignError::Card(wrong)),
        _ => panic!("expected a failure"),
    }
    match flow.after_pin(Ok(())) {
        pivy::agent::SignStep::SignOnCard { slot_id, .. } => assert_eq!(slot_id, 0x9A),
        _ => panic!("expected a signing step"),
    }
    let sig = flow.after_sign(Ok(vec![0x30, 0x06, 0x02, 0x01, 0xAA, 0x02, 0x01, 0xBB])).unwrap();
    assert_eq!(sig.algorithm, "ecdsa-sha2-nistp256");
    assert_eq!(sig.blob, vec![0, 0, 0, 1, 0xAA, 0, 0, 0, 1, 0xBB]);
    assert_eq!(
        flow.after_sign(Err(pivy::error::PivError::PinRequired)).err(),
        Some(SignError::Card(pivy::error::PivError::PinRequired))
    );
}

#[test]
fn cache_keys_follow_allow_list() {
    let g = Guid::from_hex("995E171383029CDA0D9CDBDBAD580813").unwrap();
    let slots = vec![
        PivSlot::new(0x9A, PivAlgorithm::EcP256, vec![0xC1], vec![1]),
        PivSlot::new(0x9C, PivAlgorithm::Rsa2048, vec![0xC2], vec![2]),
        PivSlot::new(0x9E, PivAlgorithm::EcP384, vec![0xC3], vec![3]),
    ];
    let all = pivy::agent::cache_keys_for_token(&g, "Yubico 00 00", &slots, None);
    assert_eq!(all.len(), 3);
    assert_eq!(all[1].slot_id, 0x9C);
    assert_eq!(all[1].algorithm, PivAlgorithm::Rsa2048);
    assert_eq!(all[1].public_key, vec![2]);
    assert_eq!(all[1].comment, "PIV_slot_9C 995E1713");
    assert_eq!(all[1].reader_name, "Yubico 00 00");
    let some = pivy::agent::cache_keys_for_token(&g, "r", &slots, Some(&[0x9E, 0x9A]));
    assert_eq!(some.len(), 2);
    assert_eq!(some[0].slot_id, 0x9A);
    assert_eq!(some[1].slot_id, 0x9E);
    assert_eq!(some[1].guid, g);
}
