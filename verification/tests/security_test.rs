use media_gateway::cache::Cache;
use media_gateway::security::{check_access, verify_sig};

const NOW: i64 = 1_700_000_000;

fn signed_capability(time: &str, uniq: &str) -> (String, String) {
    let secp = secp256k1::SECP256K1;
    let keypair = secp256k1::KeyPair::from_seckey_slice(secp, &[7u8; 32]).unwrap();
    let (xonly, _) = secp256k1::XOnlyPublicKey::from_keypair(&keypair);
    let pubkey = format!("{}", xonly);
    let text = format!("{}:{}:{}", pubkey, time, uniq);
    let msg = secp256k1::Message::from_hashed_data::<secp256k1::hashes::sha256::Hash>(
        text.as_bytes(),
    );
    let sig = secp.sign_schnorr_no_aux_rand(&msg, &keypair);
    (pubkey, format!("{}", sig))
}

#[test]
fn verify_sig_accepts_only_the_signed_message() {
    let (pubkey, sig) = signed_capability("123", "nonce");
    let message = format!("{}:123:nonce", pubkey);
    assert!(verify_sig(&sig, &pubkey, &message).is_ok());
    let other = format!("{}:124:nonce", pubkey);
    assert!(verify_sig(&sig, &pubkey, &other).is_err());
    assert!(verify_sig("junk", &pubkey, &message).is_err());
    assert!(verify_sig(&sig, "junk", &message).is_err());
}

#[test]
fn open_mode_admits_anything() {
    let mut cache = Cache::new();
    let allow: Vec<String> = Vec::new();
    assert!(check_access(&mut cache, &allow, 300, NOW, None, None, None, None));
    let junk = String::from("junk");
    assert!(check_access(
        &mut cache,
        &allow,
        300,
        NOW,
        Some(&junk),
        None,
        Some(&junk),
        None
    ));
}

#[test]
fn valid_capability_admitted_once_and_replay_denied() {
    let mut cache = Cache::new();
    let time = NOW.to_string();
    let uniq = String::from("first-nonce");
    let (pubkey, sig) = signed_capability(&time, &uniq);
    let allow = vec![pubkey.clone()];

    // A fresh, valid capability is admitted.
    assert!(check_access(
        &mut cache,
        &allow,
        300,
        NOW,
        Some(&pubkey),
        Some(&sig),
        Some(&time),
        Some(&uniq)
    ));
    // The exact same four fields again: replay, denied.
    assert!(!check_access(
        &mut cache,
        &allow,
        300,
        NOW,
        Some(&pubkey),
        Some(&sig),
        Some(&time),
        Some(&uniq)
    ));
    // Same pubkey and time, a different nonce, recomputed signature: admitted.
    let uniq2 = String::from("second-nonce");
    let (_, sig2) = signed_capability(&time, &uniq2);
    assert!(check_access(
        &mut cache,
        &allow,
        300,
        NOW,
        Some(&pubkey),
        Some(&sig2),
        Some(&time),
        Some(&uniq2)
    ));
}

#[test]
fn missing_fields_denied_when_restricted() {
    let mut cache = Cache::new();
    let time = NOW.to_string();
    let uniq = String::from("n");
    let (pubkey, sig) = signed_capability(&time, &uniq);
    let allow = vec![pubkey.clone()];
    assert!(!check_access(&mut cache, &allow, 300, NOW, None, None, None, None));
    assert!(!check_access(
        &mut cache,
        &allow,
        300,
        NOW,
        Some(&pubkey),
        Some(&sig),
        Some(&time),
        None
    ));
}

#[test]
fn unknown_pubkey_denied() {
    let mut cache = Cache::new();
    let time = NOW.to_string();
    let uniq = String::from("n");
    let (pubkey, sig) = signed_capability(&time, &uniq);
    let allow = vec![String::from("somebody-else")];
    assert!(!check_access(
        &mut cache,
        &allow,
        300,
        NOW,
        Some(&pubkey),
        Some(&sig),
        Some(&time),
        Some(&uniq)
    ));
}

#[test]
fn stale_timestamp_denied_in_both_directions() {
    let mut cache = Cache::new();
    let uniq = String::from("n");
    let past = (NOW - 301).to_string();
    let (pubkey, sig) = signed_capability(&past, &uniq);
    let allow = vec![pubkey.clone()];
    assert!(!check_access(
        &mut cache,
        &allow,
        300,
        NOW,
        Some(&pubkey),
        Some(&sig),
        Some(&past),
        Some(&uniq)
    ));
    let future = (NOW + 301).to_string();
    let (pubkey, sig) = signed_capability(&future, &uniq);
    let allow = vec![pubkey.clone()];
    assert!(!check_access(
        &mut cache,
        &allow,
        300,
        NOW,
        Some(&pubkey),
        Some(&sig),
        Some(&future),
        Some(&uniq)
    ));
}

#[test]
fn tampered_signature_denied() {
    let mut cache = Cache::new();
    let time = NOW.to_string();
    let uniq = String::from("n");
    let (pubkey, _) = signed_capability(&time, &uniq);
    let (_, wrong_sig) = signed_capability(&time, "another-nonce");
    let allow = vec![pubkey.clone()];
    assert!(!check_access(
        &mut cache,
        &allow,
        300,
        NOW,
        Some(&pubkey),
        Some(&wrong_sig),
        Some(&time),
        Some(&uniq)
    ));
}

#[test]
fn unparseable_timestamp_denied() {
    let mut cache = Cache::new();
    let time = String::from("yesterday");
    let uniq = String::from("n");
    let (pubkey, sig) = signed_capability(&time, &uniq);
    let allow = vec![pubkey.clone()];
    assert!(!check_access(
        &mut cache,
        &allow,
        300,
        NOW,
        Some(&pubkey),
        Some(&sig),
        Some(&time),
        Some(&uniq)
    ));
}

#[test]
fn replay_marker_expires_with_its_ttl() {
    let mut cache = Cache::new();
    let time = NOW.to_string();
    let uniq = String::from("n");
    let (pubkey, sig) = signed_capability(&time, &uniq);
    let allow = vec![pubkey.clone()];
    assert!(check_access(
        &mut cache,
        &allow,
        300,
        NOW,
        Some(&pubkey),
        Some(&sig),
        Some(&time),
        Some(&uniq)
    ));
    // After the marker's time-to-live has elapsed and the reaper has run,
    // the same tuple would be accepted again (its timestamp would by then
    // fail the freshness window at the true clock).
    cache.ram.gc((NOW + 300) as usize);
    assert!(check_access(
        &mut cache,
        &allow,
        300,
        NOW,
        Some(&pubkey),
        Some(&sig),
        Some(&time),
        Some(&uniq)
    ));
}
