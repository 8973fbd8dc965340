//! The access gate: a signed, time-bounded, single-use capability is
//! checked before a request is admitted.
//!
//! Every rejection — missing field, unknown key, stale timestamp, bad
//! signature, replayed capability — collapses into the same `false`, so a
//! caller learns nothing about which check failed.

use core::str::FromStr;

use vstd::prelude::*;

use crate::cache::Cache;
use crate::digits::{int_val, is_int_string, parse_i64};
use crate::ram_cache::expiry_at;

verus! {

/// Failure of a signature check.
#[derive(Clone, Copy, Debug, PartialEq, Eq, Structural)]
pub enum SigError {
    SignatureError,
}

/// Whether the Schnorr signature `sig` (hex) verifies over the SHA-256
/// hash of `message` against the x-only public key `pubkey` (hex).
/// Verification is a function of the three strings alone.
pub uninterp spec fn schnorr_verifies(sig: Seq<char>, pubkey: Seq<char>, message: Seq<char>) -> bool;

/// Relies on secp256k1: schnorr::Signature::from_str and
/// XOnlyPublicKey::from_str parse the hex forms (failing on malformed
/// input), Message::from_hashed_data hashes the message with SHA-256, and
/// Secp256k1::verify_schnorr decides the signature — all deterministic in
/// the inputs.
#[verifier::external_body]
pub fn verify_sig(sig: &str, pubkey: &str, message: &str) -> (r: Result<(), SigError>)
    ensures
        r is Ok <==> schnorr_verifies(sig@, pubkey@, message@),
{
    let s = secp256k1::schnorr::Signature::from_str(sig);
    let p = secp256k1::XOnlyPublicKey::from_str(pubkey);
    let m = secp256k1::Message::from_hashed_data::<secp256k1::hashes::sha256::Hash>(
        message.as_bytes(),
    );
    match (s, p) {
        (Ok(s), Ok(p)) => match secp256k1::SECP256K1.verify_schnorr(&s, &m, &p) {
            Ok(()) => Ok(()),
            Err(_) => Err(SigError::SignatureError),
        },
        _ => Err(SigError::SignatureError),
    }
}

/// Whether some entry of `v` reads as `s`.
pub open spec fn contains_str(v: Seq<String>, s: Seq<char>) -> bool {
    exists|i: int| 0 <= i < v.len() && v[i]@ == s
}

/// Membership of `s` in a list of strings.
pub fn list_contains(v: &Vec<String>, s: &String) -> (r: bool)
    ensures
        r == contains_str(v@, s@),
{
    let n: usize = v.len();
    let mut i: usize = 0;
    while i < n
        invariant
            0 <= i <= n == v@.len(),
            forall|j: int| 0 <= j < i ==> v@[j]@ != s@,
        decreases n - i,
    {
        if v[i] == *s {
            return true;
        }
        i = i + 1;
    }
    false
}

/// The string a capability signs: `pubkey:time:uniq`.
pub open spec fn sig_message(pubkey: Seq<char>, time: Seq<char>, uniq: Seq<char>) -> Seq<char> {
    pubkey + ":"@ + time + ":"@ + uniq
}

/// The cache key that records a consumed capability.
pub open spec fn replay_key(pubkey: Seq<char>, time: Seq<char>, uniq: Seq<char>) -> Seq<char> {
    "sig:"@ + pubkey + ":"@ + time + ":"@ + uniq
}

/// The view of an optional borrowed string.
pub open spec fn opt_str_view(o: Option<&String>) -> Option<Seq<char>> {
    match o {
        Some(s) => Some(s@),
        None => None,
    }
}

/// The admission policy, as a pure function of the configured allowlist,
/// the text entries of the cache, the clock and the four capability
/// fields.
///
/// An empty allowlist admits unconditionally.  Otherwise all four fields
/// must be present; the key must be allowlisted; the timestamp must be a
/// decimal integer within 300 seconds of `now`; the signature must verify
/// over `pubkey:time:uniq`; and no replay marker may exist yet.
pub open spec fn gate_admits(
    allow: Seq<String>,
    texts: Map<Seq<char>, (Seq<char>, nat)>,
    now: int,
    pubkey: Option<Seq<char>>,
    sig: Option<Seq<char>>,
    time: Option<Seq<char>>,
    uniq: Option<Seq<char>>,
) -> bool {
    if allow.len() == 0 {
        true
    } else {
        &&& pubkey is Some
        &&& sig is Some
        &&& time is Some
        &&& uniq is Some
        &&& contains_str(allow, pubkey->0)
        &&& is_int_string(time->0)
        &&& -i64::MAX <= int_val(time->0) <= i64::MAX
        &&& -300 <= int_val(time->0) - now <= 300
        &&& schnorr_verifies(sig->0, pubkey->0, sig_message(pubkey->0, time->0, uniq->0))
        &&& !texts.contains_key(replay_key(pubkey->0, time->0, uniq->0))
    }
}

/// An empty allowlist admits any request, whatever the capability fields
/// hold or miss.
pub proof fn lemma_open_mode(
    allow: Seq<String>,
    texts: Map<Seq<char>, (Seq<char>, nat)>,
    now: int,
    pubkey: Option<Seq<char>>,
    sig: Option<Seq<char>>,
    time: Option<Seq<char>>,
    uniq: Option<Seq<char>>,
)
    requires
        allow.len() == 0,
    ensures
        gate_admits(allow, texts, now, pubkey, sig, time, uniq),
{
}

/// Decide one request.  Returns exactly what the admission policy says
/// of the state before the call; on admission the replay marker for this
/// capability is written with the signature time-to-live, so presenting
/// the identical tuple again is rejected.
pub fn check_access(
    cache: &mut Cache,
    restricted_pubkeys: &Vec<String>,
    cache_ttl_signature: usize,
    now: i64,
    pubkey: Option<&String>,
    sig: Option<&String>,
    time: Option<&String>,
    uniq: Option<&String>,
) -> (r: bool)
    requires
        old(cache).wf(),
        0 <= now as int <= usize::MAX as int,
    ensures
        r == gate_admits(
            restricted_pubkeys@,
            old(cache).texts(),
            now as int,
            opt_str_view(pubkey),
            opt_str_view(sig),
            opt_str_view(time),
            opt_str_view(uniq),
        ),
        final(cache).wf(),
        final(cache).blobs() == old(cache).blobs(),
        (r && restricted_pubkeys@.len() > 0) ==> final(cache).texts() =~= old(
            cache,
        ).texts().insert(
            replay_key(pubkey->Some_0@, time->Some_0@, uniq->Some_0@),
            ("1"@, expiry_at(now as nat, cache_ttl_signature as nat)),
        ),
        (!r || restricted_pubkeys@.len() == 0) ==> final(cache).texts() == old(cache).texts(),
{
    if restricted_pubkeys.len() == 0 {
        return true;
    }
    let (pk, sg, tm, uq) = match (pubkey, sig, time, uniq) {
        (Some(a), Some(b), Some(c), Some(d)) => (a, b, c, d),
        _ => {
            return false;
        },
    };
    if !list_contains(restricted_pubkeys, pk) {
        return false;
    }
    let t: i64 = match parse_i64(tm.as_str()) {
        Some(t) => t,
        None => {
            return false;
        },
    };
    let diff: i128 = t as i128 - now as i128;
    let dist: i128 = if diff < 0 {
        -diff
    } else {
        diff
    };
    if dist > 300 {
        return false;
    }
    let mut message: String = pk.clone();
    message.append(":");
    message.append(tm.as_str());
    message.append(":");
    message.append(uq.as_str());
    if verify_sig(sg.as_str(), pk.as_str(), message.as_str()).is_err() {
        return false;
    }
    let mut marker: String = "sig:".to_owned();
    marker.append(pk.as_str());
    marker.append(":");
    marker.append(tm.as_str());
    marker.append(":");
    marker.append(uq.as_str());
    proof {
        assert(message@ == sig_message(pk@, tm@, uq@));
        assert(marker@ == replay_key(pk@, tm@, uq@));
    }
    if cache.get_str(marker.as_str()).is_ok() {
        return false;
    }
    let _ = cache.set_str(marker.as_str(), "1", cache_ttl_signature, now as usize);
    true
}

} // verus!
