//! The trusted boundary: the keyed digest, the base64 encoder and the
//! system clock are outside calls; each is wrapped once, and everything
//! built on them is verified against the contracts stated here.

use vstd::prelude::*;
use hmac::Mac;

verus! {

/// The HMAC-SHA-256 authentication code of `msg` under `key`: a function
/// of the key and the message alone.
pub uninterp spec fn hmac_sha256_of(key: Seq<u8>, msg: Seq<u8>) -> Seq<u8>;

/// The standard base64 encoding, with padding, of a byte sequence: a
/// function of the bytes alone.
pub uninterp spec fn base64_of(bytes: Seq<u8>) -> Seq<char>;

/// Relies on hmac::Hmac with sha2::Sha256: `new_from_slice` accepts a key
/// of any length for HMAC, and the finalized output is the 32-byte
/// authentication code, a function of key and message alone.
#[verifier::external_body]
pub fn hmac_sha256(key: &[u8], msg: &[u8]) -> (r: Vec<u8>)
    ensures
        r@ == hmac_sha256_of(key@, msg@),
        r@.len() == 32,
{
    let mut mac = <hmac::Hmac<sha2::Sha256> as Mac>::new_from_slice(key)
        .expect("HMAC accepts keys of any length");
    mac.update(msg);
    mac.finalize().into_bytes().to_vec()
}

/// Relies on base64::encode: the standard alphabet with padding, four
/// output characters for every started group of three input bytes, a
/// function of the bytes alone.
#[verifier::external_body]
pub fn base64_encode(bytes: &[u8]) -> (r: String)
    ensures
        r@ == base64_of(bytes@),
        r@.len() == 4 * ((bytes@.len() + 2) / 3),
{
    base64::encode(bytes)
}

/// Relies on std::time::SystemTime::now and duration_since: the seconds
/// since the Unix epoch, or zero when the clock reads before the epoch.
/// Nothing is promised of a clock reading.
#[verifier::external_body]
pub fn now_unix_secs() -> u64 {
    match std::time::SystemTime::now().duration_since(std::time::UNIX_EPOCH) {
        Ok(d) => d.as_secs(),
        Err(_) => 0,
    }
}

} // verus!
