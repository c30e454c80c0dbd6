//! Calls into the outside crates the service relies on: session tokens
//! (`uuid`), token hashing (`sha2`), the clock (`chrono`) and broadcast
//! channels (`tokio`).

use vstd::prelude::*;

use sha2::Digest;

use crate::types::Timestamp;

verus! {

#[verifier::external_type_specification]
#[verifier::external_body]
#[verifier::reject_recursive_types(T)]
pub struct ExBroadcastSender<T>(tokio::sync::broadcast::Sender<T>);

#[verifier::external_type_specification]
#[verifier::external_body]
#[verifier::reject_recursive_types(T)]
pub struct ExBroadcastReceiver<T>(tokio::sync::broadcast::Receiver<T>);

/// The lower-case hexadecimal SHA-256 digest of the UTF-8 bytes of a token.
pub uninterp spec fn sha256_hex(token: Seq<char>) -> Seq<char>;

/// A lower-case hexadecimal digit.
pub open spec fn is_lower_hex_digit(c: char) -> bool {
    ('0' <= c && c <= '9') || ('a' <= c && c <= 'f')
}

/// The hyphenated lower-case text of a UUID: 36 characters, hyphens at
/// positions 8, 13, 18 and 23, lower-case hexadecimal digits elsewhere.
pub open spec fn uuid_text(s: Seq<char>) -> bool {
    &&& s.len() == 36
    &&& forall|i: int|
        0 <= i < 36 ==> if i == 8 || i == 13 || i == 18 || i == 23 {
            #[trigger] s[i] == '-'
        } else {
            is_lower_hex_digit(s[i])
        }
}

/// A fresh random identifier: `uuid::Uuid::new_v4`, rendered by its
/// `Display` (hyphenated, lower-case hexadecimal). Its digits are random;
/// only their layout is stated.
#[verifier::external_body]
pub(crate) fn random_uuid() -> (r: String)
    ensures
        uuid_text(r@),
{
    uuid::Uuid::new_v4().to_string()
}

/// Hashes a session token with `sha2::Sha256` and renders the digest in
/// lower-case hexadecimal; the result is named `sha256_hex` of the token.
#[verifier::external_body]
pub(crate) fn hash_token(token: &str) -> (r: String)
    ensures
        r@ == sha256_hex(token@),
{
    let mut hasher = sha2::Sha256::new();
    hasher.update(token.as_bytes());
    format!("{:x}", hasher.finalize())
}

/// The current time (`chrono::Utc::now`) as seconds since the Unix epoch
/// and nanoseconds past that second (`chrono::DateTime::timestamp` and
/// `chrono::DateTime::timestamp_subsec_nanos`). Nothing is stated of the
/// value, which is the clock's.
#[verifier::external_body]
pub(crate) fn now_utc() -> (r: Timestamp) {
    let t = chrono::Utc::now();
    Timestamp { secs: t.timestamp(), nanos: t.timestamp_subsec_nanos() }
}

/// The sending half of a fresh `tokio::sync::broadcast` channel that keeps
/// up to `capacity` values for each receiver (the receiving half is dropped).
#[verifier::external_body]
pub(crate) fn broadcast_channel<T: Clone>(capacity: usize) -> (r: tokio::sync::broadcast::Sender<T>)
    requires
        0 < capacity <= usize::MAX / 2,
{
    tokio::sync::broadcast::channel(capacity).0
}

/// Sends `value` to the current receivers of `tx` with
/// `tokio::sync::broadcast::Sender::send`; a send without receivers is dropped.
#[verifier::external_body]
pub(crate) fn broadcast_send<T>(tx: &tokio::sync::broadcast::Sender<T>, value: T) {
    let _ = tx.send(value);
}

/// A new receiver of the values sent on `tx` from now on
/// (`tokio::sync::broadcast::Sender::subscribe`). Tokio panics when
/// `usize::MAX / 4` receivers of one channel are alive at once; the number
/// of live receivers is not modelled, so no clause excludes that case.
#[verifier::external_body]
pub(crate) fn broadcast_subscribe<T>(tx: &tokio::sync::broadcast::Sender<T>) -> (r: tokio::sync::broadcast::Receiver<T>) {
    tx.subscribe()
}

} // verus!
