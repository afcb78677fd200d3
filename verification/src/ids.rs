//! Identifiers and time stamps, and the outside calls that produce them.
//!
//! Identifiers are 128-bit integers (the value of a `uuid::Uuid`); time
//! stamps are seconds and nanoseconds since the Unix epoch (the value of a
//! `chrono::DateTime<Utc>`).
use vstd::prelude::*;

verus! {

/// A UTC instant: whole seconds since the Unix epoch and the nanoseconds
/// within that second.
#[derive(Debug, Clone, Copy, PartialEq, Eq, Structural)]
pub struct Timestamp {
    pub secs: i64,
    pub nanos: u32,
}

impl DeepView for Timestamp {
    type V = Timestamp;

    open spec fn deep_view(&self) -> Timestamp {
        *self
    }
}

/// Strict chronological order of two instants.
pub open spec fn ts_before(a: Timestamp, b: Timestamp) -> bool {
    a.secs < b.secs || (a.secs == b.secs && a.nanos < b.nanos)
}

/// `a` is strictly earlier than `b`.
pub fn timestamp_before(a: Timestamp, b: Timestamp) -> (r: bool)
    ensures
        r == ts_before(a, b),
{
    a.secs < b.secs || (a.secs == b.secs && a.nanos < b.nanos)
}

/// A freshly generated random identifier: `uuid::Uuid::new_v4`, read as
/// its 128-bit value. Nothing is promised of the value: it is random.
#[verifier::external_body]
pub(crate) fn fresh_id() -> (r: u128) {
    uuid::Uuid::new_v4().as_u128()
}

/// The current time: `chrono::Utc::now`, read as seconds and nanoseconds.
/// Nothing is promised of the value: it is the clock's.
#[verifier::external_body]
pub(crate) fn clock_now() -> (r: Timestamp) {
    let t = chrono::Utc::now();
    Timestamp { secs: t.timestamp(), nanos: t.timestamp_subsec_nanos() }
}

/// The value of the name-based (SHA-1, version 5) UUID that
/// `uuid::Uuid::new_v5` derives from the OID namespace and the UTF-8 bytes
/// of `name`.
pub uninterp spec fn uuid_v5_oid(name: Seq<char>) -> u128;

/// `uuid::Uuid::new_v5(&Uuid::NAMESPACE_OID, name.as_bytes())`, read as its
/// 128-bit value; the result is a function of the name alone.
#[verifier::external_body]
pub(crate) fn name_based_id(name: &str) -> (r: u128)
    ensures
        r == uuid_v5_oid(name@),
{
    uuid::Uuid::new_v5(&uuid::Uuid::NAMESPACE_OID, name.as_bytes()).as_u128()
}

/// What `uuid::Uuid::parse_str` accepts and yields for a text: `None` when
/// it rejects the text, else the parsed 128-bit value.
pub uninterp spec fn parsed_uuid(text: Seq<char>) -> Option<u128>;

/// `uuid::Uuid::parse_str`, read as a 128-bit value. Besides naming the
/// result, the contract states the documented fact that the hyphenated
/// lower-case form that `Display` writes parses back to its value.
#[verifier::external_body]
pub(crate) fn parse_uuid_text(text: &str) -> (r: Option<u128>)
    ensures
        r == parsed_uuid(text@),
        forall|id: u128| text@ == crate::text::uuid_text(id) ==> r == Some(id),
{
    match uuid::Uuid::parse_str(text) {
        Ok(id) => Some(id.as_u128()),
        Err(_) => None,
    }
}

} // verus!
