//! What the library reads from the machine: the system clock and random
//! UUIDs. Nothing is known of these values beyond their shape.

use vstd::prelude::*;

verus! {

/// `std::time::SystemTime::now()` taken since `UNIX_EPOCH` (zero when the
/// clock is set before the epoch), as whole seconds and the nanoseconds
/// past them, which are under one second. What the clock reads is left open.
#[verifier::external_body]
pub(crate) fn clock_now() -> (r: (u64, u32))
    ensures
        r.1 < 1_000_000_000,
{
    let d = std::time::SystemTime::now().duration_since(std::time::UNIX_EPOCH).unwrap_or_default();
    (d.as_secs(), d.subsec_nanos())
}

/// The RFC 3339 text that chrono gives the instant `secs` seconds and
/// `nanos` nanoseconds after the Unix epoch, in UTC; `None` when chrono
/// cannot represent that instant. A function of the two numbers alone.
pub uninterp spec fn rfc3339_result(secs: i64, nanos: u32) -> Option<Seq<char>>;

/// `chrono::DateTime::<Utc>::from_timestamp(secs, nanos)` followed by
/// `to_rfc3339()`: the instant's RFC 3339 text, or `None` where
/// `from_timestamp` finds it out of range. Neither call panics.
#[verifier::external_body]
pub(crate) fn rfc3339_at(secs: i64, nanos: u32) -> (r: Option<String>)
    ensures
        match r {
            Some(t) => rfc3339_result(secs, nanos) == Some(t@),
            None => rfc3339_result(secs, nanos) is None,
        },
{
    chrono::DateTime::<chrono::Utc>::from_timestamp(secs, nanos).map(|dt| dt.to_rfc3339())
}

/// The text [`now_rfc3339`] gives for a clock reading: its RFC 3339 text, or
/// nothing when chrono cannot represent it.
pub open spec fn rfc3339_or_empty(secs: i64, nanos: u32) -> Seq<char> {
    match rfc3339_result(secs, nanos) {
        Some(t) => t,
        None => Seq::empty(),
    }
}

/// The current time in UTC as RFC 3339 text, from the reading of
/// [`clock_now`] (the epoch itself when the clock is set before it, the
/// largest `i64` second past `i64::MAX`); empty when chrono cannot represent
/// the reading. Which time the clock reads is left open.
pub(crate) fn now_rfc3339() -> (r: String)
    ensures
        exists|secs: i64, nanos: u32| secs >= 0 && nanos < 1_000_000_000 && r@ == rfc3339_or_empty(secs, nanos),
{
    let (secs, nanos) = clock_now();
    let s: i64 = if secs <= 0x7fff_ffff_ffff_ffff {
        secs as i64
    } else {
        0x7fff_ffff_ffff_ffff
    };
    let r = match rfc3339_at(s, nanos) {
        Some(t) => t,
        None => String::new(),
    };
    assert(r@ == rfc3339_or_empty(s, nanos));
    r
}

/// The monotonic clock's instants, carried through unread.
#[verifier::external_type_specification]
#[verifier::external_body]
pub struct ExInstant(std::time::Instant);

/// `std::time::Instant::now()`: the current instant of the monotonic clock.
/// Which instant it is is left open.
#[verifier::external_body]
pub(crate) fn instant_now() -> (r: std::time::Instant) {
    std::time::Instant::now()
}

/// `origin.elapsed().as_millis()`: the whole milliseconds the monotonic
/// clock has advanced since `origin` (zero, not a panic, should the clock
/// read earlier). How much time has passed is left open.
#[verifier::external_body]
pub(crate) fn millis_since(origin: &std::time::Instant) -> (r: u128) {
    origin.elapsed().as_millis()
}

/// A lower-case hexadecimal digit.
pub open spec fn is_lower_hex(c: char) -> bool {
    ('0' <= c && c <= '9') || ('a' <= c && c <= 'f')
}

/// The hyphenated lower-case text of a UUID: 36 characters, hyphens at
/// positions 8, 13, 18 and 23, hexadecimal digits elsewhere.
pub open spec fn is_uuid_text(s: Seq<char>) -> bool {
    &&& s.len() == 36
    &&& forall|i: int|
        0 <= i < 36 ==> if i == 8 || i == 13 || i == 18 || i == 23 {
            s[i] == '-'
        } else {
            is_lower_hex(#[trigger] s[i])
        }
}

/// `uuid::Uuid::new_v4().to_string()`: a random UUID in its hyphenated
/// lower-case form. Which UUID comes out is left open.
#[verifier::external_body]
pub(crate) fn new_uuid() -> (r: String)
    ensures
        is_uuid_text(r@),
{
    uuid::Uuid::new_v4().to_string()
}

} // verus!
