//! Trusted boundary to outside crates and to std functions vstd gives no
//! specification. Each item's contract states only what the called function's
//! source or documentation plainly shows.

use vstd::prelude::*;

verus! {

/// What `String::from_utf8_lossy` yields for the given bytes: a pure function
/// of the bytes alone.
pub uninterp spec fn lossy_utf8(bytes: Seq<u8>) -> Seq<char>;

/// Relies on `String::from_utf8_lossy`: valid UTF-8 is decoded unchanged and
/// invalid sequences become replacement characters, so the result depends on
/// the bytes alone, and ASCII bytes decode to their own characters.
#[verifier::external_body]
pub fn lossy_string(bytes: &[u8]) -> (r: String)
    ensures
        r@ == lossy_utf8(bytes@),
        (forall|i: int| 0 <= i < bytes@.len() ==> bytes@[i] < 0x80) ==> r@ == Seq::new(
            bytes@.len(),
            |i: int| bytes@[i] as char,
        ),
{
    String::from_utf8_lossy(bytes).into_owned()
}

/// Relies on `uuid::Uuid::new_v4`: a freshly generated random identifier,
/// returned as its 128-bit value. Nothing is promised of the value.
#[verifier::external_body]
pub fn fresh_uuid() -> u128 {
    uuid::Uuid::new_v4().as_u128()
}

/// Relies on `chrono::Utc::now`: the current time as milliseconds since the
/// Unix epoch. Nothing is promised of the value.
#[verifier::external_body]
pub fn now_timestamp_millis() -> i64 {
    chrono::Utc::now().timestamp_millis()
}

/// How `natord::compare` orders two strings: a pure function of the two
/// character sequences (natural order: digit runs compare as numbers).
pub uninterp spec fn natural_cmp(a: Seq<char>, b: Seq<char>) -> core::cmp::Ordering;

/// Relies on `natord::compare`: a deterministic total order on strings; in
/// particular it is antisymmetric, so a `Greater` answer for `(a, b)` means
/// `Less` for `(b, a)` and `Equal` answers match both ways.
#[verifier::external_body]
pub fn natural_compare(a: &str, b: &str) -> (r: core::cmp::Ordering)
    ensures
        r == natural_cmp(a@, b@),
        r == core::cmp::Ordering::Greater ==> natural_cmp(b@, a@) == core::cmp::Ordering::Less,
        r == core::cmp::Ordering::Equal ==> natural_cmp(b@, a@) == core::cmp::Ordering::Equal,
        r == core::cmp::Ordering::Less ==> natural_cmp(b@, a@) == core::cmp::Ordering::Greater,
{
    natord::compare(a, b)
}

/// What `str::to_lowercase` yields: a pure function of the characters alone.
pub uninterp spec fn lower_of(s: Seq<char>) -> Seq<char>;

/// Relies on `str::to_lowercase`: the Unicode lowercase mapping of the
/// string, a function of its characters alone; an empty string stays empty.
#[verifier::external_body]
pub fn lowercase(s: &str) -> (r: String)
    ensures
        r@ == lower_of(s@),
        s@.len() == 0 ==> r@.len() == 0,
{
    s.to_lowercase()
}

} // verus!
