//! Fresh identifiers and the current time, from outside crates.

use vstd::prelude::*;

verus! {

/// Relies on `uuid::Uuid::new_v4` and its `Display`: a random version-4
/// UUID in the hyphenated form, which is 36 characters long.
#[verifier::external_body]
pub fn fresh_id() -> (r: String)
    ensures
        r@.len() == 36,
{
    uuid::Uuid::new_v4().to_string()
}

/// Relies on `chrono::Utc::now` and `DateTime::timestamp_millis`: the
/// milliseconds since the Unix epoch, now.
#[verifier::external_body]
pub fn now_millis() -> (r: i64) {
    chrono::Utc::now().timestamp_millis()
}

} // verus!
