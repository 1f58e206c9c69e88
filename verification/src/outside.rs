//! What comes from outside: fresh identifiers and the time.
use vstd::prelude::*;
use vstd::string::*;

verus! {

/// `uuid::Uuid::new_v4` and its text: a random identifier of 36 characters. What
/// it holds is up to chance.
#[verifier::external_body]
pub(crate) fn fresh_id() -> (r: String)
    ensures
        r@.len() == 36,
{
    uuid::Uuid::new_v4().to_string()
}

/// `chrono::Utc::now` in milliseconds since 1970, which is up to the clock.
#[verifier::external_body]
pub(crate) fn current_time() -> (r: i64) {
    chrono::Utc::now().timestamp_millis()
}

/// `chrono::Utc::now` as a text by RFC 3339, which is up to the clock.
#[verifier::external_body]
pub(crate) fn current_time_text() -> (r: String) {
    chrono::Utc::now().to_rfc3339()
}

/// `uuid::Uuid::new_v4` in its simple form: a text of 32 characters, which ones
/// is up to chance.
#[verifier::external_body]
pub(crate) fn fresh_simple_id() -> (r: String)
    ensures
        r@.len() == 32,
{
    uuid::Uuid::new_v4().simple().to_string()
}

} // verus!
