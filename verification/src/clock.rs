//! The time of day and fresh identifiers. The clock has to stand at a moment after 1970, and the
//! system has to have random bytes to give: `chrono` and `uuid` panic where that fails.

use vstd::prelude::*;

verus! {

/// `chrono::Utc::now` with `to_rfc3339`: the present moment in writing. Nothing is said of
/// it: it depends on when the call is made.
#[verifier::external_body]
pub(crate) fn now_rfc3339() -> String {
    chrono::Utc::now().to_rfc3339()
}

/// `chrono::Utc::now` with `timestamp`: the seconds since 1970. Nothing is said of them:
/// they depend on when the call is made.
#[verifier::external_body]
pub(crate) fn now_timestamp() -> i64 {
    chrono::Utc::now().timestamp()
}

/// `chrono::Utc::now` with `format`: the present day as year, month and day. Nothing is said
/// of it: it depends on when the call is made.
#[verifier::external_body]
pub(crate) fn today() -> String {
    chrono::Utc::now().format("%Y-%m-%d").to_string()
}

/// `uuid::Uuid::new_v4` in writing. Nothing is said of it: it is drawn at random.
#[verifier::external_body]
pub(crate) fn new_uuid() -> String {
    uuid::Uuid::new_v4().to_string()
}

} // verus!
