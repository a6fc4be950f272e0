//! Fresh identifiers and the time of day.

use vstd::prelude::*;

verus! {

/// `Uuid::new_v4`, written with hyphens as `Uuid` displays itself: a random
/// identifier, another one at every call. Where the operating system gives
/// no random bytes, `new_v4` does not return.
#[verifier::external_body]
pub(crate) fn fresh_id() -> String {
    uuid::Uuid::new_v4().to_string()
}

/// `Utc::now` and `DateTime::timestamp`: the time of the call in whole
/// seconds since the start of 1970. Where the clock of the machine stands
/// before 1970, `now` does not return.
#[verifier::external_body]
pub(crate) fn current_timestamp() -> i64 {
    chrono::Utc::now().timestamp()
}

} // verus!
