//! What the host machine decides: the current time and the syntax of paths.
//!
//! Neither result is a function of the arguments alone, so nothing is
//! claimed of either; callers are verified for every string that may come
//! back.

use vstd::prelude::*;

verus! {

/// `chrono::Utc::now` rendered by `DateTime::to_rfc3339`: the current time
/// as an RFC 3339 string. Nothing is claimed of the text. `chrono` panics
/// where the system clock stands before the Unix epoch.
#[verifier::external_body]
pub(crate) fn current_timestamp() -> String {
    chrono::Utc::now().to_rfc3339()
}

/// `std::path::Path::join`: `file_name` adjoined to `directory` in the host's
/// path syntax, lossily rendered as text. Nothing is claimed of the text.
#[verifier::external_body]
pub(crate) fn join_path(directory: &str, file_name: &str) -> String {
    std::path::Path::new(directory).join(file_name).to_string_lossy().into_owned()
}

} // verus!
