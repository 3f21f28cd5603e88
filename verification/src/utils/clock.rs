//! Instants as text.

use crate::models::schemas::opt_view;
use std::fmt::Write;
use vstd::prelude::*;

verus! {

/// What `chrono` writes for the instant `ms` milliseconds after the epoch, in
/// universal time, in the form that `pattern` describes; none if it cannot
/// represent the instant or does not know the pattern.
pub uninterp spec fn utc_text(ms: i64, pattern: Seq<char>) -> Option<Seq<char>>;

/// Calls `chrono::DateTime::from_timestamp_millis` and writes the instant
/// with `DateTime::format`.
#[verifier::external_body]
pub(crate) fn format_utc(ms: i64, pattern: &str) -> (r: Option<String>)
    ensures
        opt_view(r) == utc_text(ms, pattern@),
{
    let instant = chrono::DateTime::from_timestamp_millis(ms)?;
    let mut text = String::new();
    write!(text, "{}", instant.format(pattern)).ok().map(|_| text)
}

/// How an instant is shown: in the form that `pattern` describes where the
/// calendar reaches, else as the count of milliseconds since the epoch.
pub open spec fn shown_time(ms: u64, pattern: Seq<char>) -> Seq<char> {
    if ms <= i64::MAX && utc_text(ms as i64, pattern) is Some {
        utc_text(ms as i64, pattern)->0
    } else {
        crate::utils::text::decimal(ms as nat)
    }
}

/// Writes an instant, given in milliseconds since the epoch, as text.
pub fn show_time(ms: u64, pattern: &str) -> (r: String)
    ensures
        r@ == shown_time(ms, pattern@),
{
    let formatted = if ms <= i64::MAX as u64 {
        format_utc(ms as i64, pattern)
    } else {
        None
    };
    match formatted {
        Some(text) => text,
        None => {
            let mut stamp: Vec<char> = Vec::new();
            crate::utils::text::push_decimal(ms, &mut stamp);
            crate::utils::text::string_of(stamp.as_slice())
        },
    }
}

} // verus!
