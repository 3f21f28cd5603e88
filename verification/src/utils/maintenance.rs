//! Housekeeping decisions: what a health check makes of the readings it is
//! given, and what an emergency clean-up does.

use crate::utils::cache::{ResponseCacheManager, SlotView};
use crate::utils::stats::{kept_within, ApiStatsManager, HOUR_MS, RETENTION_MS};
use crate::utils::error_handling::{translate_error, translated};
use crate::utils::logging::{
    extra_text, format_log_message, latest, log_line, ExtraValue, LogEntryView, LogManager,
    DEBUG, LOG_FORMAT_DEBUG, LOG_FORMAT_NORMAL,
};
use crate::utils::text::{append_str, string_of};
use vstd::prelude::*;

verus! {

/// Memory use, in percent, above which a health check complains.
pub const MEMORY_LIMIT_PERCENT: u64 = 90;

/// The number of cached log entries above which a health check complains.
pub const LOG_LIMIT: usize = 500;

/// The free disk space, in bytes, under which a health check complains: one
/// gibibyte.
pub const DISK_FLOOR_BYTES: u64 = 1_073_741_824;

/// Total and available memory, in the same unit.
#[derive(Debug, Clone, Copy, PartialEq, Eq, Structural)]
pub struct MemoryReading {
    pub total: u64,
    pub available: u64,
}

/// What a health check is told about the machine. A reading that could not
/// be taken is absent.
#[derive(Debug, Clone, Copy, PartialEq, Eq, Structural)]
pub struct HealthReadings {
    pub memory: Option<MemoryReading>,
    /// How many log entries are cached.
    pub log_count: usize,
    /// Free space under the storage directory, in bytes.
    pub disk_available: Option<u64>,
}

/// What a health check complains about.
#[derive(Debug, Clone, Copy, PartialEq, Eq, Structural)]
pub enum HealthIssue {
    MemoryHigh { total: u64, available: u64 },
    TooManyLogs { count: usize },
    DiskLow { available_bytes: u64 },
}

/// Whether more than nine tenths of the memory are in use.
pub open spec fn memory_high(total: u64, available: u64) -> bool {
    available <= total && (total - available) * 100 > MEMORY_LIMIT_PERCENT * total
}

/// The complaints about the readings: memory, then logs, then disk.
pub open spec fn health_issues(r: HealthReadings) -> Seq<HealthIssue> {
    let memory = match r.memory {
        Some(m) => if memory_high(m.total, m.available) {
            seq![HealthIssue::MemoryHigh { total: m.total, available: m.available }]
        } else {
            Seq::<HealthIssue>::empty()
        },
        None => Seq::<HealthIssue>::empty(),
    };
    let logs = if r.log_count > LOG_LIMIT {
        seq![HealthIssue::TooManyLogs { count: r.log_count }]
    } else {
        Seq::<HealthIssue>::empty()
    };
    let disk = match r.disk_available {
        Some(bytes) => if bytes < DISK_FLOOR_BYTES {
            seq![HealthIssue::DiskLow { available_bytes: bytes }]
        } else {
            Seq::<HealthIssue>::empty()
        },
        None => Seq::<HealthIssue>::empty(),
    };
    memory + logs + disk
}

/// Judges the readings of a health check.
pub fn perform_health_check(readings: &HealthReadings) -> (issues: Vec<HealthIssue>)
    ensures
        issues@ == health_issues(*readings),
{
    let mut issues: Vec<HealthIssue> = Vec::new();
    match readings.memory {
        Some(m) => {
            if m.available <= m.total {
                let used: u128 = (m.total - m.available) as u128 * 100;
                let limit: u128 = MEMORY_LIMIT_PERCENT as u128 * m.total as u128;
                if used > limit {
                    issues.push(
                        HealthIssue::MemoryHigh { total: m.total, available: m.available },
                    );
                }
            }
        },
        None => {},
    }
    if readings.log_count > LOG_LIMIT {
        issues.push(HealthIssue::TooManyLogs { count: readings.log_count });
    }
    match readings.disk_available {
        Some(bytes) => {
            if bytes < DISK_FLOOR_BYTES {
                issues.push(HealthIssue::DiskLow { available_bytes: bytes });
            }
        },
        None => {},
    }
    issues
}

/// The periodic pruning of the traffic log: drops the records older than the
/// retention horizon. Says how many were dropped.
pub fn api_call_stats_clean(stats_manager: &mut ApiStatsManager, now: u64) -> (dropped: usize)
    ensures
        final(stats_manager)@.records == kept_within(
            old(stats_manager)@.records,
            now,
            RETENTION_MS,
        ),
        dropped == old(stats_manager)@.records.len() - final(stats_manager)@.records.len(),
        final(stats_manager)@.models == old(stats_manager)@.models,
{
    stats_manager.cleanup_expired_records(RETENTION_MS, now)
}

/// The emergency clean-up: the cache is emptied, and the traffic log keeps
/// only the last hour. Says how many records were dropped.
pub fn emergency_cleanup(
    cache_manager: &mut ResponseCacheManager,
    stats_manager: &mut ApiStatsManager,
    now: u64,
) -> (dropped: usize)
    ensures
        final(cache_manager)@.slots == (Map::<Seq<char>, SlotView>::empty()),
        final(cache_manager)@.ttl == old(cache_manager)@.ttl,
        final(cache_manager)@.capacity == old(cache_manager)@.capacity,
        final(stats_manager)@.records == kept_within(old(stats_manager)@.records, now, HOUR_MS),
        dropped == old(stats_manager)@.records.len() - final(stats_manager)@.records.len(),
        final(stats_manager)@.models == old(stats_manager)@.models,
{
    cache_manager.clear();
    stats_manager.cleanup_expired_records(HOUR_MS, now)
}

/// The extras of the given ones that a log call reads as text.
pub open spec fn given_text(extra: Option<Vec<(String, ExtraValue)>>, name: Seq<char>) -> Option<
    Seq<char>,
> {
    match extra {
        Some(x) => extra_text(x@, name),
        None => None,
    }
}

/// What the log says of a failure `error` met in `context` at `now`: the
/// error as a client is shown it, under the status 500; the credential,
/// the kind of request and the model are those of the extras.
pub open spec fn exception_entry(
    error: Seq<char>,
    context: Seq<char>,
    extra: Option<Vec<(String, ExtraValue)>>,
    now: u64,
) -> LogEntryView {
    LogEntryView {
        timestamp: now,
        level: "error"@,
        message: "异常在 "@ + context + ": "@ + translated(error),
        key: given_text(extra, "key"@),
        request_type: given_text(extra, "request_type"@),
        model: given_text(extra, "model"@),
        status_code: Some(500u16),
        error_message: Some(translated(error)),
    }
}

/// Logs a failure met in `context`: the entry goes into `manager`, and its
/// line is handed out for the console.
pub fn handle_exception_with_context(
    manager: &mut LogManager,
    error: &str,
    context: &str,
    extra_data: Option<Vec<(String, ExtraValue)>>,
    now: u64,
) -> (line: String)
    ensures
        final(manager).capacity() == old(manager).capacity(),
        final(manager).entries() == latest(
            old(manager).entries().push(exception_entry(error@, context@, extra_data, now)),
            old(manager).capacity() as int,
        ),
        line@ == log_line(
            exception_entry(error@, context@, extra_data, now),
            if DEBUG {
                LOG_FORMAT_DEBUG@
            } else {
                LOG_FORMAT_NORMAL@
            },
        ),
{
    let shown = translate_error(error);
    let mut message: Vec<char> = Vec::new();
    append_str(&mut message, "异常在 ");
    append_str(&mut message, context);
    append_str(&mut message, ": ");
    append_str(&mut message, shown.as_str());
    let message = string_of(message.as_slice());
    let entry = format_log_message("error", message.as_str(), extra_data, now).with_status_code(
        500,
    ).with_error_message(shown.as_str());
    manager.add_log(entry)
}

} // verus!
