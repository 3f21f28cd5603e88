//! The log of the gateway: entries, their one-line form, and a bounded
//! memory of the latest entries for the dashboard.
//!
//! Instants are milliseconds since the epoch. Writing a line to the console
//! is left to the caller.

use crate::models::schemas::{duplicate_opt, opt_view};
use crate::utils::clock::{show_time, shown_time};
use crate::utils::text::{
    chars_of, decimal, push_decimal, replace_all, replaced, str_eq, string_of,
};
use std::collections::VecDeque;
use vstd::prelude::*;

verus! {

/// Whether lines are written in the long form.
pub const DEBUG: bool = false;

/// The long form of a line.
pub const LOG_FORMAT_DEBUG: &'static str = "{timestamp} - {level} - [{key}]-{request_type}-[{model}]-{status_code}: {message} - {error_message}";

/// The usual form of a line.
pub const LOG_FORMAT_NORMAL: &'static str = "[{timestamp}] [{level}] [{key}]-{request_type}-[{model}]-{status_code}: {message}";

/// The long form of a line of the secondary backend.
pub const VERTEX_LOG_FORMAT_DEBUG: &'static str = "{timestamp} - {level} - [{vertex_id}]-{operation}-[{status}]: {message} - {error_message}";

/// The usual form of a line of the secondary backend.
pub const VERTEX_LOG_FORMAT_NORMAL: &'static str = "[{timestamp}] [{level}] [{vertex_id}]-{operation}-[{status}]: {message}";

/// The form in which the instant of an entry is written.
pub const TIMESTAMP_FORMAT: &'static str = "%Y-%m-%d %H:%M:%S%.3f";

/// What an extra of a log call yields when it is read as text or as an
/// unsigned number.
#[derive(Debug, Clone)]
pub struct ExtraValue {
    pub as_str: Option<String>,
    pub as_u64: Option<u64>,
}

/// One entry of the log.
#[derive(Debug, Clone)]
pub struct LogEntry {
    pub timestamp: u64,
    pub level: String,
    pub message: String,
    pub key: Option<String>,
    pub request_type: Option<String>,
    pub model: Option<String>,
    pub status_code: Option<u16>,
    pub error_message: Option<String>,
    pub extra: Option<Vec<(String, ExtraValue)>>,
}

/// What an entry says, leaving the extras aside.
pub struct LogEntryView {
    pub timestamp: u64,
    pub level: Seq<char>,
    pub message: Seq<char>,
    pub key: Option<Seq<char>>,
    pub request_type: Option<Seq<char>>,
    pub model: Option<Seq<char>>,
    pub status_code: Option<u16>,
    pub error_message: Option<Seq<char>>,
}

impl View for LogEntry {
    type V = LogEntryView;

    open spec fn view(&self) -> LogEntryView {
        LogEntryView {
            timestamp: self.timestamp,
            level: self.level@,
            message: self.message@,
            key: opt_view(self.key),
            request_type: opt_view(self.request_type),
            model: opt_view(self.model),
            status_code: self.status_code,
            error_message: opt_view(self.error_message),
        }
    }
}

/// A text, or the given stand-in for a missing one.
pub open spec fn text_or(t: Option<Seq<char>>, missing: Seq<char>) -> Seq<char> {
    match t {
        Some(x) => x,
        None => missing,
    }
}

/// The line of an entry in the given form: each marker of the form is
/// replaced in turn, in the order of the fields, a missing field by a dash
/// and a missing error message by nothing.
pub open spec fn log_line(e: LogEntryView, form: Seq<char>) -> Seq<char> {
    replaced(
        replaced(
            replaced(
                replaced(
                    replaced(
                        replaced(
                            replaced(
                                replaced(
                                    form,
                                    "{timestamp}"@,
                                    shown_time(e.timestamp, TIMESTAMP_FORMAT@),
                                ),
                                "{level}"@,
                                e.level,
                            ),
                            "{key}"@,
                            text_or(e.key, "-"@),
                        ),
                        "{request_type}"@,
                        text_or(e.request_type, "-"@),
                    ),
                    "{model}"@,
                    text_or(e.model, "-"@),
                ),
                "{status_code}"@,
                match e.status_code {
                    Some(code) => decimal(code as nat),
                    None => "-"@,
                },
            ),
            "{message}"@,
            e.message,
        ),
        "{error_message}"@,
        text_or(e.error_message, ""@),
    )
}

fn fill(line: Vec<char>, marker: &str, value: &str) -> (r: Vec<char>)
    ensures
        r@ == replaced(line@, marker@, value@),
{
    let p = chars_of(marker);
    let v = chars_of(value);
    replace_all(line.as_slice(), p.as_slice(), v.as_slice())
}

fn fill_opt(line: Vec<char>, marker: &str, value: &Option<String>, missing: &str) -> (r: Vec<
    char,
>)
    ensures
        r@ == replaced(line@, marker@, text_or(opt_view(*value), missing@)),
{
    match value {
        Some(v) => fill(line, marker, v.as_str()),
        None => fill(line, marker, missing),
    }
}

impl LogEntry {
    /// An entry made at `now`.
    pub fn new(level: &str, message: &str, now: u64) -> (e: Self)
        ensures
            e@ == (LogEntryView {
                timestamp: now,
                level: level@,
                message: message@,
                key: None,
                request_type: None,
                model: None,
                status_code: None,
                error_message: None,
            }),
            e.extra is None,
    {
        LogEntry {
            timestamp: now,
            level: level.to_string(),
            message: message.to_string(),
            key: None,
            request_type: None,
            model: None,
            status_code: None,
            error_message: None,
            extra: None,
        }
    }

    /// The entry with the credential named.
    pub fn with_key(self, key: &str) -> (e: Self)
        ensures
            e@ == (LogEntryView { key: Some(key@), ..self@ }),
            e.extra == self.extra,
    {
        let mut e = self;
        e.key = Some(key.to_string());
        e
    }

    /// The entry with the kind of request named.
    pub fn with_request_type(self, request_type: &str) -> (e: Self)
        ensures
            e@ == (LogEntryView { request_type: Some(request_type@), ..self@ }),
            e.extra == self.extra,
    {
        let mut e = self;
        e.request_type = Some(request_type.to_string());
        e
    }

    /// The entry with the model named.
    pub fn with_model(self, model: &str) -> (e: Self)
        ensures
            e@ == (LogEntryView { model: Some(model@), ..self@ }),
            e.extra == self.extra,
    {
        let mut e = self;
        e.model = Some(model.to_string());
        e
    }

    /// The entry with the status.
    pub fn with_status_code(self, status_code: u16) -> (e: Self)
        ensures
            e@ == (LogEntryView { status_code: Some(status_code), ..self@ }),
            e.extra == self.extra,
    {
        let mut e = self;
        e.status_code = Some(status_code);
        e
    }

    /// The entry with the error message.
    pub fn with_error_message(self, error_message: &str) -> (e: Self)
        ensures
            e@ == (LogEntryView { error_message: Some(error_message@), ..self@ }),
            e.extra == self.extra,
    {
        let mut e = self;
        e.error_message = Some(error_message.to_string());
        e
    }

    /// The entry with extras.
    pub fn with_extra(self, extra: Vec<(String, ExtraValue)>) -> (e: Self)
        ensures
            e@ == self@,
            e.extra == Some(extra),
    {
        let mut e = self;
        e.extra = Some(extra);
        e
    }

    /// The entry as one line.
    pub fn line(&self) -> (r: String)
        ensures
            r@ == log_line(
                self@,
                if DEBUG {
                    LOG_FORMAT_DEBUG@
                } else {
                    LOG_FORMAT_NORMAL@
                },
            ),
    {
        let form = if DEBUG {
            LOG_FORMAT_DEBUG
        } else {
            LOG_FORMAT_NORMAL
        };
        let stamp = show_time(self.timestamp, TIMESTAMP_FORMAT);
        let code = match self.status_code {
            Some(c) => {
                let mut digits: Vec<char> = Vec::new();
                push_decimal(c as u64, &mut digits);
                string_of(digits.as_slice())
            },
            None => "-".to_string(),
        };
        let a = fill(chars_of(form), "{timestamp}", stamp.as_str());
        let b = fill(a, "{level}", self.level.as_str());
        let c = fill_opt(b, "{key}", &self.key, "-");
        let d = fill_opt(c, "{request_type}", &self.request_type, "-");
        let e = fill_opt(d, "{model}", &self.model, "-");
        let f = fill(e, "{status_code}", code.as_str());
        let g = fill(f, "{message}", self.message.as_str());
        let h = fill_opt(g, "{error_message}", &self.error_message, "");
        string_of(h.as_slice())
    }

    /// A copy that says the same, without the extras.
    pub fn duplicate(&self) -> (e: Self)
        ensures
            e@ == self@,
            e.extra is None,
    {
        LogEntry {
            timestamp: self.timestamp,
            level: self.level.clone(),
            message: self.message.clone(),
            key: duplicate_opt(&self.key),
            request_type: duplicate_opt(&self.request_type),
            model: duplicate_opt(&self.model),
            status_code: self.status_code,
            error_message: duplicate_opt(&self.error_message),
            extra: None,
        }
    }
}

/// The first extra of the given name, if there is one.
pub open spec fn extra_named(extra: Seq<(String, ExtraValue)>, name: Seq<char>) -> Option<
    ExtraValue,
>
    decreases extra.len(),
{
    if extra.len() == 0 {
        None
    } else if extra[0].0@ == name {
        Some(extra[0].1)
    } else {
        extra_named(extra.skip(1), name)
    }
}

/// The text of the first extra of the given name, if it is text.
pub open spec fn extra_text(extra: Seq<(String, ExtraValue)>, name: Seq<char>) -> Option<
    Seq<char>,
> {
    match extra_named(extra, name) {
        Some(v) => opt_view(v.as_str),
        None => None,
    }
}

/// The status in the extras: the low sixteen bits of the number named
/// `status_code`, if there is one.
pub open spec fn extra_status(extra: Seq<(String, ExtraValue)>) -> Option<u16> {
    match extra_named(extra, "status_code"@) {
        Some(v) => match v.as_u64 {
            Some(n) => Some((n as int % 0x1_0000) as u16),
            None => None,
        },
        None => None,
    }
}

fn find_extra<'a>(extra: &'a Vec<(String, ExtraValue)>, name: &str) -> (r: Option<&'a ExtraValue>)
    ensures
        match r {
            Some(v) => extra_named(extra@, name@) == Some(*v),
            None => extra_named(extra@, name@) is None,
        },
{
    let mut i: usize = 0;
    proof {
        assert(extra@.skip(0) == extra@);
    }
    while i < extra.len()
        invariant
            i <= extra.len(),
            extra_named(extra@, name@) == extra_named(extra@.skip(i as int), name@),
        decreases extra.len() - i,
    {
        if str_eq(extra[i].0.as_str(), name) {
            return Some(&extra[i].1);
        }
        proof {
            assert(extra@.skip(i as int).skip(1) == extra@.skip(i as int + 1));
        }
        i += 1;
    }
    None
}

fn text_extra(extra: &Vec<(String, ExtraValue)>, name: &str) -> (r: Option<String>)
    ensures
        opt_view(r) == extra_text(extra@, name@),
{
    match find_extra(extra, name) {
        Some(v) => duplicate_opt(&v.as_str),
        None => None,
    }
}

/// Makes the entry of a log call at `now`.
pub fn format_log_message(
    level: &str,
    message: &str,
    extra: Option<Vec<(String, ExtraValue)>>,
    now: u64,
) -> (e: LogEntry)
    ensures
        e.extra == extra,
        e@ == logged(level@, message@, extra, now),
{
    match extra {
        None => LogEntry::new(level, message, now),
        Some(x) => {
            let status_code = match find_extra(&x, "status_code") {
                Some(v) => match v.as_u64 {
                    Some(n) => Some((n % 0x1_0000) as u16),
                    None => None,
                },
                None => None,
            };
            LogEntry {
                timestamp: now,
                level: level.to_string(),
                message: message.to_string(),
                key: text_extra(&x, "key"),
                request_type: text_extra(&x, "request_type"),
                model: text_extra(&x, "model"),
                status_code,
                error_message: text_extra(&x, "error_message"),
                extra: Some(x),
            }
        },
    }
}

/// The views of a run of entries.
pub open spec fn entry_views(v: Seq<LogEntry>) -> Seq<LogEntryView> {
    v.map_values(|e: LogEntry| e@)
}

/// The last `n` items of a run, or all of it if it has no more.
pub open spec fn latest<T>(q: Seq<T>, n: int) -> Seq<T> {
    if q.len() > n {
        q.skip(q.len() - n)
    } else {
        q
    }
}

/// A letter of the ASCII alphabet in lower case; any other character as it
/// is.
pub open spec fn ascii_lower(c: char) -> char {
    if 'A' <= c && c <= 'Z' {
        ((c as u32 + 32) as u8) as char
    } else {
        c
    }
}

/// Whether two texts are the same but for the case of ASCII letters.
pub open spec fn same_ignoring_case(a: Seq<char>, b: Seq<char>) -> bool {
    a.len() == b.len() && forall|i: int|
        0 <= i < a.len() ==> ascii_lower(#[trigger] a[i]) == ascii_lower(b[i])
}

fn lower(c: char) -> (r: char)
    ensures
        r == ascii_lower(c),
{
    if 'A' <= c && c <= 'Z' {
        ((c as u32 + 32) as u8) as char
    } else {
        c
    }
}

fn eq_ignoring_case(a: &str, b: &str) -> (r: bool)
    ensures
        r == same_ignoring_case(a@, b@),
{
    let x = chars_of(a);
    let y = chars_of(b);
    if x.len() != y.len() {
        return false;
    }
    let mut i: usize = 0;
    while i < x.len()
        invariant
            i <= x.len(),
            x.len() == y.len(),
            x@ == a@,
            y@ == b@,
            forall|k: int| 0 <= k < i ==> ascii_lower(#[trigger] x@[k]) == ascii_lower(y@[k]),
        decreases x.len() - i,
    {
        if lower(x[i]) != lower(y[i]) {
            proof {
                assert(ascii_lower(a@[i as int]) != ascii_lower(b@[i as int]));
            }
            return false;
        }
        i += 1;
    }
    true
}

/// The memory of the latest entries.
pub struct LogManager {
    logs: VecDeque<LogEntry>,
    max_logs: usize,
}

impl LogManager {
    /// What the entries in memory say, oldest first.
    pub closed spec fn entries(&self) -> Seq<LogEntryView> {
        entry_views(self.logs@)
    }

    /// How many entries are kept at most.
    pub closed spec fn capacity(&self) -> usize {
        self.max_logs
    }

    /// A memory for `max_logs` entries.
    pub fn new(max_logs: usize) -> (m: Self)
        ensures
            m.entries().len() == 0,
            m.capacity() == max_logs,
    {
        LogManager { logs: VecDeque::new(), max_logs }
    }

    /// Takes in an entry, forgets the oldest entries beyond the capacity, and
    /// hands out the line of the entry for the console.
    pub fn add_log(&mut self, entry: LogEntry) -> (line: String)
        ensures
            final(self).capacity() == old(self).capacity(),
            final(self).entries() == latest(
                old(self).entries().push(entry@),
                old(self).capacity() as int,
            ),
            line@ == log_line(
                entry@,
                if DEBUG {
                    LOG_FORMAT_DEBUG@
                } else {
                    LOG_FORMAT_NORMAL@
                },
            ),
    {
        let line = entry.line();
        let ghost grown = entry_views(self.logs@).push(entry@);
        self.logs.push_back(entry);
        proof {
            assert(entry_views(self.logs@) == grown);
            assert(grown.skip(0) == grown);
        }
        while self.logs.len() > self.max_logs
            invariant
                self.max_logs == old(self).max_logs,
                entry_views(self.logs@).len() <= grown.len(),
                self.logs@.len() == entry_views(self.logs@).len(),
                grown.len() > self.max_logs ==> entry_views(self.logs@).len() >= self.max_logs,
                grown.len() <= self.max_logs ==> entry_views(self.logs@).len() == grown.len(),
                entry_views(self.logs@) == grown.skip(grown.len() - entry_views(self.logs@).len()),
            decreases self.logs@.len(),
        {
            let ghost current = entry_views(self.logs@);
            self.logs.pop_front();
            proof {
                assert(entry_views(self.logs@) == current.skip(1));
                assert(current.skip(1) == grown.skip(grown.len() - (current.len() - 1)));
            }
        }
        line
    }

    /// Copies of the entries in memory, oldest first.
    pub fn get_logs(&self) -> (r: Vec<LogEntry>)
        ensures
            entry_views(r@) == self.entries(),
    {
        self.get_recent_logs(self.logs.len())
    }

    /// Copies of the latest `count` entries, oldest first.
    pub fn get_recent_logs(&self, count: usize) -> (r: Vec<LogEntry>)
        ensures
            entry_views(r@) == latest(self.entries(), count as int),
    {
        let n = self.logs.len();
        let start: usize = if n > count {
            n - count
        } else {
            0
        };
        let mut r: Vec<LogEntry> = Vec::new();
        let mut i: usize = start;
        while i < n
            invariant
                start <= i <= n,
                n == self.logs@.len(),
                entry_views(r@) == entry_views(self.logs@).subrange(start as int, i as int),
            decreases n - i,
        {
            let ghost before = entry_views(r@);
            r.push(self.logs[i].duplicate());
            proof {
                assert(entry_views(r@) == before.push(self.logs@[i as int]@));
            }
            i += 1;
        }
        proof {
            assert(entry_views(self.logs@).subrange(start as int, n as int) == entry_views(
                self.logs@,
            ).skip(start as int));
            assert(entry_views(self.logs@).skip(0) == entry_views(self.logs@));
        }
        r
    }

    /// Copies of the entries of a level, whatever the case of its letters,
    /// oldest first.
    pub fn get_logs_by_level(&self, level: &str) -> (r: Vec<LogEntry>)
        ensures
            entry_views(r@) == self.entries().filter(
                |e: LogEntryView| same_ignoring_case(e.level, level@),
            ),
    {
        let ghost keep = |e: LogEntryView| same_ignoring_case(e.level, level@);
        let ghost all = entry_views(self.logs@);
        let mut r: Vec<LogEntry> = Vec::new();
        let mut i: usize = 0;
        proof {
            reveal(Seq::filter);
            assert(all.take(0) == Seq::<LogEntryView>::empty());
        }
        while i < self.logs.len()
            invariant
                i <= self.logs.len(),
                all == entry_views(self.logs@),
                keep == |e: LogEntryView| same_ignoring_case(e.level, level@),
                entry_views(r@) == all.take(i as int).filter(keep),
            decreases self.logs.len() - i,
        {
            let ghost before = entry_views(r@);
            proof {
                reveal(Seq::filter);
                assert(all.take(i as int + 1).drop_last() == all.take(i as int));
                assert(all.take(i as int + 1).last() == self.logs@[i as int]@);
            }
            if eq_ignoring_case(self.logs[i].level.as_str(), level) {
                r.push(self.logs[i].duplicate());
                proof {
                    assert(entry_views(r@) == before.push(self.logs@[i as int]@));
                }
            }
            i += 1;
        }
        proof {
            assert(all.take(self.logs.len() as int) == all);
        }
        r
    }

    /// Forgets every entry.
    pub fn clear(&mut self)
        ensures
            final(self).entries().len() == 0,
            final(self).capacity() == old(self).capacity(),
    {
        self.logs = VecDeque::new();
    }

    /// How many entries are in memory.
    pub fn count(&self) -> (n: usize)
        ensures
            n == self.entries().len(),
    {
        self.logs.len()
    }
}

/// One entry of the log of the secondary backend.
#[derive(Debug, Clone)]
pub struct VertexLogEntry {
    pub timestamp: u64,
    pub level: String,
    pub message: String,
    pub vertex_id: Option<String>,
    pub operation: Option<String>,
    pub status: Option<String>,
    pub error_message: Option<String>,
}

/// What an entry of the secondary backend says.
pub struct VertexLogEntryView {
    pub timestamp: u64,
    pub level: Seq<char>,
    pub message: Seq<char>,
    pub vertex_id: Option<Seq<char>>,
    pub operation: Option<Seq<char>>,
    pub status: Option<Seq<char>>,
    pub error_message: Option<Seq<char>>,
}

impl View for VertexLogEntry {
    type V = VertexLogEntryView;

    open spec fn view(&self) -> VertexLogEntryView {
        VertexLogEntryView {
            timestamp: self.timestamp,
            level: self.level@,
            message: self.message@,
            vertex_id: opt_view(self.vertex_id),
            operation: opt_view(self.operation),
            status: opt_view(self.status),
            error_message: opt_view(self.error_message),
        }
    }
}

/// The line of an entry of the secondary backend in the given form.
pub open spec fn vertex_log_line(e: VertexLogEntryView, form: Seq<char>) -> Seq<char> {
    replaced(
        replaced(
            replaced(
                replaced(
                    replaced(
                        replaced(
                            replaced(
                                form,
                                "{timestamp}"@,
                                shown_time(e.timestamp, TIMESTAMP_FORMAT@),
                            ),
                            "{level}"@,
                            e.level,
                        ),
                        "{vertex_id}"@,
                        text_or(e.vertex_id, "-"@),
                    ),
                    "{operation}"@,
                    text_or(e.operation, "-"@),
                ),
                "{status}"@,
                text_or(e.status, "-"@),
            ),
            "{message}"@,
            e.message,
        ),
        "{error_message}"@,
        text_or(e.error_message, ""@),
    )
}

impl VertexLogEntry {
    /// An entry made at `now`.
    pub fn new(level: &str, message: &str, now: u64) -> (e: Self)
        ensures
            e@ == (VertexLogEntryView {
                timestamp: now,
                level: level@,
                message: message@,
                vertex_id: None,
                operation: None,
                status: None,
                error_message: None,
            }),
    {
        VertexLogEntry {
            timestamp: now,
            level: level.to_string(),
            message: message.to_string(),
            vertex_id: None,
            operation: None,
            status: None,
            error_message: None,
        }
    }

    /// The entry with the backend named.
    pub fn with_vertex_id(self, vertex_id: &str) -> (e: Self)
        ensures
            e@ == (VertexLogEntryView { vertex_id: Some(vertex_id@), ..self@ }),
    {
        let mut e = self;
        e.vertex_id = Some(vertex_id.to_string());
        e
    }

    /// The entry with the operation named.
    pub fn with_operation(self, operation: &str) -> (e: Self)
        ensures
            e@ == (VertexLogEntryView { operation: Some(operation@), ..self@ }),
    {
        let mut e = self;
        e.operation = Some(operation.to_string());
        e
    }

    /// The entry with the status.
    pub fn with_status(self, status: &str) -> (e: Self)
        ensures
            e@ == (VertexLogEntryView { status: Some(status@), ..self@ }),
    {
        let mut e = self;
        e.status = Some(status.to_string());
        e
    }

    /// The entry with the error message.
    pub fn with_error_message(self, error_message: &str) -> (e: Self)
        ensures
            e@ == (VertexLogEntryView { error_message: Some(error_message@), ..self@ }),
    {
        let mut e = self;
        e.error_message = Some(error_message.to_string());
        e
    }

    /// A copy that says the same.
    pub fn duplicate(&self) -> (e: Self)
        ensures
            e@ == self@,
    {
        VertexLogEntry {
            timestamp: self.timestamp,
            level: self.level.clone(),
            message: self.message.clone(),
            vertex_id: duplicate_opt(&self.vertex_id),
            operation: duplicate_opt(&self.operation),
            status: duplicate_opt(&self.status),
            error_message: duplicate_opt(&self.error_message),
        }
    }

    /// The entry as one line.
    pub fn line(&self) -> (r: String)
        ensures
            r@ == vertex_log_line(
                self@,
                if DEBUG {
                    VERTEX_LOG_FORMAT_DEBUG@
                } else {
                    VERTEX_LOG_FORMAT_NORMAL@
                },
            ),
    {
        let form = if DEBUG {
            VERTEX_LOG_FORMAT_DEBUG
        } else {
            VERTEX_LOG_FORMAT_NORMAL
        };
        let stamp = show_time(self.timestamp, TIMESTAMP_FORMAT);
        let a = fill(chars_of(form), "{timestamp}", stamp.as_str());
        let b = fill(a, "{level}", self.level.as_str());
        let c = fill_opt(b, "{vertex_id}", &self.vertex_id, "-");
        let d = fill_opt(c, "{operation}", &self.operation, "-");
        let e = fill_opt(d, "{status}", &self.status, "-");
        let f = fill(e, "{message}", self.message.as_str());
        let g = fill_opt(f, "{error_message}", &self.error_message, "");
        string_of(g.as_slice())
    }
}

/// The views of a run of entries of the secondary backend.
pub open spec fn vertex_entry_views(v: Seq<VertexLogEntry>) -> Seq<VertexLogEntryView> {
    v.map_values(|e: VertexLogEntry| e@)
}

/// The memory of the latest entries of the secondary backend.
pub struct VertexLogManager {
    logs: VecDeque<VertexLogEntry>,
    max_logs: usize,
}

impl VertexLogManager {
    /// What the entries in memory say, oldest first.
    pub closed spec fn entries(&self) -> Seq<VertexLogEntryView> {
        vertex_entry_views(self.logs@)
    }

    /// How many entries are kept at most.
    pub closed spec fn capacity(&self) -> usize {
        self.max_logs
    }

    /// A memory for `max_logs` entries.
    pub fn new(max_logs: usize) -> (m: Self)
        ensures
            m.entries().len() == 0,
            m.capacity() == max_logs,
    {
        VertexLogManager { logs: VecDeque::new(), max_logs }
    }

    /// Takes in an entry, forgets the oldest entries beyond the capacity, and
    /// hands out the line of the entry for the console.
    pub fn add_log(&mut self, entry: VertexLogEntry) -> (line: String)
        ensures
            final(self).capacity() == old(self).capacity(),
            final(self).entries() == latest(
                old(self).entries().push(entry@),
                old(self).capacity() as int,
            ),
            line@ == vertex_log_line(
                entry@,
                if DEBUG {
                    VERTEX_LOG_FORMAT_DEBUG@
                } else {
                    VERTEX_LOG_FORMAT_NORMAL@
                },
            ),
    {
        let line = entry.line();
        let ghost grown = vertex_entry_views(self.logs@).push(entry@);
        self.logs.push_back(entry);
        proof {
            assert(vertex_entry_views(self.logs@) == grown);
            assert(grown.skip(0) == grown);
        }
        while self.logs.len() > self.max_logs
            invariant
                self.max_logs == old(self).max_logs,
                vertex_entry_views(self.logs@).len() <= grown.len(),
                self.logs@.len() == vertex_entry_views(self.logs@).len(),
                grown.len() > self.max_logs ==> vertex_entry_views(self.logs@).len()
                    >= self.max_logs,
                grown.len() <= self.max_logs ==> vertex_entry_views(self.logs@).len()
                    == grown.len(),
                vertex_entry_views(self.logs@) == grown.skip(
                    grown.len() - vertex_entry_views(self.logs@).len(),
                ),
            decreases self.logs@.len(),
        {
            let ghost current = vertex_entry_views(self.logs@);
            self.logs.pop_front();
            proof {
                assert(vertex_entry_views(self.logs@) == current.skip(1));
                assert(current.skip(1) == grown.skip(grown.len() - (current.len() - 1)));
            }
        }
        line
    }

    /// Copies of the entries in memory, oldest first.
    pub fn get_logs(&self) -> (r: Vec<VertexLogEntry>)
        ensures
            vertex_entry_views(r@) == self.entries(),
    {
        self.get_recent_logs(self.logs.len())
    }

    /// Copies of the latest `count` entries, oldest first.
    pub fn get_recent_logs(&self, count: usize) -> (r: Vec<VertexLogEntry>)
        ensures
            vertex_entry_views(r@) == latest(self.entries(), count as int),
    {
        let n = self.logs.len();
        let start: usize = if n > count {
            n - count
        } else {
            0
        };
        let mut r: Vec<VertexLogEntry> = Vec::new();
        let mut i: usize = start;
        while i < n
            invariant
                start <= i <= n,
                n == self.logs@.len(),
                vertex_entry_views(r@) == vertex_entry_views(self.logs@).subrange(
                    start as int,
                    i as int,
                ),
            decreases n - i,
        {
            let ghost before = vertex_entry_views(r@);
            r.push(self.logs[i].duplicate());
            proof {
                assert(vertex_entry_views(r@) == before.push(self.logs@[i as int]@));
            }
            i += 1;
        }
        proof {
            assert(vertex_entry_views(self.logs@).subrange(start as int, n as int)
                == vertex_entry_views(self.logs@).skip(start as int));
            assert(vertex_entry_views(self.logs@).skip(0) == vertex_entry_views(self.logs@));
        }
        r
    }

    /// Forgets every entry.
    pub fn clear(&mut self)
        ensures
            final(self).entries().len() == 0,
            final(self).capacity() == old(self).capacity(),
    {
        self.logs = VecDeque::new();
    }
}

/// Makes the entry of a log call of the secondary backend at `now`.
pub fn vertex_format_log_message(
    level: &str,
    message: &str,
    extra: Option<Vec<(String, ExtraValue)>>,
    now: u64,
) -> (e: VertexLogEntry)
    ensures
        e@ == vertex_logged(level@, message@, extra, now),
{
    match extra {
        None => VertexLogEntry::new(level, message, now),
        Some(x) => VertexLogEntry {
            timestamp: now,
            level: level.to_string(),
            message: message.to_string(),
            vertex_id: text_extra(&x, "vertex_id"),
            operation: text_extra(&x, "operation"),
            status: text_extra(&x, "status"),
            error_message: text_extra(&x, "error_message"),
        },
    }
}

/// What the entry of a log call at `now` says: the credential, the kind
/// of request, the model, the status and the error message are those of
/// the extras of these names, where they have the right kind.
pub open spec fn logged(
    level: Seq<char>,
    message: Seq<char>,
    extra: Option<Vec<(String, ExtraValue)>>,
    now: u64,
) -> LogEntryView {
    match extra {
        None => LogEntryView {
            timestamp: now,
            level,
            message,
            key: None,
            request_type: None,
            model: None,
            status_code: None,
            error_message: None,
        },
        Some(x) => LogEntryView {
            timestamp: now,
            level,
            message,
            key: extra_text(x@, "key"@),
            request_type: extra_text(x@, "request_type"@),
            model: extra_text(x@, "model"@),
            status_code: extra_status(x@),
            error_message: extra_text(x@, "error_message"@),
        },
    }
}

/// Makes the entry of a log call at `now`, takes it into `manager`, and
/// hands out its line for the console.
pub fn log(
    manager: &mut LogManager,
    level: &str,
    message: &str,
    extra: Option<Vec<(String, ExtraValue)>>,
    now: u64,
) -> (line: String)
    ensures
        final(manager).capacity() == old(manager).capacity(),
        final(manager).entries() == latest(
            old(manager).entries().push(logged(level@, message@, extra, now)),
            old(manager).capacity() as int,
        ),
        line@ == log_line(
            logged(level@, message@, extra, now),
            if DEBUG {
                LOG_FORMAT_DEBUG@
            } else {
                LOG_FORMAT_NORMAL@
            },
        ),
{
    let entry = format_log_message(level, message, extra, now);
    manager.add_log(entry)
}

/// What the entry of a log call of the secondary backend at `now` says.
pub open spec fn vertex_logged(
    level: Seq<char>,
    message: Seq<char>,
    extra: Option<Vec<(String, ExtraValue)>>,
    now: u64,
) -> VertexLogEntryView {
    match extra {
        None => VertexLogEntryView {
            timestamp: now,
            level,
            message,
            vertex_id: None,
            operation: None,
            status: None,
            error_message: None,
        },
        Some(x) => VertexLogEntryView {
            timestamp: now,
            level,
            message,
            vertex_id: extra_text(x@, "vertex_id"@),
            operation: extra_text(x@, "operation"@),
            status: extra_text(x@, "status"@),
            error_message: extra_text(x@, "error_message"@),
        },
    }
}

/// Makes the entry of a log call of the secondary backend at `now`, takes
/// it into `manager`, and hands out its line for the console.
pub fn vertex_log(
    manager: &mut VertexLogManager,
    level: &str,
    message: &str,
    extra: Option<Vec<(String, ExtraValue)>>,
    now: u64,
) -> (line: String)
    ensures
        final(manager).capacity() == old(manager).capacity(),
        final(manager).entries() == latest(
            old(manager).entries().push(vertex_logged(level@, message@, extra, now)),
            old(manager).capacity() as int,
        ),
        line@ == vertex_log_line(
            vertex_logged(level@, message@, extra, now),
            if DEBUG {
                VERTEX_LOG_FORMAT_DEBUG@
            } else {
                VERTEX_LOG_FORMAT_NORMAL@
            },
        ),
{
    let entry = vertex_format_log_message(level, message, extra, now);
    manager.add_log(entry)
}

} // verus!
