//! Leveled, buffered logging for one test-case run.
//!
//! A [`TestLogger`] accumulates diagnostic messages at increasing severity
//! and records a terminal verdict. `flush` destructively retrieves the
//! buffered messages at or above a minimum level, formatted for display.

use vstd::prelude::*;
use vstd::string::*;

verus! {

/// The level and importance of a log message, ordered
/// `Debug < Info < Warning < Error`.
#[derive(Clone, Copy, Debug, PartialEq, Eq, Structural)]
pub enum LogLevel {
    /// Granular messages, mostly useful when debugging.
    Debug,
    /// General information, less verbose than debug output.
    Info,
    /// Conditions worth attention that are not fatal to the run.
    Warning,
    /// A fatal error in the run. Most important.
    Error,
}

/// Terminal outcome of one test-case run.
#[derive(Clone, Copy, Debug, PartialEq, Eq, Structural)]
pub enum TestStatus {
    Success,
    Failure,
    Skipped,
}

/// Position of a level in the severity order; the comparisons below are
/// ordinal comparisons over this function.
pub open spec fn level_ordinal(level: LogLevel) -> int {
    match level {
        LogLevel::Debug => 0,
        LogLevel::Info => 1,
        LogLevel::Warning => 2,
        LogLevel::Error => 3,
    }
}

/// The fixed uppercase display token of each level.
pub open spec fn spec_level_name(level: LogLevel) -> Seq<char> {
    match level {
        LogLevel::Debug => "DEBUG"@,
        LogLevel::Info => "INFO"@,
        LogLevel::Warning => "WARN"@,
        LogLevel::Error => "ERROR"@,
    }
}

impl LogLevel {
    /// The fixed uppercase token used when a message at this level is shown.
    pub fn name(&self) -> (res: &str)
        ensures
            res@ == spec_level_name(*self),
    {
        match self {
            LogLevel::Debug => "DEBUG",
            LogLevel::Info => "INFO",
            LogLevel::Warning => "WARN",
            LogLevel::Error => "ERROR",
        }
    }

    /// Numeric severity, for ordinal comparison of levels.
    pub fn severity(&self) -> (res: u8)
        ensures
            res as int == level_ordinal(*self),
    {
        match self {
            LogLevel::Debug => 0,
            LogLevel::Info => 1,
            LogLevel::Warning => 2,
            LogLevel::Error => 3,
        }
    }
}

/// What one buffered entry holds, at the specification level.
pub ghost struct LogEntryModel {
    pub level: LogLevel,
    pub message: Seq<char>,
}

/// One buffered diagnostic message.
pub struct LogElement {
    level: LogLevel,
    message: String,
}

impl View for LogElement {
    type V = LogEntryModel;

    closed spec fn view(&self) -> LogEntryModel {
        LogEntryModel { level: self.level, message: self.message@ }
    }
}

impl DeepView for LogElement {
    type V = LogEntryModel;

    open spec fn deep_view(&self) -> LogEntryModel {
        self.view()
    }
}

impl LogElement {
    pub fn new(level: LogLevel, message: &str) -> (res: Self)
        ensures
            res@ == (LogEntryModel { level, message: message@ }),
    {
        LogElement { level, message: String::from_str(message) }
    }

    pub fn debug(message: &str) -> (res: Self)
        ensures
            res@ == (LogEntryModel { level: LogLevel::Debug, message: message@ }),
    {
        Self::new(LogLevel::Debug, message)
    }

    pub fn info(message: &str) -> (res: Self)
        ensures
            res@ == (LogEntryModel { level: LogLevel::Info, message: message@ }),
    {
        Self::new(LogLevel::Info, message)
    }

    pub fn warn(message: &str) -> (res: Self)
        ensures
            res@ == (LogEntryModel { level: LogLevel::Warning, message: message@ }),
    {
        Self::new(LogLevel::Warning, message)
    }

    pub fn error(message: &str) -> (res: Self)
        ensures
            res@ == (LogEntryModel { level: LogLevel::Error, message: message@ }),
    {
        Self::new(LogLevel::Error, message)
    }
}

/// The display form of one entry: `"[LEVEL_NAME] message"`.
pub open spec fn spec_format_entry(entry: LogEntryModel) -> Seq<char> {
    "["@ + spec_level_name(entry.level) + "] "@ + entry.message
}

/// The messages a flush at `min_level` yields: every entry at or above that
/// level, formatted, in original append order.
pub open spec fn spec_flush(entries: Seq<LogEntryModel>, min_level: LogLevel) -> Seq<Seq<char>>
    decreases entries.len(),
{
    if entries.len() == 0 {
        Seq::empty()
    } else {
        let rest = spec_flush(entries.drop_last(), min_level);
        if level_ordinal(entries.last().level) >= level_ordinal(min_level) {
            rest.push(spec_format_entry(entries.last()))
        } else {
            rest
        }
    }
}

/// The same messages, stated through the standard sequence operations: the
/// entries in their original order, filtered by level, each formatted.
pub open spec fn spec_flush_via_filter(
    entries: Seq<LogEntryModel>,
    min_level: LogLevel,
) -> Seq<Seq<char>> {
    entries.filter(
        |entry: LogEntryModel| level_ordinal(entry.level) >= level_ordinal(min_level),
    ).map_values(|entry: LogEntryModel| spec_format_entry(entry))
}

/// A flush yields the buffered entries in original insertion order,
/// filtered to those whose level is at or above the minimum, formatted.
pub proof fn lemma_flush_is_filtered_format(entries: Seq<LogEntryModel>, min_level: LogLevel)
    ensures
        spec_flush(entries, min_level) == spec_flush_via_filter(entries, min_level),
    decreases entries.len(),
{
    broadcast use Seq::lemma_push_map_commute;

    reveal_with_fuel(Seq::<_>::filter, 2);
    if entries.len() == 0 {
        assert(spec_flush_via_filter(entries, min_level) =~= Seq::<Seq<char>>::empty());
    } else {
        let shorter = entries.drop_last();
        lemma_flush_is_filtered_format(shorter, min_level);
        if level_ordinal(entries.last().level) >= level_ordinal(min_level) {
            assert(spec_flush_via_filter(entries, min_level) =~= spec_flush_via_filter(
                shorter,
                min_level,
            ).push(spec_format_entry(entries.last())));
        } else {
            assert(spec_flush_via_filter(entries, min_level) =~= spec_flush_via_filter(
                shorter,
                min_level,
            ));
        }
    }
}

/// What a logger holds, at the specification level: the buffered entries in
/// append order, and the verdict, if one was recorded.
pub ghost struct LoggerModel {
    pub entries: Seq<LogEntryModel>,
    pub verdict: Option<TestStatus>,
}

/// A log buffer that keeps track of messages recorded at various levels
/// during one test-case run, together with the run's verdict.
pub struct TestLogger {
    logs: Vec<LogElement>,
    test_result: Option<TestStatus>,
}

impl View for TestLogger {
    type V = LoggerModel;

    closed spec fn view(&self) -> LoggerModel {
        LoggerModel { entries: self.logs.deep_view(), verdict: self.test_result }
    }
}

impl TestLogger {
    /// A fresh logger: no buffered entries, no verdict.
    pub fn new() -> (res: Self)
        ensures
            res@.entries == Seq::<LogEntryModel>::empty(),
            res@.verdict is None,
    {
        let logger = TestLogger { logs: Vec::new(), test_result: None };
        proof {
            assert(logger@.entries =~= Seq::<LogEntryModel>::empty());
        }
        logger
    }

    /// Overwrite the verdict unconditionally; the last write wins.
    pub fn mark_status(&mut self, status: TestStatus)
        ensures
            final(self)@.verdict == Some(status),
            final(self)@.entries == old(self)@.entries,
    {
        self.test_result = Some(status);
    }

    /// Record that the run failed.
    pub fn mark_fail(&mut self)
        ensures
            final(self)@.verdict == Some(TestStatus::Failure),
            final(self)@.entries == old(self)@.entries,
    {
        self.mark_status(TestStatus::Failure);
    }

    /// Record that the run succeeded.
    pub fn mark_success(&mut self)
        ensures
            final(self)@.verdict == Some(TestStatus::Success),
            final(self)@.entries == old(self)@.entries,
    {
        self.mark_status(TestStatus::Success);
    }

    /// Record that the run was skipped.
    pub fn mark_skipped(&mut self)
        ensures
            final(self)@.verdict == Some(TestStatus::Skipped),
            final(self)@.entries == old(self)@.entries,
    {
        self.mark_status(TestStatus::Skipped);
    }

    /// Append one entry at the given level.
    pub fn log(&mut self, level: LogLevel, message: &str)
        ensures
            final(self)@.entries == old(self)@.entries.push(
                LogEntryModel { level, message: message@ },
            ),
            final(self)@.verdict == old(self)@.verdict,
    {
        let element = LogElement::new(level, message);
        self.logs.push(element);
        proof {
            assert(self.logs.deep_view() =~= old(self).logs.deep_view().push(
                LogEntryModel { level, message: message@ },
            ));
        }
    }

    /// Append one entry at `Debug` level.
    pub fn debug(&mut self, message: &str)
        ensures
            final(self)@.entries == old(self)@.entries.push(
                LogEntryModel { level: LogLevel::Debug, message: message@ },
            ),
            final(self)@.verdict == old(self)@.verdict,
    {
        self.log(LogLevel::Debug, message)
    }

    /// Append one entry at `Info` level.
    pub fn info(&mut self, message: &str)
        ensures
            final(self)@.entries == old(self)@.entries.push(
                LogEntryModel { level: LogLevel::Info, message: message@ },
            ),
            final(self)@.verdict == old(self)@.verdict,
    {
        self.log(LogLevel::Info, message)
    }

    /// Append one entry at `Warning` level.
    pub fn warn(&mut self, message: &str)
        ensures
            final(self)@.entries == old(self)@.entries.push(
                LogEntryModel { level: LogLevel::Warning, message: message@ },
            ),
            final(self)@.verdict == old(self)@.verdict,
    {
        self.log(LogLevel::Warning, message)
    }

    /// Append one entry at `Error` level.
    pub fn error(&mut self, message: &str)
        ensures
            final(self)@.entries == old(self)@.entries.push(
                LogEntryModel { level: LogLevel::Error, message: message@ },
            ),
            final(self)@.verdict == old(self)@.verdict,
    {
        self.log(LogLevel::Error, message)
    }

    /// The verdict recorded so far, if the run has concluded.
    pub fn status(&self) -> (res: Option<TestStatus>)
        ensures
            res == self@.verdict,
    {
        self.test_result
    }

    /// The number of entries currently buffered.
    pub fn message_count(&self) -> (res: usize)
        ensures
            res == self@.entries.len(),
    {
        self.logs.len()
    }

    /// Destructively retrieve, in original append order, the display form of
    /// every buffered entry whose level is at or above `min_level`. Entries
    /// below `min_level` are discarded with the rest: afterwards the buffer
    /// is empty. The verdict is untouched.
    pub fn flush(&mut self, min_level: LogLevel) -> (res: Vec<String>)
        ensures
            res.deep_view() == spec_flush(old(self)@.entries, min_level),
            final(self)@.entries == Seq::<LogEntryModel>::empty(),
            final(self)@.verdict == old(self)@.verdict,
    {
        let res = render_messages(&self.logs, min_level);
        self.logs = Vec::new();
        proof {
            assert(self.logs.deep_view() =~= Seq::<LogEntryModel>::empty());
        }
        res
    }
}

/// The loop behind `flush`: format the qualifying entries, oldest first.
fn render_messages(logs: &Vec<LogElement>, min_level: LogLevel) -> (res: Vec<String>)
    ensures
        res.deep_view() == spec_flush(logs.deep_view(), min_level),
{
    let ghost entries = logs.deep_view();
    let mut res: Vec<String> = Vec::new();
    proof {
        assert(res.deep_view() =~= spec_flush(entries.take(0), min_level));
    }
    let n = logs.len();
    let mut i: usize = 0;
    while i < n
        invariant
            i <= n,
            n == logs.len(),
            entries == logs.deep_view(),
            res.deep_view() == spec_flush(entries.take(i as int), min_level),
        decreases n - i,
    {
        proof {
            assert(entries.take(i + 1).drop_last() =~= entries.take(i as int));
            assert(entries.take(i + 1).last() == entries[i as int]);
        }
        let entry = &logs[i];
        if entry.level.severity() >= min_level.severity() {
            let mut line = String::from_str("[");
            line.append(entry.level.name());
            line.append("] ");
            line.append(entry.message.as_str());
            proof {
                assert(line@ =~= spec_format_entry(entries[i as int]));
                assert(res.deep_view().push(line@) =~= spec_flush(
                    entries.take(i + 1),
                    min_level,
                ));
            }
            res.push(line);
        } else {
            proof {
                assert(res.deep_view() =~= spec_flush(entries.take(i + 1), min_level));
            }
        }
        i += 1;
    }
    proof {
        assert(entries.take(n as int) =~= entries);
    }
    res
}

} // verus!
