//! Logging decision logic.
//!
//! A [`Logger`] is an explicit value owned by the caller (no process-wide
//! state). It filters records by level, stores them in memory targets, and
//! hands back the exact lines that console and file targets should receive;
//! performing the writes is the caller's concern, so the decisions here are
//! stated and proved over plain values.

use vstd::prelude::*;

use crate::text::dec_digits;
use crate::text::u32_to_string;
use crate::text::u64_to_string;

verus! {

/// Log level, ordered from most verbose to least verbose.
#[derive(Debug, Clone, Copy, PartialEq, Eq, Structural)]
pub enum LogLevel {
    /// Most verbose.
    Trace,
    Debug,
    Info,
    Warn,
    Error,
    /// Least verbose.
    Fatal,
}

impl LogLevel {
    /// Numeric rank of the level; higher means more severe.
    pub open spec fn severity_spec(self) -> nat {
        match self {
            LogLevel::Trace => 0,
            LogLevel::Debug => 1,
            LogLevel::Info => 2,
            LogLevel::Warn => 3,
            LogLevel::Error => 4,
            LogLevel::Fatal => 5,
        }
    }

    /// Numeric rank of the level; higher means more severe.
    pub fn severity(self) -> (r: u8)
        ensures
            r as nat == self.severity_spec(),
    {
        match self {
            LogLevel::Trace => 0,
            LogLevel::Debug => 1,
            LogLevel::Info => 2,
            LogLevel::Warn => 3,
            LogLevel::Error => 4,
            LogLevel::Fatal => 5,
        }
    }

    /// The conventional upper-case label of the level.
    pub open spec fn label_spec(self) -> Seq<char> {
        match self {
            LogLevel::Trace => "TRACE"@,
            LogLevel::Debug => "DEBUG"@,
            LogLevel::Info => "INFO"@,
            LogLevel::Warn => "WARN"@,
            LogLevel::Error => "ERROR"@,
            LogLevel::Fatal => "FATAL"@,
        }
    }

    /// The conventional upper-case label of the level.
    pub fn label(self) -> (r: &'static str)
        ensures
            r@ == self.label_spec(),
    {
        match self {
            LogLevel::Trace => "TRACE",
            LogLevel::Debug => "DEBUG",
            LogLevel::Info => "INFO",
            LogLevel::Warn => "WARN",
            LogLevel::Error => "ERROR",
            LogLevel::Fatal => "FATAL",
        }
    }

    /// Whether a record at this level passes a minimum-level filter.
    pub fn passes(self, min: LogLevel) -> (r: bool)
        ensures
            r == (self.severity_spec() >= min.severity_spec()),
    {
        self.severity() >= min.severity()
    }
}

/// One log record.
#[derive(Debug, Clone)]
pub struct LogRecord {
    /// Log level.
    pub level: LogLevel,
    /// Log message.
    pub message: String,
    /// Log target (module, subsystem, ...).
    pub target: String,
    /// Milliseconds since the UNIX epoch, supplied by the caller's clock.
    pub timestamp_millis: u64,
    /// Caller-supplied thread identifier.
    pub thread_id: u64,
    /// Source file of the call site.
    pub file: String,
    /// Source line of the call site.
    pub line: u32,
}

/// Field-wise agreement of two records, up to string views.
pub open spec fn record_like(a: LogRecord, b: LogRecord) -> bool {
    &&& a.level == b.level
    &&& a.message@ == b.message@
    &&& a.target@ == b.target@
    &&& a.timestamp_millis == b.timestamp_millis
    &&& a.thread_id == b.thread_id
    &&& a.file@ == b.file@
    &&& a.line == b.line
}

impl LogRecord {
    /// Creates a record. The timestamp and thread identifier are plain
    /// values handed in by the caller, so the constructor itself is pure.
    pub fn new(
        level: LogLevel,
        message: &str,
        target: &str,
        file: &str,
        line: u32,
        timestamp_millis: u64,
        thread_id: u64,
    ) -> (r: LogRecord)
        ensures
            r.level == level,
            r.message@ == message@,
            r.target@ == target@,
            r.file@ == file@,
            r.line == line,
            r.timestamp_millis == timestamp_millis,
            r.thread_id == thread_id,
    {
        LogRecord {
            level,
            message: String::from_str(message),
            target: String::from_str(target),
            timestamp_millis,
            thread_id,
            file: String::from_str(file),
            line,
        }
    }

    /// The single-line rendering of the record:
    /// `[timestamp] [LEVEL] [file:line] [target] message`.
    pub open spec fn format_spec(self) -> Seq<char> {
        "["@ + dec_digits(self.timestamp_millis as nat) + "] ["@ + self.level.label_spec() + "] ["@
            + self.file@ + ":"@ + dec_digits(self.line as nat) + "] ["@ + self.target@ + "] "@
            + self.message@
    }

    /// Renders the record as a single line, exactly as `format_spec`
    /// describes.
    pub fn format(&self) -> (r: String)
        ensures
            r@ == self.format_spec(),
    {
        String::from_str("[").concat(u64_to_string(self.timestamp_millis).as_str()).concat(
            "] [",
        ).concat(self.level.label()).concat("] [").concat(self.file.as_str()).concat(":").concat(
            u32_to_string(self.line).as_str(),
        ).concat("] [").concat(self.target.as_str()).concat("] ").concat(self.message.as_str())
    }

    /// The one-line JSON rendering of the record. String fields are
    /// inserted verbatim.
    pub open spec fn json_spec(self) -> Seq<char> {
        "{\"level\": \""@ + self.level.label_spec() + "\", \"message\": \""@ + self.message@
            + "\", \"target\": \""@ + self.target@ + "\", \"timestamp\": "@ + dec_digits(
            self.timestamp_millis as nat,
        ) + ", \"thread_id\": "@ + dec_digits(self.thread_id as nat) + ", \"file\": \""@
            + self.file@ + "\", \"line\": "@ + dec_digits(self.line as nat) + "}"@
    }

    /// Renders the record as one JSON object, exactly as `json_spec`
    /// describes.
    pub fn to_json(&self) -> (r: String)
        ensures
            r@ == self.json_spec(),
    {
        String::from_str("{\"level\": \"").concat(self.level.label()).concat(
            "\", \"message\": \"",
        ).concat(self.message.as_str()).concat("\", \"target\": \"").concat(
            self.target.as_str(),
        ).concat("\", \"timestamp\": ").concat(
            u64_to_string(self.timestamp_millis).as_str(),
        ).concat(", \"thread_id\": ").concat(u64_to_string(self.thread_id).as_str()).concat(
            ", \"file\": \"",
        ).concat(self.file.as_str()).concat("\", \"line\": ").concat(
            u32_to_string(self.line).as_str(),
        ).concat("}")
    }

    /// A copy of the record, field by field.
    pub fn duplicate(&self) -> (r: LogRecord)
        ensures
            record_like(r, *self),
    {
        LogRecord {
            level: self.level,
            message: self.message.clone(),
            target: self.target.clone(),
            timestamp_millis: self.timestamp_millis,
            thread_id: self.thread_id,
            file: self.file.clone(),
            line: self.line,
        }
    }
}

/// Console target: lines go to standard output, severe ones to standard
/// error.
#[derive(Debug, Clone)]
pub struct ConsoleTarget;

impl ConsoleTarget {
    /// Whether a record at `level` is routed to standard error rather than
    /// standard output.
    pub fn uses_stderr(level: LogLevel) -> (r: bool)
        ensures
            r == (level == LogLevel::Error || level == LogLevel::Fatal),
    {
        match level {
            LogLevel::Error => true,
            LogLevel::Fatal => true,
            _ => false,
        }
    }
}

/// Plain-text file target. The library only records the path; appending to
/// the file is the caller's concern.
#[derive(Debug, Clone)]
pub struct FileTarget {
    /// Path of the log file.
    pub path: String,
}

impl FileTarget {
    /// Creates a target for the file at `path`.
    pub fn new(path: String) -> (r: FileTarget)
        ensures
            r.path == path,
    {
        FileTarget { path }
    }
}

/// JSON-lines file target. The library only records the path; appending to
/// the file is the caller's concern.
#[derive(Debug, Clone)]
pub struct JsonFileTarget {
    /// Path of the log file.
    pub path: String,
}

impl JsonFileTarget {
    /// Creates a target for the file at `path`.
    pub fn new(path: String) -> (r: JsonFileTarget)
        ensures
            r.path == path,
    {
        JsonFileTarget { path }
    }
}

/// In-memory target keeping at most `max_records` records, oldest dropped
/// first.
#[derive(Debug)]
pub struct MemoryTarget {
    /// Stored records, oldest first.
    pub records: Vec<LogRecord>,
    /// Bound on the number of stored records.
    pub max_records: usize,
}

/// How one write changes a memory target: the record is appended, and when
/// the bound is exceeded the oldest record is dropped.
pub open spec fn mem_write_rel(pre: MemoryTarget, post: MemoryTarget, rec: LogRecord) -> bool {
    &&& post.bound_spec() == pre.bound_spec()
    &&& if pre.records_spec().len() < pre.bound_spec() {
        &&& post.records_spec().len() == pre.records_spec().len() + 1
        &&& forall|j: int|
            0 <= j < pre.records_spec().len() ==> post.records_spec()[j] == pre.records_spec()[j]
        &&& record_like(post.records_spec().last(), rec)
    } else if pre.records_spec().len() == 0 {
        post.records_spec().len() == 0
    } else {
        &&& post.records_spec().len() == pre.records_spec().len()
        &&& forall|j: int|
            0 <= j < pre.records_spec().len() - 1 ==> post.records_spec()[j]
                == pre.records_spec()[j + 1]
        &&& record_like(post.records_spec().last(), rec)
    }
}

impl MemoryTarget {
    /// The stored records, oldest first.
    pub open spec fn records_spec(self) -> Seq<LogRecord> {
        self.records@
    }

    /// The configured bound on the number of stored records.
    pub open spec fn bound_spec(self) -> nat {
        self.max_records as nat
    }

    /// Creates an empty target bounded at `max_records`.
    pub fn new(max_records: usize) -> (r: MemoryTarget)
        ensures
            r.records_spec().len() == 0,
            r.bound_spec() == max_records,
    {
        MemoryTarget { records: Vec::new(), max_records }
    }

    /// A copy of all stored records, oldest first.
    pub fn records(&self) -> (r: Vec<LogRecord>)
        ensures
            r@.len() == self.records_spec().len(),
            forall|i: int|
                0 <= i < r@.len() ==> record_like(r@[i], self.records_spec()[i]),
    {
        let mut out: Vec<LogRecord> = Vec::new();
        let n = self.records.len();
        let mut i: usize = 0;
        while i < n
            invariant
                i <= n,
                n == self.records_spec().len(),
                out@.len() == i,
                forall|j: int| 0 <= j < i ==> record_like(out@[j], self.records_spec()[j]),
            decreases n - i,
        {
            out.push(self.records[i].duplicate());
            i = i + 1;
        }
        out
    }

    /// Drops all stored records.
    pub fn clear(&mut self)
        ensures
            final(self).records_spec().len() == 0,
            final(self).bound_spec() == old(self).bound_spec(),
    {
        self.records.clear();
    }

    /// Stores a copy of `record`, dropping the oldest stored record when
    /// the bound is exceeded.
    pub fn write(&mut self, record: &LogRecord)
        ensures
            mem_write_rel(*old(self), *final(self), *record),
    {
        self.records.push(record.duplicate());
        if self.records.len() > self.max_records {
            self.records.remove(0);
        }
    }
}

/// One log sink: the explicit sum of the supported target kinds.
#[derive(Debug)]
pub enum LogSink {
    /// Console output.
    Console(ConsoleTarget),
    /// Plain-text file output.
    File(FileTarget),
    /// JSON-lines file output.
    JsonFile(JsonFileTarget),
    /// Bounded in-memory buffer.
    Memory(MemoryTarget),
}

/// One write that the caller should perform on behalf of a console or file
/// sink.
#[derive(Debug)]
pub enum LogOutput {
    /// Print `line`, to standard error when `use_stderr` holds.
    Console {
        /// The rendered record.
        line: String,
        /// Whether the line goes to standard error.
        use_stderr: bool,
    },
    /// Append `line` to the plain-text file at `path`.
    File {
        /// Path of the log file.
        path: String,
        /// The rendered record.
        line: String,
    },
    /// Append `line` to the JSON-lines file at `path`.
    JsonFile {
        /// Path of the log file.
        path: String,
        /// The record as one JSON object.
        line: String,
    },
}

/// Whether a sink produces an output for the caller to perform (memory
/// sinks store the record themselves).
pub open spec fn emits(s: LogSink) -> bool {
    !(s is Memory)
}

/// The number of emitting sinks in `s`.
pub open spec fn count_emitting(s: Seq<LogSink>) -> nat
    decreases s.len(),
{
    if s.len() == 0 {
        0
    } else {
        count_emitting(s.drop_last()) + if emits(s.last()) {
            1nat
        } else {
            0nat
        }
    }
}

/// How one logged record changes a sink: memory sinks store it, other
/// sinks are untouched.
pub open spec fn sink_after(pre: LogSink, post: LogSink, rec: LogRecord) -> bool {
    match pre {
        LogSink::Memory(m) => post matches LogSink::Memory(m2) && mem_write_rel(m, m2, rec),
        _ => post == pre,
    }
}

/// The output owed for one emitting sink and one record.
pub open spec fn output_for(pre: LogSink, out: LogOutput, rec: LogRecord) -> bool {
    match pre {
        LogSink::Console(_) => out matches LogOutput::Console { line, use_stderr } && line@
            == rec.format_spec() && use_stderr == (rec.level == LogLevel::Error || rec.level
            == LogLevel::Fatal),
        LogSink::File(f) => out matches LogOutput::File { path, line } && path@ == f.path@ && line@
            == rec.format_spec(),
        LogSink::JsonFile(f) => out matches LogOutput::JsonFile { path, line } && path@ == f.path@
            && line@ == rec.json_spec(),
        LogSink::Memory(_) => false,
    }
}

proof fn lemma_count_emitting_step(s: Seq<LogSink>, i: int)
    requires
        0 <= i < s.len(),
    ensures
        count_emitting(s.take(i + 1)) == count_emitting(s.take(i)) + if emits(s[i]) {
            1nat
        } else {
            0nat
        },
{
    assert(s.take(i + 1).drop_last() =~= s.take(i));
    assert(s.take(i + 1).last() == s[i]);
}

proof fn lemma_count_emitting_mono(s: Seq<LogSink>, j: int, i: int)
    requires
        0 <= j <= i <= s.len(),
    ensures
        count_emitting(s.take(j)) <= count_emitting(s.take(i)),
    decreases i - j,
{
    if j < i {
        lemma_count_emitting_mono(s, j, i - 1);
        lemma_count_emitting_step(s, i - 1);
    }
}

/// A logger: an ordered list of sinks and a minimum level.
#[derive(Debug)]
pub struct Logger {
    /// The ordered sinks.
    pub sinks: Vec<LogSink>,
    /// The minimum level a record must reach to be logged.
    pub min_level: LogLevel,
}

impl Logger {
    /// The ordered sinks.
    pub open spec fn sinks_spec(self) -> Seq<LogSink> {
        self.sinks@
    }

    /// The minimum level a record must reach to be logged.
    pub open spec fn min_level_spec(self) -> LogLevel {
        self.min_level
    }

    /// Creates a logger with no sinks.
    pub fn new(min_level: LogLevel) -> (r: Logger)
        ensures
            r.sinks_spec().len() == 0,
            r.min_level_spec() == min_level,
    {
        Logger { sinks: Vec::new(), min_level }
    }

    /// Appends a sink.
    pub fn add_target(&mut self, target: LogSink)
        ensures
            final(self).sinks_spec() == old(self).sinks_spec().push(target),
            final(self).min_level_spec() == old(self).min_level_spec(),
    {
        self.sinks.push(target);
    }

    /// Replaces the minimum level.
    pub fn set_min_level(&mut self, level: LogLevel)
        ensures
            final(self).min_level_spec() == level,
            final(self).sinks_spec() == old(self).sinks_spec(),
    {
        self.min_level = level;
    }

    /// Logs one record: records below the minimum level are dropped;
    /// otherwise every memory sink stores the record and one output is
    /// returned for every console or file sink, in sink order.
    pub fn log(&mut self, record: &LogRecord) -> (outs: Vec<LogOutput>)
        ensures
            record.level.severity_spec() < old(self).min_level_spec().severity_spec() ==> {
                &&& *final(self) == *old(self)
                &&& outs@.len() == 0
            },
            record.level.severity_spec() >= old(self).min_level_spec().severity_spec() ==> {
                &&& final(self).min_level_spec() == old(self).min_level_spec()
                &&& final(self).sinks_spec().len() == old(self).sinks_spec().len()
                &&& forall|i: int|
                    0 <= i < old(self).sinks_spec().len() ==> sink_after(
                        old(self).sinks_spec()[i],
                        final(self).sinks_spec()[i],
                        *record,
                    )
                &&& outs@.len() == count_emitting(old(self).sinks_spec())
                &&& forall|i: int|
                    0 <= i < old(self).sinks_spec().len() && emits(old(self).sinks_spec()[i])
                        ==> output_for(
                        old(self).sinks_spec()[i],
                        outs@[count_emitting(old(self).sinks_spec().take(i)) as int],
                        *record,
                    )
            },
    {
        if !record.level.passes(self.min_level) {
            return Vec::new();
        }
        let ghost orig = self.sinks@;
        let mut work: Vec<LogSink> = Vec::new();
        core::mem::swap(&mut self.sinks, &mut work);
        let mut outs: Vec<LogOutput> = Vec::new();
        let mut i: usize = 0;
        let n = work.len();
        while i < n
            invariant
                i <= n,
                n == orig.len(),
                work@ =~= orig.skip(i as int),
                self.sinks@.len() == i,
                self.min_level == old(self).min_level,
                forall|j: int| 0 <= j < i ==> sink_after(orig[j], self.sinks@[j], *record),
                outs@.len() == count_emitting(orig.take(i as int)),
                forall|j: int|
                    0 <= j < i && emits(orig[j]) ==> output_for(
                        orig[j],
                        outs@[count_emitting(orig.take(j)) as int],
                        *record,
                    ),
            decreases n - i,
        {
            proof {
                lemma_count_emitting_step(orig, i as int);
                assert forall|j: int| 0 <= j < i && emits(orig[j]) implies count_emitting(
                    orig.take(j),
                ) < count_emitting(orig.take(i as int)) by {
                    lemma_count_emitting_step(orig, j);
                    lemma_count_emitting_mono(orig, j + 1, i as int);
                }
            }
            let sink = work.remove(0);
            proof {
                assert(sink == orig[i as int]);
                assert(orig.skip(i as int).remove(0) =~= orig.skip(i as int + 1));
            }
            match sink {
                LogSink::Console(c) => {
                    outs.push(
                        LogOutput::Console {
                            line: record.format(),
                            use_stderr: ConsoleTarget::uses_stderr(record.level),
                        },
                    );
                    self.sinks.push(LogSink::Console(c));
                },
                LogSink::File(f) => {
                    outs.push(LogOutput::File { path: f.path.clone(), line: record.format() });
                    self.sinks.push(LogSink::File(f));
                },
                LogSink::JsonFile(f) => {
                    outs.push(LogOutput::JsonFile { path: f.path.clone(), line: record.to_json() });
                    self.sinks.push(LogSink::JsonFile(f));
                },
                LogSink::Memory(mut m) => {
                    m.write(record);
                    self.sinks.push(LogSink::Memory(m));
                },
            }
            i = i + 1;
        }
        proof {
            assert(orig.take(n as int) =~= orig);
        }
        outs
    }
}

/// Creates a logger with a console sink at the `Info` level.
pub fn init_default_logger() -> (r: Logger)
    ensures
        r.min_level_spec() == LogLevel::Info,
        r.sinks_spec().len() == 1,
        r.sinks_spec()[0] is Console,
{
    let mut logger = Logger::new(LogLevel::Info);
    logger.add_target(LogSink::Console(ConsoleTarget));
    logger
}

/// Creates a logger with a plain-text file sink at `path`.
pub fn init_file_logger(path: String, min_level: LogLevel) -> (r: Logger)
    ensures
        r.min_level_spec() == min_level,
        r.sinks_spec().len() == 1,
        r.sinks_spec()[0] matches LogSink::File(f) && f.path@ == path@,
{
    let mut logger = Logger::new(min_level);
    logger.add_target(LogSink::File(FileTarget::new(path)));
    logger
}

/// Creates a logger with a JSON-lines file sink at `path`.
pub fn init_json_file_logger(path: String, min_level: LogLevel) -> (r: Logger)
    ensures
        r.min_level_spec() == min_level,
        r.sinks_spec().len() == 1,
        r.sinks_spec()[0] matches LogSink::JsonFile(f) && f.path@ == path@,
{
    let mut logger = Logger::new(min_level);
    logger.add_target(LogSink::JsonFile(JsonFileTarget::new(path)));
    logger
}

/// Creates a logger with a bounded in-memory sink.
pub fn init_memory_logger(max_records: usize, min_level: LogLevel) -> (r: Logger)
    ensures
        r.min_level_spec() == min_level,
        r.sinks_spec().len() == 1,
        r.sinks_spec()[0] matches LogSink::Memory(m) && m.records_spec().len() == 0
            && m.bound_spec() == max_records,
{
    let mut logger = Logger::new(min_level);
    logger.add_target(LogSink::Memory(MemoryTarget::new(max_records)));
    logger
}

} // verus!
