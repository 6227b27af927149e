//! Structured logging: levels, entries, configuration, the level filter
//! and the text renderings. Writing the rendered lines to a console or a
//! file — and any JSON rendering — is the caller's business; what is
//! buffered and what a line says is decided and proved here.

use vstd::prelude::*;

verus! {

/// How severe a log message is.
#[derive(Clone, Copy, Debug, PartialEq, Eq, PartialOrd, Ord, Hash, Structural)]
pub enum LogLevel {
    Trace,
    Debug,
    Info,
    Warn,
    Error,
}

impl LogLevel {
    /// The numeric severity; higher is more severe.
    pub open spec fn spec_severity(self) -> nat {
        match self {
            LogLevel::Trace => 0,
            LogLevel::Debug => 1,
            LogLevel::Info => 2,
            LogLevel::Warn => 3,
            LogLevel::Error => 4,
        }
    }

    /// The numeric severity; higher is more severe.
    pub fn severity(&self) -> (r: u8)
        ensures
            r == self.spec_severity(),
    {
        match self {
            LogLevel::Trace => 0,
            LogLevel::Debug => 1,
            LogLevel::Info => 2,
            LogLevel::Warn => 3,
            LogLevel::Error => 4,
        }
    }

    /// The level's name as it appears in log lines.
    pub open spec fn spec_label(self) -> Seq<char> {
        match self {
            LogLevel::Trace => "TRACE"@,
            LogLevel::Debug => "DEBUG"@,
            LogLevel::Info => "INFO"@,
            LogLevel::Warn => "WARN"@,
            LogLevel::Error => "ERROR"@,
        }
    }

    /// The level's name as it appears in log lines.
    pub fn label(&self) -> (r: &'static str)
        ensures
            r@ == self.spec_label(),
    {
        match self {
            LogLevel::Trace => "TRACE",
            LogLevel::Debug => "DEBUG",
            LogLevel::Info => "INFO",
            LogLevel::Warn => "WARN",
            LogLevel::Error => "ERROR",
        }
    }
}

/// How a rendered log line is laid out.
#[derive(Clone, Debug)]
pub enum LogFormat {
    Json,
    Text,
    Compact,
}

/// Where rendered log lines go.
#[derive(Clone, Debug)]
pub enum LogOutput {
    Console,
    File(String),
    Both(String),
}

/// One buffered log record.
#[derive(Clone, Debug)]
pub struct LogEntry {
    pub timestamp: String,
    pub level: LogLevel,
    pub target: String,
    pub message: String,
    pub fields: Vec<(String, String)>,
}

/// The rendering of structured fields: one ` key=value` piece per field,
/// in order.
pub open spec fn fields_text(fs: Seq<(Seq<char>, Seq<char>)>) -> Seq<char>
    decreases fs.len(),
{
    if fs.len() == 0 {
        Seq::empty()
    } else {
        fields_text(fs.drop_last()) + " "@ + fs.last().0 + "="@ + fs.last().1
    }
}

impl LogEntry {
    /// What the full text rendering of the entry reads.
    pub open spec fn spec_text(self) -> Seq<char> {
        "["@ + self.timestamp@ + "] "@ + self.level.spec_label() + " "@ + self.target@ + ": "@
            + self.message@ + fields_text(self.fields.deep_view())
    }

    /// What the compact rendering reads: no brackets and no fields.
    pub open spec fn spec_compact(self) -> Seq<char> {
        self.timestamp@ + " "@ + self.level.spec_label() + " "@ + self.target@ + ": "@
            + self.message@
    }

    /// Renders the entry in full: bracketed timestamp, level, target,
    /// message, then each structured field as ` key=value`.
    pub fn format_text(&self) -> (r: String)
        ensures
            r@ == self.spec_text(),
    {
        let mut s = "[".to_owned();
        s.append(self.timestamp.as_str());
        s.append("] ");
        s.append(self.level.label());
        s.append(" ");
        s.append(self.target.as_str());
        s.append(": ");
        s.append(self.message.as_str());
        let n = self.fields.len();
        let mut i: usize = 0;
        while i < n
            invariant
                0 <= i <= n,
                n == self.fields@.len(),
                s@ == "["@ + self.timestamp@ + "] "@ + self.level.spec_label() + " "@
                    + self.target@ + ": "@ + self.message@ + fields_text(
                    self.fields.deep_view().subrange(0, i as int),
                ),
            decreases n - i,
        {
            proof {
                assert(self.fields.deep_view().subrange(0, i + 1).drop_last()
                    =~= self.fields.deep_view().subrange(0, i as int));
            }
            s.append(" ");
            s.append(self.fields[i].0.as_str());
            s.append("=");
            s.append(self.fields[i].1.as_str());
            i = i + 1;
        }
        proof {
            assert(self.fields.deep_view().subrange(0, n as int) =~= self.fields.deep_view());
        }
        s
    }

    /// Renders the entry compactly: timestamp, level, target and message
    /// only.
    pub fn format_compact(&self) -> (r: String)
        ensures
            r@ == self.spec_compact(),
    {
        let mut s = self.timestamp.clone();
        s.append(" ");
        s.append(self.level.label());
        s.append(" ");
        s.append(self.target.as_str());
        s.append(": ");
        s.append(self.message.as_str());
        s
    }
}

/// How the logger behaves.
#[derive(Clone, Debug)]
pub struct LogConfig {
    pub level: LogLevel,
    pub format: LogFormat,
    pub output: LogOutput,
    pub max_file_size: u64,
    pub max_files: u32,
    pub buffer_size: usize,
}

impl Default for LogConfig {
    /// Informational text logging to the console, rotating at ten
    /// megabytes over five files, flushing every thousand entries.
    fn default() -> (r: LogConfig)
        ensures
            r.level == LogLevel::Info,
            r.format is Text,
            r.output is Console,
            r.max_file_size == 10485760,
            r.max_files == 5,
            r.buffer_size == 1000,
    {
        LogConfig {
            level: LogLevel::Info,
            format: LogFormat::Text,
            output: LogOutput::Console,
            max_file_size: 10485760,
            max_files: 5,
            buffer_size: 1000,
        }
    }
}

/// The buffering half of a logger: entries below the configured level
/// are dropped, the rest wait in order until the caller drains them.
pub struct LogBuffer {
    config: LogConfig,
    buffer: Vec<LogEntry>,
}

impl LogBuffer {
    /// An empty buffer behaving as `config` says.
    pub fn new(config: LogConfig) -> (r: LogBuffer)
        ensures
            r.entries() == Seq::<LogEntry>::empty(),
            r.threshold() == config.level,
            r.capacity() == config.buffer_size,
    {
        LogBuffer { config, buffer: Vec::new() }
    }

    /// The buffered entries, oldest first.
    pub closed spec fn entries(self) -> Seq<LogEntry> {
        self.buffer@
    }

    /// The least level that is kept.
    pub closed spec fn threshold(self) -> LogLevel {
        self.config.level
    }

    /// How many entries the buffer holds before it wants draining.
    pub closed spec fn capacity(self) -> usize {
        self.config.buffer_size
    }

    /// Whether a message at `level` would be kept.
    pub fn passes(&self, level: LogLevel) -> (r: bool)
        ensures
            r == (level.spec_severity() >= self.threshold().spec_severity()),
    {
        level.severity() >= self.config.level.severity()
    }

    /// Buffers one record, unless its level falls below the configured
    /// one — then nothing changes.
    pub fn log(&mut self, entry: LogEntry) -> (r: bool)
        ensures
            final(self).threshold() == old(self).threshold(),
            final(self).capacity() == old(self).capacity(),
            r == (entry.level.spec_severity() >= old(self).threshold().spec_severity()),
            r ==> final(self).entries() == old(self).entries().push(entry),
            !r ==> final(self).entries() == old(self).entries(),
    {
        if self.passes(entry.level) {
            self.buffer.push(entry);
            true
        } else {
            false
        }
    }

    /// Whether the buffer has reached the size at which it wants to be
    /// drained.
    pub fn needs_flush(&self) -> (r: bool)
        ensures
            r == (self.entries().len() >= self.capacity()),
    {
        self.buffer.len() >= self.config.buffer_size
    }

    /// Hands every buffered entry out, oldest first, leaving the buffer
    /// empty.
    pub fn drain(&mut self) -> (r: Vec<LogEntry>)
        ensures
            r@ == old(self).entries(),
            final(self).entries() == Seq::<LogEntry>::empty(),
            final(self).threshold() == old(self).threshold(),
            final(self).capacity() == old(self).capacity(),
    {
        let mut out: Vec<LogEntry> = Vec::new();
        core::mem::swap(&mut out, &mut self.buffer);
        out
    }
}

} // verus!
