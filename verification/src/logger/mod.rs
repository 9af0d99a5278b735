//! Remote logging: levels, batches and the request that carries them.

use vstd::prelude::*;
use vstd::string::StringExecFns;

use crate::codec::wire::{encodable_items, string_list_field, struct_field};
use crate::codec::Buffer;
use crate::consts::TARS_ONEWAY;
use crate::error::{CodecError, TarsError};
use crate::protocol::logf::{
    encode_log_buffer, log_info_body, log_info_encodable, log_logger_by_info, LogInfo,
    LogInfoView,
};
use crate::protocol::packet::RequestPacket;
use crate::util::clock::now_millis;
use crate::util::text::{decimal, texts, u64_to_string};

verus! {

/// Configuration of the remote log.
pub struct RemoteLogConfig {
    /// Log queue size
    pub queue_size: usize,
    /// Most logs in one batch
    pub max_batch_size: usize,
    /// Flush interval in milliseconds
    pub flush_interval_ms: u64,
    /// Log server address
    pub server_addr: String,
}

impl Default for RemoteLogConfig {
    /// A queue of 500000 logs, batches of 2000, a flush every second, no
    /// server.
    fn default() -> (c: RemoteLogConfig)
        ensures
            c.queue_size == 500000,
            c.max_batch_size == 2000,
            c.flush_interval_ms == 1000,
            c.server_addr@.len() == 0,
    {
        RemoteLogConfig {
            queue_size: 500000,
            max_batch_size: 2000,
            flush_interval_ms: 1000,
            server_addr: String::new(),
        }
    }
}

/// Log level.
#[derive(Debug, Clone, Copy, PartialEq, Eq, Structural, PartialOrd, Ord)]
pub enum LogLevel {
    Trace,
    Debug,
    Info,
    Warn,
    Error,
}

impl LogLevel {
    /// The name of a level.
    pub open spec fn name(self) -> Seq<char> {
        match self {
            LogLevel::Trace => "TRACE"@,
            LogLevel::Debug => "DEBUG"@,
            LogLevel::Info => "INFO"@,
            LogLevel::Warn => "WARN"@,
            LogLevel::Error => "ERROR"@,
        }
    }

    /// The rank of a level: 0 for trace up to 4 for error.
    pub open spec fn rank(self) -> int {
        match self {
            LogLevel::Trace => 0,
            LogLevel::Debug => 1,
            LogLevel::Info => 2,
            LogLevel::Warn => 3,
            LogLevel::Error => 4,
        }
    }

    /// The name of the level in capital letters.
    pub fn as_str(&self) -> (r: &'static str)
        ensures
            r@ == self.name(),
    {
        match self {
            LogLevel::Trace => "TRACE",
            LogLevel::Debug => "DEBUG",
            LogLevel::Info => "INFO",
            LogLevel::Warn => "WARN",
            LogLevel::Error => "ERROR",
        }
    }

    /// The rank of the level.
    pub fn severity(&self) -> (r: u8)
        ensures
            r == self.rank(),
    {
        match self {
            LogLevel::Trace => 0,
            LogLevel::Debug => 1,
            LogLevel::Info => 2,
            LogLevel::Warn => 3,
            LogLevel::Error => 4,
        }
    }
}

/// Writes logs to a remote server: knows which log they belong to.
pub struct RemoteTimeWriter {
    log_info: LogInfo,
    config: RemoteLogConfig,
}

impl RemoteTimeWriter {
    /// The description of the log as mathematics.
    pub closed spec fn description(&self) -> LogInfoView {
        self.log_info@
    }

    /// The configuration as mathematics.
    pub closed spec fn settings(&self) -> RemoteLogConfig {
        self.config
    }

    /// A writer with an empty description.
    pub fn new(config: RemoteLogConfig) -> (w: RemoteTimeWriter)
        ensures
            w.settings() == config,
            w.description().appname.len() == 0,
            w.description().servername.len() == 0,
            w.description().filename.len() == 0,
    {
        RemoteTimeWriter {
            log_info: LogInfo {
                appname: String::new(),
                servername: String::new(),
                filename: String::new(),
                format: String::new(),
                setdivision: String::new(),
                has_suffix: false,
                has_app_prefix: false,
                has_square_bracket: false,
                concat_str: String::new(),
                separator: String::new(),
                log_type: String::new(),
            },
            config,
        }
    }

    /// Sets which log the writer writes to: daily files with suffix and
    /// application prefix, "_" between the parts of the name and "|" between
    /// the items of a line.
    pub fn init_server_info(&mut self, app: &str, server: &str, filename: &str, set_division: &str)
        ensures
            final(self).settings() == old(self).settings(),
            final(self).description() == (LogInfoView {
                appname: app@,
                servername: server@,
                filename: filename@,
                format: "%Y%m%d"@,
                setdivision: set_division@,
                has_suffix: true,
                has_app_prefix: true,
                has_square_bracket: false,
                concat_str: "_"@,
                separator: "|"@,
                log_type: Seq::empty(),
            }),
    {
        let mut info = LogInfo::new(app, server, filename);
        info.setdivision = set_division.to_owned();
        self.log_info = info;
    }

    /// The description of the log.
    pub fn log_info(&self) -> (info: &LogInfo)
        ensures
            info@ == self.description(),
    {
        &self.log_info
    }

    /// The address of the log server.
    pub fn server_addr(&self) -> (a: &str)
        ensures
            a@ == self.settings().server_addr@,
    {
        self.config.server_addr.as_str()
    }
}

/// Gathers logs into batches.
pub struct LogBatcher {
    buffer: Vec<String>,
    max_batch_size: usize,
}

impl LogBatcher {
    /// The logs gathered and not yet handed out.
    pub closed spec fn held(&self) -> Seq<String> {
        self.buffer@
    }

    /// The size at which a batch leaves.
    pub closed spec fn batch_size(&self) -> usize {
        self.max_batch_size
    }

    /// A batcher that holds nothing.
    pub fn new(max_batch_size: usize) -> (b: LogBatcher)
        ensures
            b.held().len() == 0,
            b.batch_size() == max_batch_size,
    {
        LogBatcher { buffer: Vec::new(), max_batch_size }
    }

    /// Takes everything out.
    fn drain(&mut self) -> (batch: Vec<String>)
        ensures
            batch@ == old(self).held(),
            final(self).held().len() == 0,
            final(self).batch_size() == old(self).batch_size(),
    {
        let mut batch: Vec<String> = Vec::new();
        std::mem::swap(&mut batch, &mut self.buffer);
        batch
    }

    /// Takes a log that has arrived. When the batch is full it leaves: it
    /// is handed out for sending where there is a server, and dropped where
    /// there is none.
    pub fn push(&mut self, log: String, has_server: bool) -> (batch: Option<Vec<String>>)
        ensures
            final(self).batch_size() == old(self).batch_size(),
            old(self).held().len() + 1 < old(self).batch_size() ==> batch is None
                && final(self).held() == old(self).held().push(log),
            old(self).held().len() + 1 >= old(self).batch_size() ==> final(self).held().len() == 0
                && (has_server ==> batch is Some && batch->0@ == old(self).held().push(log)) && (
            !has_server ==> batch is None),
    {
        self.buffer.push(log);
        if self.buffer.len() >= self.max_batch_size {
            let batch = self.drain();
            if has_server {
                return Some(batch);
            }
        }
        None
    }

    /// Acts on the flush timer: what is held leaves, for sending where
    /// there is a server, dropped where there is none. Nothing is handed out
    /// where nothing is held.
    pub fn tick(&mut self, has_server: bool) -> (batch: Option<Vec<String>>)
        ensures
            final(self).batch_size() == old(self).batch_size(),
            final(self).held().len() == 0,
            old(self).held().len() > 0 && has_server ==> batch is Some
                && batch->0@ == old(self).held(),
            !(old(self).held().len() > 0 && has_server) ==> batch is None,
    {
        if self.buffer.len() > 0 {
            let batch = self.drain();
            if has_server {
                return Some(batch);
            }
        }
        None
    }

    /// Acts on the end of the log queue: what is held leaves for sending
    /// where there is a server; without one it stays.
    pub fn finish(&mut self, has_server: bool) -> (batch: Option<Vec<String>>)
        ensures
            final(self).batch_size() == old(self).batch_size(),
            old(self).held().len() > 0 && has_server ==> batch is Some
                && batch->0@ == old(self).held() && final(self).held().len() == 0,
            !(old(self).held().len() > 0 && has_server) ==> batch is None && final(self).held()
                == old(self).held(),
    {
        if self.buffer.len() > 0 && has_server {
            return Some(self.drain());
        }
        None
    }
}

/// The payload of a log call: the description as a struct at tag 0, the
/// lines as a list of strings at tag 1.
pub open spec fn log_payload(info: LogInfoView, lines: Seq<Seq<char>>) -> Seq<u8> {
    struct_field(log_info_body(info), 0) + string_list_field(lines, 1)
}

/// Builds the request that carries a batch of logs: a oneway call of
/// "loggerbyInfo" at "tars.tarslog.LogObj" with a timeout of three seconds.
/// A text that does not fit its field is refused.
pub fn build_log_request(log_info: &LogInfo, logs: &[String]) -> (r: Result<RequestPacket, TarsError>)
    ensures
        log_info_encodable(log_info@) && encodable_items(texts(logs@)) ==> r is Ok
            && r->Ok_0.s_buffer@ == log_payload(log_info@, texts(logs@))
            && r->Ok_0.s_servant_name@ == "tars.tarslog.LogObj"@ && r->Ok_0.s_func_name@
            == "loggerbyInfo"@ && r->Ok_0.i_timeout == 3000 && r->Ok_0.c_packet_type == 1
            && r->Ok_0.i_version == 1 && r->Ok_0.i_request_id == 0 && r->Ok_0.i_message_type == 0
            && r->Ok_0.context@.len() == 0 && r->Ok_0.status@.len() == 0,
        !(log_info_encodable(log_info@) && encodable_items(texts(logs@))) ==> r == Err::<
            RequestPacket,
            TarsError,
        >(TarsError::Codec(CodecError::LengthOverflow)),
{
    let mut body_buf = Buffer::new();
    let _ = body_buf.write_struct_begin(0);
    match log_info.encode(&mut body_buf) {
        Ok(()) => {},
        Err(e) => {
            return Err(e);
        },
    }
    let _ = body_buf.write_struct_end();
    assert(body_buf@ =~= struct_field(log_info_body(log_info@), 0));
    match encode_log_buffer(&mut body_buf, logs, 1) {
        Ok(()) => {},
        Err(e) => {
            return Err(e);
        },
    }
    let mut req = RequestPacket::new();
    req.s_servant_name = "tars.tarslog.LogObj".to_owned();
    req.s_func_name = log_logger_by_info().to_owned();
    req.s_buffer = body_buf.to_bytes();
    req.i_timeout = 3000;
    req.c_packet_type = TARS_ONEWAY;
    Ok(req)
}

/// The pattern of the time in a line: date, time and milliseconds.
pub fn timestamp_format() -> (s: &'static str)
    ensures
        s@ == "%Y-%m-%d %H:%M:%S%.3f"@,
{
    "%Y-%m-%d %H:%M:%S%.3f"
}

/// The last millisecond of the year 9999: up to it a time is written as a
/// date with a year of four digits.
pub const LAST_DATED_MILLIS: i64 = 253402300799999;

/// `chrono::DateTime::from_timestamp_millis`, `DateTime::with_timezone` for
/// `chrono::Local`, and `DateTime::format`: the local date and time of the
/// given milliseconds since 1970, written after the pattern; nothing where
/// `chrono` has no date for the number. The text depends on the time zone of
/// the machine; nothing is known of it. Only times from 1970 to the end of
/// the year 9999 and only the pattern of `timestamp_format` are admitted:
/// `chrono` gives up on a pattern that it cannot read.
#[verifier::external_body]
fn local_time_text(millis: i64, pattern: &str) -> Option<String>
    requires
        0 <= millis <= LAST_DATED_MILLIS,
        pattern@ == "%Y-%m-%d %H:%M:%S%.3f"@,
{
    match chrono::DateTime::from_timestamp_millis(millis) {
        Some(t) => Some(t.with_timezone(&chrono::Local).format(pattern).to_string()),
        None => None,
    }
}

/// The time in a line for the milliseconds since 1970 that the clock gave:
/// the local date and time; the number itself, in decimal digits, for a
/// time that has no date.
pub fn timestamp_at(millis: i64) -> (stamp: String)
    ensures
        !(0 <= millis <= LAST_DATED_MILLIS) ==> stamp@ == decimal(
            (if millis < 0 {
                0
            } else {
                millis as int
            }) as nat,
        ),
{
    if 0 <= millis && millis <= LAST_DATED_MILLIS {
        match local_time_text(millis, timestamp_format()) {
            Some(stamp) => stamp,
            None => u64_to_string(millis as u64),
        }
    } else if millis < 0 {
        u64_to_string(0)
    } else {
        u64_to_string(millis as u64)
    }
}

/// The line for a message: "time|LEVEL|name|message".
pub open spec fn line_text(
    timestamp: Seq<char>,
    level: LogLevel,
    name: Seq<char>,
    msg: Seq<char>,
) -> Seq<char> {
    timestamp + "|"@ + level.name() + "|"@ + name + "|"@ + msg
}

/// A logger with a name and a least level.
pub struct TarsLogger {
    name: String,
    level: LogLevel,
}

impl TarsLogger {
    /// The name as mathematics.
    pub closed spec fn label(&self) -> Seq<char> {
        self.name@
    }

    /// The least level as mathematics.
    pub closed spec fn threshold(&self) -> LogLevel {
        self.level
    }

    /// A logger of the name that logs from level info on.
    pub fn new(name: &str) -> (l: TarsLogger)
        ensures
            l.label() == name@,
            l.threshold() == LogLevel::Info,
    {
        TarsLogger { name: name.to_owned(), level: LogLevel::Info }
    }

    /// Sets the least level.
    pub fn set_level(&mut self, level: LogLevel)
        ensures
            final(self).threshold() == level,
            final(self).label() == old(self).label(),
    {
        self.level = level;
    }

    /// Whether a message of the level is logged: not below the least level.
    pub fn enabled(&self, level: LogLevel) -> (r: bool)
        ensures
            r == (level.rank() >= self.threshold().rank()),
    {
        level.severity() >= self.level.severity()
    }

    /// The line for a message: "time|LEVEL|name|message"; nothing for a
    /// level that is not logged.
    pub fn log(&self, level: LogLevel, timestamp: &str, msg: &str) -> (line: Option<String>)
        ensures
            level.rank() < self.threshold().rank() ==> line is None,
            level.rank() >= self.threshold().rank() ==> line is Some && line->0@ == line_text(
                timestamp@,
                level,
                self.label(),
                msg@,
            ),
    {
        if !self.enabled(level) {
            return None;
        }
        let mut line = timestamp.to_owned();
        line.append("|");
        line.append(level.as_str());
        line.append("|");
        line.append(self.name.as_str());
        line.append("|");
        line.append(msg);
        Some(line)
    }

    /// The line for a message with the local time of now; nothing for a
    /// level that is not logged.
    pub fn log_now(&self, level: LogLevel, msg: &str) -> (line: Option<String>)
        ensures
            level.rank() < self.threshold().rank() ==> line is None,
            level.rank() >= self.threshold().rank() ==> line is Some && exists|stamp: Seq<char>|
                line->0@ == #[trigger] line_text(stamp, level, self.label(), msg@),
    {
        if !self.enabled(level) {
            return None;
        }
        let stamp = timestamp_at(now_millis());
        let line = self.log(level, stamp.as_str(), msg);
        assert(line->0@ == line_text(stamp@, level, self.label(), msg@));
        line
    }

    /// The line for a message of level trace.
    pub fn trace(&self, msg: &str) -> (line: Option<String>)
        ensures
            LogLevel::Trace.rank() < self.threshold().rank() ==> line is None,
            LogLevel::Trace.rank() >= self.threshold().rank() ==> line is Some && exists|
                stamp: Seq<char>,
            | line->0@ == #[trigger] line_text(stamp, LogLevel::Trace, self.label(), msg@),
    {
        self.log_now(LogLevel::Trace, msg)
    }

    /// The line for a message of level debug.
    pub fn debug(&self, msg: &str) -> (line: Option<String>)
        ensures
            LogLevel::Debug.rank() < self.threshold().rank() ==> line is None,
            LogLevel::Debug.rank() >= self.threshold().rank() ==> line is Some && exists|
                stamp: Seq<char>,
            | line->0@ == #[trigger] line_text(stamp, LogLevel::Debug, self.label(), msg@),
    {
        self.log_now(LogLevel::Debug, msg)
    }

    /// The line for a message of level info.
    pub fn info(&self, msg: &str) -> (line: Option<String>)
        ensures
            LogLevel::Info.rank() < self.threshold().rank() ==> line is None,
            LogLevel::Info.rank() >= self.threshold().rank() ==> line is Some && exists|
                stamp: Seq<char>,
            | line->0@ == #[trigger] line_text(stamp, LogLevel::Info, self.label(), msg@),
    {
        self.log_now(LogLevel::Info, msg)
    }

    /// The line for a message of level warn.
    pub fn warn(&self, msg: &str) -> (line: Option<String>)
        ensures
            LogLevel::Warn.rank() < self.threshold().rank() ==> line is None,
            LogLevel::Warn.rank() >= self.threshold().rank() ==> line is Some && exists|
                stamp: Seq<char>,
            | line->0@ == #[trigger] line_text(stamp, LogLevel::Warn, self.label(), msg@),
    {
        self.log_now(LogLevel::Warn, msg)
    }

    /// The line for a message of level error.
    pub fn error(&self, msg: &str) -> (line: Option<String>)
        ensures
            LogLevel::Error.rank() < self.threshold().rank() ==> line is None,
            LogLevel::Error.rank() >= self.threshold().rank() ==> line is Some && exists|
                stamp: Seq<char>,
            | line->0@ == #[trigger] line_text(stamp, LogLevel::Error, self.label(), msg@),
    {
        self.log_now(LogLevel::Error, msg)
    }
}

} // verus!
