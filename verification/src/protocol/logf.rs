//! Types of the remote logging call.

use vstd::prelude::*;

use super::lenient::{bool_or, read_bool_or, read_string_or, string_or};
use crate::codec::decode::spec_read_string;
use crate::codec::wire::{
    encodable_items, encodable_text, int_field, string_field, string_list_field,
};
use crate::codec::{Buffer, Reader};
use crate::error::{CodecError, TarsError};
use crate::util::text::texts;

verus! {

/// Where and how a remote log is kept.
#[derive(Debug)]
pub struct LogInfo {
    /// Application name
    pub appname: String,
    /// Server name
    pub servername: String,
    /// Log file name
    pub filename: String,
    /// Time format, such as "%Y%m%d"
    pub format: String,
    /// SET division
    pub setdivision: String,
    /// Whether the file name ends in .log
    pub has_suffix: bool,
    /// Whether the file name starts with the application name
    pub has_app_prefix: bool,
    /// Whether the time stands in square brackets
    pub has_square_bracket: bool,
    /// What joins the parts of the file name
    pub concat_str: String,
    /// What separates the items of a line
    pub separator: String,
    /// Log type (day, hour, minute)
    pub log_type: String,
}

/// A log description as mathematics.
pub struct LogInfoView {
    pub appname: Seq<char>,
    pub servername: Seq<char>,
    pub filename: Seq<char>,
    pub format: Seq<char>,
    pub setdivision: Seq<char>,
    pub has_suffix: bool,
    pub has_app_prefix: bool,
    pub has_square_bracket: bool,
    pub concat_str: Seq<char>,
    pub separator: Seq<char>,
    pub log_type: Seq<char>,
}

impl View for LogInfo {
    type V = LogInfoView;

    open spec fn view(&self) -> LogInfoView {
        LogInfoView {
            appname: self.appname@,
            servername: self.servername@,
            filename: self.filename@,
            format: self.format@,
            setdivision: self.setdivision@,
            has_suffix: self.has_suffix,
            has_app_prefix: self.has_app_prefix,
            has_square_bracket: self.has_square_bracket,
            concat_str: self.concat_str@,
            separator: self.separator@,
            log_type: self.log_type@,
        }
    }
}

/// The integer that a bool is written as.
pub open spec fn bool_number(b: bool) -> int {
    if b {
        1
    } else {
        0
    }
}

/// The fields of a log description by tag.
pub open spec fn log_info_body(v: LogInfoView) -> Seq<u8> {
    string_field(v.appname, 0) + string_field(v.servername, 1) + string_field(v.filename, 2)
        + string_field(v.format, 3) + string_field(v.setdivision, 4) + int_field(
        bool_number(v.has_suffix),
        5,
    ) + int_field(bool_number(v.has_app_prefix), 6) + int_field(
        bool_number(v.has_square_bracket),
        7,
    ) + string_field(v.concat_str, 8) + string_field(v.separator, 9) + string_field(
        v.log_type,
        10,
    )
}

/// Whether every text of a log description fits a string field.
pub open spec fn log_info_encodable(v: LogInfoView) -> bool {
    &&& encodable_text(v.appname)
    &&& encodable_text(v.servername)
    &&& encodable_text(v.filename)
    &&& encodable_text(v.format)
    &&& encodable_text(v.setdivision)
    &&& encodable_text(v.concat_str)
    &&& encodable_text(v.separator)
    &&& encodable_text(v.log_type)
}

/// The optional fields of a log description, tags 4 to 10, read from `pos`
/// on. A field that cannot be read takes its default: the flags for suffix
/// and application prefix true, "_" and "|" for the two separators, the
/// rest false or empty.
pub open spec fn log_info_tail(
    data: Seq<u8>,
    pos: int,
    appname: Seq<char>,
    servername: Seq<char>,
    filename: Seq<char>,
    format: Seq<char>,
) -> (LogInfoView, int) {
    let (setdivision, at4) = string_or(data, pos, 4, Seq::empty());
    let (has_suffix, at5) = bool_or(data, at4, 5, true);
    let (has_app_prefix, at6) = bool_or(data, at5, 6, true);
    let (has_square_bracket, at7) = bool_or(data, at6, 7, false);
    let (concat_str, at8) = string_or(data, at7, 8, "_"@);
    let (separator, at9) = string_or(data, at8, 9, "|"@);
    let (log_type, at10) = string_or(data, at9, 10, Seq::empty());
    (
        LogInfoView {
            appname,
            servername,
            filename,
            format,
            setdivision,
            has_suffix,
            has_app_prefix,
            has_square_bracket,
            concat_str,
            separator,
            log_type,
        },
        at10,
    )
}

/// A log description read from `pos` on: the first four texts are
/// required, the rest is optional.
pub open spec fn spec_decode_log_info(data: Seq<u8>, pos: int) -> Result<
    (LogInfoView, int),
    CodecError,
> {
    match spec_read_string(data, pos, 0, true) {
        Err(e) => Err(e),
        Ok((appname, at0)) => match spec_read_string(data, at0, 1, true) {
            Err(e) => Err(e),
            Ok((servername, at1)) => match spec_read_string(data, at1, 2, true) {
                Err(e) => Err(e),
                Ok((filename, at2)) => match spec_read_string(data, at2, 3, true) {
                    Err(e) => Err(e),
                    Ok((format, at3)) => Ok(
                        log_info_tail(data, at3, appname, servername, filename, format),
                    ),
                },
            },
        },
    }
}

/// Appends a text field behind what was written since `start`. A text
/// that does not fit is refused and nothing is written.
fn put_text(
    buf: &mut Buffer,
    text: &str,
    tag: u8,
    Ghost(start): Ghost<Seq<u8>>,
    Ghost(done): Ghost<Seq<u8>>,
) -> (r: Result<(), TarsError>)
    requires
        old(buf)@ == start + done,
    ensures
        encodable_text(text@) ==> r is Ok && final(buf)@ == start + (done + string_field(
            text@,
            tag,
        )),
        !encodable_text(text@) ==> r == Err::<(), TarsError>(
            TarsError::Codec(CodecError::LengthOverflow),
        ) && final(buf)@ == old(buf)@,
{
    let r = buf.write_string(text, tag);
    assert(encodable_text(text@) ==> buf@ =~= start + (done + string_field(text@, tag)));
    r
}

/// Appends a flag field behind what was written since `start`.
fn put_flag(
    buf: &mut Buffer,
    flag: bool,
    tag: u8,
    Ghost(start): Ghost<Seq<u8>>,
    Ghost(done): Ghost<Seq<u8>>,
)
    requires
        old(buf)@ == start + done,
    ensures
        final(buf)@ == start + (done + int_field(bool_number(flag), tag)),
{
    let _ = buf.write_bool(flag, tag);
    assert(buf@ =~= start + (done + int_field(bool_number(flag), tag)));
}

impl LogInfo {
    /// A log description for daily files "app_server_file.log" with "|"
    /// between the items.
    pub fn new(app: &str, server: &str, filename: &str) -> (info: LogInfo)
        ensures
            info@ == (LogInfoView {
                appname: app@,
                servername: server@,
                filename: filename@,
                format: "%Y%m%d"@,
                setdivision: Seq::empty(),
                has_suffix: true,
                has_app_prefix: true,
                has_square_bracket: false,
                concat_str: "_"@,
                separator: "|"@,
                log_type: Seq::empty(),
            }),
    {
        LogInfo {
            appname: app.to_owned(),
            servername: server.to_owned(),
            filename: filename.to_owned(),
            format: "%Y%m%d".to_owned(),
            setdivision: String::new(),
            has_suffix: true,
            has_app_prefix: true,
            has_square_bracket: false,
            concat_str: "_".to_owned(),
            separator: "|".to_owned(),
            log_type: String::new(),
        }
    }

    /// Appends the fields by tag. What was written before a text that does
    /// not fit stays.
    pub fn encode(&self, buf: &mut Buffer) -> (r: Result<(), TarsError>)
        ensures
            log_info_encodable(self@) ==> r is Ok && final(buf)@ == old(buf)@ + log_info_body(
                self@,
            ),
            !log_info_encodable(self@) ==> r == Err::<(), TarsError>(
                TarsError::Codec(CodecError::LengthOverflow),
            ),
            old(buf)@.is_prefix_of(final(buf)@),
    {
        let ghost start = buf@;
        let ghost v = self@;
        let ghost a = Seq::<u8>::empty();
        assert(buf@ =~= start + a);
        match put_text(buf, self.appname.as_str(), 0, Ghost(start), Ghost(a)) {
            Ok(()) => {},
            Err(e) => {
                return Err(e);
            },
        }
        let ghost a0 = a + string_field(v.appname, 0);
        match put_text(buf, self.servername.as_str(), 1, Ghost(start), Ghost(a0)) {
            Ok(()) => {},
            Err(e) => {
                return Err(e);
            },
        }
        let ghost a1 = a0 + string_field(v.servername, 1);
        match put_text(buf, self.filename.as_str(), 2, Ghost(start), Ghost(a1)) {
            Ok(()) => {},
            Err(e) => {
                return Err(e);
            },
        }
        let ghost a2 = a1 + string_field(v.filename, 2);
        match put_text(buf, self.format.as_str(), 3, Ghost(start), Ghost(a2)) {
            Ok(()) => {},
            Err(e) => {
                return Err(e);
            },
        }
        let ghost a3 = a2 + string_field(v.format, 3);
        match put_text(buf, self.setdivision.as_str(), 4, Ghost(start), Ghost(a3)) {
            Ok(()) => {},
            Err(e) => {
                return Err(e);
            },
        }
        let ghost a4 = a3 + string_field(v.setdivision, 4);
        put_flag(buf, self.has_suffix, 5, Ghost(start), Ghost(a4));
        let ghost a5 = a4 + int_field(bool_number(v.has_suffix), 5);
        put_flag(buf, self.has_app_prefix, 6, Ghost(start), Ghost(a5));
        let ghost a6 = a5 + int_field(bool_number(v.has_app_prefix), 6);
        put_flag(buf, self.has_square_bracket, 7, Ghost(start), Ghost(a6));
        let ghost a7 = a6 + int_field(bool_number(v.has_square_bracket), 7);
        match put_text(buf, self.concat_str.as_str(), 8, Ghost(start), Ghost(a7)) {
            Ok(()) => {},
            Err(e) => {
                return Err(e);
            },
        }
        let ghost a8 = a7 + string_field(v.concat_str, 8);
        match put_text(buf, self.separator.as_str(), 9, Ghost(start), Ghost(a8)) {
            Ok(()) => {},
            Err(e) => {
                return Err(e);
            },
        }
        let ghost a9 = a8 + string_field(v.separator, 9);
        match put_text(buf, self.log_type.as_str(), 10, Ghost(start), Ghost(a9)) {
            Ok(()) => {},
            Err(e) => {
                return Err(e);
            },
        }
        let ghost a10 = a9 + string_field(v.log_type, 10);
        assert(a0 =~= string_field(v.appname, 0));
        assert(a10 == log_info_body(v));
        Ok(())
    }

    /// Reads the fields by tag: the first four texts are required; each of
    /// the others takes its default where it cannot be read.
    pub fn decode(reader: &mut Reader) -> (r: Result<LogInfo, TarsError>)
        ensures
            final(reader).input() == old(reader).input(),
            match spec_decode_log_info(old(reader).input(), old(reader).offset()) {
                Ok((v, end)) => r is Ok && r->Ok_0@ == v && final(reader).offset() == end,
                Err(e) => r == Err::<LogInfo, TarsError>(TarsError::Codec(e)),
            },
    {
        let appname = match reader.read_string(0, true) {
            Ok(v) => v,
            Err(e) => {
                return Err(e);
            },
        };
        let servername = match reader.read_string(1, true) {
            Ok(v) => v,
            Err(e) => {
                return Err(e);
            },
        };
        let filename = match reader.read_string(2, true) {
            Ok(v) => v,
            Err(e) => {
                return Err(e);
            },
        };
        let format = match reader.read_string(3, true) {
            Ok(v) => v,
            Err(e) => {
                return Err(e);
            },
        };
        let setdivision = read_string_or(reader, 4, "");
        let has_suffix = read_bool_or(reader, 5, true);
        let has_app_prefix = read_bool_or(reader, 6, true);
        let has_square_bracket = read_bool_or(reader, 7, false);
        let concat_str = read_string_or(reader, 8, "_");
        let separator = read_string_or(reader, 9, "|");
        let log_type = read_string_or(reader, 10, "");
        proof {
            reveal_strlit("");
            assert(""@ =~= Seq::<char>::empty());
        }
        Ok(
            LogInfo {
                appname,
                servername,
                filename,
                format,
                setdivision,
                has_suffix,
                has_app_prefix,
                has_square_bracket,
                concat_str,
                separator,
                log_type,
            },
        )
    }
}

/// Name of the plain logging method.
pub fn log_logger() -> (s: &'static str)
    ensures
        s@ == "logger"@,
{
    "logger"
}

/// Name of the logging method that takes a log description.
pub fn log_logger_by_info() -> (s: &'static str)
    ensures
        s@ == "loggerbyInfo"@,
{
    "loggerbyInfo"
}

/// Appends log lines as a list of strings at `tag`. What was written
/// before a line that does not fit stays.
pub fn encode_log_buffer(buf: &mut Buffer, logs: &[String], tag: u8) -> (r: Result<(), TarsError>)
    ensures
        encodable_items(texts(logs@)) ==> r is Ok && final(buf)@ == old(buf)@
            + string_list_field(texts(logs@), tag),
        !encodable_items(texts(logs@)) ==> r == Err::<(), TarsError>(
            TarsError::Codec(CodecError::LengthOverflow),
        ),
        old(buf)@.is_prefix_of(final(buf)@),
{
    buf.write_string_list(logs, tag)
}

} // verus!
