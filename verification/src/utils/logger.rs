use crate::utils::text::{decimal, push_decimal};
use crate::utils::time::now_text;
use vstd::prelude::*;
use vstd::string::*;

verus! {

/// Builds the lines of the log in one format for the whole application.
pub struct Logger;

/// How grave the matter of a line is.
#[derive(Debug, Clone, Copy, PartialEq, Eq, Structural)]
pub enum LogLevel {
    Error,
    Warn,
    Info,
    Debug,
    Trace,
}

/// A line of the log, ready to be written out.
#[derive(Debug, Clone, PartialEq, Eq)]
pub struct LogLine {
    pub level: LogLevel,
    pub text: String,
}

impl LogLevel {
    /// The name of the level as it stands in a line.
    pub open spec fn name(self) -> Seq<char> {
        match self {
            LogLevel::Error => "ERROR"@,
            LogLevel::Warn => "WARN"@,
            LogLevel::Info => "INFO"@,
            LogLevel::Debug => "DEBUG"@,
            LogLevel::Trace => "TRACE"@,
        }
    }

    /// Executable form of [`LogLevel::name`].
    pub fn as_string(self) -> (name: String)
        ensures
            name@ == self.name(),
    {
        match self {
            LogLevel::Error => String::from_str("ERROR"),
            LogLevel::Warn => String::from_str("WARN"),
            LogLevel::Info => String::from_str("INFO"),
            LogLevel::Debug => String::from_str("DEBUG"),
            LogLevel::Trace => String::from_str("TRACE"),
        }
    }
}

impl LogLine {
    /// Whether the line belongs on the error stream: errors do, all else goes to the
    /// ordinary output.
    pub fn is_error(&self) -> (error: bool)
        ensures
            error == (self.level == LogLevel::Error),
    {
        self.level == LogLevel::Error
    }
}

/// The characters of an optional text.
pub open spec fn context_view(context: Option<&str>) -> Option<Seq<char>> {
    match context {
        Some(context) => Some(context@),
        None => None,
    }
}

/// The text of a line: the time in square brackets, the level, the context in square
/// brackets where there is one, and the message.
pub open spec fn line_text(
    timestamp: Seq<char>,
    level: LogLevel,
    message: Seq<char>,
    context: Option<Seq<char>>,
) -> Seq<char> {
    match context {
        Some(context) => "["@ + timestamp + "] "@ + level.name() + " ["@ + context + "] "@
            + message,
        None => "["@ + timestamp + "] "@ + level.name() + " "@ + message,
    }
}

/// The message that reports a request served over HTTP.
pub open spec fn http_message(
    method: Seq<char>,
    path: Seq<char>,
    status: u16,
    duration_ms: u64,
) -> Seq<char> {
    "HTTP "@ + method + " "@ + path + " - "@ + decimal(status as nat) + " - "@ + decimal(
        duration_ms as nat,
    ) + "ms"@
}

/// The message that reports an operation on a table of the store.
pub open spec fn database_message(
    operation: Seq<char>,
    table: Seq<char>,
    duration_ms: u64,
) -> Seq<char> {
    "DB "@ + operation + " on "@ + table + " - "@ + decimal(duration_ms as nat) + "ms"@
}

/// The message that reports a call of an outside service.
pub open spec fn external_message(
    service: Seq<char>,
    operation: Seq<char>,
    success: bool,
    duration_ms: u64,
) -> Seq<char> {
    "External "@ + service + " "@ + operation + " - "@ + (if success {
        "SUCCESS"@
    } else {
        "FAILED"@
    }) + " - "@ + decimal(duration_ms as nat) + "ms"@
}

/// `line` is a line of the given level, message and context, written at some time.
pub open spec fn is_line(
    line: LogLine,
    level: LogLevel,
    message: Seq<char>,
    context: Option<Seq<char>>,
) -> bool {
    line.level == level && exists|timestamp: Seq<char>|
        line.text@ == #[trigger] line_text(timestamp, level, message, context)
}

impl Logger {
    /// The line that says `message` at the given level and time, with a context or none.
    pub fn format_line(timestamp: &str, level: LogLevel, message: &str, context: Option<&str>) -> (line:
        LogLine)
        ensures
            line.level == level,
            line.text@ == line_text(timestamp@, level, message@, context_view(context)),
    {
        let mut text = String::from_str("[");
        text.append(timestamp);
        text.append("] ");
        text.append(level.as_string().as_str());
        match context {
            Some(context) => {
                text.append(" [");
                text.append(context);
                text.append("] ");
            },
            None => {
                text.append(" ");
            },
        }
        text.append(message);
        LogLine { level, text }
    }

    /// The line that says `message` at the given level now.
    fn log(level: LogLevel, message: &str, context: Option<&str>) -> (line: LogLine)
        ensures
            is_line(line, level, message@, context_view(context)),
    {
        let timestamp = now_text();
        let line = Logger::format_line(timestamp.as_str(), level, message, context);
        assert(line.text@ == line_text(timestamp@, level, message@, context_view(context)));
        line
    }

    /// An error.
    pub fn error(message: &str) -> (line: LogLine)
        ensures
            is_line(line, LogLevel::Error, message@, None),
    {
        Logger::log(LogLevel::Error, message, None)
    }

    /// An error, with the place or matter that it belongs to.
    pub fn error_with_context(message: &str, context: &str) -> (line: LogLine)
        ensures
            is_line(line, LogLevel::Error, message@, Some(context@)),
    {
        Logger::log(LogLevel::Error, message, Some(context))
    }

    /// A warning.
    pub fn warn(message: &str) -> (line: LogLine)
        ensures
            is_line(line, LogLevel::Warn, message@, None),
    {
        Logger::log(LogLevel::Warn, message, None)
    }

    /// A piece of information.
    pub fn info(message: &str) -> (line: LogLine)
        ensures
            is_line(line, LogLevel::Info, message@, None),
    {
        Logger::log(LogLevel::Info, message, None)
    }

    /// A message for debugging.
    pub fn debug(message: &str) -> (line: LogLine)
        ensures
            is_line(line, LogLevel::Debug, message@, None),
    {
        Logger::log(LogLevel::Debug, message, None)
    }

    /// A message for tracing.
    pub fn trace(message: &str) -> (line: LogLine)
        ensures
            is_line(line, LogLevel::Trace, message@, None),
    {
        Logger::log(LogLevel::Trace, message, None)
    }

    /// A request served over HTTP: its method and path, the status of the response and the
    /// time taken in milliseconds.
    pub fn http_request(method: &str, path: &str, status: u16, duration_ms: u64) -> (line: LogLine)
        ensures
            is_line(
                line,
                LogLevel::Info,
                http_message(method@, path@, status, duration_ms),
                Some("HTTP"@),
            ),
    {
        let mut message = String::from_str("HTTP ");
        message.append(method);
        message.append(" ");
        message.append(path);
        message.append(" - ");
        push_decimal(&mut message, status as u64);
        message.append(" - ");
        push_decimal(&mut message, duration_ms);
        message.append("ms");
        Logger::log(LogLevel::Info, message.as_str(), Some("HTTP"))
    }

    /// An operation on a table of the store and the time taken in milliseconds.
    pub fn database_operation(operation: &str, table: &str, duration_ms: u64) -> (line: LogLine)
        ensures
            is_line(
                line,
                LogLevel::Debug,
                database_message(operation@, table@, duration_ms),
                Some("DB"@),
            ),
    {
        let mut message = String::from_str("DB ");
        message.append(operation);
        message.append(" on ");
        message.append(table);
        message.append(" - ");
        push_decimal(&mut message, duration_ms);
        message.append("ms");
        Logger::log(LogLevel::Debug, message.as_str(), Some("DB"))
    }

    /// A call of an outside service: whether it succeeded and the time taken in
    /// milliseconds.
    pub fn external_service(service: &str, operation: &str, success: bool, duration_ms: u64) -> (line:
        LogLine)
        ensures
            is_line(
                line,
                LogLevel::Info,
                external_message(service@, operation@, success, duration_ms),
                Some("EXT"@),
            ),
    {
        let mut message = String::from_str("External ");
        message.append(service);
        message.append(" ");
        message.append(operation);
        message.append(" - ");
        if success {
            message.append("SUCCESS");
        } else {
            message.append("FAILED");
        }
        message.append(" - ");
        push_decimal(&mut message, duration_ms);
        message.append("ms");
        Logger::log(LogLevel::Info, message.as_str(), Some("EXT"))
    }
}

} // verus!
