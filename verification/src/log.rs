//! What is written to the log for each event of the child process.

use vstd::prelude::*;
use vstd::utf8::{decode_utf8, valid_utf8};
use crate::sidecar::{EventView, SidecarEvent};
use crate::text::{push_signed_decimal, signed_decimal};

verus! {

/// How grave a log record is.
#[derive(Debug, Clone, Copy, PartialEq, Eq, Structural)]
pub enum Severity {
    Info,
    Warning,
    Error,
}

/// One record for the log.
#[derive(Debug, Clone, PartialEq, Eq)]
pub struct LogRecord {
    pub severity: Severity,
    pub message: String,
}

/// The text of a line: its characters where the bytes are UTF-8, and a note
/// where they are not.
pub open spec fn line_text(bytes: Seq<u8>) -> Seq<char> {
    if valid_utf8(bytes) {
        decode_utf8(bytes)
    } else {
        "<invalid UTF-8>"@
    }
}

/// The text of an exit code: `Some(..)` around the number, or `None`.
pub open spec fn exit_code_text(code: Option<i32>) -> Seq<char> {
    match code {
        Some(number) => "Some("@ + signed_decimal(number as int) + ")"@,
        None => "None"@,
    }
}

/// The severity at which `event` is logged: the child's output and its exit
/// as information, its error stream as a warning, a failure as an error.
pub open spec fn record_severity(event: EventView) -> Severity {
    match event {
        EventView::OutputLine(_) => Severity::Info,
        EventView::ErrorLine(_) => Severity::Warning,
        EventView::SpawnError(_) => Severity::Error,
        EventView::Terminated(_) => Severity::Info,
    }
}

/// The message that is logged for `event`.
pub open spec fn record_message(event: EventView) -> Seq<char> {
    match event {
        EventView::OutputLine(bytes) => "Sidecar output: "@ + line_text(bytes),
        EventView::ErrorLine(bytes) => "Sidecar error: "@ + line_text(bytes),
        EventView::SpawnError(message) => "Sidecar error: "@ + message,
        EventView::Terminated(code) => "Sidecar exited with code: "@ + exit_code_text(code),
    }
}

/// `std::str::from_utf8` accepts exactly the byte strings that are UTF-8, and
/// the text it hands back is what those bytes encode.
#[verifier::external_body]
fn utf8_text(bytes: &[u8]) -> (text: Option<&str>)
    ensures
        text is Some <==> valid_utf8(bytes@),
        text matches Some(t) ==> t@ == decode_utf8(bytes@),
{
    match std::str::from_utf8(bytes) {
        Ok(text) => Some(text),
        Err(_) => None,
    }
}

/// Appends the text of a line to `out`.
pub fn push_line_text(out: &mut String, bytes: &Vec<u8>)
    ensures
        final(out)@ == old(out)@ + line_text(bytes@),
{
    match utf8_text(bytes.as_slice()) {
        Some(text) => out.append(text),
        None => out.append("<invalid UTF-8>"),
    }
}

/// Appends the text of an exit code to `out`.
pub fn push_exit_code_text(out: &mut String, code: Option<i32>)
    ensures
        final(out)@ == old(out)@ + exit_code_text(code),
{
    match code {
        Some(number) => {
            out.append("Some(");
            push_signed_decimal(out, number);
            out.append(")");
        },
        None => out.append("None"),
    }
}

/// The record that is logged for `event`.
pub fn log_record(event: &SidecarEvent) -> (record: LogRecord)
    ensures
        record.severity == record_severity(event@),
        record.message@ == record_message(event@),
{
    let mut message = String::new();
    let severity = match event {
        SidecarEvent::OutputLine(bytes) => {
            message.append("Sidecar output: ");
            push_line_text(&mut message, bytes);
            Severity::Info
        },
        SidecarEvent::ErrorLine(bytes) => {
            message.append("Sidecar error: ");
            push_line_text(&mut message, bytes);
            Severity::Warning
        },
        SidecarEvent::SpawnError(text) => {
            message.append("Sidecar error: ");
            message.append(text.as_str());
            Severity::Error
        },
        SidecarEvent::Terminated(code) => {
            message.append("Sidecar exited with code: ");
            push_exit_code_text(&mut message, *code);
            Severity::Info
        },
    };
    LogRecord { severity, message }
}

} // verus!
