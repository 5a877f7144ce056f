//! One line of a build log: plain output or a control line.

use crate::util::bytes::{bytes_equal, starts_with, text_from_utf8, text_from_utf8_lossy};
use crate::util::bytes::lossy_text;
use crate::util::decimal::{decimal_text, parse_decimal, push_decimal, spec_parse_decimal};
use vstd::prelude::*;
use vstd::slice::{slice_subrange, slice_to_vec};
use vstd::string::{StringExecFns, StringSliceAdditionalSpecFns};
use vstd::utf8::{decode_utf8, valid_utf8};

verus! {

/// One parsed line of a build log.
#[derive(Debug, Clone)]
pub enum LogItem {
    /// Ordinary output of the build.
    Line(Vec<u8>),
    /// `#BUTIDO:PROGRESS:<n>`: the build reports how far it is.
    Progress(u64),
    /// `#BUTIDO:PHASE:<name>`: the build enters a phase.
    CurrentPhase(String),
    /// `#BUTIDO:STATE:OK`: the build reports success.
    StateOk,
    /// `#BUTIDO:STATE:ERR` or `#BUTIDO:STATE:ERR:<message>`: the build
    /// reports a failure.
    StateErr(String),
    /// A control line that could not be understood, kept as it was read.
    Malformed(Vec<u8>),
    /// The note that closes a log in which a control line was malformed.
    Diagnostic,
}

/// The mathematical value of a `LogItem`.
pub enum LogItemView {
    Line(Seq<u8>),
    Progress(u64),
    CurrentPhase(Seq<char>),
    StateOk,
    StateErr(Seq<char>),
    Malformed(Seq<u8>),
    Diagnostic,
}

impl View for LogItem {
    type V = LogItemView;

    open spec fn view(&self) -> LogItemView {
        match *self {
            LogItem::Line(bytes) => LogItemView::Line(bytes@),
            LogItem::Progress(n) => LogItemView::Progress(n),
            LogItem::CurrentPhase(name) => LogItemView::CurrentPhase(name@),
            LogItem::StateOk => LogItemView::StateOk,
            LogItem::StateErr(message) => LogItemView::StateErr(message@),
            LogItem::Malformed(bytes) => LogItemView::Malformed(bytes@),
            LogItem::Diagnostic => LogItemView::Diagnostic,
        }
    }
}

/// What every control line begins with.
pub open spec fn control_prefix() -> Seq<u8> {
    "#BUTIDO:".spec_bytes()
}

/// The line's text behind the control prefix.
pub open spec fn control_part(line: Seq<u8>) -> Seq<u8> {
    line.skip(control_prefix().len() as int)
}

/// A payload that must be text: the item made of its decoding, or the whole
/// line as malformed where the payload is not UTF-8.
pub open spec fn text_payload(
    line: Seq<u8>,
    payload: Seq<u8>,
    make: spec_fn(Seq<char>) -> LogItemView,
) -> LogItemView {
    if valid_utf8(payload) {
        make(decode_utf8(payload))
    } else {
        LogItemView::Malformed(line)
    }
}

/// What a line of the log means.
///
/// A line that does not begin with `#BUTIDO:` is plain output. Behind the
/// prefix stands `STATE:OK`, `STATE:ERR`, `STATE:ERR:` with a message,
/// `PHASE:` with a name, or `PROGRESS:` with a decimal number; anything else,
/// a message or name that is not UTF-8 and a number that does not fit in 64
/// bits make the line malformed.
pub open spec fn classify(line: Seq<u8>) -> LogItemView {
    let rest = control_part(line);
    if !control_prefix().is_prefix_of(line) {
        LogItemView::Line(line)
    } else if rest == "STATE:OK".spec_bytes() {
        LogItemView::StateOk
    } else if rest == "STATE:ERR".spec_bytes() {
        LogItemView::StateErr(Seq::empty())
    } else if "STATE:ERR:".spec_bytes().is_prefix_of(rest) {
        text_payload(
            line,
            rest.skip("STATE:ERR:".spec_bytes().len() as int),
            |message: Seq<char>| LogItemView::StateErr(message),
        )
    } else if "PHASE:".spec_bytes().is_prefix_of(rest) {
        text_payload(
            line,
            rest.skip("PHASE:".spec_bytes().len() as int),
            |name: Seq<char>| LogItemView::CurrentPhase(name),
        )
    } else if "PROGRESS:".spec_bytes().is_prefix_of(rest) {
        match spec_parse_decimal(rest.skip("PROGRESS:".spec_bytes().len() as int)) {
            Some(n) => LogItemView::Progress(n),
            None => LogItemView::Malformed(line),
        }
    } else {
        LogItemView::Malformed(line)
    }
}

/// The text that says that a log held malformed control lines.
pub open spec fn diagnostic_text() -> Seq<char> {
    "log parse error: a control line could not be understood"@
}

/// The text that an item is shown as.
pub open spec fn display_text(item: LogItemView) -> Seq<char> {
    match item {
        LogItemView::Line(bytes) => lossy_text(bytes),
        LogItemView::Progress(n) => "#BUTIDO:PROGRESS:"@ + decimal_text(n as nat),
        LogItemView::CurrentPhase(name) => "#BUTIDO:PHASE:"@ + name,
        LogItemView::StateOk => "#BUTIDO:STATE:OK"@,
        LogItemView::StateErr(message) => "#BUTIDO:STATE:ERR:"@ + message,
        LogItemView::Malformed(bytes) => lossy_text(bytes),
        LogItemView::Diagnostic => diagnostic_text(),
    }
}

/// A copy of the bytes of `line` from `from` to its end.
fn tail(line: &[u8], from: usize) -> (r: &[u8])
    requires
        from <= line.len(),
    ensures
        r@ == line@.skip(from as int),
{
    slice_subrange(line, from, line.len())
}

impl LogItem {
    /// Parses one line of a log, given without its newline.
    pub fn parse_line(line: &[u8]) -> (item: LogItem)
        ensures
            item@ == classify(line@),
    {
        let prefix = "#BUTIDO:".as_bytes();
        if !starts_with(line, prefix) {
            return LogItem::Line(slice_to_vec(line));
        }
        let rest = tail(line, prefix.len());
        let err_with = "STATE:ERR:".as_bytes();
        let phase = "PHASE:".as_bytes();
        let progress = "PROGRESS:".as_bytes();
        if bytes_equal(rest, "STATE:OK".as_bytes()) {
            LogItem::StateOk
        } else if bytes_equal(rest, "STATE:ERR".as_bytes()) {
            LogItem::StateErr(String::new())
        } else if starts_with(rest, err_with) {
            match text_from_utf8(slice_to_vec(tail(rest, err_with.len()))) {
                Some(message) => LogItem::StateErr(message),
                None => LogItem::Malformed(slice_to_vec(line)),
            }
        } else if starts_with(rest, phase) {
            match text_from_utf8(slice_to_vec(tail(rest, phase.len()))) {
                Some(name) => LogItem::CurrentPhase(name),
                None => LogItem::Malformed(slice_to_vec(line)),
            }
        } else if starts_with(rest, progress) {
            match parse_decimal(tail(rest, progress.len())) {
                Some(n) => LogItem::Progress(n),
                None => LogItem::Malformed(slice_to_vec(line)),
            }
        } else {
            LogItem::Malformed(slice_to_vec(line))
        }
    }

    /// The text that the item is shown as: a control line as it is written
    /// in a log, any other line with what is not UTF-8 replaced.
    pub fn display(&self) -> (text: String)
        ensures
            text@ == display_text(self@),
    {
        match self {
            LogItem::Line(bytes) => text_from_utf8_lossy(bytes.as_slice()),
            LogItem::Progress(n) => {
                let mut text = String::from_str("#BUTIDO:PROGRESS:");
                push_decimal(&mut text, *n);
                text
            },
            LogItem::CurrentPhase(name) => String::from_str("#BUTIDO:PHASE:").concat(
                name.as_str(),
            ),
            LogItem::StateOk => String::from_str("#BUTIDO:STATE:OK"),
            LogItem::StateErr(message) => String::from_str("#BUTIDO:STATE:ERR:").concat(
                message.as_str(),
            ),
            LogItem::Malformed(bytes) => text_from_utf8_lossy(bytes.as_slice()),
            LogItem::Diagnostic => String::from_str(
                "log parse error: a control line could not be understood",
            ),
        }
    }
}

} // verus!
