//! A parsed build log and the verdict it gives.

use crate::log::item::{classify, display_text, LogItem, LogItemView};
use crate::log::lines::{line_end, split_lines};
use vstd::prelude::*;
use vstd::slice::slice_subrange;

verus! {

/// The verdict of a build, as its log tells it.
#[derive(Debug, Clone, Copy, PartialEq, Eq, Structural)]
pub enum JobResult {
    Success,
    Errored,
    Unknown,
}

impl JobResult {
    /// The verdict as a yes, a no, or neither.
    pub open spec fn spec_to_bool(self) -> Option<bool> {
        match self {
            JobResult::Success => Some(true),
            JobResult::Errored => Some(false),
            JobResult::Unknown => None,
        }
    }

    /// The verdict as a yes, a no, or neither.
    pub fn to_bool(self) -> (r: Option<bool>)
        ensures
            r == self.spec_to_bool(),
    {
        match self {
            JobResult::Success => Some(true),
            JobResult::Errored => Some(false),
            JobResult::Unknown => None,
        }
    }
}

/// Whether some item reports success.
pub open spec fn has_state_ok(items: Seq<LogItemView>) -> bool {
    exists|i: int| 0 <= i < items.len() && (#[trigger] items[i]) is StateOk
}

/// Whether some item reports a failure.
pub open spec fn has_state_err(items: Seq<LogItemView>) -> bool {
    exists|i: int| 0 <= i < items.len() && (#[trigger] items[i]) is StateErr
}

/// Whether some item is a malformed control line.
pub open spec fn has_malformed(items: Seq<LogItemView>) -> bool {
    exists|i: int| 0 <= i < items.len() && (#[trigger] items[i]) is Malformed
}

/// The verdict of a log: errored where any item reports a failure, success
/// where none does and at least one reports success, unknown otherwise.
pub open spec fn verdict(items: Seq<LogItemView>) -> JobResult {
    if has_state_err(items) {
        JobResult::Errored
    } else if has_state_ok(items) {
        JobResult::Success
    } else {
        JobResult::Unknown
    }
}

/// The items of a log text: one for each line, in order, and one closing
/// diagnostic where a control line was malformed.
pub open spec fn parse_spec(text: Seq<u8>) -> Seq<LogItemView> {
    let items = split_lines(text).map_values(|line: Seq<u8>| classify(line));
    if has_malformed(items) {
        items.push(LogItemView::Diagnostic)
    } else {
        items
    }
}

/// The verdict of a log text.
pub open spec fn log_verdict(text: Seq<u8>) -> JobResult {
    verdict(parse_spec(text))
}

/// A build log, parsed.
#[derive(Debug, Clone)]
pub struct ParsedLog {
    items: Vec<LogItem>,
}

impl View for ParsedLog {
    type V = Seq<LogItemView>;

    closed spec fn view(&self) -> Seq<LogItemView> {
        self.items@.map_values(|item: LogItem| item@)
    }
}

impl ParsedLog {
    /// Parses the bytes of a log.
    pub fn parse(text: &[u8]) -> (log: ParsedLog)
        ensures
            log@ == parse_spec(text@),
    {
        let mut items: Vec<LogItem> = Vec::new();
        let mut malformed = false;
        let mut pos: usize = 0;
        let ghost all = split_lines(text@).map_values(|line: Seq<u8>| classify(line));
        proof {
            assert(text@.skip(0) =~= text@);
            assert(items@.map_values(|item: LogItem| item@) + all =~= all);
        }
        while pos < text.len()
            invariant
                pos <= text.len(),
                all == split_lines(text@).map_values(|line: Seq<u8>| classify(line)),
                items@.map_values(|item: LogItem| item@) + split_lines(
                    text@.skip(pos as int),
                ).map_values(|line: Seq<u8>| classify(line)) == all,
                malformed == has_malformed(items@.map_values(|item: LogItem| item@)),
            decreases text.len() - pos,
        {
            let end = line_end(text, pos);
            let item = LogItem::parse_line(slice_subrange(text, pos, end));
            let ghost before = items@.map_values(|item: LogItem| item@);
            let ghost rest = text@.skip(pos as int);
            proof {
                assert(rest.take(end - pos) =~= text@.subrange(pos as int, end as int));
                if end < text.len() {
                    assert(rest.skip(end - pos + 1) =~= text@.skip(end as int + 1));
                } else {
                    assert(rest.take(end - pos) =~= rest);
                    assert(text@.skip(end as int).len() == 0);
                }
            }
            if let LogItem::Malformed(_) = &item {
                malformed = true;
            }
            items.push(item);
            pos = if end < text.len() {
                end + 1
            } else {
                end
            };
            proof {
                let after = items@.map_values(|item: LogItem| item@);
                assert(after =~= before.push(item@));
                let tail = split_lines(text@.skip(pos as int)).map_values(
                    |line: Seq<u8>| classify(line),
                );
                assert(split_lines(rest).map_values(|line: Seq<u8>| classify(line)) =~= seq![
                    item@,
                ] + tail);
                assert(after + tail =~= before + (seq![item@] + tail));
                if has_malformed(before) {
                    let i = choose|i: int| 0 <= i < before.len() && (#[trigger] before[i]) is Malformed;
                    assert(after[i] is Malformed);
                }
                if item@ is Malformed {
                    assert(after[before.len() as int] is Malformed);
                }
                if has_malformed(after) {
                    let i = choose|i: int| 0 <= i < after.len() && (#[trigger] after[i]) is Malformed;
                    if i < before.len() {
                        assert(before[i] is Malformed);
                    }
                }
            }
        }
        proof {
            assert(text@.skip(pos as int).len() == 0);
            assert(items@.map_values(|item: LogItem| item@) =~= all);
        }
        if malformed {
            items.push(LogItem::Diagnostic);
            proof {
                assert(items@.map_values(|item: LogItem| item@) =~= all.push(
                    LogItemView::Diagnostic,
                ));
            }
        }
        ParsedLog { items }
    }

    /// Parses the text of a log.
    pub fn from_str(text: &str) -> (log: ParsedLog)
        ensures
            log@ == parse_spec(vstd::utf8::encode_utf8(text@)),
    {
        ParsedLog::parse(text.as_bytes())
    }

    /// The number of items.
    pub fn len(&self) -> (n: usize)
        ensures
            n == self@.len(),
    {
        self.items.len()
    }

    /// The item at `index`.
    pub fn item(&self, index: usize) -> (item: &LogItem)
        requires
            index < self@.len(),
        ensures
            item@ == self@[index as int],
    {
        &self.items[index]
    }

    /// The verdict that the log gives.
    pub fn is_successfull(&self) -> (r: JobResult)
        ensures
            r == verdict(self@),
    {
        let mut ok = false;
        let mut err = false;
        let mut i: usize = 0;
        while i < self.items.len()
            invariant
                i <= self.items.len(),
                ok == has_state_ok(self@.take(i as int)),
                err == has_state_err(self@.take(i as int)),
            decreases self.items.len() - i,
        {
            let ghost before = self@.take(i as int);
            let ghost after = self@.take(i as int + 1);
            proof {
                assert(after =~= before.push(self@[i as int]));
                if has_state_ok(before) {
                    let j = choose|j: int| 0 <= j < before.len() && (#[trigger] before[j]) is StateOk;
                    assert(after[j] is StateOk);
                }
                if has_state_err(before) {
                    let j = choose|j: int| 0 <= j < before.len() && (#[trigger] before[j]) is StateErr;
                    assert(after[j] is StateErr);
                }
                if self@[i as int] is StateOk {
                    assert(after[i as int] is StateOk);
                }
                if self@[i as int] is StateErr {
                    assert(after[i as int] is StateErr);
                }
                if has_state_ok(after) {
                    let j = choose|j: int| 0 <= j < after.len() && (#[trigger] after[j]) is StateOk;
                    if j < i {
                        assert(before[j] is StateOk);
                    }
                }
                if has_state_err(after) {
                    let j = choose|j: int| 0 <= j < after.len() && (#[trigger] after[j]) is StateErr;
                    if j < i {
                        assert(before[j] is StateErr);
                    }
                }
            }
            match &self.items[i] {
                LogItem::StateOk => {
                    ok = true;
                },
                LogItem::StateErr(_) => {
                    err = true;
                },
                _ => {},
            }
            i = i + 1;
        }
        proof {
            assert(self@.take(i as int) =~= self@);
        }
        if err {
            JobResult::Errored
        } else if ok {
            JobResult::Success
        } else {
            JobResult::Unknown
        }
    }

    /// The lines that the log is shown as, one for each item.
    pub fn lines(&self) -> (lines: Vec<String>)
        ensures
            lines@.len() == self@.len(),
            forall|i: int| 0 <= i < lines@.len() ==> (#[trigger] lines@[i])@ == display_text(self@[i]),
    {
        let mut lines: Vec<String> = Vec::new();
        let mut i: usize = 0;
        while i < self.items.len()
            invariant
                i <= self.items.len(),
                lines@.len() == i,
                forall|j: int| 0 <= j < i ==> (#[trigger] lines@[j])@ == display_text(self@[j]),
            decreases self.items.len() - i,
        {
            lines.push(self.items[i].display());
            i = i + 1;
        }
        lines
    }
}

/// The verdict of a log text is errored exactly where a line reports a
/// failure, and success exactly where none does and a line reports success.
pub proof fn lemma_verdict_rules(text: Seq<u8>)
    ensures
        log_verdict(text) == JobResult::Errored <==> has_state_err(parse_spec(text)),
        log_verdict(text) == JobResult::Success <==> has_state_ok(parse_spec(text))
            && !has_state_err(parse_spec(text)),
        log_verdict(text) == JobResult::Unknown <==> !has_state_ok(parse_spec(text))
            && !has_state_err(parse_spec(text)),
{
}

/// A log without lines gives no verdict.
pub proof fn lemma_empty_log_unknown()
    ensures
        log_verdict(Seq::empty()) == JobResult::Unknown,
        parse_spec(Seq::empty()).len() == 0,
{
    let items = split_lines(Seq::<u8>::empty()).map_values(|line: Seq<u8>| classify(line));
    assert(items.len() == 0);
}

} // verus!
