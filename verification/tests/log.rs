use butido::commands::db::is_job_successfull;
use butido::db::models::Job;
use butido::log::item::LogItem;
use butido::log::lines::count_lines;
use butido::log::parsed::{JobResult, ParsedLog};

fn verdict(text: &[u8]) -> JobResult {
    ParsedLog::parse(text).is_successfull()
}

#[test]
fn ok_marker_alone_is_success() {
    assert_eq!(verdict(b"building\n#BUTIDO:STATE:OK\n"), JobResult::Success);
}

#[test]
fn any_err_marker_is_errored() {
    assert_eq!(verdict(b"#BUTIDO:STATE:ERR:boom\n"), JobResult::Errored);
    assert_eq!(verdict(b"#BUTIDO:STATE:ERR\n"), JobResult::Errored);
    assert_eq!(
        verdict(b"#BUTIDO:STATE:OK\n#BUTIDO:STATE:ERR:late\n"),
        JobResult::Errored
    );
    assert_eq!(
        verdict(b"#BUTIDO:STATE:ERR:early\nmore\n#BUTIDO:STATE:OK\n"),
        JobResult::Errored
    );
}

#[test]
fn no_marker_is_unknown() {
    assert_eq!(verdict(b"just\nsome\noutput"), JobResult::Unknown);
    assert_eq!(verdict(b"#BUTIDO:PHASE:build\n#BUTIDO:PROGRESS:50\n"), JobResult::Unknown);
}

#[test]
fn empty_log_is_unknown() {
    let log = ParsedLog::parse(b"");
    assert_eq!(log.len(), 0);
    assert_eq!(log.is_successfull(), JobResult::Unknown);
}

#[test]
fn garbled_control_line_is_unknown_with_a_diagnostic() {
    let log = ParsedLog::parse(b"#BUTIDO:STATE:ERR:\xff\xfe\nline\n");
    assert_eq!(log.is_successfull(), JobResult::Unknown);
    assert_eq!(log.len(), 3);
    assert!(matches!(log.item(0), LogItem::Malformed(_)));
    assert!(matches!(log.item(1), LogItem::Line(_)));
    assert!(matches!(log.item(2), LogItem::Diagnostic));
    let lines = log.lines();
    assert_eq!(lines[1], "line");
    assert_eq!(
        lines[2],
        "log parse error: a control line could not be understood"
    );
}

#[test]
fn a_marker_must_be_the_whole_line() {
    assert_eq!(verdict(b" #BUTIDO:STATE:OK\n"), JobResult::Unknown);
    assert_eq!(verdict(b"#BUTIDO:STATE:OKAY\n"), JobResult::Unknown);
    assert_eq!(verdict(b"#BUTIDO:STATE:ERRor\n"), JobResult::Unknown);
}

#[test]
fn lines_are_classified() {
    let log = ParsedLog::parse(
        b"hello\n#BUTIDO:PROGRESS:42\n#BUTIDO:PHASE:unpack\n#BUTIDO:STATE:ERR:no space\n#BUTIDO:STATE:OK\n#BUTIDO:WHAT\n",
    );
    assert_eq!(log.len(), 7);
    match log.item(0) {
        LogItem::Line(bytes) => assert_eq!(bytes, b"hello"),
        other => panic!("{:?}", other),
    }
    assert!(matches!(log.item(1), LogItem::Progress(42)));
    match log.item(2) {
        LogItem::CurrentPhase(name) => assert_eq!(name, "unpack"),
        other => panic!("{:?}", other),
    }
    match log.item(3) {
        LogItem::StateErr(message) => assert_eq!(message, "no space"),
        other => panic!("{:?}", other),
    }
    assert!(matches!(log.item(4), LogItem::StateOk));
    match log.item(5) {
        LogItem::Malformed(bytes) => assert_eq!(bytes, b"#BUTIDO:WHAT"),
        other => panic!("{:?}", other),
    }
    assert!(matches!(log.item(6), LogItem::Diagnostic));
}

#[test]
fn progress_must_be_a_number_that_fits() {
    assert!(matches!(
        LogItem::parse_line(b"#BUTIDO:PROGRESS:18446744073709551615"),
        LogItem::Progress(u64::MAX)
    ));
    assert!(matches!(
        LogItem::parse_line(b"#BUTIDO:PROGRESS:18446744073709551616"),
        LogItem::Malformed(_)
    ));
    assert!(matches!(
        LogItem::parse_line(b"#BUTIDO:PROGRESS:"),
        LogItem::Malformed(_)
    ));
    assert!(matches!(
        LogItem::parse_line(b"#BUTIDO:PROGRESS:4x"),
        LogItem::Malformed(_)
    ));
    assert!(matches!(
        LogItem::parse_line(b"#BUTIDO:PROGRESS:007"),
        LogItem::Progress(7)
    ));
}

#[test]
fn items_are_shown_as_they_were_written() {
    let text = b"plain\n#BUTIDO:PROGRESS:7\n#BUTIDO:PHASE:build\n#BUTIDO:STATE:OK\n#BUTIDO:STATE:ERR:bad";
    let lines = ParsedLog::parse(text).lines();
    assert_eq!(
        lines,
        vec![
            "plain",
            "#BUTIDO:PROGRESS:7",
            "#BUTIDO:PHASE:build",
            "#BUTIDO:STATE:OK",
            "#BUTIDO:STATE:ERR:bad",
        ]
    );
}

#[test]
fn plain_lines_that_are_not_text_are_shown_with_replacements() {
    let lines = ParsedLog::parse(b"a\xffb\n").lines();
    assert_eq!(lines, vec![String::from("a\u{fffd}b")]);
}

#[test]
fn the_last_line_needs_no_newline() {
    assert_eq!(ParsedLog::parse(b"a\nb").len(), 2);
    assert_eq!(ParsedLog::parse(b"a\nb\n").len(), 2);
    assert_eq!(ParsedLog::parse(b"a\n\nb\n").len(), 3);
    assert_eq!(ParsedLog::parse(b"\n").len(), 1);
    assert_eq!(count_lines(b"a\n\nb"), 3);
    assert_eq!(count_lines(b""), 0);
    assert_eq!(count_lines("one\ntwo\n".as_bytes()), "one\ntwo\n".lines().count());
}

#[test]
fn from_str_reads_the_bytes_of_the_text() {
    assert_eq!(
        ParsedLog::from_str("x\n#BUTIDO:STATE:OK").is_successfull(),
        JobResult::Success
    );
}

#[test]
fn verdict_as_a_yes_or_no() {
    assert_eq!(JobResult::Success.to_bool(), Some(true));
    assert_eq!(JobResult::Errored.to_bool(), Some(false));
    assert_eq!(JobResult::Unknown.to_bool(), None);
}

fn job_with_log(log: &str) -> Job {
    Job {
        id: 1,
        submit_id: 1,
        endpoint_id: 1,
        package_id: 1,
        image_id: 1,
        container_hash: String::from("abc"),
        script_text: String::from("#!/bin/sh\n"),
        log_text: String::from(log),
        uuid: 7,
    }
}

#[test]
fn job_success_follows_its_log() {
    assert_eq!(is_job_successfull(&job_with_log("#BUTIDO:STATE:OK")), Some(true));
    assert_eq!(
        is_job_successfull(&job_with_log("#BUTIDO:STATE:ERR:x")),
        Some(false)
    );
    assert_eq!(is_job_successfull(&job_with_log("nothing")), None);
}
