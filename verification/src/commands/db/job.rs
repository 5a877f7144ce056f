//! `db job`: everything the database holds of one job.

use crate::commands::util::{display_data, mk_header, rows_texts, spec_table, titles, Table};
use crate::db::models;
use crate::log::item::display_text;
use crate::log::lines::{count_lines, split_lines};
use crate::log::parsed::{log_verdict, parse_spec, JobResult, ParsedLog};
use crate::util::decimal::{decimal_text, push_decimal};
use crate::util::ident::{format_uuid, uuid_text};
use crate::util::text::{join, joined, texts};
use vstd::prelude::*;
use vstd::string::{StrSliceExecFns, StringExecFns};
use vstd::utf8::encode_utf8;

verus! {

/// A job with the rows that it points to.
#[derive(Debug, Clone)]
pub struct JobRecord {
    pub job: models::Job,
    pub submit: models::Submit,
    pub endpoint: models::Endpoint,
    pub package: models::Package,
    pub image: models::Image,
}

/// The flags of `db job`, as the command line gives them.
#[derive(Debug, Clone, Copy)]
pub struct JobFlags {
    pub csv: bool,
    pub show_env: bool,
    pub show_script: bool,
    pub show_log: bool,
    pub no_script_highlight: bool,
    pub no_script_line_numbers: bool,
}

/// The script of a job in its report.
#[derive(Debug, Clone)]
pub enum ScriptSection {
    /// The script was not asked for.
    Hidden,
    /// The script was asked for, but no highlighting theme is configured:
    /// the report ends here with an error.
    MissingTheme,
    /// The script, and how to print it.
    Shown { text: String, highlight: bool, line_numbers: bool, theme: String },
}

/// The report of one job, section by section.
#[derive(Debug, Clone)]
pub struct JobReport {
    /// The verdict, by which the printer colours the head of the report.
    pub verdict: JobResult,
    pub job_uuid: String,
    pub submit_uuid: String,
    pub succeeded: String,
    pub package_name: String,
    pub package_version: String,
    pub endpoint_name: String,
    pub image_name: String,
    pub container_hash: String,
    pub script_lines: usize,
    pub log_lines: usize,
    /// The job's environment, one variable per line, where it was asked for.
    pub env: Option<String>,
    pub script: ScriptSection,
    /// The log as it is shown, where it was asked for.
    pub log: Option<String>,
}

/// What `db job` prints.
#[derive(Debug, Clone)]
pub enum JobOutput {
    /// One row of comma-separated values under its header.
    Csv(Table),
    /// The report.
    Report(JobReport),
}

/// The verdict that a job's recorded log gives.
pub open spec fn job_verdict(job: models::Job) -> JobResult {
    log_verdict(encode_utf8(job.log_text@))
}

/// The word for a verdict.
pub open spec fn succeeded_label(verdict: JobResult) -> Seq<char> {
    match verdict {
        JobResult::Success => "yes"@,
        JobResult::Errored => "no"@,
        JobResult::Unknown => "unknown"@,
    }
}

/// The column titles of the comma-separated form.
pub open spec fn job_csv_titles() -> Seq<Seq<char>> {
    seq![
        "UUID"@,
        "Success"@,
        "Package Name"@,
        "Package Version"@,
        "Ran on"@,
        "Image Name"@,
        "Container"@,
    ]
}

/// The row of the comma-separated form.
pub open spec fn job_csv_row(record: JobRecord) -> Seq<Seq<char>> {
    seq![
        uuid_text(record.job.uuid),
        succeeded_label(job_verdict(record.job)),
        record.package.name@,
        record.package.version@,
        record.endpoint.name@,
        record.image.name@,
        record.job.container_hash@,
    ]
}

/// `text`, with blanks before it to make it `width` characters wide.
pub open spec fn pad_left(text: Seq<char>, width: nat) -> Seq<char> {
    if text.len() >= width {
        text
    } else {
        Seq::new((width - text.len()) as nat, |i: int| ' ') + text
    }
}

/// The line of one environment variable: a tab, its number in three
/// columns, a full stop, and `name=value`.
pub open spec fn env_line(index: nat, var: models::EnvVar) -> Seq<char> {
    "\t"@ + pad_left(decimal_text(index), 3) + ". "@ + var.name@ + "="@ + var.value@
}

/// The lines of the environment, numbered from zero.
pub open spec fn env_lines(envs: Seq<models::EnvVar>) -> Seq<Seq<char>> {
    Seq::new(envs.len(), |i: int| env_line(i as nat, envs[i]))
}

/// The section of the environment: its lines, one below the other.
pub open spec fn env_text(envs: Seq<models::EnvVar>) -> Seq<char> {
    joined(env_lines(envs), "\n"@)
}

/// The section of the log: the lines that its items are shown as, one
/// below the other.
pub open spec fn log_text(job: models::Job) -> Seq<char> {
    joined(
        parse_spec(encode_utf8(job.log_text@)).map_values(|item| display_text(item)),
        "\n"@,
    )
}

/// Whether `section` is the script section of the report of `record`.
pub open spec fn is_script_section(
    section: ScriptSection,
    record: JobRecord,
    flags: JobFlags,
    theme: Option<String>,
) -> bool {
    if !flags.show_script {
        section is Hidden
    } else {
        match theme {
            None => section is MissingTheme,
            Some(configured) => section matches ScriptSection::Shown {
                text,
                highlight,
                line_numbers,
                theme,
            } && text@ == record.job.script_text@ && highlight == !flags.no_script_highlight
                && line_numbers == !flags.no_script_line_numbers && theme@ == configured@,
        }
    }
}

/// Whether `report` is the report of `record`.
pub open spec fn is_job_report(
    report: JobReport,
    record: JobRecord,
    flags: JobFlags,
    theme: Option<String>,
    envs: Seq<models::EnvVar>,
) -> bool {
    &&& report.verdict == job_verdict(record.job)
    &&& report.job_uuid@ == uuid_text(record.job.uuid)
    &&& report.submit_uuid@ == uuid_text(record.submit.uuid)
    &&& report.succeeded@ == succeeded_label(job_verdict(record.job))
    &&& report.package_name@ == record.package.name@
    &&& report.package_version@ == record.package.version@
    &&& report.endpoint_name@ == record.endpoint.name@
    &&& report.image_name@ == record.image.name@
    &&& report.container_hash@ == record.job.container_hash@
    &&& report.script_lines == split_lines(encode_utf8(record.job.script_text@)).len()
    &&& report.log_lines == split_lines(encode_utf8(record.job.log_text@)).len()
    &&& match report.env {
        Some(text) => flags.show_env && text@ == env_text(envs),
        None => !flags.show_env,
    }
    &&& is_script_section(report.script, record, flags, theme)
    &&& match report.log {
        Some(text) => flags.show_log && text@ == log_text(record.job),
        None => !flags.show_log,
    }
}

fn succeeded_word(verdict: JobResult) -> (word: String)
    ensures
        word@ == succeeded_label(verdict),
{
    match verdict {
        JobResult::Success => String::from_str("yes"),
        JobResult::Errored => String::from_str("no"),
        JobResult::Unknown => String::from_str("unknown"),
    }
}

/// Appends `text` to `out` behind as many blanks as make it `width` wide.
fn push_padded(out: &mut String, text: &str, width: usize)
    ensures
        final(out)@ == old(out)@ + pad_left(text@, width as nat),
{
    let len = text.unicode_len();
    let mut k: usize = len;
    proof {
        reveal_strlit(" ");
        assert(old(out)@ + Seq::new(0, |i: int| ' ') =~= old(out)@);
    }
    while k < width
        invariant
            len <= k,
            len < width ==> k <= width,
            len >= width ==> k == len,
            out@ == old(out)@ + Seq::new((k - len) as nat, |i: int| ' '),
        decreases width - k,
    {
        out.append(" ");
        k = k + 1;
        proof {
            reveal_strlit(" ");
            assert(out@ =~= old(out)@ + Seq::new((k - len) as nat, |i: int| ' '));
        }
    }
    out.append(text);
    proof {
        if len >= width {
            assert(out@ =~= old(out)@ + text@);
        } else {
            assert(out@ =~= old(out)@ + (Seq::new((width - len) as nat, |i: int| ' ') + text@));
        }
    }
}

fn env_line_text(index: usize, var: &models::EnvVar) -> (line: String)
    ensures
        line@ == env_line(index as nat, *var),
{
    let mut number = String::new();
    push_decimal(&mut number, index as u64);
    let mut line = String::from_str("\t");
    push_padded(&mut line, number.as_str(), 3);
    line.append(". ");
    line.append(var.name.as_str());
    line.append("=");
    line.append(var.value.as_str());
    proof {
        assert(number@ =~= decimal_text(index as nat));
    }
    line
}

fn env_section(envs: &Vec<models::EnvVar>) -> (text: String)
    ensures
        text@ == env_text(envs@),
{
    let mut lines: Vec<String> = Vec::new();
    let mut i: usize = 0;
    while i < envs.len()
        invariant
            i <= envs.len(),
            lines@.len() == i,
            forall|j: int| 0 <= j < i ==> (#[trigger] lines@[j])@ == env_line(j as nat, envs@[j]),
        decreases envs.len() - i,
    {
        lines.push(env_line_text(i, &envs[i]));
        i = i + 1;
    }
    proof {
        assert(texts(lines@) =~= env_lines(envs@));
    }
    join(&lines, "\n")
}

fn log_section(log: &ParsedLog) -> (text: String)
    ensures
        text@ == joined(log@.map_values(|item| display_text(item)), "\n"@),
{
    let lines = log.lines();
    proof {
        assert(texts(lines@) =~= log@.map_values(|item| display_text(item)));
    }
    join(&lines, "\n")
}

/// Shapes what `db job` prints of a job.
///
/// With `csv` it is one row under its header. Otherwise it is the report:
/// the head, then the environment, the script and the log, each where its
/// flag asks for it. The environment is `envs`, which the caller has read
/// for the job. A script that is asked for needs a configured theme.
pub fn job(record: &JobRecord, flags: JobFlags, theme: &Option<String>, envs: &Vec<
    models::EnvVar,
>) -> (out: JobOutput)
    ensures
        match out {
            JobOutput::Csv(table) => flags.csv && spec_table(
                job_csv_titles(),
                seq![job_csv_row(*record)],
                true,
                table,
            ),
            JobOutput::Report(report) => !flags.csv && is_job_report(
                report,
                *record,
                flags,
                *theme,
                envs@,
            ),
        },
{
    let parsed_log = ParsedLog::from_str(record.job.log_text.as_str());
    let success = parsed_log.is_successfull();
    if flags.csv {
        let names = vec![
            "UUID",
            "Success",
            "Package Name",
            "Package Version",
            "Ran on",
            "Image Name",
            "Container",
        ];
        let header = mk_header(names);
        let row = vec![
            format_uuid(record.job.uuid),
            succeeded_word(success),
            record.package.name.clone(),
            record.package.version.clone(),
            record.endpoint.name.clone(),
            record.image.name.clone(),
            record.job.container_hash.clone(),
        ];
        let rows = vec![row];
        proof {
            assert(titles(names@) =~= job_csv_titles());
            assert(texts(row@) =~= job_csv_row(*record));
            assert(rows_texts(rows@) =~= seq![job_csv_row(*record)]);
        }
        JobOutput::Csv(display_data(header, rows, true))
    } else {
        let env = if flags.show_env {
            Some(env_section(envs))
        } else {
            None
        };
        let script = if flags.show_script {
            match theme {
                None => ScriptSection::MissingTheme,
                Some(configured) => ScriptSection::Shown {
                    text: record.job.script_text.clone(),
                    highlight: !flags.no_script_highlight,
                    line_numbers: !flags.no_script_line_numbers,
                    theme: configured.clone(),
                },
            }
        } else {
            ScriptSection::Hidden
        };
        let log = if flags.show_log {
            Some(log_section(&parsed_log))
        } else {
            None
        };
        JobOutput::Report(
            JobReport {
                verdict: success,
                job_uuid: format_uuid(record.job.uuid),
                submit_uuid: format_uuid(record.submit.uuid),
                succeeded: succeeded_word(success),
                package_name: record.package.name.clone(),
                package_version: record.package.version.clone(),
                endpoint_name: record.endpoint.name.clone(),
                image_name: record.image.name.clone(),
                container_hash: record.job.container_hash.clone(),
                script_lines: count_lines(record.job.script_text.as_str().as_bytes()),
                log_lines: count_lines(record.job.log_text.as_str().as_bytes()),
                env,
                script,
                log,
            },
        )
    }
}

} // verus!
