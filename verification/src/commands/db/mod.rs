//! The `db` subcommand family: query limits, subcommand selection and the
//! rows that each listing prints.

pub mod cli;
pub mod job;
pub mod jobs;
pub mod listings;
pub mod releases;
pub mod setup;
pub mod submit;
pub mod submits;

pub use crate::commands::db::cli::cli;
pub use crate::commands::db::job::job;
pub use crate::commands::db::jobs::jobs;
pub use crate::commands::db::listings::{artifacts, envvars, images, log_of};
pub use crate::commands::db::releases::releases;
pub use crate::commands::db::setup::setup;
pub use crate::commands::db::submit::submit;
pub use crate::commands::db::submits::submits;

use crate::db::models;
use crate::log::parsed::{log_verdict, ParsedLog};
use crate::util::text::str_equal;
use vstd::prelude::*;
use vstd::utf8::encode_utf8;

verus! {

/// The subcommands of `db`.
#[derive(Debug, Clone, Copy, PartialEq, Eq, Structural)]
pub enum DbCommand {
    Cli,
    Setup,
    Artifacts,
    EnvVars,
    Images,
    Submit,
    Submits,
    Jobs,
    Job,
    LogOf,
    Releases,
}

/// Why no subcommand was run.
#[derive(Debug, Clone)]
pub enum CommandError {
    /// The command line names a subcommand that does not exist.
    UnknownSubcommand(String),
    /// The command line names no subcommand.
    NoSubcommand,
}

/// The subcommand of `db` that a name stands for.
pub open spec fn spec_db_command(name: Seq<char>) -> Option<DbCommand> {
    if name == "cli"@ {
        Some(DbCommand::Cli)
    } else if name == "setup"@ {
        Some(DbCommand::Setup)
    } else if name == "artifacts"@ {
        Some(DbCommand::Artifacts)
    } else if name == "envvars"@ {
        Some(DbCommand::EnvVars)
    } else if name == "images"@ {
        Some(DbCommand::Images)
    } else if name == "submit"@ {
        Some(DbCommand::Submit)
    } else if name == "submits"@ {
        Some(DbCommand::Submits)
    } else if name == "jobs"@ {
        Some(DbCommand::Jobs)
    } else if name == "job"@ {
        Some(DbCommand::Job)
    } else if name == "log-of"@ {
        Some(DbCommand::LogOf)
    } else if name == "releases"@ {
        Some(DbCommand::Releases)
    } else {
        None
    }
}

/// Selects the subcommand of `db` that the command line names.
pub fn db(subcommand: Option<&str>) -> (r: Result<DbCommand, CommandError>)
    ensures
        match r {
            Ok(command) => subcommand matches Some(name) && spec_db_command(name@) == Some(command),
            Err(CommandError::NoSubcommand) => subcommand.is_none(),
            Err(CommandError::UnknownSubcommand(other)) => subcommand matches Some(name)
                && spec_db_command(name@).is_none() && other@ == name@,
        },
{
    match subcommand {
        None => Err(CommandError::NoSubcommand),
        Some(name) => {
            if str_equal(name, "cli") {
                Ok(DbCommand::Cli)
            } else if str_equal(name, "setup") {
                Ok(DbCommand::Setup)
            } else if str_equal(name, "artifacts") {
                Ok(DbCommand::Artifacts)
            } else if str_equal(name, "envvars") {
                Ok(DbCommand::EnvVars)
            } else if str_equal(name, "images") {
                Ok(DbCommand::Images)
            } else if str_equal(name, "submit") {
                Ok(DbCommand::Submit)
            } else if str_equal(name, "submits") {
                Ok(DbCommand::Submits)
            } else if str_equal(name, "jobs") {
                Ok(DbCommand::Jobs)
            } else if str_equal(name, "job") {
                Ok(DbCommand::Job)
            } else if str_equal(name, "log-of") {
                Ok(DbCommand::LogOf)
            } else if str_equal(name, "releases") {
                Ok(DbCommand::Releases)
            } else {
                Err(CommandError::UnknownSubcommand(name.to_owned()))
            }
        },
    }
}


/// Why a query limit was refused.
#[derive(Debug, Clone, Copy, PartialEq, Eq)]
pub enum LimitError {
    /// The limit does not fit the database's signed 64-bit `LIMIT`.
    OutOfRange,
}

/// The `LIMIT` a query runs with: the limit given on the command line, or
/// the configured default where none was given; zero stands for "unbounded".
pub open spec fn spec_limit(given: Option<usize>, default_limit: usize) -> int {
    let limit = match given {
        Some(l) => l,
        None => default_limit,
    };
    if limit == 0 {
        i64::MAX as int
    } else {
        limit as int
    }
}

/// Computes the `LIMIT` for a database query from the command line's
/// `--limit` and the configured default.
pub fn get_limit(given: Option<usize>, default_limit: usize) -> (r: Result<i64, LimitError>)
    ensures
        spec_limit(given, default_limit) <= i64::MAX ==> r == Ok::<i64, LimitError>(
            spec_limit(given, default_limit) as i64,
        ),
        spec_limit(given, default_limit) > i64::MAX ==> r == Err::<i64, LimitError>(
            LimitError::OutOfRange,
        ),
{
    let limit: usize = match given {
        Some(l) => l,
        None => default_limit,
    };
    if limit == 0 {
        Ok(i64::MAX)
    } else if limit as u128 > i64::MAX as u128 {
        Err(LimitError::OutOfRange)
    } else {
        Ok(limit as i64)
    }
}

/// The verdict of a job, as its recorded log tells it: a yes, a no, or
/// neither where the log does not decide.
pub fn is_job_successfull(job: &models::Job) -> (r: Option<bool>)
    ensures
        r == log_verdict(encode_utf8(job.log_text@)).spec_to_bool(),
{
    ParsedLog::from_str(job.log_text.as_str()).is_successfull().to_bool()
}

} // verus!
