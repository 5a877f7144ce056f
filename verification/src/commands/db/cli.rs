//! `db cli`: which database shell to start, and with which arguments.

use crate::util::decimal::{decimal_text, push_decimal};
use crate::util::text::{str_equal, texts};
use vstd::prelude::*;
use vstd::string::StringExecFns;

verus! {

/// How to reach the database.
#[derive(Debug, Clone)]
pub struct DbConnectionConfig {
    pub database_host: String,
    pub database_port: u16,
    pub database_user: String,
    pub database_name: String,
}

/// A database shell that can be started.
#[derive(Debug, Clone, Copy, PartialEq, Eq, Structural)]
pub enum PgCliProgram {
    Psql,
    PgCli,
}

/// The start of a database shell: the program, where it was found, and its
/// arguments.
#[derive(Debug, Clone)]
pub struct PgCliCommand {
    pub program: PgCliProgram,
    pub path: String,
    pub arguments: Vec<String>,
}

/// A program that was looked for, with the path where it was found.
#[derive(Debug, Clone)]
pub struct Candidate {
    pub name: String,
    pub path: Option<String>,
}

/// Why no database shell is started.
#[derive(Debug, Clone, Copy, PartialEq, Eq, Structural)]
pub enum CliError {
    /// The first program that was found is none that can be started. It is
    /// the candidate at this place.
    UnsupportedProgram(usize),
    /// None of the programs was found.
    NoProgramFound,
}

/// The names of the programs to look for: the tool that the command line
/// names, or `psql`, then `pgcli`.
pub open spec fn spec_candidates(tool: Option<Seq<char>>) -> Seq<Seq<char>> {
    match tool {
        Some(name) => seq![name],
        None => seq!["psql"@, "pgcli"@],
    }
}

/// The names of the programs to look for.
pub fn cli_candidates(tool: Option<&str>) -> (names: Vec<String>)
    ensures
        texts(names@) == spec_candidates(
            match tool {
                Some(name) => Some(name@),
                None => None,
            },
        ),
{
    let names = match tool {
        Some(name) => vec![String::from_str(name)],
        None => vec![String::from_str("psql"), String::from_str("pgcli")],
    };
    proof {
        assert(texts(names@) =~= spec_candidates(
            match tool {
                Some(name) => Some(name@),
                None => None,
            },
        ));
    }
    names
}

/// The place of the first candidate that was found, or the number of
/// candidates where none was.
pub open spec fn first_found(candidates: Seq<Candidate>) -> int
    decreases candidates.len(),
{
    if candidates.len() == 0 || candidates[0].path.is_some() {
        0
    } else {
        1 + first_found(candidates.drop_first())
    }
}

/// The program that a name stands for.
pub open spec fn spec_program(name: Seq<char>) -> Option<PgCliProgram> {
    if name == "psql"@ {
        Some(PgCliProgram::Psql)
    } else if name == "pgcli"@ {
        Some(PgCliProgram::PgCli)
    } else {
        None
    }
}

/// The arguments that a program is started with.
pub open spec fn spec_arguments(program: PgCliProgram, config: DbConnectionConfig) -> Seq<Seq<char>> {
    match program {
        PgCliProgram::Psql => seq![
            "--dbname="@ + config.database_name@,
            "--host="@ + config.database_host@,
            "--port="@ + decimal_text(config.database_port as nat),
            "--username="@ + config.database_user@,
        ],
        PgCliProgram::PgCli => seq![
            "--host"@,
            config.database_host@,
            "--port"@,
            decimal_text(config.database_port as nat),
            "--username"@,
            config.database_user@,
            config.database_name@,
        ],
    }
}

fn arguments(program: PgCliProgram, config: &DbConnectionConfig) -> (args: Vec<String>)
    ensures
        texts(args@) == spec_arguments(program, *config),
{
    let args = match program {
        PgCliProgram::Psql => {
            let mut port = String::from_str("--port=");
            push_decimal(&mut port, config.database_port as u64);
            vec![
                String::from_str("--dbname=").concat(config.database_name.as_str()),
                String::from_str("--host=").concat(config.database_host.as_str()),
                port,
                String::from_str("--username=").concat(config.database_user.as_str()),
            ]
        },
        PgCliProgram::PgCli => {
            let mut port = String::new();
            push_decimal(&mut port, config.database_port as u64);
            assert(port@ =~= decimal_text(config.database_port as nat));
            vec![
                String::from_str("--host"),
                config.database_host.clone(),
                String::from_str("--port"),
                port,
                String::from_str("--username"),
                config.database_user.clone(),
                config.database_name.clone(),
            ]
        },
    };
    proof {
        assert(texts(args@) =~= spec_arguments(program, *config));
    }
    args
}

/// Whether `r` is the outcome of choosing among the candidates: the first
/// that was found is started, if it is one of the known programs.
pub open spec fn is_cli_choice(
    r: Result<PgCliCommand, CliError>,
    candidates: Seq<Candidate>,
    config: DbConnectionConfig,
) -> bool {
    let at = first_found(candidates);
    match r {
        Err(CliError::NoProgramFound) => at == candidates.len(),
        Err(CliError::UnsupportedProgram(place)) => at < candidates.len() && place == at
            && spec_program(candidates[at].name@).is_none(),
        Ok(command) => {
            &&& at < candidates.len()
            &&& spec_program(candidates[at].name@) == Some(command.program)
            &&& Some(command.path@) == match candidates[at].path {
                Some(path) => Some(path@),
                None => None,
            }
            &&& texts(command.arguments@) == spec_arguments(command.program, config)
        },
    }
}

/// Chooses the database shell to start among the programs that were looked
/// for, and gives its arguments.
pub fn cli(candidates: &Vec<Candidate>, config: &DbConnectionConfig) -> (r: Result<
    PgCliCommand,
    CliError,
>)
    ensures
        is_cli_choice(r, candidates@, *config),
{
    let mut i: usize = 0;
    proof {
        assert(candidates@.skip(0) =~= candidates@);
    }
    while i < candidates.len()
        invariant
            i <= candidates.len(),
            first_found(candidates@) == i + first_found(candidates@.skip(i as int)),
        decreases candidates.len() - i,
    {
        proof {
            assert(candidates@.skip(i as int).drop_first() =~= candidates@.skip(i as int + 1));
        }
        if let Some(path) = &candidates[i].path {
            let name = candidates[i].name.as_str();
            let program = if str_equal(name, "psql") {
                PgCliProgram::Psql
            } else if str_equal(name, "pgcli") {
                PgCliProgram::PgCli
            } else {
                return Err(CliError::UnsupportedProgram(i));
            };
            return Ok(
                PgCliCommand { program, path: path.clone(), arguments: arguments(program, config) },
            );
        }
        i = i + 1;
    }
    Err(CliError::NoProgramFound)
}

} // verus!
