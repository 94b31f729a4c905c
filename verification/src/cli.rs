//! The command line, once it has been split into its fields: which job it
//! asks for, and whether it says everything that the job needs.

use crate::client::client::Credentials;
use vstd::prelude::*;

verus! {

/// The fields of a command line.
#[derive(Debug, Clone, PartialEq, Eq)]
pub struct Cli {
    /// Where the local storage is.
    pub db_url: String,
    pub login: Option<String>,
    pub password: Option<String>,
    pub command: Command,
}

/// The subcommands.
#[derive(Debug, Clone, PartialEq, Eq)]
pub enum Command {
    Sync,
    SyncWordset(IdOrName),
    Export(Export),
}

/// The arguments of the export.
#[derive(Debug, Clone, PartialEq, Eq)]
pub struct Export {
    pub destination: String,
    pub format: Format,
    /// Export every stored entry, not only those not exported before.
    pub all: bool,
}

/// The file formats of the export.
#[derive(Debug, Clone, Copy, PartialEq, Eq, Structural)]
pub enum Format {
    Xlsx,
}

/// The two ways to name a collection on the command line; exactly one of
/// them is to be given.
#[derive(Debug, Clone, PartialEq, Eq)]
pub struct IdOrName {
    pub id: Option<i32>,
    pub name: Option<String>,
}

/// What a command line asks for.
#[derive(Debug, Clone, PartialEq, Eq)]
pub enum Job {
    /// Synchronise every collection of the account.
    Sync(Credentials),
    /// Synchronise the one collection.
    SyncWordset(Credentials, crate::sync::IdOrName),
    /// Write stored entries to a file.
    Export(Export),
}

/// A command line that was understood: the storage to work on and the job.
#[derive(Debug, Clone, PartialEq, Eq)]
pub struct Invocation {
    pub db_url: String,
    pub job: Job,
}

/// Why a command line does not name a job.
#[derive(Debug, Clone, Copy, PartialEq, Eq, Structural)]
pub enum CliError {
    /// A synchronisation was asked for without a login or without a
    /// password.
    MissingCredentials,
    /// A collection was named by id and by name at once.
    IdAndName,
    /// A collection was named neither by id nor by name.
    NeitherIdNorName,
}

/// The collection that the two optional fields name.
pub open spec fn selector_spec(selector: IdOrName) -> Result<crate::sync::IdOrName, CliError> {
    match (selector.id, selector.name) {
        (Some(_), Some(_)) => Err(CliError::IdAndName),
        (None, None) => Err(CliError::NeitherIdNorName),
        (Some(id), None) => Ok(crate::sync::IdOrName::Id(id)),
        (None, Some(name)) => Ok(crate::sync::IdOrName::Name(name)),
    }
}

/// The login and the password, where both are given.
pub open spec fn credentials_spec(login: Option<String>, password: Option<String>) -> Result<
    Credentials,
    CliError,
> {
    match (login, password) {
        (Some(login), Some(password)) => Ok(Credentials { login, password }),
        _ => Err(CliError::MissingCredentials),
    }
}

/// The job that a command line names. An export needs no credentials; a
/// synchronisation needs both, and that is looked at before the collection
/// that it may name.
pub open spec fn job_spec(cli: Cli) -> Result<Job, CliError> {
    match cli.command {
        Command::Export(export) => Ok(Job::Export(export)),
        Command::Sync => match credentials_spec(cli.login, cli.password) {
            Ok(creds) => Ok(Job::Sync(creds)),
            Err(e) => Err(e),
        },
        Command::SyncWordset(selector) => match credentials_spec(cli.login, cli.password) {
            Ok(creds) => match selector_spec(selector) {
                Ok(which) => Ok(Job::SyncWordset(creds, which)),
                Err(e) => Err(e),
            },
            Err(e) => Err(e),
        },
    }
}

/// What a command line asks for, on which storage.
pub open spec fn parse_spec(cli: Cli) -> Result<Invocation, CliError> {
    match job_spec(cli) {
        Ok(job) => Ok(Invocation { db_url: cli.db_url, job }),
        Err(e) => Err(e),
    }
}

fn selector(given: IdOrName) -> (r: Result<crate::sync::IdOrName, CliError>)
    ensures
        r == selector_spec(given),
{
    match (given.id, given.name) {
        (Some(_), Some(_)) => Err(CliError::IdAndName),
        (None, None) => Err(CliError::NeitherIdNorName),
        (Some(id), None) => Ok(crate::sync::IdOrName::Id(id)),
        (None, Some(name)) => Ok(crate::sync::IdOrName::Name(name)),
    }
}

fn credentials(login: Option<String>, password: Option<String>) -> (r: Result<
    Credentials,
    CliError,
>)
    ensures
        r == credentials_spec(login, password),
{
    match (login, password) {
        (Some(login), Some(password)) => Ok(Credentials { login, password }),
        _ => Err(CliError::MissingCredentials),
    }
}

/// Reads a command line that has been split into its fields: decides which
/// job it asks for, and refuses it where it does not say all that the job
/// needs.
pub fn parse(cli: Cli) -> (r: Result<Invocation, CliError>)
    ensures
        r == parse_spec(cli),
{
    let Cli { db_url, login, password, command } = cli;
    let job = match command {
        Command::Export(export) => Job::Export(export),
        Command::Sync => match credentials(login, password) {
            Ok(creds) => Job::Sync(creds),
            Err(e) => {
                return Err(e);
            },
        },
        Command::SyncWordset(which) => match credentials(login, password) {
            Ok(creds) => match selector(which) {
                Ok(which) => Job::SyncWordset(creds, which),
                Err(e) => {
                    return Err(e);
                },
            },
            Err(e) => {
                return Err(e);
            },
        },
    };
    Ok(Invocation { db_url, job })
}

impl CliError {
    /// The words in which the error is reported.
    pub fn message(&self) -> (text: &'static str)
        ensures
            text == match *self {
                CliError::MissingCredentials => "login and password must be presented",
                CliError::IdAndName => "id and name can't be presented simultaneously",
                CliError::NeitherIdNorName => "neither id nor name presented",
            },
    {
        match self {
            CliError::MissingCredentials => "login and password must be presented",
            CliError::IdAndName => "id and name can't be presented simultaneously",
            CliError::NeitherIdNorName => "neither id nor name presented",
        }
    }
}

} // verus!
