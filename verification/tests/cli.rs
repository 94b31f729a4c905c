use skyeng_words::cli::parse;
use skyeng_words::cli::Cli;
use skyeng_words::cli::CliError;
use skyeng_words::cli::Command;
use skyeng_words::cli::Export;
use skyeng_words::cli::Format;
use skyeng_words::cli::IdOrName;
use skyeng_words::cli::Invocation;
use skyeng_words::cli::Job;
use skyeng_words::client::client::Credentials;

fn s(text: &str) -> String {
    text.to_string()
}

fn cli(login: Option<&str>, password: Option<&str>, command: Command) -> Cli {
    Cli { db_url: s("sqlite://words.db"), login: login.map(s), password: password.map(s), command }
}

fn wordset(id: Option<i32>, name: Option<&str>) -> Command {
    Command::SyncWordset(IdOrName { id, name: name.map(s) })
}

fn creds() -> Credentials {
    Credentials::new(s("ann"), s("secret"))
}

#[test]
fn sync_needs_login_and_password() {
    assert_eq!(
        parse(cli(Some("ann"), Some("secret"), Command::Sync)),
        Ok(Invocation { db_url: s("sqlite://words.db"), job: Job::Sync(creds()) })
    );
    assert_eq!(parse(cli(None, Some("secret"), Command::Sync)), Err(CliError::MissingCredentials));
    assert_eq!(parse(cli(Some("ann"), None, Command::Sync)), Err(CliError::MissingCredentials));
}

#[test]
fn wordset_is_named_by_id_or_by_name() {
    let by_id = parse(cli(Some("ann"), Some("secret"), wordset(Some(5), None))).unwrap();
    assert_eq!(by_id.job, Job::SyncWordset(creds(), skyeng_words::sync::IdOrName::Id(5)));
    let by_name = parse(cli(Some("ann"), Some("secret"), wordset(None, Some("Travel")))).unwrap();
    assert_eq!(
        by_name.job,
        Job::SyncWordset(creds(), skyeng_words::sync::IdOrName::Name(s("Travel")))
    );
}

#[test]
fn wordset_named_twice_or_not_at_all_is_refused() {
    assert_eq!(
        parse(cli(Some("ann"), Some("secret"), wordset(Some(5), Some("Travel")))),
        Err(CliError::IdAndName)
    );
    assert_eq!(
        parse(cli(Some("ann"), Some("secret"), wordset(None, None))),
        Err(CliError::NeitherIdNorName)
    );
}

#[test]
fn missing_credentials_are_reported_first() {
    assert_eq!(parse(cli(None, None, wordset(None, None))), Err(CliError::MissingCredentials));
}

#[test]
fn export_needs_no_credentials() {
    let export = Export { destination: s("out.xlsx"), format: Format::Xlsx, all: true };
    assert_eq!(
        parse(cli(None, None, Command::Export(export.clone()))),
        Ok(Invocation { db_url: s("sqlite://words.db"), job: Job::Export(export) })
    );
}

#[test]
fn errors_have_their_words() {
    assert_eq!(CliError::MissingCredentials.message(), "login and password must be presented");
    assert_eq!(CliError::IdAndName.message(), "id and name can't be presented simultaneously");
    assert_eq!(CliError::NeitherIdNorName.message(), "neither id nor name presented");
}
