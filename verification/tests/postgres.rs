use replibyte::command::CommandSpec;
use replibyte::config::SshConfig;
use replibyte::connector::{Event, Step};
use replibyte::destination::postgres::{wipe_database_query, Postgres};
use replibyte::process::{ProcessError, ProcessOutcome, RunReport};

fn get_postgres() -> Postgres<'static> {
    Postgres::new("localhost", 5453, "root", "root", "password", true, None)
}

fn get_invalid_postgres() -> Postgres<'static> {
    Postgres::new("localhost", 5453, "root", "root", "wrongpassword", true, None)
}

fn exited(code: i32) -> RunReport {
    RunReport::Exited {
        outcome: ProcessOutcome {
            succeeded: code == 0,
            diagnostic: format!("exit status: {}", code),
        },
        input_failed: false,
    }
}

/// Stands in for a server on localhost:5453 that lets `root` in with the
/// password `password`.
fn local_server(command: &CommandSpec, _input: Option<&Vec<u8>>) -> RunReport {
    let reached = command.program == "psql"
        && command.args[..8] == ["-h", "localhost", "-p", "5453", "-d", "root", "-U", "root"];
    if reached && command.env.get("PGPASSWORD") == Some("password") {
        exited(0)
    } else {
        exited(2)
    }
}

fn run_to_end(
    postgres: &Postgres,
    first: Step,
    runner: fn(&CommandSpec, Option<&Vec<u8>>) -> RunReport,
) -> Result<(), ProcessError> {
    let mut step = first;
    loop {
        let event = match step {
            Step::Done(result) => return result,
            Step::FindTool(ref tool) => Event::ToolLookup(tool == "psql"),
            Step::Run { ref command, ref input } => Event::Ran(runner(command, input.as_ref())),
        };
        step = postgres.advance(step, event);
    }
}

fn init(postgres: &Postgres) -> Result<(), ProcessError> {
    run_to_end(postgres, postgres.start_init(), local_server)
}

fn write(postgres: &Postgres, data: Vec<u8>) -> Result<(), ProcessError> {
    run_to_end(postgres, postgres.start_write(data), local_server)
}

fn strings(words: &[&str]) -> Vec<String> {
    words.iter().map(|w| w.to_string()).collect()
}

const WIPE_ROOT: &str = "DROP SCHEMA public CASCADE; CREATE SCHEMA public; \
GRANT ALL ON SCHEMA public TO \"root\"; GRANT ALL ON SCHEMA public TO public;";

#[test]
fn connect() {
    let p = get_postgres();
    let _ = init(&p).expect("can't init postgres");
    assert!(write(&p, b"SELECT 1".to_vec()).is_ok());

    let p = get_invalid_postgres();
    assert!(init(&p).is_err());
    assert!(write(&p, b"SELECT 1".to_vec()).is_err());
}

#[test]
fn test_inserts() {
    let p = get_postgres();
    let data = b"INSERT INTO t VALUES (1);\nINSERT INTO t VALUES (2);\n".to_vec();
    match p.start_write(data.clone()) {
        Step::Run { command, input } => {
            assert_eq!(input, Some(data));
            assert_eq!(command.program, "psql");
            assert!(!command.args.contains(&"-c".to_string()));
        }
        other => panic!("unexpected step {:?}", other),
    }
}

#[test]
fn wipe_query_for_alice() {
    let query = wipe_database_query("alice");
    assert_eq!(
        query,
        "DROP SCHEMA public CASCADE; CREATE SCHEMA public; \
         GRANT ALL ON SCHEMA public TO \"alice\"; GRANT ALL ON SCHEMA public TO public;"
    );
    assert_eq!(query.matches("DROP SCHEMA public CASCADE;").count(), 1);
    assert_eq!(query.matches("DROP").count(), 1);
    assert_eq!(query.matches("CREATE SCHEMA public;").count(), 1);
    assert_eq!(query.matches("CREATE").count(), 1);
    assert_eq!(query.matches("GRANT").count(), 2);
    assert_eq!(query.matches("GRANT ALL ON SCHEMA public TO \"alice\";").count(), 1);
    assert_eq!(query.matches("GRANT ALL ON SCHEMA public TO public;").count(), 1);
}

#[test]
fn wipe_query_takes_the_name_as_it_is() {
    assert_eq!(
        wipe_database_query(""),
        "DROP SCHEMA public CASCADE; CREATE SCHEMA public; \
         GRANT ALL ON SCHEMA public TO \"\"; GRANT ALL ON SCHEMA public TO public;"
    );
    assert!(wipe_database_query("o'neil \"x\"").contains("TO \"o'neil \"x\"\";"));
}

#[test]
fn local_reset_command() {
    let p = get_postgres();
    let command = p.reset_command();
    assert_eq!(command.program, "psql");
    assert_eq!(
        command.args,
        strings(&["-h", "localhost", "-p", "5453", "-d", "root", "-U", "root", "-c", WIPE_ROOT])
    );
    assert_eq!(command.env.len(), 1);
    assert_eq!(command.env.name_at(0), "PGPASSWORD");
    assert_eq!(command.env.value_at(0), "password");
}

#[test]
fn local_write_command() {
    let p = Postgres::new("db.example.org", 5432, "app", "user", "pw", false, None);
    let command = p.write_command();
    assert_eq!(command.program, "psql");
    assert_eq!(
        command.args,
        strings(&["-h", "db.example.org", "-p", "5432", "-d", "app", "-U", "user"])
    );
    assert_eq!(command.env.get("PGPASSWORD"), Some("pw"));
    assert_eq!(command.env.len(), 1);
}

#[test]
fn password_stays_out_of_local_arguments() {
    let p = Postgres::new("localhost", 5432, "app", "user", "s3cr3t-pw", true, None);
    for command in [p.reset_command(), p.write_command()] {
        assert!(command.args.iter().all(|a| !a.contains("s3cr3t-pw")));
        assert!(!command.program.contains("s3cr3t-pw"));
        assert_eq!(command.env.get("PGPASSWORD"), Some("s3cr3t-pw"));
    }
    let q = Postgres::new("localhost", 5432, "app", "user", "another", true, None);
    assert_eq!(p.reset_command().args, q.reset_command().args);
    assert_eq!(p.write_command().args, q.write_command().args);
}

#[test]
fn remote_write_command() {
    let ssh = SshConfig::new("bastion", 22);
    let p = Postgres::new("db.internal", 5432, "app", "user", "pw", false, Some(ssh));
    let command = p.write_command();
    assert_eq!(command.program, "ssh");
    assert_eq!(
        command.args,
        strings(&[
            "-p",
            "22",
            "--",
            "bastion",
            "export PGPASSWORD=pw; psql -h db.internal -p 5432 -d app -U user",
        ])
    );
    assert_eq!(command.env.len(), 0);
}

#[test]
fn remote_reset_command() {
    let ssh = SshConfig {
        host: "bastion.example.org".to_string(),
        port: 2222,
        username: Some("deploy".to_string()),
        identity_file: Some("/home/me/.ssh/id key".to_string()),
    };
    let p = Postgres::new("10.0.0.7", 5432, "app", "root", "p w'd", true, Some(ssh));
    let command = p.reset_command();
    assert_eq!(command.program, "ssh");
    assert_eq!(
        command.args,
        strings(&[
            "-p",
            "2222",
            "-i",
            "/home/me/.ssh/id key",
            "--",
            "deploy@bastion.example.org",
            "export PGPASSWORD='p w'\\''d'; psql -h 10.0.0.7 -p 5432 -d app -U root -c \
             'DROP SCHEMA public CASCADE; CREATE SCHEMA public; \
             GRANT ALL ON SCHEMA public TO \"root\"; GRANT ALL ON SCHEMA public TO public;'",
        ])
    );
    assert_eq!(command.env.len(), 0);
}

#[test]
fn init_looks_for_the_tool_first() {
    let p = get_postgres();
    assert_eq!(p.start_init(), Step::FindTool("psql".to_string()));
    let q = Postgres::new("localhost", 5453, "root", "root", "password", false, None);
    assert_eq!(q.start_init(), Step::FindTool("psql".to_string()));
}

#[test]
fn init_fails_without_the_tool() {
    for wipe in [true, false] {
        let p = Postgres::new("localhost", 5453, "root", "root", "password", wipe, None);
        assert_eq!(
            p.resume_init(false),
            Step::Done(Err(ProcessError::ToolNotFound("psql".to_string())))
        );
    }
}

#[test]
fn init_without_wipe_runs_nothing() {
    let p = Postgres::new("localhost", 5453, "root", "root", "password", false, None);
    assert_eq!(p.resume_init(true), Step::Done(Ok(())));
    let denied: fn(&CommandSpec, Option<&Vec<u8>>) -> RunReport = |_, _| exited(1);
    assert_eq!(run_to_end(&p, p.start_init(), denied), Ok(()));
}

#[test]
fn init_with_wipe_runs_the_reset() {
    let p = get_postgres();
    match p.resume_init(true) {
        Step::Run { command, input } => {
            assert_eq!(input, None);
            assert_eq!(command, p.reset_command());
            assert_eq!(command.args[8], "-c");
            assert_eq!(command.args[9], WIPE_ROOT);
        }
        other => panic!("unexpected step {:?}", other),
    }
}

#[test]
fn write_hands_the_bytes_over_unchanged() {
    let p = get_postgres();
    for data in [Vec::new(), b"SELECT 1;".to_vec(), vec![0u8, 255, 10, 13, 39, 92]] {
        match p.start_write(data.clone()) {
            Step::Run { command, input } => {
                assert_eq!(input, Some(data));
                assert_eq!(command, p.write_command());
            }
            other => panic!("unexpected step {:?}", other),
        }
    }
}

#[test]
fn end_to_end_with_reset() {
    fn server(command: &CommandSpec, input: Option<&Vec<u8>>) -> RunReport {
        if command.args[1] != "localhost" {
            return RunReport::Exited {
                outcome: ProcessOutcome {
                    succeeded: false,
                    diagnostic: "exit status: 2".to_string(),
                },
                input_failed: input.is_some(),
            };
        }
        assert_eq!(command.program, "psql");
        assert_eq!(command.args[..8], ["-h", "localhost", "-p", "5432", "-d", "app", "-U", "user"]);
        assert_eq!(command.env.get("PGPASSWORD"), Some("pw"));
        match input {
            None => assert_eq!(command.args[8], "-c"),
            Some(data) => {
                assert_eq!(command.args.len(), 8);
                assert_eq!(data, b"SELECT 1;");
            }
        }
        exited(0)
    }

    let p = Postgres::new("localhost", 5432, "app", "user", "pw", true, None);
    assert_eq!(run_to_end(&p, p.start_init(), server), Ok(()));
    assert_eq!(run_to_end(&p, p.start_write(b"SELECT 1;".to_vec()), server), Ok(()));
    assert_eq!(run_to_end(&p, p.start_write(b"SELECT 1;".to_vec()), server), Ok(()));

    let far = Postgres::new("unreachable.invalid", 5432, "app", "user", "pw", true, None);
    assert_eq!(
        run_to_end(&far, far.start_write(b"SELECT 1;".to_vec()), server),
        Err(ProcessError::ProcessFailed("exit status: 2".to_string()))
    );
}

#[test]
fn wrong_password_fails_init_and_write() {
    let p = get_invalid_postgres();
    assert_eq!(init(&p), Err(ProcessError::ProcessFailed("exit status: 2".to_string())));
    assert_eq!(
        write(&p, b"SELECT 1".to_vec()),
        Err(ProcessError::ProcessFailed("exit status: 2".to_string()))
    );
    let refused: fn(&CommandSpec, Option<&Vec<u8>>) -> RunReport =
        |_, _| RunReport::SpawnFailed("Permission denied (os error 13)".to_string());
    assert_eq!(
        run_to_end(&p, p.start_init(), refused),
        Err(ProcessError::SpawnFailed("Permission denied (os error 13)".to_string()))
    );
    assert_eq!(
        run_to_end(&p, p.start_write(Vec::new()), refused),
        Err(ProcessError::SpawnFailed("Permission denied (os error 13)".to_string()))
    );
}

#[test]
fn port_is_written_in_decimal() {
    for (port, text) in [(0u16, "0"), (1, "1"), (80, "80"), (5432, "5432"), (65535, "65535")] {
        let p = Postgres::new("h", port, "d", "u", "p", false, None);
        assert_eq!(p.write_command().args[3], text);
    }
}

#[test]
fn advance_answers_the_pending_step() {
    let p = get_postgres();
    assert_eq!(p.advance(p.start_init(), Event::ToolLookup(true)), p.resume_init(true));
    assert_eq!(p.advance(p.start_init(), Event::ToolLookup(false)), p.resume_init(false));
    assert_eq!(p.advance(p.resume_init(true), Event::Ran(exited(0))), Step::Done(Ok(())));
    assert_eq!(
        p.advance(p.start_write(b"SELECT 1;".to_vec()), Event::Ran(exited(1))),
        Step::Done(Err(ProcessError::ProcessFailed("exit status: 1".to_string())))
    );
    assert_eq!(
        p.advance(p.start_write(Vec::new()), Event::Ran(RunReport::SpawnFailed("no".to_string()))),
        Step::Done(Err(ProcessError::SpawnFailed("no".to_string())))
    );
}

#[test]
fn advance_ignores_what_is_no_answer() {
    let p = get_postgres();
    assert_eq!(p.advance(p.start_init(), Event::Ran(exited(0))), p.start_init());
    assert_eq!(
        p.advance(p.start_write(b"x".to_vec()), Event::ToolLookup(false)),
        p.start_write(b"x".to_vec())
    );
    let missing = || Err(ProcessError::ToolNotFound("psql".to_string()));
    assert_eq!(p.advance(Step::Done(Ok(())), Event::ToolLookup(true)), Step::Done(Ok(())));
    assert_eq!(p.advance(Step::Done(Ok(())), Event::Ran(exited(1))), Step::Done(Ok(())));
    assert_eq!(p.advance(Step::Done(missing()), Event::ToolLookup(true)), Step::Done(missing()));
    assert_eq!(p.advance(Step::Done(missing()), Event::Ran(exited(0))), Step::Done(missing()));
}
