use replibyte::command::{CommandSpec, SecretEnvironment};
use replibyte::connector::{finish, Step};
use replibyte::process::{run_result, ProcessError, ProcessOutcome, RunReport};

fn exited(succeeded: bool, diagnostic: &str, input_failed: bool) -> RunReport {
    RunReport::Exited {
        outcome: ProcessOutcome { succeeded, diagnostic: diagnostic.to_string() },
        input_failed,
    }
}

#[test]
fn new_environment_is_empty() {
    let env = SecretEnvironment::new();
    assert_eq!(env.len(), 0);
    assert_eq!(env.get("PGPASSWORD"), None);
}

#[test]
fn insert_adds_at_the_end() {
    let mut env = SecretEnvironment::new();
    env.insert("A", "1");
    env.insert("B", "2");
    env.insert("C", "");
    assert_eq!(env.len(), 3);
    assert_eq!((env.name_at(0), env.value_at(0)), ("A", "1"));
    assert_eq!((env.name_at(1), env.value_at(1)), ("B", "2"));
    assert_eq!((env.name_at(2), env.value_at(2)), ("C", ""));
    assert_eq!(env.get("B"), Some("2"));
    assert_eq!(env.get("C"), Some(""));
    assert_eq!(env.get("D"), None);
    assert_eq!(env.get("a"), None);
}

#[test]
fn insert_replaces_in_place() {
    let mut env = SecretEnvironment::new();
    env.insert("A", "1");
    env.insert("B", "2");
    env.insert("A", "3");
    assert_eq!(env.len(), 2);
    assert_eq!((env.name_at(0), env.value_at(0)), ("A", "3"));
    assert_eq!((env.name_at(1), env.value_at(1)), ("B", "2"));
    assert_eq!(env.get("A"), Some("3"));
}

#[test]
fn merge_sets_each_entry_in_order() {
    let mut base = SecretEnvironment::new();
    base.insert("A", "1");
    base.insert("B", "2");
    let mut over = SecretEnvironment::new();
    over.insert("C", "3");
    over.insert("A", "4");
    base.merge(&over);
    assert_eq!(base.len(), 3);
    assert_eq!((base.name_at(0), base.value_at(0)), ("A", "4"));
    assert_eq!((base.name_at(1), base.value_at(1)), ("B", "2"));
    assert_eq!((base.name_at(2), base.value_at(2)), ("C", "3"));
    assert_eq!(over.len(), 2);

    let mut same = SecretEnvironment::new();
    same.merge(&SecretEnvironment::new());
    assert_eq!(same.len(), 0);
}

#[test]
fn command_builds_up() {
    let mut command = CommandSpec::new("psql");
    assert_eq!(command.program, "psql");
    assert!(command.args.is_empty());
    assert_eq!(command.env.len(), 0);
    command.arg("-h");
    command.arg("local host");
    command.arg("");
    assert_eq!(command.args, ["-h", "local host", ""]);
    let mut secrets = SecretEnvironment::new();
    secrets.insert("PGPASSWORD", "pw");
    command.envs(&secrets);
    command.envs(&secrets);
    assert_eq!(command.env.len(), 1);
    assert_eq!(command.env.get("PGPASSWORD"), Some("pw"));
    assert_eq!(command.program, "psql");
    assert_eq!(command.args, ["-h", "local host", ""]);
}

#[test]
fn zero_exit_is_success() {
    assert_eq!(run_result(exited(true, "exit status: 0", false)), Ok(()));
}

#[test]
fn failed_input_does_not_fail_the_run() {
    assert_eq!(run_result(exited(true, "exit status: 0", true)), Ok(()));
    assert_eq!(
        run_result(exited(false, "exit status: 2", true)),
        run_result(exited(false, "exit status: 2", false))
    );
}

#[test]
fn other_exits_fail() {
    assert_eq!(
        run_result(exited(false, "exit status: 1", false)),
        Err(ProcessError::ProcessFailed("exit status: 1".to_string()))
    );
    assert_eq!(
        run_result(exited(false, "signal: 9 (SIGKILL)", false)),
        Err(ProcessError::ProcessFailed("signal: 9 (SIGKILL)".to_string()))
    );
}

#[test]
fn spawn_failure_is_its_own_error() {
    assert_eq!(
        run_result(RunReport::SpawnFailed("No such file or directory (os error 2)".to_string())),
        Err(ProcessError::SpawnFailed("No such file or directory (os error 2)".to_string()))
    );
}

#[test]
fn finish_ends_the_call() {
    assert_eq!(finish(exited(true, "exit status: 0", false)), Step::Done(Ok(())));
    assert_eq!(
        finish(exited(false, "exit status: 3", false)),
        Step::Done(Err(ProcessError::ProcessFailed("exit status: 3".to_string())))
    );
    assert_eq!(
        finish(RunReport::SpawnFailed("nope".to_string())),
        Step::Done(Err(ProcessError::SpawnFailed("nope".to_string())))
    );
}

#[test]
fn error_messages() {
    assert_eq!(
        ProcessError::ToolNotFound("psql".to_string()).message(),
        "cannot find 'psql' binary in path"
    );
    assert_eq!(
        ProcessError::SpawnFailed("Permission denied (os error 13)".to_string()).message(),
        "Permission denied (os error 13)"
    );
    assert_eq!(
        ProcessError::ProcessFailed("exit status: 1".to_string()).message(),
        "command error: \"exit status: 1\""
    );
    assert_eq!(
        ProcessError::ProcessFailed("exit status: 1".to_string()).message(),
        format!("command error: {:?}", "exit status: 1".to_string())
    );
}
