//! Restoring into PostgreSQL through `psql`.

use crate::command::{merged, CommandSpec, CommandView, Entries, SecretEnvironment};
use crate::config::{
    export_command, export_commands, lemma_remote_line_reads_back, remote_line, ssh_args, wrapped,
    SshConfig, SshView,
};
use crate::connector::{finish, Event, EventView, Step, StepView};
use crate::process::{
    is_run_failure, is_success, outcome_of, ErrorView, ProcessError, ReportView,
};
use crate::shell::read_line;
use crate::text::{decimal, decimal_string};
use vstd::prelude::*;

verus! {

/// A PostgreSQL database to restore into, and how to go about it. Nothing
/// in it changes once it is made.
pub struct Postgres<'a> {
    host: &'a str,
    port: u16,
    database: &'a str,
    username: &'a str,
    password: &'a str,
    wipe_database: bool,
    ssh_config: Option<SshConfig>,
}

/// What a [`Postgres`] holds, as mathematical values.
pub struct PostgresView {
    pub host: Seq<char>,
    pub port: u16,
    pub database: Seq<char>,
    pub username: Seq<char>,
    pub password: Seq<char>,
    pub wipe_database: bool,
    pub ssh_config: Option<SshView>,
}

/// The view of an optional tunnel.
pub open spec fn tunnel_view(ssh: Option<SshConfig>) -> Option<SshView> {
    match ssh {
        Some(ssh) => Some(ssh@),
        None => None,
    }
}

impl<'a> View for Postgres<'a> {
    type V = PostgresView;

    closed spec fn view(&self) -> PostgresView {
        PostgresView {
            host: self.host@,
            port: self.port,
            database: self.database@,
            username: self.username@,
            password: self.password@,
            wipe_database: self.wipe_database,
            ssh_config: tunnel_view(self.ssh_config),
        }
    }
}

/// The statement that empties a database: the schema `public` is dropped
/// with all that depends on it and created anew, and all rights on it are
/// granted to `username` and to everybody.
pub open spec fn wipe_query(username: Seq<char>) -> Seq<char> {
    "DROP SCHEMA public CASCADE; CREATE SCHEMA public; GRANT ALL ON SCHEMA public TO \""@
        + username + "\"; GRANT ALL ON SCHEMA public TO public;"@
}

/// The arguments that point `psql` at the database, followed by the
/// statement to execute, if one is given. Without one, `psql` reads its
/// statements from standard input.
pub open spec fn psql_args(target: PostgresView, statement: Option<Seq<char>>) -> Seq<Seq<char>> {
    let connect = seq![
        "-h"@,
        target.host,
        "-p"@,
        decimal(target.port as nat),
        "-d"@,
        target.database,
        "-U"@,
        target.username,
    ];
    match statement {
        Some(text) => connect + seq!["-c"@, text],
        None => connect,
    }
}

/// The secrets of a connection: the password, under the name by which
/// `psql` looks for it.
pub open spec fn secrets_of(target: PostgresView) -> Entries {
    seq![("PGPASSWORD"@, target.password)]
}

/// The command for `psql` on this database, to be run where the database
/// is reached from: on the tunnel's host if there is a tunnel, with the
/// secrets exported there, and here if there is none, with the secrets in
/// the command's environment.
pub open spec fn psql_command(target: PostgresView, statement: Option<Seq<char>>) -> CommandView {
    let direct = CommandView {
        program: "psql"@,
        args: psql_args(target, statement),
        env: Entries::empty(),
    };
    match target.ssh_config {
        Some(ssh) => wrapped(ssh, direct, secrets_of(target)),
        None => CommandView { env: secrets_of(target), ..direct },
    }
}

/// The command that empties the database.
pub open spec fn reset_command(target: PostgresView) -> CommandView {
    psql_command(target, Some(wipe_query(target.username)))
}

/// The command that executes what it is fed.
pub open spec fn write_command(target: PostgresView) -> CommandView {
    psql_command(target, None)
}

/// The first step of `init`: the tool must be there before anything is run.
pub open spec fn init_start() -> StepView {
    StepView::FindTool("psql"@)
}

/// The step of `init` after the tool was looked up. Without the tool the
/// call fails. With it, the database is emptied if that was asked for, and
/// nothing is done otherwise.
pub open spec fn init_after_lookup(target: PostgresView, found: bool) -> StepView {
    if !found {
        StepView::Done(Err(ErrorView::ToolNotFound("psql"@)))
    } else if target.wipe_database {
        StepView::Run { command: reset_command(target), input: None }
    } else {
        StepView::Done(Ok(()))
    }
}

/// The first step of `write`: the data goes to `psql` as it is. Each write
/// stands alone. Nothing is kept from one to the next, so the same data
/// written twice is the same command run twice on the same input, and
/// whether that leaves the database as one run does is up to the statements
/// in the data.
pub open spec fn write_start(target: PostgresView, data: Seq<u8>) -> StepView {
    StepView::Run { command: write_command(target), input: Some(data) }
}

/// The step after `pending`, once `event` has come of it. The answer to a
/// lookup takes `init` on, the report of a run ends the call with the result
/// of the run. An event that is no answer to the pending step changes
/// nothing, and nothing follows the end of a call.
pub open spec fn next_step(target: PostgresView, pending: StepView, event: EventView) -> StepView {
    match (pending, event) {
        (StepView::FindTool(_), EventView::ToolLookup(found)) => init_after_lookup(target, found),
        (StepView::Run { .. }, EventView::Ran(report)) => StepView::Done(outcome_of(report)),
        _ => pending,
    }
}

/// Where `init` stands after the tool was looked up and the command that
/// was then asked for, if any, was run and reported.
pub open spec fn init_outcome(target: PostgresView, found: bool, report: ReportView) -> StepView {
    let looked_up = next_step(target, init_start(), EventView::ToolLookup(found));
    next_step(target, looked_up, EventView::Ran(report))
}

/// Where `write` stands after its command was run and reported.
pub open spec fn write_outcome(target: PostgresView, data: Seq<u8>, report: ReportView) -> StepView {
    next_step(target, write_start(target, data), EventView::Ran(report))
}

/// Every call ends: `init` after a lookup and at most one run, `write` after
/// one run.
pub proof fn lemma_calls_end(
    target: PostgresView,
    found: bool,
    data: Seq<u8>,
    report: ReportView,
)
    ensures
        init_outcome(target, found, report) is Done,
        write_outcome(target, data, report) is Done,
{
}

/// With the tool in place, `init` and a `write` after it succeed whenever
/// each process they start exits with status zero.
pub proof fn lemma_succeeds_when_runs_succeed(
    target: PostgresView,
    data: Seq<u8>,
    first: ReportView,
    second: ReportView,
)
    requires
        is_success(first),
        is_success(second),
    ensures
        init_outcome(target, true, first) == StepView::Done(Ok(())),
        write_outcome(target, data, second) == StepView::Done(Ok(())),
{
}

/// A process that cannot be started, or that ends with anything but status
/// zero (as `psql` does when the server turns the password down), fails the
/// call that ran it: `write` always, `init` where it is to empty the
/// database. The error is a spawn failure or a process failure.
pub proof fn lemma_fails_when_run_fails(target: PostgresView, data: Seq<u8>, report: ReportView)
    requires
        !is_success(report),
    ensures
        write_outcome(target, data, report) matches StepView::Done(result) && is_run_failure(
            result,
        ),
        target.wipe_database ==> (init_outcome(target, true, report) matches StepView::Done(result)
            && is_run_failure(result)),
{
}

/// `init` runs a command only to empty the database, and only where that
/// was asked for and the tool is in place; `write` never empties it: its
/// command is the same whether the database was to be emptied or not.
pub proof fn lemma_reset_only_on_init(target: PostgresView, found: bool, data: Seq<u8>)
    ensures
        init_after_lookup(target, found) is Run ==> found && target.wipe_database
            && init_after_lookup(target, found) == (StepView::Run {
            command: reset_command(target),
            input: None,
        }),
        write_start(target, data) == write_start(
            PostgresView { wipe_database: !target.wipe_database, ..target },
            data,
        ),
{
}

/// Without a tunnel the password is in the environment of each command and
/// nowhere else: program and arguments are the same whatever the password.
pub proof fn lemma_password_only_in_environment(target: PostgresView, other: Seq<char>)
    requires
        target.ssh_config is None,
    ensures
        ({
            let changed = PostgresView { password: other, ..target };
            &&& reset_command(changed).program == reset_command(target).program
            &&& reset_command(changed).args == reset_command(target).args
            &&& write_command(changed).program == write_command(target).program
            &&& write_command(changed).args == write_command(target).args
        }),
        reset_command(target).env == seq![("PGPASSWORD"@, target.password)],
        write_command(target).env == seq![("PGPASSWORD"@, target.password)],
{
}

/// Through a tunnel, the shell on the tunnel's host sets the password and
/// then starts `psql` with the arguments that it would get here, whatever
/// characters the names, the password and the statement hold.
pub proof fn lemma_tunnel_runs_the_same_command(
    target: PostgresView,
    statement: Option<Seq<char>>,
)
    requires
        target.ssh_config is Some,
    ensures
        ({
            let command = psql_command(target, statement);
            let direct = psql_command(PostgresView { ssh_config: None, ..target }, statement);
            &&& command.program == "ssh"@
            &&& command.env == Entries::empty()
            &&& command.args.len() > 0
            &&& read_line(command.args.last()) == Some(
                seq![
                    export_command("PGPASSWORD"@, target.password),
                    seq![direct.program] + direct.args,
                ],
            )
        }),
{
    let ssh = target.ssh_config->0;
    let secrets = secrets_of(target);
    let args = psql_args(target, statement);
    lemma_remote_line_reads_back("psql"@, args, secrets);
    assert(export_commands(secrets) =~= seq![export_command("PGPASSWORD"@, target.password)]);
    assert(export_commands(secrets).push(seq!["psql"@] + args) =~= seq![
        export_command("PGPASSWORD"@, target.password),
        seq!["psql"@] + args,
    ]);
    assert(ssh_args(ssh, remote_line("psql"@, args, secrets)).last() == remote_line(
        "psql"@,
        args,
        secrets,
    ));
}

impl<'a> Postgres<'a> {
    /// A connector for `database` on `host:port`, logged in to as
    /// `username` with `password`. With `wipe_database`, `init` empties the
    /// database first. With `ssh_config`, `psql` is run on that host in
    /// place of this one.
    pub fn new(
        host: &'a str,
        port: u16,
        database: &'a str,
        username: &'a str,
        password: &'a str,
        wipe_database: bool,
        ssh_config: Option<SshConfig>,
    ) -> (postgres: Self)
        ensures
            postgres@ == (PostgresView {
                host: host@,
                port,
                database: database@,
                username: username@,
                password: password@,
                wipe_database,
                ssh_config: tunnel_view(ssh_config),
            }),
    {
        Postgres { host, port, database, username, password, wipe_database, ssh_config }
    }

    fn command(&self, statement: Option<&str>) -> (command: CommandSpec)
        ensures
            command@ == psql_command(
                self@,
                match statement {
                    Some(text) => Some(text@),
                    None => None,
                },
            ),
    {
        let s_port = decimal_string(self.port);

        let mut psql_cmd = CommandSpec::new("psql");
        psql_cmd.arg("-h");
        psql_cmd.arg(self.host);
        psql_cmd.arg("-p");
        psql_cmd.arg(s_port.as_str());
        psql_cmd.arg("-d");
        psql_cmd.arg(self.database);
        psql_cmd.arg("-U");
        psql_cmd.arg(self.username);
        match statement {
            Some(text) => {
                psql_cmd.arg("-c");
                psql_cmd.arg(text);
            },
            None => {},
        }
        assert(psql_cmd@.args =~= psql_args(
            self@,
            match statement {
                Some(text) => Some(text@),
                None => None,
            },
        ));

        let mut envs = SecretEnvironment::new();
        envs.insert("PGPASSWORD", self.password);
        assert(envs@ =~= secrets_of(self@));

        match &self.ssh_config {
            Some(ssh_config) => ssh_config.ssh_command(&psql_cmd, &envs),
            None => {
                psql_cmd.envs(&envs);
                assert(merged(Entries::empty(), envs@) =~= envs@) by {
                    reveal_with_fuel(merged, 2);
                    assert(envs@.drop_last() =~= Entries::empty());
                }
                psql_cmd
            },
        }
    }

    /// The command that `init` runs to empty the database.
    pub fn reset_command(&self) -> (command: CommandSpec)
        ensures
            command@ == reset_command(self@),
    {
        let wipe_db_query = wipe_database_query(self.username);
        self.command(Some(wipe_db_query.as_str()))
    }

    /// The command that `write` runs and feeds the data to.
    pub fn write_command(&self) -> (command: CommandSpec)
        ensures
            command@ == write_command(self@),
    {
        self.command(None)
    }

    /// Begins `init`.
    pub fn start_init(&self) -> (step: Step)
        ensures
            step@ == init_start(),
    {
        Step::FindTool(String::from_str("psql"))
    }

    /// Goes on with `init` once it is known whether the tool was found.
    pub fn resume_init(&self, found: bool) -> (step: Step)
        ensures
            step@ == init_after_lookup(self@, found),
    {
        if !found {
            Step::Done(Err(ProcessError::ToolNotFound(String::from_str("psql"))))
        } else if self.wipe_database {
            Step::Run { command: self.reset_command(), input: None }
        } else {
            Step::Done(Ok(()))
        }
    }

    /// Takes a call on: `pending` is the step that was asked for, `event`
    /// what came of it.
    pub fn advance(&self, pending: Step, event: Event) -> (step: Step)
        ensures
            step@ == next_step(self@, pending@, event@),
    {
        match (pending, event) {
            (Step::FindTool(_), Event::ToolLookup(found)) => self.resume_init(found),
            (Step::Run { .. }, Event::Ran(report)) => finish(report),
            (pending, _) => pending,
        }
    }

    /// Begins `write`.
    pub fn start_write(&self, data: Vec<u8>) -> (step: Step)
        ensures
            step@ == write_start(self@, data@),
    {
        Step::Run { command: self.write_command(), input: Some(data) }
    }
}

/// Writes the statement that empties a database for `username`.
pub fn wipe_database_query(username: &str) -> (query: String)
    ensures
        query@ == wipe_query(username@),
{
    let mut query = String::from_str(
        "DROP SCHEMA public CASCADE; CREATE SCHEMA public; GRANT ALL ON SCHEMA public TO \"",
    );
    query.append(username);
    query.append("\"; GRANT ALL ON SCHEMA public TO public;");
    query
}

} // verus!
