//! The trusted host through which commands are run in place of the local
//! machine, and the wrapping of a command for it.

use crate::command::{CommandSpec, CommandView, Entries, SecretEnvironment};
use crate::shell::{
    lemma_scan_concat, lemma_scan_literal, lemma_scan_one, lemma_scan_quoted,
    lemma_scan_quoted_words, quote, quote_words, quoted, quoted_words, read_line, Mode, Reader,
};
use crate::text::{decimal, decimal_string};
use vstd::prelude::*;

verus! {

/// How to reach the trusted host: its address and SSH port, the account to
/// log in to (the transport's default if none), and the private key to log
/// in with (the transport's default if none).
#[derive(Debug, PartialEq, Eq)]
pub struct SshConfig {
    pub host: String,
    pub port: u16,
    pub username: Option<String>,
    pub identity_file: Option<String>,
}

/// What an [`SshConfig`] holds, as mathematical values.
pub struct SshView {
    pub host: Seq<char>,
    pub port: u16,
    pub username: Option<Seq<char>>,
    pub identity_file: Option<Seq<char>>,
}

/// The view of an optional string.
pub open spec fn option_view(s: Option<String>) -> Option<Seq<char>> {
    match s {
        Some(s) => Some(s@),
        None => None,
    }
}

impl View for SshConfig {
    type V = SshView;

    open spec fn view(&self) -> SshView {
        SshView {
            host: self.host@,
            port: self.port,
            username: option_view(self.username),
            identity_file: option_view(self.identity_file),
        }
    }
}

/// The statement that sets `name` to `value` in the remote shell and hands
/// it on to the programs started from there.
pub open spec fn export_statement(name: Seq<char>, value: Seq<char>) -> Seq<char> {
    "export "@ + quoted(name) + "="@ + quoted(value) + "; "@
}

/// The export statements for all entries, in order.
pub open spec fn exports(secrets: Entries) -> Seq<char>
    decreases secrets.len(),
{
    if secrets.len() == 0 {
        Seq::empty()
    } else {
        exports(secrets.drop_last()) + export_statement(secrets.last().0, secrets.last().1)
    }
}

/// The line handed to the remote shell: the secrets are exported, then the
/// program is started with its arguments.
pub open spec fn remote_line(program: Seq<char>, args: Seq<Seq<char>>, secrets: Entries) -> Seq<
    char,
> {
    exports(secrets) + quoted_words(seq![program] + args)
}

/// Where the transport client connects to: `user@host`, or the host alone.
pub open spec fn destination(ssh: SshView) -> Seq<char> {
    match ssh.username {
        Some(user) => user + "@"@ + ssh.host,
        None => ssh.host,
    }
}

/// The arguments of the transport client: port, key if any, end of options,
/// destination, and the remote line as one argument.
pub open spec fn ssh_args(ssh: SshView, line: Seq<char>) -> Seq<Seq<char>> {
    let key = match ssh.identity_file {
        Some(path) => seq!["-i"@, path],
        None => Seq::empty(),
    };
    seq!["-p"@, decimal(ssh.port as nat)] + key + seq!["--"@, destination(ssh), line]
}

/// The command that runs `command` on the host of `ssh` with `secrets` in
/// its environment there. Nothing is set in the environment of the transport
/// client itself.
pub open spec fn wrapped(ssh: SshView, command: CommandView, secrets: Entries) -> CommandView {
    CommandView {
        program: "ssh"@,
        args: ssh_args(ssh, remote_line(command.program, command.args, secrets)),
        env: Entries::empty(),
    }
}

/// The words of the command that sets `name` to `value` in a shell.
pub open spec fn export_command(name: Seq<char>, value: Seq<char>) -> Seq<Seq<char>> {
    seq!["export"@, name + "="@ + value]
}

/// The commands that set all entries, in order.
pub open spec fn export_commands(secrets: Entries) -> Seq<Seq<Seq<char>>> {
    Seq::new(secrets.len(), |i: int| export_command(secrets[i].0, secrets[i].1))
}

/// Between commands, a shell reads an export statement as one complete
/// command: `export`, and the assignment as a single word.
pub proof fn lemma_scan_export(reader: Reader, name: Seq<char>, value: Seq<char>)
    requires
        reader.mode == Mode::Bare,
        reader.word is None,
        reader.words.len() == 0,
    ensures
        reader.scan(export_statement(name, value)) == Some(
            Reader { commands: reader.commands.push(export_command(name, value)), ..reader },
        ),
{
    reveal_strlit("export ");
    reveal_strlit("export");
    reveal_strlit("=");
    reveal_strlit("; ");
    let keyword = "export"@;
    let assignment = name + "="@ + value;
    let r1 = reader.put(keyword, Mode::Bare);
    let r2 = r1.end_word();
    let r3 = r2.put(name, Mode::Bare);
    let r4 = r3.put(seq!['='], Mode::Bare);
    let r5 = r4.put(value, Mode::Bare);
    let r6 = Reader { commands: reader.commands.push(export_command(name, value)), ..reader };

    let t1 = keyword;
    let t2 = t1 + seq![' '];
    let t3 = t2 + quoted(name);
    let t4 = t3 + seq!['='];
    let t5 = t4 + quoted(value);
    let t6 = t5 + seq![';'];
    let t7 = t6 + seq![' '];
    assert(t2 =~= "export "@);
    assert(export_statement(name, value) =~= t7);

    lemma_scan_literal(reader, t1);
    lemma_scan_one(r1, ' ');
    lemma_scan_concat(reader, t1, seq![' ']);
    lemma_scan_quoted(r2, name);
    lemma_scan_concat(reader, t2, quoted(name));
    lemma_scan_one(r3, '=');
    lemma_scan_concat(reader, t3, seq!['=']);
    lemma_scan_quoted(r4, value);
    lemma_scan_concat(reader, t4, quoted(value));
    assert(r5.pending() =~= assignment);
    assert(reader.pending() + keyword =~= keyword);
    assert(reader.words =~= Seq::<Seq<char>>::empty());
    assert(r5.end_word().words =~= export_command(name, value));
    lemma_scan_one(r5, ';');
    lemma_scan_concat(reader, t5, seq![';']);
    assert(r5.step(';') == Some(r6));
    lemma_scan_one(r6, ' ');
    lemma_scan_concat(reader, t6, seq![' ']);
}

/// Between commands, a shell reads the export statements as one complete
/// command for each entry.
pub proof fn lemma_scan_exports(reader: Reader, secrets: Entries)
    requires
        reader.mode == Mode::Bare,
        reader.word is None,
        reader.words.len() == 0,
    ensures
        reader.scan(exports(secrets)) == Some(
            Reader { commands: reader.commands + export_commands(secrets), ..reader },
        ),
    decreases secrets.len(),
{
    if secrets.len() == 0 {
        assert(reader.commands + export_commands(secrets) =~= reader.commands);
    } else {
        let front = secrets.drop_last();
        let last = secrets.last();
        let mid = Reader { commands: reader.commands + export_commands(front), ..reader };
        lemma_scan_exports(reader, front);
        lemma_scan_export(mid, last.0, last.1);
        lemma_scan_concat(reader, exports(front), export_statement(last.0, last.1));
        assert(mid.commands.push(export_command(last.0, last.1)) =~= reader.commands
            + export_commands(secrets));
    }
}

/// The remote line does what it is written for, whatever the secrets, the
/// program's name and the arguments hold: the shell that reads it sets each
/// secret, in order, and then starts the program with exactly the given
/// arguments. No character of any of them is taken for anything but itself.
pub proof fn lemma_remote_line_reads_back(
    program: Seq<char>,
    args: Seq<Seq<char>>,
    secrets: Entries,
)
    ensures
        read_line(remote_line(program, args, secrets)) == Some(
            export_commands(secrets).push(seq![program] + args),
        ),
{
    let start = Reader::start();
    let words = seq![program] + args;
    let mid = Reader { commands: start.commands + export_commands(secrets), ..start };
    let end = Reader { words: mid.words + words.drop_last(), word: Some(words.last()), ..mid };
    lemma_scan_exports(start, secrets);
    lemma_scan_quoted_words(mid, words);
    lemma_scan_concat(start, exports(secrets), quoted_words(words));
    assert(mid.commands =~= export_commands(secrets));
    assert(end.end_word().words =~= words);
}

impl SshConfig {
    /// A host reached on `port` with the transport's default account and key.
    pub fn new(host: &str, port: u16) -> (ssh: Self)
        ensures
            ssh@ == (SshView { host: host@, port, username: None, identity_file: None }),
    {
        SshConfig { host: String::from_str(host), port, username: None, identity_file: None }
    }

    fn export_line(secrets: &SecretEnvironment) -> (line: String)
        ensures
            line@ == exports(secrets@),
    {
        let mut line = String::new();
        let n = secrets.len();
        let mut i: usize = 0;
        assert(secrets@.take(0) =~= Entries::empty());
        while i < n
            invariant
                n == secrets@.len(),
                i <= n,
                line@ == exports(secrets@.take(i as int)),
            decreases n - i,
        {
            proof {
                let next = secrets@.take(i + 1);
                assert(next.drop_last() =~= secrets@.take(i as int));
                assert(next.last() == secrets@[i as int]);
            }
            let name = quote(secrets.name_at(i));
            let value = quote(secrets.value_at(i));
            line.append("export ");
            line.append(name.as_str());
            line.append("=");
            line.append(value.as_str());
            line.append("; ");
            i += 1;
        }
        assert(secrets@.take(n as int) =~= secrets@);
        line
    }

    fn destination(&self) -> (dest: String)
        ensures
            dest@ == destination(self@),
    {
        match &self.username {
            Some(user) => {
                let mut dest = user.clone();
                dest.append("@");
                dest.append(self.host.as_str());
                dest
            },
            None => self.host.clone(),
        }
    }

    /// Wraps `command` so that it runs on this host: the result starts the
    /// transport client, which has the remote shell export `secrets` and then
    /// start the program of `command` with its arguments. Every word of the
    /// remote line is quoted for that shell. Of the environment, only
    /// `secrets` reach the remote process: what `command` holds for its own
    /// is not carried over.
    pub fn ssh_command(&self, command: &CommandSpec, secrets: &SecretEnvironment) -> (wrapper:
        CommandSpec)
        ensures
            wrapper@ == wrapped(self@, command@, secrets@),
            wrapper.env.wf(),
    {
        let mut line = Self::export_line(secrets);
        let words = quote_words(command.program.as_str(), &command.args);
        line.append(words.as_str());
        let port = decimal_string(self.port);
        let dest = self.destination();

        let mut wrapper = CommandSpec::new("ssh");
        wrapper.arg("-p");
        wrapper.arg(port.as_str());
        match &self.identity_file {
            Some(path) => {
                wrapper.arg("-i");
                wrapper.arg(path.as_str());
            },
            None => {},
        }
        wrapper.arg("--");
        wrapper.arg(dest.as_str());
        wrapper.arg(line.as_str());
        assert(wrapper@.args =~= ssh_args(self@, line@));
        wrapper
    }
}

} // verus!
