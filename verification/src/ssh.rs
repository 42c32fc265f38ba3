//! The commands that reach a sandbox through SSH.
use vstd::prelude::*;

use crate::lines;
use crate::numbers;
use crate::numbers::to_decimal;
use crate::shell;
use crate::shell::{shell_escape, shell_join};
use crate::text;
use crate::text::join_strings;

verus! {

/// What the server grants for one SSH session.
#[derive(Debug)]
pub struct SshSession {
    pub sandbox_id: String,
    pub token: String,
    pub gateway_scheme: String,
    pub gateway_host: String,
    pub gateway_port: u32,
    pub connect_path: String,
}

/// The gateway through which a session goes.
pub open spec fn gateway_url(session: SshSession) -> Seq<char> {
    session.gateway_scheme@ + "://"@ + session.gateway_host@ + ":"@ + numbers::decimal(
        session.gateway_port as nat,
    ) + session.connect_path@
}

/// The parts of the command that SSH runs to reach the gateway.
pub open spec fn proxy_parts(exe: Seq<char>, session: SshSession) -> Seq<Seq<char>> {
    seq![
        shell::escaped(exe),
        "ssh-proxy"@,
        "--gateway"@,
        gateway_url(session),
        "--sandbox-id"@,
        session.sandbox_id@,
        "--token"@,
        session.token@,
    ]
}

/// The command that SSH runs to reach the gateway.
pub open spec fn proxy_command(exe: Seq<char>, session: SshSession) -> Seq<char> {
    text::join(proxy_parts(exe, session), " "@)
}

/// The command that SSH runs to reach the gateway: this program, as its proxy.
pub fn ssh_session_config(exe: &str, session: &SshSession) -> (r: String)
    ensures
        r@ == proxy_command(exe@, *session),
        exists|port: Seq<char>| #[trigger]
            numbers::value(port) == session.gateway_port && (forall|i: int|
                0 <= i < port.len() ==> '0' <= #[trigger] port[i] <= '9') && r@ == shell::escaped(
                exe@,
            ) + " ssh-proxy --gateway "@ + session.gateway_scheme@ + "://"@ + session.gateway_host@
                + ":"@ + port + session.connect_path@ + " --sandbox-id "@ + session.sandbox_id@
                + " --token "@ + session.token@,
{
    proof {
        law_proxy_command_in_full(exe@, *session);
    }
    let url = session.gateway_scheme.clone().concat("://").concat(
        session.gateway_host.as_str(),
    ).concat(":").concat(to_decimal(session.gateway_port).as_str()).concat(
        session.connect_path.as_str(),
    );
    let parts: Vec<String> = vec![
        shell_escape(exe),
        "ssh-proxy".to_string(),
        "--gateway".to_string(),
        url,
        "--sandbox-id".to_string(),
        session.sandbox_id.clone(),
        "--token".to_string(),
        session.token.clone(),
    ];
    assert(text::views(parts@) =~= proxy_parts(exe@, *session));
    join_strings(&parts, " ")
}

/// Whether a text is made of characters that a shell takes as they are.
pub open spec fn plain(s: Seq<char>) -> bool {
    forall|i: int| 0 <= i < s.len() ==> shell::ordinary(#[trigger] s[i])
}

/// Whether what the server grants needs no quotes.
pub open spec fn plain_session(session: SshSession) -> bool {
    &&& session.sandbox_id@.len() > 0 && plain(session.sandbox_id@)
    &&& session.token@.len() > 0 && plain(session.token@)
    &&& plain(session.gateway_scheme@)
    &&& plain(session.gateway_host@)
    &&& plain(session.connect_path@)
}

/// The shell that runs the proxy's command hands it the gateway, the sandbox and
/// the token as they were granted, wherever this program is kept. This is the shell
/// alone: what the SSH client makes of a percent sign in the command, before the
/// shell reads it, is not part of it.
pub proof fn law_proxy_command_gives_the_session_back(exe: Seq<char>, session: SshSession)
    requires
        plain_session(session),
    ensures
        shell::shell_words(proxy_command(exe, session)) == Some(
            seq![
                exe,
                "ssh-proxy"@,
                "--gateway"@,
                gateway_url(session),
                "--sandbox-id"@,
                session.sandbox_id@,
                "--token"@,
                session.token@,
            ],
        ),
{
    let pieces = proxy_parts(exe, session);
    let words = pieces.update(0, exe);
    assert(words =~= seq![
        exe,
        "ssh-proxy"@,
        "--gateway"@,
        gateway_url(session),
        "--sandbox-id"@,
        session.sandbox_id@,
        "--token"@,
        session.token@,
    ]);
    reveal_strlit("ssh-proxy");
    reveal_strlit("--gateway");
    reveal_strlit("--sandbox-id");
    reveal_strlit("--token");
    reveal_strlit("://");
    reveal_strlit(":");
    let url = gateway_url(session);
    let port = numbers::decimal(session.gateway_port as nat);
    numbers::lemma_decimal(session.gateway_port as nat);
    assert forall|i: int| 0 <= i < port.len() implies shell::ordinary(#[trigger] port[i]) by {
        assert(numbers::is_digit(port[i]));
    }
    let u1 = session.gateway_scheme@ + "://"@;
    let u2 = u1 + session.gateway_host@;
    let u3 = u2 + ":"@;
    let u4 = u3 + port;
    assert(plain("://"@) && plain(":"@));
    lemma_plain_sum(session.gateway_scheme@, "://"@);
    lemma_plain_sum(u1, session.gateway_host@);
    lemma_plain_sum(u2, ":"@);
    lemma_plain_sum(u3, port);
    lemma_plain_sum(u4, session.connect_path@);
    assert(url.len() > 0);
    shell::lemma_escaped_reads(exe);
    assert forall|i: int| 0 <= i < pieces.len() implies shell::reads_as(
        #[trigger] pieces[i],
        words[i],
    ) by {
        if i > 0 {
            assert(plain("ssh-proxy"@) && plain("--gateway"@) && plain("--sandbox-id"@) && plain(
                "--token"@,
            ));
            assert(plain(pieces[i]) && pieces[i].len() > 0);
            shell::lemma_ordinary_reads(pieces[i]);
        }
    }
    shell::lemma_words_of_join(pieces, words);
}

proof fn lemma_plain_sum(one: Seq<char>, other: Seq<char>)
    requires
        plain(one),
        plain(other),
    ensures
        plain(one + other),
{
    assert forall|i: int| 0 <= i < (one + other).len() implies shell::ordinary(
        #[trigger] (one + other)[i],
    ) by {
        if i < one.len() {
            assert((one + other)[i] == one[i]);
        } else {
            assert((one + other)[i] == other[i - one.len()]);
        }
    }
}

/// A program to run, with its arguments.
#[derive(Debug)]
pub struct CommandLine {
    pub program: String,
    pub args: Vec<String>,
}

/// What a command line holds.
#[verifier::ext_equal]
pub struct CommandView {
    pub program: Seq<char>,
    pub args: Seq<Seq<char>>,
}

impl View for CommandLine {
    type V = CommandView;

    open spec fn view(&self) -> CommandView {
        CommandView { program: self.program@, args: text::views(self.args@) }
    }
}

/// The options with which every SSH client is called: it goes through the proxy,
/// and neither asks for nor keeps the host keys of sandboxes, which change.
pub open spec fn base_options(proxy_command: Seq<char>) -> Seq<Seq<char>> {
    seq![
        "-o"@,
        "ProxyCommand="@ + proxy_command,
        "-o"@,
        "StrictHostKeyChecking=no"@,
        "-o"@,
        "UserKnownHostsFile=/dev/null"@,
        "-o"@,
        "GlobalKnownHostsFile=/dev/null"@,
    ]
}

/// What is asked of a sandbox: the arguments of the SSH client that stand behind
/// the options that every client has.
#[derive(Debug)]
pub struct SandboxCall {
    pub args: Vec<String>,
}

/// The SSH client that puts a call to the sandbox.
pub fn ssh_base_command(proxy_command: &str, call: SandboxCall) -> (r: CommandLine)
    ensures
        r@ == (CommandView {
            program: "ssh"@,
            args: base_options(proxy_command@) + text::views(call.args@),
        }),
        r.program@ == "ssh"@,
        text::views(r.args@) == seq![
            "-o"@,
            "ProxyCommand="@ + proxy_command@,
            "-o"@,
            "StrictHostKeyChecking=no"@,
            "-o"@,
            "UserKnownHostsFile=/dev/null"@,
            "-o"@,
            "GlobalKnownHostsFile=/dev/null"@,
        ] + text::views(call.args@),
{
    let mut args: Vec<String> = vec![
        "-o".to_string(),
        "ProxyCommand=".to_string().concat(proxy_command),
        "-o".to_string(),
        "StrictHostKeyChecking=no".to_string(),
        "-o".to_string(),
        "UserKnownHostsFile=/dev/null".to_string(),
        "-o".to_string(),
        "GlobalKnownHostsFile=/dev/null".to_string(),
    ];
    let ghost front = args@;
    let mut more = call.args;
    args.append(&mut more);
    assert(text::views(front) =~= base_options(proxy_command@));
    assert(text::views(args@) =~= text::views(front) + text::views(call.args@));
    CommandLine { program: "ssh".to_string(), args }
}

/// The options that ask for a terminal.
pub open spec fn terminal_options() -> Seq<Seq<char>> {
    seq!["-tt"@, "-o"@, "RequestTTY=force"@, "-o"@, "SetEnv=TERM=xterm-256color"@]
}

/// The options that ask for none.
pub open spec fn no_terminal_options() -> Seq<Seq<char>> {
    seq!["-T"@, "-o"@, "RequestTTY=no"@]
}

/// The options that ask for a terminal, or for none.
fn tty_options(tty: bool) -> (r: Vec<String>)
    ensures
        text::views(r@) == if tty {
            terminal_options()
        } else {
            no_terminal_options()
        },
{
    if tty {
        let r: Vec<String> = vec![
            "-tt".to_string(),
            "-o".to_string(),
            "RequestTTY=force".to_string(),
            "-o".to_string(),
            "SetEnv=TERM=xterm-256color".to_string(),
        ];
        assert(text::views(r@) =~= terminal_options());
        r
    } else {
        let r: Vec<String> = vec![
            "-T".to_string(),
            "-o".to_string(),
            "RequestTTY=no".to_string(),
        ];
        assert(text::views(r@) =~= no_terminal_options());
        r
    }
}

/// The call for a shell in the sandbox.
pub fn sandbox_connect() -> (r: SandboxCall)
    ensures
        text::views(r.args@) == terminal_options().push("sandbox"@),
        text::views(r.args@) == seq![
            "-tt"@,
            "-o"@,
            "RequestTTY=force"@,
            "-o"@,
            "SetEnv=TERM=xterm-256color"@,
            "sandbox"@,
        ],
{
    let mut args = tty_options(true);
    let ghost front = args@;
    args.push("sandbox".to_string());
    assert(text::views(args@) =~= text::views(front).push("sandbox"@));
    SandboxCall { args }
}

/// There is no command to run.
#[derive(Debug)]
pub struct NoCommand;

impl NoCommand {
    /// What is said of it.
    pub fn message(&self) -> (r: &'static str)
        ensures
            r@ == "no command provided"@,
    {
        "no command provided"
    }
}

/// The call for a command in the sandbox.
pub fn sandbox_exec(command: &[String], tty: bool) -> (r: Result<SandboxCall, NoCommand>)
    ensures
        match r {
            Ok(call) => command@.len() > 0 && text::views(call.args@) == (if tty {
                terminal_options()
            } else {
                no_terminal_options()
            }).push("sandbox"@).push(shell::command_line(text::views(command@))),
            Err(_) => command@.len() == 0,
        },
        r matches Ok(call) ==> {
            &&& tty ==> text::views(call.args@) == seq![
                "-tt"@,
                "-o"@,
                "RequestTTY=force"@,
                "-o"@,
                "SetEnv=TERM=xterm-256color"@,
                "sandbox"@,
                shell::command_line(text::views(command@)),
            ]
            &&& !tty ==> text::views(call.args@) == seq![
                "-T"@,
                "-o"@,
                "RequestTTY=no"@,
                "sandbox"@,
                shell::command_line(text::views(command@)),
            ]
        },
{
    if command.len() == 0 {
        return Err(NoCommand);
    }
    let mut args = tty_options(tty);
    let ghost front = args@;
    args.push("sandbox".to_string());
    args.push(shell_join(command));
    assert(text::views(args@) =~= text::views(front).push("sandbox"@).push(
        shell::command_line(text::views(command@)),
    ));
    Ok(SandboxCall { args })
}

/// The shell in the sandbox gets the command as it was given, word for word, as
/// the last argument that the SSH client hands over.
pub proof fn law_sandbox_runs_the_command(command: Seq<Seq<char>>, tty: bool)
    ensures
        ({
            let args = (if tty {
                terminal_options()
            } else {
                no_terminal_options()
            }).push("sandbox"@).push(shell::command_line(command));
            shell::shell_words(args.last()) == Some(command)
        }),
{
    shell::law_command_line_gives_the_arguments_back(command);
}

/// The remote shell that rsync uses, in parts.
pub open spec fn remote_shell_parts(proxy_command: Seq<char>) -> Seq<Seq<char>> {
    seq![
        "ssh"@,
        "-o"@,
        shell::escaped("ProxyCommand="@ + proxy_command),
        "-o"@,
        "StrictHostKeyChecking=no"@,
        "-o"@,
        "UserKnownHostsFile=/dev/null"@,
        "-o"@,
        "GlobalKnownHostsFile=/dev/null"@,
    ]
}

/// The remote shell that rsync uses.
pub open spec fn remote_shell(proxy_command: Seq<char>) -> Seq<char> {
    text::join(remote_shell_parts(proxy_command), " "@)
}

/// The rsync that copies the files of a list into the sandbox, each below the
/// path by which it is listed.
pub fn rsync_command(proxy_command: &str) -> (r: CommandLine)
    ensures
        r@ == (CommandView {
            program: "rsync"@,
            args: seq![
                "-az"@,
                "--from0"@,
                "--files-from=-"@,
                "--relative"@,
                "-e"@,
                remote_shell(proxy_command@),
                "."@,
                "sandbox:/sandbox"@,
            ],
        }),
        r.program@ == "rsync"@,
        r.args@.len() == 8,
        r.args@[0]@ == "-az"@ && r.args@[1]@ == "--from0"@ && r.args@[2]@ == "--files-from=-"@,
        r.args@[3]@ == "--relative"@ && r.args@[4]@ == "-e"@,
        r.args@[5]@ == remote_shell(proxy_command@),
        r.args@[6]@ == "."@ && r.args@[7]@ == "sandbox:/sandbox"@,
        text::views(r.args@)[5] == "ssh -o "@ + shell::escaped("ProxyCommand="@ + proxy_command@)
            + " -o StrictHostKeyChecking=no -o UserKnownHostsFile=/dev/null -o GlobalKnownHostsFile=/dev/null"@,
{
    proof {
        law_remote_shell_in_full(proxy_command@);
    }
    let parts: Vec<String> = vec![
        "ssh".to_string(),
        "-o".to_string(),
        shell_escape("ProxyCommand=".to_string().concat(proxy_command).as_str()),
        "-o".to_string(),
        "StrictHostKeyChecking=no".to_string(),
        "-o".to_string(),
        "UserKnownHostsFile=/dev/null".to_string(),
        "-o".to_string(),
        "GlobalKnownHostsFile=/dev/null".to_string(),
    ];
    assert(text::views(parts@) =~= remote_shell_parts(proxy_command@));
    let args: Vec<String> = vec![
        "-az".to_string(),
        "--from0".to_string(),
        "--files-from=-".to_string(),
        "--relative".to_string(),
        "-e".to_string(),
        join_strings(&parts, " "),
        ".".to_string(),
        "sandbox:/sandbox".to_string(),
    ];
    assert(text::views(args@) =~= seq![
        "-az"@,
        "--from0"@,
        "--files-from=-"@,
        "--relative"@,
        "-e"@,
        remote_shell(proxy_command@),
        "."@,
        "sandbox:/sandbox"@,
    ]);
    proof {
        assert(text::views(args@)[0] == args@[0]@ && text::views(args@)[1] == args@[1]@);
        assert(text::views(args@)[2] == args@[2]@ && text::views(args@)[3] == args@[3]@);
        assert(text::views(args@)[4] == args@[4]@ && text::views(args@)[5] == args@[5]@);
        assert(text::views(args@)[6] == args@[6]@ && text::views(args@)[7] == args@[7]@);
    }
    CommandLine { program: "rsync".to_string(), args }
}

/// The remote shell of rsync is the SSH client with the options that every client
/// has.
pub proof fn law_rsync_uses_the_same_client(proxy_command: Seq<char>)
    ensures
        shell::shell_words(remote_shell(proxy_command)) == Some(
            seq!["ssh"@] + base_options(proxy_command),
        ),
{
    let pieces = remote_shell_parts(proxy_command);
    let words = seq!["ssh"@] + base_options(proxy_command);
    reveal_strlit("ssh");
    reveal_strlit("-o");
    reveal_strlit("StrictHostKeyChecking=no");
    reveal_strlit("UserKnownHostsFile=/dev/null");
    reveal_strlit("GlobalKnownHostsFile=/dev/null");
    assert(plain("ssh"@) && plain("-o"@));
    assert(plain("StrictHostKeyChecking=no"@));
    assert(plain("UserKnownHostsFile=/dev/null"@));
    assert(plain("GlobalKnownHostsFile=/dev/null"@));
    shell::lemma_escaped_reads("ProxyCommand="@ + proxy_command);
    assert forall|i: int| 0 <= i < pieces.len() implies shell::reads_as(
        #[trigger] pieces[i],
        words[i],
    ) by {
        if i != 2 {
            assert(plain(pieces[i]) && pieces[i].len() > 0);
            assert(words[i] == pieces[i]);
            shell::lemma_ordinary_reads(pieces[i]);
        }
    }
    shell::lemma_words_of_join(pieces, words);
}

/// The list of files that rsync reads: each path, relative to the present
/// directory, with a null character behind it.
pub open spec fn file_list(files: Seq<Seq<char>>) -> Seq<char>
    decreases files.len(),
{
    if files.len() == 0 {
        seq![]
    } else {
        file_list(files.drop_last()) + "./"@ + files.last() + "\0"@
    }
}

/// The list of files that rsync reads; `None` where there is nothing to copy.
pub fn sandbox_rsync(files: &[String]) -> (r: Option<String>)
    ensures
        match r {
            Some(list) => files@.len() > 0 && list@ == file_list(text::views(files@)),
            None => files@.len() == 0,
        },
{
    if files.len() == 0 {
        return None;
    }
    let ghost all = text::views(files@);
    let mut list = String::new();
    let mut i: usize = 0;
    assert(all.take(0) =~= Seq::<Seq<char>>::empty());
    while i < files.len()
        invariant
            i <= files@.len(),
            all == text::views(files@),
            list@ == file_list(all.take(i as int)),
        decreases files@.len() - i,
    {
        list.append("./");
        list.append(files[i].as_str());
        list.append("\0");
        proof {
            assert(all.take(i + 1).drop_last() =~= all.take(i as int));
            assert(all.take(i + 1).last() == files@[i as int]@);
        }
        i = i + 1;
    }
    assert(all.take(i as int) =~= all);
    Some(list)
}

/// What stands before each null character of a list.
pub open spec fn listed(list: Seq<char>) -> Seq<Seq<char>>
    decreases list.len(),
{
    let n = text::find(list, '\0') as int;
    if n >= list.len() {
        seq![]
    } else {
        seq![list.take(n)] + listed(list.skip(n + 1))
    }
}

/// Reading the list gives the files back, each below the present directory.
pub proof fn law_file_list_gives_the_files_back(files: Seq<Seq<char>>)
    requires
        forall|i: int| 0 <= i < files.len() ==> !(#[trigger] files[i]).contains('\0'),
    ensures
        listed(file_list(files)) == files.map_values(|file: Seq<char>| "./"@ + file),
    decreases files.len(),
{
    if files.len() == 0 {
        assert(listed(file_list(files)) =~= Seq::<Seq<char>>::empty());
    } else {
        let front = files.drop_last();
        assert forall|i: int| 0 <= i < front.len() implies !(#[trigger] front[i]).contains('\0') by {
            assert(front[i] == files[i]);
        }
        law_file_list_gives_the_files_back(front);
        reveal_strlit("./");
        reveal_strlit("\0");
        let entry = "./"@ + files.last();
        assert(!files.last().contains('\0'));
        assert forall|i: int| 0 <= i < entry.len() implies #[trigger] entry[i] != '\0' by {
            if i >= 2 {
                assert(entry[i] == files.last()[i - 2]);
                assert(files.last().contains(files.last()[i - 2]));
            }
        }
        assert(file_list(files) =~= file_list(front) + entry + "\0"@);
        lemma_list_ends(front);
        lemma_listed_push(file_list(front), entry);
        assert(files.map_values(|file: Seq<char>| "./"@ + file) =~= front.map_values(
            |file: Seq<char>| "./"@ + file,
        ).push(entry));
    }
}

/// A list is empty or ends in a null character.
proof fn lemma_list_ends(files: Seq<Seq<char>>)
    ensures
        file_list(files).len() == 0 || file_list(files).last() == '\0',
{
    reveal_strlit("\0");
}

/// An entry behind a list is listed behind the others.
proof fn lemma_listed_push(list: Seq<char>, entry: Seq<char>)
    requires
        list.len() == 0 || list.last() == '\0',
        forall|i: int| 0 <= i < entry.len() ==> #[trigger] entry[i] != '\0',
    ensures
        listed(list + entry + "\0"@) == listed(list).push(entry),
    decreases list.len(),
{
    reveal_strlit("\0");
    let whole = list + entry + "\0"@;
    let empty = Seq::<char>::empty();
    if list.len() == 0 {
        assert(whole =~= entry + seq!['\0'] + empty);
        lines::lemma_find_behind(entry, '\0', empty);
        assert(whole.take(entry.len() as int) =~= entry);
        assert(whole.skip(entry.len() as int + 1) =~= empty);
        assert(listed(empty) =~= Seq::<Seq<char>>::empty());
        assert(listed(list) =~= Seq::<Seq<char>>::empty());
        assert(listed(whole) =~= seq![entry]);
    } else {
        lemma_find_first(list, entry + "\0"@);
        assert(whole =~= list + (entry + "\0"@));
        let n = text::find(list, '\0') as int;
        let rest = list.skip(n + 1);
        assert(whole.take(n) =~= list.take(n));
        assert(whole.skip(n + 1) =~= rest + entry + "\0"@);
        if rest.len() > 0 {
            assert(rest.last() == list.last());
        }
        lemma_listed_push(rest, entry);
        assert(listed(whole) =~= listed(list).push(entry));
    }
}

/// What stands behind a list that ends in a null character is not where the first
/// one is found.
proof fn lemma_find_first(list: Seq<char>, rest: Seq<char>)
    requires
        list.len() > 0,
        list.last() == '\0',
    ensures
        text::find(list, '\0') < list.len(),
        text::find(list + rest, '\0') == text::find(list, '\0'),
    decreases list.len(),
{
    assert((list + rest)[0] == list[0]);
    if list[0] != '\0' {
        assert(list.skip(1).last() == list.last());
        assert((list + rest).skip(1) =~= list.skip(1) + rest);
        lemma_find_first(list.skip(1), rest);
    }
}

/// The word behind `--gateway` is made of what was granted: the scheme, the host, the
/// port in decimal digits, and the path.
pub proof fn law_gateway_word_names_what_was_granted(exe: Seq<char>, session: SshSession)
    ensures
        proxy_parts(exe, session).len() == 8,
        proxy_parts(exe, session)[2] == "--gateway"@,
        exists|port: Seq<char>| #[trigger]
            numbers::value(port) == session.gateway_port && (forall|i: int|
                0 <= i < port.len() ==> '0' <= #[trigger] port[i] <= '9') && proxy_parts(
                exe,
                session,
            )[3] == session.gateway_scheme@ + "://"@ + session.gateway_host@ + ":"@ + port
                + session.connect_path@,
{
    let port = numbers::decimal(session.gateway_port as nat);
    numbers::law_decimal_notation(session.gateway_port as nat);
    assert(numbers::value(port) == session.gateway_port);
}

/// Sessions that differ in the port alone are reached through different words behind
/// `--gateway`, and through different commands.
pub proof fn law_ports_are_told_apart(exe: Seq<char>, one: SshSession, other: SshSession)
    requires
        one.gateway_scheme@ == other.gateway_scheme@,
        one.gateway_host@ == other.gateway_host@,
        one.connect_path@ == other.connect_path@,
        one.sandbox_id@ == other.sandbox_id@,
        one.token@ == other.token@,
        one.gateway_port != other.gateway_port,
    ensures
        proxy_parts(exe, one)[3] != proxy_parts(exe, other)[3],
        proxy_command(exe, one) != proxy_command(exe, other),
{
    let m = numbers::decimal(one.gateway_port as nat);
    let n = numbers::decimal(other.gateway_port as nat);
    let front = one.gateway_scheme@ + "://"@ + one.gateway_host@ + ":"@;
    let a = proxy_parts(exe, one)[3];
    let b = proxy_parts(exe, other)[3];
    assert(a == front + m + one.connect_path@);
    assert(b == front + n + one.connect_path@);
    if a == b {
        lemma_same_middle(front, m, n, one.connect_path@);
        numbers::law_decimal_tells_numbers_apart(
            one.gateway_port as nat,
            other.gateway_port as nat,
        );
    }
    if proxy_command(exe, one) == proxy_command(exe, other) {
        lemma_proxy_command(exe, one);
        lemma_proxy_command(exe, other);
        let before = shell::escaped(exe) + " ssh-proxy --gateway "@;
        let behind = " --sandbox-id "@ + one.sandbox_id@ + " --token "@ + one.token@;
        assert(proxy_command(exe, one) =~= before + a + behind);
        assert(proxy_command(exe, other) =~= before + b + behind);
        lemma_same_middle(before, a, b, behind);
    }
}

/// Texts with the same front and back, and the same in all, are the same between.
proof fn lemma_same_middle(front: Seq<char>, one: Seq<char>, other: Seq<char>, back: Seq<char>)
    requires
        front + one + back == front + other + back,
    ensures
        one == other,
{
    let a = front + one + back;
    let b = front + other + back;
    assert(a.len() == b.len());
    assert(one =~= a.subrange(front.len() as int, (front.len() + one.len()) as int));
    assert(other =~= b.subrange(front.len() as int, (front.len() + other.len()) as int));
}

/// The parts of the proxy's command, with a space between each two.
proof fn lemma_proxy_command(exe: Seq<char>, session: SshSession)
    ensures
        proxy_command(exe, session) == shell::escaped(exe) + " ssh-proxy --gateway "@ + gateway_url(
            session,
        ) + " --sandbox-id "@ + session.sandbox_id@ + " --token "@ + session.token@,
{
    reveal_strlit(" ");
    reveal_strlit("ssh-proxy");
    reveal_strlit("--gateway");
    reveal_strlit("--sandbox-id");
    reveal_strlit("--token");
    reveal_strlit(" ssh-proxy --gateway ");
    reveal_strlit(" --sandbox-id ");
    reveal_strlit(" --token ");
    let sep = " "@;
    let p1 = seq![shell::escaped(exe)];
    let p2 = p1.push("ssh-proxy"@);
    let p3 = p2.push("--gateway"@);
    let p4 = p3.push(gateway_url(session));
    let p5 = p4.push("--sandbox-id"@);
    let p6 = p5.push(session.sandbox_id@);
    let p7 = p6.push("--token"@);
    let p8 = p7.push(session.token@);
    assert(p8 =~= proxy_parts(exe, session));
    text::law_joined_pieces(p1, shell::escaped(exe), sep);
    text::law_joined_pieces(p1, "ssh-proxy"@, sep);
    text::law_joined_pieces(p2, "--gateway"@, sep);
    text::law_joined_pieces(p3, gateway_url(session), sep);
    text::law_joined_pieces(p4, "--sandbox-id"@, sep);
    text::law_joined_pieces(p5, session.sandbox_id@, sep);
    text::law_joined_pieces(p6, "--token"@, sep);
    text::law_joined_pieces(p7, session.token@, sep);
    assert(" ssh-proxy --gateway "@ =~= sep + "ssh-proxy"@ + sep + "--gateway"@ + sep);
    assert(" --sandbox-id "@ =~= sep + "--sandbox-id"@ + sep);
    assert(" --token "@ =~= sep + "--token"@ + sep);
    let whole = shell::escaped(exe) + " ssh-proxy --gateway "@ + gateway_url(session)
        + " --sandbox-id "@ + session.sandbox_id@ + " --token "@ + session.token@;
    assert(proxy_command(exe, session) =~= whole);
}

/// The command that SSH runs, in full: this program, told the gateway, the sandbox
/// and the token that were granted.
pub proof fn law_proxy_command_in_full(exe: Seq<char>, session: SshSession)
    ensures
        exists|port: Seq<char>| #[trigger]
            numbers::value(port) == session.gateway_port && (forall|i: int|
                0 <= i < port.len() ==> '0' <= #[trigger] port[i] <= '9') && proxy_command(
                exe,
                session,
            ) == shell::escaped(exe) + " ssh-proxy --gateway "@ + session.gateway_scheme@ + "://"@
                + session.gateway_host@ + ":"@ + port + session.connect_path@ + " --sandbox-id "@
                + session.sandbox_id@ + " --token "@ + session.token@,
{
    let port = numbers::decimal(session.gateway_port as nat);
    numbers::law_decimal_notation(session.gateway_port as nat);
    lemma_proxy_command(exe, session);
    assert(numbers::value(port) == session.gateway_port);
    let whole = shell::escaped(exe) + " ssh-proxy --gateway "@ + session.gateway_scheme@ + "://"@
        + session.gateway_host@ + ":"@ + port + session.connect_path@ + " --sandbox-id "@
        + session.sandbox_id@ + " --token "@ + session.token@;
    assert(proxy_command(exe, session) =~= whole);
}

/// What the proxy is told by the shell that runs its command: every word as it was
/// granted, the gateway part by part.
pub proof fn law_proxy_is_told_what_was_granted(exe: Seq<char>, session: SshSession)
    requires
        plain_session(session),
    ensures
        shell::shell_words(proxy_command(exe, session)) matches Some(words) && words.len() == 8
            && words[0] == exe && words[1] == "ssh-proxy"@ && words[2] == "--gateway"@ && words[4]
            == "--sandbox-id"@ && words[5] == session.sandbox_id@ && words[6] == "--token"@
            && words[7] == session.token@ && exists|port: Seq<char>| #[trigger]
            numbers::value(port) == session.gateway_port && (forall|i: int|
                0 <= i < port.len() ==> '0' <= #[trigger] port[i] <= '9') && words[3]
                == session.gateway_scheme@ + "://"@ + session.gateway_host@ + ":"@ + port
                + session.connect_path@,
{
    law_proxy_command_gives_the_session_back(exe, session);
    law_gateway_word_names_what_was_granted(exe, session);
}

/// The remote shell of rsync, in full.
pub proof fn law_remote_shell_in_full(proxy_command: Seq<char>)
    ensures
        remote_shell(proxy_command) == "ssh -o "@ + shell::escaped("ProxyCommand="@ + proxy_command)
            + " -o StrictHostKeyChecking=no -o UserKnownHostsFile=/dev/null -o GlobalKnownHostsFile=/dev/null"@,
{
    reveal_strlit(" ");
    reveal_strlit("ssh");
    reveal_strlit("-o");
    reveal_strlit("StrictHostKeyChecking=no");
    reveal_strlit("UserKnownHostsFile=/dev/null");
    reveal_strlit("GlobalKnownHostsFile=/dev/null");
    reveal_strlit("ssh -o ");
    reveal_strlit(
        " -o StrictHostKeyChecking=no -o UserKnownHostsFile=/dev/null -o GlobalKnownHostsFile=/dev/null",
    );
    let sep = " "@;
    let option = "-o"@;
    let proxy = shell::escaped("ProxyCommand="@ + proxy_command);
    let p1 = seq!["ssh"@];
    let p2 = p1.push(option);
    let p3 = p2.push(proxy);
    let p4 = p3.push(option);
    let p5 = p4.push("StrictHostKeyChecking=no"@);
    let p6 = p5.push(option);
    let p7 = p6.push("UserKnownHostsFile=/dev/null"@);
    let p8 = p7.push(option);
    let p9 = p8.push("GlobalKnownHostsFile=/dev/null"@);
    assert(p9 =~= remote_shell_parts(proxy_command));
    text::law_joined_pieces(p1, "ssh"@, sep);
    text::law_joined_pieces(p1, option, sep);
    text::law_joined_pieces(p2, proxy, sep);
    text::law_joined_pieces(p3, option, sep);
    text::law_joined_pieces(p4, "StrictHostKeyChecking=no"@, sep);
    text::law_joined_pieces(p5, option, sep);
    text::law_joined_pieces(p6, "UserKnownHostsFile=/dev/null"@, sep);
    text::law_joined_pieces(p7, option, sep);
    text::law_joined_pieces(p8, "GlobalKnownHostsFile=/dev/null"@, sep);
    let front = "ssh"@ + sep + option + sep;
    let back = sep + option + sep + "StrictHostKeyChecking=no"@ + sep + option + sep
        + "UserKnownHostsFile=/dev/null"@ + sep + option + sep + "GlobalKnownHostsFile=/dev/null"@;
    assert("ssh -o "@ =~= front);
    assert(
    " -o StrictHostKeyChecking=no -o UserKnownHostsFile=/dev/null -o GlobalKnownHostsFile=/dev/null"@
        =~= back);
    assert(remote_shell(proxy_command) =~= front + proxy + back);
}

/// Each file adds its path to the list, below the present directory and with a null
/// character behind it; without files the list is empty.
pub proof fn law_file_list_grows_by_file(files: Seq<Seq<char>>, file: Seq<char>)
    ensures
        file_list(Seq::<Seq<char>>::empty()) == Seq::<char>::empty(),
        file_list(files.push(file)) == file_list(files) + "./"@ + file + "\0"@,
{
    assert(files.push(file).drop_last() =~= files);
}

/// Every client has the same options, each behind `-o`, and goes through the command
/// that it is given.
pub proof fn law_options_of_every_client(proxy_command: Seq<char>, i: int)
    requires
        0 <= i < 4,
    ensures
        base_options(proxy_command).len() == 8,
        base_options(proxy_command)[2 * i] == "-o"@,
        base_options(proxy_command)[1] == "ProxyCommand="@ + proxy_command,
        base_options(proxy_command)[3] == "StrictHostKeyChecking=no"@,
        base_options(proxy_command)[5] == "UserKnownHostsFile=/dev/null"@,
        base_options(proxy_command)[7] == "GlobalKnownHostsFile=/dev/null"@,
        forall|other: Seq<char>|
            other != proxy_command ==> #[trigger] base_options(other) != base_options(
                proxy_command,
            ),
{
    assert forall|other: Seq<char>| other != proxy_command implies #[trigger] base_options(other)
        != base_options(proxy_command) by {
        let n = "ProxyCommand="@.len() as int;
        assert(base_options(other)[1].skip(n) =~= other);
        assert(base_options(proxy_command)[1].skip(n) =~= proxy_command);
    }
}

/// A terminal is asked for, or none is, never both: the options differ in their first.
pub proof fn law_terminal_or_none()
    ensures
        terminal_options()[0] == "-tt"@ && terminal_options()[2] == "RequestTTY=force"@,
        terminal_options()[4] == "SetEnv=TERM=xterm-256color"@,
        no_terminal_options()[0] == "-T"@ && no_terminal_options()[2] == "RequestTTY=no"@,
        terminal_options() != no_terminal_options(),
{
    assert(terminal_options().len() != no_terminal_options().len());
}

} // verus!
