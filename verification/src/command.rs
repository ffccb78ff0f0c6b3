//! The command line: one program, several modes, told by the first argument.

use crate::text::{same_text, starts_with, text_starts_with, texts};
use crate::util::{err, opt_text, MirrorError};
use vstd::prelude::*;

verus! {

/// What the program is asked to do.
pub enum Command {
    Daemon,
    Start,
    Pause,
    Ensure,
    Status,
    Once,
    Restore { host: Option<String>, id: Option<String> },
    Teardown,
    Pane(Vec<String>),
    RemoteWorkspace,
    RemoteTab,
    RemoteSplit(Option<String>),
    RemoteInvoke(String),
    Layout(Vec<String>),
}

/// A command with its arguments as texts.
pub enum CommandModel {
    Daemon,
    Start,
    Pause,
    Ensure,
    Status,
    Once,
    Restore { host: Option<Seq<char>>, id: Option<Seq<char>> },
    Teardown,
    Pane(Seq<Seq<char>>),
    RemoteWorkspace,
    RemoteTab,
    RemoteSplit(Option<Seq<char>>),
    RemoteInvoke(Seq<char>),
    Layout(Seq<Seq<char>>),
}

impl View for Command {
    type V = CommandModel;

    open spec fn view(&self) -> CommandModel {
        match self {
            Command::Daemon => CommandModel::Daemon,
            Command::Start => CommandModel::Start,
            Command::Pause => CommandModel::Pause,
            Command::Ensure => CommandModel::Ensure,
            Command::Status => CommandModel::Status,
            Command::Once => CommandModel::Once,
            Command::Restore { host, id } => CommandModel::Restore {
                host: opt_text(*host),
                id: opt_text(*id),
            },
            Command::Teardown => CommandModel::Teardown,
            Command::Pane(args) => CommandModel::Pane(texts(args@)),
            Command::RemoteWorkspace => CommandModel::RemoteWorkspace,
            Command::RemoteTab => CommandModel::RemoteTab,
            Command::RemoteSplit(direction) => CommandModel::RemoteSplit(opt_text(*direction)),
            Command::RemoteInvoke(spec) => CommandModel::RemoteInvoke(spec@),
            Command::Layout(args) => CommandModel::Layout(texts(args@)),
        }
    }
}

/// The argument at a place, if there is one.
pub open spec fn arg(args: Seq<Seq<char>>, i: int) -> Option<Seq<char>> {
    if 0 <= i < args.len() {
        Some(args[i])
    } else {
        None
    }
}

/// The arguments after the first two.
pub open spec fn rest(args: Seq<Seq<char>>) -> Seq<Seq<char>> {
    args.skip(2)
}

/// What is said of a command that there is not.
pub open spec fn unknown_message(cmd: Seq<char>) -> Seq<char> {
    "unknown command: "@ + cmd
        + " (daemon|pane|start|pause|ensure|status|once|restore|teardown|remote-workspace|remote-tab|remote-split|remote-invoke|layout)"@
}

/// What a command line asks for, or what is said of one that asks for nothing.
/// The program's own name comes first; without a command it is `status`.
pub open spec fn command_of(args: Seq<Seq<char>>) -> Result<CommandModel, Seq<char>> {
    match arg(args, 1) {
        None => Ok(CommandModel::Status),
        Some(cmd) => if cmd == "daemon"@ || cmd == "run"@ {
            Ok(CommandModel::Daemon)
        } else if cmd == "start"@ {
            Ok(CommandModel::Start)
        } else if cmd == "pause"@ || cmd == "stop"@ {
            Ok(CommandModel::Pause)
        } else if cmd == "ensure"@ {
            Ok(CommandModel::Ensure)
        } else if cmd == "status"@ {
            Ok(CommandModel::Status)
        } else if cmd == "once"@ {
            Ok(CommandModel::Once)
        } else if cmd == "restore"@ {
            Ok(CommandModel::Restore { host: arg(args, 2), id: arg(args, 3) })
        } else if cmd == "teardown"@ {
            Ok(CommandModel::Teardown)
        } else if cmd == "pane"@ {
            Ok(CommandModel::Pane(rest(args)))
        } else if cmd == "remote-workspace"@ {
            Ok(CommandModel::RemoteWorkspace)
        } else if cmd == "remote-tab"@ {
            Ok(CommandModel::RemoteTab)
        } else if cmd == "remote-split"@ {
            Ok(CommandModel::RemoteSplit(arg(args, 2)))
        } else if cmd == "remote-invoke"@ {
            match arg(args, 2) {
                Some(spec) => Ok(CommandModel::RemoteInvoke(spec)),
                None => Err("usage: herdr-mirror remote-invoke <plugin>.<action>"@),
            }
        } else if cmd == "layout"@ {
            Ok(CommandModel::Layout(rest(args)))
        } else {
            Err(unknown_message(cmd))
        },
    }
}

fn arg_at(args: &[String], i: usize) -> (r: Option<String>)
    ensures
        opt_text(r) == arg(texts(args@), i as int),
{
    if i < args.len() {
        assert(texts(args@)[i as int] == args@[i as int]@);
        Some(args[i].clone())
    } else {
        None
    }
}

fn args_from(args: &[String], start: usize) -> (r: Vec<String>)
    requires
        start <= args@.len(),
    ensures
        texts(r@) == texts(args@).skip(start as int),
{
    let mut r: Vec<String> = Vec::new();
    let mut i: usize = start;
    let ghost all = texts(args@);
    assert(texts(r@) =~= all.subrange(start as int, start as int));
    while i < args.len()
        invariant
            start <= i <= args@.len(),
            all == texts(args@),
            all.len() == args@.len(),
            texts(r@) == all.subrange(start as int, i as int),
        decreases args@.len() - i,
    {
        let ghost before = r@;
        r.push(args[i].clone());
        proof {
            assert(all[i as int] == args@[i as int]@);
            assert(texts(r@) =~= texts(before).push(args@[i as int]@));
            assert(all.subrange(start as int, i + 1) =~= all.subrange(
                start as int,
                i as int,
            ).push(args@[i as int]@));
        }
        i += 1;
    }
    assert(all.subrange(start as int, i as int) =~= all.skip(start as int));
    r
}

/// Reads a command line, which begins with the name of the program.
pub fn parse_command(args: &[String]) -> (r: Result<Command, MirrorError>)
    requires
        args@.len() >= 1,
    ensures
        match r {
            Ok(command) => command_of(texts(args@)) == Ok::<CommandModel, Seq<char>>(command@),
            Err(e) => command_of(texts(args@)) == Err::<CommandModel, Seq<char>>(e.message@),
        },
{
    assert(texts(args@).len() == args@.len());
    if args.len() < 2 {
        return Ok(Command::Status);
    }
    let cmd = args[1].as_str();
    assert(texts(args@)[1] == cmd@);
    if same_text(cmd, "daemon") || same_text(cmd, "run") {
        Ok(Command::Daemon)
    } else if same_text(cmd, "start") {
        Ok(Command::Start)
    } else if same_text(cmd, "pause") || same_text(cmd, "stop") {
        Ok(Command::Pause)
    } else if same_text(cmd, "ensure") {
        Ok(Command::Ensure)
    } else if same_text(cmd, "status") {
        Ok(Command::Status)
    } else if same_text(cmd, "once") {
        Ok(Command::Once)
    } else if same_text(cmd, "restore") {
        Ok(Command::Restore { host: arg_at(args, 2), id: arg_at(args, 3) })
    } else if same_text(cmd, "teardown") {
        Ok(Command::Teardown)
    } else if same_text(cmd, "pane") {
        Ok(Command::Pane(args_from(args, 2)))
    } else if same_text(cmd, "remote-workspace") {
        Ok(Command::RemoteWorkspace)
    } else if same_text(cmd, "remote-tab") {
        Ok(Command::RemoteTab)
    } else if same_text(cmd, "remote-split") {
        Ok(Command::RemoteSplit(arg_at(args, 2)))
    } else if same_text(cmd, "remote-invoke") {
        match arg_at(args, 2) {
            Some(spec) => Ok(Command::RemoteInvoke(spec)),
            None => Err(err("usage: herdr-mirror remote-invoke <plugin>.<action>")),
        }
    } else if same_text(cmd, "layout") {
        Ok(Command::Layout(args_from(args, 2)))
    } else {
        let mut msg = "unknown command: ".to_owned();
        msg.append(cmd);
        msg.append(
            " (daemon|pane|start|pause|ensure|status|once|restore|teardown|remote-workspace|remote-tab|remote-split|remote-invoke|layout)",
        );
        Err(err(msg.as_str()))
    }
}

/// The exit code of an error: a wrong command line is told apart.
pub open spec fn error_code(message: Seq<char>) -> i32 {
    if text_starts_with(message, "unknown command"@) || text_starts_with(message, "usage"@) {
        2
    } else {
        1
    }
}

pub fn exit_code(message: &str) -> (code: i32)
    ensures
        code == error_code(message@),
{
    if starts_with(message, "unknown command") || starts_with(message, "usage") {
        2
    } else {
        1
    }
}

/// A command line that is not understood always exits with the code for that.
pub proof fn law_a_wrong_command_line_exits_with_two(args: Seq<Seq<char>>)
    ensures
        command_of(args) matches Err(message) ==> error_code(message) == 2,
{
    reveal_strlit("unknown command");
    reveal_strlit("unknown command: ");
    reveal_strlit("usage");
    reveal_strlit("usage: herdr-mirror remote-invoke <plugin>.<action>");
    let usage = "usage: herdr-mirror remote-invoke <plugin>.<action>"@;
    assert(usage.take(5) =~= "usage"@);
    if let Some(cmd) = arg(args, 1) {
        assert(unknown_message(cmd).take(15) =~= "unknown command"@);
    }
}

// ---------------------------------------------------------------------------
// pausing

/// What a command does to the pause marker: an explicit start clears it, a
/// pause and a teardown set it, and all others leave it.
pub open spec fn marker_after(command: CommandModel, paused: bool) -> bool {
    match command {
        CommandModel::Start => false,
        CommandModel::Pause => true,
        CommandModel::Teardown => true,
        _ => paused,
    }
}

/// The pause marker after a command, if the command is one that sets it.
pub fn pause_marker(command: &Command) -> (marker: Option<bool>)
    ensures
        forall|paused: bool| #[trigger]
            marker_after(command@, paused) == match marker {
                Some(m) => m,
                None => paused,
            },
{
    match command {
        Command::Start => Some(false),
        Command::Pause => Some(true),
        Command::Teardown => Some(true),
        _ => None,
    }
}

/// The pause marker after a run of commands.
pub open spec fn marker_after_all(commands: Seq<CommandModel>, paused: bool) -> bool
    decreases commands.len(),
{
    if commands.len() == 0 {
        paused
    } else {
        marker_after(commands.last(), marker_after_all(commands.drop_last(), paused))
    }
}

/// A pause is sticky: until an explicit start, no command lifts it, so that the
/// daemon is not started by a focus. A daemon that merely crashed is.
pub proof fn law_a_pause_is_sticky(commands: Seq<CommandModel>, paused: bool)
    requires
        forall|i: int| 0 <= i < commands.len() ==> !(#[trigger] commands[i] is Start),
    ensures
        paused ==> marker_after_all(commands, paused),
        (forall|i: int|
            0 <= i < commands.len() ==> !(#[trigger] commands[i] is Pause)
                && !(commands[i] is Teardown)) ==> marker_after_all(commands, paused) == paused,
    decreases commands.len(),
{
    if commands.len() > 0 {
        let before = commands.drop_last();
        assert forall|i: int| 0 <= i < before.len() implies !(#[trigger] before[i] is Start) by {
            assert(before[i] == commands[i]);
        }
        law_a_pause_is_sticky(before, paused);
        assert(!(commands[commands.len() - 1] is Start));
        if forall|i: int|
            0 <= i < commands.len() ==> !(#[trigger] commands[i] is Pause) && !(
            commands[i] is Teardown) {
            assert forall|i: int| 0 <= i < before.len() implies !(#[trigger] before[i] is Pause)
                && !(before[i] is Teardown) by {
                assert(before[i] == commands[i]);
            }
            assert(!(commands[commands.len() - 1] is Pause));
        }
    }
}

} // verus!
