//! Running programs: what is logged of them and what their exit codes mean.

use vstd::prelude::*;

use crate::exchange::{
    ask, finish, list0, list1, turn_ask, turn_fail, turn_succeed, CommandLine, CommandView, OpView,
    Op, ProcessEnd, ProcessEndView, Reply, ReplyKind, ReplyView, Turn, TurnView,
};
use crate::number::{signed_decimal, signed_text};
use crate::text::{join, joined};

verus! {

/// The exit code as it is shown in messages.
pub open spec fn code_text(code: Option<i32>) -> Seq<char> {
    match code {
        Some(n) => "Some("@ + signed_decimal(n as int) + ")"@,
        None => "None"@,
    }
}

/// The exit code as it is shown in messages.
pub fn show_code(code: Option<i32>) -> (r: String)
    ensures
        r@ == code_text(code),
{
    match code {
        Some(n) => "Some(".to_owned().concat(signed_text(n).as_str()).concat(")"),
        None => "None".to_owned(),
    }
}

/// The line that announces a command.
pub open spec fn announcement(c: CommandView) -> Seq<char> {
    "$ "@ + c.program + " "@ + joined(c.args, " "@)
}

/// The line that announces a command.
pub fn announce(c: &CommandLine) -> (r: String)
    ensures
        r@ == announcement(c@),
{
    "$ ".to_owned().concat(c.program.as_str()).concat(" ").concat(join(&c.args, " ").as_str())
}

/// How a line from a program's standard error appears in the log.
pub fn stderr_line(line: &str) -> (r: String)
    ensures
        r@ == "[STDERR] "@ + line@,
{
    "[STDERR] ".to_owned().concat(line)
}

/// What came of a command that was run with its output in the log: it succeeded if
/// and only if the program exited with code 0.
pub open spec fn command_result(program: Seq<char>, end: ProcessEndView) -> Result<(), Seq<char>> {
    match end {
        ProcessEndView::SpawnFailed(e) => Err("Failed to spawn "@ + program + ": "@ + e),
        ProcessEndView::WaitFailed(e) => Err(e),
        ProcessEndView::Exited(code) => if code == Some(0i32) {
            Ok(())
        } else {
            Err("Command '"@ + program + "' failed with code "@ + code_text(code))
        },
    }
}

/// Where a command that is run with its output in the log stands.
#[derive(Debug, Clone, Copy, PartialEq, Eq, Structural)]
pub enum RunCmdAt {
    Start,
    Running,
    Over,
}

/// Runs a command with its output in the log.
#[derive(Debug)]
pub struct RunCmd {
    command: CommandLine,
    at: RunCmdAt,
}

/// The model of a `RunCmd`.
pub struct RunCmdView {
    pub command: CommandView,
    pub at: RunCmdAt,
}

impl View for RunCmd {
    type V = RunCmdView;

    closed spec fn view(&self) -> RunCmdView {
        RunCmdView { command: self.command@, at: self.at }
    }
}

impl RunCmdView {
    /// The shape of the reply that is waited for.
    pub open spec fn waits(self) -> ReplyKind {
        match self.at {
            RunCmdAt::Start => ReplyKind::Start,
            RunCmdAt::Running => ReplyKind::Ended,
            RunCmdAt::Over => ReplyKind::Never,
        }
    }

    /// The turn that `reply` leads to, and the state behind it.
    pub open spec fn after(self, reply: ReplyView) -> (RunCmdView, TurnView) {
        match self.at {
            RunCmdAt::Start => (
                RunCmdView { at: RunCmdAt::Running, ..self },
                ask(seq![announcement(self.command)], OpView::Stream(self.command)),
            ),
            _ => (
                RunCmdView { at: RunCmdAt::Over, ..self },
                finish(
                    seq![],
                    ReplyView::Done(command_result(self.command.program, reply->Ended_0)),
                ),
            ),
        }
    }
}

/// A command to be run with its output in the log.
pub fn run_cmd(command: CommandLine) -> (r: RunCmd)
    ensures
        r@ == (RunCmdView { command: command@, at: RunCmdAt::Start }),
{
    RunCmd { command, at: RunCmdAt::Start }
}

/// A copy of a command.
pub fn copy_command(c: &CommandLine) -> (r: CommandLine)
    ensures
        r@ == c@,
{
    CommandLine { program: c.program.clone(), args: crate::exchange::copy_list(&c.args) }
}

impl RunCmd {
    /// The shape of the reply that is waited for.
    pub fn waits(&self) -> (k: ReplyKind)
        ensures
            k == self@.waits(),
    {
        match self.at {
            RunCmdAt::Start => ReplyKind::Start,
            RunCmdAt::Running => ReplyKind::Ended,
            RunCmdAt::Over => ReplyKind::Never,
        }
    }

    /// Takes the reply that is waited for.
    pub fn step(self, reply: Reply) -> (r: (RunCmd, Turn))
        requires
            self@.waits() == reply@.kind(),
        ensures
            (r.0@, r.1@) == self@.after(reply@),
            r.1@.leads_to(r.0@.waits()),
    {
        match self.at {
            RunCmdAt::Start => {
                let log = list1(announce(&self.command));
                let op = Op::Stream(copy_command(&self.command));
                (RunCmd { at: RunCmdAt::Running, ..self }, turn_ask(log, op))
            },
            _ => {
                let turn = match reply.ended() {
                    ProcessEnd::SpawnFailed(e) => turn_fail(
                        list0(),
                        "Failed to spawn ".to_owned().concat(self.command.program.as_str()).concat(
                            ": ",
                        ).concat(e.as_str()),
                    ),
                    ProcessEnd::WaitFailed(e) => turn_fail(list0(), e),
                    ProcessEnd::Exited(code) => if code == Some(0i32) {
                        turn_succeed(list0())
                    } else {
                        turn_fail(
                            list0(),
                            "Command '".to_owned().concat(self.command.program.as_str()).concat(
                                "' failed with code ",
                            ).concat(show_code(code).as_str()),
                        )
                    },
                };
                (RunCmd { at: RunCmdAt::Over, ..self }, turn)
            },
        }
    }
}

} // verus!
