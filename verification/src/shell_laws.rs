//! What running programs keeps to.

use vstd::prelude::*;

use crate::archives::unpacked;
use crate::exchange::{CommandView, NextView, OpView, ProcessEndView, ReplyView, TurnView};
use crate::number::{decimal, signed_decimal};
use crate::session::{called, SiteView};
use crate::shell::code_text;
use crate::text::joined;

verus! {

/// An exit code is shown as it is debugged: with its sign, or as none where a signal
/// ended the program.
pub proof fn law_exit_codes_are_shown(n: i32)
    ensures
        n >= 0 ==> code_text(Some(n)) == "Some("@ + decimal(n as nat) + ")"@,
        n < 0 ==> code_text(Some(n)) == "Some("@ + ("-"@ + decimal((0 - n) as nat)) + ")"@,
        code_text(None) == "None"@,
{
}

/// A command is announced with its program and all its arguments and is run as it is.
/// It succeeds if and only if the program exits with code 0; any other end is an error
/// that tells it.
pub proof fn law_command_course(c: CommandView, site: SiteView, end: ProcessEndView)
    ensures
        ({
            let (running, run) = called(OpView::RunCmd(c), site)->Some_0.after(ReplyView::Start);
            let done = running.after(ReplyView::Ended(end)).1;
            &&& run == TurnView {
                log: seq!["$ "@ + c.program + " "@ + joined(c.args, " "@)],
                next: NextView::Do(OpView::Stream(c)),
            }
            &&& done == TurnView {
                log: seq![],
                next: NextView::Finish(
                    ReplyView::Done(
                        match end {
                            ProcessEndView::Exited(Some(0i32)) => Ok(()),
                            ProcessEndView::Exited(code) => Err(
                                "Command '"@ + c.program + "' failed with code "@ + code_text(
                                    code,
                                ),
                            ),
                            ProcessEndView::SpawnFailed(e) => Err(
                                "Failed to spawn "@ + c.program + ": "@ + e,
                            ),
                            ProcessEndView::WaitFailed(e) => Err(e),
                        },
                    ),
                ),
            }
        }),
{
}

/// An archive that could not be unpacked is told with how the program ended.
pub proof fn law_unpacking_errors_tell_the_cause(end: ProcessEndView)
    ensures
        unpacked(end) == (match end {
            ProcessEndView::Exited(Some(0i32)) => Ok::<(), Seq<char>>(()),
            ProcessEndView::Exited(code) => Err("tar exited with "@ + code_text(code)),
            ProcessEndView::SpawnFailed(e) => Err("failed to spawn tar: "@ + e),
            ProcessEndView::WaitFailed(e) => Err("failed to spawn tar: "@ + e),
        }),
{
}

/// A negative number has its minus sign in front of its digits, any other none.
pub proof fn law_signs_are_shown(n: nat)
    ensures
        signed_decimal(n as int) == decimal(n),
        n > 0 ==> signed_decimal(0 - n) == "-"@ + decimal(n),
{
}

} // verus!
