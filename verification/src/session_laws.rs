//! What requests call, and how a session hands replies on.

use vstd::prelude::*;

use crate::exchange::{NextView, OpView, ReplyView};
use crate::install::install_start;
use crate::session::{called, ProcedureView, SessionView, SiteView, TodoView};
use crate::vnc_grant::{MappingAt, PasswordAt, VncMappingView, VncPasswordView};

verus! {

/// The requests that are the machine's to answer.
pub open spec fn is_for_the_machine(op: OpView) -> bool {
    ||| op is Exists
    ||| op is ListDir
    ||| op is ScanDir
    ||| op is CreateDir
    ||| op is RemoveDir
    ||| op is RemoveFile
    ||| op is Rename
    ||| op is ReadText
    ||| op is WriteText
    ||| op is WriteBytes
    ||| op is AppendText
    ||| op is Status
    ||| op is Quiet
    ||| op is Stream
    ||| op is Capture
    ||| op is Feed
    ||| op is OpenLines
    ||| op is NextLine
    ||| op is CloseLines
    ||| op is RandomBytes
    ||| op is ClockNanos
    ||| op is MarkPhase
    ||| op is RecreateEnv
    ||| op is SetMachine
    ||| op is ReadStatus
    ||| op is ResolveDependency
}

/// A request is answered by the machine or by a procedure, never by both; what is the
/// machine's to answer reaches it as it was asked.
pub proof fn law_machine_answers_what_is_its_own(
    v: SessionView,
    reply: ReplyView,
    site: SiteView,
    op: OpView,
)
    requires
        v.stack.len() > 0,
        v.stack.last().after(reply).1.next == NextView::Do(op),
    ensures
        called(op, site) is None <==> is_for_the_machine(op),
        is_for_the_machine(op) ==> v.after(reply, site).2 == TodoView::Perform(op),
        !is_for_the_machine(op) ==> v.after(reply, site).2 == TodoView::Resume(ReplyView::Start),
        v.after(reply, site).1 == v.stack.last().after(reply).1.log,
{
}

/// A procedure that ends hands its result to the one that called it, and the first one
/// to whoever started the session; its last lines are logged.
pub proof fn law_result_goes_to_the_caller(
    v: SessionView,
    reply: ReplyView,
    site: SiteView,
    result: ReplyView,
)
    requires
        v.stack.len() > 0,
        v.stack.last().after(reply).1.next == NextView::Finish(result),
    ensures
        v.stack.len() == 1 ==> v.after(reply, site).2 == TodoView::Done(result),
        v.stack.len() > 1 ==> v.after(reply, site).2 == TodoView::Resume(result),
        v.after(reply, site).0.stack == v.stack.drop_last(),
        v.after(reply, site).1 == v.stack.last().after(reply).1.log,
{
}

/// A call hands on what the request names, in its own place: the tool, the display, the
/// user.
pub proof fn law_calls_hand_on_their_arguments(a: Seq<char>, b: Seq<char>, site: SiteView)
    ensures
        called(OpView::InstallTool(a), site) == Some(ProcedureView::InstallOne(install_start(a))),
        called(OpView::EnsureVncMapping(a, b), site) == Some(
            ProcedureView::VncMapping(
                VncMappingView { display: a, username: b, at: MappingAt::Start },
            ),
        ),
        called(OpView::SetVncPassword(a), site) == Some(
            ProcedureView::VncPassword(
                VncPasswordView {
                    username: a,
                    password: seq![],
                    secret: seq![],
                    at: PasswordAt::Start,
                },
            ),
        ),
{
}

/// Bundles are passed over from the directory and in the order that the request names.
pub proof fn law_bundles_are_those_of_the_request(
    dir: Seq<char>,
    names: Seq<Seq<char>>,
    site: SiteView,
)
    ensures
        called(OpView::CadenceBundles(dir, names), site) == Some(
            ProcedureView::Bundles(crate::bundle_laws::pass_over(dir, names)),
        ),
{
}

} // verus!
