//! What a headless run does with its command line.

use vstd::prelude::*;

use crate::cli::{described_user, plan, ActionView, CliView, NewUserView};
use crate::exchange::{InstallationView, NextView, OpView, ReplyView};
use crate::number::decimal;
use crate::run::{request, start_of, RunAt, RunView};
use crate::text::{pieces, trimmed};
use crate::tool_names::{
    acceptable, lowered, named, normal, resolved, unicode_lowercase, unknown_tool,
};

verus! {

/// Each action asks for what it names and for nothing else.
pub proof fn law_actions_ask_for_what_they_name(n: u8, s: Seq<char>, u: NewUserView)
    ensures
        request(ActionView::SetMachine(n)) == Ok::<OpView, Seq<char>>(OpView::SetMachine(n)),
        request(ActionView::ShowStatus) == Ok::<OpView, Seq<char>>(OpView::ReadStatus),
        request(ActionView::Preinstall) == Ok::<OpView, Seq<char>>(OpView::Preinstall),
        request(ActionView::Install(s)) == Ok::<OpView, Seq<char>>(OpView::InstallTool(s)),
        request(ActionView::RecreateEnv(s)) == Ok::<OpView, Seq<char>>(OpView::RecreateEnv(s)),
        request(ActionView::Dependency(s)) == Ok::<OpView, Seq<char>>(
            OpView::ResolveDependency(s),
        ),
        described_user(s) == Ok::<NewUserView, Seq<char>>(u) ==> request(ActionView::AddUser(s))
            == Ok::<OpView, Seq<char>>(OpView::CreateUser(u.username, u.role, u.identifier)),
        described_user(s) is Err ==> request(ActionView::AddUser(s)) == Err::<OpView, Seq<char>>(
            described_user(s)->Err_0,
        ),
{
}

/// A text without a comma is the one piece of itself, and a comma parts what stands in
/// front of it from the rest.
proof fn lemma_pieces(a: Seq<char>, rest: Seq<char>, c: char)
    requires
        !a.contains(c),
    ensures
        pieces(a, c) == seq![a],
        pieces(a + seq![c] + rest, c) == seq![a] + pieces(rest, c),
{
    let s = a + seq![c] + rest;
    crate::text::lemma_find_bound(a, c);
    crate::text::lemma_find_bound(s, c);
    let i = crate::text::find(a, c) as int;
    if i < a.len() {
        assert(a.contains(a[i]));
    }
    let k = crate::text::find(s, c) as int;
    assert(s[a.len() as int] == c);
    if k < a.len() {
        assert(s[k] == a[k]);
        assert(a.contains(a[k]));
    }
    assert(k == a.len());
    assert(s.take(k) =~= a);
    assert(s.skip(k + 1) =~= rest);
}

/// A user is described by a name alone, as a student with a stand-in for the number, or
/// by name, role and number in this order; white space around each does not count.
/// Two parts, or more than three, are an error that repeats the description.
pub proof fn law_user_is_described_in_order(
    name: Seq<char>,
    role: Seq<char>,
    number: Seq<char>,
    more: Seq<char>,
)
    requires
        !name.contains(','),
        !role.contains(','),
        !number.contains(','),
    ensures
        described_user(name) == Ok::<NewUserView, Seq<char>>(
            NewUserView {
                username: trimmed(name),
                role: "Student"@,
                identifier: "REG-DEFAULT"@,
            },
        ),
        described_user(name + seq![','] + (role + seq![','] + number)) == Ok::<
            NewUserView,
            Seq<char>,
        >(
            NewUserView {
                username: trimmed(name),
                role: trimmed(role),
                identifier: trimmed(number),
            },
        ),
        described_user(name + seq![','] + role) == Err::<NewUserView, Seq<char>>(
            "Invalid --add-user format '"@ + (name + seq![','] + role)
                + "'. Use USERNAME[,ROLE,REGISTER_NO]"@,
        ),
        ({
            let four = name + seq![','] + (role + seq![','] + (number + seq![','] + more));
            described_user(four) == Err::<NewUserView, Seq<char>>(
                "Invalid --add-user format '"@ + four + "'. Use USERNAME[,ROLE,REGISTER_NO]"@,
            )
        }),
{
    lemma_pieces(name, role + seq![','] + number, ',');
    lemma_pieces(role, number, ',');
    lemma_pieces(number, more, ',');
    lemma_pieces(name, role, ',');
    lemma_pieces(role, number + seq![','] + more, ',');
    lemma_pieces(name, role + seq![','] + (number + seq![','] + more), ',');
    lemma_pieces_some(more, ',');
    let three = pieces(name + seq![','] + (role + seq![','] + number), ',');
    assert(three =~= seq![name, role, number]);
}

proof fn lemma_pieces_some(s: Seq<char>, c: char)
    ensures
        pieces(s, c).len() >= 1,
    decreases s.len(),
{
    let i = crate::text::find(s, c) as int;
    if i < s.len() {
        lemma_pieces_some(s.skip(i + 1), c);
    }
}

/// An entry names a tool if and only if, without white space around it and in lower
/// case, it is the name of one or `all`; `all` stands for the four of them in order, and
/// any other entry is an error that repeats it.
pub proof fn law_entries_name_tools(entry: Seq<char>)
    ensures
        ({
            let name = normal(entry);
            let one = resolved(seq![entry]);
            &&& name == "all"@ ==> one == Ok::<Seq<Seq<char>>, Seq<char>>(
                seq!["xilinx"@, "cadence"@, "silvaco"@, "cadre"@],
            )
            &&& name == "xilinx"@ || name == "cadence"@ || name == "silvaco"@ || name == "cadre"@
                ==> one == Ok::<Seq<Seq<char>>, Seq<char>>(seq![name])
            &&& name != "all"@ && name != "xilinx"@ && name != "cadence"@ && name != "silvaco"@
                && name != "cadre"@ ==> one == Err::<Seq<Seq<char>>, Seq<char>>(
                "Unknown tool '"@ + entry
                    + "' - expected one of: xilinx, cadence, silvaco, cadre, or all"@,
            )
        }),
{
    reveal_strlit("all");
    reveal_strlit("xilinx");
    reveal_strlit("cadence");
    reveal_strlit("silvaco");
    reveal_strlit("cadre");
    let name = normal(entry);
    let tools = crate::tool_names::known_tools();
    assert(tools[0] == "xilinx"@);
    assert(tools[1] == "cadence"@);
    assert(tools[2] == "silvaco"@);
    assert(tools[3] == "cadre"@);
    assert("all"@.len() == 3);
    assert("xilinx"@.len() == 6);
    assert("cadence"@.len() == 7);
    assert("silvaco"@.len() == 7);
    assert("cadre"@.len() == 5);
    let none = Seq::<Seq<char>>::empty();
    assert(seq![entry].drop_last() =~= none);
    assert(resolved(none) == Ok::<Seq<Seq<char>>, Seq<char>>(seq![]));
    assert(unknown_tool(entry) == "Unknown tool '"@ + entry
        + "' - expected one of: xilinx, cadence, silvaco, cadre, or all"@);
    if acceptable(entry) {
        assert(Seq::<Seq<char>>::empty() + named(entry) =~= named(entry));
    }
    if tools.contains(name) {
        let i = choose|i: int| 0 <= i < tools.len() && tools[i] == name;
        assert(i == 0 || i == 1 || i == 2 || i == 3);
    }
}

/// Entries are resolved one behind the other: each adds what it names to what the
/// entries in front of it name.
pub proof fn law_entries_add_up(raw: Seq<Seq<char>>, entry: Seq<char>)
    requires
        resolved(raw) is Ok,
        resolved(seq![entry]) is Ok,
    ensures
        resolved(raw.push(entry)) == Ok::<Seq<Seq<char>>, Seq<char>>(
            resolved(raw)->Ok_0 + resolved(seq![entry])->Ok_0,
        ),
{
    let none = Seq::<Seq<char>>::empty();
    assert(raw.push(entry).drop_last() =~= raw);
    assert(seq![entry].drop_last() =~= none);
    assert(resolved(none) == Ok::<Seq<Seq<char>>, Seq<char>>(seq![]));
    assert(seq![] + named(entry) =~= named(entry));
}

/// Where an action stands in every plan.
pub open spec fn rank(a: ActionView) -> int {
    match a {
        ActionView::SetMachine(_) => 0,
        ActionView::ShowStatus => 1,
        ActionView::Preinstall => 2,
        ActionView::Install(_) => 3,
        ActionView::RecreateEnv(_) => 4,
        ActionView::AddUser(_) => 5,
        ActionView::Dependency(_) => 6,
    }
}

/// A plan that does not show the status holds, in this order, the machine's number, the
/// preparation, every tool to install, every environment, every user and the
/// dependency, each as it stands on the command line and nothing besides.
pub proof fn law_plan_holds_everything_in_order(
    cli: CliView,
    tools: Seq<Seq<char>>,
    envs: Seq<Seq<char>>,
)
    requires
        !cli.status,
        cli.machine matches Some(n) ==> 1 <= n <= 20,
        resolved(cli.install) == Ok::<Seq<Seq<char>>, Seq<char>>(tools),
        resolved(cli.recreate_env) == Ok::<Seq<Seq<char>>, Seq<char>>(envs),
    ensures
        plan(cli) is Ok,
        ({
            let p = plan(cli)->Ok_0;
            let m: int = if cli.machine is Some {
                1
            } else {
                0
            };
            let i: int = m + (if cli.preinstall {
                1int
            } else {
                0int
            });
            let r = i + tools.len();
            let u = r + envs.len();
            let d = u + cli.add_user.len();
            &&& p.len() == d + (if cli.dependency is Some {
                1int
            } else {
                0int
            })
            &&& cli.machine is Some ==> p[0] == ActionView::SetMachine(cli.machine->0)
            &&& cli.preinstall ==> p[m] == ActionView::Preinstall
            &&& forall|k: int| 0 <= k < tools.len() ==> p[i + k] == ActionView::Install(
                #[trigger] tools[k],
            )
            &&& forall|k: int| 0 <= k < envs.len() ==> p[r + k] == ActionView::RecreateEnv(
                #[trigger] envs[k],
            )
            &&& forall|k: int| 0 <= k < cli.add_user.len() ==> p[u + k] == ActionView::AddUser(
                #[trigger] cli.add_user[k],
            )
            &&& cli.dependency is Some ==> p[d] == ActionView::Dependency(cli.dependency->0)
        }),
{
}

/// The actions of a plan come in the order of their ranks.
pub proof fn law_plan_goes_by_rank(cli: CliView, i: int, j: int)
    requires
        plan(cli) is Ok,
        0 <= i <= j < plan(cli)->Ok_0.len(),
    ensures
        rank(plan(cli)->Ok_0[i]) <= rank(plan(cli)->Ok_0[j]),
{
}

/// A command line is refused if and only if an entry names no tool or the machine's
/// number is not between 1 and 20; then the entries to install are judged first, then
/// those of the environments, then the number.
pub proof fn law_bad_command_lines_are_refused(cli: CliView)
    ensures
        plan(cli) is Err <==> {
            ||| resolved(cli.install) is Err
            ||| resolved(cli.recreate_env) is Err
            ||| cli.machine is Some && !(1 <= cli.machine->0 <= 20)
        },
        resolved(cli.install) matches Err(e) ==> plan(cli) == Err::<Seq<ActionView>, Seq<char>>(e),
        resolved(cli.install) is Ok ==> (resolved(cli.recreate_env) matches Err(e) ==> plan(cli)
            == Err::<Seq<ActionView>, Seq<char>>(e)),
        resolved(cli.install) is Ok && resolved(cli.recreate_env) is Ok && plan(cli) is Err
            ==> plan(cli) == Err::<Seq<ActionView>, Seq<char>>(
            "--machine must be between 1 and 20, got "@ + decimal(cli.machine->0 as nat),
        ),
{
}

/// The number that was set is told with the name that the machine got by it.
pub proof fn law_machine_number_is_told(v: RunView, n: u8, fqdn: Seq<char>)
    requires
        v.wf(),
        v.at == RunAt::Waiting,
        v.current() == ActionView::SetMachine(n),
    ensures
        v.after(ReplyView::Text(Ok(fqdn))).1.log == seq![
            "[CONFIG] Machine set to #"@ + decimal(n as nat) + " ("@ + fqdn + ")"@,
        ],
{
}

/// A run without actions ends well at once, and any other asks for its first action.
pub proof fn law_run_begins_with_its_first_action(cli: CliView)
    requires
        plan(cli) is Ok,
    ensures
        plan(cli)->Ok_0.len() == 0 ==> start_of(cli).after(ReplyView::Start).1.next
            == NextView::Finish(ReplyView::Done(Ok(()))),
        plan(cli)->Ok_0.len() > 0 ==> {
            let first = request(plan(cli)->Ok_0[0]);
            let next = start_of(cli).after(ReplyView::Start).1.next;
            &&& first is Ok ==> next == NextView::Do(first->Ok_0)
            &&& first is Err ==> next == NextView::Finish(ReplyView::Done(Err(first->Err_0)))
        },
{
}

/// Of several tools whose media are missing, the first is the one that the run ends
/// with: a later one changes nothing, and any other outcome of an action that did not
/// fail leaves what is missing as it was.
pub proof fn law_first_missing_tool_is_kept(v: RunView, tool: Seq<char>, e: Seq<char>)
    requires
        v.wf(),
        v.at == RunAt::Waiting,
        v.current() == ActionView::Install(tool),
    ensures
        ({
            let unavailable = v.after(
                ReplyView::Installed(InstallationView::Unavailable(e)),
            ).0;
            let complete = v.after(ReplyView::Installed(InstallationView::Complete)).0;
            &&& v.missing is None ==> unavailable.missing == Some(e)
            &&& v.missing is Some ==> unavailable.missing == v.missing
            &&& complete.missing == v.missing
            &&& unavailable.plan == v.plan && complete.plan == v.plan
        }),
{
}

/// Missing media are an error where an installation stands on its own, and so is a
/// failure; only a complete one is none.
pub proof fn law_only_complete_installations_end_well(i: InstallationView)
    ensures
        i.outcome() == (match i {
            InstallationView::Complete => Ok::<(), Seq<char>>(()),
            InstallationView::Unavailable(e) => Err(e),
            InstallationView::Failed(e) => Err(e),
        }),
{
}

/// In lower case, ASCII capitals become the letters thirty-two places on, and every
/// other ASCII character stays.
pub proof fn law_capitals_are_lowered(s: Seq<char>)
    requires
        vstd::utf8::is_ascii_chars(s),
    ensures
        lowered(s).len() == s.len(),
        forall|i: int|
            0 <= i < s.len() && 'A' <= s[i] <= 'Z' ==> #[trigger] lowered(s)[i] as u32 == s[i] as u32
                + 32,
        forall|i: int|
            0 <= i < s.len() && !('A' <= s[i] <= 'Z') ==> #[trigger] lowered(s)[i] == s[i],
{
}

/// White space around an entry and the case of its letters do not count.
pub proof fn law_entries_are_compared_without_regard_to_case(entry: Seq<char>)
    ensures
        normal(entry) == lowered(trimmed(entry)),
        !vstd::utf8::is_ascii_chars(entry) ==> lowered(entry) == unicode_lowercase(entry),
{
}

/// Only the machine's number and the status are told by the run itself; every other
/// action speaks for itself.
pub proof fn law_other_actions_add_no_line(v: RunView, reply: ReplyView)
    requires
        v.wf(),
        v.waits() == reply.kind(),
        v.at == RunAt::Waiting ==> !(v.current() is SetMachine) && !(v.current() is ShowStatus),
    ensures
        v.after(reply).1.log.len() == 0,
{
}

} // verus!
