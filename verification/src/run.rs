//! A headless run: the actions of the plan, one after another, up to the first that
//! fails. A tool whose media are missing is passed over and reported at the end.

use vstd::prelude::*;

use crate::cli::{
    action_views, add_user_from_spec, described_user, plan, plan_run, plan_view, Action, ActionView,
    Cli, CliView,
};
use crate::exchange::{
    ask, fail, list0, list1, list2, maybe_text, succeed, turn_ask, turn_fail, turn_succeed, with,
    Installation, InstallationView, NextView, Op, OpView, PhaseRecord, PhaseRecordView, Reply,
    ReplyKind, ReplyView, StatusReport, StatusView, Turn, TurnView,
};
use crate::number::{decimal, decimal_text};

verus! {

/// One phase in the status: its name, filled up to a column, and when it was done.
pub open spec fn phase_line(name: Seq<char>, phase: PhaseRecordView) -> Seq<char> {
    "  ["@ + (if phase.done {
        "x"@
    } else {
        " "@
    }) + "] "@ + name + " "@ + (match phase.time {
        Some(t) => t,
        None => "-"@,
    })
}

/// What is printed of the status of a machine.
pub open spec fn status_lines(s: StatusView) -> Seq<Seq<char>> {
    seq![
        "Machine: #"@ + decimal(s.machine_number as nat) + " ("@ + s.hostname_fqdn + ")"@,
        "Sysadmin user: "@ + s.sysadmin_user,
        "Student user:  "@ + s.student_user,
        ""@,
        phase_line("PRE_INSTALL "@, s.pre_install),
        phase_line("XILINX      "@, s.xilinx),
        phase_line("CADENCE     "@, s.cadence),
        phase_line("SILVACO_1   "@, s.silvaco_1),
        phase_line("SILVACO_2   "@, s.silvaco_2),
        phase_line("SILVACO_3   "@, s.silvaco_3),
        phase_line("CADRE       "@, s.cadre),
    ]
}

fn show_phase(name: &str, phase: &PhaseRecord) -> (r: String)
    ensures
        r@ == phase_line(name@, phase@),
{
    let mark: &str = if phase.done {
        "x"
    } else {
        " "
    };
    let time: &str = match &phase.time {
        Some(t) => t.as_str(),
        None => "-",
    };
    "  [".to_owned().concat(mark).concat("] ").concat(name).concat(" ").concat(time)
}

/// What is printed of the status of a machine.
pub fn print_status(s: &StatusReport) -> (r: Vec<String>)
    ensures
        crate::text::texts(r@) == status_lines(s@),
{
    let machine = "Machine: #".to_owned().concat(decimal_text(s.machine_number as u64).as_str()).concat(
        " (",
    ).concat(s.hostname_fqdn.as_str()).concat(")");
    let v = list2(machine, "Sysadmin user: ".to_owned().concat(s.sysadmin_user.as_str()));
    let v = with(v, "Student user:  ".to_owned().concat(s.student_user.as_str()));
    let v = with(v, "".to_owned());
    let v = with(v, show_phase("PRE_INSTALL ", &s.pre_install));
    let v = with(v, show_phase("XILINX      ", &s.xilinx));
    let v = with(v, show_phase("CADENCE     ", &s.cadence));
    let v = with(v, show_phase("SILVACO_1   ", &s.silvaco_1));
    let v = with(v, show_phase("SILVACO_2   ", &s.silvaco_2));
    let v = with(v, show_phase("SILVACO_3   ", &s.silvaco_3));
    with(v, show_phase("CADRE       ", &s.cadre))
}

/// What an action asks for. A user is described on the command line, and the
/// description is read only when the user's turn comes.
pub open spec fn request(a: ActionView) -> Result<OpView, Seq<char>> {
    match a {
        ActionView::SetMachine(n) => Ok(OpView::SetMachine(n)),
        ActionView::ShowStatus => Ok(OpView::ReadStatus),
        ActionView::Preinstall => Ok(OpView::Preinstall),
        ActionView::Install(t) => Ok(OpView::InstallTool(t)),
        ActionView::RecreateEnv(t) => Ok(OpView::RecreateEnv(t)),
        ActionView::AddUser(u) => match described_user(u) {
            Ok(user) => Ok(OpView::CreateUser(user.username, user.role, user.identifier)),
            Err(e) => Err(e),
        },
        ActionView::Dependency(p) => Ok(OpView::ResolveDependency(p)),
    }
}

/// The shape of the reply to what an action asks for.
pub open spec fn response(a: ActionView) -> ReplyKind {
    match a {
        ActionView::SetMachine(_) => ReplyKind::Text,
        ActionView::ShowStatus => ReplyKind::Status,
        ActionView::Install(_) => ReplyKind::Installed,
        _ => ReplyKind::Done,
    }
}

fn make_request(a: &Action) -> (r: Result<Op, String>)
    ensures
        match r {
            Ok(op) => request(a@) == Ok::<OpView, Seq<char>>(op@),
            Err(e) => request(a@) == Err::<OpView, Seq<char>>(e@),
        },
{
    match a {
        Action::SetMachine(n) => Ok(Op::SetMachine(*n)),
        Action::ShowStatus => Ok(Op::ReadStatus),
        Action::Preinstall => Ok(Op::Preinstall),
        Action::Install(t) => Ok(Op::InstallTool(t.clone())),
        Action::RecreateEnv(t) => Ok(Op::RecreateEnv(t.clone())),
        Action::AddUser(u) => match add_user_from_spec(u.as_str()) {
            Ok(user) => Ok(Op::CreateUser(user.username, user.role, user.identifier)),
            Err(e) => Err(e),
        },
        Action::Dependency(p) => Ok(Op::ResolveDependency(p.clone())),
    }
}

/// Where a headless run stands.
#[derive(Debug, Clone, Copy, PartialEq, Eq, Structural)]
pub enum RunAt {
    Start,
    Waiting,
    Over,
}

/// A headless run.
#[derive(Debug)]
pub struct Run {
    plan: Result<Vec<Action>, String>,
    next: usize,
    missing: Option<String>,
    at: RunAt,
}

/// The model of a `Run`.
pub struct RunView {
    pub plan: Result<Seq<ActionView>, Seq<char>>,
    /// How many of the plan's actions have been asked for.
    pub next: int,
    /// What was said of the first tool whose media are missing, once there is one.
    pub missing: Option<Seq<char>>,
    pub at: RunAt,
}

impl View for Run {
    type V = RunView;

    closed spec fn view(&self) -> RunView {
        RunView {
            plan: plan_view(self.plan),
            next: self.next as int,
            missing: maybe_text(self.missing),
            at: self.at,
        }
    }
}

impl RunView {
    /// What holds of every run.
    pub open spec fn wf(self) -> bool {
        self.at == RunAt::Waiting ==> self.plan is Ok && 0 < self.next <= self.plan->Ok_0.len()
    }

    /// The action whose outcome is waited for.
    pub open spec fn current(self) -> ActionView {
        self.plan->Ok_0[self.next - 1]
    }

    /// The shape of the reply that is waited for.
    pub open spec fn waits(self) -> ReplyKind {
        match self.at {
            RunAt::Start => ReplyKind::Start,
            RunAt::Waiting => response(self.current()),
            RunAt::Over => ReplyKind::Never,
        }
    }

    /// On to the next action. Behind the last the run ends, with an error where a tool's
    /// media were missing.
    pub open spec fn proceed(self, log: Seq<Seq<char>>) -> (RunView, TurnView) {
        if self.next >= self.plan->Ok_0.len() {
            (
                RunView { at: RunAt::Over, ..self },
                match self.missing {
                    None => succeed(log),
                    Some(e) => fail(log, e),
                },
            )
        } else {
            match request(self.plan->Ok_0[self.next]) {
                Ok(op) => (
                    RunView { next: self.next + 1, at: RunAt::Waiting, ..self },
                    ask(log, op),
                ),
                Err(e) => (RunView { at: RunAt::Over, ..self }, fail(log, e)),
            }
        }
    }

    /// A tool's media are missing: the first error of this sort is kept for the end.
    pub open spec fn without(self, e: Seq<char>) -> RunView {
        RunView {
            missing: match self.missing {
                None => Some(e),
                Some(first) => Some(first),
            },
            ..self
        }
    }

    /// The end of the run with an error.
    pub open spec fn abort(self, e: Seq<char>) -> (RunView, TurnView) {
        (RunView { at: RunAt::Over, ..self }, fail(seq![], e))
    }

    /// The turn that `reply` leads to, and the state behind it.
    pub open spec fn after(self, reply: ReplyView) -> (RunView, TurnView) {
        match self.at {
            RunAt::Start => match self.plan {
                Err(e) => self.abort(e),
                Ok(_) => self.proceed(seq![]),
            },
            _ => match self.current() {
                ActionView::SetMachine(n) => match reply->Text_0 {
                    Err(e) => self.abort(e),
                    Ok(fqdn) => self.proceed(
                        seq![
                            "[CONFIG] Machine set to #"@ + decimal(n as nat) + " ("@ + fqdn + ")"@,
                        ],
                    ),
                },
                ActionView::ShowStatus => self.proceed(status_lines(reply->Status_0)),
                ActionView::Install(_) => match reply->Installed_0 {
                    InstallationView::Complete => self.proceed(seq![]),
                    InstallationView::Unavailable(e) => self.without(e).proceed(seq![]),
                    InstallationView::Failed(e) => self.abort(e),
                },
                _ => match reply->Done_0 {
                    Err(e) => self.abort(e),
                    Ok(_) => self.proceed(seq![]),
                },
            },
        }
    }

    /// What a run asks for when it hears `replies` in turn.
    pub open spec fn requests(self, replies: Seq<ReplyView>) -> Seq<OpView>
        decreases replies.len(),
    {
        if replies.len() == 0 {
            seq![]
        } else {
            let (state, turn) = self.after(replies[0]);
            match turn.next {
                NextView::Do(op) => seq![op] + state.requests(replies.drop_first()),
                NextView::Finish(_) => seq![],
            }
        }
    }
}

/// The run of a command line before its first turn.
pub open spec fn start_of(cli: CliView) -> RunView {
    RunView { plan: plan(cli), next: 0, missing: None, at: RunAt::Start }
}

/// The headless run of a command line.
pub fn run(cli: &Cli) -> (r: Run)
    ensures
        r@ == start_of(cli@),
        r@.wf(),
{
    Run { plan: plan_run(cli), next: 0, missing: None, at: RunAt::Start }
}

impl Run {
    /// The shape of the reply that is waited for.
    pub fn waits(&self) -> (k: ReplyKind)
        requires
            self@.wf(),
        ensures
            k == self@.waits(),
    {
        match self.at {
            RunAt::Start => ReplyKind::Start,
            RunAt::Over => ReplyKind::Never,
            RunAt::Waiting => match &self.plan {
                Ok(v) => match v[self.next - 1] {
                    Action::SetMachine(_) => ReplyKind::Text,
                    Action::ShowStatus => ReplyKind::Status,
                    Action::Install(_) => ReplyKind::Installed,
                    _ => ReplyKind::Done,
                },
                Err(_) => ReplyKind::Never,
            },
        }
    }

    fn proceed(self, log: Vec<String>) -> (r: (Run, Turn))
        requires
            self@.plan is Ok,
        ensures
            (r.0@, r.1@) == self@.proceed(crate::text::texts(log@)),
            r.1@.leads_to(r.0@.waits()),
            r.0@.wf(),
    {
        let asked = match &self.plan {
            Ok(v) => if self.next >= v.len() {
                None
            } else {
                assert(action_views(v@)[self.next as int] == v@[self.next as int]@);
                Some(make_request(&v[self.next]))
            },
            Err(_) => None,
        };
        match asked {
            None => match self.missing {
                None => (Run { missing: None, at: RunAt::Over, ..self }, turn_succeed(log)),
                Some(e) => {
                    let error = e.clone();
                    (Run { missing: Some(e), at: RunAt::Over, ..self }, turn_fail(log, error))
                },
            },
            Some(Err(e)) => (Run { at: RunAt::Over, ..self }, turn_fail(log, e)),
            Some(Ok(op)) => {
                let next: usize = self.next + 1;
                (Run { next, at: RunAt::Waiting, ..self }, turn_ask(log, op))
            },
        }
    }

    fn without(self, e: String) -> (r: Run)
        ensures
            r@ == self@.without(e@),
    {
        let missing: Option<String> = match self.missing {
            None => Some(e),
            Some(first) => Some(first),
        };
        Run { missing, ..self }
    }

    fn abort(self, e: String) -> (r: (Run, Turn))
        ensures
            (r.0@, r.1@) == self@.abort(e@),
    {
        (Run { at: RunAt::Over, ..self }, turn_fail(list0(), e))
    }

    /// Takes the reply that is waited for.
    pub fn step(self, reply: Reply) -> (r: (Run, Turn))
        requires
            self@.wf(),
            self@.waits() == reply@.kind(),
        ensures
            (r.0@, r.1@) == self@.after(reply@),
            r.1@.leads_to(r.0@.waits()),
            r.0@.wf(),
    {
        match self.at {
            RunAt::Start => match &self.plan {
                Err(e) => {
                    let e = e.clone();
                    self.abort(e)
                },
                Ok(_) => self.proceed(list0()),
            },
            _ => {
                let machine: Option<u8> = match &self.plan {
                    Ok(v) => {
                        assert(action_views(v@)[self.next - 1] == v@[self.next - 1]@);
                        match v[self.next - 1] {
                            Action::SetMachine(n) => Some(n),
                            _ => None,
                        }
                    },
                    Err(_) => None,
                };
                match reply {
                    Reply::Text(r) => match r {
                        Err(e) => self.abort(e),
                        Ok(fqdn) => {
                            let n: u8 = match machine {
                                Some(n) => n,
                                None => 0,
                            };
                            let line = "[CONFIG] Machine set to #".to_owned().concat(
                                decimal_text(n as u64).as_str(),
                            ).concat(" (").concat(fqdn.as_str()).concat(")");
                            self.proceed(list1(line))
                        },
                    },
                    Reply::Status(s) => self.proceed(print_status(&s)),
                    Reply::Installed(i) => match i {
                        Installation::Complete => self.proceed(list0()),
                        Installation::Unavailable(e) => self.without(e).proceed(list0()),
                        Installation::Failed(e) => self.abort(e),
                    },
                    Reply::Done(r) => match r {
                        Err(e) => self.abort(e),
                        Ok(_) => self.proceed(list0()),
                    },
                    _ => self.abort(String::new()),
                }
            },
        }
    }
}

/// Where a tool name is unknown or the machine number is out of range, the run ends
/// in its first turn with that error, and asks for nothing.
pub proof fn law_bad_command_line_does_nothing(cli: CliView, replies: Seq<ReplyView>)
    requires
        plan(cli) is Err,
    ensures
        ({
            let start = start_of(cli);
            &&& start.after(ReplyView::Start).1 == fail(seq![], plan(cli)->Err_0)
            &&& start.requests(replies) == Seq::<OpView>::empty()
        }),
{
}

proof fn lemma_requests_follow_plan(v: RunView, replies: Seq<ReplyView>, i: int)
    requires
        v.wf(),
        v.at != RunAt::Over,
        v.plan is Ok,
        0 <= v.next,
        0 <= i < v.requests(replies).len(),
    ensures
        v.next + i < v.plan->Ok_0.len(),
        request(v.plan->Ok_0[v.next + i]) == Ok::<OpView, Seq<char>>(v.requests(replies)[i]),
    decreases replies.len(),
{
    if replies.len() > 0 {
        let (state, turn) = v.after(replies[0]);
        if i > 0 {
            match turn.next {
                NextView::Do(op) => {
                    lemma_requests_follow_plan(state, replies.drop_first(), i - 1);
                },
                NextView::Finish(_) => {},
            }
        }
    }
}

/// Whatever is heard, the run asks for the actions of the plan in their order,
/// leaving out none before the one it stops at.
pub proof fn law_requests_follow_plan(cli: CliView, replies: Seq<ReplyView>, i: int)
    requires
        plan(cli) is Ok,
        0 <= i < start_of(cli).requests(replies).len(),
    ensures
        i < plan(cli)->Ok_0.len(),
        request(plan(cli)->Ok_0[i]) == Ok::<OpView, Seq<char>>(
            start_of(cli).requests(replies)[i],
        ),
{
    lemma_requests_follow_plan(
        start_of(cli),
        replies,
        i,
    );
}

/// Whether a reply reports the failure of an action. That a tool's media are missing is
/// none: it only makes that one tool unavailable.
pub open spec fn is_failure(reply: ReplyView) -> bool {
    ||| reply matches ReplyView::Done(Err(_))
    ||| reply matches ReplyView::Text(Err(_))
    ||| reply matches ReplyView::Installed(InstallationView::Failed(_))
}

/// An action that fails ends the run with its error; nothing is asked for any more.
pub proof fn law_failure_ends_run(v: RunView, reply: ReplyView)
    requires
        v.wf(),
        v.at == RunAt::Waiting,
        v.waits() == reply.kind(),
        is_failure(reply),
    ensures
        v.after(reply).0.at == RunAt::Over,
        reply matches ReplyView::Done(Err(e)) ==> v.after(reply).1 == fail(seq![], e),
        reply matches ReplyView::Text(Err(e)) ==> v.after(reply).1 == fail(seq![], e),
        reply matches ReplyView::Installed(InstallationView::Failed(e)) ==> v.after(reply).1
            == fail(seq![], e),
{
}

/// While no action fails, the run goes on with the next action, also where a tool's
/// media are missing. Behind the last it ends well, or with what was said of the first
/// tool whose media were missing.
pub proof fn law_run_goes_on(v: RunView, reply: ReplyView)
    requires
        v.wf(),
        v.at == RunAt::Waiting,
        v.waits() == reply.kind(),
        !is_failure(reply),
    ensures
        v.next < v.plan->Ok_0.len() && request(v.plan->Ok_0[v.next]) is Ok ==> {
            &&& v.after(reply).1.next == NextView::Do(request(v.plan->Ok_0[v.next])->Ok_0)
            &&& v.after(reply).0.next == v.next + 1
        },
        v.next == v.plan->Ok_0.len() ==> v.after(reply).1.next == NextView::Finish(
            ReplyView::Done(
                match v.after(reply).0.missing {
                    None => Ok(()),
                    Some(e) => Err(e),
                },
            ),
        ),
        v.after(reply).0.missing == (match reply {
            ReplyView::Installed(InstallationView::Unavailable(e)) => v.without(e).missing,
            _ => v.missing,
        }),
{
}

/// Whether replies answer what the plan asks for from `first` on, without a failure
/// among them.
pub open spec fn answers(plan: Seq<ActionView>, first: int, replies: Seq<ReplyView>) -> bool {
    forall|i: int| #![trigger replies[i]]
        0 <= i < replies.len() ==> replies[i].kind() == response(plan[first + i]) && !is_failure(
            replies[i],
        )
}

proof fn lemma_all_requested(v: RunView, replies: Seq<ReplyView>)
    requires
        v.wf(),
        v.at == RunAt::Waiting,
        v.next + replies.len() <= v.plan->Ok_0.len(),
        answers(v.plan->Ok_0, v.next - 1, replies),
        forall|i: int|
            0 <= i < v.plan->Ok_0.len() ==> request(#[trigger] v.plan->Ok_0[i]) is Ok,
    ensures
        v.requests(replies) == Seq::new(
            replies.len(),
            |i: int| request(v.plan->Ok_0[v.next + i])->Ok_0,
        ),
    decreases replies.len(),
{
    let expected = Seq::new(replies.len(), |i: int| request(v.plan->Ok_0[v.next + i])->Ok_0);
    if replies.len() > 0 {
        let (state, turn) = v.after(replies[0]);
        let rest = replies.drop_first();
        assert(replies[0].kind() == response(v.current()));
        law_run_goes_on(v, replies[0]);
        assert(request(v.plan->Ok_0[v.next]) is Ok);
        assert(state.plan == v.plan);
        assert(answers(state.plan->Ok_0, state.next - 1, rest)) by {
            assert forall|i: int| #![trigger rest[i]] 0 <= i < rest.len() implies rest[i].kind()
                == response(state.plan->Ok_0[state.next - 1 + i]) && !is_failure(rest[i]) by {
                assert(rest[i] == replies[i + 1]);
            }
        }
        lemma_all_requested(state, rest);
        assert(v.requests(replies) =~= expected);
    } else {
        assert(v.requests(replies) =~= expected);
    }
}

/// Every action of the plan is asked for as long as none fails, whatever tools' media
/// are missing.
pub proof fn law_missing_media_stop_nothing(cli: CliView, replies: Seq<ReplyView>)
    requires
        plan(cli) is Ok,
        replies.len() < plan(cli)->Ok_0.len(),
        answers(plan(cli)->Ok_0, 0, replies),
        forall|i: int| 0 <= i < plan(cli)->Ok_0.len() ==> request(#[trigger] plan(cli)->Ok_0[i]) is Ok,
    ensures
        start_of(cli).requests(seq![ReplyView::Start] + replies) == Seq::new(
            replies.len() + 1,
            |i: int| request(plan(cli)->Ok_0[i])->Ok_0,
        ),
{
    let start = start_of(cli);
    let all = seq![ReplyView::Start] + replies;
    let state = start.after(ReplyView::Start).0;
    assert(request(plan(cli)->Ok_0[0]) is Ok);
    assert(all[0] == ReplyView::Start);
    assert(all.drop_first() =~= replies);
    lemma_all_requested(state, replies);
    assert(start.requests(all) =~= Seq::new(
        replies.len() + 1,
        |i: int| request(plan(cli)->Ok_0[i])->Ok_0,
    ));
}

} // verus!
