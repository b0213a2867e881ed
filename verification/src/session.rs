//! Procedures that call one another: whatever a procedure asks for is either a request
//! to the machine or a call of another procedure, whose result is the reply.

use vstd::prelude::*;

use crate::bundles::{install_cadence_bundles, Bundles, BundlesAt, BundlesView};
use crate::cadence::{cadence_start, install_cadence, Cadence, CadenceView};
use crate::exchange::{
    Installer, Next, NextView, Op, OpView, Reply, ReplyKind, ReplyView, Turn, TurnView,
};
use crate::gtar::{
    install_gtar_archives, install_one_gtar_archive, Gtar, GtarAt, GtarView, Gtars, GtarsAt,
    GtarsView,
};
use crate::install::{install_one, install_start, InstallOne, InstallOneView};
use crate::preinstall::{run_preinstall, Preinstall, PreinstallAt, PreinstallView};
use crate::run::{Run, RunView};
use crate::shell::{run_cmd, RunCmd, RunCmdAt, RunCmdView};
use crate::strip::{bundle_strip_components, Strip, StripAt, StripView};
use crate::suites::{
    install_cadre, install_silvaco, install_xilinx, Suite, SuiteAt, SuiteInstall, SuiteInstallView,
};
use crate::text::texts;
use crate::unwrap::{unwrap_single_child_dirs, Unwrap, UnwrapAt, UnwrapView};
use crate::user_list::{ListUsers, ListUsersView};
use crate::user_setup::{
    create_or_configure_student_user, grant_env, CreateUser, CreateUserAt, CreateUserView, GrantEnv,
    GrantEnvAt, GrantEnvView,
};
use crate::vnc_grant::{
    ensure_vnc_user_mapping, set_vnc_password, GrantVnc, GrantVncView, MappingAt, PasswordAt,
    VncMapping, VncMappingView, VncPassword, VncPasswordView,
};

verus! {

/// What procedures need to know of the place they run at.
#[derive(Debug)]
pub struct Site {
    pub student_user: String,
    pub hostname_fqdn: String,
    /// Where each tool's media are.
    pub xilinx_dir: String,
    pub cadence_dir: String,
    pub silvaco_dir: String,
    pub cadre_dir: String,
    /// The directory for temporary files.
    pub temp_dir: String,
}

/// The model of a `Site`.
pub struct SiteView {
    pub student_user: Seq<char>,
    pub hostname_fqdn: Seq<char>,
    pub xilinx_dir: Seq<char>,
    pub cadence_dir: Seq<char>,
    pub silvaco_dir: Seq<char>,
    pub cadre_dir: Seq<char>,
    pub temp_dir: Seq<char>,
}

impl View for Site {
    type V = SiteView;

    open spec fn view(&self) -> SiteView {
        SiteView {
            student_user: self.student_user@,
            hostname_fqdn: self.hostname_fqdn@,
            xilinx_dir: self.xilinx_dir@,
            cadence_dir: self.cadence_dir@,
            silvaco_dir: self.silvaco_dir@,
            cadre_dir: self.cadre_dir@,
            temp_dir: self.temp_dir@,
        }
    }
}

/// A procedure.
#[derive(Debug)]
pub enum Procedure {
    /// A headless run.
    Run(Run),
    /// A command with its output in the log.
    RunCmd(RunCmd),
    /// The preparation of a machine.
    Preinstall(Preinstall),
    /// The installation of one tool.
    InstallOne(InstallOne),
    /// The installation of a suite.
    Suite(SuiteInstall),
    /// The installation of the Cadence tools.
    Cadence(Cadence),
    /// The unpacking of bundles.
    Bundles(Bundles),
    /// The judgement of a bundle.
    Strip(Strip),
    /// The installation of all doubly wrapped archives.
    Gtars(Gtars),
    /// The installation of one doubly wrapped archive.
    Gtar(Gtar),
    /// The descent through wrapping directories.
    Unwrap(Unwrap),
    /// The creation of an account.
    CreateUser(CreateUser),
    /// The grant of the tools' environment.
    GrantEnv(GrantEnv),
    /// The grant of a VNC session.
    GrantVnc(GrantVnc),
    /// The mapping of a display.
    VncMapping(VncMapping),
    /// The choice of a VNC password.
    VncPassword(VncPassword),
    /// The list of the lab's users.
    ListUsers(ListUsers),
}

/// The model of a `Procedure`.
pub enum ProcedureView {
    Run(RunView),
    RunCmd(RunCmdView),
    Preinstall(PreinstallView),
    InstallOne(InstallOneView),
    Suite(SuiteInstallView),
    Cadence(CadenceView),
    Bundles(BundlesView),
    Strip(StripView),
    Gtars(GtarsView),
    Gtar(GtarView),
    Unwrap(UnwrapView),
    CreateUser(CreateUserView),
    GrantEnv(GrantEnvView),
    GrantVnc(GrantVncView),
    VncMapping(VncMappingView),
    VncPassword(VncPasswordView),
    ListUsers(ListUsersView),
}

impl View for Procedure {
    type V = ProcedureView;

    open spec fn view(&self) -> ProcedureView {
        match self {
            Procedure::Run(p) => ProcedureView::Run(p@),
            Procedure::RunCmd(p) => ProcedureView::RunCmd(p@),
            Procedure::Preinstall(p) => ProcedureView::Preinstall(p@),
            Procedure::InstallOne(p) => ProcedureView::InstallOne(p@),
            Procedure::Suite(p) => ProcedureView::Suite(p@),
            Procedure::Cadence(p) => ProcedureView::Cadence(p@),
            Procedure::Bundles(p) => ProcedureView::Bundles(p@),
            Procedure::Strip(p) => ProcedureView::Strip(p@),
            Procedure::Gtars(p) => ProcedureView::Gtars(p@),
            Procedure::Gtar(p) => ProcedureView::Gtar(p@),
            Procedure::Unwrap(p) => ProcedureView::Unwrap(p@),
            Procedure::CreateUser(p) => ProcedureView::CreateUser(p@),
            Procedure::GrantEnv(p) => ProcedureView::GrantEnv(p@),
            Procedure::GrantVnc(p) => ProcedureView::GrantVnc(p@),
            Procedure::VncMapping(p) => ProcedureView::VncMapping(p@),
            Procedure::VncPassword(p) => ProcedureView::VncPassword(p@),
            Procedure::ListUsers(p) => ProcedureView::ListUsers(p@),
        }
    }
}

impl ProcedureView {
    /// What holds of every procedure.
    pub open spec fn wf(self) -> bool {
        match self {
            ProcedureView::Run(p) => p.wf(),
            ProcedureView::InstallOne(p) => p.wf(),
            ProcedureView::Cadence(p) => p.wf(),
            ProcedureView::Bundles(p) => p.wf(),
            ProcedureView::Strip(p) => p.wf(),
            ProcedureView::Gtars(p) => p.wf(),
            ProcedureView::Gtar(p) => p.wf(),
            ProcedureView::GrantVnc(p) => p.wf(),
            ProcedureView::ListUsers(p) => p.wf(),
            _ => true,
        }
    }

    /// The shape of the reply that is waited for.
    pub open spec fn waits(self) -> ReplyKind {
        match self {
            ProcedureView::Run(p) => p.waits(),
            ProcedureView::RunCmd(p) => p.waits(),
            ProcedureView::Preinstall(p) => p.waits(),
            ProcedureView::InstallOne(p) => p.waits(),
            ProcedureView::Suite(p) => p.waits(),
            ProcedureView::Cadence(p) => p.waits(),
            ProcedureView::Bundles(p) => p.waits(),
            ProcedureView::Strip(p) => p.waits(),
            ProcedureView::Gtars(p) => p.waits(),
            ProcedureView::Gtar(p) => p.waits(),
            ProcedureView::Unwrap(p) => p.waits(),
            ProcedureView::CreateUser(p) => p.waits(),
            ProcedureView::GrantEnv(p) => p.waits(),
            ProcedureView::GrantVnc(p) => p.waits(),
            ProcedureView::VncMapping(p) => p.waits(),
            ProcedureView::VncPassword(p) => p.waits(),
            ProcedureView::ListUsers(p) => p.waits(),
        }
    }

    /// The shape of the reply that the procedure ends with.
    pub open spec fn result(self) -> ReplyKind {
        match self {
            ProcedureView::InstallOne(_) => ReplyKind::Installed,
            ProcedureView::Suite(_) => ReplyKind::Installed,
            ProcedureView::Cadence(_) => ReplyKind::Installed,
            ProcedureView::Strip(_) => ReplyKind::Count,
            ProcedureView::Unwrap(_) => ReplyKind::Place,
            ProcedureView::GrantVnc(_) => ReplyKind::Text,
            ProcedureView::VncPassword(_) => ReplyKind::Text,
            ProcedureView::ListUsers(_) => ReplyKind::Users,
            _ => ReplyKind::Done,
        }
    }

    /// Whether the procedure can go on with a reply. Only the grant of a session cannot
    /// with some: where no display is left to give.
    pub open spec fn admits(self, reply: ReplyView) -> bool {
        self matches ProcedureView::GrantVnc(p) ==> p.admits(reply)
    }

    /// The turn that `reply` leads to, and the state behind it.
    pub open spec fn after(self, reply: ReplyView) -> (ProcedureView, TurnView) {
        match self {
            ProcedureView::Run(p) => (
                ProcedureView::Run(p.after(reply).0),
                p.after(reply).1,
            ),
            ProcedureView::RunCmd(p) => (
                ProcedureView::RunCmd(p.after(reply).0),
                p.after(reply).1,
            ),
            ProcedureView::Preinstall(p) => (
                ProcedureView::Preinstall(p.after(reply).0),
                p.after(reply).1,
            ),
            ProcedureView::InstallOne(p) => (
                ProcedureView::InstallOne(p.after(reply).0),
                p.after(reply).1,
            ),
            ProcedureView::Suite(p) => (
                ProcedureView::Suite(p.after(reply).0),
                p.after(reply).1,
            ),
            ProcedureView::Cadence(p) => (
                ProcedureView::Cadence(p.after(reply).0),
                p.after(reply).1,
            ),
            ProcedureView::Bundles(p) => (
                ProcedureView::Bundles(p.after(reply).0),
                p.after(reply).1,
            ),
            ProcedureView::Strip(p) => (
                ProcedureView::Strip(p.after(reply).0),
                p.after(reply).1,
            ),
            ProcedureView::Gtars(p) => (
                ProcedureView::Gtars(p.after(reply).0),
                p.after(reply).1,
            ),
            ProcedureView::Gtar(p) => (
                ProcedureView::Gtar(p.after(reply).0),
                p.after(reply).1,
            ),
            ProcedureView::Unwrap(p) => (
                ProcedureView::Unwrap(p.after(reply).0),
                p.after(reply).1,
            ),
            ProcedureView::CreateUser(p) => (
                ProcedureView::CreateUser(p.after(reply).0),
                p.after(reply).1,
            ),
            ProcedureView::GrantEnv(p) => (
                ProcedureView::GrantEnv(p.after(reply).0),
                p.after(reply).1,
            ),
            ProcedureView::GrantVnc(p) => (
                ProcedureView::GrantVnc(p.after(reply).0),
                p.after(reply).1,
            ),
            ProcedureView::VncMapping(p) => (
                ProcedureView::VncMapping(p.after(reply).0),
                p.after(reply).1,
            ),
            ProcedureView::VncPassword(p) => (
                ProcedureView::VncPassword(p.after(reply).0),
                p.after(reply).1,
            ),
            ProcedureView::ListUsers(p) => (
                ProcedureView::ListUsers(p.after(reply).0),
                p.after(reply).1,
            ),
        }
    }
}

impl Procedure {
    /// The shape of the reply that is waited for.
    pub fn waits(&self) -> (k: ReplyKind)
        requires
            self@.wf(),
        ensures
            k == self@.waits(),
    {
        match self {
            Procedure::Run(p) => p.waits(),
            Procedure::RunCmd(p) => p.waits(),
            Procedure::Preinstall(p) => p.waits(),
            Procedure::InstallOne(p) => p.waits(),
            Procedure::Suite(p) => p.waits(),
            Procedure::Cadence(p) => p.waits(),
            Procedure::Bundles(p) => p.waits(),
            Procedure::Strip(p) => p.waits(),
            Procedure::Gtars(p) => p.waits(),
            Procedure::Gtar(p) => p.waits(),
            Procedure::Unwrap(p) => p.waits(),
            Procedure::CreateUser(p) => p.waits(),
            Procedure::GrantEnv(p) => p.waits(),
            Procedure::GrantVnc(p) => p.waits(),
            Procedure::VncMapping(p) => p.waits(),
            Procedure::VncPassword(p) => p.waits(),
            Procedure::ListUsers(p) => p.waits(),
        }
    }

    /// Whether the procedure can go on with the reply.
    pub fn admits(&self, reply: &Reply) -> (r: bool)
        requires
            self@.waits() == reply@.kind(),
        ensures
            r == self@.admits(reply@),
    {
        match self {
            Procedure::GrantVnc(p) => p.admits(reply),
            _ => true,
        }
    }

    /// Takes the reply that is waited for. A procedure that ends, ends with a reply of
    /// the shape that it promises.
    pub fn step(self, reply: Reply) -> (r: (Procedure, Turn))
        requires
            self@.wf(),
            self@.waits() == reply@.kind(),
            self@.admits(reply@),
        ensures
            (r.0@, r.1@) == self@.after(reply@),
            r.1@.leads_to(r.0@.waits()),
            r.0@.wf(),
            r.0@.result() == self@.result(),
            r.1@.next matches NextView::Finish(end) ==> end.kind() == self@.result(),
    {
        proof {
            law_procedure_keeps_its_promise(self@, reply@);
        }
        match self {
            Procedure::Run(p) => {
                let (state, turn) = p.step(reply);
                (Procedure::Run(state), turn)
            },
            Procedure::RunCmd(p) => {
                let (state, turn) = p.step(reply);
                (Procedure::RunCmd(state), turn)
            },
            Procedure::Preinstall(p) => {
                let (state, turn) = p.step(reply);
                (Procedure::Preinstall(state), turn)
            },
            Procedure::InstallOne(p) => {
                let (state, turn) = p.step(reply);
                (Procedure::InstallOne(state), turn)
            },
            Procedure::Suite(p) => {
                let (state, turn) = p.step(reply);
                (Procedure::Suite(state), turn)
            },
            Procedure::Cadence(p) => {
                let (state, turn) = p.step(reply);
                (Procedure::Cadence(state), turn)
            },
            Procedure::Bundles(p) => {
                let (state, turn) = p.step(reply);
                (Procedure::Bundles(state), turn)
            },
            Procedure::Strip(p) => {
                let (state, turn) = p.step(reply);
                (Procedure::Strip(state), turn)
            },
            Procedure::Gtars(p) => {
                let (state, turn) = p.step(reply);
                (Procedure::Gtars(state), turn)
            },
            Procedure::Gtar(p) => {
                let (state, turn) = p.step(reply);
                (Procedure::Gtar(state), turn)
            },
            Procedure::Unwrap(p) => {
                let (state, turn) = p.step(reply);
                (Procedure::Unwrap(state), turn)
            },
            Procedure::CreateUser(p) => {
                let (state, turn) = p.step(reply);
                (Procedure::CreateUser(state), turn)
            },
            Procedure::GrantEnv(p) => {
                let (state, turn) = p.step(reply);
                (Procedure::GrantEnv(state), turn)
            },
            Procedure::GrantVnc(p) => {
                let (state, turn) = p.step(reply);
                (Procedure::GrantVnc(state), turn)
            },
            Procedure::VncMapping(p) => {
                let (state, turn) = p.step(reply);
                (Procedure::VncMapping(state), turn)
            },
            Procedure::VncPassword(p) => {
                let (state, turn) = p.step(reply);
                (Procedure::VncPassword(state), turn)
            },
            Procedure::ListUsers(p) => {
                let (state, turn) = p.step(reply);
                (Procedure::ListUsers(state), turn)
            },
        }
    }
}

/// The procedure that a request calls; none where it is the machine that answers.
pub open spec fn called(op: OpView, site: SiteView) -> Option<ProcedureView> {
    match op {
        OpView::RunCmd(command) => Some(
            ProcedureView::RunCmd(RunCmdView { command, at: RunCmdAt::Start }),
        ),
        OpView::Preinstall => Some(
            ProcedureView::Preinstall(
                PreinstallView {
                    student: site.student_user,
                    fqdn: site.hostname_fqdn,
                    at: PreinstallAt::Start,
                },
            ),
        ),
        OpView::InstallTool(tool) => Some(ProcedureView::InstallOne(install_start(tool))),
        OpView::Install(Installer::Xilinx) => Some(
            ProcedureView::Suite(
                SuiteInstallView {
                    suite: Suite::Xilinx,
                    dir: site.xilinx_dir,
                    at: SuiteAt::Start,
                },
            ),
        ),
        OpView::Install(Installer::Silvaco(part)) => Some(
            ProcedureView::Suite(
                SuiteInstallView {
                    suite: Suite::Silvaco(part),
                    dir: site.silvaco_dir,
                    at: SuiteAt::Start,
                },
            ),
        ),
        OpView::Install(Installer::Cadre) => Some(
            ProcedureView::Suite(
                SuiteInstallView { suite: Suite::Cadre, dir: site.cadre_dir, at: SuiteAt::Start },
            ),
        ),
        OpView::Install(Installer::Cadence) => Some(
            ProcedureView::Cadence(cadence_start(site.cadence_dir)),
        ),
        OpView::CreateUser(username, role, identifier) => Some(
            ProcedureView::CreateUser(
                CreateUserView { username, role, identifier, at: CreateUserAt::Start },
            ),
        ),
        OpView::GrantEnv(username) => Some(
            ProcedureView::GrantEnv(GrantEnvView { username, at: GrantEnvAt::Start }),
        ),
        OpView::CadenceBundles(dir, names) => Some(
            ProcedureView::Bundles(
                BundlesView {
                    dir,
                    names,
                    next: 0,
                    strip: 0,
                    before: seq![],
                    dirs: seq![],
                    marked: 0,
                    failed: false,
                    at: BundlesAt::Start,
                },
            ),
        ),
        OpView::StripComponents(dir, name) => Some(
            ProcedureView::Strip(
                StripView { dir, name, tops: seq![], seen: 0, at: StripAt::Start },
            ),
        ),
        OpView::GtarArchives(dir) => Some(
            ProcedureView::Gtars(
                GtarsView { dir, names: seq![], next: 0, at: GtarsAt::Start },
            ),
        ),
        OpView::GtarArchive(dir, name) => Some(
            ProcedureView::Gtar(
                GtarView {
                    dir,
                    name,
                    temp: site.temp_dir,
                    payload: seq![],
                    names: seq![],
                    next: 0,
                    moved: 0,
                    at: GtarAt::Start,
                },
            ),
        ),
        OpView::UnwrapDirs(start) => Some(
            ProcedureView::Unwrap(UnwrapView { current: start, at: UnwrapAt::Start }),
        ),
        OpView::EnsureVncMapping(display, username) => Some(
            ProcedureView::VncMapping(
                VncMappingView { display, username, at: MappingAt::Start },
            ),
        ),
        OpView::SetVncPassword(username) => Some(
            ProcedureView::VncPassword(
                VncPasswordView {
                    username,
                    password: seq![],
                    secret: seq![],
                    at: PasswordAt::Start,
                },
            ),
        ),
        _ => None,
    }
}

/// Whether a request calls a procedure, or is for the machine to answer.
#[derive(Debug)]
pub enum Request {
    Call(Procedure),
    Machine(Op),
}

/// Tells a call of a procedure from a request to the machine.
pub fn call(op: Op, site: &Site) -> (r: Request)
    ensures
        match r {
            Request::Call(p) => called(op@, site@) == Some(p@),
            Request::Machine(o) => called(op@, site@) is None && o@ == op@,
        },
{
    match op {
        Op::RunCmd(c) => Request::Call(Procedure::RunCmd(run_cmd(c))),
        Op::Preinstall => Request::Call(
            Procedure::Preinstall(
                run_preinstall(site.student_user.clone(), site.hostname_fqdn.clone()),
            ),
        ),
        Op::InstallTool(tool) => Request::Call(
            Procedure::InstallOne(install_one(tool.as_str())),
        ),
        Op::Install(i) => Request::Call(
            match i {
                Installer::Xilinx => Procedure::Suite(install_xilinx(site.xilinx_dir.clone())),
                Installer::Cadence => Procedure::Cadence(
                    install_cadence(site.cadence_dir.clone()),
                ),
                Installer::Silvaco(part) => Procedure::Suite(
                    install_silvaco(site.silvaco_dir.clone(), part),
                ),
                Installer::Cadre => Procedure::Suite(install_cadre(site.cadre_dir.clone())),
            },
        ),
        Op::CreateUser(username, role, identifier) => Request::Call(
            Procedure::CreateUser(
                create_or_configure_student_user(
                    username.as_str(),
                    role.as_str(),
                    identifier.as_str(),
                ),
            ),
        ),
        Op::GrantEnv(username) => Request::Call(
            Procedure::GrantEnv(grant_env(username.as_str())),
        ),
        Op::CadenceBundles(dir, names) => Request::Call(
            Procedure::Bundles(install_cadence_bundles(dir, names)),
        ),
        Op::StripComponents(dir, name) => Request::Call(
            Procedure::Strip(bundle_strip_components(dir, name)),
        ),
        Op::GtarArchives(dir) => Request::Call(Procedure::Gtars(install_gtar_archives(dir))),
        Op::GtarArchive(dir, name) => Request::Call(
            Procedure::Gtar(install_one_gtar_archive(dir, name, site.temp_dir.clone())),
        ),
        Op::UnwrapDirs(start) => Request::Call(
            Procedure::Unwrap(unwrap_single_child_dirs(start)),
        ),
        Op::EnsureVncMapping(display, username) => Request::Call(
            Procedure::VncMapping(ensure_vnc_user_mapping(display.as_str(), username.as_str())),
        ),
        Op::SetVncPassword(username) => Request::Call(
            Procedure::VncPassword(set_vnc_password(username.as_str())),
        ),
        o => Request::Machine(o),
    }
}

/// A procedure that is called starts afresh and ends with the reply that its caller
/// waits for.
pub proof fn law_call_answers_the_request(op: OpView, site: SiteView)
    ensures
        called(op, site) matches Some(p) ==> {
            &&& p.wf()
            &&& p.waits() == ReplyKind::Start
            &&& p.result() == op.answer()
        },
{
    if let OpView::GtarArchive(_, _) = op {
        assert(called(op, site)->Some_0->Gtar_0.wf());
    }
}

/// The models of procedures.
pub open spec fn procedure_views(v: Seq<Procedure>) -> Seq<ProcedureView> {
    v.map_values(|p: Procedure| p@)
}

/// What is to be done behind a turn.
#[derive(Debug)]
pub enum Todo {
    /// Ask the machine and hand in its reply.
    Perform(Op),
    /// Hand in this reply at once.
    Resume(Reply),
    /// Nothing: this is the result.
    Done(Reply),
}

/// The model of a `Todo`.
pub enum TodoView {
    Perform(OpView),
    Resume(ReplyView),
    Done(ReplyView),
}

impl View for Todo {
    type V = TodoView;

    open spec fn view(&self) -> TodoView {
        match self {
            Todo::Perform(op) => TodoView::Perform(op@),
            Todo::Resume(r) => TodoView::Resume(r@),
            Todo::Done(r) => TodoView::Done(r@),
        }
    }
}

/// A procedure that was started, with those that wait for what they called.
#[derive(Debug)]
pub struct Session {
    stack: Vec<Procedure>,
}

/// The model of a `Session`: the procedure that runs is the last, and each of the others
/// waits for the one behind it.
pub struct SessionView {
    pub stack: Seq<ProcedureView>,
}

impl View for Session {
    type V = SessionView;

    closed spec fn view(&self) -> SessionView {
        SessionView { stack: procedure_views(self.stack@) }
    }
}

impl SessionView {
    /// What holds of every session: whoever waits, waits for a reply of the shape that
    /// will come.
    pub open spec fn wf(self) -> bool {
        &&& forall|i: int| 0 <= i < self.stack.len() ==> (#[trigger] self.stack[i]).wf()
        &&& forall|i: int, j: int|
            #![trigger self.stack[i], self.stack[j]]
            0 <= i < self.stack.len() - 1 && j == i + 1 ==> self.stack[i].waits()
                == self.stack[j].result()
    }

    /// Whether the session can take the reply.
    pub open spec fn takes(self, reply: ReplyView) -> bool {
        &&& self.stack.len() > 0
        &&& self.stack.last().waits() == reply.kind()
        &&& self.stack.last().admits(reply)
    }

    /// The log lines that `reply` leads to, what is to be done behind them, and the
    /// session then.
    pub open spec fn after(self, reply: ReplyView, site: SiteView) -> (
        SessionView,
        Seq<Seq<char>>,
        TodoView,
    ) {
        let (state, turn) = self.stack.last().after(reply);
        let waiting = self.stack.drop_last();
        match turn.next {
            NextView::Do(op) => match called(op, site) {
                Some(callee) => (
                    SessionView { stack: waiting.push(state).push(callee) },
                    turn.log,
                    TodoView::Resume(ReplyView::Start),
                ),
                None => (
                    SessionView { stack: waiting.push(state) },
                    turn.log,
                    TodoView::Perform(op),
                ),
            },
            NextView::Finish(r) => (
                SessionView { stack: waiting },
                turn.log,
                if waiting.len() == 0 {
                    TodoView::Done(r)
                } else {
                    TodoView::Resume(r)
                },
            ),
        }
    }

    /// Whether the session can go on with what is to be done: the reply, whenever it
    /// comes, has the shape that is waited for.
    pub open spec fn goes_on(self, todo: TodoView) -> bool {
        match todo {
            TodoView::Perform(op) => self.stack.len() > 0 && self.stack.last().waits()
                == op.answer(),
            TodoView::Resume(r) => self.stack.len() > 0 && self.stack.last().waits() == r.kind(),
            TodoView::Done(_) => self.stack.len() == 0,
        }
    }
}

/// Starts a procedure.
pub fn start(procedure: Procedure) -> (r: Session)
    requires
        procedure@.wf(),
    ensures
        r@ == (SessionView { stack: seq![procedure@] }),
        r@.wf(),
{
    let ghost p = procedure@;
    let mut stack: Vec<Procedure> = Vec::new();
    stack.push(procedure);
    let r = Session { stack };
    assert(r@.stack =~= seq![p]);
    r
}

impl Session {
    /// The shape of the reply that is waited for.
    pub fn waits(&self) -> (k: ReplyKind)
        requires
            self@.wf(),
        ensures
            k == (if self@.stack.len() == 0 {
                ReplyKind::Never
            } else {
                self@.stack.last().waits()
            }),
    {
        let n: usize = self.stack.len();
        if n == 0 {
            ReplyKind::Never
        } else {
            assert(self@.stack[n - 1] == self.stack@[n - 1]@);
            self.stack[n - 1].waits()
        }
    }

    /// Whether the session can take the reply.
    pub fn takes(&self, reply: &Reply) -> (r: bool)
        requires
            self@.wf(),
        ensures
            r == self@.takes(reply@),
    {
        let n: usize = self.stack.len();
        if n == 0 {
            return false;
        }
        assert(self@.stack[n - 1] == self.stack@[n - 1]@);
        self.stack[n - 1].waits() == reply.kind() && self.stack[n - 1].admits(reply)
    }

    /// Takes the reply that is waited for.
    pub fn step(self, reply: Reply, site: &Site) -> (r: (Session, Vec<String>, Todo))
        requires
            self@.wf(),
            self@.takes(reply@),
        ensures
            (r.0@, texts(r.1@), r.2@) == self@.after(reply@, site@),
            r.0@.goes_on(r.2@),
            r.0@.wf(),
    {
        let ghost before = self@;
        let mut stack = self.stack;
        let ghost whole = stack@;
        let top = stack.pop().unwrap();
        assert(procedure_views(stack@) =~= before.stack.drop_last());
        assert(top@ == before.stack.last());
        assert(before.stack[before.stack.len() - 1].wf());
        let (state, turn) = top.step(reply);
        let Turn { log, next } = turn;
        match next {
            Next::Do(op) => {
                let ghost asked = op@;
                let ghost running = state@;
                stack.push(state);
                assert(procedure_views(stack@) =~= before.stack.drop_last().push(running));
                match call(op, site) {
                    Request::Call(callee) => {
                        let ghost new = callee@;
                        proof {
                            law_call_answers_the_request(asked, site@);
                        }
                        stack.push(callee);
                        assert(procedure_views(stack@) =~= before.stack.drop_last().push(
                            running,
                        ).push(new));
                        (Session { stack }, log, Todo::Resume(Reply::Start))
                    },
                    Request::Machine(op) => (Session { stack }, log, Todo::Perform(op)),
                }
            },
            Next::Finish(r) => {
                if stack.len() == 0 {
                    (Session { stack }, log, Todo::Done(r))
                } else {
                    proof {
                        let n = before.stack.len() as int;
                        assert(before.stack[n - 2].waits() == before.stack[n - 1].result());
                    }
                    (Session { stack }, log, Todo::Resume(r))
                }
            },
        }
    }
}

proof fn lemma_run_promise(p: RunView, reply: ReplyView)
    requires
        p.wf(),
        p.waits() == reply.kind(),
    ensures
        p.after(reply).1.leads_to(p.after(reply).0.waits()),
        p.after(reply).1.next matches NextView::Finish(end) ==> end.kind() == ReplyKind::Done,
{
}

proof fn lemma_run_cmd_promise(p: RunCmdView, reply: ReplyView)
    requires
        p.waits() == reply.kind(),
    ensures
        p.after(reply).1.leads_to(p.after(reply).0.waits()),
        p.after(reply).1.next matches NextView::Finish(end) ==> end.kind() == ReplyKind::Done,
{
}

proof fn lemma_preinstall_promise(p: PreinstallView, reply: ReplyView)
    requires
        p.waits() == reply.kind(),
    ensures
        p.after(reply).1.leads_to(p.after(reply).0.waits()),
        p.after(reply).1.next matches NextView::Finish(end) ==> end.kind() == ReplyKind::Done,
{
}

proof fn lemma_install_one_promise(p: InstallOneView, reply: ReplyView)
    requires
        p.wf(),
        p.waits() == reply.kind(),
    ensures
        p.after(reply).1.leads_to(p.after(reply).0.waits()),
        p.after(reply).1.next matches NextView::Finish(end) ==> end.kind() == ReplyKind::Installed,
{
}

proof fn lemma_suite_promise(p: SuiteInstallView, reply: ReplyView)
    requires
        p.waits() == reply.kind(),
    ensures
        p.after(reply).1.leads_to(p.after(reply).0.waits()),
        p.after(reply).1.next matches NextView::Finish(end) ==> end.kind() == ReplyKind::Installed,
{
}

proof fn lemma_cadence_promise(p: CadenceView, reply: ReplyView)
    requires
        p.wf(),
        p.waits() == reply.kind(),
    ensures
        p.after(reply).1.leads_to(p.after(reply).0.waits()),
        p.after(reply).1.next matches NextView::Finish(end) ==> end.kind() == ReplyKind::Installed,
{
}

proof fn lemma_bundles_promise(p: BundlesView, reply: ReplyView)
    requires
        p.wf(),
        p.waits() == reply.kind(),
    ensures
        p.after(reply).1.leads_to(p.after(reply).0.waits()),
        p.after(reply).1.next matches NextView::Finish(end) ==> end.kind() == ReplyKind::Done,
{
}

proof fn lemma_strip_promise(p: StripView, reply: ReplyView)
    requires
        p.wf(),
        p.waits() == reply.kind(),
    ensures
        p.after(reply).1.leads_to(p.after(reply).0.waits()),
        p.after(reply).1.next matches NextView::Finish(end) ==> end.kind() == ReplyKind::Count,
{
}

proof fn lemma_gtars_promise(p: GtarsView, reply: ReplyView)
    requires
        p.wf(),
        p.waits() == reply.kind(),
    ensures
        p.after(reply).1.leads_to(p.after(reply).0.waits()),
        p.after(reply).1.next matches NextView::Finish(end) ==> end.kind() == ReplyKind::Done,
{
}

proof fn lemma_gtar_promise(p: GtarView, reply: ReplyView)
    requires
        p.wf(),
        p.waits() == reply.kind(),
    ensures
        p.after(reply).1.leads_to(p.after(reply).0.waits()),
        p.after(reply).1.next matches NextView::Finish(end) ==> end.kind() == ReplyKind::Done,
{
}

proof fn lemma_unwrap_promise(p: UnwrapView, reply: ReplyView)
    requires
        p.waits() == reply.kind(),
    ensures
        p.after(reply).1.leads_to(p.after(reply).0.waits()),
        p.after(reply).1.next matches NextView::Finish(end) ==> end.kind() == ReplyKind::Place,
{
}

proof fn lemma_create_user_promise(p: CreateUserView, reply: ReplyView)
    requires
        p.waits() == reply.kind(),
    ensures
        p.after(reply).1.leads_to(p.after(reply).0.waits()),
        p.after(reply).1.next matches NextView::Finish(end) ==> end.kind() == ReplyKind::Done,
{
}

proof fn lemma_grant_env_promise(p: GrantEnvView, reply: ReplyView)
    requires
        p.waits() == reply.kind(),
    ensures
        p.after(reply).1.leads_to(p.after(reply).0.waits()),
        p.after(reply).1.next matches NextView::Finish(end) ==> end.kind() == ReplyKind::Done,
{
}

proof fn lemma_grant_vnc_promise(p: GrantVncView, reply: ReplyView)
    requires
        p.wf(),
        p.waits() == reply.kind(),
    ensures
        p.after(reply).1.leads_to(p.after(reply).0.waits()),
        p.after(reply).1.next matches NextView::Finish(end) ==> end.kind() == ReplyKind::Text,
{
}

proof fn lemma_vnc_mapping_promise(p: VncMappingView, reply: ReplyView)
    requires
        p.waits() == reply.kind(),
    ensures
        p.after(reply).1.leads_to(p.after(reply).0.waits()),
        p.after(reply).1.next matches NextView::Finish(end) ==> end.kind() == ReplyKind::Done,
{
}

proof fn lemma_vnc_password_promise(p: VncPasswordView, reply: ReplyView)
    requires
        p.waits() == reply.kind(),
    ensures
        p.after(reply).1.leads_to(p.after(reply).0.waits()),
        p.after(reply).1.next matches NextView::Finish(end) ==> end.kind() == ReplyKind::Text,
{
}

proof fn lemma_list_users_promise(p: ListUsersView, reply: ReplyView)
    requires
        p.wf(),
        p.waits() == reply.kind(),
    ensures
        p.after(reply).1.leads_to(p.after(reply).0.waits()),
        p.after(reply).1.next matches NextView::Finish(end) ==> end.kind() == ReplyKind::Users,
{
}

/// A procedure waits for the reply to what it asked for, and ends with a reply of the
/// shape that it promised from the start.
pub proof fn law_procedure_keeps_its_promise(p: ProcedureView, reply: ReplyView)
    requires
        p.wf(),
        p.waits() == reply.kind(),
        p.admits(reply),
    ensures
        p.after(reply).1.leads_to(p.after(reply).0.waits()),
        p.after(reply).0.result() == p.result(),
        p.after(reply).1.next matches NextView::Finish(end) ==> end.kind() == p.result(),
{
    match p {
        ProcedureView::Run(q) => lemma_run_promise(q, reply),
        ProcedureView::RunCmd(q) => lemma_run_cmd_promise(q, reply),
        ProcedureView::Preinstall(q) => lemma_preinstall_promise(q, reply),
        ProcedureView::InstallOne(q) => lemma_install_one_promise(q, reply),
        ProcedureView::Suite(q) => lemma_suite_promise(q, reply),
        ProcedureView::Cadence(q) => lemma_cadence_promise(q, reply),
        ProcedureView::Bundles(q) => lemma_bundles_promise(q, reply),
        ProcedureView::Strip(q) => lemma_strip_promise(q, reply),
        ProcedureView::Gtars(q) => lemma_gtars_promise(q, reply),
        ProcedureView::Gtar(q) => lemma_gtar_promise(q, reply),
        ProcedureView::Unwrap(q) => lemma_unwrap_promise(q, reply),
        ProcedureView::CreateUser(q) => lemma_create_user_promise(q, reply),
        ProcedureView::GrantEnv(q) => lemma_grant_env_promise(q, reply),
        ProcedureView::GrantVnc(q) => lemma_grant_vnc_promise(q, reply),
        ProcedureView::VncMapping(q) => lemma_vnc_mapping_promise(q, reply),
        ProcedureView::VncPassword(q) => lemma_vnc_password_promise(q, reply),
        ProcedureView::ListUsers(q) => lemma_list_users_promise(q, reply),
    }
}

/// A session ends with the result of the procedure that it was started with, and that
/// result has the shape that the procedure promised.
pub proof fn law_session_keeps_its_promise(v: SessionView, reply: ReplyView, site: SiteView)
    requires
        v.wf(),
        v.takes(reply),
    ensures
        match v.after(reply, site).2 {
            TodoView::Done(r) => v.stack.len() == 1 && r.kind() == v.stack[0].result(),
            _ => {
                &&& v.after(reply, site).0.stack.len() > 0
                &&& v.after(reply, site).0.stack[0].result() == v.stack[0].result()
            },
        },
{
    assert(v.stack[v.stack.len() - 1].wf());
    law_procedure_keeps_its_promise(v.stack.last(), reply);
}

/// A call runs first, and its caller hears nothing but its result: everything below the
/// running procedure stays as it is until that procedure has ended.
pub proof fn law_callers_wait(v: SessionView, reply: ReplyView, site: SiteView, i: int)
    requires
        v.takes(reply),
        0 <= i < v.stack.len() - 1,
    ensures
        i < v.after(reply, site).0.stack.len(),
        v.after(reply, site).0.stack[i] == v.stack[i],
{
}

} // verus!
