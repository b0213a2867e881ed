//! Preparing a machine before any tool is installed.

use vstd::prelude::*;

use crate::exchange::{
    args2, args3, args6, ask, command, fail, list0, list1, list2, make_command, succeed, turn_ask,
    turn_fail, turn_succeed, with, CommandView, NextView, Op, OpView, ProcessEnd, ProcessEndView,
    Reply, ReplyKind, ReplyView, Turn, TurnView,
};
use crate::text::texts;
use crate::users::{id_command, make_id_command};

verus! {

/// The packages that every machine gets, behind the arguments of the package manager.
/// The last four are there for the X screen-saver extension that graphical tools link
/// against, for the licence components that come with them, for the stack traces that
/// they look for at startup, and for remote sessions.
pub open spec fn package_args() -> Seq<Seq<char>> {
    seq![
        "install"@,
        "-y"@,
        "epel-release"@,
        "tcsh"@,
        "csh"@,
        "ksh"@,
        "gcc"@,
        "gcc-c++"@,
        "make"@,
        "flex"@,
        "bison"@,
        "patch"@,
        "libX11-devel"@,
        "libXext-devel"@,
        "libXrender-devel"@,
        "libXrandr-devel"@,
        "libXt-devel"@,
        "libXtst-devel"@,
        "libXi-devel"@,
        "libXft-devel"@,
        "libXp"@,
        "motif"@,
        "motif-devel"@,
        "ncurses-compat-libs"@,
        "xorg-x11-fonts-Type1"@,
        "xorg-x11-fonts-75dpi"@,
        "xorg-x11-fonts-100dpi"@,
        "mesa-libGL"@,
        "mesa-libGLU"@,
        "glu"@,
        "compat-openssl10"@,
        "redhat-lsb"@,
        "libpng12"@,
        "libpng12.i686"@,
        "glibc.i686"@,
        "libX11.i686"@,
        "libXScrnSaver"@,
        "apr-util"@,
        "gdb"@,
        "tigervnc-server"@,
    ]
}

fn make_package_args() -> (v: Vec<String>)
    ensures
        texts(v@) == package_args(),
{
    let v = args2("install", "-y");
    let v = with(v, "epel-release".to_owned());
    let v = with(v, "tcsh".to_owned());
    let v = with(v, "csh".to_owned());
    let v = with(v, "ksh".to_owned());
    let v = with(v, "gcc".to_owned());
    let v = with(v, "gcc-c++".to_owned());
    let v = with(v, "make".to_owned());
    let v = with(v, "flex".to_owned());
    let v = with(v, "bison".to_owned());
    let v = with(v, "patch".to_owned());
    let v = with(v, "libX11-devel".to_owned());
    let v = with(v, "libXext-devel".to_owned());
    let v = with(v, "libXrender-devel".to_owned());
    let v = with(v, "libXrandr-devel".to_owned());
    let v = with(v, "libXt-devel".to_owned());
    let v = with(v, "libXtst-devel".to_owned());
    let v = with(v, "libXi-devel".to_owned());
    let v = with(v, "libXft-devel".to_owned());
    let v = with(v, "libXp".to_owned());
    let v = with(v, "motif".to_owned());
    let v = with(v, "motif-devel".to_owned());
    let v = with(v, "ncurses-compat-libs".to_owned());
    let v = with(v, "xorg-x11-fonts-Type1".to_owned());
    let v = with(v, "xorg-x11-fonts-75dpi".to_owned());
    let v = with(v, "xorg-x11-fonts-100dpi".to_owned());
    let v = with(v, "mesa-libGL".to_owned());
    let v = with(v, "mesa-libGLU".to_owned());
    let v = with(v, "glu".to_owned());
    let v = with(v, "compat-openssl10".to_owned());
    let v = with(v, "redhat-lsb".to_owned());
    let v = with(v, "libpng12".to_owned());
    let v = with(v, "libpng12.i686".to_owned());
    let v = with(v, "glibc.i686".to_owned());
    let v = with(v, "libX11.i686".to_owned());
    let v = with(v, "libXScrnSaver".to_owned());
    let v = with(v, "apr-util".to_owned());
    let v = with(v, "gdb".to_owned());
    let v = with(v, "tigervnc-server".to_owned());
    v
}

/// The command that names the machine.
pub open spec fn hostname_command(fqdn: Seq<char>) -> CommandView {
    command("hostnamectl"@, seq!["set-hostname"@, fqdn])
}

/// The command that creates the student account.
pub open spec fn student_command(username: Seq<char>) -> CommandView {
    command(
        "useradd"@,
        seq!["-m"@, "-s"@, "/bin/bash"@, "-c"@, "VLSI Lab Student"@, username],
    )
}

/// The command that creates the group of the tools' users.
pub open spec fn group_command() -> CommandView {
    command("groupadd"@, seq!["-f"@, "edausers"@])
}

/// The display manager's configuration.
pub open spec fn display_conf() -> Seq<char> {
    "/etc/gdm/custom.conf"@
}

/// The command that makes the display manager use X11.
pub open spec fn display_command() -> CommandView {
    command(
        "sed"@,
        seq!["-i"@, "s/^#WaylandEnable=false/WaylandEnable=false/"@, display_conf()],
    )
}

/// The limits that the student account gets.
pub open spec fn limits_text(username: Seq<char>) -> Seq<char> {
    "\n# VLSI Lab limits\n"@ + username + " hard nofile 65536\n"@ + username
        + " soft nofile 65536\n"@ + username + " hard nproc 65536\n"@ + username
        + " soft nproc 65536\n"@
}

/// The limits that the student account gets.
pub fn make_limits(username: &str) -> (r: String)
    ensures
        r@ == limits_text(username@),
{
    "\n# VLSI Lab limits\n".to_owned().concat(username).concat(" hard nofile 65536\n").concat(
        username,
    ).concat(" soft nofile 65536\n").concat(username).concat(" hard nproc 65536\n").concat(
        username,
    ).concat(" soft nproc 65536\n")
}

/// Where the preparation stands.
#[derive(Debug, Clone, Copy, PartialEq, Eq, Structural)]
pub enum PreinstallAt {
    Start,
    Named,
    Packaged,
    UserChecked,
    UserMade,
    Grouped,
    ConfFound,
    ConfEdited,
    Limited,
    Marked,
    Over,
}

/// Prepares a machine.
#[derive(Debug)]
pub struct Preinstall {
    student: String,
    fqdn: String,
    at: PreinstallAt,
}

/// The model of a `Preinstall`.
pub struct PreinstallView {
    /// The student account.
    pub student: Seq<char>,
    /// The machine's full name.
    pub fqdn: Seq<char>,
    pub at: PreinstallAt,
}

impl View for Preinstall {
    type V = PreinstallView;

    closed spec fn view(&self) -> PreinstallView {
        PreinstallView { student: self.student@, fqdn: self.fqdn@, at: self.at }
    }
}

impl PreinstallView {
    /// The shape of the reply that is waited for.
    pub open spec fn waits(self) -> ReplyKind {
        match self.at {
            PreinstallAt::Start => ReplyKind::Start,
            PreinstallAt::UserChecked => ReplyKind::Ended,
            PreinstallAt::ConfFound => ReplyKind::Flag,
            PreinstallAt::Over => ReplyKind::Never,
            _ => ReplyKind::Done,
        }
    }

    /// On to another state with a request.
    pub open spec fn go(self, at: PreinstallAt, log: Seq<Seq<char>>, op: OpView) -> (
        PreinstallView,
        TurnView,
    ) {
        (PreinstallView { at, ..self }, ask(log, op))
    }

    /// The end.
    pub open spec fn end(self, turn: TurnView) -> (PreinstallView, TurnView) {
        (PreinstallView { at: PreinstallAt::Over, ..self }, turn)
    }

    /// On to the group, with `line` said of the student account.
    pub open spec fn group(self, line: Seq<char>) -> (PreinstallView, TurnView) {
        self.go(
            PreinstallAt::Grouped,
            seq![line, "[STEP 4/6] Ensuring 'edausers' group exists..."@],
            OpView::RunCmd(group_command()),
        )
    }

    /// On to the limits.
    pub open spec fn limit(self) -> (PreinstallView, TurnView) {
        self.go(
            PreinstallAt::Limited,
            seq!["[STEP 6/6] Updating /etc/security/limits.conf for EDA tools..."@],
            OpView::AppendText("/etc/security/limits.conf"@, limits_text(self.student)),
        )
    }

    /// The turn that `reply` leads to, and the state behind it.
    pub open spec fn after(self, reply: ReplyView) -> (PreinstallView, TurnView) {
        match self.at {
            PreinstallAt::Start => self.go(
                PreinstallAt::Named,
                seq![
                    "[INFO] Starting Phase 0: Pre-installation & System Dependencies..."@,
                    "[STEP 1/6] Setting system hostname to "@ + self.fqdn + "..."@,
                ],
                OpView::RunCmd(hostname_command(self.fqdn)),
            ),
            PreinstallAt::Named => match reply->Done_0 {
                Err(e) => self.end(fail(seq![], e)),
                Ok(_) => self.go(
                    PreinstallAt::Packaged,
                    seq!["[STEP 2/6] Installing EPEL repository and system build packages..."@],
                    OpView::RunCmd(command("dnf"@, package_args())),
                ),
            },
            PreinstallAt::Packaged => self.go(
                PreinstallAt::UserChecked,
                seq!["[STEP 3/6] Setting up student user '"@ + self.student + "'..."@],
                OpView::Quiet(id_command(self.student)),
            ),
            PreinstallAt::UserChecked => if reply->Ended_0 == ProcessEndView::Exited(
                Some(0i32),
            ) {
                self.group("[INFO] Student user '"@ + self.student + "' already exists."@)
            } else {
                self.go(
                    PreinstallAt::UserMade,
                    seq![],
                    OpView::RunCmd(student_command(self.student)),
                )
            },
            PreinstallAt::UserMade => match reply->Done_0 {
                Err(e) => self.end(fail(seq![], e)),
                Ok(_) => self.group("[SUCCESS] Created student user '"@ + self.student + "'."@),
            },
            PreinstallAt::Grouped => self.go(
                PreinstallAt::ConfFound,
                seq!["[STEP 5/6] Ensuring GDM uses X11 for EDA GUI compatibility..."@],
                OpView::Exists(display_conf()),
            ),
            PreinstallAt::ConfFound => if reply->Flag_0 {
                self.go(PreinstallAt::ConfEdited, seq![], OpView::RunCmd(display_command()))
            } else {
                self.limit()
            },
            PreinstallAt::ConfEdited => self.limit(),
            PreinstallAt::Limited => self.go(
                PreinstallAt::Marked,
                seq![],
                OpView::MarkPhase("PRE_INSTALL"@),
            ),
            _ => match reply->Done_0 {
                Err(e) => self.end(fail(seq![], e)),
                Ok(_) => self.end(
                    succeed(
                        seq!["[SUCCESS] Phase 0 Pre-installation completed successfully!"@],
                    ),
                ),
            },
        }
    }
}

/// The preparation of the machine `hostname_fqdn` with the student account
/// `student_user`.
pub fn run_preinstall(student_user: String, hostname_fqdn: String) -> (r: Preinstall)
    ensures
        r@ == (PreinstallView {
            student: student_user@,
            fqdn: hostname_fqdn@,
            at: PreinstallAt::Start,
        }),
{
    Preinstall { student: student_user, fqdn: hostname_fqdn, at: PreinstallAt::Start }
}

impl Preinstall {
    /// The shape of the reply that is waited for.
    pub fn waits(&self) -> (k: ReplyKind)
        ensures
            k == self@.waits(),
    {
        match self.at {
            PreinstallAt::Start => ReplyKind::Start,
            PreinstallAt::UserChecked => ReplyKind::Ended,
            PreinstallAt::ConfFound => ReplyKind::Flag,
            PreinstallAt::Over => ReplyKind::Never,
            _ => ReplyKind::Done,
        }
    }

    fn go(self, at: PreinstallAt, log: Vec<String>, op: Op) -> (r: (Preinstall, Turn))
        ensures
            (r.0@, r.1@) == self@.go(at, texts(log@), op@),
    {
        (Preinstall { at, ..self }, turn_ask(log, op))
    }

    fn end(self, turn: Turn) -> (r: (Preinstall, Turn))
        ensures
            (r.0@, r.1@) == self@.end(turn@),
    {
        (Preinstall { at: PreinstallAt::Over, ..self }, turn)
    }

    fn group(self, line: String) -> (r: (Preinstall, Turn))
        ensures
            (r.0@, r.1@) == self@.group(line@),
    {
        let log = list2(line, "[STEP 4/6] Ensuring 'edausers' group exists...".to_owned());
        let c = make_command("groupadd", args2("-f", "edausers"));
        self.go(PreinstallAt::Grouped, log, Op::RunCmd(c))
    }

    fn limit(self) -> (r: (Preinstall, Turn))
        ensures
            (r.0@, r.1@) == self@.limit(),
    {
        let log = list1(
            "[STEP 6/6] Updating /etc/security/limits.conf for EDA tools...".to_owned(),
        );
        let text = make_limits(self.student.as_str());
        self.go(
            PreinstallAt::Limited,
            log,
            Op::AppendText("/etc/security/limits.conf".to_owned(), text),
        )
    }

    /// Takes the reply that is waited for.
    pub fn step(self, reply: Reply) -> (r: (Preinstall, Turn))
        requires
            self@.waits() == reply@.kind(),
        ensures
            (r.0@, r.1@) == self@.after(reply@),
            r.1@.leads_to(r.0@.waits()),
    {
        match self.at {
            PreinstallAt::Start => {
                let log = list2(
                    "[INFO] Starting Phase 0: Pre-installation & System Dependencies...".to_owned(),
                    "[STEP 1/6] Setting system hostname to ".to_owned().concat(
                        self.fqdn.as_str(),
                    ).concat("..."),
                );
                let c = make_command("hostnamectl", args2("set-hostname", self.fqdn.as_str()));
                self.go(PreinstallAt::Named, log, Op::RunCmd(c))
            },
            PreinstallAt::Named => match reply.done() {
                Err(e) => self.end(turn_fail(list0(), e)),
                Ok(_) => {
                    let log = list1(
                        "[STEP 2/6] Installing EPEL repository and system build packages...".to_owned(),
                    );
                    let c = make_command("dnf", make_package_args());
                    self.go(PreinstallAt::Packaged, log, Op::RunCmd(c))
                },
            },
            PreinstallAt::Packaged => {
                let log = list1(
                    "[STEP 3/6] Setting up student user '".to_owned().concat(
                        self.student.as_str(),
                    ).concat("'..."),
                );
                let c = make_id_command(self.student.as_str());
                self.go(PreinstallAt::UserChecked, log, Op::Quiet(c))
            },
            PreinstallAt::UserChecked => {
                let known = match reply.ended() {
                    ProcessEnd::Exited(code) => code == Some(0i32),
                    _ => false,
                };
                if known {
                    let line = "[INFO] Student user '".to_owned().concat(
                        self.student.as_str(),
                    ).concat("' already exists.");
                    self.group(line)
                } else {
                    let args = args6(
                        "-m",
                        "-s",
                        "/bin/bash",
                        "-c",
                        "VLSI Lab Student",
                        self.student.as_str(),
                    );
                    self.go(
                        PreinstallAt::UserMade,
                        list0(),
                        Op::RunCmd(make_command("useradd", args)),
                    )
                }
            },
            PreinstallAt::UserMade => match reply.done() {
                Err(e) => self.end(turn_fail(list0(), e)),
                Ok(_) => {
                    let line = "[SUCCESS] Created student user '".to_owned().concat(
                        self.student.as_str(),
                    ).concat("'.");
                    self.group(line)
                },
            },
            PreinstallAt::Grouped => {
                let log = list1(
                    "[STEP 5/6] Ensuring GDM uses X11 for EDA GUI compatibility...".to_owned(),
                );
                self.go(
                    PreinstallAt::ConfFound,
                    log,
                    Op::Exists("/etc/gdm/custom.conf".to_owned()),
                )
            },
            PreinstallAt::ConfFound => if reply.flag() {
                let args = args3(
                    "-i",
                    "s/^#WaylandEnable=false/WaylandEnable=false/",
                    "/etc/gdm/custom.conf",
                );
                self.go(PreinstallAt::ConfEdited, list0(), Op::RunCmd(make_command("sed", args)))
            } else {
                self.limit()
            },
            PreinstallAt::ConfEdited => self.limit(),
            PreinstallAt::Limited => self.go(
                PreinstallAt::Marked,
                list0(),
                Op::MarkPhase("PRE_INSTALL".to_owned()),
            ),
            _ => match reply.done() {
                Err(e) => self.end(turn_fail(list0(), e)),
                Ok(_) => self.end(
                    turn_succeed(
                        list1(
                            "[SUCCESS] Phase 0 Pre-installation completed successfully!".to_owned(),
                        ),
                    ),
                ),
            },
        }
    }
}

/// Three failures end the preparation, each with its own error: that of naming the
/// machine, of creating the student account and of recording the phase. Whatever else
/// fails, the preparation goes on.
pub proof fn law_three_failures_end_preparation(v: PreinstallView, reply: ReplyView)
    requires
        v.waits() == reply.kind(),
    ensures
        (v.after(reply).1.next matches NextView::Finish(r) && !r.is_ok()) <==> {
            &&& v.at == PreinstallAt::Named || v.at == PreinstallAt::UserMade || v.at
                == PreinstallAt::Marked
            &&& !reply.is_ok()
        },
        v.after(reply).1.next matches NextView::Finish(r) ==> r == reply,
{
    if let ReplyView::Done(Ok(nothing)) = reply {
        assert(nothing == ());
    }
}

/// An account is created if and only if the system does not know the student's name.
pub proof fn law_known_student_is_kept(v: PreinstallView, reply: ReplyView)
    requires
        v.at == PreinstallAt::UserChecked,
        v.waits() == reply.kind(),
    ensures
        v.after(reply).1.next == NextView::Do(OpView::RunCmd(student_command(v.student)))
            <==> reply->Ended_0 != ProcessEndView::Exited(Some(0i32)),
{
    if reply->Ended_0 == ProcessEndView::Exited(Some(0i32)) {
        assert(group_command().args.len() != student_command(v.student).args.len());
    }
}

/// The preparation ends well only on the report that the phase was recorded.
pub proof fn law_preparation_is_recorded(v: PreinstallView, reply: ReplyView)
    requires
        v.waits() == reply.kind(),
        v.after(reply).1.next == NextView::Finish(ReplyView::Done(Ok(()))),
    ensures
        v.at == PreinstallAt::Marked,
        reply.is_ok(),
{
}

} // verus!
