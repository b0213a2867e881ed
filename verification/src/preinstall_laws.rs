//! What the preparation of a machine asks for from its start to its end.

use vstd::prelude::*;

use crate::exchange::{CommandView, NextView, OpView, ProcessEndView, ReplyView, TurnView};
use crate::preinstall::{PreinstallAt, PreinstallView};
use crate::session::{called, ProcedureView, SiteView};

verus! {

/// The preparation that a site asks for.
pub open spec fn preparation(site: SiteView) -> ProcedureView {
    called(OpView::Preinstall, site)->Some_0
}

/// The machine gets the site's full name, and then all packages at once.
pub proof fn law_machine_is_named_then_packaged(site: SiteView)
    ensures
        ({
            let (named, first) = preparation(site).after(ReplyView::Start);
            let second = named.after(ReplyView::Done(Ok(()))).1;
            &&& first == TurnView {
                log: seq![
                    "[INFO] Starting Phase 0: Pre-installation & System Dependencies..."@,
                    "[STEP 1/6] Setting system hostname to "@ + site.hostname_fqdn + "..."@,
                ],
                next: NextView::Do(
                    OpView::RunCmd(
                        CommandView {
                            program: "hostnamectl"@,
                            args: seq!["set-hostname"@, site.hostname_fqdn],
                        },
                    ),
                ),
            }
            &&& second == TurnView {
                log: seq!["[STEP 2/6] Installing EPEL repository and system build packages..."@],
                next: NextView::Do(
                    OpView::RunCmd(
                        CommandView {
                            program: "dnf"@,
                            args: seq![
                                "install"@,
                                "-y"@,
                                "epel-release"@,
                                "tcsh"@,
                                "csh"@,
                                "ksh"@,
                                "gcc"@,
                                "gcc-c++"@,
                                "make"@,
                                "flex"@,
                                "bison"@,
                                "patch"@,
                                "libX11-devel"@,
                                "libXext-devel"@,
                                "libXrender-devel"@,
                                "libXrandr-devel"@,
                                "libXt-devel"@,
                                "libXtst-devel"@,
                                "libXi-devel"@,
                                "libXft-devel"@,
                                "libXp"@,
                                "motif"@,
                                "motif-devel"@,
                                "ncurses-compat-libs"@,
                                "xorg-x11-fonts-Type1"@,
                                "xorg-x11-fonts-75dpi"@,
                                "xorg-x11-fonts-100dpi"@,
                                "mesa-libGL"@,
                                "mesa-libGLU"@,
                                "glu"@,
                                "compat-openssl10"@,
                                "redhat-lsb"@,
                                "libpng12"@,
                                "libpng12.i686"@,
                                "glibc.i686"@,
                                "libX11.i686"@,
                                "libXScrnSaver"@,
                                "apr-util"@,
                                "gdb"@,
                                "tigervnc-server"@,
                            ],
                        },
                    ),
                ),
            }
        }),
{
}

/// Whatever came of the packages, the system is asked whether it knows the student. One
/// whom it does not know gets an account with a home directory and a shell; one whom it
/// knows is left as they are. Either way the group comes next.
pub proof fn law_unknown_student_gets_an_account(
    site: SiteView,
    packaged: Result<(), Seq<char>>,
    looked: ProcessEndView,
)
    ensures
        ({
            let student = site.student_user;
            let named = preparation(site).after(ReplyView::Start).0;
            let packaging = named.after(ReplyView::Done(Ok(()))).0;
            let (checking, asked) = packaging.after(ReplyView::Done(packaged));
            let (looking, answered) = checking.after(ReplyView::Ended(looked));
            let group = NextView::Do(
                OpView::RunCmd(
                    CommandView { program: "groupadd"@, args: seq!["-f"@, "edausers"@] },
                ),
            );
            &&& asked == TurnView {
                log: seq!["[STEP 3/6] Setting up student user '"@ + student + "'..."@],
                next: NextView::Do(
                    OpView::Quiet(CommandView { program: "id"@, args: seq![student] }),
                ),
            }
            &&& looked == ProcessEndView::Exited(Some(0i32)) ==> answered == TurnView {
                log: seq![
                    "[INFO] Student user '"@ + student + "' already exists."@,
                    "[STEP 4/6] Ensuring 'edausers' group exists..."@,
                ],
                next: group,
            }
            &&& looked != ProcessEndView::Exited(Some(0i32)) ==> {
                &&& answered == TurnView {
                    log: seq![],
                    next: NextView::Do(
                        OpView::RunCmd(
                            CommandView {
                                program: "useradd"@,
                                args: seq![
                                    "-m"@,
                                    "-s"@,
                                    "/bin/bash"@,
                                    "-c"@,
                                    "VLSI Lab Student"@,
                                    student,
                                ],
                            },
                        ),
                    ),
                }
                &&& looking.after(ReplyView::Done(Ok(()))).1 == TurnView {
                    log: seq![
                        "[SUCCESS] Created student user '"@ + student + "'."@,
                        "[STEP 4/6] Ensuring 'edausers' group exists..."@,
                    ],
                    next: group,
                }
            }
        }),
{
}

/// A preparation of a machine whose student is known, as it stands behind the request
/// for the group.
pub open spec fn grouping(site: SiteView) -> ProcedureView {
    let named = preparation(site).after(ReplyView::Start).0;
    let packaging = named.after(ReplyView::Done(Ok(()))).0;
    let checking = packaging.after(ReplyView::Done(Ok(()))).0;
    checking.after(ReplyView::Ended(ProcessEndView::Exited(Some(0i32)))).0
}

/// The same preparation does not care whether the student was known or has just been
/// created, nor what came of the packages.
pub proof fn law_way_to_the_group_does_not_matter(
    site: SiteView,
    packaged: Result<(), Seq<char>>,
    looked: ProcessEndView,
)
    requires
        looked != ProcessEndView::Exited(Some(0i32)),
    ensures
        ({
            let named = preparation(site).after(ReplyView::Start).0;
            let packaging = named.after(ReplyView::Done(Ok(()))).0;
            let checking = packaging.after(ReplyView::Done(packaged)).0;
            let looking = checking.after(ReplyView::Ended(looked)).0;
            looking.after(ReplyView::Done(Ok(()))).0 == grouping(site)
        }),
{
}

/// Behind the group, the display manager is told to use X11 where it is there at all,
/// the student's limits are raised, and the phase is recorded. What came of the group,
/// of the display manager and of the limits does not matter.
pub proof fn law_preparation_ends_with_its_record(
    site: SiteView,
    grouped: Result<(), Seq<char>>,
    found: bool,
    edited: Result<(), Seq<char>>,
    limited: Result<(), Seq<char>>,
)
    ensures
        ({
            let s = site.student_user;
            let (looking, look) = grouping(site).after(ReplyView::Done(grouped));
            let (found_state, found_turn) = looking.after(ReplyView::Flag(found));
            let (limiting, limit) = if found {
                found_state.after(ReplyView::Done(edited))
            } else {
                (found_state, found_turn)
            };
            let (recording, record) = limiting.after(ReplyView::Done(limited));
            &&& look == TurnView {
                log: seq!["[STEP 5/6] Ensuring GDM uses X11 for EDA GUI compatibility..."@],
                next: NextView::Do(OpView::Exists("/etc/gdm/custom.conf"@)),
            }
            &&& found ==> found_turn == TurnView {
                log: seq![],
                next: NextView::Do(
                    OpView::RunCmd(
                        CommandView {
                            program: "sed"@,
                            args: seq![
                                "-i"@,
                                "s/^#WaylandEnable=false/WaylandEnable=false/"@,
                                "/etc/gdm/custom.conf"@,
                            ],
                        },
                    ),
                ),
            }
            &&& limit == TurnView {
                log: seq!["[STEP 6/6] Updating /etc/security/limits.conf for EDA tools..."@],
                next: NextView::Do(
                    OpView::AppendText(
                        "/etc/security/limits.conf"@,
                        "\n# VLSI Lab limits\n"@ + s + " hard nofile 65536\n"@ + s
                            + " soft nofile 65536\n"@ + s + " hard nproc 65536\n"@ + s
                            + " soft nproc 65536\n"@,
                    ),
                ),
            }
            &&& record == TurnView {
                log: seq![],
                next: NextView::Do(OpView::MarkPhase("PRE_INSTALL"@)),
            }
            &&& recording.after(ReplyView::Done(Ok(()))).1 == TurnView {
                log: seq!["[SUCCESS] Phase 0 Pre-installation completed successfully!"@],
                next: NextView::Finish(ReplyView::Done(Ok(()))),
            }
        }),
{
}

/// Wherever the preparation stands, what it asks for of an account concerns the
/// student: the name is the last argument, and a home directory is made.
pub proof fn law_accounts_get_a_home(v: PreinstallView, reply: ReplyView, c: CommandView)
    requires
        v.waits() == reply.kind(),
        v.after(reply).1.next == NextView::Do(OpView::RunCmd(c)),
        c.program == "useradd"@,
    ensures
        c.args.contains("-m"@),
        c.args.last() == v.student,
        v.at == PreinstallAt::UserChecked,
        reply->Ended_0 != ProcessEndView::Exited(Some(0i32)),
{
    reveal_strlit("useradd");
    reveal_strlit("groupadd");
    reveal_strlit("hostnamectl");
    reveal_strlit("dnf");
    reveal_strlit("sed");
    assert(c.program.len() == 7);
    assert(c.args[0] == "-m"@);
}

} // verus!
