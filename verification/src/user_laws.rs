//! What the procedures on user accounts ask for from their start to their end.

use vstd::prelude::*;

use crate::exchange::{CapturedView, CommandView, NextView, OpView, ReplyView, TurnView};
use crate::session::{called, ProcedureView, SiteView};
use crate::text::{begins, lines_of, occurs, trimmed, words_of};
use crate::user_list::{by_name, names_in, ListAt, ListUsersView};
use crate::users::{role_of, LabUserView};

verus! {

/// The creation of an account that a request calls.
pub open spec fn creation(
    username: Seq<char>,
    role: Seq<char>,
    identifier: Seq<char>,
    site: SiteView,
) -> ProcedureView {
    called(OpView::CreateUser(username, role, identifier), site)->Some_0
}

/// An account is looked up first. One that is there is kept, and one that is not is
/// created with a home directory, a shell and a comment that tells the role and the
/// number. Either way the environment is granted to that account, and what came of the
/// grant is the result.
pub proof fn law_account_is_created_once(
    username: Seq<char>,
    role: Seq<char>,
    identifier: Seq<char>,
    site: SiteView,
    stdout: Seq<char>,
    stderr: Seq<char>,
    code: Option<i32>,
    why: Seq<char>,
    granted: Result<(), Seq<char>>,
)
    requires
        code != Some(0i32),
    ensures
        ({
            let found = CapturedView::Exited { code: Some(0i32), stdout, stderr };
            let missed = CapturedView::Exited { code, stdout, stderr };
            let failed = CapturedView::Failed(why);
            let grant = NextView::Do(OpView::GrantEnv(username));
            let (looking, look) = creation(username, role, identifier, site).after(
                ReplyView::Start,
            );
            let (keeping, keep) = looking.after(ReplyView::Captured(found));
            let (adding, add) = looking.after(ReplyView::Captured(missed));
            let (added, done) = adding.after(ReplyView::Captured(found));
            &&& look == TurnView {
                log: seq![
                    "[USER MGR] Provisioning user account '"@ + username + "' ("@ + role
                        + ") - ID: "@ + identifier,
                ],
                next: NextView::Do(
                    OpView::Capture(CommandView { program: "id"@, args: seq![username] }),
                ),
            }
            &&& keep == TurnView {
                log: seq!["[USER MGR] User account '"@ + username + "' already exists."@],
                next: grant,
            }
            &&& add == TurnView {
                log: seq![
                    "[USER MGR] User '"@ + username
                        + "' does not exist. Creating system account..."@,
                ],
                next: NextView::Do(
                    OpView::Capture(
                        CommandView {
                            program: "useradd"@,
                            args: seq![
                                "-m"@,
                                "-s"@,
                                "/bin/bash"@,
                                "-c"@,
                                "VLSI Lab "@ + role + " ["@ + identifier + "]"@,
                                username,
                            ],
                        },
                    ),
                ),
            }
            &&& looking.after(ReplyView::Captured(failed)) == (adding, add)
            &&& done == TurnView {
                log: seq!["[USER MGR] Successfully created Linux user '"@ + username + "'."@],
                next: grant,
            }
            &&& adding.after(ReplyView::Captured(failed)).1 == TurnView {
                log: seq![],
                next: NextView::Finish(
                    ReplyView::Done(Err("Failed to execute useradd: "@ + why)),
                ),
            }
            &&& adding.after(ReplyView::Captured(missed)).1 == TurnView {
                log: seq!["[ERROR] useradd failed: "@ + stderr],
                next: NextView::Finish(ReplyView::Done(Err("useradd failed: "@ + stderr))),
            }
            &&& keeping.after(ReplyView::Done(granted)).1 == TurnView {
                log: seq![],
                next: NextView::Finish(ReplyView::Done(granted)),
            }
            &&& added.after(ReplyView::Done(granted)).1 == TurnView {
                log: seq![],
                next: NextView::Finish(ReplyView::Done(granted)),
            }
        }),
{
}

/// The grant of the environment that a request calls.
pub open spec fn env_grant(username: Seq<char>, site: SiteView) -> ProcedureView {
    called(OpView::GrantEnv(username), site)->Some_0
}

/// The grant looks for the user's start-up file twice and then reads it. A file that
/// names the launcher is left as it is.
pub proof fn law_start_up_file_is_looked_at_first(
    username: Seq<char>,
    site: SiteView,
    text: Result<Seq<char>, Seq<char>>,
)
    ensures
        ({
            let file = "/home/"@ + username + "/.bashrc"@;
            let (looking, look) = env_grant(username, site).after(ReplyView::Start);
            let (again, look_again) = looking.after(ReplyView::Flag(true));
            let (checking, check) = again.after(ReplyView::Flag(true));
            let injection = TurnView {
                log: seq!["[USER MGR] Injecting EDA launcher into "@ + file + "..."@],
                next: NextView::Do(OpView::ReadText(file)),
            };
            let named = text is Ok && occurs(text->Ok_0, "/opt/vlsilab/eda-launcher.sh"@);
            &&& look == TurnView { log: seq![], next: NextView::Do(OpView::Exists(file)) }
            &&& looking.after(ReplyView::Flag(false)).1 == TurnView {
                log: seq![
                    "[WARN] Home directory or .bashrc missing for '"@ + username + "'."@,
                ],
                next: NextView::Finish(ReplyView::Done(Err(file + " does not exist"@))),
            }
            &&& look_again == TurnView { log: seq![], next: NextView::Do(OpView::Exists(file)) }
            &&& again.after(ReplyView::Flag(false)).1 == injection
            &&& check == TurnView { log: seq![], next: NextView::Do(OpView::ReadText(file)) }
            &&& checking.after(ReplyView::Text(text)).1 == (if named {
                TurnView {
                    log: seq![
                        "[INFO] .bashrc for '"@ + username + "' is already configured."@,
                    ],
                    next: NextView::Finish(ReplyView::Done(Ok(()))),
                }
            } else {
                injection
            })
        }),
{
}

/// A start-up file that does not name the launcher is read once more and written with
/// the lines that source it behind all that stood in it.
pub proof fn law_launcher_is_added_at_the_end(
    username: Seq<char>,
    site: SiteView,
    unread: Seq<char>,
    content: Seq<char>,
    e: Seq<char>,
)
    ensures
        ({
            let file = "/home/"@ + username + "/.bashrc"@;
            let looking = env_grant(username, site).after(ReplyView::Start).0;
            let again = looking.after(ReplyView::Flag(true)).0;
            let checking = again.after(ReplyView::Flag(true)).0;
            let reading = checking.after(ReplyView::Text(Err(unread))).0;
            let (writing, write) = reading.after(ReplyView::Text(Ok(content)));
            &&& reading.after(ReplyView::Text(Err(e))).1 == TurnView {
                log: seq![],
                next: NextView::Finish(ReplyView::Done(Err(e))),
            }
            &&& write == TurnView {
                log: seq![],
                next: NextView::Do(
                    OpView::WriteText(
                        file,
                        content
                            + "\n# Source VLSI Lab EDA Tool Launcher\nif [ -f /opt/vlsilab/eda-launcher.sh ]; then\n    source /opt/vlsilab/eda-launcher.sh\nfi\n"@,
                    ),
                ),
            }
            &&& writing.after(ReplyView::Done(Ok(()))).1 == TurnView {
                log: seq!["[SUCCESS] Configured .bashrc for '"@ + username + "'."@],
                next: NextView::Finish(ReplyView::Done(Ok(()))),
            }
            &&& writing.after(ReplyView::Done(Err(e))).1 == TurnView {
                log: seq![],
                next: NextView::Finish(
                    ReplyView::Done(Err("Failed to update "@ + file + ": "@ + e)),
                ),
            }
        }),
{
}

/// A user reads as Sysadmin if and only if `wheel` is one of their groups or their name
/// begins with `sysadmin`; everybody else reads as Student. Where the groups could not
/// be asked for, the name alone decides.
pub proof fn law_roles(username: Seq<char>, groups: CapturedView)
    ensures
        role_of(groups, username) == "Sysadmin"@ <==> {
            ||| groups matches CapturedView::Exited { stdout, .. } && words_of(stdout).contains(
                "wheel"@,
            )
            ||| begins(username, "sysadmin"@)
        },
        role_of(groups, username) == "Sysadmin"@ || role_of(groups, username) == "Student"@,
{
    reveal_strlit("Sysadmin");
    reveal_strlit("Student");
    assert("Sysadmin"@.len() == 8);
    assert("Student"@.len() == 7);
}

/// The listing of the users before its first turn.
pub open spec fn listing() -> ListUsersView {
    ListUsersView {
        names: seq![],
        next: 0,
        role: seq![],
        bashrc: false,
        users: seq![],
        at: ListAt::Start,
    }
}

/// The accounts are those with user numbers from 1000 up to 59999. The groups of the
/// first are asked for; where there is none, or the system cannot say, the list is
/// empty.
pub proof fn law_listing_begins_with_the_first_name(answer: CapturedView)
    ensures
        ({
            let (naming, name) = listing().after(ReplyView::Start);
            let names = if answer is Exited {
                names_in(lines_of(answer->stdout))
            } else {
                seq![]
            };
            let (state, turn) = naming.after(ReplyView::Captured(answer));
            &&& name == TurnView {
                log: seq![],
                next: NextView::Do(
                    OpView::Capture(
                        CommandView {
                            program: "sh"@,
                            args: seq![
                                "-c"@,
                                "getent passwd | awk -F: '$3 >= 1000 && $3 < 60000 {print $1}'"@,
                            ],
                        },
                    ),
                ),
            }
            &&& state.names == names
            &&& state.next == 0
            &&& state.users.len() == 0
            &&& names.len() > 0 ==> state.at == ListAt::Grouped
            &&& turn == TurnView {
                log: seq![],
                next: if names.len() > 0 {
                    NextView::Do(
                        OpView::Capture(
                            CommandView { program: "id"@, args: seq!["-nG"@, names[0]] },
                        ),
                    )
                } else {
                    NextView::Finish(ReplyView::Users(seq![]))
                },
            }
        }),
{
}

/// Of each user, the groups, the start-up file and the file of the displays are asked
/// for, and what is found joins the list under the user's own name: the role by the
/// groups, the environment by whether their start-up file names the launcher, and the
/// session by whether a display is mapped to them. Then comes the next user.
pub proof fn law_each_user_is_described(
    v: ListUsersView,
    groups: CapturedView,
    found: bool,
    start_up: Result<Seq<char>, Seq<char>>,
    displays: Result<Seq<char>, Seq<char>>,
)
    requires
        v.wf(),
        v.at == ListAt::Grouped,
    ensures
        ({
            let name = v.names[v.next];
            let file = "/home/"@ + name + "/.bashrc"@;
            let (looking, look) = v.after(ReplyView::Captured(groups));
            let (found_state, found_turn) = looking.after(ReplyView::Flag(found));
            let (reading, read) = if found {
                found_state.after(ReplyView::Text(start_up))
            } else {
                (found_state, found_turn)
            };
            let (next, turn) = reading.after(ReplyView::Text(displays));
            let user = LabUserView {
                username: name,
                role: role_of(groups, name),
                identifier: "-"@,
                exists: true,
                bashrc_configured: found && start_up is Ok && occurs(
                    start_up->Ok_0,
                    "/opt/vlsilab/eda-launcher.sh"@,
                ),
                vnc_configured: crate::vnc::vnc_configured(
                    crate::vnc_grant_laws::read_or_nothing(displays),
                    name,
                ),
            };
            &&& look == TurnView { log: seq![], next: NextView::Do(OpView::Exists(file)) }
            &&& found ==> found_turn == TurnView {
                log: seq![],
                next: NextView::Do(OpView::ReadText(file)),
            }
            &&& read == TurnView {
                log: seq![],
                next: NextView::Do(OpView::ReadText("/etc/tigervnc/vncserver.users"@)),
            }
            &&& next.users == crate::order::inserted(v.users, user, by_name())
            &&& next.users.to_multiset() == v.users.to_multiset().insert(user)
            &&& next.next == v.next + 1
            &&& next.names == v.names
            &&& v.next + 1 < v.names.len() ==> next.at == ListAt::Grouped
            &&& turn == TurnView {
                log: seq![],
                next: if v.next + 1 < v.names.len() {
                    NextView::Do(
                        OpView::Capture(
                            CommandView { program: "id"@, args: seq!["-nG"@, v.names[v.next + 1]] },
                        ),
                    )
                } else {
                    NextView::Finish(ReplyView::Users(next.users))
                },
            }
        }),
{
    assert(Seq::<char>::empty() =~= seq![]);
    let name = v.names[v.next];
    let looking = v.after(ReplyView::Captured(groups)).0;
    let found_state = looking.after(ReplyView::Flag(found)).0;
    let reading = if found {
        found_state.after(ReplyView::Text(start_up)).0
    } else {
        found_state
    };
    let user = reading.described(
        crate::vnc::vnc_configured(crate::vnc_grant::or_empty(displays), name),
    );
    crate::order::law_insertion_keeps_order(v.users, user, by_name());
}

/// The names in a listing are its lines without white space around them; lines of white
/// space alone name nobody, and the order is that of the lines.
pub proof fn law_names_are_the_lines_that_hold_any(ls: Seq<Seq<char>>, line: Seq<char>)
    ensures
        names_in(ls.push(line)) == (if trimmed(line).len() == 0 {
            names_in(ls)
        } else {
            names_in(ls).push(trimmed(line))
        }),
        names_in(Seq::empty()).len() == 0,
{
    assert(ls.push(line).drop_last() =~= ls);
}

/// The list that is handed out names every account once for each time that it was
/// listed, in the order of the user names.
pub proof fn law_list_is_in_the_order_of_names(
    v: ListUsersView,
    reply: ReplyView,
    users: Seq<LabUserView>,
)
    requires
        v.wf(),
        v.waits() == reply.kind(),
        v.after(reply).1.next == NextView::Finish(ReplyView::Users(users)),
    ensures
        forall|i: int, j: int|
            0 <= i < j < users.len() ==> crate::order::le(
                (#[trigger] users[i]).username,
                (#[trigger] users[j]).username,
            ),
        users.map_values(|u: LabUserView| u.username).to_multiset() == v.after(
            reply,
        ).0.names.to_multiset(),
{
    crate::user_list::law_list_is_complete_and_in_order(v, reply);
    let key = by_name();
    assert forall|i: int, j: int| 0 <= i < j < users.len() implies crate::order::le(
        (#[trigger] users[i]).username,
        (#[trigger] users[j]).username,
    ) by {
        assert(crate::order::le(key(users[i]), key(users[j])));
    }
}

} // verus!
