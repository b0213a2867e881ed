//! What the granting of VNC sessions keeps to, whatever the machine answers.

use vstd::prelude::*;

use crate::exchange::{
    CapturedView, CommandView, FedView, NextView, OpView, ReplyView, TurnView,
};
use crate::number::decimal;
use crate::path::below;
use crate::places::vnc_settings_of;
use crate::text::occurs_at;
use crate::users::user_exists;
use crate::vnc::{allocated, is_mapped, remapped, with_mapping};
use crate::vnc_grant::{
    GrantVncAt, GrantVncView, MappingAt, PasswordAt, VncMappingView,
    VncPasswordView,
};

verus! {

/// What a mapping hears from a machine on which the file holds `content`, and what the
/// file holds afterwards.
pub open spec fn file_answers(op: OpView, content: Seq<char>) -> (ReplyView, Seq<char>) {
    match op {
        OpView::ReadText(_) => (ReplyView::Text(Ok(content)), content),
        OpView::WriteText(_, new) => (ReplyView::Done(Ok(())), new),
        _ => (ReplyView::Done(Ok(())), content),
    }
}

/// Up to `turns` turns of a mapping on such a machine: what the file holds afterwards,
/// and the result where the mapping has ended.
pub open spec fn map_on_file(
    v: VncMappingView,
    reply: ReplyView,
    content: Seq<char>,
    turns: nat,
) -> (Seq<char>, Option<ReplyView>)
    decreases turns,
{
    if turns == 0 {
        (content, None)
    } else {
        let (state, turn) = v.after(reply);
        match turn.next {
            NextView::Do(op) => {
                let (answer, new) = file_answers(op, content);
                map_on_file(state, answer, new, (turns - 1) as nat)
            },
            NextView::Finish(r) => (content, Some(r)),
        }
    }
}

/// On a machine where the file can be read and written, a mapping ends well and leaves
/// the display mapped in the file.
pub proof fn law_mapping_is_left_in_the_file(
    display: Seq<char>,
    username: Seq<char>,
    content: Seq<char>,
)
    ensures
        map_on_file(
            VncMappingView { display, username, at: MappingAt::Start },
            ReplyView::Start,
            content,
            3,
        ) == (with_mapping(content, display, username), Some(ReplyView::Done(Ok(())))),
{
    reveal_with_fuel(map_on_file, 4);
}

/// A user who does not exist is granted nothing: nothing is asked for once that is
/// known, and the error says so.
pub proof fn law_unknown_user_is_granted_nothing(v: GrantVncView, reply: ReplyView)
    requires
        v.at == GrantVncAt::LookedUp,
        v.waits() == reply.kind(),
        !user_exists(reply->Captured_0),
    ensures
        v.after(reply).1.next == NextView::Finish(
            ReplyView::Text(Err("user '"@ + v.username + "' does not exist"@)),
        ),
        v.after(reply).1.log.len() == 0,
{
}

/// A grant fails if and only if the user does not exist or one of the steps from the
/// membership in the group on fails. That the group could not be created does not make
/// it fail.
pub proof fn law_grant_failures(v: GrantVncView, reply: ReplyView)
    requires
        v.waits() == reply.kind(),
    ensures
        (v.after(reply).1.next matches NextView::Finish(ReplyView::Text(r)) && r is Err) <==> {
            ||| v.at == GrantVncAt::LookedUp && !user_exists(reply->Captured_0)
            ||| v.at == GrantVncAt::Joined && !reply.is_ok()
            ||| v.at == GrantVncAt::Mapped && !reply.is_ok()
            ||| v.at == GrantVncAt::Secured && reply->Text_0 is Err
            ||| v.at == GrantVncAt::Reloaded && !reply.is_ok()
            ||| v.at == GrantVncAt::Enabled && !reply.is_ok()
        },
{
}

/// The password that a grant delivers is the one that was set.
pub proof fn law_grant_delivers_the_password(v: GrantVncView, reply: ReplyView)
    requires
        v.waits() == reply.kind(),
    ensures
        v.at == GrantVncAt::Secured && reply->Text_0 is Ok ==> v.after(reply).0.password
            == reply->Text_0->Ok_0,
        v.at != GrantVncAt::Secured ==> v.after(reply).0.password == v.password,
        v.after(reply).1.next matches NextView::Finish(ReplyView::Text(Ok(password)))
            ==> password == v.password && v.at == GrantVncAt::Enabled && reply.is_ok(),
{
}

/// A grant says nothing of the password but in the line that ends it well: up to that
/// turn, no other password would change what is logged or asked for.
pub proof fn law_grant_shows_the_password_once(
    v: GrantVncView,
    reply: ReplyView,
    other: Seq<char>,
)
    requires
        v.waits() == reply.kind(),
        !(v.at == GrantVncAt::Enabled && reply.is_ok()),
    ensures
        (GrantVncView { password: other, ..v }).after(reply).1 == v.after(reply).1,
{
}

/// Setting a password logs nothing.
pub proof fn law_setting_a_password_logs_nothing(v: VncPasswordView, reply: ReplyView)
    requires
        v.waits() == reply.kind(),
    ensures
        v.after(reply).1.log.len() == 0,
{
}

/// The password itself goes only to the standard input of the program that obfuscates
/// it and, in the end, to whoever asked for it: no other password would change
/// anything else that is asked for.
pub proof fn law_password_goes_nowhere_else(
    v: VncPasswordView,
    reply: ReplyView,
    other: Seq<char>,
)
    requires
        v.waits() == reply.kind(),
    ensures
        v.at != PasswordAt::Relabelled ==> (VncPasswordView { password: other, ..v }).after(
            reply,
        ).1 == v.after(reply).1,
        v.at == PasswordAt::Relabelled ==> v.after(reply).1.next == NextView::Finish(
            ReplyView::Text(Ok(v.password)),
        ),
        v.after(reply).0.password != v.password ==> (v.after(reply).1.next matches NextView::Do(
            OpView::Feed(_, text),
        ) && text == v.after(reply).0.password + "\n"@),
{
}

/// The password that is fed on has eight characters, whatever the sources gave.
pub proof fn law_password_has_eight_characters(v: VncPasswordView, reply: ReplyView)
    requires
        v.waits() == reply.kind(),
    ensures
        v.after(reply).1.next matches NextView::Do(OpView::Feed(_, text)) ==> {
            &&& v.after(reply).0.password.len() == 8
            &&& text == v.after(reply).0.password + "\n"@
        },
{
}

/// What is written to the user's password file is what the program made of the
/// password.
pub proof fn law_only_the_obfuscated_password_is_written(v: VncPasswordView, reply: ReplyView)
    requires
        v.waits() == reply.kind(),
    ensures
        v.after(reply).1.next matches NextView::Do(OpView::WriteBytes(file, bytes)) ==> {
            &&& file == crate::vnc_grant::passwd_path(v.username)
            &&& bytes == v.secret
        },
        v.after(reply).0.secret != v.secret ==> {
            &&& v.at == PasswordAt::Obfuscated
            &&& crate::vnc_grant::obfuscated(reply->Fed_0) == Ok::<Seq<u8>, Seq<char>>(
                v.after(reply).0.secret,
            )
        },
{
}

/// The grant of a session before its first turn.
pub open spec fn grant_for(username: Seq<char>) -> GrantVncView {
    GrantVncView { username, display: seq![], password: seq![], at: GrantVncAt::Start }
}

/// What the file of the displays holds, as far as it can be read.
pub open spec fn read_or_nothing(file: Result<Seq<char>, Seq<char>>) -> Seq<char> {
    if file is Ok {
        file->Ok_0
    } else {
        Seq::empty()
    }
}

/// A grant looks the user up, reads the file of the displays, and has the user join the
/// group, whatever came of creating it. A file that cannot be read counts as empty.
pub proof fn law_grant_begins_with_the_group(
    username: Seq<char>,
    stdout: Seq<char>,
    stderr: Seq<char>,
    file: Result<Seq<char>, Seq<char>>,
    grouped: Result<(), Seq<char>>,
)
    ensures
        ({
            let d = allocated(read_or_nothing(file), username)->Some_0;
            let (looking, look) = grant_for(username).after(ReplyView::Start);
            let (reading, read) = looking.after(
                ReplyView::Captured(CapturedView::Exited { code: Some(0i32), stdout, stderr }),
            );
            let (grouping, group) = reading.after(ReplyView::Text(file));
            let (joining, join) = grouping.after(ReplyView::Done(grouped));
            &&& look == TurnView {
                log: seq![],
                next: NextView::Do(
                    OpView::Capture(CommandView { program: "id"@, args: seq![username] }),
                ),
            }
            &&& read == TurnView {
                log: seq![],
                next: NextView::Do(OpView::ReadText("/etc/tigervnc/vncserver.users"@)),
            }
            &&& group == TurnView {
                log: seq![
                    "[USER MGR] Granting VNC (display "@ + d + ") to '"@ + username + "'..."@,
                ],
                next: NextView::Do(
                    OpView::RunCmd(
                        CommandView { program: "groupadd"@, args: seq!["-f"@, "edausers"@] },
                    ),
                ),
            }
            &&& join == TurnView {
                log: seq![],
                next: NextView::Do(
                    OpView::RunCmd(
                        CommandView {
                            program: "usermod"@,
                            args: seq!["-aG"@, "edausers"@, username],
                        },
                    ),
                ),
            }
            &&& joining == GrantVncView {
                username,
                display: d,
                password: seq![],
                at: GrantVncAt::Joined,
            }
        }),
{
    assert(Seq::<char>::empty() =~= seq![]);
}

/// Once the user has joined the group, the display is mapped to them, they get a
/// password, and the service of that very display is started; the line that ends the
/// grant tells the password and the display's port.
pub proof fn law_grant_starts_the_service_of_its_display(v: GrantVncView, password: Seq<char>)
    requires
        v.at == GrantVncAt::Joined,
    ensures
        ({
            let d = v.display;
            let (mapping, map) = v.after(ReplyView::Done(Ok(())));
            let (securing, secure) = mapping.after(ReplyView::Done(Ok(())));
            let (reloading, reload) = securing.after(ReplyView::Text(Ok(password)));
            let (enabling, enable) = reloading.after(ReplyView::Done(Ok(())));
            let port = decimal(crate::vnc::vnc_port(d) as nat);
            &&& map == TurnView {
                log: seq![],
                next: NextView::Do(OpView::EnsureVncMapping(d, v.username)),
            }
            &&& secure == TurnView {
                log: seq![],
                next: NextView::Do(OpView::SetVncPassword(v.username)),
            }
            &&& reload == TurnView {
                log: seq![],
                next: NextView::Do(
                    OpView::RunCmd(
                        CommandView { program: "systemctl"@, args: seq!["daemon-reload"@] },
                    ),
                ),
            }
            &&& enable == TurnView {
                log: seq![],
                next: NextView::Do(
                    OpView::RunCmd(
                        CommandView {
                            program: "systemctl"@,
                            args: seq![
                                "enable"@,
                                "--now"@,
                                "vncserver@"@ + d + ".service"@,
                            ],
                        },
                    ),
                ),
            }
            &&& enabling.after(ReplyView::Done(Ok(()))).1 == TurnView {
                log: seq![
                    "[SUCCESS] VNC granted to '"@ + v.username + "': password "@ + password
                        + "  (write this down now - it is not saved anywhere else and won't be shown again). Reach it with: ssh -L "@
                        + port + ":localhost:"@ + port + " "@ + v.username
                        + "@<this-host>, then point a VNC viewer at localhost:"@ + port + "."@,
                ],
                next: NextView::Finish(ReplyView::Text(Ok(password))),
            }
        }),
{
}

/// Wherever a grant stands behind the reload, the service that it starts is that of its
/// own display: the unit's name holds the display, and grants of different displays
/// start different units.
pub proof fn law_units_belong_to_displays(v: GrantVncView, w: GrantVncView)
    requires
        v.at == GrantVncAt::Reloaded,
        w.at == GrantVncAt::Reloaded,
    ensures
        ({
            let a = v.after(ReplyView::Done(Ok(()))).1.next;
            let b = w.after(ReplyView::Done(Ok(()))).1.next;
            &&& a matches NextView::Do(OpView::RunCmd(c)) && c.args.len() == 3 && occurs_at(
                c.args[2],
                v.display,
                10,
            )
            &&& a == b <==> v.display == w.display
        }),
{
    reveal_strlit("vncserver@");
    reveal_strlit(".service");
    let x = "vncserver@"@ + v.display + ".service"@;
    let y = "vncserver@"@ + w.display + ".service"@;
    assert(x.subrange(10, 10int + v.display.len()) =~= v.display);
    assert(y.subrange(10, 10int + w.display.len()) =~= w.display);
    let a = v.after(ReplyView::Done(Ok(()))).1.next;
    let b = w.after(ReplyView::Done(Ok(()))).1.next;
    assert((a->Do_0)->RunCmd_0.args[2] == x);
    assert((b->Do_0)->RunCmd_0.args[2] == y);
    if a == b {
        assert(x == y);
        assert(v.display.len() == w.display.len());
    }
}

/// A display whose number is `n` is served at the port 5900 + `n`.
pub proof fn law_port_of_a_numbered_display(n: u32)
    ensures
        crate::vnc::vnc_port(":"@ + decimal(n as nat)) == 5900 + n,
{
    reveal_strlit(":");
    let digits = decimal(n as nat);
    let d = ":"@ + digits;
    crate::number::law_decimal_is_digits(n as nat);
    crate::number::law_decimal_reads_back(n);
    assert(d.take(1) =~= ":"@);
    assert(d.skip(1) =~= digits);
    assert(crate::number::is_digit(digits[0]));
    assert(digits.take(1)[0] != ":"@[0]);
    reveal_with_fuel(crate::text::after_all, 3);
    assert(crate::text::after_all(digits, ":"@) == digits);
    assert(crate::text::after_all(d, ":"@) == digits);
}

/// A password is chosen from random bytes, or from the clock where there are none: one
/// character for each byte, by the byte's remainder.
pub proof fn law_password_is_chosen_by_bytes(
    username: Seq<char>,
    bytes: Option<Seq<u8>>,
    nanos: u32,
)
    ensures
        ({
            let letters = "ABCDEFGHJKLMNPQRSTUVWXYZabcdefghijkmnopqrstuvwxyz23456789"@;
            let start = VncPasswordView {
                username,
                password: seq![],
                secret: seq![],
                at: PasswordAt::Start,
            };
            let (drawing, draw) = start.after(ReplyView::Start);
            let (drawn, turn) = drawing.after(ReplyView::Bytes(bytes));
            let enough = bytes is Some && bytes->0.len() == 8;
            let (chosen, feed) = if enough {
                (drawn, turn)
            } else {
                drawn.after(ReplyView::Nanos(nanos))
            };
            &&& draw == TurnView { log: seq![], next: NextView::Do(OpView::RandomBytes(8)) }
            &&& !enough ==> turn == TurnView { log: seq![], next: NextView::Do(OpView::ClockNanos) }
            &&& chosen.at == PasswordAt::Obfuscated
            &&& chosen.username == username
            &&& chosen.password.len() == 8
            &&& feed == TurnView {
                log: seq![],
                next: NextView::Do(
                    OpView::Feed(
                        CommandView { program: "vncpasswd"@, args: seq!["-f"@] },
                        chosen.password + "\n"@,
                    ),
                ),
            }
            &&& forall|i: int|
                0 <= i < 8 ==> #[trigger] chosen.password[i] == letters[(if enough {
                    bytes->0[i] as int
                } else {
                    (nanos + i * 7919) % 256
                }) % 57]
        }),
{
    reveal_strlit("ABCDEFGHJKLMNPQRSTUVWXYZabcdefghijkmnopqrstuvwxyz23456789");
}

/// What the program made of the password goes to the user's own password file, which
/// only the user can read: the file is written, made theirs and closed to everybody
/// else. How relabelling ended does not matter.
pub proof fn law_password_file_is_the_users_own(
    v: VncPasswordView,
    secret: Seq<u8>,
    stderr: Seq<char>,
    labelled: Result<(), Seq<char>>,
)
    requires
        v.at == PasswordAt::Obfuscated,
    ensures
        ({
            let u = v.username;
            let dir = vnc_settings_of(u);
            let file = below(dir, "passwd"@);
            let ok = ReplyView::Done(Ok(()));
            let (making, make) = v.after(
                ReplyView::Fed(FedView::Exited { code: Some(0i32), stdout: secret, stderr }),
            );
            let (writing, write) = making.after(ok);
            let (owning, own) = writing.after(ok);
            let (closing, close_dir) = owning.after(ok);
            let (locking, close_file) = closing.after(ok);
            let (labelling, label) = locking.after(ok);
            &&& make == TurnView { log: seq![], next: NextView::Do(OpView::CreateDir(dir)) }
            &&& write == TurnView {
                log: seq![],
                next: NextView::Do(OpView::WriteBytes(file, secret)),
            }
            &&& own == TurnView {
                log: seq![],
                next: NextView::Do(
                    OpView::RunCmd(
                        CommandView {
                            program: "chown"@,
                            args: seq!["-R"@, u + ":"@ + u, dir],
                        },
                    ),
                ),
            }
            &&& close_dir == TurnView {
                log: seq![],
                next: NextView::Do(
                    OpView::RunCmd(CommandView { program: "chmod"@, args: seq!["700"@, dir] }),
                ),
            }
            &&& close_file == TurnView {
                log: seq![],
                next: NextView::Do(
                    OpView::RunCmd(CommandView { program: "chmod"@, args: seq!["600"@, file] }),
                ),
            }
            &&& label == TurnView {
                log: seq![],
                next: NextView::Do(
                    OpView::RunCmd(CommandView { program: "restorecon"@, args: seq!["-RFv"@, dir] }),
                ),
            }
            &&& labelling.after(ReplyView::Done(labelled)).1 == TurnView {
                log: seq![],
                next: NextView::Finish(ReplyView::Text(Ok(v.password))),
            }
        }),
{
}

/// A password that cannot be set fails with what went wrong: the program's own error,
/// or that of the step that failed, with the path it concerns.
pub proof fn law_password_errors_tell_the_cause(v: VncPasswordView, fed: FedView, e: Seq<char>)
    ensures
        ({
            let u = v.username;
            let failed = v.after(ReplyView::Done(Err(e))).1;
            let unfed = v.after(ReplyView::Fed(fed)).1;
            &&& v.at == PasswordAt::DirMade ==> failed == TurnView {
                log: seq![],
                next: NextView::Finish(
                    ReplyView::Text(
                        Err("failed to create "@ + vnc_settings_of(u) + ": "@ + e),
                    ),
                ),
            }
            &&& v.at == PasswordAt::Written ==> failed == TurnView {
                log: seq![],
                next: NextView::Finish(
                    ReplyView::Text(
                        Err("failed to write "@ + below(vnc_settings_of(u), "passwd"@) + ": "@ + e),
                    ),
                ),
            }
            &&& v.at == PasswordAt::Owned || v.at == PasswordAt::DirClosed || v.at
                == PasswordAt::FileClosed ==> failed == TurnView {
                log: seq![],
                next: NextView::Finish(ReplyView::Text(Err(e))),
            }
            &&& v.at == PasswordAt::Obfuscated ==> (match fed {
                FedView::SpawnFailed(why) => unfed.next == NextView::Finish(
                    ReplyView::Text(Err("failed to spawn vncpasswd: "@ + why)),
                ),
                FedView::NoStdin => unfed.next == NextView::Finish(
                    ReplyView::Text(Err("vncpasswd gave no stdin"@)),
                ),
                FedView::IoFailed(why) => unfed.next == NextView::Finish(
                    ReplyView::Text(Err(why)),
                ),
                FedView::Exited { code: Some(0i32), .. } => unfed.next is Do,
                FedView::Exited { code, stderr, .. } => unfed.next == NextView::Finish(
                    ReplyView::Text(
                        Err(
                            "vncpasswd exited with "@ + crate::shell::code_text(code) + ": "@
                                + crate::text::trimmed(stderr),
                        ),
                    ),
                ),
            })
        }),
{
}

/// A mapping reads the file of the displays and writes it, and no other; it tells which
/// display it mapped to whom, or that this was so before.
pub proof fn law_mapping_course(
    display: Seq<char>,
    username: Seq<char>,
    file: Result<Seq<char>, Seq<char>>,
    e: Seq<char>,
)
    ensures
        ({
            let content = read_or_nothing(file);
            let start = VncMappingView { display, username, at: MappingAt::Start };
            let (reading, read) = start.after(ReplyView::Start);
            let (writing, write) = reading.after(ReplyView::Text(file));
            &&& read == TurnView {
                log: seq![],
                next: NextView::Do(OpView::ReadText("/etc/tigervnc/vncserver.users"@)),
            }
            &&& is_mapped(content, display, username) ==> write == TurnView {
                log: seq![
                    "[INFO] VNC display "@ + display + " already mapped to '"@ + username + "'."@,
                ],
                next: NextView::Finish(ReplyView::Done(Ok(()))),
            }
            &&& !is_mapped(content, display, username) ==> {
                &&& write == TurnView {
                    log: seq![],
                    next: NextView::Do(
                        OpView::WriteText(
                            "/etc/tigervnc/vncserver.users"@,
                            remapped(content, display, username),
                        ),
                    ),
                }
                &&& writing.after(ReplyView::Done(Ok(()))).1 == TurnView {
                    log: seq![
                        "[SUCCESS] Mapped VNC display "@ + display + " to '"@ + username + "' in "@
                            + "/etc/tigervnc/vncserver.users"@ + "."@,
                    ],
                    next: NextView::Finish(ReplyView::Done(Ok(()))),
                }
                &&& writing.after(ReplyView::Done(Err(e))).1 == TurnView {
                    log: seq![],
                    next: NextView::Finish(
                        ReplyView::Done(
                            Err("failed to write "@ + "/etc/tigervnc/vncserver.users"@ + ": "@ + e),
                        ),
                    ),
                }
            }
        }),
{
    assert(Seq::<char>::empty() =~= seq![]);
}

/// A display that is no number is served at the port of the first.
pub proof fn law_port_of_another_display(d: Seq<char>)
    requires
        crate::number::number_of(crate::text::after_all(d, ":"@)) is None,
    ensures
        crate::vnc::vnc_port(d) == 5901,
{
}

/// A grant cannot go on if and only if there is no display to give or its port does not
/// fit in 32 bits; nothing else that is read stops it.
pub proof fn law_grant_goes_on_with_a_display(
    v: GrantVncView,
    file: Result<Seq<char>, Seq<char>>,
    reply: ReplyView,
)
    ensures
        v.at == GrantVncAt::Read ==> (v.admits(ReplyView::Text(file)) <==> {
            let d = allocated(read_or_nothing(file), v.username);
            d is Some && crate::vnc::vnc_port(d->0) <= 0xffff_ffff
        }),
        v.at != GrantVncAt::Read ==> v.admits(reply),
{
    assert(Seq::<char>::empty() =~= seq![]);
}

} // verus!
