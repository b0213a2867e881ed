//! Giving a user a VNC session.

use vstd::prelude::*;

use crate::exchange::{
    args1, args2, args3, ask, command, fail, finish, list0, list1, make_command, succeed, text_view,
    turn_ask, turn_fail, turn_finish, turn_succeed, Fed, FedView, Op, OpView, Reply, ReplyKind,
    ReplyView, Turn, TurnView,
};
use crate::number::{decimal, decimal_text};
use crate::password::{password_from_source, random_password};
use crate::path::{below, join_path};
use crate::shell::{code_text, show_code};
use crate::text;
use crate::text::trim;
use crate::users::{check_user_exists, id_command, make_id_command, user_exists};
use crate::vnc::{
    allocate_vnc_display, allocated, find_vnc_display, is_mapped, map_vnc_display, port_of_display,
    remapped, vnc_port,
};

verus! {

/// The file that maps displays to users.
pub open spec fn users_file() -> Seq<char> {
    "/etc/tigervnc/vncserver.users"@
}

/// A text that was read, or nothing where it could not be.
pub open spec fn or_empty(r: Result<Seq<char>, Seq<char>>) -> Seq<char> {
    match r {
        Ok(c) => c,
        Err(_) => seq![],
    }
}

/// A text that was read, or nothing where it could not be.
pub fn text_or_empty(r: Result<String, String>) -> (c: String)
    ensures
        c@ == or_empty(text_view(r)),
{
    match r {
        Ok(c) => c,
        Err(_) => String::new(),
    }
}

/// Where the mapping of a display stands.
#[derive(Debug, Clone, Copy, PartialEq, Eq, Structural)]
pub enum MappingAt {
    Start,
    Read,
    Written,
    Over,
}

/// Maps a display to a user in the file.
#[derive(Debug)]
pub struct VncMapping {
    display: String,
    username: String,
    at: MappingAt,
}

/// The model of a `VncMapping`.
pub struct VncMappingView {
    pub display: Seq<char>,
    pub username: Seq<char>,
    pub at: MappingAt,
}

impl View for VncMapping {
    type V = VncMappingView;

    closed spec fn view(&self) -> VncMappingView {
        VncMappingView { display: self.display@, username: self.username@, at: self.at }
    }
}

impl VncMappingView {
    /// The shape of the reply that is waited for.
    pub open spec fn waits(self) -> ReplyKind {
        match self.at {
            MappingAt::Start => ReplyKind::Start,
            MappingAt::Read => ReplyKind::Text,
            MappingAt::Written => ReplyKind::Done,
            MappingAt::Over => ReplyKind::Never,
        }
    }

    /// The turn that `reply` leads to, and the state behind it.
    pub open spec fn after(self, reply: ReplyView) -> (VncMappingView, TurnView) {
        let over = VncMappingView { at: MappingAt::Over, ..self };
        match self.at {
            MappingAt::Start => (
                VncMappingView { at: MappingAt::Read, ..self },
                ask(seq![], OpView::ReadText(users_file())),
            ),
            MappingAt::Read => {
                let content = or_empty(reply->Text_0);
                if is_mapped(content, self.display, self.username) {
                    (
                        over,
                        succeed(
                            seq![
                                "[INFO] VNC display "@ + self.display + " already mapped to '"@
                                    + self.username + "'."@,
                            ],
                        ),
                    )
                } else {
                    (
                        VncMappingView { at: MappingAt::Written, ..self },
                        ask(
                            seq![],
                            OpView::WriteText(
                                users_file(),
                                remapped(content, self.display, self.username),
                            ),
                        ),
                    )
                }
            },
            _ => match reply->Done_0 {
                Err(e) => (
                    over,
                    fail(seq![], "failed to write "@ + users_file() + ": "@ + e),
                ),
                Ok(_) => (
                    over,
                    succeed(
                        seq![
                            "[SUCCESS] Mapped VNC display "@ + self.display + " to '"@
                                + self.username + "' in "@ + users_file() + "."@,
                        ],
                    ),
                ),
            },
        }
    }
}

/// The mapping of `display` to `username` in the file.
pub fn ensure_vnc_user_mapping(display: &str, username: &str) -> (r: VncMapping)
    ensures
        r@ == (VncMappingView { display: display@, username: username@, at: MappingAt::Start }),
{
    VncMapping {
        display: display.to_owned(),
        username: username.to_owned(),
        at: MappingAt::Start,
    }
}

impl VncMapping {
    /// The shape of the reply that is waited for.
    pub fn waits(&self) -> (k: ReplyKind)
        ensures
            k == self@.waits(),
    {
        match self.at {
            MappingAt::Start => ReplyKind::Start,
            MappingAt::Read => ReplyKind::Text,
            MappingAt::Written => ReplyKind::Done,
            MappingAt::Over => ReplyKind::Never,
        }
    }

    /// Takes the reply that is waited for.
    pub fn step(self, reply: Reply) -> (r: (VncMapping, Turn))
        requires
            self@.waits() == reply@.kind(),
        ensures
            (r.0@, r.1@) == self@.after(reply@),
            r.1@.leads_to(r.0@.waits()),
    {
        let file = "/etc/tigervnc/vncserver.users";
        match self.at {
            MappingAt::Start => (
                VncMapping { at: MappingAt::Read, ..self },
                turn_ask(list0(), Op::ReadText(file.to_owned())),
            ),
            MappingAt::Read => {
                let content = text_or_empty(reply.text());
                match map_vnc_display(
                    content.as_str(),
                    self.display.as_str(),
                    self.username.as_str(),
                ) {
                    None => {
                        let line = "[INFO] VNC display ".to_owned().concat(
                            self.display.as_str(),
                        ).concat(" already mapped to '").concat(self.username.as_str()).concat(
                            "'.",
                        );
                        (VncMapping { at: MappingAt::Over, ..self }, turn_succeed(list1(line)))
                    },
                    Some(new) => (
                        VncMapping { at: MappingAt::Written, ..self },
                        turn_ask(list0(), Op::WriteText(file.to_owned(), new)),
                    ),
                }
            },
            _ => match reply.done() {
                Err(e) => (
                    VncMapping { at: MappingAt::Over, ..self },
                    turn_fail(
                        list0(),
                        "failed to write ".to_owned().concat(file).concat(": ").concat(e.as_str()),
                    ),
                ),
                Ok(_) => {
                    let line = "[SUCCESS] Mapped VNC display ".to_owned().concat(
                        self.display.as_str(),
                    ).concat(" to '").concat(self.username.as_str()).concat("' in ").concat(
                        file,
                    ).concat(".");
                    (VncMapping { at: MappingAt::Over, ..self }, turn_succeed(list1(line)))
                },
            },
        }
    }
}

/// The directory of a user's VNC settings.
pub open spec fn vnc_dir(username: Seq<char>) -> Seq<char> {
    below(below("/home"@, username), ".vnc"@)
}

/// The file of a user's VNC password.
pub open spec fn passwd_path(username: Seq<char>) -> Seq<char> {
    below(vnc_dir(username), "passwd"@)
}

fn vnc_dir_of(username: &str) -> (r: String)
    ensures
        r@ == vnc_dir(username@),
{
    join_path(join_path("/home", username).as_str(), ".vnc")
}

fn passwd_path_of(username: &str) -> (r: String)
    ensures
        r@ == passwd_path(username@),
{
    join_path(vnc_dir_of(username).as_str(), "passwd")
}

/// The turn that ends with a text or an error.
pub open spec fn deliver(log: Seq<Seq<char>>, r: Result<Seq<char>, Seq<char>>) -> TurnView {
    finish(log, ReplyView::Text(r))
}

/// The turn that ends with a text or an error.
pub fn turn_deliver(log: Vec<String>, r: Result<String, String>) -> (t: Turn)
    ensures
        t@ == deliver(text::texts(log@), text_view(r)),
{
    turn_finish(log, Reply::Text(r))
}

/// The obfuscated password that `vncpasswd` printed, or what went wrong.
pub open spec fn obfuscated(fed: FedView) -> Result<Seq<u8>, Seq<char>> {
    match fed {
        FedView::SpawnFailed(e) => Err("failed to spawn vncpasswd: "@ + e),
        FedView::NoStdin => Err("vncpasswd gave no stdin"@),
        FedView::IoFailed(e) => Err(e),
        FedView::Exited { code, stdout, stderr } => if code == Some(0i32) {
            Ok(stdout)
        } else {
            Err(
                "vncpasswd exited with "@ + code_text(code) + ": "@ + text::trimmed(stderr),
            )
        },
    }
}

fn read_obfuscated(fed: Fed) -> (r: Result<Vec<u8>, String>)
    ensures
        match r {
            Ok(v) => obfuscated(fed@) == Ok::<Seq<u8>, Seq<char>>(v@),
            Err(e) => obfuscated(fed@) == Err::<Seq<u8>, Seq<char>>(e@),
        },
{
    match fed {
        Fed::SpawnFailed(e) => Err("failed to spawn vncpasswd: ".to_owned().concat(e.as_str())),
        Fed::NoStdin => Err("vncpasswd gave no stdin".to_owned()),
        Fed::IoFailed(e) => Err(e),
        Fed::Exited { code, stdout, stderr } => if code == Some(0i32) {
            Ok(stdout)
        } else {
            Err(
                "vncpasswd exited with ".to_owned().concat(show_code(code).as_str()).concat(
                    ": ",
                ).concat(trim(stderr.as_str()).as_str()),
            )
        },
    }
}

/// Where the setting of a password stands.
#[derive(Debug, Clone, Copy, PartialEq, Eq, Structural)]
pub enum PasswordAt {
    Start,
    Random,
    Clock,
    Obfuscated,
    DirMade,
    Written,
    Owned,
    DirClosed,
    FileClosed,
    Relabelled,
    Over,
}

/// Sets a fresh VNC password for a user.
#[derive(Debug)]
pub struct VncPassword {
    username: String,
    password: String,
    secret: Vec<u8>,
    at: PasswordAt,
}

/// The model of a `VncPassword`.
pub struct VncPasswordView {
    pub username: Seq<char>,
    /// The password, once it is chosen.
    pub password: Seq<char>,
    /// Its obfuscated form, once that is known.
    pub secret: Seq<u8>,
    pub at: PasswordAt,
}

impl View for VncPassword {
    type V = VncPasswordView;

    closed spec fn view(&self) -> VncPasswordView {
        VncPasswordView {
            username: self.username@,
            password: self.password@,
            secret: self.secret@,
            at: self.at,
        }
    }
}

impl VncPasswordView {
    /// The shape of the reply that is waited for.
    pub open spec fn waits(self) -> ReplyKind {
        match self.at {
            PasswordAt::Start => ReplyKind::Start,
            PasswordAt::Random => ReplyKind::Bytes,
            PasswordAt::Clock => ReplyKind::Nanos,
            PasswordAt::Obfuscated => ReplyKind::Fed,
            PasswordAt::Over => ReplyKind::Never,
            _ => ReplyKind::Done,
        }
    }

    /// On to another state with a request.
    pub open spec fn go(self, at: PasswordAt, op: OpView) -> (VncPasswordView, TurnView) {
        (VncPasswordView { at, ..self }, ask(seq![], op))
    }

    /// The end.
    pub open spec fn end(self, r: Result<Seq<char>, Seq<char>>) -> (VncPasswordView, TurnView) {
        (VncPasswordView { at: PasswordAt::Over, ..self }, deliver(seq![], r))
    }

    /// The password is chosen and handed to `vncpasswd`.
    pub open spec fn chosen(self, password: Seq<char>) -> (VncPasswordView, TurnView) {
        (VncPasswordView { password, ..self }).go(
            PasswordAt::Obfuscated,
            OpView::Feed(command("vncpasswd"@, seq!["-f"@]), password + "\n"@),
        )
    }

    /// The turn that `reply` leads to, and the state behind it.
    pub open spec fn after(self, reply: ReplyView) -> (VncPasswordView, TurnView) {
        let dir = vnc_dir(self.username);
        let file = passwd_path(self.username);
        match self.at {
            PasswordAt::Start => self.go(PasswordAt::Random, OpView::RandomBytes(8)),
            PasswordAt::Random => match reply->Bytes_0 {
                Some(bytes) if bytes.len() == 8 => self.chosen(
                    password_from_source(Some(bytes), 0, 8),
                ),
                _ => self.go(PasswordAt::Clock, OpView::ClockNanos),
            },
            PasswordAt::Clock => self.chosen(password_from_source(None, reply->Nanos_0, 8)),
            PasswordAt::Obfuscated => match obfuscated(reply->Fed_0) {
                Err(e) => self.end(Err(e)),
                Ok(secret) => (VncPasswordView { secret, ..self }).go(
                    PasswordAt::DirMade,
                    OpView::CreateDir(dir),
                ),
            },
            PasswordAt::DirMade => match reply->Done_0 {
                Err(e) => self.end(Err("failed to create "@ + dir + ": "@ + e)),
                Ok(_) => self.go(PasswordAt::Written, OpView::WriteBytes(file, self.secret)),
            },
            PasswordAt::Written => match reply->Done_0 {
                Err(e) => self.end(Err("failed to write "@ + file + ": "@ + e)),
                Ok(_) => self.go(
                    PasswordAt::Owned,
                    OpView::RunCmd(
                        command(
                            "chown"@,
                            seq!["-R"@, self.username + ":"@ + self.username, dir],
                        ),
                    ),
                ),
            },
            PasswordAt::Owned => match reply->Done_0 {
                Err(e) => self.end(Err(e)),
                Ok(_) => self.go(
                    PasswordAt::DirClosed,
                    OpView::RunCmd(command("chmod"@, seq!["700"@, dir])),
                ),
            },
            PasswordAt::DirClosed => match reply->Done_0 {
                Err(e) => self.end(Err(e)),
                Ok(_) => self.go(
                    PasswordAt::FileClosed,
                    OpView::RunCmd(command("chmod"@, seq!["600"@, file])),
                ),
            },
            PasswordAt::FileClosed => match reply->Done_0 {
                Err(e) => self.end(Err(e)),
                Ok(_) => self.go(
                    PasswordAt::Relabelled,
                    OpView::RunCmd(command("restorecon"@, seq!["-RFv"@, dir])),
                ),
            },
            // Not every system has SELinux, so how relabelling ended does not matter.
            _ => self.end(Ok(self.password)),
        }
    }
}

/// A fresh VNC password for `username`.
pub fn set_vnc_password(username: &str) -> (r: VncPassword)
    ensures
        r@ == (VncPasswordView {
            username: username@,
            password: seq![],
            secret: seq![],
            at: PasswordAt::Start,
        }),
{
    VncPassword {
        username: username.to_owned(),
        password: String::new(),
        secret: Vec::new(),
        at: PasswordAt::Start,
    }
}

impl VncPassword {
    /// The shape of the reply that is waited for.
    pub fn waits(&self) -> (k: ReplyKind)
        ensures
            k == self@.waits(),
    {
        match self.at {
            PasswordAt::Start => ReplyKind::Start,
            PasswordAt::Random => ReplyKind::Bytes,
            PasswordAt::Clock => ReplyKind::Nanos,
            PasswordAt::Obfuscated => ReplyKind::Fed,
            PasswordAt::Over => ReplyKind::Never,
            _ => ReplyKind::Done,
        }
    }

    fn go(self, at: PasswordAt, op: Op) -> (r: (VncPassword, Turn))
        ensures
            (r.0@, r.1@) == self@.go(at, op@),
    {
        (VncPassword { at, ..self }, turn_ask(list0(), op))
    }

    fn end(self, r: Result<String, String>) -> (t: (VncPassword, Turn))
        ensures
            (t.0@, t.1@) == self@.end(text_view(r)),
    {
        (VncPassword { at: PasswordAt::Over, ..self }, turn_deliver(list0(), r))
    }

    fn chosen(self, password: String) -> (r: (VncPassword, Turn))
        ensures
            (r.0@, r.1@) == self@.chosen(password@),
    {
        let op = Op::Feed(
            make_command("vncpasswd", args1("-f")),
            password.clone().concat("\n"),
        );
        (VncPassword { password, ..self }).go(PasswordAt::Obfuscated, op)
    }

    /// Takes the reply that is waited for.
    pub fn step(self, reply: Reply) -> (r: (VncPassword, Turn))
        requires
            self@.waits() == reply@.kind(),
        ensures
            (r.0@, r.1@) == self@.after(reply@),
            r.1@.leads_to(r.0@.waits()),
    {
        let dir = vnc_dir_of(self.username.as_str());
        let file = passwd_path_of(self.username.as_str());
        match self.at {
            PasswordAt::Start => self.go(PasswordAt::Random, Op::RandomBytes(8)),
            PasswordAt::Random => {
                let bytes: Option<Vec<u8>> = match reply {
                    Reply::Bytes(b) => b,
                    _ => None,
                };
                let enough = match &bytes {
                    Some(b) => b.len() == 8,
                    None => false,
                };
                if enough {
                    let password = random_password(&bytes, 0, 8);
                    self.chosen(password)
                } else {
                    self.go(PasswordAt::Clock, Op::ClockNanos)
                }
            },
            PasswordAt::Clock => {
                let nanos: u32 = match reply {
                    Reply::Nanos(n) => n,
                    _ => 0,
                };
                let password = random_password(&None, nanos, 8);
                self.chosen(password)
            },
            PasswordAt::Obfuscated => match read_obfuscated(reply.fed()) {
                Err(e) => self.end(Err(e)),
                Ok(secret) => (VncPassword { secret, ..self }).go(
                    PasswordAt::DirMade,
                    Op::CreateDir(dir),
                ),
            },
            PasswordAt::DirMade => match reply.done() {
                Err(e) => self.end(
                    Err(
                        "failed to create ".to_owned().concat(dir.as_str()).concat(": ").concat(
                            e.as_str(),
                        ),
                    ),
                ),
                Ok(_) => {
                    let secret = copy_bytes(&self.secret);
                    self.go(PasswordAt::Written, Op::WriteBytes(file, secret))
                },
            },
            PasswordAt::Written => match reply.done() {
                Err(e) => self.end(
                    Err(
                        "failed to write ".to_owned().concat(file.as_str()).concat(": ").concat(
                            e.as_str(),
                        ),
                    ),
                ),
                Ok(_) => {
                    let owner = self.username.clone().concat(":").concat(self.username.as_str());
                    let c = make_command("chown", args3("-R", owner.as_str(), dir.as_str()));
                    self.go(PasswordAt::Owned, Op::RunCmd(c))
                },
            },
            PasswordAt::Owned => match reply.done() {
                Err(e) => self.end(Err(e)),
                Ok(_) => self.go(
                    PasswordAt::DirClosed,
                    Op::RunCmd(make_command("chmod", args2("700", dir.as_str()))),
                ),
            },
            PasswordAt::DirClosed => match reply.done() {
                Err(e) => self.end(Err(e)),
                Ok(_) => self.go(
                    PasswordAt::FileClosed,
                    Op::RunCmd(make_command("chmod", args2("600", file.as_str()))),
                ),
            },
            PasswordAt::FileClosed => match reply.done() {
                Err(e) => self.end(Err(e)),
                Ok(_) => self.go(
                    PasswordAt::Relabelled,
                    Op::RunCmd(make_command("restorecon", args2("-RFv", dir.as_str()))),
                ),
            },
            _ => {
                let password = self.password.clone();
                self.end(Ok(password))
            },
        }
    }
}

/// Whether a display can be given: there is one, and its port fits in 32 bits.
pub open spec fn usable(content: Seq<char>, username: Seq<char>) -> bool {
    allocated(content, username) matches Some(d) && vnc_port(d) <= u32::MAX
}

/// The service of a display.
pub open spec fn unit_of(display: Seq<char>) -> Seq<char> {
    "vncserver@"@ + display + ".service"@
}

/// What is said when the session has been set up. The password is shown this once.
pub open spec fn granted(username: Seq<char>, password: Seq<char>, display: Seq<char>) -> Seq<char> {
    let port = decimal(vnc_port(display) as nat);
    "[SUCCESS] VNC granted to '"@ + username + "': password "@ + password
        + "  (write this down now - it is not saved anywhere else and won't be shown again). Reach it with: ssh -L "@
        + port + ":localhost:"@ + port + " "@ + username
        + "@<this-host>, then point a VNC viewer at localhost:"@ + port + "."@
}

/// Where the granting of a session stands.
#[derive(Debug, Clone, Copy, PartialEq, Eq, Structural)]
pub enum GrantVncAt {
    Start,
    LookedUp,
    Read,
    Grouped,
    Joined,
    Mapped,
    Secured,
    Reloaded,
    Enabled,
    Over,
}

/// Gives a user a VNC session.
#[derive(Debug)]
pub struct GrantVnc {
    username: String,
    display: String,
    password: String,
    at: GrantVncAt,
}

/// The model of a `GrantVnc`.
pub struct GrantVncView {
    pub username: Seq<char>,
    /// The display, once it is chosen.
    pub display: Seq<char>,
    /// The password, once it is set.
    pub password: Seq<char>,
    pub at: GrantVncAt,
}

impl View for GrantVnc {
    type V = GrantVncView;

    closed spec fn view(&self) -> GrantVncView {
        GrantVncView {
            username: self.username@,
            display: self.display@,
            password: self.password@,
            at: self.at,
        }
    }
}

impl GrantVncView {
    /// What holds of every grant: the port of its display fits in 32 bits.
    pub open spec fn wf(self) -> bool {
        vnc_port(self.display) <= u32::MAX
    }

    /// The shape of the reply that is waited for.
    pub open spec fn waits(self) -> ReplyKind {
        match self.at {
            GrantVncAt::Start => ReplyKind::Start,
            GrantVncAt::LookedUp => ReplyKind::Captured,
            GrantVncAt::Read => ReplyKind::Text,
            GrantVncAt::Secured => ReplyKind::Text,
            GrantVncAt::Over => ReplyKind::Never,
            _ => ReplyKind::Done,
        }
    }

    /// Whether the reply leaves a display to give.
    pub open spec fn admits(self, reply: ReplyView) -> bool {
        self.at == GrantVncAt::Read ==> usable(or_empty(reply->Text_0), self.username)
    }

    /// On to another state with a request.
    pub open spec fn go(self, at: GrantVncAt, log: Seq<Seq<char>>, op: OpView) -> (
        GrantVncView,
        TurnView,
    ) {
        (GrantVncView { at, ..self }, ask(log, op))
    }

    /// The end.
    pub open spec fn end(self, log: Seq<Seq<char>>, r: Result<Seq<char>, Seq<char>>) -> (
        GrantVncView,
        TurnView,
    ) {
        (GrantVncView { at: GrantVncAt::Over, ..self }, deliver(log, r))
    }

    /// The turn that `reply` leads to, and the state behind it.
    pub open spec fn after(self, reply: ReplyView) -> (GrantVncView, TurnView) {
        match self.at {
            GrantVncAt::Start => self.go(
                GrantVncAt::LookedUp,
                seq![],
                OpView::Capture(id_command(self.username)),
            ),
            GrantVncAt::LookedUp => if user_exists(reply->Captured_0) {
                self.go(GrantVncAt::Read, seq![], OpView::ReadText(users_file()))
            } else {
                self.end(seq![], Err("user '"@ + self.username + "' does not exist"@))
            },
            GrantVncAt::Read => {
                let display = allocated(or_empty(reply->Text_0), self.username)->Some_0;
                (GrantVncView { display, ..self }).go(
                    GrantVncAt::Grouped,
                    seq![
                        "[USER MGR] Granting VNC (display "@ + display + ") to '"@ + self.username
                            + "'..."@,
                    ],
                    OpView::RunCmd(command("groupadd"@, seq!["-f"@, "edausers"@])),
                )
            },
            // The group may be there already, so how creating it ended does not matter.
            GrantVncAt::Grouped => self.go(
                GrantVncAt::Joined,
                seq![],
                OpView::RunCmd(command("usermod"@, seq!["-aG"@, "edausers"@, self.username])),
            ),
            GrantVncAt::Joined => match reply->Done_0 {
                Err(e) => self.end(seq![], Err(e)),
                Ok(_) => self.go(
                    GrantVncAt::Mapped,
                    seq![],
                    OpView::EnsureVncMapping(self.display, self.username),
                ),
            },
            GrantVncAt::Mapped => match reply->Done_0 {
                Err(e) => self.end(seq![], Err(e)),
                Ok(_) => self.go(GrantVncAt::Secured, seq![], OpView::SetVncPassword(self.username)),
            },
            GrantVncAt::Secured => match reply->Text_0 {
                Err(e) => self.end(seq![], Err(e)),
                Ok(password) => (GrantVncView { password, ..self }).go(
                    GrantVncAt::Reloaded,
                    seq![],
                    OpView::RunCmd(command("systemctl"@, seq!["daemon-reload"@])),
                ),
            },
            GrantVncAt::Reloaded => match reply->Done_0 {
                Err(e) => self.end(seq![], Err(e)),
                Ok(_) => self.go(
                    GrantVncAt::Enabled,
                    seq![],
                    OpView::RunCmd(
                        command("systemctl"@, seq!["enable"@, "--now"@, unit_of(self.display)]),
                    ),
                ),
            },
            _ => match reply->Done_0 {
                Err(e) => self.end(seq![], Err(e)),
                Ok(_) => self.end(
                    seq![granted(self.username, self.password, self.display)],
                    Ok(self.password),
                ),
            },
        }
    }
}

/// A VNC session for `username`: a display of their own, membership in the group, a
/// fresh password and a running service.
pub fn grant_vnc(username: &str) -> (r: GrantVnc)
    ensures
        r@ == (GrantVncView {
            username: username@,
            display: seq![],
            password: seq![],
            at: GrantVncAt::Start,
        }),
        r@.wf(),
{
    proof {
        reveal_strlit(":");
    }
    GrantVnc {
        username: username.to_owned(),
        display: String::new(),
        password: String::new(),
        at: GrantVncAt::Start,
    }
}

impl GrantVnc {
    /// The shape of the reply that is waited for.
    pub fn waits(&self) -> (k: ReplyKind)
        ensures
            k == self@.waits(),
    {
        match self.at {
            GrantVncAt::Start => ReplyKind::Start,
            GrantVncAt::LookedUp => ReplyKind::Captured,
            GrantVncAt::Read => ReplyKind::Text,
            GrantVncAt::Secured => ReplyKind::Text,
            GrantVncAt::Over => ReplyKind::Never,
            _ => ReplyKind::Done,
        }
    }

    /// Whether the reply leaves a display to give.
    pub fn admits(&self, reply: &Reply) -> (r: bool)
        requires
            self@.waits() == reply@.kind(),
        ensures
            r == self@.admits(reply@),
    {
        match self.at {
            GrantVncAt::Read => {
                let content: &str = match reply {
                    Reply::Text(Ok(c)) => c.as_str(),
                    _ => {
                        proof {
                            reveal_strlit("");
                            assert(""@ =~= seq![]);
                        }
                        ""
                    },
                };
                match find_vnc_display(content, self.username.as_str()) {
                    Some(d) => port_of_display(d.as_str()).is_some(),
                    None => false,
                }
            },
            _ => true,
        }
    }

    fn go(self, at: GrantVncAt, log: Vec<String>, op: Op) -> (r: (GrantVnc, Turn))
        ensures
            (r.0@, r.1@) == self@.go(at, text::texts(log@), op@),
    {
        (GrantVnc { at, ..self }, turn_ask(log, op))
    }

    fn end(self, log: Vec<String>, r: Result<String, String>) -> (t: (GrantVnc, Turn))
        ensures
            (t.0@, t.1@) == self@.end(text::texts(log@), text_view(r)),
    {
        (GrantVnc { at: GrantVncAt::Over, ..self }, turn_deliver(log, r))
    }

    fn success_line(&self) -> (r: String)
        requires
            self@.wf(),
        ensures
            r@ == granted(self@.username, self@.password, self@.display),
    {
        let number: u32 = match port_of_display(self.display.as_str()) {
            Some(p) => p,
            None => 0,
        };
        let port = decimal_text(number as u64);
        "[SUCCESS] VNC granted to '".to_owned().concat(self.username.as_str()).concat(
            "': password ",
        ).concat(self.password.as_str()).concat(
            "  (write this down now - it is not saved anywhere else and won't be shown again). Reach it with: ssh -L ",
        ).concat(port.as_str()).concat(":localhost:").concat(port.as_str()).concat(" ").concat(
            self.username.as_str(),
        ).concat("@<this-host>, then point a VNC viewer at localhost:").concat(
            port.as_str(),
        ).concat(".")
    }

    /// Takes the reply that is waited for.
    pub fn step(self, reply: Reply) -> (r: (GrantVnc, Turn))
        requires
            self@.wf(),
            self@.waits() == reply@.kind(),
            self@.admits(reply@),
        ensures
            (r.0@, r.1@) == self@.after(reply@),
            r.1@.leads_to(r.0@.waits()),
            r.0@.wf(),
    {
        match self.at {
            GrantVncAt::Start => {
                let op = Op::Capture(make_id_command(self.username.as_str()));
                self.go(GrantVncAt::LookedUp, list0(), op)
            },
            GrantVncAt::LookedUp => if check_user_exists(&reply.captured()) {
                let op = Op::ReadText("/etc/tigervnc/vncserver.users".to_owned());
                self.go(GrantVncAt::Read, list0(), op)
            } else {
                let e = "user '".to_owned().concat(self.username.as_str()).concat(
                    "' does not exist",
                );
                self.end(list0(), Err(e))
            },
            GrantVncAt::Read => {
                let content = text_or_empty(reply.text());
                let display = allocate_vnc_display(content.as_str(), self.username.as_str());
                let line = "[USER MGR] Granting VNC (display ".to_owned().concat(
                    display.as_str(),
                ).concat(") to '").concat(self.username.as_str()).concat("'...");
                let op = Op::RunCmd(make_command("groupadd", args2("-f", "edausers")));
                (GrantVnc { display, ..self }).go(GrantVncAt::Grouped, list1(line), op)
            },
            GrantVncAt::Grouped => {
                let args = args3("-aG", "edausers", self.username.as_str());
                self.go(GrantVncAt::Joined, list0(), Op::RunCmd(make_command("usermod", args)))
            },
            GrantVncAt::Joined => match reply.done() {
                Err(e) => self.end(list0(), Err(e)),
                Ok(_) => {
                    let op = Op::EnsureVncMapping(self.display.clone(), self.username.clone());
                    self.go(GrantVncAt::Mapped, list0(), op)
                },
            },
            GrantVncAt::Mapped => match reply.done() {
                Err(e) => self.end(list0(), Err(e)),
                Ok(_) => {
                    let op = Op::SetVncPassword(self.username.clone());
                    self.go(GrantVncAt::Secured, list0(), op)
                },
            },
            GrantVncAt::Secured => match reply.text() {
                Err(e) => self.end(list0(), Err(e)),
                Ok(password) => (GrantVnc { password, ..self }).go(
                    GrantVncAt::Reloaded,
                    list0(),
                    Op::RunCmd(make_command("systemctl", args1("daemon-reload"))),
                ),
            },
            GrantVncAt::Reloaded => match reply.done() {
                Err(e) => self.end(list0(), Err(e)),
                Ok(_) => {
                    let unit = "vncserver@".to_owned().concat(self.display.as_str()).concat(
                        ".service",
                    );
                    let args = args3("enable", "--now", unit.as_str());
                    self.go(GrantVncAt::Enabled, list0(), Op::RunCmd(make_command("systemctl", args)))
                },
            },
            _ => match reply.done() {
                Err(e) => self.end(list0(), Err(e)),
                Ok(_) => {
                    let line = self.success_line();
                    let password = self.password.clone();
                    self.end(list1(line), Ok(password))
                },
            },
        }
    }
}

fn copy_bytes(v: &Vec<u8>) -> (r: Vec<u8>)
    ensures
        r@ == v@,
{
    let mut r: Vec<u8> = Vec::new();
    let mut i: usize = 0;
    while i < v.len()
        invariant
            i <= v@.len(),
            r@ == v@.take(i as int),
        decreases v.len() - i,
    {
        r.push(v[i]);
        assert(r@ =~= v@.take(i + 1));
        i += 1;
    }
    assert(v@.take(i as int) =~= v@);
    r
}

} // verus!
