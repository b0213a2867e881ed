//! Creating accounts and giving them the tools' environment.

use vstd::prelude::*;

use crate::exchange::{
    args6, ask, command, fail, finish, list0, list1, make_command, succeed, turn_ask, turn_fail,
    turn_finish, turn_succeed, Captured, CapturedView, CommandView, NextView, Op, OpView, Reply,
    ReplyKind, ReplyView, Turn, TurnView,
};
use crate::text::{occurs_at, texts};
use crate::users::{
    bashrc_of, bashrc_path, check_user_exists, id_command, is_bashrc_configured, launcher,
    launcher_entry, launcher_sourced, make_id_command, user_exists,
};

verus! {

/// Where the granting of the environment stands.
#[derive(Debug, Clone, Copy, PartialEq, Eq, Structural)]
pub enum GrantEnvAt {
    Start,
    Found,
    FoundAgain,
    Checked,
    Read,
    Written,
    Over,
}

/// Adds the launcher to the start-up file of a user who exists.
#[derive(Debug)]
pub struct GrantEnv {
    username: String,
    at: GrantEnvAt,
}

/// The model of a `GrantEnv`.
pub struct GrantEnvView {
    pub username: Seq<char>,
    pub at: GrantEnvAt,
}

impl View for GrantEnv {
    type V = GrantEnvView;

    closed spec fn view(&self) -> GrantEnvView {
        GrantEnvView { username: self.username@, at: self.at }
    }
}

impl GrantEnvView {
    /// The shape of the reply that is waited for.
    pub open spec fn waits(self) -> ReplyKind {
        match self.at {
            GrantEnvAt::Start => ReplyKind::Start,
            GrantEnvAt::Found => ReplyKind::Flag,
            GrantEnvAt::FoundAgain => ReplyKind::Flag,
            GrantEnvAt::Checked => ReplyKind::Text,
            GrantEnvAt::Read => ReplyKind::Text,
            GrantEnvAt::Written => ReplyKind::Done,
            GrantEnvAt::Over => ReplyKind::Never,
        }
    }

    /// On to another state with a request.
    pub open spec fn go(self, at: GrantEnvAt, log: Seq<Seq<char>>, op: OpView) -> (
        GrantEnvView,
        TurnView,
    ) {
        (GrantEnvView { at, ..self }, ask(log, op))
    }

    /// The end.
    pub open spec fn end(self, turn: TurnView) -> (GrantEnvView, TurnView) {
        (GrantEnvView { at: GrantEnvAt::Over, ..self }, turn)
    }

    /// The file does not mention the launcher: it is read to be written anew.
    pub open spec fn inject(self) -> (GrantEnvView, TurnView) {
        self.go(
            GrantEnvAt::Read,
            seq![
                "[USER MGR] Injecting EDA launcher into "@ + bashrc_path(self.username) + "..."@,
            ],
            OpView::ReadText(bashrc_path(self.username)),
        )
    }

    /// The turn that `reply` leads to, and the state behind it.
    pub open spec fn after(self, reply: ReplyView) -> (GrantEnvView, TurnView) {
        let file = bashrc_path(self.username);
        match self.at {
            GrantEnvAt::Start => self.go(GrantEnvAt::Found, seq![], OpView::Exists(file)),
            GrantEnvAt::Found => if reply->Flag_0 {
                self.go(GrantEnvAt::FoundAgain, seq![], OpView::Exists(file))
            } else {
                self.end(
                    fail(
                        seq![
                            "[WARN] Home directory or .bashrc missing for '"@ + self.username
                                + "'."@,
                        ],
                        file + " does not exist"@,
                    ),
                )
            },
            GrantEnvAt::FoundAgain => if reply->Flag_0 {
                self.go(GrantEnvAt::Checked, seq![], OpView::ReadText(file))
            } else {
                self.inject()
            },
            GrantEnvAt::Checked => if launcher_sourced(reply->Text_0.ok()) {
                self.end(
                    succeed(
                        seq![
                            "[INFO] .bashrc for '"@ + self.username + "' is already configured."@,
                        ],
                    ),
                )
            } else {
                self.inject()
            },
            GrantEnvAt::Read => match reply->Text_0 {
                Err(e) => self.end(fail(seq![], e)),
                Ok(content) => self.go(
                    GrantEnvAt::Written,
                    seq![],
                    OpView::WriteText(file, content + launcher_entry()),
                ),
            },
            _ => match reply->Done_0 {
                Err(e) => self.end(fail(seq![], "Failed to update "@ + file + ": "@ + e)),
                Ok(_) => self.end(
                    succeed(
                        seq!["[SUCCESS] Configured .bashrc for '"@ + self.username + "'."@],
                    ),
                ),
            },
        }
    }
}

/// The environment for `username`.
pub fn grant_env(username: &str) -> (r: GrantEnv)
    ensures
        r@ == (GrantEnvView { username: username@, at: GrantEnvAt::Start }),
{
    GrantEnv { username: username.to_owned(), at: GrantEnvAt::Start }
}

impl GrantEnv {
    /// The shape of the reply that is waited for.
    pub fn waits(&self) -> (k: ReplyKind)
        ensures
            k == self@.waits(),
    {
        match self.at {
            GrantEnvAt::Start => ReplyKind::Start,
            GrantEnvAt::Found => ReplyKind::Flag,
            GrantEnvAt::FoundAgain => ReplyKind::Flag,
            GrantEnvAt::Checked => ReplyKind::Text,
            GrantEnvAt::Read => ReplyKind::Text,
            GrantEnvAt::Written => ReplyKind::Done,
            GrantEnvAt::Over => ReplyKind::Never,
        }
    }

    fn go(self, at: GrantEnvAt, log: Vec<String>, op: Op) -> (r: (GrantEnv, Turn))
        ensures
            (r.0@, r.1@) == self@.go(at, texts(log@), op@),
    {
        (GrantEnv { at, ..self }, turn_ask(log, op))
    }

    fn end(self, turn: Turn) -> (r: (GrantEnv, Turn))
        ensures
            (r.0@, r.1@) == self@.end(turn@),
    {
        (GrantEnv { at: GrantEnvAt::Over, ..self }, turn)
    }

    fn inject(self) -> (r: (GrantEnv, Turn))
        ensures
            (r.0@, r.1@) == self@.inject(),
    {
        let file = bashrc_of(self.username.as_str());
        let line = "[USER MGR] Injecting EDA launcher into ".to_owned().concat(
            file.as_str(),
        ).concat("...");
        self.go(GrantEnvAt::Read, list1(line), Op::ReadText(file))
    }

    /// Takes the reply that is waited for.
    pub fn step(self, reply: Reply) -> (r: (GrantEnv, Turn))
        requires
            self@.waits() == reply@.kind(),
        ensures
            (r.0@, r.1@) == self@.after(reply@),
            r.1@.leads_to(r.0@.waits()),
    {
        let file = bashrc_of(self.username.as_str());
        match self.at {
            GrantEnvAt::Start => self.go(GrantEnvAt::Found, list0(), Op::Exists(file)),
            GrantEnvAt::Found => if reply.flag() {
                self.go(GrantEnvAt::FoundAgain, list0(), Op::Exists(file))
            } else {
                let line = "[WARN] Home directory or .bashrc missing for '".to_owned().concat(
                    self.username.as_str(),
                ).concat("'.");
                self.end(turn_fail(list1(line), file.concat(" does not exist")))
            },
            GrantEnvAt::FoundAgain => if reply.flag() {
                self.go(GrantEnvAt::Checked, list0(), Op::ReadText(file))
            } else {
                self.inject()
            },
            GrantEnvAt::Checked => {
                let content: Option<String> = match reply.text() {
                    Ok(c) => Some(c),
                    Err(_) => None,
                };
                if is_bashrc_configured(&content) {
                    let line = "[INFO] .bashrc for '".to_owned().concat(
                        self.username.as_str(),
                    ).concat("' is already configured.");
                    self.end(turn_succeed(list1(line)))
                } else {
                    self.inject()
                }
            },
            GrantEnvAt::Read => match reply.text() {
                Err(e) => self.end(turn_fail(list0(), e)),
                Ok(content) => {
                    let new = content.concat(
                        "\n# Source VLSI Lab EDA Tool Launcher\nif [ -f /opt/vlsilab/eda-launcher.sh ]; then\n    source /opt/vlsilab/eda-launcher.sh\nfi\n",
                    );
                    self.go(GrantEnvAt::Written, list0(), Op::WriteText(file, new))
                },
            },
            _ => match reply.done() {
                Err(e) => {
                    let e = "Failed to update ".to_owned().concat(file.as_str()).concat(
                        ": ",
                    ).concat(e.as_str());
                    self.end(turn_fail(list0(), e))
                },
                Ok(_) => {
                    let line = "[SUCCESS] Configured .bashrc for '".to_owned().concat(
                        self.username.as_str(),
                    ).concat("'.");
                    self.end(turn_succeed(list1(line)))
                },
            },
        }
    }
}

/// What is written to a start-up file mentions the launcher, and keeps all that stood
/// in the file in front of it.
pub proof fn law_environment_reads_back(content: Seq<char>)
    ensures
        launcher_sourced(Some(content + launcher_entry())),
        (content + launcher_entry()).take(content.len() as int) == content,
{
    reveal_strlit(
        "\n# Source VLSI Lab EDA Tool Launcher\nif [ -f /opt/vlsilab/eda-launcher.sh ]; then\n    source /opt/vlsilab/eda-launcher.sh\nfi\n",
    );
    reveal_strlit("/opt/vlsilab/eda-launcher.sh");
    let new = content + launcher_entry();
    let i = content.len() as int + 45;
    assert(launcher_entry().subrange(45, 45int + launcher().len()) =~= launcher());
    assert(new.subrange(i, i + launcher().len()) =~= launcher());
    assert(occurs_at(new, launcher(), i));
    assert(new.take(content.len() as int) =~= content);
}

/// What a grant hears from a machine on which the start-up file holds `content`, and
/// what the file holds afterwards.
pub open spec fn file_answers(op: OpView, content: Seq<char>) -> (ReplyView, Seq<char>) {
    match op {
        OpView::Exists(_) => (ReplyView::Flag(true), content),
        OpView::ReadText(_) => (ReplyView::Text(Ok(content)), content),
        OpView::WriteText(_, new) => (ReplyView::Done(Ok(())), new),
        _ => (ReplyView::Done(Ok(())), content),
    }
}

/// Up to `turns` turns of a grant on such a machine: what the file holds afterwards,
/// and the result where the grant has ended.
pub open spec fn grant_on_file(
    v: GrantEnvView,
    reply: ReplyView,
    content: Seq<char>,
    turns: nat,
) -> (Seq<char>, Option<ReplyView>)
    decreases turns,
{
    if turns == 0 {
        (content, None)
    } else {
        let (state, turn) = v.after(reply);
        match turn.next {
            NextView::Do(op) => {
                let (answer, new) = file_answers(op, content);
                grant_on_file(state, answer, new, (turns - 1) as nat)
            },
            NextView::Finish(r) => (content, Some(r)),
        }
    }
}

/// The start-up file behind a grant.
pub open spec fn with_launcher(content: Seq<char>) -> Seq<char> {
    if launcher_sourced(Some(content)) {
        content
    } else {
        content + launcher_entry()
    }
}

/// On a machine where the start-up file can be read and written, a grant ends well
/// and leaves the launcher in the file.
pub proof fn law_grant_puts_launcher_in_file(username: Seq<char>, content: Seq<char>)
    ensures
        grant_on_file(
            GrantEnvView { username, at: GrantEnvAt::Start },
            ReplyView::Start,
            content,
            6,
        ) == (with_launcher(content), Some(ReplyView::Done(Ok(())))),
        launcher_sourced(Some(with_launcher(content))),
{
    reveal_with_fuel(grant_on_file, 7);
    law_environment_reads_back(content);
}

/// A second grant leaves the file as the first did.
pub proof fn law_second_grant_changes_nothing(content: Seq<char>)
    ensures
        with_launcher(with_launcher(content)) == with_launcher(content),
{
    law_environment_reads_back(content);
}

/// Where the creation of an account stands.
#[derive(Debug, Clone, Copy, PartialEq, Eq, Structural)]
pub enum CreateUserAt {
    Start,
    LookedUp,
    Added,
    EnvGranted,
    Over,
}

/// Creates an account where there is none, and gives it the environment.
#[derive(Debug)]
pub struct CreateUser {
    username: String,
    role: String,
    identifier: String,
    at: CreateUserAt,
}

/// The model of a `CreateUser`.
pub struct CreateUserView {
    pub username: Seq<char>,
    pub role: Seq<char>,
    pub identifier: Seq<char>,
    pub at: CreateUserAt,
}

impl View for CreateUser {
    type V = CreateUserView;

    closed spec fn view(&self) -> CreateUserView {
        CreateUserView {
            username: self.username@,
            role: self.role@,
            identifier: self.identifier@,
            at: self.at,
        }
    }
}

/// The command that creates an account with a home directory.
pub open spec fn useradd_command(
    username: Seq<char>,
    role: Seq<char>,
    identifier: Seq<char>,
) -> CommandView {
    command(
        "useradd"@,
        seq![
            "-m"@,
            "-s"@,
            "/bin/bash"@,
            "-c"@,
            "VLSI Lab "@ + role + " ["@ + identifier + "]"@,
            username,
        ],
    )
}

impl CreateUserView {
    /// The shape of the reply that is waited for.
    pub open spec fn waits(self) -> ReplyKind {
        match self.at {
            CreateUserAt::Start => ReplyKind::Start,
            CreateUserAt::LookedUp => ReplyKind::Captured,
            CreateUserAt::Added => ReplyKind::Captured,
            CreateUserAt::EnvGranted => ReplyKind::Done,
            CreateUserAt::Over => ReplyKind::Never,
        }
    }

    /// On to another state with a request.
    pub open spec fn go(self, at: CreateUserAt, log: Seq<Seq<char>>, op: OpView) -> (
        CreateUserView,
        TurnView,
    ) {
        (CreateUserView { at, ..self }, ask(log, op))
    }

    /// The end.
    pub open spec fn end(self, turn: TurnView) -> (CreateUserView, TurnView) {
        (CreateUserView { at: CreateUserAt::Over, ..self }, turn)
    }

    /// The turn that `reply` leads to, and the state behind it.
    pub open spec fn after(self, reply: ReplyView) -> (CreateUserView, TurnView) {
        match self.at {
            CreateUserAt::Start => self.go(
                CreateUserAt::LookedUp,
                seq![
                    "[USER MGR] Provisioning user account '"@ + self.username + "' ("@ + self.role
                        + ") - ID: "@ + self.identifier,
                ],
                OpView::Capture(id_command(self.username)),
            ),
            CreateUserAt::LookedUp => if user_exists(reply->Captured_0) {
                self.go(
                    CreateUserAt::EnvGranted,
                    seq!["[USER MGR] User account '"@ + self.username + "' already exists."@],
                    OpView::GrantEnv(self.username),
                )
            } else {
                self.go(
                    CreateUserAt::Added,
                    seq![
                        "[USER MGR] User '"@ + self.username
                            + "' does not exist. Creating system account..."@,
                    ],
                    OpView::Capture(
                        useradd_command(self.username, self.role, self.identifier),
                    ),
                )
            },
            CreateUserAt::Added => match reply->Captured_0 {
                CapturedView::Failed(e) => self.end(
                    fail(seq![], "Failed to execute useradd: "@ + e),
                ),
                CapturedView::Exited { code, stdout, stderr } => if code == Some(0i32) {
                    self.go(
                        CreateUserAt::EnvGranted,
                        seq![
                            "[USER MGR] Successfully created Linux user '"@ + self.username
                                + "'."@,
                        ],
                        OpView::GrantEnv(self.username),
                    )
                } else {
                    self.end(
                        fail(
                            seq!["[ERROR] useradd failed: "@ + stderr],
                            "useradd failed: "@ + stderr,
                        ),
                    )
                },
            },
            _ => self.end(finish(seq![], ReplyView::Done(reply->Done_0))),
        }
    }
}

/// An account for `username` with the environment, created where there is none.
pub fn create_or_configure_student_user(username: &str, role: &str, identifier: &str) -> (r:
    CreateUser)
    ensures
        r@ == (CreateUserView {
            username: username@,
            role: role@,
            identifier: identifier@,
            at: CreateUserAt::Start,
        }),
{
    CreateUser {
        username: username.to_owned(),
        role: role.to_owned(),
        identifier: identifier.to_owned(),
        at: CreateUserAt::Start,
    }
}

impl CreateUser {
    /// The shape of the reply that is waited for.
    pub fn waits(&self) -> (k: ReplyKind)
        ensures
            k == self@.waits(),
    {
        match self.at {
            CreateUserAt::Start => ReplyKind::Start,
            CreateUserAt::LookedUp => ReplyKind::Captured,
            CreateUserAt::Added => ReplyKind::Captured,
            CreateUserAt::EnvGranted => ReplyKind::Done,
            CreateUserAt::Over => ReplyKind::Never,
        }
    }

    fn go(self, at: CreateUserAt, log: Vec<String>, op: Op) -> (r: (CreateUser, Turn))
        ensures
            (r.0@, r.1@) == self@.go(at, texts(log@), op@),
    {
        (CreateUser { at, ..self }, turn_ask(log, op))
    }

    fn end(self, turn: Turn) -> (r: (CreateUser, Turn))
        ensures
            (r.0@, r.1@) == self@.end(turn@),
    {
        (CreateUser { at: CreateUserAt::Over, ..self }, turn)
    }

    /// Takes the reply that is waited for.
    pub fn step(self, reply: Reply) -> (r: (CreateUser, Turn))
        requires
            self@.waits() == reply@.kind(),
        ensures
            (r.0@, r.1@) == self@.after(reply@),
            r.1@.leads_to(r.0@.waits()),
    {
        let user = self.username.clone();
        match self.at {
            CreateUserAt::Start => {
                let line = "[USER MGR] Provisioning user account '".to_owned().concat(
                    user.as_str(),
                ).concat("' (").concat(self.role.as_str()).concat(") - ID: ").concat(
                    self.identifier.as_str(),
                );
                self.go(
                    CreateUserAt::LookedUp,
                    list1(line),
                    Op::Capture(make_id_command(user.as_str())),
                )
            },
            CreateUserAt::LookedUp => if check_user_exists(&reply.captured()) {
                let line = "[USER MGR] User account '".to_owned().concat(user.as_str()).concat(
                    "' already exists.",
                );
                self.go(CreateUserAt::EnvGranted, list1(line), Op::GrantEnv(user))
            } else {
                let line = "[USER MGR] User '".to_owned().concat(user.as_str()).concat(
                    "' does not exist. Creating system account...",
                );
                let comment = "VLSI Lab ".to_owned().concat(self.role.as_str()).concat(
                    " [",
                ).concat(self.identifier.as_str()).concat("]");
                let args = args6("-m", "-s", "/bin/bash", "-c", comment.as_str(), user.as_str());
                self.go(
                    CreateUserAt::Added,
                    list1(line),
                    Op::Capture(make_command("useradd", args)),
                )
            },
            CreateUserAt::Added => match reply.captured() {
                Captured::Failed(e) => {
                    let e = "Failed to execute useradd: ".to_owned().concat(e.as_str());
                    self.end(turn_fail(list0(), e))
                },
                Captured::Exited { code, stdout, stderr } => if code == Some(0i32) {
                    let line = "[USER MGR] Successfully created Linux user '".to_owned().concat(
                        user.as_str(),
                    ).concat("'.");
                    self.go(CreateUserAt::EnvGranted, list1(line), Op::GrantEnv(user))
                } else {
                    let line = "[ERROR] useradd failed: ".to_owned().concat(stderr.as_str());
                    let e = "useradd failed: ".to_owned().concat(stderr.as_str());
                    self.end(turn_fail(list1(line), e))
                },
            },
            _ => {
                let outcome = reply.done();
                self.end(turn_finish(list0(), Reply::Done(outcome)))
            },
        }
    }
}

/// An account that exists is never created anew.
pub proof fn law_existing_account_is_kept(v: CreateUserView, answer: CapturedView)
    requires
        v.at == CreateUserAt::LookedUp,
        user_exists(answer),
    ensures
        v.after(ReplyView::Captured(answer)).1.next == NextView::Do(OpView::GrantEnv(v.username)),
{
}

/// The environment is granted only to an account that exists or has just been
/// created.
pub proof fn law_environment_needs_an_account(v: CreateUserView, reply: ReplyView)
    requires
        v.waits() == reply.kind(),
        v.after(reply).1.next matches NextView::Do(OpView::GrantEnv(_)),
    ensures
        v.at == CreateUserAt::LookedUp || v.at == CreateUserAt::Added,
        user_exists(reply->Captured_0),
{
}

} // verus!
