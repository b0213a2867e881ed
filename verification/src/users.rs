//! The lab's user accounts.

use vstd::prelude::*;

use crate::exchange::{
    args1, args2, command, make_command, maybe_text, Captured, CapturedView, CommandLine,
    CommandView,
};
use crate::order::among;
use crate::text::{begins, contains, occurs, starts_with, words, words_of};

verus! {

/// An account in the range of the lab's users.
#[derive(Debug, Clone)]
pub struct LabUser {
    pub username: String,
    /// "Student", "Faculty", "Staff" or "Guest"; "Sysadmin" where it was inferred.
    pub role: String,
    /// Register number or staff number.
    pub identifier: String,
    pub exists: bool,
    pub bashrc_configured: bool,
    pub vnc_configured: bool,
}

/// The model of a `LabUser`.
pub struct LabUserView {
    pub username: Seq<char>,
    pub role: Seq<char>,
    pub identifier: Seq<char>,
    pub exists: bool,
    pub bashrc_configured: bool,
    pub vnc_configured: bool,
}

impl View for LabUser {
    type V = LabUserView;

    open spec fn view(&self) -> LabUserView {
        LabUserView {
            username: self.username@,
            role: self.role@,
            identifier: self.identifier@,
            exists: self.exists,
            bashrc_configured: self.bashrc_configured,
            vnc_configured: self.vnc_configured,
        }
    }
}

/// The models of a list of users.
pub open spec fn user_views(v: Seq<LabUser>) -> Seq<LabUserView> {
    v.map_values(|u: LabUser| u@)
}

/// The command that succeeds if and only if the user exists.
pub open spec fn id_command(username: Seq<char>) -> CommandView {
    command("id"@, seq![username])
}

/// The command that succeeds if and only if the user exists.
pub fn make_id_command(username: &str) -> (c: CommandLine)
    ensures
        c@ == id_command(username@),
{
    make_command("id", args1(username))
}

/// Whether the command that looks a user up found them. A command that could not be
/// run found nobody.
pub open spec fn user_exists(answer: CapturedView) -> bool {
    answer matches CapturedView::Exited { code, .. } && code == Some(0i32)
}

/// Whether the command that looks a user up found them.
pub fn check_user_exists(answer: &Captured) -> (r: bool)
    ensures
        r == user_exists(answer@),
{
    match answer {
        Captured::Exited { code, .. } => *code == Some(0i32),
        Captured::Failed(_) => false,
    }
}

/// A user's shell start-up file.
pub open spec fn bashrc_path(username: Seq<char>) -> Seq<char> {
    "/home/"@ + username + "/.bashrc"@
}

/// A user's shell start-up file.
pub fn bashrc_of(username: &str) -> (r: String)
    ensures
        r@ == bashrc_path(username@),
{
    "/home/".to_owned().concat(username).concat("/.bashrc")
}

/// The script that offers the tools to a user.
pub open spec fn launcher() -> Seq<char> {
    "/opt/vlsilab/eda-launcher.sh"@
}

/// Whether a start-up file mentions the launcher. One that is missing or cannot be
/// read does not.
pub open spec fn launcher_sourced(content: Option<Seq<char>>) -> bool {
    content matches Some(c) && occurs(c, launcher())
}

/// Whether a start-up file mentions the launcher.
pub fn is_bashrc_configured(content: &Option<String>) -> (r: bool)
    ensures
        r == launcher_sourced(maybe_text(*content)),
{
    match content {
        Some(c) => contains(c.as_str(), "/opt/vlsilab/eda-launcher.sh"),
        None => false,
    }
}

/// What is added to a start-up file so that the launcher is sourced.
pub open spec fn launcher_entry() -> Seq<char> {
    "\n# Source VLSI Lab EDA Tool Launcher\nif [ -f /opt/vlsilab/eda-launcher.sh ]; then\n    source /opt/vlsilab/eda-launcher.sh\nfi\n"@
}

/// The command that prints the names of a user's groups.
pub open spec fn groups_command(username: Seq<char>) -> CommandView {
    command("id"@, seq!["-nG"@, username])
}

/// The command that prints the names of a user's groups.
pub fn make_groups_command(username: &str) -> (c: CommandLine)
    ensures
        c@ == groups_command(username@),
{
    make_command("id", args2("-nG", username))
}

/// Whether the groups that were printed hold `wheel`.
pub open spec fn in_wheel(groups: CapturedView) -> bool {
    groups matches CapturedView::Exited { stdout, .. } && words_of(stdout).contains("wheel"@)
}

/// The role that is shown for a user: members of `wheel` and those whose name begins
/// with `sysadmin` read as Sysadmin, everybody else as Student.
pub open spec fn role_of(groups: CapturedView, username: Seq<char>) -> Seq<char> {
    if in_wheel(groups) || begins(username, "sysadmin"@) {
        "Sysadmin"@
    } else {
        "Student"@
    }
}

/// The role that is shown for a user.
pub fn infer_role(groups: &Captured, username: &str) -> (r: String)
    ensures
        r@ == role_of(groups@, username@),
{
    let wheel: bool = match groups {
        Captured::Exited { stdout, .. } => among(&words(stdout.as_str()), "wheel"),
        Captured::Failed(_) => false,
    };
    if wheel || starts_with(username, "sysadmin") {
        "Sysadmin".to_owned()
    } else {
        "Student".to_owned()
    }
}

} // verus!
