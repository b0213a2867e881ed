//! What a procedure asks of the machine it runs on, and what it hears back.
//!
//! A procedure is a state machine. Each turn takes the reply to the last request,
//! and gives lines for the log and then either the next request or the result.
//! The result of a procedure is itself a reply: that of the request that called
//! the procedure.

use vstd::prelude::*;

use crate::text::texts;
use crate::users::{user_views, LabUser, LabUserView};

verus! {

/// A program and its arguments.
#[derive(Debug)]
pub struct CommandLine {
    pub program: String,
    pub args: Vec<String>,
}

/// The model of a `CommandLine`.
pub struct CommandView {
    pub program: Seq<char>,
    pub args: Seq<Seq<char>>,
}

impl View for CommandLine {
    type V = CommandView;

    open spec fn view(&self) -> CommandView {
        CommandView { program: self.program@, args: texts(self.args@) }
    }
}

/// How a program that was started without reading its output ended.
#[derive(Debug)]
pub enum ProcessEnd {
    SpawnFailed(String),
    WaitFailed(String),
    /// The exit code; none where a signal ended the program.
    Exited(Option<i32>),
}

/// The model of a `ProcessEnd`.
pub enum ProcessEndView {
    SpawnFailed(Seq<char>),
    WaitFailed(Seq<char>),
    Exited(Option<i32>),
}

impl View for ProcessEnd {
    type V = ProcessEndView;

    open spec fn view(&self) -> ProcessEndView {
        match self {
            ProcessEnd::SpawnFailed(e) => ProcessEndView::SpawnFailed(e@),
            ProcessEnd::WaitFailed(e) => ProcessEndView::WaitFailed(e@),
            ProcessEnd::Exited(c) => ProcessEndView::Exited(*c),
        }
    }
}

/// What a program printed, read as text.
#[derive(Debug)]
pub enum Captured {
    Failed(String),
    Exited { code: Option<i32>, stdout: String, stderr: String },
}

/// The model of a `Captured`.
pub enum CapturedView {
    Failed(Seq<char>),
    Exited { code: Option<i32>, stdout: Seq<char>, stderr: Seq<char> },
}

impl View for Captured {
    type V = CapturedView;

    open spec fn view(&self) -> CapturedView {
        match self {
            Captured::Failed(e) => CapturedView::Failed(e@),
            Captured::Exited { code, stdout, stderr } => CapturedView::Exited {
                code: *code,
                stdout: stdout@,
                stderr: stderr@,
            },
        }
    }
}

/// What came of a program that was given text on its standard input.
#[derive(Debug)]
pub enum Fed {
    SpawnFailed(String),
    NoStdin,
    IoFailed(String),
    Exited { code: Option<i32>, stdout: Vec<u8>, stderr: String },
}

/// The model of a `Fed`.
pub enum FedView {
    SpawnFailed(Seq<char>),
    NoStdin,
    IoFailed(Seq<char>),
    Exited { code: Option<i32>, stdout: Seq<u8>, stderr: Seq<char> },
}

impl View for Fed {
    type V = FedView;

    open spec fn view(&self) -> FedView {
        match self {
            Fed::SpawnFailed(e) => FedView::SpawnFailed(e@),
            Fed::NoStdin => FedView::NoStdin,
            Fed::IoFailed(e) => FedView::IoFailed(e@),
            Fed::Exited { code, stdout, stderr } => FedView::Exited {
                code: *code,
                stdout: stdout@,
                stderr: stderr@,
            },
        }
    }
}

/// One entry of a directory.
#[derive(Debug)]
pub struct Entry {
    pub name: String,
    pub is_file: bool,
    pub is_dir: bool,
}

/// The model of an `Entry`.
pub struct EntryView {
    pub name: Seq<char>,
    pub is_file: bool,
    pub is_dir: bool,
}

impl View for Entry {
    type V = EntryView;

    open spec fn view(&self) -> EntryView {
        EntryView { name: self.name@, is_file: self.is_file, is_dir: self.is_dir }
    }
}

/// The models of a list of entries.
pub open spec fn entry_views(v: Seq<Entry>) -> Seq<EntryView> {
    v.map_values(|e: Entry| e@)
}

/// The entries of a directory that was listed: none where it could not be read.
pub open spec fn listed(listing: Option<Seq<EntryView>>) -> Seq<EntryView> {
    match listing {
        Some(entries) => entries,
        None => seq![],
    }
}

/// Whether an installation phase is done, and when it was.
#[derive(Debug)]
pub struct PhaseRecord {
    pub done: bool,
    pub time: Option<String>,
}

/// The model of a `PhaseRecord`.
pub struct PhaseRecordView {
    pub done: bool,
    pub time: Option<Seq<char>>,
}

impl View for PhaseRecord {
    type V = PhaseRecordView;

    open spec fn view(&self) -> PhaseRecordView {
        PhaseRecordView {
            done: self.done,
            time: match self.time {
                Some(t) => Some(t@),
                None => None,
            },
        }
    }
}

/// What the configuration of a machine says of it.
#[derive(Debug)]
pub struct StatusReport {
    pub machine_number: u8,
    pub hostname_fqdn: String,
    pub sysadmin_user: String,
    pub student_user: String,
    pub pre_install: PhaseRecord,
    pub xilinx: PhaseRecord,
    pub cadence: PhaseRecord,
    pub silvaco_1: PhaseRecord,
    pub silvaco_2: PhaseRecord,
    pub silvaco_3: PhaseRecord,
    pub cadre: PhaseRecord,
}

/// The model of a `StatusReport`.
pub struct StatusView {
    pub machine_number: u8,
    pub hostname_fqdn: Seq<char>,
    pub sysadmin_user: Seq<char>,
    pub student_user: Seq<char>,
    pub pre_install: PhaseRecordView,
    pub xilinx: PhaseRecordView,
    pub cadence: PhaseRecordView,
    pub silvaco_1: PhaseRecordView,
    pub silvaco_2: PhaseRecordView,
    pub silvaco_3: PhaseRecordView,
    pub cadre: PhaseRecordView,
}

impl View for StatusReport {
    type V = StatusView;

    open spec fn view(&self) -> StatusView {
        StatusView {
            machine_number: self.machine_number,
            hostname_fqdn: self.hostname_fqdn@,
            sysadmin_user: self.sysadmin_user@,
            student_user: self.student_user@,
            pre_install: self.pre_install@,
            xilinx: self.xilinx@,
            cadence: self.cadence@,
            silvaco_1: self.silvaco_1@,
            silvaco_2: self.silvaco_2@,
            silvaco_3: self.silvaco_3@,
            cadre: self.cadre@,
        }
    }
}

/// One run of a tool's installer.
#[derive(Debug, Clone, Copy, PartialEq, Eq, Structural)]
pub enum Installer {
    Xilinx,
    Cadence,
    /// One of the parts of the Silvaco suite.
    Silvaco(u8),
    Cadre,
}

/// What came of a run of a tool's installer.
#[derive(Debug)]
pub enum Installation {
    Complete,
    /// The tool's media are missing.
    Unavailable(String),
    Failed(String),
}

/// The model of an `Installation`.
pub enum InstallationView {
    Complete,
    Unavailable(Seq<char>),
    Failed(Seq<char>),
}

impl View for Installation {
    type V = InstallationView;

    open spec fn view(&self) -> InstallationView {
        match self {
            Installation::Complete => InstallationView::Complete,
            Installation::Unavailable(e) => InstallationView::Unavailable(e@),
            Installation::Failed(e) => InstallationView::Failed(e@),
        }
    }
}

impl InstallationView {
    /// The installer's outcome on its own: missing media are an error like any other.
    pub open spec fn outcome(self) -> Result<(), Seq<char>> {
        match self {
            InstallationView::Complete => Ok(()),
            InstallationView::Unavailable(e) => Err(e),
            InstallationView::Failed(e) => Err(e),
        }
    }
}

impl Installation {
    /// The installer's outcome on its own.
    pub fn outcome(self) -> (r: Result<(), String>)
        ensures
            done_view(r) == self@.outcome(),
    {
        match self {
            Installation::Complete => Ok(()),
            Installation::Unavailable(e) => Err(e),
            Installation::Failed(e) => Err(e),
        }
    }
}

/// What a procedure asks for.
#[derive(Debug)]
pub enum Op {
    /// Whether a path exists.
    Exists(String),
    /// The entries of a directory, without those that cannot be read.
    ListDir(String),
    /// The entries of a directory up to the first that cannot be read.
    ScanDir(String),
    /// Create a directory and its parents.
    CreateDir(String),
    /// Remove a directory with all it holds.
    RemoveDir(String),
    RemoveFile(String),
    /// Rename the first path to the second.
    Rename(String, String),
    ReadText(String),
    /// Replace the file's contents by the text.
    WriteText(String, String),
    /// Replace the file's contents by the bytes.
    WriteBytes(String, Vec<u8>),
    /// Append the text to a file that exists.
    AppendText(String, String),
    /// Run a program and wait for it.
    Status(CommandLine),
    /// Run a program with its output dropped, and wait for it.
    Quiet(CommandLine),
    /// Run a program, passing its output lines to the log as they come.
    Stream(CommandLine),
    /// Run a program and read what it prints.
    Capture(CommandLine),
    /// Run a program with the text as its standard input.
    Feed(CommandLine, String),
    /// Start a program whose output is read line by line: whether it started.
    OpenLines(CommandLine),
    /// The next line of that program.
    NextLine,
    /// End that program.
    CloseLines,
    /// This many bytes from the system's random source.
    RandomBytes(usize),
    /// The nanoseconds of the current second.
    ClockNanos,
    /// Record an installation phase as done.
    MarkPhase(String),
    /// Write a tool's environment scripts anew.
    RecreateEnv(String),
    /// Configure the machine under this number and save the number.
    SetMachine(u8),
    ReadStatus,
    /// Find and install what provides a package or a shared library.
    ResolveDependency(String),
    RunCmd(CommandLine),
    Preinstall,
    /// Install a tool by its name.
    InstallTool(String),
    Install(Installer),
    /// User name, role and identifier.
    CreateUser(String, String, String),
    GrantEnv(String),
    /// A directory and the names of the bundles in it.
    CadenceBundles(String, Vec<String>),
    GtarArchives(String),
    /// A directory and the name of an archive in it.
    GtarArchive(String, String),
    /// A directory and the name of a bundle in it.
    StripComponents(String, String),
    UnwrapDirs(String),
    /// Display and user name.
    EnsureVncMapping(String, String),
    SetVncPassword(String),
}

/// The model of an `Op`.
pub enum OpView {
    Exists(Seq<char>),
    ListDir(Seq<char>),
    ScanDir(Seq<char>),
    CreateDir(Seq<char>),
    RemoveDir(Seq<char>),
    RemoveFile(Seq<char>),
    Rename(Seq<char>, Seq<char>),
    ReadText(Seq<char>),
    WriteText(Seq<char>, Seq<char>),
    WriteBytes(Seq<char>, Seq<u8>),
    AppendText(Seq<char>, Seq<char>),
    Status(CommandView),
    Quiet(CommandView),
    Stream(CommandView),
    Capture(CommandView),
    Feed(CommandView, Seq<char>),
    OpenLines(CommandView),
    NextLine,
    CloseLines,
    RandomBytes(usize),
    ClockNanos,
    MarkPhase(Seq<char>),
    RecreateEnv(Seq<char>),
    SetMachine(u8),
    ReadStatus,
    ResolveDependency(Seq<char>),
    RunCmd(CommandView),
    Preinstall,
    InstallTool(Seq<char>),
    Install(Installer),
    CreateUser(Seq<char>, Seq<char>, Seq<char>),
    GrantEnv(Seq<char>),
    CadenceBundles(Seq<char>, Seq<Seq<char>>),
    GtarArchives(Seq<char>),
    GtarArchive(Seq<char>, Seq<char>),
    StripComponents(Seq<char>, Seq<char>),
    UnwrapDirs(Seq<char>),
    EnsureVncMapping(Seq<char>, Seq<char>),
    SetVncPassword(Seq<char>),
}

impl View for Op {
    type V = OpView;

    open spec fn view(&self) -> OpView {
        match self {
            Op::Exists(p) => OpView::Exists(p@),
            Op::ListDir(p) => OpView::ListDir(p@),
            Op::ScanDir(p) => OpView::ScanDir(p@),
            Op::CreateDir(p) => OpView::CreateDir(p@),
            Op::RemoveDir(p) => OpView::RemoveDir(p@),
            Op::RemoveFile(p) => OpView::RemoveFile(p@),
            Op::Rename(a, b) => OpView::Rename(a@, b@),
            Op::ReadText(p) => OpView::ReadText(p@),
            Op::WriteText(p, c) => OpView::WriteText(p@, c@),
            Op::WriteBytes(p, c) => OpView::WriteBytes(p@, c@),
            Op::AppendText(p, c) => OpView::AppendText(p@, c@),
            Op::Status(c) => OpView::Status(c@),
            Op::Quiet(c) => OpView::Quiet(c@),
            Op::Stream(c) => OpView::Stream(c@),
            Op::Capture(c) => OpView::Capture(c@),
            Op::Feed(c, t) => OpView::Feed(c@, t@),
            Op::OpenLines(c) => OpView::OpenLines(c@),
            Op::NextLine => OpView::NextLine,
            Op::CloseLines => OpView::CloseLines,
            Op::RandomBytes(n) => OpView::RandomBytes(*n),
            Op::ClockNanos => OpView::ClockNanos,
            Op::MarkPhase(k) => OpView::MarkPhase(k@),
            Op::RecreateEnv(t) => OpView::RecreateEnv(t@),
            Op::SetMachine(n) => OpView::SetMachine(*n),
            Op::ReadStatus => OpView::ReadStatus,
            Op::ResolveDependency(p) => OpView::ResolveDependency(p@),
            Op::RunCmd(c) => OpView::RunCmd(c@),
            Op::Preinstall => OpView::Preinstall,
            Op::InstallTool(t) => OpView::InstallTool(t@),
            Op::Install(i) => OpView::Install(*i),
            Op::CreateUser(u, r, i) => OpView::CreateUser(u@, r@, i@),
            Op::GrantEnv(u) => OpView::GrantEnv(u@),
            Op::CadenceBundles(d, n) => OpView::CadenceBundles(d@, texts(n@)),
            Op::GtarArchives(d) => OpView::GtarArchives(d@),
            Op::GtarArchive(d, n) => OpView::GtarArchive(d@, n@),
            Op::StripComponents(d, n) => OpView::StripComponents(d@, n@),
            Op::UnwrapDirs(p) => OpView::UnwrapDirs(p@),
            Op::EnsureVncMapping(d, u) => OpView::EnsureVncMapping(d@, u@),
            Op::SetVncPassword(u) => OpView::SetVncPassword(u@),
        }
    }
}

/// What a procedure hears back.
#[derive(Debug)]
pub enum Reply {
    /// Nothing yet: the first turn.
    Start,
    Flag(bool),
    Done(Result<(), String>),
    Text(Result<String, String>),
    /// The entries of a directory; none where it could not be read.
    Listing(Option<Vec<Entry>>),
    Ended(ProcessEnd),
    Captured(Captured),
    Fed(Fed),
    /// A line, or none at the end.
    Line(Option<String>),
    /// Bytes, or none where they could not be had.
    Bytes(Option<Vec<u8>>),
    Nanos(u32),
    Count(usize),
    Place(Option<String>),
    Status(StatusReport),
    Users(Vec<LabUser>),
    Installed(Installation),
}

/// The model of a `Reply`.
pub enum ReplyView {
    Start,
    Flag(bool),
    Done(Result<(), Seq<char>>),
    Text(Result<Seq<char>, Seq<char>>),
    Listing(Option<Seq<EntryView>>),
    Ended(ProcessEndView),
    Captured(CapturedView),
    Fed(FedView),
    Line(Option<Seq<char>>),
    Bytes(Option<Seq<u8>>),
    Nanos(u32),
    Count(usize),
    Place(Option<Seq<char>>),
    Status(StatusView),
    Users(Seq<LabUserView>),
    Installed(InstallationView),
}

/// The model of an outcome without a value.
pub open spec fn done_view(r: Result<(), String>) -> Result<(), Seq<char>> {
    match r {
        Ok(_) => Ok(()),
        Err(e) => Err(e@),
    }
}

/// The model of an outcome with a text.
pub open spec fn text_view(r: Result<String, String>) -> Result<Seq<char>, Seq<char>> {
    match r {
        Ok(t) => Ok(t@),
        Err(e) => Err(e@),
    }
}

/// The model of a text that may be missing.
pub open spec fn maybe_text(r: Option<String>) -> Option<Seq<char>> {
    match r {
        Some(t) => Some(t@),
        None => None,
    }
}

impl View for Reply {
    type V = ReplyView;

    open spec fn view(&self) -> ReplyView {
        match self {
            Reply::Start => ReplyView::Start,
            Reply::Flag(b) => ReplyView::Flag(*b),
            Reply::Done(r) => ReplyView::Done(done_view(*r)),
            Reply::Text(r) => ReplyView::Text(text_view(*r)),
            Reply::Listing(l) => ReplyView::Listing(
                match l {
                    Some(v) => Some(entry_views(v@)),
                    None => None,
                },
            ),
            Reply::Ended(e) => ReplyView::Ended(e@),
            Reply::Captured(c) => ReplyView::Captured(c@),
            Reply::Fed(f) => ReplyView::Fed(f@),
            Reply::Line(l) => ReplyView::Line(maybe_text(*l)),
            Reply::Bytes(b) => ReplyView::Bytes(
                match b {
                    Some(v) => Some(v@),
                    None => None,
                },
            ),
            Reply::Nanos(n) => ReplyView::Nanos(*n),
            Reply::Count(n) => ReplyView::Count(*n),
            Reply::Place(p) => ReplyView::Place(maybe_text(*p)),
            Reply::Status(s) => ReplyView::Status(s@),
            Reply::Users(u) => ReplyView::Users(user_views(u@)),
            Reply::Installed(i) => ReplyView::Installed(i@),
        }
    }
}

/// The shapes of replies. `Never` is the shape of none: a procedure that has ended
/// waits for it.
#[derive(Debug, Clone, Copy, PartialEq, Eq, Structural)]
pub enum ReplyKind {
    Never,
    Start,
    Flag,
    Done,
    Text,
    Listing,
    Ended,
    Captured,
    Fed,
    Line,
    Bytes,
    Nanos,
    Count,
    Place,
    Status,
    Users,
    Installed,
}

impl ReplyView {
    /// The shape of this reply.
    pub open spec fn kind(self) -> ReplyKind {
        match self {
            ReplyView::Start => ReplyKind::Start,
            ReplyView::Flag(_) => ReplyKind::Flag,
            ReplyView::Done(_) => ReplyKind::Done,
            ReplyView::Text(_) => ReplyKind::Text,
            ReplyView::Listing(_) => ReplyKind::Listing,
            ReplyView::Ended(_) => ReplyKind::Ended,
            ReplyView::Captured(_) => ReplyKind::Captured,
            ReplyView::Fed(_) => ReplyKind::Fed,
            ReplyView::Line(_) => ReplyKind::Line,
            ReplyView::Bytes(_) => ReplyKind::Bytes,
            ReplyView::Nanos(_) => ReplyKind::Nanos,
            ReplyView::Count(_) => ReplyKind::Count,
            ReplyView::Place(_) => ReplyKind::Place,
            ReplyView::Status(_) => ReplyKind::Status,
            ReplyView::Users(_) => ReplyKind::Users,
            ReplyView::Installed(_) => ReplyKind::Installed,
        }
    }

    /// Whether this is the success of a request without a value.
    pub open spec fn is_ok(self) -> bool {
        self matches ReplyView::Done(r) && r is Ok
    }
}

impl Reply {
    /// The shape of this reply.
    pub fn kind(&self) -> (k: ReplyKind)
        ensures
            k == self@.kind(),
    {
        match self {
            Reply::Start => ReplyKind::Start,
            Reply::Flag(_) => ReplyKind::Flag,
            Reply::Done(_) => ReplyKind::Done,
            Reply::Text(_) => ReplyKind::Text,
            Reply::Listing(_) => ReplyKind::Listing,
            Reply::Ended(_) => ReplyKind::Ended,
            Reply::Captured(_) => ReplyKind::Captured,
            Reply::Fed(_) => ReplyKind::Fed,
            Reply::Line(_) => ReplyKind::Line,
            Reply::Bytes(_) => ReplyKind::Bytes,
            Reply::Nanos(_) => ReplyKind::Nanos,
            Reply::Count(_) => ReplyKind::Count,
            Reply::Place(_) => ReplyKind::Place,
            Reply::Status(_) => ReplyKind::Status,
            Reply::Users(_) => ReplyKind::Users,
            Reply::Installed(_) => ReplyKind::Installed,
        }
    }

    /// The answer to a yes-or-no question.
    pub fn flag(self) -> (b: bool)
        requires
            self@.kind() == ReplyKind::Flag,
        ensures
            b == self@->Flag_0,
    {
        match self {
            Reply::Flag(b) => b,
            _ => false,
        }
    }

    /// The outcome of a request without a value.
    pub fn done(self) -> (r: Result<(), String>)
        requires
            self@.kind() == ReplyKind::Done,
        ensures
            done_view(r) == self@->Done_0,
    {
        match self {
            Reply::Done(r) => r,
            _ => Ok(()),
        }
    }

    /// The outcome of a request for a text.
    pub fn text(self) -> (r: Result<String, String>)
        requires
            self@.kind() == ReplyKind::Text,
        ensures
            text_view(r) == self@->Text_0,
    {
        match self {
            Reply::Text(r) => r,
            _ => Ok(String::new()),
        }
    }

    /// The entries of the directory: none where it could not be read.
    pub fn entries(self) -> (r: Vec<Entry>)
        requires
            self@.kind() == ReplyKind::Listing,
        ensures
            entry_views(r@) == listed(self@->Listing_0),
    {
        match self {
            Reply::Listing(Some(v)) => v,
            _ => {
                let v: Vec<Entry> = Vec::new();
                assert(entry_views(v@) =~= seq![]);
                v
            },
        }
    }

    /// How the program ended.
    pub fn ended(self) -> (r: ProcessEnd)
        requires
            self@.kind() == ReplyKind::Ended,
        ensures
            r@ == self@->Ended_0,
    {
        match self {
            Reply::Ended(e) => e,
            _ => ProcessEnd::Exited(None),
        }
    }

    /// What the program printed.
    pub fn captured(self) -> (r: Captured)
        requires
            self@.kind() == ReplyKind::Captured,
        ensures
            r@ == self@->Captured_0,
    {
        match self {
            Reply::Captured(c) => c,
            _ => Captured::Failed(String::new()),
        }
    }

    /// What came of the program that was given input.
    pub fn fed(self) -> (r: Fed)
        requires
            self@.kind() == ReplyKind::Fed,
        ensures
            r@ == self@->Fed_0,
    {
        match self {
            Reply::Fed(f) => f,
            _ => Fed::NoStdin,
        }
    }

    /// The next line.
    pub fn line(self) -> (r: Option<String>)
        requires
            self@.kind() == ReplyKind::Line,
        ensures
            maybe_text(r) == self@->Line_0,
    {
        match self {
            Reply::Line(l) => l,
            _ => None,
        }
    }

    /// The count.
    pub fn count(self) -> (r: usize)
        requires
            self@.kind() == ReplyKind::Count,
        ensures
            r == self@->Count_0,
    {
        match self {
            Reply::Count(n) => n,
            _ => 0,
        }
    }

    /// The path, where there is one.
    pub fn place(self) -> (r: Option<String>)
        requires
            self@.kind() == ReplyKind::Place,
        ensures
            maybe_text(r) == self@->Place_0,
    {
        match self {
            Reply::Place(p) => p,
            _ => None,
        }
    }
}

impl OpView {
    /// The shape of the reply that this request is answered with.
    pub open spec fn answer(self) -> ReplyKind {
        match self {
            OpView::Exists(_) => ReplyKind::Flag,
            OpView::ListDir(_) => ReplyKind::Listing,
            OpView::ScanDir(_) => ReplyKind::Listing,
            OpView::ReadText(_) => ReplyKind::Text,
            OpView::Status(_) => ReplyKind::Ended,
            OpView::Quiet(_) => ReplyKind::Ended,
            OpView::Stream(_) => ReplyKind::Ended,
            OpView::Capture(_) => ReplyKind::Captured,
            OpView::Feed(_, _) => ReplyKind::Fed,
            OpView::OpenLines(_) => ReplyKind::Flag,
            OpView::NextLine => ReplyKind::Line,
            OpView::RandomBytes(_) => ReplyKind::Bytes,
            OpView::ClockNanos => ReplyKind::Nanos,
            OpView::SetMachine(_) => ReplyKind::Text,
            OpView::ReadStatus => ReplyKind::Status,
            OpView::StripComponents(_, _) => ReplyKind::Count,
            OpView::UnwrapDirs(_) => ReplyKind::Place,
            OpView::SetVncPassword(_) => ReplyKind::Text,
            OpView::InstallTool(_) => ReplyKind::Installed,
            OpView::Install(_) => ReplyKind::Installed,
            _ => ReplyKind::Done,
        }
    }
}

/// What follows the log lines of a turn.
#[derive(Debug)]
pub enum Next {
    Do(Op),
    Finish(Reply),
}

/// The model of a `Next`.
pub enum NextView {
    Do(OpView),
    Finish(ReplyView),
}

impl View for Next {
    type V = NextView;

    open spec fn view(&self) -> NextView {
        match self {
            Next::Do(op) => NextView::Do(op@),
            Next::Finish(r) => NextView::Finish(r@),
        }
    }
}

/// One turn of a procedure: lines for the log, then what to do next.
#[derive(Debug)]
pub struct Turn {
    pub log: Vec<String>,
    pub next: Next,
}

/// The model of a `Turn`.
pub struct TurnView {
    pub log: Seq<Seq<char>>,
    pub next: NextView,
}

impl View for Turn {
    type V = TurnView;

    open spec fn view(&self) -> TurnView {
        TurnView { log: texts(self.log@), next: self.next@ }
    }
}

/// The turn that logs `log` and asks for `op`.
pub open spec fn ask(log: Seq<Seq<char>>, op: OpView) -> TurnView {
    TurnView { log, next: NextView::Do(op) }
}

/// The turn that logs `log` and ends with `reply`.
pub open spec fn finish(log: Seq<Seq<char>>, reply: ReplyView) -> TurnView {
    TurnView { log, next: NextView::Finish(reply) }
}

/// The turn that logs `log` and ends well.
pub open spec fn succeed(log: Seq<Seq<char>>) -> TurnView {
    finish(log, ReplyView::Done(Ok(())))
}

/// The turn that logs `log` and ends with the error `e`.
pub open spec fn fail(log: Seq<Seq<char>>, e: Seq<char>) -> TurnView {
    finish(log, ReplyView::Done(Err(e)))
}

/// The turn that logs `log` and ends an installation.
pub open spec fn conclude(log: Seq<Seq<char>>, i: InstallationView) -> TurnView {
    finish(log, ReplyView::Installed(i))
}

impl TurnView {
    /// Whether a procedure that waits for replies of shape `waits` after this turn
    /// waits for what the turn asked for, and for nothing once it has ended.
    pub open spec fn leads_to(self, waits: ReplyKind) -> bool {
        match self.next {
            NextView::Do(op) => waits == op.answer(),
            NextView::Finish(_) => waits == ReplyKind::Never,
        }
    }
}

/// No text.
pub fn list0() -> (v: Vec<String>)
    ensures
        texts(v@) == Seq::<Seq<char>>::empty(),
{
    let v: Vec<String> = Vec::new();
    assert(texts(v@) =~= Seq::empty());
    v
}

/// `v` with `s` behind it.
pub fn with(v: Vec<String>, s: String) -> (r: Vec<String>)
    ensures
        texts(r@) == texts(v@).push(s@),
{
    let mut r = v;
    let ghost before = texts(r@);
    let ghost t = s@;
    r.push(s);
    assert(texts(r@) =~= before.push(t));
    r
}

/// One text.
pub fn list1(a: String) -> (v: Vec<String>)
    ensures
        texts(v@) == seq![a@],
{
    with(list0(), a)
}

/// Two texts.
pub fn list2(a: String, b: String) -> (v: Vec<String>)
    ensures
        texts(v@) == seq![a@, b@],
{
    with(list1(a), b)
}

/// One argument.
pub fn args1(a: &str) -> (v: Vec<String>)
    ensures
        texts(v@) == seq![a@],
{
    list1(a.to_owned())
}

/// Two arguments.
pub fn args2(a: &str, b: &str) -> (v: Vec<String>)
    ensures
        texts(v@) == seq![a@, b@],
{
    with(args1(a), b.to_owned())
}

/// Three arguments.
pub fn args3(a: &str, b: &str, c: &str) -> (v: Vec<String>)
    ensures
        texts(v@) == seq![a@, b@, c@],
{
    with(args2(a, b), c.to_owned())
}

/// Four arguments.
pub fn args4(a: &str, b: &str, c: &str, d: &str) -> (v: Vec<String>)
    ensures
        texts(v@) == seq![a@, b@, c@, d@],
{
    with(args3(a, b, c), d.to_owned())
}

/// Six arguments.
pub fn args6(a: &str, b: &str, c: &str, d: &str, e: &str, f: &str) -> (v: Vec<String>)
    ensures
        texts(v@) == seq![a@, b@, c@, d@, e@, f@],
{
    with(with(args4(a, b, c, d), e.to_owned()), f.to_owned())
}

/// A program and its arguments.
pub open spec fn command(program: Seq<char>, args: Seq<Seq<char>>) -> CommandView {
    CommandView { program, args }
}

/// A program and its arguments.
pub fn make_command(program: &str, args: Vec<String>) -> (c: CommandLine)
    ensures
        c@ == command(program@, texts(args@)),
{
    CommandLine { program: program.to_owned(), args }
}

/// A copy of a list of texts.
pub fn copy_list(v: &Vec<String>) -> (r: Vec<String>)
    ensures
        texts(r@) == texts(v@),
{
    let mut r: Vec<String> = Vec::new();
    let mut i: usize = 0;
    let ghost all = texts(v@);
    while i < v.len()
        invariant
            i <= v@.len(),
            all == texts(v@),
            texts(r@) == all.take(i as int),
        decreases v.len() - i,
    {
        r = with(r, v[i].clone());
        assert(texts(r@) =~= all.take(i + 1));
        i += 1;
    }
    assert(all.take(i as int) =~= all);
    r
}

/// Logs `log` and asks for `op`.
pub fn turn_ask(log: Vec<String>, op: Op) -> (t: Turn)
    ensures
        t@ == ask(texts(log@), op@),
{
    Turn { log, next: Next::Do(op) }
}

/// Logs `log` and ends with `reply`.
pub fn turn_finish(log: Vec<String>, reply: Reply) -> (t: Turn)
    ensures
        t@ == finish(texts(log@), reply@),
{
    Turn { log, next: Next::Finish(reply) }
}

/// Logs `log` and ends well.
pub fn turn_succeed(log: Vec<String>) -> (t: Turn)
    ensures
        t@ == succeed(texts(log@)),
{
    turn_finish(log, Reply::Done(Ok(())))
}

/// Logs `log` and ends with the error `e`.
pub fn turn_fail(log: Vec<String>, e: String) -> (t: Turn)
    ensures
        t@ == fail(texts(log@), e@),
{
    turn_finish(log, Reply::Done(Err(e)))
}

/// Logs `log` and ends an installation.
pub fn turn_conclude(log: Vec<String>, i: Installation) -> (t: Turn)
    ensures
        t@ == conclude(texts(log@), i@),
{
    turn_finish(log, Reply::Installed(i))
}

} // verus!
