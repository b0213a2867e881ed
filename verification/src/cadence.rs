//! Installing the Cadence tools: first the bulk bundles, then the doubly wrapped
//! archives, then each tool's own archive, over what the bundles brought.

use vstd::prelude::*;

use crate::archives::{
    archives_in, extract_archive, find_archives, marker_of, marker_path, tool_dir, tool_name,
    tool_of, tool_path, tools_root, unpack_command, unpacked, unpacking_result,
};
use crate::exchange::{
    ask, conclude, copy_list, list0, list1, listed, turn_ask, turn_conclude, with, Installation,
    InstallationView, Op, OpView, Reply, ReplyKind, ReplyView, Turn, TurnView,
};
use crate::number::{decimal, decimal_text};
use crate::path::{below, join_path};
use crate::text::texts;

verus! {

/// What is logged behind the last archive.
pub open spec fn summary(installed: nat, skipped: nat, failed: nat) -> Seq<char> {
    "[INFO] Cadence extraction pass complete: "@ + decimal(installed) + " installed, "@ + decimal(
        skipped,
    ) + " already present, "@ + decimal(failed) + " failed."@
}

fn show_summary(installed: usize, skipped: usize, failed: usize) -> (r: String)
    ensures
        r@ == summary(installed as nat, skipped as nat, failed as nat),
{
    "[INFO] Cadence extraction pass complete: ".to_owned().concat(
        decimal_text(installed as u64).as_str(),
    ).concat(" installed, ").concat(decimal_text(skipped as u64).as_str()).concat(
        " already present, ",
    ).concat(decimal_text(failed as u64).as_str()).concat(" failed.")
}

/// Where the installation stands.
#[derive(Debug, Clone, Copy, PartialEq, Eq, Structural)]
pub enum CadenceAt {
    Start,
    Found,
    BundlesListed,
    ToolsFound,
    RootMade,
    BundlesDone,
    ToolsFoundAgain,
    GtarsDone,
    ArchivesListed,
    MarkFound,
    ToolFound,
    Unpacked,
    Unmarked,
    Recorded,
    Refreshed,
    Over,
}

/// Installs the Cadence tools.
#[derive(Debug)]
pub struct Cadence {
    dir: String,
    bundles: Vec<String>,
    archives: Vec<String>,
    next: usize,
    marked: bool,
    installed: usize,
    skipped: usize,
    failed: usize,
    at: CadenceAt,
}

/// The model of a `Cadence`.
pub struct CadenceView {
    /// Where the media are.
    pub dir: Seq<char>,
    /// The names of the bundles, once they are known.
    pub bundles: Seq<Seq<char>>,
    /// The names of the tools' archives, once they are known.
    pub archives: Seq<Seq<char>>,
    /// The position of the archive that is being looked at.
    pub next: int,
    /// Whether its tool is marked as coming from a bundle, once that is known.
    pub marked: bool,
    /// How many tools were installed, were there already, and failed.
    pub installed: int,
    pub skipped: int,
    pub failed: int,
    pub at: CadenceAt,
}

impl View for Cadence {
    type V = CadenceView;

    closed spec fn view(&self) -> CadenceView {
        CadenceView {
            dir: self.dir@,
            bundles: texts(self.bundles@),
            archives: texts(self.archives@),
            next: self.next as int,
            marked: self.marked,
            installed: self.installed as int,
            skipped: self.skipped as int,
            failed: self.failed as int,
            at: self.at,
        }
    }
}

impl CadenceView {
    /// Whether an archive is being looked at.
    pub open spec fn at_archive(self) -> bool {
        ||| self.at == CadenceAt::MarkFound
        ||| self.at == CadenceAt::ToolFound
        ||| self.at == CadenceAt::Unpacked
        ||| self.at == CadenceAt::Unmarked
    }

    /// Whether the archives have been seen to.
    pub open spec fn behind_archives(self) -> bool {
        ||| self.at == CadenceAt::Recorded
        ||| self.at == CadenceAt::Refreshed
        ||| self.at == CadenceAt::Over
    }

    /// What holds at every turn: each archive that has been looked at was installed,
    /// was there already, or failed.
    pub open spec fn wf(self) -> bool {
        &&& 0 <= self.installed
        &&& 0 <= self.skipped
        &&& 0 <= self.failed
        &&& self.installed + self.skipped + self.failed == self.next
        &&& self.next <= self.archives.len()
        &&& self.at_archive() ==> self.next < self.archives.len()
        &&& !self.at_archive() && !self.behind_archives() ==> self.next == 0
    }

    /// The shape of the reply that is waited for.
    pub open spec fn waits(self) -> ReplyKind {
        match self.at {
            CadenceAt::Start => ReplyKind::Start,
            CadenceAt::Found => ReplyKind::Flag,
            CadenceAt::BundlesListed => ReplyKind::Listing,
            CadenceAt::ToolsFound => ReplyKind::Flag,
            CadenceAt::ToolsFoundAgain => ReplyKind::Flag,
            CadenceAt::ArchivesListed => ReplyKind::Listing,
            CadenceAt::MarkFound => ReplyKind::Flag,
            CadenceAt::ToolFound => ReplyKind::Flag,
            CadenceAt::Unpacked => ReplyKind::Ended,
            CadenceAt::Over => ReplyKind::Never,
            _ => ReplyKind::Done,
        }
    }

    /// Where the tools' archives are.
    pub open spec fn tools(self) -> Seq<char> {
        below(self.dir, "TOOLS"@)
    }

    /// The archive that is being looked at.
    pub open spec fn archive(self) -> Seq<char> {
        self.archives[self.next]
    }

    /// The tool that it holds.
    pub open spec fn tool(self) -> Seq<char> {
        tool_of(self.archive())
    }

    /// Where that tool is installed.
    pub open spec fn dest(self) -> Seq<char> {
        tool_dir(self.tool())
    }

    /// On to another state with a request.
    pub open spec fn go(self, at: CadenceAt, log: Seq<Seq<char>>, op: OpView) -> (
        CadenceView,
        TurnView,
    ) {
        (CadenceView { at, ..self }, ask(log, op))
    }

    /// The end.
    pub open spec fn end(self, turn: TurnView) -> (CadenceView, TurnView) {
        (CadenceView { at: CadenceAt::Over, ..self }, turn)
    }

    /// On to the record of the phase.
    pub open spec fn record(self, log: Seq<Seq<char>>) -> (CadenceView, TurnView) {
        self.go(CadenceAt::Recorded, log, OpView::MarkPhase("CADENCE"@))
    }

    /// On to the archive at `next`, and to the record behind the last.
    pub open spec fn proceed(self, log: Seq<Seq<char>>) -> (CadenceView, TurnView) {
        if self.next < self.archives.len() {
            self.go(CadenceAt::MarkFound, log, OpView::Exists(marker_of(self.dest())))
        } else {
            self.record(
                log.push(
                    summary(self.installed as nat, self.skipped as nat, self.failed as nat),
                ),
            )
        }
    }

    /// The turn that `reply` leads to, and the state behind it.
    pub open spec fn after(self, reply: ReplyView) -> (CadenceView, TurnView) {
        match self.at {
            CadenceAt::Start => self.go(
                CadenceAt::Found,
                seq!["[INFO] Installing Cadence tools (Analog + Digital)..."@],
                OpView::Exists(self.dir),
            ),
            CadenceAt::Found => if reply->Flag_0 {
                self.go(CadenceAt::BundlesListed, seq![], OpView::ListDir(self.dir))
            } else {
                self.end(
                    conclude(
                        seq![
                            "[WARN] CADENCE directory not found at "@ + self.dir
                                + ". Please place the tool media under ROOT/CADENCE/"@,
                        ],
                        InstallationView::Unavailable("CADENCE directory missing"@),
                    ),
                )
            },
            CadenceAt::BundlesListed => (CadenceView {
                bundles: archives_in(listed(reply->Listing_0), ".tar.gz"@),
                ..self
            }).go(CadenceAt::ToolsFound, seq![], OpView::Exists(self.tools())),
            CadenceAt::ToolsFound => if !reply->Flag_0 && self.bundles.len() == 0 {
                self.end(
                    conclude(
                        seq![
                            "[WARN] Neither "@ + self.tools()
                                + " nor a bulk bundle (CADENCE/*.tar.gz) found. Please place each tool's .tar.gz archive under CADENCE/TOOLS/"@,
                        ],
                        InstallationView::Unavailable("CADENCE/TOOLS directory missing"@),
                    ),
                )
            } else {
                self.go(CadenceAt::RootMade, seq![], OpView::CreateDir(tools_root()))
            },
            CadenceAt::RootMade => match reply->Done_0 {
                Err(e) => self.end(
                    conclude(
                        seq![],
                        InstallationView::Failed("Failed to create "@ + tools_root() + ": "@ + e),
                    ),
                ),
                Ok(_) => self.go(
                    CadenceAt::BundlesDone,
                    seq![],
                    OpView::CadenceBundles(self.dir, self.bundles),
                ),
            },
            CadenceAt::BundlesDone => self.go(
                CadenceAt::ToolsFoundAgain,
                seq![],
                OpView::Exists(self.tools()),
            ),
            CadenceAt::ToolsFoundAgain => if reply->Flag_0 {
                self.go(CadenceAt::GtarsDone, seq![], OpView::GtarArchives(self.tools()))
            } else {
                self.record(
                    seq![
                        "[WARN] "@ + self.tools()
                            + " not found - installed the bulk bundles only."@,
                    ],
                )
            },
            CadenceAt::GtarsDone => self.go(
                CadenceAt::ArchivesListed,
                seq![],
                OpView::ListDir(self.tools()),
            ),
            CadenceAt::ArchivesListed => {
                let archives = archives_in(listed(reply->Listing_0), ".tar.gz"@);
                (CadenceView { archives, ..self }).proceed(
                    if archives.len() == 0 {
                        seq!["[WARN] No .tar.gz archives found under "@ + self.tools() + "."@]
                    } else {
                        seq![]
                    },
                )
            },
            CadenceAt::MarkFound => (CadenceView { marked: reply->Flag_0, ..self }).go(
                CadenceAt::ToolFound,
                seq![],
                OpView::Exists(self.dest()),
            ),
            CadenceAt::ToolFound => if reply->Flag_0 && !self.marked {
                (CadenceView { skipped: self.skipped + 1, next: self.next + 1, ..self }).proceed(
                    seq![
                        "[INFO] "@ + self.tool() + " already installed at "@ + self.dest()
                            + " - skipping."@,
                    ],
                )
            } else {
                self.go(
                    CadenceAt::Unpacked,
                    seq![
                        if self.marked {
                            "[INFO] "@ + self.tool()
                                + " came from a bulk bundle - overwriting it with TOOLS/"@
                                + self.archive() + "..."@
                        } else {
                            "[INFO] Extracting "@ + self.archive() + " -> "@ + self.dest() + "..."@
                        },
                    ],
                    OpView::Status(
                        unpack_command(below(self.tools(), self.archive()), tools_root()),
                    ),
                )
            },
            CadenceAt::Unpacked => match unpacked(reply->Ended_0) {
                Ok(_) => self.go(
                    CadenceAt::Unmarked,
                    seq![],
                    OpView::RemoveFile(marker_of(self.dest())),
                ),
                Err(e) => (CadenceView {
                    failed: self.failed + 1,
                    next: self.next + 1,
                    ..self
                }).proceed(seq!["[ERROR] Failed to extract "@ + self.archive() + ": "@ + e]),
            },
            CadenceAt::Unmarked => (CadenceView {
                installed: self.installed + 1,
                next: self.next + 1,
                ..self
            }).proceed(seq!["[SUCCESS] "@ + self.tool() + " installed."@]),
            CadenceAt::Recorded => match reply->Done_0 {
                Err(e) => self.end(conclude(seq![], InstallationView::Failed(e))),
                Ok(_) => self.go(CadenceAt::Refreshed, seq![], OpView::RecreateEnv("cadence"@)),
            },
            _ => self.end(
                conclude(
                    seq!["[SUCCESS] Cadence installation complete."@],
                    InstallationView::Complete,
                ),
            ),
        }
    }
}

/// The installation of the Cadence tools before its first turn.
pub open spec fn cadence_start(dir: Seq<char>) -> CadenceView {
    CadenceView {
        dir,
        bundles: seq![],
        archives: seq![],
        next: 0,
        marked: false,
        installed: 0,
        skipped: 0,
        failed: 0,
        at: CadenceAt::Start,
    }
}

/// The installation of the Cadence tools from `dir`.
pub fn install_cadence(dir: String) -> (r: Cadence)
    ensures
        r@ == cadence_start(dir@),
        r@.wf(),
{
    Cadence {
        dir,
        bundles: list0(),
        archives: list0(),
        next: 0,
        marked: false,
        installed: 0,
        skipped: 0,
        failed: 0,
        at: CadenceAt::Start,
    }
}

impl Cadence {
    /// The shape of the reply that is waited for.
    pub fn waits(&self) -> (k: ReplyKind)
        ensures
            k == self@.waits(),
    {
        match self.at {
            CadenceAt::Start => ReplyKind::Start,
            CadenceAt::Found => ReplyKind::Flag,
            CadenceAt::BundlesListed => ReplyKind::Listing,
            CadenceAt::ToolsFound => ReplyKind::Flag,
            CadenceAt::ToolsFoundAgain => ReplyKind::Flag,
            CadenceAt::ArchivesListed => ReplyKind::Listing,
            CadenceAt::MarkFound => ReplyKind::Flag,
            CadenceAt::ToolFound => ReplyKind::Flag,
            CadenceAt::Unpacked => ReplyKind::Ended,
            CadenceAt::Over => ReplyKind::Never,
            _ => ReplyKind::Done,
        }
    }

    fn tools(&self) -> (r: String)
        ensures
            r@ == self@.tools(),
    {
        join_path(self.dir.as_str(), "TOOLS")
    }

    fn archive(&self) -> (r: String)
        requires
            0 <= self@.next < self@.archives.len(),
        ensures
            r@ == self@.archive(),
    {
        self.archives[self.next].clone()
    }

    fn tool(&self) -> (r: String)
        requires
            0 <= self@.next < self@.archives.len(),
        ensures
            r@ == self@.tool(),
    {
        tool_name(self.archives[self.next].as_str())
    }

    fn dest(&self) -> (r: String)
        requires
            0 <= self@.next < self@.archives.len(),
        ensures
            r@ == self@.dest(),
    {
        tool_path(self.tool().as_str())
    }

    fn go(self, at: CadenceAt, log: Vec<String>, op: Op) -> (r: (Cadence, Turn))
        ensures
            (r.0@, r.1@) == self@.go(at, texts(log@), op@),
    {
        (Cadence { at, ..self }, turn_ask(log, op))
    }

    fn end(self, turn: Turn) -> (r: (Cadence, Turn))
        ensures
            (r.0@, r.1@) == self@.end(turn@),
    {
        (Cadence { at: CadenceAt::Over, ..self }, turn)
    }

    fn record(self, log: Vec<String>) -> (r: (Cadence, Turn))
        ensures
            (r.0@, r.1@) == self@.record(texts(log@)),
    {
        self.go(CadenceAt::Recorded, log, Op::MarkPhase("CADENCE".to_owned()))
    }

    fn proceed(self, log: Vec<String>) -> (r: (Cadence, Turn))
        ensures
            (r.0@, r.1@) == self@.proceed(texts(log@)),
    {
        if self.next < self.archives.len() {
            let op = Op::Exists(marker_path(self.dest().as_str()));
            self.go(CadenceAt::MarkFound, log, op)
        } else {
            let line = show_summary(self.installed, self.skipped, self.failed);
            self.record(with(log, line))
        }
    }

    fn step_tools_found(self, found: bool) -> (r: (Cadence, Turn))
        requires
            self@.at == CadenceAt::ToolsFound,
        ensures
            (r.0@, r.1@) == self@.after(ReplyView::Flag(found)),
    {
        if !found && self.bundles.len() == 0 {
            let line = "[WARN] Neither ".to_owned().concat(self.tools().as_str()).concat(
                " nor a bulk bundle (CADENCE/*.tar.gz) found. Please place each tool's .tar.gz archive under CADENCE/TOOLS/",
            );
            let missing = Installation::Unavailable("CADENCE/TOOLS directory missing".to_owned());
            self.end(turn_conclude(list1(line), missing))
        } else {
            self.go(CadenceAt::RootMade, list0(), Op::CreateDir("/opt/cadence".to_owned()))
        }
    }

    fn step_tool_found(self, found: bool) -> (r: (Cadence, Turn))
        requires
            self@.wf(),
            self@.at == CadenceAt::ToolFound,
        ensures
            (r.0@, r.1@) == self@.after(ReplyView::Flag(found)),
    {
        assert(self.next < self.archives.len());
        let tool = self.tool();
        let dest = self.dest();
        if found && !self.marked {
            let line = "[INFO] ".to_owned().concat(tool.as_str()).concat(
                " already installed at ",
            ).concat(dest.as_str()).concat(" - skipping.");
            let skipped: usize = self.skipped + 1;
            let next: usize = self.next + 1;
            (Cadence { skipped, next, ..self }).proceed(list1(line))
        } else {
            let archive = self.archive();
            let line: String = if self.marked {
                "[INFO] ".to_owned().concat(tool.as_str()).concat(
                    " came from a bulk bundle - overwriting it with TOOLS/",
                ).concat(archive.as_str()).concat("...")
            } else {
                "[INFO] Extracting ".to_owned().concat(archive.as_str()).concat(" -> ").concat(
                    dest.as_str(),
                ).concat("...")
            };
            let path = join_path(self.tools().as_str(), archive.as_str());
            let c = extract_archive(path.as_str(), "/opt/cadence");
            self.go(CadenceAt::Unpacked, list1(line), Op::Status(c))
        }
    }

    fn step_unpacked(self, reply: Reply) -> (r: (Cadence, Turn))
        requires
            self@.wf(),
            self@.at == CadenceAt::Unpacked,
            reply@.kind() == ReplyKind::Ended,
        ensures
            (r.0@, r.1@) == self@.after(reply@),
    {
        assert(self.next < self.archives.len());
        match unpacking_result(reply.ended()) {
            Ok(_) => {
                let op = Op::RemoveFile(marker_path(self.dest().as_str()));
                self.go(CadenceAt::Unmarked, list0(), op)
            },
            Err(e) => {
                let line = "[ERROR] Failed to extract ".to_owned().concat(
                    self.archive().as_str(),
                ).concat(": ").concat(e.as_str());
                let failed: usize = self.failed + 1;
                let next: usize = self.next + 1;
                (Cadence { failed, next, ..self }).proceed(list1(line))
            },
        }
    }

    /// Takes the reply that is waited for.
    pub fn step(self, reply: Reply) -> (r: (Cadence, Turn))
        requires
            self@.wf(),
            self@.waits() == reply@.kind(),
        ensures
            (r.0@, r.1@) == self@.after(reply@),
            r.1@.leads_to(r.0@.waits()),
            r.0@.wf(),
    {
        match self.at {
            CadenceAt::Start => {
                let log = list1("[INFO] Installing Cadence tools (Analog + Digital)...".to_owned());
                let op = Op::Exists(self.dir.clone());
                self.go(CadenceAt::Found, log, op)
            },
            CadenceAt::Found => if reply.flag() {
                let op = Op::ListDir(self.dir.clone());
                self.go(CadenceAt::BundlesListed, list0(), op)
            } else {
                let line = "[WARN] CADENCE directory not found at ".to_owned().concat(
                    self.dir.as_str(),
                ).concat(". Please place the tool media under ROOT/CADENCE/");
                let missing = Installation::Unavailable("CADENCE directory missing".to_owned());
                self.end(turn_conclude(list1(line), missing))
            },
            CadenceAt::BundlesListed => {
                let bundles = find_archives(&reply.entries(), ".tar.gz");
                let op = Op::Exists(self.tools());
                (Cadence { bundles, ..self }).go(CadenceAt::ToolsFound, list0(), op)
            },
            CadenceAt::ToolsFound => self.step_tools_found(reply.flag()),
            CadenceAt::RootMade => match reply.done() {
                Err(e) => {
                    let error = "Failed to create ".to_owned().concat("/opt/cadence").concat(
                        ": ",
                    ).concat(e.as_str());
                    self.end(turn_conclude(list0(), Installation::Failed(error)))
                },
                Ok(_) => {
                    let op = Op::CadenceBundles(self.dir.clone(), copy_list(&self.bundles));
                    self.go(CadenceAt::BundlesDone, list0(), op)
                },
            },
            CadenceAt::BundlesDone => {
                let op = Op::Exists(self.tools());
                self.go(CadenceAt::ToolsFoundAgain, list0(), op)
            },
            CadenceAt::ToolsFoundAgain => {
                let tools = self.tools();
                if reply.flag() {
                    self.go(CadenceAt::GtarsDone, list0(), Op::GtarArchives(tools))
                } else {
                    let line = "[WARN] ".to_owned().concat(tools.as_str()).concat(
                        " not found - installed the bulk bundles only.",
                    );
                    self.record(list1(line))
                }
            },
            CadenceAt::GtarsDone => {
                let op = Op::ListDir(self.tools());
                self.go(CadenceAt::ArchivesListed, list0(), op)
            },
            CadenceAt::ArchivesListed => {
                let archives = find_archives(&reply.entries(), ".tar.gz");
                let log: Vec<String> = if archives.len() == 0 {
                    list1(
                        "[WARN] No .tar.gz archives found under ".to_owned().concat(
                            self.tools().as_str(),
                        ).concat("."),
                    )
                } else {
                    list0()
                };
                (Cadence { archives, ..self }).proceed(log)
            },
            CadenceAt::MarkFound => {
                let op = Op::Exists(self.dest());
                (Cadence { marked: reply.flag(), ..self }).go(CadenceAt::ToolFound, list0(), op)
            },
            CadenceAt::ToolFound => self.step_tool_found(reply.flag()),
            CadenceAt::Unpacked => self.step_unpacked(reply),
            CadenceAt::Unmarked => {
                assert(self.next < self.archives.len());
                let line = "[SUCCESS] ".to_owned().concat(self.tool().as_str()).concat(
                    " installed.",
                );
                let installed: usize = self.installed + 1;
                let next: usize = self.next + 1;
                (Cadence { installed, next, ..self }).proceed(list1(line))
            },
            CadenceAt::Recorded => match reply.done() {
                Err(e) => self.end(turn_conclude(list0(), Installation::Failed(e))),
                Ok(_) => self.go(
                    CadenceAt::Refreshed,
                    list0(),
                    Op::RecreateEnv("cadence".to_owned()),
                ),
            },
            _ => self.end(
                turn_conclude(
                    list1("[SUCCESS] Cadence installation complete.".to_owned()),
                    Installation::Complete,
                ),
            ),
        }
    }
}

} // verus!
