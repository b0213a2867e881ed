//! The tools whose installation is recorded once their media are in place.

use vstd::prelude::*;

use crate::exchange::{
    ask, conclude, list0, list1, turn_ask, turn_conclude, Installation, InstallationView, NextView,
    Op, OpView, Reply, ReplyKind, ReplyView, Turn, TurnView,
};
use crate::number::{decimal, decimal_text};
use crate::text::texts;

verus! {

/// A suite of tools.
#[derive(Debug, Clone, Copy, PartialEq, Eq, Structural)]
pub enum Suite {
    Xilinx,
    /// One of the parts of the Silvaco suite.
    Silvaco(u8),
    Cadre,
}

impl Suite {
    /// What is logged before the media are looked for.
    pub open spec fn opening(self) -> Seq<Seq<char>> {
        match self {
            Suite::Xilinx => seq!["[INFO] Installing Xilinx Vivado/Vitis..."@],
            _ => seq![],
        }
    }

    /// What is logged where the media are not at `dir`.
    pub open spec fn warning(self, dir: Seq<char>) -> Seq<char> {
        match self {
            Suite::Xilinx => "[WARN] XILINX directory not found at "@ + dir
                + ". Please place installer under ROOT/XILINX/"@,
            Suite::Silvaco(_) => "[WARN] SILVACO directory not found at "@ + dir
                + ". Please place installers under ROOT/SILVACO/"@,
            Suite::Cadre => "[WARN] CADRE directory not found at "@ + dir
                + ". Please place the installer under ROOT/CADRE/"@,
        }
    }

    /// The error where the media are missing.
    pub open spec fn missing(self) -> Seq<char> {
        match self {
            Suite::Xilinx => "XILINX directory missing"@,
            Suite::Silvaco(_) => "SILVACO directory missing"@,
            Suite::Cadre => "CADRE directory missing"@,
        }
    }

    /// What is logged once the media are found at `dir`.
    pub open spec fn running(self, dir: Seq<char>) -> Seq<char> {
        match self {
            Suite::Xilinx => "[INFO] Running Xilinx setup script..."@,
            Suite::Silvaco(part) => "[INFO] Installing Silvaco Part "@ + decimal(part as nat)
                + " from "@ + dir + "..."@,
            Suite::Cadre => "[INFO] Installing CADRE VisualTCAD from "@ + dir + "..."@,
        }
    }

    /// The phase that is recorded.
    pub open spec fn phase(self) -> Seq<char> {
        match self {
            Suite::Xilinx => "XILINX"@,
            Suite::Silvaco(part) => "SILVACO_"@ + decimal(part as nat),
            Suite::Cadre => "CADRE"@,
        }
    }

    /// The tool whose environment is written anew.
    pub open spec fn tool(self) -> Seq<char> {
        match self {
            Suite::Xilinx => "xilinx"@,
            Suite::Silvaco(_) => "silvaco"@,
            Suite::Cadre => "cadre"@,
        }
    }

    /// What is logged at the end.
    pub open spec fn closing(self) -> Seq<char> {
        match self {
            Suite::Xilinx => "[SUCCESS] Xilinx installation complete."@,
            Suite::Silvaco(part) => "[SUCCESS] Silvaco Part "@ + decimal(part as nat)
                + " complete."@,
            Suite::Cadre => "[SUCCESS] CADRE VisualTCAD installation complete."@,
        }
    }

    fn show_opening(self) -> (r: Vec<String>)
        ensures
            texts(r@) == self.opening(),
    {
        match self {
            Suite::Xilinx => list1("[INFO] Installing Xilinx Vivado/Vitis...".to_owned()),
            _ => list0(),
        }
    }

    fn show_warning(self, dir: &str) -> (r: String)
        ensures
            r@ == self.warning(dir@),
    {
        match self {
            Suite::Xilinx => "[WARN] XILINX directory not found at ".to_owned().concat(dir).concat(
                ". Please place installer under ROOT/XILINX/",
            ),
            Suite::Silvaco(_) => "[WARN] SILVACO directory not found at ".to_owned().concat(
                dir,
            ).concat(". Please place installers under ROOT/SILVACO/"),
            Suite::Cadre => "[WARN] CADRE directory not found at ".to_owned().concat(dir).concat(
                ". Please place the installer under ROOT/CADRE/",
            ),
        }
    }

    fn show_missing(self) -> (r: String)
        ensures
            r@ == self.missing(),
    {
        match self {
            Suite::Xilinx => "XILINX directory missing".to_owned(),
            Suite::Silvaco(_) => "SILVACO directory missing".to_owned(),
            Suite::Cadre => "CADRE directory missing".to_owned(),
        }
    }

    fn show_running(self, dir: &str) -> (r: String)
        ensures
            r@ == self.running(dir@),
    {
        match self {
            Suite::Xilinx => "[INFO] Running Xilinx setup script...".to_owned(),
            Suite::Silvaco(part) => "[INFO] Installing Silvaco Part ".to_owned().concat(
                decimal_text(part as u64).as_str(),
            ).concat(" from ").concat(dir).concat("..."),
            Suite::Cadre => "[INFO] Installing CADRE VisualTCAD from ".to_owned().concat(
                dir,
            ).concat("..."),
        }
    }

    fn show_phase(self) -> (r: String)
        ensures
            r@ == self.phase(),
    {
        match self {
            Suite::Xilinx => "XILINX".to_owned(),
            Suite::Silvaco(part) => "SILVACO_".to_owned().concat(
                decimal_text(part as u64).as_str(),
            ),
            Suite::Cadre => "CADRE".to_owned(),
        }
    }

    fn show_tool(self) -> (r: String)
        ensures
            r@ == self.tool(),
    {
        match self {
            Suite::Xilinx => "xilinx".to_owned(),
            Suite::Silvaco(_) => "silvaco".to_owned(),
            Suite::Cadre => "cadre".to_owned(),
        }
    }

    fn show_closing(self) -> (r: String)
        ensures
            r@ == self.closing(),
    {
        match self {
            Suite::Xilinx => "[SUCCESS] Xilinx installation complete.".to_owned(),
            Suite::Silvaco(part) => "[SUCCESS] Silvaco Part ".to_owned().concat(
                decimal_text(part as u64).as_str(),
            ).concat(" complete."),
            Suite::Cadre => "[SUCCESS] CADRE VisualTCAD installation complete.".to_owned(),
        }
    }
}

/// Where the installation of a suite stands.
#[derive(Debug, Clone, Copy, PartialEq, Eq, Structural)]
pub enum SuiteAt {
    Start,
    Found,
    Marked,
    Refreshed,
    Over,
}

/// Installs a suite from the media in a directory.
#[derive(Debug)]
pub struct SuiteInstall {
    suite: Suite,
    dir: String,
    at: SuiteAt,
}

/// The model of a `SuiteInstall`.
pub struct SuiteInstallView {
    pub suite: Suite,
    /// Where the media are.
    pub dir: Seq<char>,
    pub at: SuiteAt,
}

impl View for SuiteInstall {
    type V = SuiteInstallView;

    closed spec fn view(&self) -> SuiteInstallView {
        SuiteInstallView { suite: self.suite, dir: self.dir@, at: self.at }
    }
}

impl SuiteInstallView {
    /// The shape of the reply that is waited for.
    pub open spec fn waits(self) -> ReplyKind {
        match self.at {
            SuiteAt::Start => ReplyKind::Start,
            SuiteAt::Found => ReplyKind::Flag,
            SuiteAt::Marked => ReplyKind::Done,
            SuiteAt::Refreshed => ReplyKind::Done,
            SuiteAt::Over => ReplyKind::Never,
        }
    }

    /// On to another state with a request.
    pub open spec fn go(self, at: SuiteAt, log: Seq<Seq<char>>, op: OpView) -> (
        SuiteInstallView,
        TurnView,
    ) {
        (SuiteInstallView { at, ..self }, ask(log, op))
    }

    /// The end.
    pub open spec fn end(self, turn: TurnView) -> (SuiteInstallView, TurnView) {
        (SuiteInstallView { at: SuiteAt::Over, ..self }, turn)
    }

    /// The turn that `reply` leads to, and the state behind it. Whether the environment
    /// could be written does not matter.
    pub open spec fn after(self, reply: ReplyView) -> (SuiteInstallView, TurnView) {
        match self.at {
            SuiteAt::Start => self.go(
                SuiteAt::Found,
                self.suite.opening(),
                OpView::Exists(self.dir),
            ),
            SuiteAt::Found => if reply->Flag_0 {
                self.go(
                    SuiteAt::Marked,
                    seq![self.suite.running(self.dir)],
                    OpView::MarkPhase(self.suite.phase()),
                )
            } else {
                self.end(
                    conclude(
                        seq![self.suite.warning(self.dir)],
                        InstallationView::Unavailable(self.suite.missing()),
                    ),
                )
            },
            SuiteAt::Marked => match reply->Done_0 {
                Err(e) => self.end(conclude(seq![], InstallationView::Failed(e))),
                Ok(_) => self.go(
                    SuiteAt::Refreshed,
                    seq![],
                    OpView::RecreateEnv(self.suite.tool()),
                ),
            },
            _ => self.end(conclude(seq![self.suite.closing()], InstallationView::Complete)),
        }
    }
}

/// The installation of the Xilinx tools from `dir`.
pub fn install_xilinx(dir: String) -> (r: SuiteInstall)
    ensures
        r@ == (SuiteInstallView { suite: Suite::Xilinx, dir: dir@, at: SuiteAt::Start }),
{
    SuiteInstall { suite: Suite::Xilinx, dir, at: SuiteAt::Start }
}

/// The installation of a part of the Silvaco suite from `dir`.
pub fn install_silvaco(dir: String, part: u8) -> (r: SuiteInstall)
    ensures
        r@ == (SuiteInstallView { suite: Suite::Silvaco(part), dir: dir@, at: SuiteAt::Start }),
{
    SuiteInstall { suite: Suite::Silvaco(part), dir, at: SuiteAt::Start }
}

/// The installation of CADRE VisualTCAD from `dir`.
pub fn install_cadre(dir: String) -> (r: SuiteInstall)
    ensures
        r@ == (SuiteInstallView { suite: Suite::Cadre, dir: dir@, at: SuiteAt::Start }),
{
    SuiteInstall { suite: Suite::Cadre, dir, at: SuiteAt::Start }
}

impl SuiteInstall {
    /// The shape of the reply that is waited for.
    pub fn waits(&self) -> (k: ReplyKind)
        ensures
            k == self@.waits(),
    {
        match self.at {
            SuiteAt::Start => ReplyKind::Start,
            SuiteAt::Found => ReplyKind::Flag,
            SuiteAt::Marked => ReplyKind::Done,
            SuiteAt::Refreshed => ReplyKind::Done,
            SuiteAt::Over => ReplyKind::Never,
        }
    }

    fn go(self, at: SuiteAt, log: Vec<String>, op: Op) -> (r: (SuiteInstall, Turn))
        ensures
            (r.0@, r.1@) == self@.go(at, texts(log@), op@),
    {
        (SuiteInstall { at, ..self }, turn_ask(log, op))
    }

    fn end(self, turn: Turn) -> (r: (SuiteInstall, Turn))
        ensures
            (r.0@, r.1@) == self@.end(turn@),
    {
        (SuiteInstall { at: SuiteAt::Over, ..self }, turn)
    }

    /// Takes the reply that is waited for.
    pub fn step(self, reply: Reply) -> (r: (SuiteInstall, Turn))
        requires
            self@.waits() == reply@.kind(),
        ensures
            (r.0@, r.1@) == self@.after(reply@),
            r.1@.leads_to(r.0@.waits()),
    {
        let suite = self.suite;
        match self.at {
            SuiteAt::Start => {
                let dir = self.dir.clone();
                self.go(SuiteAt::Found, suite.show_opening(), Op::Exists(dir))
            },
            SuiteAt::Found => if reply.flag() {
                let log = list1(suite.show_running(self.dir.as_str()));
                self.go(SuiteAt::Marked, log, Op::MarkPhase(suite.show_phase()))
            } else {
                let log = list1(suite.show_warning(self.dir.as_str()));
                self.end(turn_conclude(log, Installation::Unavailable(suite.show_missing())))
            },
            SuiteAt::Marked => match reply.done() {
                Err(e) => self.end(turn_conclude(list0(), Installation::Failed(e))),
                Ok(_) => self.go(SuiteAt::Refreshed, list0(), Op::RecreateEnv(suite.show_tool())),
            },
            _ => self.end(
                turn_conclude(list1(suite.show_closing()), Installation::Complete),
            ),
        }
    }
}

/// A suite without media is never recorded as installed: nothing is asked for once its
/// directory turned out to be missing, and the result says that it is unavailable. No
/// other end says so.
pub proof fn law_missing_media_are_told_apart(v: SuiteInstallView, reply: ReplyView)
    requires
        v.waits() == reply.kind(),
    ensures
        v.after(reply).1.next == NextView::Finish(
            ReplyView::Installed(InstallationView::Unavailable(v.suite.missing())),
        ) <==> v.at == SuiteAt::Found && reply == ReplyView::Flag(false),
        v.after(reply).1.next matches NextView::Finish(
            ReplyView::Installed(InstallationView::Unavailable(e)),
        ) ==> e == v.suite.missing(),
{
}

/// The parts of a suite are recorded under names of their own.
pub proof fn law_parts_have_phases_of_their_own(a: u8, b: u8)
    requires
        a != b,
    ensures
        Suite::Silvaco(a).phase() != Suite::Silvaco(b).phase(),
{
    let x = decimal(a as nat);
    let y = decimal(b as nat);
    let p = "SILVACO_"@;
    if p + x == p + y {
        assert(x =~= (p + x).skip(p.len() as int));
        assert(y =~= (p + y).skip(p.len() as int));
        crate::number::law_decimal_is_injective(a as nat, b as nat);
    }
}

/// The installation of a suite fails if and only if its media are missing or its phase
/// cannot be recorded.
pub proof fn law_suite_failures(v: SuiteInstallView, reply: ReplyView)
    requires
        v.waits() == reply.kind(),
    ensures
        (v.after(reply).1.next matches NextView::Finish(ReplyView::Installed(i)) && i.outcome()
            is Err) <==> {
            ||| v.at == SuiteAt::Found && reply == ReplyView::Flag(false)
            ||| v.at == SuiteAt::Marked && !reply.is_ok()
        },
{
}

/// A suite that is complete has been recorded: the end comes behind the environment's
/// turn, that turn only behind the report that the phase was recorded, and this is the
/// answer to the request to record it.
pub proof fn law_complete_suite_is_recorded(v: SuiteInstallView, reply: ReplyView)
    requires
        v.waits() == reply.kind(),
    ensures
        v.after(reply).1.next == NextView::Finish(ReplyView::Installed(InstallationView::Complete))
            ==> v.at == SuiteAt::Refreshed,
        v.after(reply).0.at == SuiteAt::Refreshed ==> v.at == SuiteAt::Marked && reply.is_ok(),
        v.after(reply).0.at == SuiteAt::Marked ==> v.after(reply).1.next == NextView::Do(
            OpView::MarkPhase(v.suite.phase()),
        ),
{
}

} // verus!
