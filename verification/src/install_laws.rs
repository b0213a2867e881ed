//! What the installation of a tool does with what belongs to that tool.

use vstd::prelude::*;

use crate::cadence::CadenceView;
use crate::exchange::{InstallationView, Installer, NextView, OpView, ReplyView, TurnView};
use crate::install::{install_runs, install_start, InstallOneView};
use crate::number::decimal;
use crate::session::{called, ProcedureView, SiteView};
use crate::suites::{Suite, SuiteInstallView};

verus! {

/// Whether a name is that of a tool that can be chosen.
pub open spec fn is_tool(tool: Seq<char>) -> bool {
    tool == "xilinx"@ || tool == "cadence"@ || tool == "silvaco"@ || tool == "cadre"@
}

/// Where a site keeps a tool's media.
pub open spec fn media_of(tool: Seq<char>, site: SiteView) -> Seq<char> {
    if tool == "xilinx"@ {
        site.xilinx_dir
    } else if tool == "cadence"@ {
        site.cadence_dir
    } else if tool == "silvaco"@ {
        site.silvaco_dir
    } else {
        site.cadre_dir
    }
}

/// The phase that the run at position `k` of a tool's runs is recorded as.
pub open spec fn phase_of(tool: Seq<char>, k: int) -> Seq<char> {
    if tool == "xilinx"@ {
        "XILINX"@
    } else if tool == "cadence"@ {
        "CADENCE"@
    } else if tool == "silvaco"@ {
        seq!["SILVACO_1"@, "SILVACO_2"@, "SILVACO_3"@][k]
    } else {
        "CADRE"@
    }
}

/// The procedure behind the run at position `k` of a tool's runs.
pub open spec fn run_of(tool: Seq<char>, k: int, site: SiteView) -> ProcedureView {
    called(OpView::Install(install_runs(tool)->Ok_0[k]), site)->Some_0
}

/// The state of a procedure that has heard `replies`.
pub open spec fn reached(p: ProcedureView, replies: Seq<ReplyView>) -> ProcedureView
    decreases replies.len(),
{
    if replies.len() == 0 {
        p
    } else {
        reached(p, replies.drop_last()).after(replies.last()).0
    }
}

proof fn lemma_tools_differ()
    ensures
        "xilinx"@ != "cadence"@,
        "xilinx"@ != "silvaco"@,
        "xilinx"@ != "cadre"@,
        "cadence"@ != "silvaco"@,
        "cadence"@ != "cadre"@,
        "silvaco"@ != "cadre"@,
{
    reveal_strlit("xilinx");
    reveal_strlit("cadence");
    reveal_strlit("silvaco");
    reveal_strlit("cadre");
    assert("xilinx"@[0] == 'x');
    assert("cadence"@[0] == 'c' && "cadence"@.len() == 7);
    assert("silvaco"@[0] == 's');
    assert("cadre"@[0] == 'c' && "cadre"@.len() == 5);
}

proof fn lemma_part_names(k: int)
    requires
        0 <= k < 3,
    ensures
        "SILVACO_"@ + decimal((k + 1) as nat) == seq![
            "SILVACO_1"@,
            "SILVACO_2"@,
            "SILVACO_3"@,
        ][k],
{
    reveal_strlit("SILVACO_");
    reveal_strlit("SILVACO_1");
    reveal_strlit("SILVACO_2");
    reveal_strlit("SILVACO_3");
    assert("SILVACO_"@ + decimal(1) =~= "SILVACO_1"@);
    assert("SILVACO_"@ + decimal(2) =~= "SILVACO_2"@);
    assert("SILVACO_"@ + decimal(3) =~= "SILVACO_3"@);
}

/// A tool takes one run, but for Silvaco, which takes three; a name that is no tool's
/// takes none and is an error that names it.
pub proof fn law_tools_take_their_runs(tool: Seq<char>)
    ensures
        install_runs(tool) is Ok <==> is_tool(tool),
        is_tool(tool) ==> install_runs(tool)->Ok_0.len() == (if tool == "silvaco"@ {
            3nat
        } else {
            1nat
        }),
        !is_tool(tool) ==> install_runs(tool) == Err::<Seq<Installer>, Seq<char>>(
            "Unknown tool '"@ + tool + "'"@,
        ),
{
    lemma_tools_differ();
}

proof fn lemma_suite_stays(v: SuiteInstallView, replies: Seq<ReplyView>)
    ensures
        reached(ProcedureView::Suite(v), replies) matches ProcedureView::Suite(w) && w.suite
            == v.suite && w.dir == v.dir,
    decreases replies.len(),
{
    if replies.len() > 0 {
        lemma_suite_stays(v, replies.drop_last());
    }
}

proof fn lemma_cadence_stays(v: CadenceView, replies: Seq<ReplyView>)
    ensures
        reached(ProcedureView::Cadence(v), replies) matches ProcedureView::Cadence(w) && w.dir
            == v.dir,
    decreases replies.len(),
{
    if replies.len() > 0 {
        lemma_cadence_stays(v, replies.drop_last());
    }
}

proof fn lemma_run_of(tool: Seq<char>, k: int, site: SiteView)
    requires
        is_tool(tool),
        0 <= k < install_runs(tool)->Ok_0.len(),
    ensures
        tool == "cadence"@ ==> run_of(tool, k, site) is Cadence,
        tool != "cadence"@ ==> run_of(tool, k, site) is Suite,
        tool == "xilinx"@ ==> run_of(tool, k, site)->Suite_0.suite == Suite::Xilinx,
        tool == "silvaco"@ ==> run_of(tool, k, site)->Suite_0.suite == Suite::Silvaco(
            (k + 1) as u8,
        ),
        tool == "cadre"@ ==> run_of(tool, k, site)->Suite_0.suite == Suite::Cadre,
{
    lemma_tools_differ();
}

/// A tool's installer looks for the tool's own media, and for no other's.
pub proof fn law_tool_is_installed_from_its_own_media(tool: Seq<char>, k: int, site: SiteView)
    requires
        is_tool(tool),
        0 <= k < install_runs(tool)->Ok_0.len(),
    ensures
        run_of(tool, k, site).after(ReplyView::Start).1.next == NextView::Do(
            OpView::Exists(media_of(tool, site)),
        ),
{
    lemma_tools_differ();
}

/// The environment that is written anew is that of the tool that is being installed:
/// whatever a run of a tool has heard, where it asks to record a phase, this is the
/// run's own phase, and once that is recorded the next request is for the environment
/// of the very tool. It never asks for the environment of another.
pub proof fn law_tool_refreshes_its_own_environment(
    tool: Seq<char>,
    k: int,
    site: SiteView,
    replies: Seq<ReplyView>,
    reply: ReplyView,
)
    requires
        is_tool(tool),
        0 <= k < install_runs(tool)->Ok_0.len(),
    ensures
        ({
            let (state, turn) = reached(run_of(tool, k, site), replies).after(reply);
            &&& turn.next matches NextView::Do(OpView::MarkPhase(phase)) ==> {
                &&& phase == phase_of(tool, k)
                &&& state.after(ReplyView::Done(Ok(()))).1.next == NextView::Do(
                    OpView::RecreateEnv(tool),
                )
            }
            &&& turn.next matches NextView::Do(OpView::RecreateEnv(t)) ==> t == tool
        }),
{
    lemma_tools_differ();
    lemma_run_of(tool, k, site);
    if tool == "silvaco"@ {
        lemma_part_names(k);
    }
    match run_of(tool, k, site) {
        ProcedureView::Suite(v) => {
            lemma_suite_stays(v, replies);
        },
        ProcedureView::Cadence(v) => {
            lemma_cadence_stays(v, replies);
        },
        _ => {},
    }
}

/// A run of a suite whose media are in place records its phase, writes the environment
/// anew and is complete, whatever came of the environment; one whose media are missing
/// is unavailable and says where they belong.
pub proof fn law_xilinx_course(site: SiteView, refreshed: Result<(), Seq<char>>)
    ensures
        ({
            let dir = site.xilinx_dir;
            let (looking, look) = run_of("xilinx"@, 0, site).after(ReplyView::Start);
            let (marking, mark) = looking.after(ReplyView::Flag(true));
            let (refreshing, refresh) = marking.after(ReplyView::Done(Ok(())));
            &&& look == TurnView {
                log: seq!["[INFO] Installing Xilinx Vivado/Vitis..."@],
                next: NextView::Do(OpView::Exists(dir)),
            }
            &&& looking.after(ReplyView::Flag(false)).1 == TurnView {
                log: seq![
                    "[WARN] XILINX directory not found at "@ + dir
                        + ". Please place installer under ROOT/XILINX/"@,
                ],
                next: NextView::Finish(
                    ReplyView::Installed(
                        InstallationView::Unavailable("XILINX directory missing"@),
                    ),
                ),
            }
            &&& mark == TurnView {
                log: seq!["[INFO] Running Xilinx setup script..."@],
                next: NextView::Do(OpView::MarkPhase("XILINX"@)),
            }
            &&& refresh == TurnView {
                log: seq![],
                next: NextView::Do(OpView::RecreateEnv("xilinx"@)),
            }
            &&& refreshing.after(ReplyView::Done(refreshed)).1 == TurnView {
                log: seq!["[SUCCESS] Xilinx installation complete."@],
                next: NextView::Finish(ReplyView::Installed(InstallationView::Complete)),
            }
        }),
{
}

/// The same of CADRE.
pub proof fn law_cadre_course(site: SiteView, refreshed: Result<(), Seq<char>>)
    ensures
        ({
            let dir = site.cadre_dir;
            let (looking, look) = run_of("cadre"@, 0, site).after(ReplyView::Start);
            let (marking, mark) = looking.after(ReplyView::Flag(true));
            let (refreshing, refresh) = marking.after(ReplyView::Done(Ok(())));
            &&& look == TurnView { log: seq![], next: NextView::Do(OpView::Exists(dir)) }
            &&& looking.after(ReplyView::Flag(false)).1 == TurnView {
                log: seq![
                    "[WARN] CADRE directory not found at "@ + dir
                        + ". Please place the installer under ROOT/CADRE/"@,
                ],
                next: NextView::Finish(
                    ReplyView::Installed(InstallationView::Unavailable("CADRE directory missing"@)),
                ),
            }
            &&& mark == TurnView {
                log: seq!["[INFO] Installing CADRE VisualTCAD from "@ + dir + "..."@],
                next: NextView::Do(OpView::MarkPhase("CADRE"@)),
            }
            &&& refresh == TurnView {
                log: seq![],
                next: NextView::Do(OpView::RecreateEnv("cadre"@)),
            }
            &&& refreshing.after(ReplyView::Done(refreshed)).1 == TurnView {
                log: seq!["[SUCCESS] CADRE VisualTCAD installation complete."@],
                next: NextView::Finish(ReplyView::Installed(InstallationView::Complete)),
            }
        }),
{
    lemma_tools_differ();
}

/// The same of each part of Silvaco, which says what part it is.
pub proof fn law_silvaco_course(site: SiteView, k: int, refreshed: Result<(), Seq<char>>)
    requires
        0 <= k < 3,
    ensures
        ({
            let dir = site.silvaco_dir;
            let part = decimal((k + 1) as nat);
            let (looking, look) = run_of("silvaco"@, k, site).after(ReplyView::Start);
            let (marking, mark) = looking.after(ReplyView::Flag(true));
            let (refreshing, refresh) = marking.after(ReplyView::Done(Ok(())));
            &&& look == TurnView { log: seq![], next: NextView::Do(OpView::Exists(dir)) }
            &&& looking.after(ReplyView::Flag(false)).1 == TurnView {
                log: seq![
                    "[WARN] SILVACO directory not found at "@ + dir
                        + ". Please place installers under ROOT/SILVACO/"@,
                ],
                next: NextView::Finish(
                    ReplyView::Installed(
                        InstallationView::Unavailable("SILVACO directory missing"@),
                    ),
                ),
            }
            &&& mark == TurnView {
                log: seq!["[INFO] Installing Silvaco Part "@ + part + " from "@ + dir + "..."@],
                next: NextView::Do(OpView::MarkPhase("SILVACO_"@ + part)),
            }
            &&& refresh == TurnView {
                log: seq![],
                next: NextView::Do(OpView::RecreateEnv("silvaco"@)),
            }
            &&& refreshing.after(ReplyView::Done(refreshed)).1 == TurnView {
                log: seq!["[SUCCESS] Silvaco Part "@ + part + " complete."@],
                next: NextView::Finish(ReplyView::Installed(InstallationView::Complete)),
            }
        }),
{
    lemma_tools_differ();
    lemma_run_of("silvaco"@, k, site);
}

/// Each phase that an installer records has a line of its own in the status.
pub proof fn law_recorded_phases_are_shown(tool: Seq<char>, k: int)
    requires
        is_tool(tool),
        0 <= k < install_runs(tool)->Ok_0.len(),
    ensures
        crate::status_laws::phase_names().contains(phase_of(tool, k)),
{
    lemma_tools_differ();
    let names = crate::status_laws::phase_names();
    assert(names[1] == "XILINX"@);
    assert(names[2] == "CADENCE"@);
    assert(names[3] == "SILVACO_1"@);
    assert(names[4] == "SILVACO_2"@);
    assert(names[5] == "SILVACO_3"@);
    assert(names[6] == "CADRE"@);
}

/// The installation of a tool adds no line to those of its runs.
pub proof fn law_tools_add_no_line(v: InstallOneView, reply: ReplyView)
    requires
        v.wf(),
        v.waits() == reply.kind(),
    ensures
        v.after(reply).1.log.len() == 0,
{
}

/// A chosen tool begins with its first run; a name that is no tool's fails at once.
pub proof fn law_tool_begins_with_its_first_run(tool: Seq<char>)
    ensures
        install_start(tool).after(ReplyView::Start).1.next == (if is_tool(tool) {
            NextView::Do(OpView::Install(install_runs(tool)->Ok_0[0]))
        } else {
            NextView::Finish(
                ReplyView::Installed(InstallationView::Failed("Unknown tool '"@ + tool + "'"@)),
            )
        }),
{
    lemma_tools_differ();
}

} // verus!
