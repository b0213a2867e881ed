//! What the installation of the Cadence tools asks for from its start to its end.

use vstd::prelude::*;

use crate::archives::{
    archives_in, gtars_in, is_archive, is_gtar, names_where, tool_of, unpacked,
};
use crate::cadence::{CadenceAt, CadenceView};
use crate::exchange::{
    listed, CommandView, EntryView, InstallationView, Installer, NextView, OpView, ProcessEndView,
    ReplyView, TurnView,
};
use crate::number::decimal;
use crate::path::below;
use crate::places::{mark_of, place_of};
use crate::session::{called, ProcedureView, SiteView};
use crate::text::ends;

verus! {

/// The installation that a site asks for.
pub open spec fn cadence_of(site: SiteView) -> ProcedureView {
    called(OpView::Install(Installer::Cadence), site)->Some_0
}

/// The bundles are the files in a listing whose names end with `.tar.gz`, and so are
/// the tools' archives; the doubly wrapped archives are those whose names end with
/// `.gtar` and hold more than that.
pub proof fn law_archives_are_files_by_their_endings(entries: Seq<EntryView>, name: Seq<char>)
    ensures
        archives_in(entries, ".tar.gz"@).contains(name) <==> exists|i: int|
            0 <= i < entries.len() && (#[trigger] entries[i]).is_file && entries[i].name == name
                && ends(name, ".tar.gz"@),
        gtars_in(entries).contains(name) <==> exists|i: int|
            0 <= i < entries.len() && (#[trigger] entries[i]).is_file && entries[i].name == name
                && ends(name, ".gtar"@) && name.len() > 5,
{
    broadcast use vstd::seq_lib::group_to_multiset_ensures;

    let tar = is_archive(".tar.gz"@);
    let gtar = is_gtar();
    crate::archives::law_names_are_those_that_pass(entries, tar, name);
    crate::archives::law_names_are_those_that_pass(entries, gtar, name);
    crate::archives::law_archives_come_in_order(entries, ".tar.gz"@);
    let found = archives_in(entries, ".tar.gz"@);
    let passing = names_where(entries, tar);
    assert(found.contains(name) <==> found.to_multiset().contains(name));
    assert(passing.contains(name) <==> passing.to_multiset().contains(name));
    if passing.contains(name) {
        let i = choose|i: int|
            0 <= i < entries.len() && tar(#[trigger] entries[i]) && entries[i].name == name;
        assert(entries[i].is_file);
    }
    if gtars_in(entries).contains(name) {
        let i = choose|i: int|
            0 <= i < entries.len() && gtar(#[trigger] entries[i]) && entries[i].name == name;
        assert(entries[i].is_file);
    }
    if exists|i: int|
        0 <= i < entries.len() && (#[trigger] entries[i]).is_file && entries[i].name == name
            && ends(name, ".tar.gz"@) {
        let i = choose|i: int|
            0 <= i < entries.len() && (#[trigger] entries[i]).is_file && entries[i].name == name
                && ends(name, ".tar.gz"@);
        assert(tar(entries[i]));
    }
    if exists|i: int|
        0 <= i < entries.len() && (#[trigger] entries[i]).is_file && entries[i].name == name
            && ends(name, ".gtar"@) && name.len() > 5 {
        let i = choose|i: int|
            0 <= i < entries.len() && (#[trigger] entries[i]).is_file && entries[i].name == name
                && ends(name, ".gtar"@) && name.len() > 5;
        assert(gtar(entries[i]));
    }
}

/// The installation looks for its media first: for the directory, for the bundles in
/// it and for the tools' own directory. Without any of them it is unavailable; else the
/// tools' root is made, and where it cannot be, the installation fails.
pub proof fn law_cadence_begins_with_its_media(
    site: SiteView,
    entries: Option<Seq<EntryView>>,
    found: bool,
    e: Seq<char>,
)
    ensures
        ({
            let dir = site.cadence_dir;
            let tools = below(dir, "TOOLS"@);
            let bundles = archives_in(listed(entries), ".tar.gz"@);
            let (looking, look) = cadence_of(site).after(ReplyView::Start);
            let (listing, list) = looking.after(ReplyView::Flag(true));
            let (seeking, seek) = listing.after(ReplyView::Listing(entries));
            let (making, make) = seeking.after(ReplyView::Flag(found));
            &&& look == TurnView {
                log: seq!["[INFO] Installing Cadence tools (Analog + Digital)..."@],
                next: NextView::Do(OpView::Exists(dir)),
            }
            &&& looking.after(ReplyView::Flag(false)).1 == TurnView {
                log: seq![
                    "[WARN] CADENCE directory not found at "@ + dir
                        + ". Please place the tool media under ROOT/CADENCE/"@,
                ],
                next: NextView::Finish(
                    ReplyView::Installed(
                        InstallationView::Unavailable("CADENCE directory missing"@),
                    ),
                ),
            }
            &&& list == TurnView { log: seq![], next: NextView::Do(OpView::ListDir(dir)) }
            &&& seek == TurnView { log: seq![], next: NextView::Do(OpView::Exists(tools)) }
            &&& !found && bundles.len() == 0 ==> make == TurnView {
                log: seq![
                    "[WARN] Neither "@ + tools
                        + " nor a bulk bundle (CADENCE/*.tar.gz) found. Please place each tool's .tar.gz archive under CADENCE/TOOLS/"@,
                ],
                next: NextView::Finish(
                    ReplyView::Installed(
                        InstallationView::Unavailable("CADENCE/TOOLS directory missing"@),
                    ),
                ),
            }
            &&& found || bundles.len() > 0 ==> {
                &&& make == TurnView {
                    log: seq![],
                    next: NextView::Do(OpView::CreateDir("/opt/cadence"@)),
                }
                &&& making == ProcedureView::Cadence(
                    CadenceView {
                        bundles,
                        at: CadenceAt::RootMade,
                        ..crate::cadence::cadence_start(dir)
                    },
                )
                &&& making.after(ReplyView::Done(Err(e))).1 == TurnView {
                    log: seq![],
                    next: NextView::Finish(
                        ReplyView::Installed(
                            InstallationView::Failed(
                                "Failed to create "@ + "/opt/cadence"@ + ": "@ + e,
                            ),
                        ),
                    ),
                }
            }
        }),
{
}

/// What is asked for where the turn comes to the archive of a tool: the tool's mark is
/// looked for, or, behind the last archive, the phase is recorded.
pub open spec fn turn_of_tool(tools: Seq<Seq<char>>, i: int) -> OpView {
    if i < tools.len() {
        OpView::Exists(mark_of(tools[i]))
    } else {
        OpView::MarkPhase("CADENCE"@)
    }
}

/// What is logged behind the last archive, and nothing before.
pub open spec fn counts_shown(
    tools: Seq<Seq<char>>,
    i: int,
    installed: int,
    skipped: int,
    failed: int,
) -> Seq<Seq<char>> {
    if i < tools.len() {
        seq![]
    } else {
        seq![
            "[INFO] Cadence extraction pass complete: "@ + decimal(installed as nat)
                + " installed, "@ + decimal(skipped as nat) + " already present, "@ + decimal(
                failed as nat,
            ) + " failed."@,
        ]
    }
}

/// Whether these are the archives of these tools, in this order.
pub open spec fn archives_of(archives: Seq<Seq<char>>, tools: Seq<Seq<char>>) -> bool {
    &&& archives.len() == tools.len()
    &&& forall|i: int| 0 <= i < tools.len() ==> archives[i] == #[trigger] tools[i] + ".tar.gz"@
}

/// Once the root is there, the bundles that were found are unpacked from the media's
/// directory; then the doubly wrapped archives and the tools' own, each from the tools'
/// directory, whatever came of those in front. Without that directory the phase is
/// recorded at once.
pub proof fn law_bundles_then_gtars_then_tools(
    v: CadenceView,
    unpacked_bundles: Result<(), Seq<char>>,
    unpacked_gtars: Result<(), Seq<char>>,
    entries: Option<Seq<EntryView>>,
    names: Seq<Seq<char>>,
)
    requires
        v.wf(),
        v.at == CadenceAt::RootMade,
        archives_of(archives_in(listed(entries), ".tar.gz"@), names),
    ensures
        ({
            let tools = below(v.dir, "TOOLS"@);
            let (filling, fill) = v.after(ReplyView::Done(Ok(())));
            let (seeking, seek) = filling.after(ReplyView::Done(unpacked_bundles));
            let (unwrapping, unwrap) = seeking.after(ReplyView::Flag(true));
            let (listing, list) = unwrapping.after(ReplyView::Done(unpacked_gtars));
            let (state, turn) = listing.after(ReplyView::Listing(entries));
            &&& fill == TurnView {
                log: seq![],
                next: NextView::Do(OpView::CadenceBundles(v.dir, v.bundles)),
            }
            &&& seek == TurnView { log: seq![], next: NextView::Do(OpView::Exists(tools)) }
            &&& seeking.after(ReplyView::Flag(false)).1 == TurnView {
                log: seq!["[WARN] "@ + tools + " not found - installed the bulk bundles only."@],
                next: NextView::Do(OpView::MarkPhase("CADENCE"@)),
            }
            &&& unwrap == TurnView { log: seq![], next: NextView::Do(OpView::GtarArchives(tools)) }
            &&& list == TurnView { log: seq![], next: NextView::Do(OpView::ListDir(tools)) }
            &&& turn == TurnView {
                log: (if names.len() == 0 {
                    seq!["[WARN] No .tar.gz archives found under "@ + tools + "."@]
                } else {
                    seq![]
                }) + counts_shown(names, 0, 0, 0, 0),
                next: NextView::Do(turn_of_tool(names, 0)),
            }
            &&& archives_of(state.archives, names)
            &&& state.next == 0
            &&& state.dir == v.dir
            &&& names.len() > 0 ==> state.at == CadenceAt::MarkFound
        }),
{
    if names.len() > 0 {
        crate::archives::law_archive_holds_its_tool(names[0]);
    } else {
        let warning = seq![
            "[WARN] No .tar.gz archives found under "@ + below(v.dir, "TOOLS"@) + "."@,
        ];
        assert(warning + counts_shown(names, 0, 0, 0, 0) =~= warning.push(
            crate::cadence::summary(0, 0, 0),
        ));
    }
}

/// Whether the second state is at the archive behind that of the first, or behind the
/// last.
pub open spec fn goes_on(v: CadenceView, w: CadenceView) -> bool {
    &&& w.next == v.next + 1
    &&& w.archives == v.archives
    &&& w.dir == v.dir
    &&& w.at == (if w.next < w.archives.len() {
        CadenceAt::MarkFound
    } else {
        CadenceAt::Recorded
    })
}

/// Each archive is seen to in turn: a tool that is there and bears no mark is skipped;
/// any other is unpacked below the tools' root and loses its mark if that succeeded.
/// However it ended, the outcome is counted and told, and the next archive has its turn.
pub proof fn law_course_of_an_archive(
    v: CadenceView,
    tools: Seq<Seq<char>>,
    marked: bool,
    found: bool,
    end: ProcessEndView,
    unmarked: Result<(), Seq<char>>,
)
    requires
        v.wf(),
        v.at == CadenceAt::MarkFound,
        archives_of(v.archives, tools),
    ensures
        ({
            let tool = tools[v.next];
            let archive = tool + ".tar.gz"@;
            let place = place_of(tool);
            let next = NextView::Do(turn_of_tool(tools, v.next + 1));
            let (looking, look) = v.after(ReplyView::Flag(marked));
            let (seen, turn) = looking.after(ReplyView::Flag(found));
            let (removing, remove) = seen.after(ReplyView::Ended(end));
            let (done, tell) = removing.after(ReplyView::Done(unmarked));
            &&& look == TurnView { log: seq![], next: NextView::Do(OpView::Exists(place)) }
            &&& found && !marked ==> {
                &&& turn == TurnView {
                    log: seq!["[INFO] "@ + tool + " already installed at "@ + place
                        + " - skipping."@] + counts_shown(
                        tools,
                        v.next + 1,
                        v.installed,
                        v.skipped + 1,
                        v.failed,
                    ),
                    next,
                }
                &&& goes_on(v, seen)
            }
            &&& !found || marked ==> {
                &&& turn == TurnView {
                    log: seq![
                        if marked {
                            "[INFO] "@ + tool
                                + " came from a bulk bundle - overwriting it with TOOLS/"@
                                + archive + "..."@
                        } else {
                            "[INFO] Extracting "@ + archive + " -> "@ + place + "..."@
                        },
                    ],
                    next: NextView::Do(
                        OpView::Status(
                            CommandView {
                                program: "tar"@,
                                args: seq![
                                    "-xf"@,
                                    below(below(v.dir, "TOOLS"@), archive),
                                    "-C"@,
                                    "/opt/cadence"@,
                                ],
                            },
                        ),
                    ),
                }
                &&& end == ProcessEndView::Exited(Some(0i32)) ==> {
                    &&& remove == TurnView {
                        log: seq![],
                        next: NextView::Do(OpView::RemoveFile(mark_of(tool))),
                    }
                    &&& tell == TurnView {
                        log: seq!["[SUCCESS] "@ + tool + " installed."@] + counts_shown(
                            tools,
                            v.next + 1,
                            v.installed + 1,
                            v.skipped,
                            v.failed,
                        ),
                        next,
                    }
                    &&& goes_on(v, done)
                }
                &&& end != ProcessEndView::Exited(Some(0i32)) ==> {
                    &&& remove == TurnView {
                        log: seq!["[ERROR] Failed to extract "@ + archive + ": "@ + unpacked(
                            end,
                        )->Err_0] + counts_shown(
                            tools,
                            v.next + 1,
                            v.installed,
                            v.skipped,
                            v.failed + 1,
                        ),
                        next,
                    }
                    &&& goes_on(v, removing)
                }
            }
        }),
{
    let tool = tools[v.next];
    crate::archives::law_archive_holds_its_tool(tool);
    if v.next + 1 < tools.len() {
        crate::archives::law_archive_holds_its_tool(tools[v.next + 1]);
    }
    let none = Seq::<Seq<char>>::empty();
    assert forall|line: Seq<char>| #[trigger] (seq![line] + none) =~= seq![line] by {}
    assert forall|line: Seq<char>, last: Seq<char>| #[trigger]
        (seq![line] + seq![last]) =~= seq![line].push(last) by {}
    assert(tool_of(v.archives[v.next]) == tool);
}

/// Behind the record of the phase comes the environment of Cadence, and then the end,
/// whatever came of the environment. A phase that cannot be recorded is a failure.
pub proof fn law_cadence_ends_behind_its_record(
    v: CadenceView,
    reply: ReplyView,
    refreshed: Result<(), Seq<char>>,
    e: Seq<char>,
)
    requires
        v.after(reply).1.next matches NextView::Do(OpView::MarkPhase(_)),
    ensures
        ({
            let recording = v.after(reply).0;
            let (refreshing, refresh) = recording.after(ReplyView::Done(Ok(())));
            &&& v.after(reply).1.next == NextView::Do(OpView::MarkPhase("CADENCE"@))
            &&& recording.after(ReplyView::Done(Err(e))).1 == TurnView {
                log: seq![],
                next: NextView::Finish(ReplyView::Installed(InstallationView::Failed(e))),
            }
            &&& refresh == TurnView {
                log: seq![],
                next: NextView::Do(OpView::RecreateEnv("cadence"@)),
            }
            &&& refreshing.after(ReplyView::Done(refreshed)).1 == TurnView {
                log: seq!["[SUCCESS] Cadence installation complete."@],
                next: NextView::Finish(ReplyView::Installed(InstallationView::Complete)),
            }
        }),
{
}

} // verus!
