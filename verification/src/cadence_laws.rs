//! What the installation of the Cadence tools keeps to, whatever the machine answers.

use vstd::prelude::*;

use crate::archives::{marker_of, tool_dir, tool_of, tools_root};
use crate::cadence::{CadenceAt, CadenceView};
use crate::exchange::{InstallationView, NextView, OpView, ProcessEndView, ReplyView};
use crate::path::below;

verus! {

/// The installation fails if and only if there are no media, the tools' root cannot be
/// created or the phase cannot be recorded. Archives that cannot be unpacked do not
/// make it fail.
pub proof fn law_cadence_failures(v: CadenceView, reply: ReplyView)
    requires
        v.waits() == reply.kind(),
    ensures
        (v.after(reply).1.next matches NextView::Finish(ReplyView::Installed(i)) && i.outcome()
            is Err) <==> {
            ||| v.at == CadenceAt::Found && reply == ReplyView::Flag(false)
            ||| v.at == CadenceAt::ToolsFound && reply == ReplyView::Flag(false) && v.bundles.len()
                == 0
            ||| v.at == CadenceAt::RootMade && !reply.is_ok()
            ||| v.at == CadenceAt::Recorded && !reply.is_ok()
        },
{
}

/// The tools are unavailable if and only if there are no media: no directory of their
/// own, or one without tools' archives and without bundles.
pub proof fn law_missing_cadence_media_are_told_apart(v: CadenceView, reply: ReplyView)
    requires
        v.waits() == reply.kind(),
    ensures
        (v.after(reply).1.next matches NextView::Finish(
            ReplyView::Installed(InstallationView::Unavailable(_)),
        )) <==> {
            ||| v.at == CadenceAt::Found && reply == ReplyView::Flag(false)
            ||| v.at == CadenceAt::ToolsFound && reply == ReplyView::Flag(false) && v.bundles.len()
                == 0
        },
{
}

/// A tool that is installed and not marked is skipped: its archive is not unpacked.
pub proof fn law_installed_tool_is_skipped(v: CadenceView)
    requires
        v.wf(),
        v.at == CadenceAt::ToolFound,
        !v.marked,
    ensures
        ({
            let (state, turn) = v.after(ReplyView::Flag(true));
            &&& state.skipped == v.skipped + 1
            &&& state.next == v.next + 1
            &&& !(turn.next matches NextView::Do(OpView::Status(_)))
        }),
{
}

/// A tool that is marked or missing is unpacked from its archive.
pub proof fn law_other_tools_are_unpacked(v: CadenceView, found: bool)
    requires
        v.wf(),
        v.at == CadenceAt::ToolFound,
        v.marked || !found,
    ensures
        v.after(ReplyView::Flag(found)).1.next == NextView::Do(
            OpView::Status(
                crate::archives::unpack_command(below(v.tools(), v.archive()), tools_root()),
            ),
        ),
{
}

/// A mark is removed only from the tool whose archive has just been unpacked.
pub proof fn law_mark_goes_with_success(v: CadenceView, reply: ReplyView)
    requires
        v.waits() == reply.kind(),
    ensures
        v.after(reply).1.next matches NextView::Do(OpView::RemoveFile(file)) ==> {
            &&& v.at == CadenceAt::Unpacked
            &&& reply == ReplyView::Ended(ProcessEndView::Exited(Some(0i32)))
            &&& file == marker_of(v.dest())
        },
{
}

/// An archive that cannot be unpacked is counted, and the one behind it gets its turn.
pub proof fn law_failed_archive_stops_nothing(v: CadenceView, reply: ReplyView)
    requires
        v.wf(),
        v.at == CadenceAt::Unpacked,
        v.waits() == reply.kind(),
        reply->Ended_0 != ProcessEndView::Exited(Some(0i32)),
    ensures
        ({
            let (state, turn) = v.after(reply);
            &&& state.failed == v.failed + 1
            &&& turn.next == NextView::Do(
                if v.next + 1 < v.archives.len() {
                    OpView::Exists(marker_of(tool_dir(tool_of(v.archives[v.next + 1]))))
                } else {
                    OpView::MarkPhase("CADENCE"@)
                },
            )
        }),
{
}

/// How far the installation has come.
pub open spec fn stage(at: CadenceAt) -> int {
    match at {
        CadenceAt::Start => 0,
        CadenceAt::Found => 1,
        CadenceAt::BundlesListed => 2,
        CadenceAt::ToolsFound => 3,
        CadenceAt::RootMade => 4,
        CadenceAt::BundlesDone => 5,
        CadenceAt::ToolsFoundAgain => 6,
        CadenceAt::GtarsDone => 7,
        CadenceAt::ArchivesListed => 8,
        CadenceAt::MarkFound => 9,
        CadenceAt::ToolFound => 9,
        CadenceAt::Unpacked => 9,
        CadenceAt::Unmarked => 9,
        CadenceAt::Recorded => 10,
        CadenceAt::Refreshed => 11,
        CadenceAt::Over => 12,
    }
}

/// The bundles go in before any tool's own archive does: the installation never goes
/// back, and what it asks for belongs to the stage it is at.
pub proof fn law_bundles_come_first(v: CadenceView, reply: ReplyView)
    requires
        v.waits() == reply.kind(),
    ensures
        stage(v.after(reply).0.at) >= stage(v.at),
        v.after(reply).1.next matches NextView::Do(OpView::CadenceBundles(_, _)) ==> stage(v.at)
            < stage(CadenceAt::BundlesDone),
        v.after(reply).1.next matches NextView::Do(OpView::GtarArchives(_)) ==> stage(v.at)
            > stage(CadenceAt::BundlesDone),
        v.after(reply).1.next matches NextView::Do(OpView::Status(_)) ==> stage(v.at) > stage(
            CadenceAt::GtarsDone,
        ),
{
}

/// Whether an archive's tool has a name that is a file's name.
pub open spec fn plain_tool(archive: Seq<char>) -> bool {
    let tool = tool_of(archive);
    tool.len() > 0 && !tool.contains('/')
}

/// What an archive leads to on a machine with these paths on which every archive can
/// be unpacked and holds a directory of its own name: the state behind it, and the
/// paths.
pub open spec fn seen_to(v: CadenceView, paths: Set<Seq<char>>) -> (CadenceView, Set<Seq<char>>) {
    let asked = v.after(ReplyView::Flag(paths.contains(marker_of(v.dest())))).0;
    let decided = asked.after(ReplyView::Flag(paths.contains(v.dest()))).0;
    if decided.at == CadenceAt::Unpacked {
        let done = decided.after(ReplyView::Ended(ProcessEndView::Exited(Some(0i32)))).0;
        (
            done.after(ReplyView::Done(Ok(()))).0,
            paths.insert(v.dest()).remove(marker_of(v.dest())),
        )
    } else {
        (decided, paths)
    }
}

/// What the archives from the one that is being looked at lead to on such a machine.
pub open spec fn pass(v: CadenceView, paths: Set<Seq<char>>) -> (CadenceView, Set<Seq<char>>)
    decreases v.archives.len() - v.next,
{
    if v.at == CadenceAt::MarkFound && v.next < v.archives.len() {
        let (state, left) = seen_to(v, paths);
        pass(state, left)
    } else {
        (v, paths)
    }
}

/// A tool's place is no tool's mark.
proof fn lemma_marks_are_no_tools(a: Seq<char>, b: Seq<char>)
    requires
        plain_tool(a),
        plain_tool(b),
    ensures
        tool_dir(tool_of(b)) != marker_of(tool_dir(tool_of(a))),
{
    reveal_strlit("/opt/cadence");
    reveal_strlit(".c2s-from-bundle");
    reveal_strlit("/");
    let x = tool_of(a);
    let y = tool_of(b);
    let root = "/opt/cadence"@ + "/"@;
    assert(x.contains(x[0]));
    assert(y.contains(y[0]));
    assert(x.contains(x.last()));
    assert(tool_dir(x) == root + x);
    assert(tool_dir(y) == root + y);
    assert(tool_dir(x).last() == x.last());
    let mark = root + x + "/"@ + ".c2s-from-bundle"@;
    assert(marker_of(tool_dir(x)) == mark);
    if root + y == mark {
        let i = root.len() as int + x.len() as int;
        assert(mark[i] == '/');
        assert((root + y)[i] == y[i - root.len()]);
        assert(y.contains(y[i - root.len()]));
    }
}

/// Whether every archive in front of position `n` has its tool in place and unmarked.
pub open spec fn in_place(archives: Seq<Seq<char>>, n: int, paths: Set<Seq<char>>) -> bool {
    forall|i: int| #![trigger archives[i]]
        0 <= i < n ==> paths.contains(tool_dir(tool_of(archives[i]))) && !paths.contains(
            marker_of(tool_dir(tool_of(archives[i]))),
        )
}

proof fn lemma_pass(v: CadenceView, paths: Set<Seq<char>>)
    requires
        v.wf(),
        v.at == CadenceAt::MarkFound || (v.at == CadenceAt::Recorded && v.next
            == v.archives.len()),
        v.failed == 0,
        forall|i: int| 0 <= i < v.archives.len() ==> plain_tool(#[trigger] v.archives[i]),
        in_place(v.archives, v.next, paths),
    ensures
        ({
            let (state, left) = pass(v, paths);
            &&& state.at == CadenceAt::Recorded
            &&& state.failed == 0
            &&& state.installed + state.skipped == v.archives.len()
            &&& in_place(v.archives, v.archives.len() as int, left)
        }),
    decreases v.archives.len() - v.next,
{
    if v.at == CadenceAt::MarkFound {
        let (state, left) = seen_to(v, paths);
        let here = v.dest();
        lemma_marks_are_no_tools(v.archive(), v.archive());
        assert forall|i: int| #![trigger v.archives[i]] 0 <= i < v.next + 1 implies left.contains(
            tool_dir(tool_of(v.archives[i])),
        ) && !left.contains(marker_of(tool_dir(tool_of(v.archives[i])))) by {
            lemma_marks_are_no_tools(v.archive(), v.archives[i]);
            lemma_marks_are_no_tools(v.archives[i], v.archive());
        }
        lemma_pass(state, left);
    }
}

/// On a machine on which every archive can be unpacked, each archive's tool is in place
/// and unmarked behind the pass, and none has failed.
pub proof fn law_pass_puts_all_tools_in_place(v: CadenceView, paths: Set<Seq<char>>)
    requires
        v.wf(),
        v.at == CadenceAt::MarkFound,
        v.next == 0,
        forall|i: int| 0 <= i < v.archives.len() ==> plain_tool(#[trigger] v.archives[i]),
    ensures
        ({
            let (state, left) = pass(v, paths);
            &&& state.at == CadenceAt::Recorded
            &&& state.failed == 0
            &&& state.installed + state.skipped == v.archives.len()
            &&& in_place(v.archives, v.archives.len() as int, left)
        }),
{
    lemma_pass(v, paths);
}

proof fn lemma_second_pass(v: CadenceView, paths: Set<Seq<char>>)
    requires
        v.wf(),
        v.at == CadenceAt::MarkFound || (v.at == CadenceAt::Recorded && v.next
            == v.archives.len()),
        v.skipped == v.next,
        in_place(v.archives, v.archives.len() as int, paths),
    ensures
        pass(v, paths).1 == paths,
        pass(v, paths).0.skipped == v.archives.len(),
    decreases v.archives.len() - v.next,
{
    if v.at == CadenceAt::MarkFound {
        assert(v.archives[v.next] == v.archive());
        let (state, left) = seen_to(v, paths);
        lemma_second_pass(state, left);
    }
}

/// Where every tool is in place and unmarked, a pass unpacks nothing: every tool is
/// skipped and nothing on the machine changes.
pub proof fn law_pass_over_installed_tools_changes_nothing(v: CadenceView, paths: Set<Seq<char>>)
    requires
        v.wf(),
        v.at == CadenceAt::MarkFound,
        v.next == 0,
        in_place(v.archives, v.archives.len() as int, paths),
    ensures
        pass(v, paths).1 == paths,
        pass(v, paths).0.skipped == v.archives.len(),
        pass(v, paths).0.installed == 0,
        pass(v, paths).0.failed == 0,
{
    lemma_second_pass(v, paths);
    lemma_counts(v, paths);
}

proof fn lemma_counts(v: CadenceView, paths: Set<Seq<char>>)
    requires
        v.wf(),
        v.at == CadenceAt::MarkFound || v.at == CadenceAt::Recorded,
    ensures
        pass(v, paths).0.wf(),
        pass(v, paths).0.archives == v.archives,
    decreases v.archives.len() - v.next,
{
    if v.at == CadenceAt::MarkFound {
        let (state, left) = seen_to(v, paths);
        lemma_counts(state, left);
    }
}

/// A second pass over the same archives changes nothing that the first left.
pub proof fn law_second_pass_changes_nothing(v: CadenceView, paths: Set<Seq<char>>)
    requires
        v.wf(),
        v.at == CadenceAt::MarkFound,
        v.next == 0,
        forall|i: int| 0 <= i < v.archives.len() ==> plain_tool(#[trigger] v.archives[i]),
    ensures
        pass(v, pass(v, paths).1).1 == pass(v, paths).1,
        pass(v, pass(v, paths).1).0.skipped == v.archives.len(),
{
    law_pass_puts_all_tools_in_place(v, paths);
    law_pass_over_installed_tools_changes_nothing(v, pass(v, paths).1);
}

/// The mark that a bundle leaves in a tool's directory is the one that is looked for
/// before the tool's own archive is unpacked.
pub proof fn law_mark_of_the_bundle_is_looked_for(v: CadenceView, tool: Seq<char>)
    requires
        0 <= v.next < v.archives.len(),
        v.archive() == tool + ".tar.gz"@,
    ensures
        v.proceed(seq![]).1.next == NextView::Do(OpView::Exists(marker_of(tool_dir(tool)))),
{
    crate::archives::law_archive_holds_its_tool(tool);
}

} // verus!
