//! A whole installation of the Cadence tools on a machine that has them: nothing is
//! unpacked, and nothing is changed.

use vstd::prelude::*;

use crate::archives::{archives_in, gtar_target, gtars_in, marker_of, tool_dir, tool_of, tools_root};
use crate::bundles::{stamp_dir, stamp_of, BundlesAt, BundlesView};
use crate::cadence::{cadence_start, summary, CadenceAt, CadenceView};
use crate::exchange::{listed, EntryView, InstallationView, NextView, OpView, ReplyView};
use crate::gtar::{GtarAt, GtarView, GtarsView};
use crate::path::below;
use crate::session::{called, ProcedureView, SessionView, SiteView, TodoView};

verus! {

/// What stands on a machine: the paths that exist, and the entries of the directories
/// that can be read.
pub struct Disk {
    pub paths: Set<Seq<char>>,
    pub entries: Map<Seq<char>, Seq<EntryView>>,
}

impl Disk {
    /// The entries of a directory, where it can be read.
    pub open spec fn listing(self, dir: Seq<char>) -> Option<Seq<EntryView>> {
        if self.entries.contains_key(dir) {
            Some(self.entries[dir])
        } else {
            None
        }
    }
}

/// The machine's reply to a request that leaves media and tools as they are: to look at a
/// path or a directory, to create a directory that exists, to record a phase and to
/// write a tool's environment. There is none to any other request: no program is run,
/// no file is written, and nothing is renamed or removed.
pub open spec fn quiet_reply(op: OpView, disk: Disk) -> Option<ReplyView> {
    match op {
        OpView::Exists(p) => Some(ReplyView::Flag(disk.paths.contains(p))),
        OpView::ListDir(p) => Some(ReplyView::Listing(disk.listing(p))),
        OpView::CreateDir(p) => if disk.paths.contains(p) {
            Some(ReplyView::Done(Ok(())))
        } else {
            None
        },
        OpView::MarkPhase(_) => Some(ReplyView::Done(Ok(()))),
        OpView::RecreateEnv(_) => Some(ReplyView::Done(Ok(()))),
        _ => None,
    }
}

/// What a session comes to within `turns` turns on a machine on which nothing changes:
/// its log and its result. There is nothing where it takes more turns, or where it asks
/// for anything that would change the machine.
pub open spec fn played(
    s: SessionView,
    reply: ReplyView,
    site: SiteView,
    disk: Disk,
    turns: nat,
) -> Option<(Seq<Seq<char>>, ReplyView)>
    decreases turns,
{
    if turns == 0 {
        None
    } else {
        let (state, log, todo) = s.after(reply, site);
        let next = match todo {
            TodoView::Done(_) => None,
            TodoView::Resume(r) => Some(r),
            TodoView::Perform(op) => quiet_reply(op, disk),
        };
        match next {
            None => if todo is Done {
                Some((log, todo->Done_0))
            } else {
                None
            },
            Some(r) => match played(state, r, site, disk, (turns - 1) as nat) {
                None => None,
                Some(rest) => Some((log + rest.0, rest.1)),
            },
        }
    }
}

/// Whether a session completes on a machine on which nothing changes, with `line` in its
/// log where one is given.
pub open spec fn completes(
    s: SessionView,
    reply: ReplyView,
    site: SiteView,
    disk: Disk,
    line: Option<Seq<char>>,
) -> bool {
    exists|turns: nat|
        {
            &&& (#[trigger] played(s, reply, site, disk, turns)) is Some
            &&& (played(s, reply, site, disk, turns)->Some_0).1 == ReplyView::Installed(
                InstallationView::Complete,
            )
            &&& line matches Some(l) ==> (played(
                s,
                reply,
                site,
                disk,
                turns,
            )->Some_0).0.contains(l)
        }
}

/// A session in which `p` runs and `w` waits.
pub open spec fn running(w: Seq<ProcedureView>, p: ProcedureView) -> SessionView {
    SessionView { stack: w.push(p) }
}

/// One turn that does not end the session.
proof fn lemma_turn(
    s: SessionView,
    reply: ReplyView,
    site: SiteView,
    disk: Disk,
    next: ReplyView,
    line: Option<Seq<char>>,
)
    requires
        match s.after(reply, site).2 {
            TodoView::Done(_) => false,
            TodoView::Resume(r) => r == next,
            TodoView::Perform(op) => quiet_reply(op, disk) == Some(next),
        },
        completes(s.after(reply, site).0, next, site, disk, line),
    ensures
        completes(s, reply, site, disk, line),
{
    let state = s.after(reply, site).0;
    let log = s.after(reply, site).1;
    let t = choose|turns: nat|
        {
            &&& (#[trigger] played(state, next, site, disk, turns)) is Some
            &&& (played(state, next, site, disk, turns)->Some_0).1 == ReplyView::Installed(
                InstallationView::Complete,
            )
            &&& line matches Some(l) ==> (played(
                state,
                next,
                site,
                disk,
                turns,
            )->Some_0).0.contains(l)
        };
    let rest = played(state, next, site, disk, t)->Some_0;
    let whole = played(s, reply, site, disk, t + 1);
    assert(whole == Some((log + rest.0, rest.1)));
    if let Some(l) = line {
        let k = choose|k: int| 0 <= k < rest.0.len() && rest.0[k] == l;
        assert((log + rest.0)[log.len() + k] == l);
    }
}

/// One turn that says the line and does not end the session.
proof fn lemma_saying_turn(
    s: SessionView,
    reply: ReplyView,
    site: SiteView,
    disk: Disk,
    next: ReplyView,
    line: Seq<char>,
)
    requires
        match s.after(reply, site).2 {
            TodoView::Done(_) => false,
            TodoView::Resume(r) => r == next,
            TodoView::Perform(op) => quiet_reply(op, disk) == Some(next),
        },
        completes(s.after(reply, site).0, next, site, disk, None),
        s.after(reply, site).1.contains(line),
    ensures
        completes(s, reply, site, disk, Some(line)),
{
    let state = s.after(reply, site).0;
    let log = s.after(reply, site).1;
    let t = choose|turns: nat|
        {
            &&& (#[trigger] played(state, next, site, disk, turns)) is Some
            &&& (played(state, next, site, disk, turns)->Some_0).1 == ReplyView::Installed(
                InstallationView::Complete,
            )
        };
    let rest = played(state, next, site, disk, t)->Some_0;
    assert(played(s, reply, site, disk, t + 1) == Some((log + rest.0, rest.1)));
    let k = choose|k: int| 0 <= k < log.len() && log[k] == line;
    assert((log + rest.0)[k] == line);
}

/// A request to the machine.
proof fn lemma_perform(
    w: Seq<ProcedureView>,
    p: ProcedureView,
    reply: ReplyView,
    site: SiteView,
    disk: Disk,
    op: OpView,
    line: Option<Seq<char>>,
)
    requires
        p.after(reply).1.next == NextView::Do(op),
        called(op, site) is None,
        quiet_reply(op, disk) is Some,
        completes(
            running(w, p.after(reply).0),
            quiet_reply(op, disk)->Some_0,
            site,
            disk,
            line,
        ),
    ensures
        completes(running(w, p), reply, site, disk, line),
{
    let s = running(w, p);
    assert(s.stack.drop_last() =~= w);
    lemma_turn(s, reply, site, disk, quiet_reply(op, disk)->Some_0, line);
}

/// A call of a procedure.
proof fn lemma_call(
    w: Seq<ProcedureView>,
    p: ProcedureView,
    reply: ReplyView,
    site: SiteView,
    disk: Disk,
    op: OpView,
    line: Option<Seq<char>>,
)
    requires
        p.after(reply).1.next == NextView::Do(op),
        called(op, site) is Some,
        completes(
            running(w.push(p.after(reply).0), called(op, site)->Some_0),
            ReplyView::Start,
            site,
            disk,
            line,
        ),
    ensures
        completes(running(w, p), reply, site, disk, line),
{
    let s = running(w, p);
    assert(s.stack.drop_last() =~= w);
    lemma_turn(s, reply, site, disk, ReplyView::Start, line);
}

/// The end of a procedure that was called.
proof fn lemma_return(
    w: Seq<ProcedureView>,
    c: ProcedureView,
    p: ProcedureView,
    reply: ReplyView,
    site: SiteView,
    disk: Disk,
    line: Option<Seq<char>>,
)
    requires
        p.after(reply).1.next is Finish,
        completes(running(w, c), p.after(reply).1.next->Finish_0, site, disk, line),
    ensures
        completes(running(w.push(c), p), reply, site, disk, line),
{
    let s = running(w.push(c), p);
    assert(s.stack.drop_last() =~= w.push(c));
    lemma_turn(s, reply, site, disk, p.after(reply).1.next->Finish_0, line);
}

/// The record of the phase, and what follows it.
proof fn lemma_recorded(v: CadenceView, site: SiteView, disk: Disk)
    requires
        v.at == CadenceAt::Recorded,
    ensures
        completes(
            running(seq![], ProcedureView::Cadence(v)),
            ReplyView::Done(Ok(())),
            site,
            disk,
            None,
        ),
{
    let refreshed = v.after(ReplyView::Done(Ok(()))).0;
    let last = running(seq![], ProcedureView::Cadence(refreshed));
    assert(last.stack.drop_last() =~= seq![]);
    assert(played(last, ReplyView::Done(Ok(())), site, disk, 1) is Some) by {
        reveal_with_fuel(played, 2);
    }
    assert(completes(last, ReplyView::Done(Ok(())), site, disk, None));
    lemma_perform(
        seq![],
        ProcedureView::Cadence(v),
        ReplyView::Done(Ok(())),
        site,
        disk,
        OpView::RecreateEnv("cadence"@),
        None,
    );
}

/// Whether a tool is in place and not marked as coming from a bundle.
pub open spec fn settled(tool: Seq<char>, disk: Disk) -> bool {
    disk.paths.contains(tool_dir(tool)) && !disk.paths.contains(marker_of(tool_dir(tool)))
}

/// A turn that goes on to the archive at `next`, or to the record behind the last.
proof fn lemma_proceed(
    before: CadenceView,
    reply: ReplyView,
    v: CadenceView,
    log: Seq<Seq<char>>,
    site: SiteView,
    disk: Disk,
)
    requires
        before.after(reply) == v.proceed(log),
        0 <= v.next <= v.archives.len(),
        v.installed == 0,
        v.failed == 0,
        v.skipped == v.next,
        forall|i: int|
            0 <= i < v.archives.len() ==> settled(tool_of(#[trigger] v.archives[i]), disk),
    ensures
        completes(
            running(seq![], ProcedureView::Cadence(before)),
            reply,
            site,
            disk,
            Some(summary(0, v.archives.len(), 0)),
        ),
    decreases v.archives.len() - v.next,
{
    let line = summary(0, v.archives.len(), 0);
    let p = ProcedureView::Cadence(before);
    if v.next < v.archives.len() {
        assert(settled(tool_of(v.archives[v.next]), disk));
        let asked = before.after(reply).0;
        let marked = ReplyView::Flag(false);
        let found = asked.after(marked).0;
        let next = CadenceView { skipped: found.skipped + 1, next: found.next + 1, ..found };
        let skip = seq![
            "[INFO] "@ + found.tool() + " already installed at "@ + found.dest() + " - skipping."@,
        ];
        assert(found.after(ReplyView::Flag(true)) == next.proceed(skip));
        lemma_proceed(found, ReplyView::Flag(true), next, skip, site, disk);
        lemma_perform(
            seq![],
            ProcedureView::Cadence(asked),
            marked,
            site,
            disk,
            OpView::Exists(v.dest()),
            Some(line),
        );
        lemma_perform(
            seq![],
            p,
            reply,
            site,
            disk,
            OpView::Exists(marker_of(v.dest())),
            Some(line),
        );
    } else {
        let s = running(seq![], p);
        let recorded = before.after(reply).0;
        lemma_recorded(recorded, site, disk);
        assert(s.stack.drop_last() =~= seq![]);
        assert(before.after(reply).1.log == log.push(line));
        assert(log.push(line)[log.len() as int] == line);
        assert(s.after(reply, site).0 == running(seq![], ProcedureView::Cadence(recorded)));
        lemma_saying_turn(s, reply, site, disk, ReplyView::Done(Ok(())), line);
    }
}

/// The bundles from the one at `next` on, all of which have their stamps.
proof fn lemma_bundles(
    c: ProcedureView,
    before: BundlesView,
    reply: ReplyView,
    v: BundlesView,
    log: Seq<Seq<char>>,
    site: SiteView,
    disk: Disk,
    line: Option<Seq<char>>,
)
    requires
        before.after(reply) == v.proceed(log),
        0 <= v.next <= v.names.len(),
        forall|i: int| 0 <= i < v.names.len() ==> disk.paths.contains(stamp_of(#[trigger] v.names[i])),
        completes(running(seq![], c), ReplyView::Done(Ok(())), site, disk, line),
    ensures
        completes(
            running(seq![c], ProcedureView::Bundles(before)),
            reply,
            site,
            disk,
            line,
        ),
    decreases v.names.len() - v.next,
{
    let p = ProcedureView::Bundles(before);
    if v.next < v.names.len() {
        assert(disk.paths.contains(stamp_of(v.names[v.next])));
        let asked = before.after(reply).0;
        let next = BundlesView { next: asked.next + 1, ..asked };
        let skip = asked.after(ReplyView::Flag(true)).1.log;
        assert(asked.after(ReplyView::Flag(true)) == next.proceed(skip));
        lemma_bundles(c, asked, ReplyView::Flag(true), next, skip, site, disk, line);
        lemma_perform(
            seq![c],
            p,
            reply,
            site,
            disk,
            OpView::Exists(stamp_of(v.name())),
            line,
        );
    } else {
        assert(seq![c] =~= Seq::<ProcedureView>::empty().push(c));
        lemma_return(seq![], c, p, reply, site, disk, line);
    }
}

/// All the bundles, from the call on.
proof fn lemma_all_bundles(
    c: ProcedureView,
    v: BundlesView,
    site: SiteView,
    disk: Disk,
    line: Option<Seq<char>>,
)
    requires
        v.at == BundlesAt::Start,
        v.next == 0,
        forall|i: int| 0 <= i < v.names.len() ==> disk.paths.contains(stamp_of(#[trigger] v.names[i])),
        v.names.len() > 0 ==> disk.paths.contains(stamp_dir()),
        completes(running(seq![], c), ReplyView::Done(Ok(())), site, disk, line),
    ensures
        completes(
            running(seq![c], ProcedureView::Bundles(v)),
            ReplyView::Start,
            site,
            disk,
            line,
        ),
{
    let p = ProcedureView::Bundles(v);
    if v.names.len() == 0 {
        assert(seq![c] =~= Seq::<ProcedureView>::empty().push(c));
        lemma_return(seq![], c, p, ReplyView::Start, site, disk, line);
    } else {
        let ready = v.after(ReplyView::Start).0;
        assert(ready.after(ReplyView::Done(Ok(()))) == ready.proceed(seq![]));
        lemma_bundles(c, ready, ReplyView::Done(Ok(())), ready, seq![], site, disk, line);
        lemma_perform(
            seq![c],
            p,
            ReplyView::Start,
            site,
            disk,
            OpView::CreateDir(stamp_dir()),
            line,
        );
    }
}

/// Whether a doubly wrapped archive has nothing to install: its tool is in place and not
/// marked, or no name can be derived for it.
pub open spec fn gtar_settled(archive: Seq<char>, disk: Disk) -> bool {
    ||| gtar_target(archive).len() == 0
    ||| gtar_target(archive) == archive
    ||| settled(gtar_target(archive), disk)
}

/// One doubly wrapped archive whose tool is in place.
proof fn lemma_gtar(
    w: Seq<ProcedureView>,
    c: ProcedureView,
    v: GtarView,
    site: SiteView,
    disk: Disk,
    line: Option<Seq<char>>,
)
    requires
        v.at == GtarAt::Start,
        gtar_settled(v.name, disk),
        completes(running(w, c), ReplyView::Done(Ok(())), site, disk, line),
    ensures
        completes(
            running(w.push(c), ProcedureView::Gtar(v)),
            ReplyView::Start,
            site,
            disk,
            line,
        ),
{
    let p = ProcedureView::Gtar(v);
    if v.target().len() == 0 || v.target() == v.name {
        lemma_return(w, c, p, ReplyView::Start, site, disk, line);
    } else {
        let found = v.after(ReplyView::Start).0;
        let marked = found.after(ReplyView::Flag(true)).0;
        lemma_return(
            w,
            c,
            ProcedureView::Gtar(marked),
            ReplyView::Flag(false),
            site,
            disk,
            line,
        );
        lemma_perform(
            w.push(c),
            ProcedureView::Gtar(found),
            ReplyView::Flag(true),
            site,
            disk,
            OpView::Exists(marker_of(v.dest())),
            line,
        );
        lemma_perform(
            w.push(c),
            p,
            ReplyView::Start,
            site,
            disk,
            OpView::Exists(v.dest()),
            line,
        );
    }
}

/// The doubly wrapped archives from the one at `next` on.
proof fn lemma_gtars(
    c: ProcedureView,
    before: GtarsView,
    reply: ReplyView,
    v: GtarsView,
    site: SiteView,
    disk: Disk,
    line: Option<Seq<char>>,
)
    requires
        before.after(reply) == v.proceed(),
        0 <= v.next <= v.names.len(),
        forall|i: int| 0 <= i < v.names.len() ==> gtar_settled(#[trigger] v.names[i], disk),
        completes(running(seq![], c), ReplyView::Done(Ok(())), site, disk, line),
    ensures
        completes(running(seq![c], ProcedureView::Gtars(before)), reply, site, disk, line),
    decreases v.names.len() - v.next,
{
    let p = ProcedureView::Gtars(before);
    if v.next < v.names.len() {
        assert(gtar_settled(v.names[v.next], disk));
        let waiting = before.after(reply).0;
        let op = OpView::GtarArchive(v.dir, v.names[v.next]);
        let callee = called(op, site)->Some_0->Gtar_0;
        assert(waiting.after(ReplyView::Done(Ok(()))) == waiting.proceed());
        lemma_gtars(c, waiting, ReplyView::Done(Ok(())), waiting, site, disk, line);
        lemma_gtar(seq![c], ProcedureView::Gtars(waiting), callee, site, disk, line);
        lemma_call(seq![c], p, reply, site, disk, op, line);
    } else {
        assert(seq![c] =~= Seq::<ProcedureView>::empty().push(c));
        lemma_return(seq![], c, p, reply, site, disk, line);
    }
}

/// Whether the media in `dir` have nothing to install on a machine: every bundle has its
/// stamp, and the tool of every archive is in place and not marked.
pub open spec fn has_all(disk: Disk, dir: Seq<char>) -> bool {
    let bundles = archives_in(listed(disk.listing(dir)), ".tar.gz"@);
    let tools = listed(disk.listing(below(dir, "TOOLS"@)));
    let gtars = gtars_in(tools);
    let archives = archives_in(tools, ".tar.gz"@);
    &&& disk.paths.contains(dir)
    &&& disk.paths.contains(tools_root())
    &&& bundles.len() > 0 ==> disk.paths.contains(stamp_dir())
    &&& forall|i: int|
        0 <= i < bundles.len() ==> disk.paths.contains(stamp_of(#[trigger] bundles[i]))
    &&& forall|i: int| 0 <= i < gtars.len() ==> gtar_settled(#[trigger] gtars[i], disk)
    &&& forall|i: int| 0 <= i < archives.len() ==> settled(tool_of(#[trigger] archives[i]), disk)
}

/// The tools' directory: the doubly wrapped archives, then the others.
proof fn lemma_tools(v: CadenceView, site: SiteView, disk: Disk)
    requires
        v.at == CadenceAt::ToolsFoundAgain,
        has_all(disk, v.dir),
        v.next == 0,
        v.installed == 0,
        v.skipped == 0,
        v.failed == 0,
    ensures
        completes(
            running(seq![], ProcedureView::Cadence(v)),
            ReplyView::Flag(true),
            site,
            disk,
            Some(
                summary(
                    0,
                    archives_in(listed(disk.listing(v.tools())), ".tar.gz"@).len(),
                    0,
                ),
            ),
        ),
{
    let tools = disk.listing(v.tools());
    let archives = archives_in(listed(tools), ".tar.gz"@);
    let line = Some(summary(0, archives.len(), 0));
    let waiting = v.after(ReplyView::Flag(true)).0;
    let c = ProcedureView::Cadence(waiting);
    let looking = waiting.after(ReplyView::Done(Ok(()))).0;
    let filled = CadenceView { archives, ..looking };
    let listing = ReplyView::Listing(tools);
    let log = if archives.len() == 0 {
        seq!["[WARN] No .tar.gz archives found under "@ + looking.tools() + "."@]
    } else {
        seq![]
    };
    assert(looking.after(listing) == filled.proceed(log));
    lemma_proceed(looking, listing, filled, log, site, disk);
    lemma_perform(
        seq![],
        c,
        ReplyView::Done(Ok(())),
        site,
        disk,
        OpView::ListDir(v.tools()),
        line,
    );
    let op = OpView::GtarArchives(v.tools());
    let g = called(op, site)->Some_0->Gtars_0;
    let opened = g.after(ReplyView::Start).0;
    let named = GtarsView { names: gtars_in(listed(tools)), ..opened };
    assert(opened.after(listing) == named.proceed());
    lemma_gtars(c, opened, listing, named, site, disk, line);
    lemma_perform(
        seq![c],
        ProcedureView::Gtars(g),
        ReplyView::Start,
        site,
        disk,
        OpView::ListDir(v.tools()),
        line,
    );
    assert(seq![c] =~= Seq::<ProcedureView>::empty().push(c));
    lemma_call(
        seq![],
        ProcedureView::Cadence(v),
        ReplyView::Flag(true),
        site,
        disk,
        op,
        line,
    );
}

/// From the start to the second look at the tools' directory.
proof fn lemma_up_to_tools(
    dir: Seq<char>,
    site: SiteView,
    disk: Disk,
    second: CadenceView,
    line: Option<Seq<char>>,
)
    requires
        has_all(disk, dir),
        disk.paths.contains(below(dir, "TOOLS"@)) || archives_in(
            listed(disk.listing(dir)),
            ".tar.gz"@,
        ).len() > 0,
        second == (CadenceView {
            bundles: archives_in(listed(disk.listing(dir)), ".tar.gz"@),
            at: CadenceAt::ToolsFoundAgain,
            ..cadence_start(dir)
        }),
        completes(
            running(seq![], ProcedureView::Cadence(second)),
            ReplyView::Flag(disk.paths.contains(below(dir, "TOOLS"@))),
            site,
            disk,
            line,
        ),
    ensures
        completes(
            running(seq![], ProcedureView::Cadence(cadence_start(dir))),
            ReplyView::Start,
            site,
            disk,
            line,
        ),
{
    let start = cadence_start(dir);
    let ok = ReplyView::Done(Ok(()));
    let there = ReplyView::Flag(disk.paths.contains(below(dir, "TOOLS"@)));
    let found = start.after(ReplyView::Start).0;
    let bundled = found.after(ReplyView::Flag(true)).0;
    let listing = ReplyView::Listing(disk.listing(dir));
    let first = bundled.after(listing).0;
    let rooted = first.after(there).0;
    let waiting = rooted.after(ok).0;
    let c = ProcedureView::Cadence(waiting);
    assert(waiting.after(ok).0 == second);
    lemma_perform(seq![], c, ok, site, disk, OpView::Exists(start.tools()), line);
    let op = OpView::CadenceBundles(dir, first.bundles);
    let b = called(op, site)->Some_0->Bundles_0;
    lemma_all_bundles(c, b, site, disk, line);
    assert(seq![c] =~= Seq::<ProcedureView>::empty().push(c));
    lemma_call(seq![], ProcedureView::Cadence(rooted), ok, site, disk, op, line);
    lemma_perform(
        seq![],
        ProcedureView::Cadence(first),
        there,
        site,
        disk,
        OpView::CreateDir(tools_root()),
        line,
    );
    lemma_perform(
        seq![],
        ProcedureView::Cadence(bundled),
        listing,
        site,
        disk,
        OpView::Exists(start.tools()),
        line,
    );
    lemma_perform(
        seq![],
        ProcedureView::Cadence(found),
        ReplyView::Flag(true),
        site,
        disk,
        OpView::ListDir(dir),
        line,
    );
    lemma_perform(
        seq![],
        ProcedureView::Cadence(start),
        ReplyView::Start,
        site,
        disk,
        OpView::Exists(dir),
        line,
    );
}

/// An installation of the Cadence tools on a machine that has them all asks for nothing
/// that would change the machine, completes, and counts every archive as already
/// present: none is installed and none fails.
pub proof fn law_second_installation_changes_nothing(dir: Seq<char>, site: SiteView, disk: Disk)
    requires
        has_all(disk, dir),
        disk.paths.contains(below(dir, "TOOLS"@)),
    ensures
        completes(
            SessionView { stack: seq![ProcedureView::Cadence(cadence_start(dir))] },
            ReplyView::Start,
            site,
            disk,
            Some(
                summary(
                    0,
                    archives_in(listed(disk.listing(below(dir, "TOOLS"@))), ".tar.gz"@).len(),
                    0,
                ),
            ),
        ),
{
    let second = CadenceView {
        bundles: archives_in(listed(disk.listing(dir)), ".tar.gz"@),
        at: CadenceAt::ToolsFoundAgain,
        ..cadence_start(dir)
    };
    let line = Some(
        summary(
            0,
            archives_in(listed(disk.listing(below(dir, "TOOLS"@))), ".tar.gz"@).len(),
            0,
        ),
    );
    lemma_tools(second, site, disk);
    lemma_up_to_tools(dir, site, disk, second, line);
    assert(seq![ProcedureView::Cadence(cadence_start(dir))] =~= Seq::empty().push(
        ProcedureView::Cadence(cadence_start(dir)),
    ));
}

/// The same holds where there are bundles and no directory of tools: nothing is changed,
/// and the installation completes.
pub proof fn law_second_installation_of_bundles_changes_nothing(
    dir: Seq<char>,
    site: SiteView,
    disk: Disk,
)
    requires
        has_all(disk, dir),
        !disk.paths.contains(below(dir, "TOOLS"@)),
        archives_in(listed(disk.listing(dir)), ".tar.gz"@).len() > 0,
    ensures
        completes(
            SessionView { stack: seq![ProcedureView::Cadence(cadence_start(dir))] },
            ReplyView::Start,
            site,
            disk,
            None,
        ),
{
    let second = CadenceView {
        bundles: archives_in(listed(disk.listing(dir)), ".tar.gz"@),
        at: CadenceAt::ToolsFoundAgain,
        ..cadence_start(dir)
    };
    let recorded = second.after(ReplyView::Flag(false)).0;
    lemma_recorded(recorded, site, disk);
    lemma_perform(
        seq![],
        ProcedureView::Cadence(second),
        ReplyView::Flag(false),
        site,
        disk,
        OpView::MarkPhase("CADENCE"@),
        None,
    );
    lemma_up_to_tools(dir, site, disk, second, None);
    assert(seq![ProcedureView::Cadence(cadence_start(dir))] =~= Seq::empty().push(
        ProcedureView::Cadence(cadence_start(dir)),
    ));
}

} // verus!
