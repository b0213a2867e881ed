//! Unpacking the bulk bundles, which only ever fill in what is missing.

use vstd::prelude::*;

use crate::archives::{
    appeared, dir_names, dirs_in, extract_bundle, fill_command, marker_of, marker_path, new_names,
    tool_dir, tool_path, tools_root, unpacked, unpacking_result,
};
use crate::exchange::{
    ask, list0, list1, listed, succeed, turn_ask, turn_succeed, EntryView, NextView, Op, OpView,
    ProcessEndView, Reply, ReplyKind, ReplyView, Turn, TurnView,
};
use crate::number::{decimal, decimal_text};
use crate::path::{below, join_path};
use crate::text::{join, joined, texts};

verus! {

/// Where the stamps are kept of the bundles that have been unpacked.
pub open spec fn stamp_dir() -> Seq<char> {
    below(tools_root(), ".c2s-bundles"@)
}

/// The stamp of a bundle.
pub open spec fn stamp_of(bundle: Seq<char>) -> Seq<char> {
    below(stamp_dir(), bundle + ".done"@)
}

/// What the marker in a tool's directory says.
pub open spec fn marker_text(bundle: Seq<char>, tool: Seq<char>) -> Seq<char> {
    "Provided by the bulk bundle "@ + bundle + ". Removed when CADENCE/TOOLS/"@ + tool
        + ".tar.gz is extracted over it.\n"@
}

/// What is logged of a bundle that has been unpacked.
pub open spec fn outcome_line(bundle: Seq<char>, dirs: Seq<Seq<char>>) -> Seq<char> {
    if dirs.len() == 0 {
        "[INFO] "@ + bundle
            + " extracted - no new tool folders (everything it carries was already installed)."@
    } else {
        "[SUCCESS] "@ + bundle + " extracted - provided "@ + decimal(dirs.len())
            + " tool folder(s): "@ + joined(dirs, ", "@)
    }
}

fn stamp_path(bundle: &str) -> (r: String)
    ensures
        r@ == stamp_of(bundle@),
{
    let dir = join_path("/opt/cadence", ".c2s-bundles");
    join_path(dir.as_str(), bundle.to_owned().concat(".done").as_str())
}

fn make_marker(bundle: &str, tool: &str) -> (r: String)
    ensures
        r@ == marker_text(bundle@, tool@),
{
    "Provided by the bulk bundle ".to_owned().concat(bundle).concat(
        ". Removed when CADENCE/TOOLS/",
    ).concat(tool).concat(".tar.gz is extracted over it.\n")
}

fn show_outcome(bundle: &str, dirs: &Vec<String>) -> (r: String)
    ensures
        r@ == outcome_line(bundle@, texts(dirs@)),
{
    if dirs.len() == 0 {
        "[INFO] ".to_owned().concat(bundle).concat(
            " extracted - no new tool folders (everything it carries was already installed).",
        )
    } else {
        "[SUCCESS] ".to_owned().concat(bundle).concat(" extracted - provided ").concat(
            decimal_text(dirs.len() as u64).as_str(),
        ).concat(" tool folder(s): ").concat(join(dirs, ", ").as_str())
    }
}

/// Where the unpacking of the bundles stands.
#[derive(Debug, Clone, Copy, PartialEq, Eq, Structural)]
pub enum BundlesAt {
    Start,
    Ready,
    Checked,
    Judged,
    ListedBefore,
    Unpacked,
    ListedAfter,
    Marking,
    Stamped,
    Over,
}

/// Unpacks bundles.
#[derive(Debug)]
pub struct Bundles {
    dir: String,
    names: Vec<String>,
    next: usize,
    strip: usize,
    before: Vec<String>,
    dirs: Vec<String>,
    marked: usize,
    failed: bool,
    at: BundlesAt,
}

/// The model of a `Bundles`.
pub struct BundlesView {
    /// Where the bundles are.
    pub dir: Seq<char>,
    /// The names of all bundles.
    pub names: Seq<Seq<char>>,
    /// The position of the bundle that is being unpacked.
    pub next: int,
    /// How many leading directories are taken off it, once that is known.
    pub strip: usize,
    /// The tools that were there before it was unpacked.
    pub before: Seq<Seq<char>>,
    /// The tools that it brought.
    pub dirs: Seq<Seq<char>>,
    /// How many of these have been marked.
    pub marked: int,
    /// Whether it could not be unpacked to its end.
    pub failed: bool,
    pub at: BundlesAt,
}

impl View for Bundles {
    type V = BundlesView;

    closed spec fn view(&self) -> BundlesView {
        BundlesView {
            dir: self.dir@,
            names: texts(self.names@),
            next: self.next as int,
            strip: self.strip,
            before: texts(self.before@),
            dirs: texts(self.dirs@),
            marked: self.marked as int,
            failed: self.failed,
            at: self.at,
        }
    }
}

impl BundlesView {
    /// What holds at every turn.
    pub open spec fn wf(self) -> bool {
        &&& 0 <= self.next <= self.names.len()
        &&& self.at != BundlesAt::Start && self.at != BundlesAt::Ready && self.at
            != BundlesAt::Over ==> self.next < self.names.len()
        &&& self.at == BundlesAt::Marking ==> 0 <= self.marked < self.dirs.len()
        &&& self.at == BundlesAt::Marking || self.at == BundlesAt::Stamped ==> forall|
            name: Seq<char>,
        | #[trigger]
            self.dirs.contains(name) ==> !self.before.contains(name)
    }

    /// The shape of the reply that is waited for.
    pub open spec fn waits(self) -> ReplyKind {
        match self.at {
            BundlesAt::Start => ReplyKind::Start,
            BundlesAt::Ready => ReplyKind::Done,
            BundlesAt::Checked => ReplyKind::Flag,
            BundlesAt::Judged => ReplyKind::Count,
            BundlesAt::ListedBefore => ReplyKind::Listing,
            BundlesAt::Unpacked => ReplyKind::Ended,
            BundlesAt::ListedAfter => ReplyKind::Listing,
            BundlesAt::Marking => ReplyKind::Done,
            BundlesAt::Stamped => ReplyKind::Done,
            BundlesAt::Over => ReplyKind::Never,
        }
    }

    /// The bundle that is being unpacked.
    pub open spec fn name(self) -> Seq<char> {
        self.names[self.next]
    }

    /// On to another state with a request.
    pub open spec fn go(self, at: BundlesAt, log: Seq<Seq<char>>, op: OpView) -> (
        BundlesView,
        TurnView,
    ) {
        (BundlesView { at, ..self }, ask(log, op))
    }

    /// The end. It is always a success: what goes wrong with a bundle is only logged.
    pub open spec fn end(self, log: Seq<Seq<char>>) -> (BundlesView, TurnView) {
        (BundlesView { at: BundlesAt::Over, ..self }, succeed(log))
    }

    /// On to the bundle at `next`.
    pub open spec fn proceed(self, log: Seq<Seq<char>>) -> (BundlesView, TurnView) {
        if self.next >= self.names.len() {
            self.end(log)
        } else {
            self.go(BundlesAt::Checked, log, OpView::Exists(stamp_of(self.name())))
        }
    }

    /// On to the bundle behind this one.
    pub open spec fn skip(self, log: Seq<Seq<char>>) -> (BundlesView, TurnView) {
        (BundlesView { next: self.next + 1, ..self }).proceed(log)
    }

    /// On to the mark of the next tool. Behind the last comes the stamp, but for a bundle
    /// that could not be unpacked: that one gets none, so that it is tried again.
    pub open spec fn mark(self) -> (BundlesView, TurnView) {
        if self.marked < self.dirs.len() {
            let tool = self.dirs[self.marked];
            self.go(
                BundlesAt::Marking,
                seq![],
                OpView::WriteText(marker_of(tool_dir(tool)), marker_text(self.name(), tool)),
            )
        } else if self.failed {
            self.skip(seq![])
        } else {
            self.go(
                BundlesAt::Stamped,
                seq![],
                OpView::WriteText(stamp_of(self.name()), joined(self.dirs, "\n"@)),
            )
        }
    }

    /// The turn that `reply` leads to, and the state behind it.
    pub open spec fn after(self, reply: ReplyView) -> (BundlesView, TurnView) {
        match self.at {
            BundlesAt::Start => if self.names.len() == 0 {
                self.end(seq![])
            } else {
                self.go(BundlesAt::Ready, seq![], OpView::CreateDir(stamp_dir()))
            },
            BundlesAt::Ready => match reply->Done_0 {
                Err(e) => self.end(
                    seq![
                        "[ERROR] Could not create "@ + stamp_dir() + ": "@ + e
                            + " - skipping the bulk bundles."@,
                    ],
                ),
                Ok(_) => self.proceed(seq![]),
            },
            BundlesAt::Checked => if reply->Flag_0 {
                self.skip(
                    seq![
                        "[INFO] Bulk bundle "@ + self.name()
                            + " already extracted - skipping (delete "@ + stamp_of(self.name())
                            + " to force)."@,
                    ],
                )
            } else {
                self.go(
                    BundlesAt::Judged,
                    seq![],
                    OpView::StripComponents(self.dir, self.name()),
                )
            },
            BundlesAt::Judged => (BundlesView { strip: reply->Count_0, ..self }).go(
                BundlesAt::ListedBefore,
                seq![
                    "[INFO] Extracting bulk bundle "@ + self.name() + " -> "@ + tools_root()
                        + "/ (this is large; existing files are kept)..."@,
                ],
                OpView::ListDir(tools_root()),
            ),
            BundlesAt::ListedBefore => (BundlesView {
                before: dirs_in(listed(reply->Listing_0)),
                ..self
            }).go(
                BundlesAt::Unpacked,
                seq![],
                OpView::Status(
                    fill_command(below(self.dir, self.name()), tools_root(), self.strip as nat),
                ),
            ),
            BundlesAt::Unpacked => match unpacked(reply->Ended_0) {
                Err(e) => (BundlesView { failed: true, ..self }).go(
                    BundlesAt::ListedAfter,
                    seq!["[ERROR] Failed to extract "@ + self.name() + ": "@ + e],
                    OpView::ListDir(tools_root()),
                ),
                Ok(_) => (BundlesView { failed: false, ..self }).go(
                    BundlesAt::ListedAfter,
                    seq![],
                    OpView::ListDir(tools_root()),
                ),
            },
            BundlesAt::ListedAfter => (BundlesView {
                dirs: appeared(dirs_in(listed(reply->Listing_0)), self.before),
                marked: 0,
                ..self
            }).mark(),
            BundlesAt::Marking => (BundlesView { marked: self.marked + 1, ..self }).mark(),
            _ => self.skip(seq![outcome_line(self.name(), self.dirs)]),
        }
    }
}

/// The unpacking of the bundles `names` in `dir`.
pub fn install_cadence_bundles(dir: String, names: Vec<String>) -> (r: Bundles)
    ensures
        r@ == (BundlesView {
            dir: dir@,
            names: texts(names@),
            next: 0,
            strip: 0,
            before: seq![],
            dirs: seq![],
            marked: 0,
            failed: false,
            at: BundlesAt::Start,
        }),
        r@.wf(),
{
    Bundles {
        dir,
        names,
        next: 0,
        strip: 0,
        before: list0(),
        dirs: list0(),
        marked: 0,
        failed: false,
        at: BundlesAt::Start,
    }
}

impl Bundles {
    /// The shape of the reply that is waited for.
    pub fn waits(&self) -> (k: ReplyKind)
        ensures
            k == self@.waits(),
    {
        match self.at {
            BundlesAt::Start => ReplyKind::Start,
            BundlesAt::Ready => ReplyKind::Done,
            BundlesAt::Checked => ReplyKind::Flag,
            BundlesAt::Judged => ReplyKind::Count,
            BundlesAt::ListedBefore => ReplyKind::Listing,
            BundlesAt::Unpacked => ReplyKind::Ended,
            BundlesAt::ListedAfter => ReplyKind::Listing,
            BundlesAt::Marking => ReplyKind::Done,
            BundlesAt::Stamped => ReplyKind::Done,
            BundlesAt::Over => ReplyKind::Never,
        }
    }

    fn go(self, at: BundlesAt, log: Vec<String>, op: Op) -> (r: (Bundles, Turn))
        ensures
            (r.0@, r.1@) == self@.go(at, texts(log@), op@),
    {
        (Bundles { at, ..self }, turn_ask(log, op))
    }

    fn end(self, log: Vec<String>) -> (r: (Bundles, Turn))
        ensures
            (r.0@, r.1@) == self@.end(texts(log@)),
    {
        (Bundles { at: BundlesAt::Over, ..self }, turn_succeed(log))
    }

    fn proceed(self, log: Vec<String>) -> (r: (Bundles, Turn))
        requires
            0 <= self@.next <= self@.names.len(),
        ensures
            (r.0@, r.1@) == self@.proceed(texts(log@)),
    {
        if self.next >= self.names.len() {
            self.end(log)
        } else {
            let stamp = stamp_path(self.names[self.next].as_str());
            self.go(BundlesAt::Checked, log, Op::Exists(stamp))
        }
    }

    fn skip(self, log: Vec<String>) -> (r: (Bundles, Turn))
        requires
            0 <= self@.next < self@.names.len(),
        ensures
            (r.0@, r.1@) == self@.skip(texts(log@)),
    {
        assert(self.next < self.names.len());
        let next: usize = self.next + 1;
        (Bundles { next, ..self }).proceed(log)
    }

    fn mark(self) -> (r: (Bundles, Turn))
        requires
            0 <= self@.next < self@.names.len(),
        ensures
            (r.0@, r.1@) == self@.mark(),
    {
        let bundle = self.names[self.next].clone();
        if self.marked < self.dirs.len() {
            let tool = self.dirs[self.marked].as_str();
            let file = marker_path(tool_path(tool).as_str());
            let text = make_marker(bundle.as_str(), tool);
            self.go(BundlesAt::Marking, list0(), Op::WriteText(file, text))
        } else if self.failed {
            self.skip(list0())
        } else {
            let text = join(&self.dirs, "\n");
            self.go(
                BundlesAt::Stamped,
                list0(),
                Op::WriteText(stamp_path(bundle.as_str()), text),
            )
        }
    }

    /// Takes the reply that is waited for.
    pub fn step(self, reply: Reply) -> (r: (Bundles, Turn))
        requires
            self@.wf(),
            self@.waits() == reply@.kind(),
        ensures
            (r.0@, r.1@) == self@.after(reply@),
            r.1@.leads_to(r.0@.waits()),
            r.0@.wf(),
    {
        match self.at {
            BundlesAt::Start => if self.names.len() == 0 {
                self.end(list0())
            } else {
                let dir = join_path("/opt/cadence", ".c2s-bundles");
                self.go(BundlesAt::Ready, list0(), Op::CreateDir(dir))
            },
            BundlesAt::Ready => match reply.done() {
                Err(e) => {
                    let dir = join_path("/opt/cadence", ".c2s-bundles");
                    let line = "[ERROR] Could not create ".to_owned().concat(dir.as_str()).concat(
                        ": ",
                    ).concat(e.as_str()).concat(" - skipping the bulk bundles.");
                    self.end(list1(line))
                },
                Ok(_) => self.proceed(list0()),
            },
            BundlesAt::Checked => {
                let bundle = self.names[self.next].clone();
                if reply.flag() {
                    let line = "[INFO] Bulk bundle ".to_owned().concat(bundle.as_str()).concat(
                        " already extracted - skipping (delete ",
                    ).concat(stamp_path(bundle.as_str()).as_str()).concat(" to force).");
                    self.skip(list1(line))
                } else {
                    let dir = self.dir.clone();
                    self.go(BundlesAt::Judged, list0(), Op::StripComponents(dir, bundle))
                }
            },
            BundlesAt::Judged => {
                let line = "[INFO] Extracting bulk bundle ".to_owned().concat(
                    self.names[self.next].as_str(),
                ).concat(" -> ").concat("/opt/cadence").concat(
                    "/ (this is large; existing files are kept)...",
                );
                (Bundles { strip: reply.count(), ..self }).go(
                    BundlesAt::ListedBefore,
                    list1(line),
                    Op::ListDir("/opt/cadence".to_owned()),
                )
            },
            BundlesAt::ListedBefore => {
                let archive = join_path(self.dir.as_str(), self.names[self.next].as_str());
                let c = extract_bundle(archive.as_str(), "/opt/cadence", self.strip);
                let before = dir_names(&reply.entries());
                (Bundles { before, ..self }).go(BundlesAt::Unpacked, list0(), Op::Status(c))
            },
            BundlesAt::Unpacked => match unpacking_result(reply.ended()) {
                Err(e) => {
                    let line = "[ERROR] Failed to extract ".to_owned().concat(
                        self.names[self.next].as_str(),
                    ).concat(": ").concat(e.as_str());
                    (Bundles { failed: true, ..self }).go(
                        BundlesAt::ListedAfter,
                        list1(line),
                        Op::ListDir("/opt/cadence".to_owned()),
                    )
                },
                Ok(_) => (Bundles { failed: false, ..self }).go(
                    BundlesAt::ListedAfter,
                    list0(),
                    Op::ListDir("/opt/cadence".to_owned()),
                ),
            },
            BundlesAt::ListedAfter => {
                let now = dir_names(&reply.entries());
                let dirs = new_names(&now, &self.before);
                proof {
                    let dirs = texts(dirs@);
                    assert forall|name: Seq<char>| #[trigger]
                        dirs.contains(name) implies !self@.before.contains(name) by {
                        crate::archives::law_appeared(texts(now@), self@.before, name);
                    }
                }
                (Bundles { dirs, marked: 0, ..self }).mark()
            },
            BundlesAt::Marking => {
                assert(self.marked < self.dirs.len());
                let marked: usize = self.marked + 1;
                (Bundles { marked, ..self }).mark()
            },
            _ => {
                let line = show_outcome(self.names[self.next].as_str(), &self.dirs);
                self.skip(list1(line))
            },
        }
    }
}

/// Unpacking the bundles never fails as a whole.
pub proof fn law_bundles_never_fail(v: BundlesView, reply: ReplyView)
    requires
        v.waits() == reply.kind(),
    ensures
        v.after(reply).1.next matches NextView::Finish(r) ==> r == ReplyView::Done(Ok(())),
{
}

/// Whatever is unpacked, no file that is there is overwritten.
pub proof fn law_bundles_keep_old_files(v: BundlesView, reply: ReplyView)
    requires
        v.waits() == reply.kind(),
    ensures
        v.after(reply).1.next matches NextView::Do(OpView::Status(c)) ==> c.args.contains(
            "--skip-old-files"@,
        ),
{
    crate::archives::law_bundles_skip_old_files(
        below(v.dir, v.name()),
        tools_root(),
        v.strip as nat,
    );
}

/// A bundle that has its stamp is not unpacked: the next that is asked for concerns
/// the bundle behind it, or the bundles are over.
pub proof fn law_stamped_bundle_is_not_unpacked(v: BundlesView)
    requires
        v.wf(),
        v.at == BundlesAt::Checked,
    ensures
        v.after(ReplyView::Flag(true)).1.next == behind_bundle(v),
{
}

/// The state behind the marks that these replies answer.
pub open spec fn marking(v: BundlesView, replies: Seq<ReplyView>) -> BundlesView
    decreases replies.len(),
{
    if replies.len() == 0 {
        v
    } else {
        marking(v, replies.drop_last()).after(replies.last()).0
    }
}

proof fn lemma_marking(v: BundlesView, replies: Seq<ReplyView>)
    requires
        v.at == BundlesAt::Marking,
        v.marked == 0,
        replies.len() < v.dirs.len(),
    ensures
        marking(v, replies) == (BundlesView { marked: replies.len() as int, ..v }),
    decreases replies.len(),
{
    if replies.len() > 0 {
        lemma_marking(v, replies.drop_last());
    }
}

/// The turn behind `replies` to the marks of the tools that a listing shows to be new.
pub open spec fn turn_behind_marks(
    v: BundlesView,
    listing: ReplyView,
    replies: Seq<ReplyView>,
) -> TurnView {
    let (state, turn) = v.after(listing);
    if replies.len() == 0 {
        turn
    } else {
        marking(state, replies.drop_last()).after(replies.last()).1
    }
}

/// What is asked for behind the bundle that is being unpacked: the next bundle is looked
/// at, or the bundles are over.
pub open spec fn behind_bundle(v: BundlesView) -> NextView {
    if v.next + 1 < v.names.len() {
        NextView::Do(OpView::Exists(stamp_of(v.names[v.next + 1])))
    } else {
        NextView::Finish(ReplyView::Done(Ok(())))
    }
}

/// Each tool directory that was not there before a bundle is marked, in order and
/// whatever came of the marks in front, also where the bundle could not be unpacked to
/// its end. Behind the marks, a bundle that was unpacked gets its stamp, and one that
/// was not gets none.
pub proof fn law_new_tools_are_marked_then_stamped(
    v: BundlesView,
    listing: ReplyView,
    replies: Seq<ReplyView>,
)
    requires
        v.wf(),
        v.at == BundlesAt::ListedAfter,
        listing.kind() == ReplyKind::Listing,
        replies.len() <= appeared(dirs_in(listed(listing->Listing_0)), v.before).len(),
    ensures
        ({
            let dirs = appeared(dirs_in(listed(listing->Listing_0)), v.before);
            let n = replies.len() as int;
            turn_behind_marks(v, listing, replies).next == (if n < dirs.len() {
                NextView::Do(
                    OpView::WriteText(
                        marker_of(tool_dir(dirs[n])),
                        marker_text(v.name(), dirs[n]),
                    ),
                )
            } else if v.failed {
                behind_bundle(v)
            } else {
                NextView::Do(OpView::WriteText(stamp_of(v.name()), joined(dirs, "\n"@)))
            })
        }),
{
    if replies.len() > 0 {
        lemma_marking(v.after(listing).0, replies.drop_last());
    }
}

/// A bundle that could not be unpacked is reported, and what it left is looked for all
/// the same: its folders are those that the marks go to.
pub proof fn law_failed_bundle_is_looked_over(v: BundlesView, reply: ReplyView)
    requires
        v.wf(),
        v.at == BundlesAt::Unpacked,
        v.waits() == reply.kind(),
    ensures
        v.after(reply).1.next == NextView::Do(OpView::ListDir(tools_root())),
        v.after(reply).0.at == BundlesAt::ListedAfter,
        v.after(reply).0.before == v.before,
        v.after(reply).0.failed <==> reply->Ended_0 != ProcessEndView::Exited(Some(0i32)),
        v.after(reply).1.log.len() == (if v.after(reply).0.failed {
            1nat
        } else {
            0nat
        }),
{
}

/// No stamp is ever written for a bundle that could not be unpacked.
pub proof fn law_failed_bundle_gets_no_stamp(v: BundlesView, reply: ReplyView)
    requires
        v.wf(),
        v.waits() == reply.kind(),
    ensures
        v.after(reply).0.at == BundlesAt::Stamped ==> !v.failed && !v.after(reply).0.failed,
        v.after(reply).1.next matches NextView::Do(OpView::WriteText(_, _)) ==> (v.after(
            reply,
        ).0.at == BundlesAt::Marking || v.after(reply).0.at == BundlesAt::Stamped),
{
}

/// A bundle without its stamp is unpacked.
pub proof fn law_unstamped_bundle_is_unpacked(
    v: BundlesView,
    strip: usize,
    listing: Option<Seq<EntryView>>,
)
    requires
        v.wf(),
        v.at == BundlesAt::Checked,
    ensures
        ({
            let judged = v.after(ReplyView::Flag(false)).0;
            let listed_before = judged.after(ReplyView::Count(strip)).0;
            listed_before.after(ReplyView::Listing(listing)).1.next == NextView::Do(
                OpView::Status(
                    fill_command(below(v.dir, v.name()), tools_root(), strip as nat),
                ),
            )
        }),
{
}

/// A mark goes to no directory that was there before the bundle was unpacked.
pub proof fn law_old_tools_are_not_marked(v: BundlesView, listing: ReplyView, tool: Seq<char>)
    requires
        v.wf(),
        v.at == BundlesAt::ListedAfter,
        listing.kind() == ReplyKind::Listing,
        v.before.contains(tool),
    ensures
        !v.after(listing).0.dirs.contains(tool),
{
    crate::archives::law_appeared(dirs_in(listed(listing->Listing_0)), v.before, tool);
}

} // verus!
