//! How many leading directories to take off a bundle, judged by the front of its table
//! of contents.

use vstd::prelude::*;

use crate::archives::{tool_name, tool_of, top_name, top_of};
use crate::exchange::{
    args2, ask, command, finish, list0, make_command, turn_ask, turn_finish, with, CommandView,
    NextView, Op, OpView, Reply, ReplyKind, ReplyView, Turn, TurnView,
};
use crate::order::among;
use crate::path::{below, join_path};
use crate::text::{same, texts};

verus! {

/// How many lines of the table of contents are read at most.
pub open spec fn line_limit() -> nat {
    2000
}

/// The top-level names after one more line: a name that is not empty joins them once.
pub open spec fn with_top(tops: Seq<Seq<char>>, top: Seq<char>) -> Seq<Seq<char>> {
    if top.len() == 0 || tops.contains(top) {
        tops
    } else {
        tops.push(top)
    }
}

/// The top-level names on some lines of a table of contents, each once.
pub open spec fn tops_of(lines: Seq<Seq<char>>) -> Seq<Seq<char>>
    decreases lines.len(),
{
    if lines.len() == 0 {
        seq![]
    } else {
        with_top(tops_of(lines.drop_last()), top_of(lines.last()))
    }
}

/// One directory is taken off if it is the only top-level name and the bundle's own.
pub open spec fn verdict(tops: Seq<Seq<char>>, base: Seq<char>) -> usize {
    if tops.len() == 1 && tops[0] == base {
        1
    } else {
        0
    }
}

/// The command that prints an archive's table of contents.
pub open spec fn contents_command(archive: Seq<char>) -> CommandView {
    command("tar"@, seq!["-tf"@, archive])
}

/// Where the judgement stands.
#[derive(Debug, Clone, Copy, PartialEq, Eq, Structural)]
pub enum StripAt {
    Start,
    Opened,
    Reading,
    Closed,
    Over,
}

/// Judges a bundle by its table of contents.
#[derive(Debug)]
pub struct Strip {
    dir: String,
    name: String,
    tops: Vec<String>,
    seen: usize,
    at: StripAt,
}

/// The model of a `Strip`.
pub struct StripView {
    /// Where the bundle is.
    pub dir: Seq<char>,
    pub name: Seq<char>,
    /// The top-level names on the lines that were read, each once.
    pub tops: Seq<Seq<char>>,
    /// How many lines were read.
    pub seen: nat,
    pub at: StripAt,
}

impl View for Strip {
    type V = StripView;

    closed spec fn view(&self) -> StripView {
        StripView {
            dir: self.dir@,
            name: self.name@,
            tops: texts(self.tops@),
            seen: self.seen as nat,
            at: self.at,
        }
    }
}

impl StripView {
    /// What holds of every judgement: it reads on only while there is no second name
    /// and the limit is not reached.
    pub open spec fn wf(self) -> bool {
        &&& self.at == StripAt::Start || self.at == StripAt::Opened ==> self.seen == 0
            && self.tops.len() == 0
        &&& self.at == StripAt::Reading ==> self.seen < line_limit() && self.tops.len() <= 1
    }

    /// The shape of the reply that is waited for.
    pub open spec fn waits(self) -> ReplyKind {
        match self.at {
            StripAt::Start => ReplyKind::Start,
            StripAt::Opened => ReplyKind::Flag,
            StripAt::Reading => ReplyKind::Line,
            StripAt::Closed => ReplyKind::Done,
            StripAt::Over => ReplyKind::Never,
        }
    }

    /// On to another state with a request.
    pub open spec fn go(self, at: StripAt, op: OpView) -> (StripView, TurnView) {
        (StripView { at, ..self }, ask(seq![], op))
    }

    /// The end.
    pub open spec fn end(self, count: usize) -> (StripView, TurnView) {
        (StripView { at: StripAt::Over, ..self }, finish(seq![], ReplyView::Count(count)))
    }

    /// One more line.
    pub open spec fn read(self, line: Seq<char>) -> StripView {
        StripView { tops: with_top(self.tops, top_of(line)), seen: self.seen + 1, ..self }
    }

    /// Whether enough has been read.
    pub open spec fn enough(self) -> bool {
        self.seen >= line_limit() || self.tops.len() > 1
    }

    /// The turn that `reply` leads to, and the state behind it.
    pub open spec fn after(self, reply: ReplyView) -> (StripView, TurnView) {
        match self.at {
            StripAt::Start => self.go(
                StripAt::Opened,
                OpView::OpenLines(contents_command(below(self.dir, self.name))),
            ),
            StripAt::Opened => if reply->Flag_0 {
                self.go(StripAt::Reading, OpView::NextLine)
            } else {
                self.end(0)
            },
            StripAt::Reading => match reply->Line_0 {
                None => self.go(StripAt::Closed, OpView::CloseLines),
                Some(line) => {
                    let next = self.read(line);
                    if next.enough() {
                        next.go(StripAt::Closed, OpView::CloseLines)
                    } else {
                        next.go(StripAt::Reading, OpView::NextLine)
                    }
                },
            },
            _ => self.end(verdict(self.tops, tool_of(self.name))),
        }
    }
}

/// The judgement of the bundle `name` in `dir`.
pub fn bundle_strip_components(dir: String, name: String) -> (r: Strip)
    ensures
        r@ == (StripView {
            dir: dir@,
            name: name@,
            tops: seq![],
            seen: 0,
            at: StripAt::Start,
        }),
        r@.wf(),
{
    let r = Strip { dir, name, tops: Vec::new(), seen: 0, at: StripAt::Start };
    assert(r@.tops =~= seq![]);
    r
}

impl Strip {
    /// The shape of the reply that is waited for.
    pub fn waits(&self) -> (k: ReplyKind)
        ensures
            k == self@.waits(),
    {
        match self.at {
            StripAt::Start => ReplyKind::Start,
            StripAt::Opened => ReplyKind::Flag,
            StripAt::Reading => ReplyKind::Line,
            StripAt::Closed => ReplyKind::Done,
            StripAt::Over => ReplyKind::Never,
        }
    }

    fn go(self, at: StripAt, op: Op) -> (r: (Strip, Turn))
        ensures
            (r.0@, r.1@) == self@.go(at, op@),
    {
        (Strip { at, ..self }, turn_ask(list0(), op))
    }

    fn end(self, count: usize) -> (r: (Strip, Turn))
        ensures
            (r.0@, r.1@) == self@.end(count),
    {
        (Strip { at: StripAt::Over, ..self }, turn_finish(list0(), Reply::Count(count)))
    }

    fn read(self, line: &str) -> (r: Strip)
        requires
            self@.seen < line_limit(),
        ensures
            r@ == self@.read(line@),
    {
        let top = top_name(line);
        let Strip { dir, name, tops, seen, at } = self;
        if top.as_str().unicode_len() == 0 || among(&tops, top.as_str()) {
            Strip { dir, name, tops, seen: seen + 1, at }
        } else {
            Strip { dir, name, tops: with(tops, top), seen: seen + 1, at }
        }
    }

    /// Takes the reply that is waited for.
    pub fn step(self, reply: Reply) -> (r: (Strip, Turn))
        requires
            self@.wf(),
            self@.waits() == reply@.kind(),
        ensures
            (r.0@, r.1@) == self@.after(reply@),
            r.1@.leads_to(r.0@.waits()),
            r.0@.wf(),
    {
        match self.at {
            StripAt::Start => {
                let archive = join_path(self.dir.as_str(), self.name.as_str());
                let c = make_command("tar", args2("-tf", archive.as_str()));
                self.go(StripAt::Opened, Op::OpenLines(c))
            },
            StripAt::Opened => if reply.flag() {
                self.go(StripAt::Reading, Op::NextLine)
            } else {
                self.end(0)
            },
            StripAt::Reading => match reply.line() {
                None => self.go(StripAt::Closed, Op::CloseLines),
                Some(line) => {
                    let next = self.read(line.as_str());
                    if next.seen >= 2000 || next.tops.len() > 1 {
                        next.go(StripAt::Closed, Op::CloseLines)
                    } else {
                        next.go(StripAt::Reading, Op::NextLine)
                    }
                },
            },
            _ => {
                let base = tool_name(self.name.as_str());
                let own = self.tops.len() == 1 && same(self.tops[0].as_str(), base.as_str());
                if own {
                    self.end(1)
                } else {
                    self.end(0)
                }
            },
        }
    }
}

/// The state behind the first `n` of some lines, read as long as they are asked for.
pub open spec fn fed(v: StripView, lines: Seq<Seq<char>>, n: nat) -> StripView
    decreases n,
{
    if n == 0 {
        v
    } else {
        let before = fed(v, lines, (n - 1) as nat);
        if before.at == StripAt::Reading {
            before.after(ReplyView::Line(Some(lines[n - 1]))).0
        } else {
            before
        }
    }
}

/// The lines that count: as many as are read at most.
pub open spec fn sampled(lines: Seq<Seq<char>>) -> Seq<Seq<char>> {
    if lines.len() > line_limit() {
        lines.take(line_limit() as int)
    } else {
        lines
    }
}

proof fn lemma_tops_grow(lines: Seq<Seq<char>>, a: int, b: int)
    requires
        0 <= a <= b <= lines.len(),
    ensures
        tops_of(lines.take(a)).len() <= tops_of(lines.take(b)).len(),
    decreases b - a,
{
    if a < b {
        lemma_tops_grow(lines, a, b - 1);
        assert(lines.take(b).drop_last() =~= lines.take(b - 1));
    }
}

proof fn lemma_fed(v: StripView, lines: Seq<Seq<char>>, n: nat)
    requires
        v.at == StripAt::Reading,
        v.tops.len() == 0,
        v.seen == 0,
        n <= lines.len(),
    ensures
        ({
            let w = fed(v, lines, n);
            &&& w.name == v.name
            &&& w.seen <= n
            &&& w.seen <= line_limit()
            &&& w.tops == tops_of(lines.take(w.seen as int))
            &&& w.at == StripAt::Reading || w.at == StripAt::Closed
            &&& w.at == StripAt::Reading ==> w.seen == n && !w.enough()
            &&& w.at == StripAt::Closed ==> w.enough()
        }),
    decreases n,
{
    if n == 0 {
        assert(v.tops =~= tops_of(lines.take(0)));
    } else {
        let before = fed(v, lines, (n - 1) as nat);
        lemma_fed(v, lines, (n - 1) as nat);
        if before.at == StripAt::Reading {
            assert(lines.take(n as int).drop_last() =~= lines.take(n - 1));
        }
    }
}

/// The judgement is that of the lines that count, although no line is read behind the
/// second top-level name.
pub proof fn law_judgement_is_that_of_the_sample(
    dir: Seq<char>,
    name: Seq<char>,
    lines: Seq<Seq<char>>,
)
    ensures
        ({
            let first = StripView {
                dir,
                name,
                tops: seq![],
                seen: 0,
                at: StripAt::Reading,
            };
            let read = fed(first, lines, lines.len());
            let closed = if read.at == StripAt::Reading {
                read.after(ReplyView::Line(None)).0
            } else {
                read
            };
            &&& closed.at == StripAt::Closed
            &&& closed.after(ReplyView::Done(Ok(()))).1.next == NextView::Finish(
                ReplyView::Count(verdict(tops_of(sampled(lines)), tool_of(name))),
            )
        }),
{
    let first = StripView { dir, name, tops: seq![], seen: 0, at: StripAt::Reading };
    let read = fed(first, lines, lines.len());
    lemma_fed(first, lines, lines.len());
    let n = read.seen as int;
    let k = sampled(lines).len() as int;
    assert(sampled(lines) =~= lines.take(k));
    if read.at == StripAt::Reading {
        assert(k == n);
    } else if read.seen >= line_limit() {
        assert(k == n);
    } else {
        lemma_tops_grow(lines, n, k);
    }
}

/// The names that were found are exactly those that are not empty, each once.
proof fn lemma_tops(lines: Seq<Seq<char>>)
    ensures
        tops_of(lines).no_duplicates(),
        forall|top: Seq<char>| #[trigger]
            tops_of(lines).contains(top) <==> top.len() > 0 && exists|i: int|
                0 <= i < lines.len() && top_of(#[trigger] lines[i]) == top,
    decreases lines.len(),
{
    if lines.len() > 0 {
        let front = lines.drop_last();
        lemma_tops(front);
        let before = tops_of(front);
        let after = tops_of(lines);
        let last = top_of(lines.last());
        assert forall|top: Seq<char>| #[trigger]
            after.contains(top) <==> top.len() > 0 && exists|i: int|
                0 <= i < lines.len() && top_of(#[trigger] lines[i]) == top by {
            if after.contains(top) {
                let k = choose|k: int| 0 <= k < after.len() && after[k] == top;
                if k < before.len() {
                    assert(before[k] == top);
                    assert(before.contains(top));
                    let i = choose|i: int|
                        0 <= i < front.len() && top_of(#[trigger] front[i]) == top;
                    assert(lines[i] == front[i]);
                } else {
                    assert(top == last);
                    assert(top_of(lines[lines.len() - 1]) == top);
                }
            }
            if top.len() > 0 && exists|i: int|
                0 <= i < lines.len() && top_of(#[trigger] lines[i]) == top {
                let i = choose|i: int| 0 <= i < lines.len() && top_of(#[trigger] lines[i]) == top;
                if i < front.len() {
                    assert(front[i] == lines[i]);
                    assert(before.contains(top));
                    let k = choose|k: int| 0 <= k < before.len() && before[k] == top;
                    assert(after[k] == top);
                } else {
                    assert(last == top);
                    if before.contains(top) {
                    } else {
                        assert(after.last() == top);
                        assert(after[after.len() - 1] == top);
                    }
                }
            }
        }
    }
}

/// A directory is taken off if and only if all lines that name anything name the
/// bundle's own directory first, and some line does.
pub proof fn law_one_directory_is_taken_off(lines: Seq<Seq<char>>, base: Seq<char>)
    ensures
        verdict(tops_of(lines), base) == 1 <==> {
            &&& base.len() > 0
            &&& exists|i: int| 0 <= i < lines.len() && top_of(#[trigger] lines[i]) == base
            &&& forall|i: int|
                0 <= i < lines.len() && top_of(#[trigger] lines[i]).len() > 0 ==> top_of(lines[i])
                    == base
        },
        verdict(tops_of(lines), base) <= 1,
{
    lemma_tops(lines);
    let tops = tops_of(lines);
    if verdict(tops, base) == 1 {
        assert(tops[0] == base);
        assert(tops.contains(base));
        assert forall|i: int|
            0 <= i < lines.len() && top_of(#[trigger] lines[i]).len() > 0 implies top_of(lines[i])
            == base by {
            assert(tops.contains(top_of(lines[i])));
        }
    } else if base.len() > 0 && (exists|i: int|
        0 <= i < lines.len() && top_of(#[trigger] lines[i]) == base) && (forall|i: int|
        0 <= i < lines.len() && top_of(#[trigger] lines[i]).len() > 0 ==> top_of(lines[i])
            == base) {
        assert(tops.contains(base));
        let k = choose|k: int| 0 <= k < tops.len() && tops[k] == base;
        assert forall|j: int| 0 <= j < tops.len() implies tops[j] == base by {
            assert(tops.contains(tops[j]));
        }
        if tops.len() > 1 {
            assert(tops[0] == tops[1]);
        }
    }
}

} // verus!
