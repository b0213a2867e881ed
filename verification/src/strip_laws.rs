//! What the judgement of bundles and the descent through wrapping directories keep to.

use vstd::prelude::*;

use crate::archives::{after_dots, top_of};
use crate::exchange::{CommandView, EntryView, NextView, OpView, ReplyView, TurnView};
use crate::path::below;
use crate::session::{called, SiteView};
use crate::strip::{StripAt, StripView};
use crate::text::{after_all, begins, find, lemma_find_bound, trimmed};
use crate::unwrap::{UnwrapAt, UnwrapView};

verus! {

/// References to the current directory, this many of them.
pub open spec fn dots(n: nat) -> Seq<char>
    decreases n,
{
    if n == 0 {
        seq![]
    } else {
        seq!['.', '/'] + dots((n - 1) as nat)
    }
}

proof fn lemma_dots(s: Seq<char>) -> (n: nat)
    ensures
        s == dots(n) + after_all(s, "./"@),
        !begins(after_all(s, "./"@), "./"@),
    decreases s.len(),
{
    reveal_strlit("./");
    assert("./"@ =~= seq!['.', '/']);
    if begins(s, "./"@) {
        let rest = s.skip(2);
        let n = lemma_dots(rest);
        assert(s =~= seq!['.', '/'] + rest);
        assert(dots((n + 1) as nat) == seq!['.', '/'] + dots(n));
        assert(s =~= dots((n + 1) as nat) + after_all(s, "./"@));
        (n + 1) as nat
    } else {
        assert(dots(0) + s =~= s);
        0
    }
}

/// The top-level name on a line is what stands in front of the first slash, once the
/// white space around the line and the references to the current directory at its front
/// are gone.
pub proof fn law_top_level_name(line: Seq<char>)
    ensures
        exists|n: nat, tail: Seq<char>|
            {
                &&& trimmed(line) == #[trigger] (dots(n) + top_of(line) + tail)
                &&& !top_of(line).contains('/')
                &&& tail.len() == 0 || tail[0] == '/'
                &&& !begins(top_of(line) + tail, "./"@)
            },
{
    let n = lemma_dots(trimmed(line));
    let path = after_dots(line);
    let k = find(path, '/') as int;
    lemma_find_bound(path, '/');
    let tail = path.skip(k);
    assert(top_of(line) + tail =~= path);
    assert(trimmed(line) =~= dots(n) + top_of(line) + tail);
    if top_of(line).contains('/') {
        let i = choose|i: int| 0 <= i < top_of(line).len() && top_of(line)[i] == '/';
        assert(path[i] == '/');
    }
}

/// A bundle is judged by the table of contents of its own file. Where that cannot be
/// had, nothing is taken off.
pub proof fn law_judgement_reads_the_bundle(dir: Seq<char>, name: Seq<char>, site: SiteView)
    ensures
        ({
            let (opening, open) = called(OpView::StripComponents(dir, name), site)->Some_0.after(
                ReplyView::Start,
            );
            &&& open == TurnView {
                log: seq![],
                next: NextView::Do(
                    OpView::OpenLines(
                        CommandView { program: "tar"@, args: seq!["-tf"@, below(dir, name)] },
                    ),
                ),
            }
            &&& opening.after(ReplyView::Flag(false)).1 == TurnView {
                log: seq![],
                next: NextView::Finish(ReplyView::Count(0)),
            }
            &&& opening.after(ReplyView::Flag(true)).1 == TurnView {
                log: seq![],
                next: NextView::Do(OpView::NextLine),
            }
            &&& opening.after(ReplyView::Flag(true)).0
                == crate::session::ProcedureView::Strip(
                StripView { dir, name, tops: seq![], seen: 0, at: StripAt::Reading },
            )
        }),
{
}

/// Lines are read one by one up to the end, to a second top-level name, or to two
/// thousand lines; then the table is closed, and the judgement is given whatever came
/// of that.
pub proof fn law_reading_stops(v: StripView, line: Seq<char>, closed: Result<(), Seq<char>>)
    requires
        v.wf(),
        v.at == StripAt::Reading,
    ensures
        ({
            let (read, turn) = v.after(ReplyView::Line(Some(line)));
            let (ended, last) = v.after(ReplyView::Line(None));
            let second = v.tops.len() == 1 && top_of(line).len() > 0 && top_of(line) != v.tops[0];
            &&& turn == TurnView {
                log: seq![],
                next: NextView::Do(
                    if second || v.seen + 1 >= 2000 {
                        OpView::CloseLines
                    } else {
                        OpView::NextLine
                    },
                ),
            }
            &&& read.seen == v.seen + 1
            &&& last == TurnView { log: seq![], next: NextView::Do(OpView::CloseLines) }
            &&& ended.after(ReplyView::Done(closed)).1.next is Finish
            &&& second ==> read.after(ReplyView::Done(closed)).1.next == NextView::Finish(
                ReplyView::Count(0),
            )
            &&& ended.after(ReplyView::Done(closed)).1.next == NextView::Finish(
                ReplyView::Count(
                    if v.tops.len() == 1 && v.tops[0] + ".tar.gz"@ == v.name {
                        1
                    } else if v.tops.len() == 1 && v.tops[0] == v.name && !crate::text::ends(
                        v.name,
                        ".tar.gz"@,
                    ) {
                        1
                    } else {
                        0
                    },
                ),
            )
        }),
{
    if v.tops.len() == 1 {
        let top = v.tops[0];
        crate::archives::law_archive_holds_its_tool(top);
        if crate::text::ends(v.name, ".tar.gz"@) {
            let n = v.name.len() - ".tar.gz"@.len();
            assert(v.name =~= v.name.take(n) + v.name.skip(n));
        }
        if top + ".tar.gz"@ == v.name {
            assert(v.name.skip(v.name.len() - ".tar.gz"@.len()) =~= ".tar.gz"@);
        }
        assert(v.tops.contains(top));
        if v.tops.contains(top_of(line)) {
            let i = choose|i: int| 0 <= i < v.tops.len() && v.tops[i] == top_of(line);
            assert(i == 0);
        }
    }
}

/// A directory is left for the one that it holds if and only if that is a directory and
/// its only entry; any other is the one that is looked for. Where a directory cannot be
/// read, there is none.
pub proof fn law_descent_goes_through_single_directories(
    start: Seq<char>,
    site: SiteView,
    entries: Seq<EntryView>,
)
    ensures
        ({
            let (scanning, scan) = called(OpView::UnwrapDirs(start), site)->Some_0.after(
                ReplyView::Start,
            );
            let (state, turn) = scanning.after(ReplyView::Listing(Some(entries)));
            let inner = below(start, entries[0].name);
            &&& scan == TurnView { log: seq![], next: NextView::Do(OpView::ScanDir(start)) }
            &&& scanning.after(ReplyView::Listing(None)).1 == TurnView {
                log: seq![],
                next: NextView::Finish(ReplyView::Place(None)),
            }
            &&& turn == TurnView {
                log: seq![],
                next: if entries.len() == 1 && entries[0].is_dir {
                    NextView::Do(OpView::ScanDir(inner))
                } else {
                    NextView::Finish(ReplyView::Place(Some(start)))
                },
            }
            &&& entries.len() == 1 && entries[0].is_dir ==> state
                == crate::session::ProcedureView::Unwrap(
                UnwrapView { current: inner, at: UnwrapAt::Scanned },
            )
        }),
{
}

} // verus!
