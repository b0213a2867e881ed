//! Finding what an archive holds below the directories that only wrap it.

use vstd::prelude::*;

use crate::exchange::{
    ask, entry_views, finish, list0, maybe_text, turn_ask, turn_finish, EntryView, NextView, Op,
    OpView, Reply, ReplyKind, ReplyView, Turn, TurnView,
};
use crate::path::{below, join_path};

verus! {

/// Whether a directory only wraps another one: its single entry is a directory.
pub open spec fn only_wraps(entries: Seq<EntryView>) -> bool {
    entries.len() == 1 && entries[0].is_dir
}

/// Where the descent stands.
#[derive(Debug, Clone, Copy, PartialEq, Eq, Structural)]
pub enum UnwrapAt {
    Start,
    Scanned,
    Over,
}

/// Descends from a directory as long as it only wraps another one.
#[derive(Debug)]
pub struct Unwrap {
    current: String,
    at: UnwrapAt,
}

/// The model of an `Unwrap`.
pub struct UnwrapView {
    /// The directory that the descent has come to.
    pub current: Seq<char>,
    pub at: UnwrapAt,
}

impl View for Unwrap {
    type V = UnwrapView;

    closed spec fn view(&self) -> UnwrapView {
        UnwrapView { current: self.current@, at: self.at }
    }
}

impl UnwrapView {
    /// The shape of the reply that is waited for.
    pub open spec fn waits(self) -> ReplyKind {
        match self.at {
            UnwrapAt::Start => ReplyKind::Start,
            UnwrapAt::Scanned => ReplyKind::Listing,
            UnwrapAt::Over => ReplyKind::Never,
        }
    }

    /// On to the entries of a directory.
    pub open spec fn scan(self, current: Seq<char>) -> (UnwrapView, TurnView) {
        (UnwrapView { current, at: UnwrapAt::Scanned }, ask(seq![], OpView::ScanDir(current)))
    }

    /// The end: the directory that was found, or none where one could not be read.
    pub open spec fn end(self, place: Option<Seq<char>>) -> (UnwrapView, TurnView) {
        (UnwrapView { at: UnwrapAt::Over, ..self }, finish(seq![], ReplyView::Place(place)))
    }

    /// The turn that `reply` leads to, and the state behind it.
    pub open spec fn after(self, reply: ReplyView) -> (UnwrapView, TurnView) {
        match self.at {
            UnwrapAt::Start => self.scan(self.current),
            _ => match reply->Listing_0 {
                None => self.end(None),
                Some(entries) => if only_wraps(entries) {
                    self.scan(below(self.current, entries[0].name))
                } else {
                    self.end(Some(self.current))
                },
            },
        }
    }
}

/// The descent from `start`.
pub fn unwrap_single_child_dirs(start: String) -> (r: Unwrap)
    ensures
        r@ == (UnwrapView { current: start@, at: UnwrapAt::Start }),
{
    Unwrap { current: start, at: UnwrapAt::Start }
}

impl Unwrap {
    /// The shape of the reply that is waited for.
    pub fn waits(&self) -> (k: ReplyKind)
        ensures
            k == self@.waits(),
    {
        match self.at {
            UnwrapAt::Start => ReplyKind::Start,
            UnwrapAt::Scanned => ReplyKind::Listing,
            UnwrapAt::Over => ReplyKind::Never,
        }
    }

    fn scan(self, current: String) -> (r: (Unwrap, Turn))
        ensures
            (r.0@, r.1@) == self@.scan(current@),
    {
        let op = Op::ScanDir(current.clone());
        (Unwrap { current, at: UnwrapAt::Scanned }, turn_ask(list0(), op))
    }

    fn end(self, place: Option<String>) -> (r: (Unwrap, Turn))
        ensures
            (r.0@, r.1@) == self@.end(maybe_text(place)),
    {
        (
            Unwrap { at: UnwrapAt::Over, ..self },
            turn_finish(list0(), Reply::Place(place)),
        )
    }

    /// Takes the reply that is waited for.
    pub fn step(self, reply: Reply) -> (r: (Unwrap, Turn))
        requires
            self@.waits() == reply@.kind(),
        ensures
            (r.0@, r.1@) == self@.after(reply@),
            r.1@.leads_to(r.0@.waits()),
    {
        match self.at {
            UnwrapAt::Start => {
                let start = self.current.clone();
                self.scan(start)
            },
            _ => match reply {
                Reply::Listing(Some(entries)) => if entries.len() == 1 && entries[0].is_dir {
                    assert(entry_views(entries@)[0] == entries@[0]@);
                    let inner = join_path(self.current.as_str(), entries[0].name.as_str());
                    self.scan(inner)
                } else {
                    assert(entries@.len() == 1 ==> entry_views(entries@)[0] == entries@[0]@);
                    let here = self.current.clone();
                    self.end(Some(here))
                },
                _ => self.end(None),
            },
        }
    }
}

/// The directory that is found does not itself wrap another one.
pub proof fn law_found_directory_wraps_nothing(v: UnwrapView, reply: ReplyView)
    requires
        v.waits() == reply.kind(),
        v.after(reply).1.next is Finish,
    ensures
        match v.after(reply).1.next->Finish_0->Place_0 {
            Some(place) => place == v.current && !only_wraps(reply->Listing_0->Some_0),
            None => reply->Listing_0 is None,
        },
{
}

/// Directories that are nested in one another, each but the last holding nothing but
/// the next.
pub open spec fn nested(start: Seq<char>, names: Seq<Seq<char>>) -> Seq<char>
    decreases names.len(),
{
    if names.len() == 0 {
        start
    } else {
        below(nested(start, names.drop_last()), names.last())
    }
}

/// A directory with a single entry, which is a directory.
pub open spec fn wrapping(name: Seq<char>) -> ReplyView {
    ReplyView::Listing(Some(seq![EntryView { name, is_file: false, is_dir: true }]))
}

/// The state behind a descent through these directories.
pub open spec fn descended(v: UnwrapView, names: Seq<Seq<char>>) -> UnwrapView
    decreases names.len(),
{
    if names.len() == 0 {
        v
    } else {
        descended(v, names.drop_last()).after(wrapping(names.last())).0
    }
}

/// However many directories wrap one another, the descent comes to the innermost.
pub proof fn law_descent_reaches_the_innermost(
    start: Seq<char>,
    names: Seq<Seq<char>>,
    entries: Seq<EntryView>,
)
    requires
        !only_wraps(entries),
    ensures
        ({
            let first = (UnwrapView { current: start, at: UnwrapAt::Start }).after(
                ReplyView::Start,
            ).0;
            let last = descended(first, names);
            &&& last.waits() == ReplyKind::Listing
            &&& last.after(ReplyView::Listing(Some(entries))).1.next == NextView::Finish(
                ReplyView::Place(Some(nested(start, names))),
            )
        }),
{
    lemma_descended(start, names);
}

proof fn lemma_descended(start: Seq<char>, names: Seq<Seq<char>>)
    ensures
        descended(UnwrapView { current: start, at: UnwrapAt::Scanned }, names) == (UnwrapView {
            current: nested(start, names),
            at: UnwrapAt::Scanned,
        }),
    decreases names.len(),
{
    if names.len() > 0 {
        lemma_descended(start, names.drop_last());
    }
}

} // verus!
