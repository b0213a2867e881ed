//! Installing tools that come doubly wrapped: an archive is unpacked into a scratch
//! directory, and what it holds below the wrapping is moved into place.

use vstd::prelude::*;

use crate::archives::{
    extract_archive, find_gtar_archives, gtar_target, gtars_in, marker_of, marker_path, target_name,
    tool_dir, tool_path, unpack_command, unpacked, unpacking_result,
};
use crate::exchange::{
    args4, ask, command, entry_views, list0, list1, listed, make_command, succeed, turn_ask,
    turn_succeed, with, CommandView, Entry, EntryView, NextView, Op, OpView, ProcessEnd,
    ProcessEndView, Reply, ReplyKind, ReplyView, Turn, TurnView,
};
use crate::number::{decimal, decimal_text};
use crate::path::{below, join_path};
use crate::text::{same, stem, texts};

verus! {

/// Where the installation of all doubly wrapped archives stands.
#[derive(Debug, Clone, Copy, PartialEq, Eq, Structural)]
pub enum GtarsAt {
    Start,
    Listed,
    Installing,
    Over,
}

/// Installs every doubly wrapped archive in a directory.
#[derive(Debug)]
pub struct Gtars {
    dir: String,
    names: Vec<String>,
    next: usize,
    at: GtarsAt,
}

/// The model of a `Gtars`.
pub struct GtarsView {
    /// Where the archives are.
    pub dir: Seq<char>,
    /// The names of all archives, once they are known.
    pub names: Seq<Seq<char>>,
    /// How many of them have been asked for.
    pub next: int,
    pub at: GtarsAt,
}

impl View for Gtars {
    type V = GtarsView;

    closed spec fn view(&self) -> GtarsView {
        GtarsView {
            dir: self.dir@,
            names: texts(self.names@),
            next: self.next as int,
            at: self.at,
        }
    }
}

impl GtarsView {
    /// What holds at every turn.
    pub open spec fn wf(self) -> bool {
        &&& 0 <= self.next <= self.names.len()
        &&& self.at == GtarsAt::Start || self.at == GtarsAt::Listed ==> self.next == 0
    }

    /// The shape of the reply that is waited for.
    pub open spec fn waits(self) -> ReplyKind {
        match self.at {
            GtarsAt::Start => ReplyKind::Start,
            GtarsAt::Listed => ReplyKind::Listing,
            GtarsAt::Installing => ReplyKind::Done,
            GtarsAt::Over => ReplyKind::Never,
        }
    }

    /// On to the next archive.
    pub open spec fn proceed(self) -> (GtarsView, TurnView) {
        if self.next >= self.names.len() {
            (GtarsView { at: GtarsAt::Over, ..self }, succeed(seq![]))
        } else {
            (
                GtarsView { next: self.next + 1, at: GtarsAt::Installing, ..self },
                ask(seq![], OpView::GtarArchive(self.dir, self.names[self.next])),
            )
        }
    }

    /// The turn that `reply` leads to, and the state behind it.
    pub open spec fn after(self, reply: ReplyView) -> (GtarsView, TurnView) {
        match self.at {
            GtarsAt::Start => (
                GtarsView { at: GtarsAt::Listed, ..self },
                ask(seq![], OpView::ListDir(self.dir)),
            ),
            GtarsAt::Listed => (GtarsView {
                names: gtars_in(listed(reply->Listing_0)),
                ..self
            }).proceed(),
            _ => self.proceed(),
        }
    }
}

/// The installation of every doubly wrapped archive in `dir`.
pub fn install_gtar_archives(dir: String) -> (r: Gtars)
    ensures
        r@ == (GtarsView { dir: dir@, names: seq![], next: 0, at: GtarsAt::Start }),
        r@.wf(),
{
    Gtars { dir, names: list0(), next: 0, at: GtarsAt::Start }
}

impl Gtars {
    /// The shape of the reply that is waited for.
    pub fn waits(&self) -> (k: ReplyKind)
        ensures
            k == self@.waits(),
    {
        match self.at {
            GtarsAt::Start => ReplyKind::Start,
            GtarsAt::Listed => ReplyKind::Listing,
            GtarsAt::Installing => ReplyKind::Done,
            GtarsAt::Over => ReplyKind::Never,
        }
    }

    fn proceed(self) -> (r: (Gtars, Turn))
        requires
            0 <= self@.next <= self@.names.len(),
        ensures
            (r.0@, r.1@) == self@.proceed(),
    {
        if self.next >= self.names.len() {
            (Gtars { at: GtarsAt::Over, ..self }, turn_succeed(list0()))
        } else {
            let op = Op::GtarArchive(self.dir.clone(), self.names[self.next].clone());
            let next: usize = self.next + 1;
            (Gtars { next, at: GtarsAt::Installing, ..self }, turn_ask(list0(), op))
        }
    }

    /// Takes the reply that is waited for.
    pub fn step(self, reply: Reply) -> (r: (Gtars, Turn))
        requires
            self@.wf(),
            self@.waits() == reply@.kind(),
        ensures
            (r.0@, r.1@) == self@.after(reply@),
            r.1@.leads_to(r.0@.waits()),
            r.0@.wf(),
    {
        match self.at {
            GtarsAt::Start => {
                let op = Op::ListDir(self.dir.clone());
                (Gtars { at: GtarsAt::Listed, ..self }, turn_ask(list0(), op))
            },
            GtarsAt::Listed => {
                let names = find_gtar_archives(&reply.entries());
                (Gtars { names, ..self }).proceed()
            },
            _ => self.proceed(),
        }
    }
}

/// Each archive is asked for in turn, whatever came of those in front.
pub proof fn law_every_gtar_gets_its_turn(v: GtarsView, reply: ReplyView)
    requires
        v.wf(),
        v.at == GtarsAt::Installing,
        v.waits() == reply.kind(),
    ensures
        v.next < v.names.len() ==> v.after(reply).1.next == NextView::Do(
            OpView::GtarArchive(v.dir, v.names[v.next]),
        ),
        v.next == v.names.len() ==> v.after(reply).1.next == NextView::Finish(
            ReplyView::Done(Ok(())),
        ),
{
}

/// The names of the entries of a directory.
pub open spec fn entry_names(entries: Seq<EntryView>) -> Seq<Seq<char>> {
    entries.map_values(|e: EntryView| e.name)
}

fn names_of(entries: &Vec<Entry>) -> (r: Vec<String>)
    ensures
        texts(r@) == entry_names(entry_views(entries@)),
{
    let mut r: Vec<String> = list0();
    let mut i: usize = 0;
    let ghost all = entry_names(entry_views(entries@));
    while i < entries.len()
        invariant
            i <= entries@.len(),
            all == entry_names(entry_views(entries@)),
            texts(r@) == all.take(i as int),
        decreases entries.len() - i,
    {
        r = with(r, entries[i].name.clone());
        assert(texts(r@) =~= all.take(i + 1));
        i += 1;
    }
    assert(all.take(i as int) =~= all);
    r
}

/// Where the installation of a doubly wrapped archive stands.
#[derive(Debug, Clone, Copy, PartialEq, Eq, Structural)]
pub enum GtarAt {
    Start,
    Found,
    MarkFound,
    Replaced,
    Cleared,
    ScratchMade,
    Unpacked,
    Abandoned,
    Unwrapped,
    Made,
    Scanned,
    Moving,
    Copying,
    Swept,
    Over,
}

/// Installs a doubly wrapped archive.
#[derive(Debug)]
pub struct Gtar {
    dir: String,
    name: String,
    temp: String,
    payload: String,
    names: Vec<String>,
    next: usize,
    moved: usize,
    at: GtarAt,
}

/// The model of a `Gtar`.
pub struct GtarView {
    /// Where the archive is.
    pub dir: Seq<char>,
    pub name: Seq<char>,
    /// The directory for temporary files.
    pub temp: Seq<char>,
    /// The directory that holds the tool, once it is found.
    pub payload: Seq<char>,
    /// The entries of that directory.
    pub names: Seq<Seq<char>>,
    /// The position of the entry that is being moved.
    pub next: int,
    /// How many entries have been moved.
    pub moved: int,
    pub at: GtarAt,
}

impl View for Gtar {
    type V = GtarView;

    closed spec fn view(&self) -> GtarView {
        GtarView {
            dir: self.dir@,
            name: self.name@,
            temp: self.temp@,
            payload: self.payload@,
            names: texts(self.names@),
            next: self.next as int,
            moved: self.moved as int,
            at: self.at,
        }
    }
}

/// The command that copies a path with all it holds to another, as it is. It works
/// across file systems, where a path cannot be renamed.
pub open spec fn cp_command(from: Seq<char>, to: Seq<char>) -> CommandView {
    command("cp"@, seq!["-a"@, "-T"@, from, to])
}

/// Whether a program exited with code 0.
pub open spec fn exited_well(end: ProcessEndView) -> bool {
    end == ProcessEndView::Exited(Some(0i32))
}

/// The scratch directory for a tool.
pub open spec fn scratch_dir(temp: Seq<char>, target: Seq<char>) -> Seq<char> {
    below(temp, "cadence_gtar_extract_"@ + target)
}

impl GtarView {
    /// What holds at every turn.
    pub open spec fn wf(self) -> bool {
        &&& 0 <= self.moved <= self.next <= self.names.len()
        &&& self.at == GtarAt::Moving || self.at == GtarAt::Copying ==> self.next
            < self.names.len()
        &&& self.at != GtarAt::Moving && self.at != GtarAt::Copying && self.at != GtarAt::Swept
            && self.at != GtarAt::Over ==> self.next == 0 && self.moved == 0
        &&& self.at == GtarAt::Swept ==> self.next == self.names.len()
    }

    /// The shape of the reply that is waited for.
    pub open spec fn waits(self) -> ReplyKind {
        match self.at {
            GtarAt::Start => ReplyKind::Start,
            GtarAt::Found => ReplyKind::Flag,
            GtarAt::MarkFound => ReplyKind::Flag,
            GtarAt::Unpacked => ReplyKind::Ended,
            GtarAt::Copying => ReplyKind::Ended,
            GtarAt::Unwrapped => ReplyKind::Place,
            GtarAt::Scanned => ReplyKind::Listing,
            GtarAt::Over => ReplyKind::Never,
            _ => ReplyKind::Done,
        }
    }

    /// The name under which the tool is installed.
    pub open spec fn target(self) -> Seq<char> {
        gtar_target(self.name)
    }

    /// Where the tool is installed.
    pub open spec fn dest(self) -> Seq<char> {
        tool_dir(self.target())
    }

    /// The scratch directory.
    pub open spec fn scratch(self) -> Seq<char> {
        scratch_dir(self.temp, self.target())
    }

    /// On to another state with a request.
    pub open spec fn go(self, at: GtarAt, log: Seq<Seq<char>>, op: OpView) -> (GtarView, TurnView) {
        (GtarView { at, ..self }, ask(log, op))
    }

    /// The end. It is always a success: what goes wrong is only logged.
    pub open spec fn end(self, log: Seq<Seq<char>>) -> (GtarView, TurnView) {
        (GtarView { at: GtarAt::Over, ..self }, succeed(log))
    }

    /// On to the scratch directory.
    pub open spec fn begin(self) -> (GtarView, TurnView) {
        self.go(
            GtarAt::Cleared,
            seq![
                "[INFO] Found double-wrapped archive "@ + self.name + " - extracting as "@
                    + self.target() + "..."@,
            ],
            OpView::RemoveDir(self.scratch()),
        )
    }

    /// Where the entry that is being moved stands.
    pub open spec fn source(self) -> Seq<char> {
        below(self.payload, self.names[self.next])
    }

    /// Where that entry goes.
    pub open spec fn place(self) -> Seq<char> {
        below(self.dest(), self.names[self.next])
    }

    /// On to the next entry, and to the removal of the scratch directory behind the
    /// last.
    pub open spec fn proceed(self) -> (GtarView, TurnView) {
        if self.next < self.names.len() {
            self.go(GtarAt::Moving, seq![], OpView::Rename(self.source(), self.place()))
        } else {
            self.go(GtarAt::Swept, seq![], OpView::RemoveDir(self.scratch()))
        }
    }

    /// The entry has been moved, or it cannot be: on to the next.
    pub open spec fn entry_done(self, moved: bool) -> (GtarView, TurnView) {
        (GtarView {
            next: self.next + 1,
            moved: if moved {
                self.moved + 1
            } else {
                self.moved
            },
            ..self
        }).proceed()
    }

    /// The turn that `reply` leads to, and the state behind it.
    pub open spec fn after(self, reply: ReplyView) -> (GtarView, TurnView) {
        match self.at {
            GtarAt::Start => if self.target().len() == 0 || self.target() == self.name {
                self.end(
                    seq![
                        "[ERROR] Could not derive a target directory name from "@ + self.name
                            + " - skipping."@,
                    ],
                )
            } else {
                self.go(GtarAt::Found, seq![], OpView::Exists(self.dest()))
            },
            GtarAt::Found => if reply->Flag_0 {
                self.go(GtarAt::MarkFound, seq![], OpView::Exists(marker_of(self.dest())))
            } else {
                self.begin()
            },
            GtarAt::MarkFound => if reply->Flag_0 {
                self.go(
                    GtarAt::Replaced,
                    seq![
                        "[INFO] "@ + self.target() + " came from a bulk bundle - replacing it with "@
                            + self.name + "..."@,
                    ],
                    OpView::RemoveDir(self.dest()),
                )
            } else {
                self.end(
                    seq![
                        "[INFO] "@ + self.target() + " already exists at "@ + self.dest()
                            + " - skipping re-extraction."@,
                    ],
                )
            },
            GtarAt::Replaced => match reply->Done_0 {
                Err(e) => self.end(
                    seq![
                        "[ERROR] Could not remove the bundle's "@ + self.dest() + ": "@ + e
                            + " - skipping."@,
                    ],
                ),
                Ok(_) => self.begin(),
            },
            GtarAt::Cleared => self.go(
                GtarAt::ScratchMade,
                seq![],
                OpView::CreateDir(self.scratch()),
            ),
            GtarAt::ScratchMade => match reply->Done_0 {
                Err(e) => self.end(
                    seq!["[ERROR] Could not create extraction scratch dir: "@ + e],
                ),
                Ok(_) => self.go(
                    GtarAt::Unpacked,
                    seq![],
                    OpView::Status(unpack_command(below(self.dir, self.name), self.scratch())),
                ),
            },
            GtarAt::Unpacked => match unpacked(reply->Ended_0) {
                Err(e) => self.go(
                    GtarAt::Abandoned,
                    seq![
                        "[ERROR] Failed to extract "@ + self.name + ": "@ + e
                            + ". Extract it into "@ + self.dest() + " manually."@,
                    ],
                    OpView::RemoveDir(self.scratch()),
                ),
                Ok(_) => self.go(GtarAt::Unwrapped, seq![], OpView::UnwrapDirs(self.scratch())),
            },
            GtarAt::Abandoned => self.end(seq![]),
            GtarAt::Unwrapped => (GtarView {
                payload: match reply->Place_0 {
                    Some(place) => place,
                    None => self.scratch(),
                },
                ..self
            }).go(GtarAt::Made, seq![], OpView::CreateDir(self.dest())),
            GtarAt::Made => match reply->Done_0 {
                Err(e) => self.go(
                    GtarAt::Abandoned,
                    seq!["[ERROR] Could not create "@ + self.dest() + ": "@ + e],
                    OpView::RemoveDir(self.scratch()),
                ),
                Ok(_) => self.go(GtarAt::Scanned, seq![], OpView::ScanDir(self.payload)),
            },
            GtarAt::Scanned => (GtarView {
                names: entry_names(listed(reply->Listing_0)),
                ..self
            }).proceed(),
            GtarAt::Moving => if reply.is_ok() {
                self.entry_done(true)
            } else {
                self.go(
                    GtarAt::Copying,
                    seq![],
                    OpView::Status(cp_command(self.source(), self.place())),
                )
            },
            GtarAt::Copying => self.entry_done(exited_well(reply->Ended_0)),
            _ => self.end(
                seq![
                    if self.moved > 0 {
                        "[SUCCESS] "@ + self.target() + " installed ("@ + decimal(
                            self.moved as nat,
                        ) + " entries)."@
                    } else {
                        "[ERROR] Extracted "@ + self.name + " but found nothing to move into "@
                            + self.dest() + " - check the archive layout manually."@
                    },
                ],
            ),
        }
    }
}

/// The installation of the doubly wrapped archive `name` in `dir`, by way of a
/// directory below `temp`.
pub fn install_one_gtar_archive(dir: String, name: String, temp: String) -> (r: Gtar)
    ensures
        r@ == (GtarView {
            dir: dir@,
            name: name@,
            temp: temp@,
            payload: seq![],
            names: seq![],
            next: 0,
            moved: 0,
            at: GtarAt::Start,
        }),
        r@.wf(),
{
    Gtar {
        dir,
        name,
        temp,
        payload: String::new(),
        names: list0(),
        next: 0,
        moved: 0,
        at: GtarAt::Start,
    }
}

impl Gtar {
    /// The shape of the reply that is waited for.
    pub fn waits(&self) -> (k: ReplyKind)
        ensures
            k == self@.waits(),
    {
        match self.at {
            GtarAt::Start => ReplyKind::Start,
            GtarAt::Found => ReplyKind::Flag,
            GtarAt::MarkFound => ReplyKind::Flag,
            GtarAt::Unpacked => ReplyKind::Ended,
            GtarAt::Copying => ReplyKind::Ended,
            GtarAt::Unwrapped => ReplyKind::Place,
            GtarAt::Scanned => ReplyKind::Listing,
            GtarAt::Over => ReplyKind::Never,
            _ => ReplyKind::Done,
        }
    }

    fn target(&self) -> (r: String)
        ensures
            r@ == self@.target(),
    {
        target_name(self.name.as_str())
    }

    fn dest(&self) -> (r: String)
        ensures
            r@ == self@.dest(),
    {
        tool_path(self.target().as_str())
    }

    fn scratch(&self) -> (r: String)
        ensures
            r@ == self@.scratch(),
    {
        let leaf = "cadence_gtar_extract_".to_owned().concat(self.target().as_str());
        join_path(self.temp.as_str(), leaf.as_str())
    }

    fn go(self, at: GtarAt, log: Vec<String>, op: Op) -> (r: (Gtar, Turn))
        ensures
            (r.0@, r.1@) == self@.go(at, texts(log@), op@),
    {
        (Gtar { at, ..self }, turn_ask(log, op))
    }

    fn end(self, log: Vec<String>) -> (r: (Gtar, Turn))
        ensures
            (r.0@, r.1@) == self@.end(texts(log@)),
    {
        (Gtar { at: GtarAt::Over, ..self }, turn_succeed(log))
    }

    fn begin(self) -> (r: (Gtar, Turn))
        ensures
            (r.0@, r.1@) == self@.begin(),
    {
        let line = "[INFO] Found double-wrapped archive ".to_owned().concat(
            self.name.as_str(),
        ).concat(" - extracting as ").concat(self.target().as_str()).concat("...");
        let op = Op::RemoveDir(self.scratch());
        self.go(GtarAt::Cleared, list1(line), op)
    }

    fn source(&self) -> (r: String)
        requires
            0 <= self@.next < self@.names.len(),
        ensures
            r@ == self@.source(),
    {
        join_path(self.payload.as_str(), self.names[self.next].as_str())
    }

    fn place(&self) -> (r: String)
        requires
            0 <= self@.next < self@.names.len(),
        ensures
            r@ == self@.place(),
    {
        join_path(self.dest().as_str(), self.names[self.next].as_str())
    }

    fn proceed(self) -> (r: (Gtar, Turn))
        ensures
            (r.0@, r.1@) == self@.proceed(),
    {
        if self.next < self.names.len() {
            let op = Op::Rename(self.source(), self.place());
            self.go(GtarAt::Moving, list0(), op)
        } else {
            let op = Op::RemoveDir(self.scratch());
            self.go(GtarAt::Swept, list0(), op)
        }
    }

    fn entry_done(self, moved: bool) -> (r: (Gtar, Turn))
        requires
            0 <= self@.moved <= self@.next < self@.names.len(),
        ensures
            (r.0@, r.1@) == self@.entry_done(moved),
    {
        assert(self.next < self.names.len());
        let next: usize = self.next + 1;
        let count: usize = if moved {
            self.moved + 1
        } else {
            self.moved
        };
        (Gtar { next, moved: count, ..self }).proceed()
    }

    /// Takes the reply that is waited for.
    pub fn step(self, reply: Reply) -> (r: (Gtar, Turn))
        requires
            self@.wf(),
            self@.waits() == reply@.kind(),
        ensures
            (r.0@, r.1@) == self@.after(reply@),
            r.1@.leads_to(r.0@.waits()),
            r.0@.wf(),
    {
        match self.at {
            GtarAt::Start => self.step_start(),
            GtarAt::Found => if reply.flag() {
                let op = Op::Exists(marker_path(self.dest().as_str()));
                self.go(GtarAt::MarkFound, list0(), op)
            } else {
                self.begin()
            },
            GtarAt::MarkFound => self.step_mark_found(reply),
            GtarAt::Replaced => match reply.done() {
                Err(e) => {
                    let line = "[ERROR] Could not remove the bundle's ".to_owned().concat(
                        self.dest().as_str(),
                    ).concat(": ").concat(e.as_str()).concat(" - skipping.");
                    self.end(list1(line))
                },
                Ok(_) => self.begin(),
            },
            GtarAt::Cleared => {
                let op = Op::CreateDir(self.scratch());
                self.go(GtarAt::ScratchMade, list0(), op)
            },
            GtarAt::ScratchMade => match reply.done() {
                Err(e) => {
                    let line = "[ERROR] Could not create extraction scratch dir: ".to_owned().concat(
                        e.as_str(),
                    );
                    self.end(list1(line))
                },
                Ok(_) => {
                    let archive = join_path(self.dir.as_str(), self.name.as_str());
                    let c = extract_archive(archive.as_str(), self.scratch().as_str());
                    self.go(GtarAt::Unpacked, list0(), Op::Status(c))
                },
            },
            GtarAt::Unpacked => self.step_unpacked(reply),
            GtarAt::Abandoned => self.end(list0()),
            GtarAt::Unwrapped => {
                let payload: String = match reply.place() {
                    Some(place) => place,
                    None => self.scratch(),
                };
                let op = Op::CreateDir(self.dest());
                (Gtar { payload, ..self }).go(GtarAt::Made, list0(), op)
            },
            GtarAt::Made => match reply.done() {
                Err(e) => {
                    let line = "[ERROR] Could not create ".to_owned().concat(
                        self.dest().as_str(),
                    ).concat(": ").concat(e.as_str());
                    let op = Op::RemoveDir(self.scratch());
                    self.go(GtarAt::Abandoned, list1(line), op)
                },
                Ok(_) => {
                    let op = Op::ScanDir(self.payload.clone());
                    self.go(GtarAt::Scanned, list0(), op)
                },
            },
            GtarAt::Scanned => {
                let names = names_of(&reply.entries());
                (Gtar { names, ..self }).proceed()
            },
            GtarAt::Moving => match reply.done() {
                Ok(_) => self.entry_done(true),
                Err(_) => {
                    let args = args4(
                        "-a",
                        "-T",
                        self.source().as_str(),
                        self.place().as_str(),
                    );
                    self.go(GtarAt::Copying, list0(), Op::Status(make_command("cp", args)))
                },
            },
            GtarAt::Copying => {
                let copied = match reply.ended() {
                    ProcessEnd::Exited(code) => code == Some(0i32),
                    _ => false,
                };
                self.entry_done(copied)
            },
            _ => self.step_swept(),
        }
    }

    fn step_start(self) -> (r: (Gtar, Turn))
        requires
            self@.at == GtarAt::Start,
        ensures
            (r.0@, r.1@) == self@.after(ReplyView::Start),
    {
        let target = self.target();
        if target.as_str().unicode_len() == 0 || same(target.as_str(), self.name.as_str()) {
            let line = "[ERROR] Could not derive a target directory name from ".to_owned().concat(
                self.name.as_str(),
            ).concat(" - skipping.");
            self.end(list1(line))
        } else {
            let op = Op::Exists(self.dest());
            self.go(GtarAt::Found, list0(), op)
        }
    }

    fn step_mark_found(self, reply: Reply) -> (r: (Gtar, Turn))
        requires
            self@.at == GtarAt::MarkFound,
            reply@.kind() == ReplyKind::Flag,
        ensures
            (r.0@, r.1@) == self@.after(reply@),
    {
        if reply.flag() {
            let line = "[INFO] ".to_owned().concat(self.target().as_str()).concat(
                " came from a bulk bundle - replacing it with ",
            ).concat(self.name.as_str()).concat("...");
            let op = Op::RemoveDir(self.dest());
            self.go(GtarAt::Replaced, list1(line), op)
        } else {
            let line = "[INFO] ".to_owned().concat(self.target().as_str()).concat(
                " already exists at ",
            ).concat(self.dest().as_str()).concat(" - skipping re-extraction.");
            self.end(list1(line))
        }
    }

    fn step_unpacked(self, reply: Reply) -> (r: (Gtar, Turn))
        requires
            self@.at == GtarAt::Unpacked,
            reply@.kind() == ReplyKind::Ended,
        ensures
            (r.0@, r.1@) == self@.after(reply@),
    {
        match unpacking_result(reply.ended()) {
            Err(e) => {
                let line = "[ERROR] Failed to extract ".to_owned().concat(
                    self.name.as_str(),
                ).concat(": ").concat(e.as_str()).concat(". Extract it into ").concat(
                    self.dest().as_str(),
                ).concat(" manually.");
                let op = Op::RemoveDir(self.scratch());
                self.go(GtarAt::Abandoned, list1(line), op)
            },
            Ok(_) => {
                let op = Op::UnwrapDirs(self.scratch());
                self.go(GtarAt::Unwrapped, list0(), op)
            },
        }
    }

    fn step_swept(self) -> (r: (Gtar, Turn))
        requires
            self@.at == GtarAt::Swept,
            self@.moved >= 0,
        ensures
            (r.0@, r.1@) == self@.after(ReplyView::Done(Ok(()))),
    {
        let line: String = if self.moved > 0 {
            "[SUCCESS] ".to_owned().concat(self.target().as_str()).concat(" installed (").concat(
                decimal_text(self.moved as u64).as_str(),
            ).concat(" entries).")
        } else {
            "[ERROR] Extracted ".to_owned().concat(self.name.as_str()).concat(
                " but found nothing to move into ",
            ).concat(self.dest().as_str()).concat(" - check the archive layout manually.")
        };
        self.end(list1(line))
    }
}

/// Installing a doubly wrapped archive never fails as a whole.
pub proof fn law_gtar_never_fails(v: GtarView, reply: ReplyView)
    requires
        v.waits() == reply.kind(),
    ensures
        v.after(reply).1.next matches NextView::Finish(r) ==> r == ReplyView::Done(Ok(())),
{
}

/// Besides the scratch directory, a directory is removed only if it is the tool's own
/// and was found to be marked as coming from a bundle.
pub proof fn law_only_marked_tools_are_removed(v: GtarView, reply: ReplyView)
    requires
        v.waits() == reply.kind(),
    ensures
        v.after(reply).1.next matches NextView::Do(OpView::RemoveDir(d)) ==> d == v.scratch() || (
        v.at == GtarAt::MarkFound && reply == ReplyView::Flag(true) && d == v.dest()),
        v.after(reply).0.at == GtarAt::MarkFound ==> v.after(reply).1.next == NextView::Do(
            OpView::Exists(marker_of(v.dest())),
        ),
{
}

/// A tool that is installed and not marked is left alone.
pub proof fn law_unmarked_tool_is_left_alone(v: GtarView)
    requires
        v.at == GtarAt::MarkFound,
    ensures
        v.after(ReplyView::Flag(false)).1.next == NextView::Finish(ReplyView::Done(Ok(()))),
{
}

/// Once the scratch directory has been made, the end comes only behind the request to
/// remove it.
pub proof fn law_scratch_directory_is_removed(v: GtarView, reply: ReplyView)
    requires
        v.waits() == reply.kind(),
    ensures
        v.after(reply).0.at == GtarAt::Abandoned || v.after(reply).0.at == GtarAt::Swept
            ==> v.after(reply).1.next == NextView::Do(OpView::RemoveDir(v.scratch())),
        v.after(reply).1.next is Finish ==> {
            ||| v.at == GtarAt::Start
            ||| v.at == GtarAt::MarkFound
            ||| v.at == GtarAt::Replaced
            ||| v.at == GtarAt::ScratchMade && !reply.is_ok()
            ||| v.at == GtarAt::Abandoned
            ||| v.at == GtarAt::Swept
        },
{
}

/// What is heard of an entry: whether it could be renamed and, where it could not,
/// whether it could be copied.
pub struct Attempt {
    pub renamed: Result<(), Seq<char>>,
    pub copied: ProcessEndView,
}

/// Whether the entry has been moved: by its new name or by a copy.
pub open spec fn arrived(a: Attempt) -> bool {
    a.renamed is Ok || exited_well(a.copied)
}

/// How many entries have been moved.
pub open spec fn arrivals(attempts: Seq<Attempt>) -> nat
    decreases attempts.len(),
{
    if attempts.len() == 0 {
        0
    } else {
        arrivals(attempts.drop_last()) + (if arrived(attempts.last()) {
            1nat
        } else {
            0nat
        })
    }
}

/// What an attempt at the entry that is being moved leads to: a copy is asked for where
/// the entry cannot be renamed.
pub open spec fn attempted(v: GtarView, a: Attempt) -> (GtarView, TurnView) {
    if a.renamed is Ok {
        v.after(ReplyView::Done(a.renamed))
    } else {
        v.after(ReplyView::Done(a.renamed)).0.after(ReplyView::Ended(a.copied))
    }
}

/// The state behind the attempts at the first entries.
pub open spec fn moving(v: GtarView, attempts: Seq<Attempt>) -> GtarView
    decreases attempts.len(),
{
    if attempts.len() == 0 {
        v
    } else {
        attempted(moving(v, attempts.drop_last()), attempts.last()).0
    }
}

proof fn lemma_moving(v: GtarView, attempts: Seq<Attempt>)
    requires
        v.at == GtarAt::Moving,
        v.next == 0,
        v.moved == 0,
        v.names.len() > 0,
        attempts.len() <= v.names.len(),
    ensures
        moving(v, attempts) == (GtarView {
            next: attempts.len() as int,
            moved: arrivals(attempts) as int,
            at: if attempts.len() < v.names.len() {
                GtarAt::Moving
            } else {
                GtarAt::Swept
            },
            ..v
        }),
        arrivals(attempts) <= attempts.len(),
    decreases attempts.len(),
{
    if attempts.len() > 0 {
        lemma_moving(v, attempts.drop_last());
    }
}

/// An entry that cannot be renamed is copied to the place where it was to go, before
/// anything else is done.
pub proof fn law_entry_that_cannot_be_renamed_is_copied(v: GtarView, e: Seq<char>)
    requires
        v.wf(),
        v.at == GtarAt::Moving,
    ensures
        v.after(ReplyView::Done(Err(e))).1.next == NextView::Do(
            OpView::Status(
                cp_command(
                    below(v.payload, v.names[v.next]),
                    below(v.dest(), v.names[v.next]),
                ),
            ),
        ),
        v.after(ReplyView::Done(Err(e))).0.moved == v.moved,
        v.after(ReplyView::Done(Err(e))).0.next == v.next,
{
}

/// An entry counts as moved if and only if it could be renamed or copied.
pub proof fn law_entry_counts_if_it_arrived(v: GtarView, a: Attempt)
    requires
        v.wf(),
        v.at == GtarAt::Moving,
    ensures
        attempted(v, a).0.next == v.next + 1,
        attempted(v, a).0.moved == v.moved + (if arrived(a) {
            1int
        } else {
            0int
        }),
{
}

/// Every entry is moved from the directory that holds the tool to the same name below
/// the tool's place, whatever came of the entries in front; the scratch directory is
/// removed only behind the last attempt, and the tool counts as installed if and only
/// if an entry has been moved.
pub proof fn law_entries_are_moved(v: GtarView, attempts: Seq<Attempt>)
    requires
        v.at == GtarAt::Moving,
        v.next == 0,
        v.moved == 0,
        0 < attempts.len() <= v.names.len(),
    ensures
        ({
            let n = attempts.len() as int;
            let turn = attempted(moving(v, attempts.drop_last()), attempts.last()).1;
            let last = moving(v, attempts);
            &&& n < v.names.len() ==> turn.next == NextView::Do(
                OpView::Rename(
                    below(v.payload, v.names[n]),
                    below(v.dest(), v.names[n]),
                ),
            )
            &&& n == v.names.len() ==> {
                &&& turn.next == NextView::Do(OpView::RemoveDir(v.scratch()))
                &&& last.after(ReplyView::Done(Ok(()))).1.log == seq![
                    if arrivals(attempts) > 0 {
                        "[SUCCESS] "@ + v.target() + " installed ("@ + decimal(arrivals(attempts))
                            + " entries)."@
                    } else {
                        "[ERROR] Extracted "@ + v.name + " but found nothing to move into "@
                            + v.dest() + " - check the archive layout manually."@
                    },
                ]
            }
        }),
{
    lemma_moving(v, attempts.drop_last());
    lemma_moving(v, attempts);
}

/// The archive of a doubly wrapped tool carries the tool's name.
pub proof fn law_double_wrapped_name(tool: Seq<char>)
    requires
        !crate::text::ends(tool, ".tgz"@),
        !crate::text::ends(tool, ".tar"@),
    ensures
        gtar_target(tool + ".tar.gz.gtar"@) == tool,
{
    reveal_strlit(".tar.gz.gtar");
    reveal_strlit(".tar.gz");
    reveal_strlit(".gtar");
    assert(tool + ".tar.gz.gtar"@ =~= (tool + ".tar.gz"@) + ".gtar"@);
    crate::archives::lemma_stem_of_suffixed(tool + ".tar.gz"@, ".gtar"@);
    crate::archives::lemma_stem_of_suffixed(tool, ".tar.gz"@);
}

/// An archive that was found in a listing is installed under a shorter name.
pub proof fn law_target_is_shorter(entries: Seq<EntryView>, name: Seq<char>)
    requires
        gtars_in(entries).contains(name),
    ensures
        gtar_target(name).len() < name.len(),
{
    reveal_strlit(".gtar");
    crate::archives::law_names_are_those_that_pass(entries, crate::archives::is_gtar(), name);
    let a = stem(name, ".gtar"@);
    let b = stem(a, ".tar.gz"@);
    let c = stem(b, ".tgz"@);
    assert(a.len() < name.len());
    assert(b.len() <= a.len());
    assert(c.len() <= b.len());
}

} // verus!
