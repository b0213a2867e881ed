//! What the installation of doubly wrapped archives asks for from its start to its end.

use vstd::prelude::*;

use crate::archives::{gtar_target, gtars_in, unpacked};
use crate::exchange::{
    listed, CommandView, EntryView, NextView, OpView, ProcessEndView, ReplyView, TurnView,
};
use crate::gtar::{entry_names, GtarAt, GtarView, GtarsView};
use crate::number::decimal;
use crate::path::below;
use crate::places::{mark_of, place_of, scratch_of};
use crate::session::{called, ProcedureView, SiteView};

verus! {

/// The installation of one archive that a request calls.
pub open spec fn gtar_of(dir: Seq<char>, name: Seq<char>, site: SiteView) -> ProcedureView {
    called(OpView::GtarArchive(dir, name), site)->Some_0
}

/// All doubly wrapped archives that a listing of their directory shows are installed,
/// from the first one on.
pub proof fn law_gtars_begin_with_the_first(
    dir: Seq<char>,
    site: SiteView,
    entries: Option<Seq<EntryView>>,
)
    ensures
        ({
            let names = gtars_in(listed(entries));
            let (listing, list) = called(OpView::GtarArchives(dir), site)->Some_0.after(
                ReplyView::Start,
            );
            &&& list == TurnView { log: seq![], next: NextView::Do(OpView::ListDir(dir)) }
            &&& listing.after(ReplyView::Listing(entries)).1 == TurnView {
                log: seq![],
                next: if names.len() > 0 {
                    NextView::Do(OpView::GtarArchive(dir, names[0]))
                } else {
                    NextView::Finish(ReplyView::Done(Ok(())))
                },
            }
        }),
{
}

/// An archive is installed under its own name without the ending `.gtar` and without
/// the one of a common archive in front of that.
pub proof fn law_target_of_a_wrapped_archive(tool: Seq<char>)
    requires
        !crate::text::ends(tool, ".gtar"@),
        !crate::text::ends(tool, ".tar.gz"@),
        !crate::text::ends(tool, ".tgz"@),
        !crate::text::ends(tool, ".tar"@),
    ensures
        gtar_target(tool + ".gtar"@) == tool,
        gtar_target(tool + ".tar.gz"@ + ".gtar"@) == tool,
        gtar_target(tool + ".tgz"@ + ".gtar"@) == tool,
        gtar_target(tool + ".tar"@ + ".gtar"@) == tool,
        gtar_target(tool) == tool,
{
    reveal_strlit(".gtar");
    reveal_strlit(".tar.gz");
    reveal_strlit(".tgz");
    reveal_strlit(".tar");
    crate::archives::lemma_stem_of_suffixed(tool, ".gtar"@);
    crate::archives::lemma_stem_of_suffixed(tool + ".tar.gz"@, ".gtar"@);
    crate::archives::lemma_stem_of_suffixed(tool + ".tgz"@, ".gtar"@);
    crate::archives::lemma_stem_of_suffixed(tool + ".tar"@, ".gtar"@);
    crate::archives::lemma_stem_of_suffixed(tool, ".tar.gz"@);
    crate::archives::lemma_stem_of_suffixed(tool, ".tgz"@);
    crate::archives::lemma_stem_of_suffixed(tool, ".tar"@);
    let a = tool + ".tgz"@;
    assert(a.last() == 'z');
    assert(a.skip(a.len() - 4) =~= ".tgz"@);
    if crate::text::ends(a, ".tar.gz"@) {
        assert(a.skip(a.len() - 7)[3] == ".tar.gz"@[3]);
        assert(a.skip(a.len() - 7)[3] == a[a.len() - 4]);
    }
    let b = tool + ".tar"@;
    assert(b.last() == 'r');
    if crate::text::ends(b, ".tar.gz"@) {
        assert(b.skip(b.len() - 7)[6] == ".tar.gz"@[6]);
    }
    if crate::text::ends(b, ".tgz"@) {
        assert(b.skip(b.len() - 4)[3] == ".tgz"@[3]);
    }
}

/// A tool that is there is replaced if and only if it bears the mark of a bundle; one
/// without is left alone. An archive whose name tells no tool is passed over.
pub proof fn law_only_marked_tools_are_replaced(
    dir: Seq<char>,
    name: Seq<char>,
    tool: Seq<char>,
    site: SiteView,
    e: Seq<char>,
)
    requires
        gtar_target(name) == tool,
        tool.len() > 0,
    ensures
        ({
            let place = place_of(tool);
            let scratch = scratch_of(site.temp_dir, tool);
            let beginning = TurnView {
                log: seq![
                    "[INFO] Found double-wrapped archive "@ + name + " - extracting as "@ + tool
                        + "..."@,
                ],
                next: NextView::Do(OpView::RemoveDir(scratch)),
            };
            let unpacking = ProcedureView::Gtar(
                GtarView {
                    dir,
                    name,
                    temp: site.temp_dir,
                    payload: seq![],
                    names: seq![],
                    next: 0,
                    moved: 0,
                    at: GtarAt::Cleared,
                },
            );
            let (looking, look) = gtar_of(dir, name, site).after(ReplyView::Start);
            let (seeking, seek) = looking.after(ReplyView::Flag(true));
            let (replacing, replace) = seeking.after(ReplyView::Flag(true));
            &&& tool == name ==> look == TurnView {
                log: seq![
                    "[ERROR] Could not derive a target directory name from "@ + name
                        + " - skipping."@,
                ],
                next: NextView::Finish(ReplyView::Done(Ok(()))),
            }
            &&& tool != name ==> {
                &&& look == TurnView { log: seq![], next: NextView::Do(OpView::Exists(place)) }
                &&& looking.after(ReplyView::Flag(false)) == (unpacking, beginning)
                &&& seek == TurnView {
                    log: seq![],
                    next: NextView::Do(OpView::Exists(mark_of(tool))),
                }
                &&& seeking.after(ReplyView::Flag(false)).1 == TurnView {
                    log: seq![
                        "[INFO] "@ + tool + " already exists at "@ + place
                            + " - skipping re-extraction."@,
                    ],
                    next: NextView::Finish(ReplyView::Done(Ok(()))),
                }
                &&& replace == TurnView {
                    log: seq![
                        "[INFO] "@ + tool + " came from a bulk bundle - replacing it with "@ + name
                            + "..."@,
                    ],
                    next: NextView::Do(OpView::RemoveDir(place)),
                }
                &&& replacing.after(ReplyView::Done(Ok(()))) == (unpacking, beginning)
                &&& replacing.after(ReplyView::Done(Err(e))).1 == TurnView {
                    log: seq![
                        "[ERROR] Could not remove the bundle's "@ + place + ": "@ + e
                            + " - skipping."@,
                    ],
                    next: NextView::Finish(ReplyView::Done(Ok(()))),
                }
            }
        }),
{
}

/// A name that holds nothing but endings tells no tool.
pub proof fn law_nameless_archive_is_passed_over(dir: Seq<char>, name: Seq<char>, site: SiteView)
    requires
        gtar_target(name).len() == 0,
    ensures
        gtar_of(dir, name, site).after(ReplyView::Start).1.next == NextView::Finish(
            ReplyView::Done(Ok(())),
        ),
{
}

/// The scratch directory is cleared, whatever was in it, and made anew; the archive is
/// unpacked there, and what it holds is looked for below the directories that only wrap
/// it. Where unpacking fails, the scratch directory is removed and nothing is installed.
pub proof fn law_archive_is_unpacked_aside(
    v: GtarView,
    cleared: Result<(), Seq<char>>,
    end: ProcessEndView,
    swept: Result<(), Seq<char>>,
    e: Seq<char>,
)
    requires
        v.wf(),
        v.at == GtarAt::Cleared,
    ensures
        ({
            let tool = gtar_target(v.name);
            let place = place_of(tool);
            let scratch = scratch_of(v.temp, tool);
            let (making, make) = v.after(ReplyView::Done(cleared));
            let (unpacking, unpack) = making.after(ReplyView::Done(Ok(())));
            let (ending, turn) = unpacking.after(ReplyView::Ended(end));
            &&& make == TurnView { log: seq![], next: NextView::Do(OpView::CreateDir(scratch)) }
            &&& making.after(ReplyView::Done(Err(e))).1 == TurnView {
                log: seq!["[ERROR] Could not create extraction scratch dir: "@ + e],
                next: NextView::Finish(ReplyView::Done(Ok(()))),
            }
            &&& unpack == TurnView {
                log: seq![],
                next: NextView::Do(
                    OpView::Status(
                        CommandView {
                            program: "tar"@,
                            args: seq!["-xf"@, below(v.dir, v.name), "-C"@, scratch],
                        },
                    ),
                ),
            }
            &&& end == ProcessEndView::Exited(Some(0i32)) ==> {
                &&& turn == TurnView {
                    log: seq![],
                    next: NextView::Do(OpView::UnwrapDirs(scratch)),
                }
                &&& ending == GtarView { at: GtarAt::Unwrapped, ..v }
            }
            &&& end != ProcessEndView::Exited(Some(0i32)) ==> {
                &&& turn == TurnView {
                    log: seq![
                        "[ERROR] Failed to extract "@ + v.name + ": "@ + unpacked(end)->Err_0
                            + ". Extract it into "@ + place + " manually."@,
                    ],
                    next: NextView::Do(OpView::RemoveDir(scratch)),
                }
                &&& ending.after(ReplyView::Done(swept)).1 == TurnView {
                    log: seq![],
                    next: NextView::Finish(ReplyView::Done(Ok(()))),
                }
            }
        }),
{
}

/// What the archive holds is moved from where it was found, or from the scratch
/// directory where that could not be told, to the tool's own directory; the first entry
/// of the listing goes first.
pub proof fn law_contents_go_to_the_tools_directory(
    v: GtarView,
    found: Option<Seq<char>>,
    entries: Option<Seq<EntryView>>,
    swept: Result<(), Seq<char>>,
    e: Seq<char>,
)
    requires
        v.wf(),
        v.at == GtarAt::Unwrapped,
    ensures
        ({
            let place = place_of(gtar_target(v.name));
            let scratch = scratch_of(v.temp, gtar_target(v.name));
            let from = if found is Some {
                found->0
            } else {
                scratch
            };
            let (making, make) = v.after(ReplyView::Place(found));
            let (scanning, scan) = making.after(ReplyView::Done(Ok(())));
            let (failing, fail) = making.after(ReplyView::Done(Err(e)));
            let (moving, first) = scanning.after(ReplyView::Listing(entries));
            &&& make == TurnView { log: seq![], next: NextView::Do(OpView::CreateDir(place)) }
            &&& scan == TurnView { log: seq![], next: NextView::Do(OpView::ScanDir(from)) }
            &&& fail == TurnView {
                log: seq!["[ERROR] Could not create "@ + place + ": "@ + e],
                next: NextView::Do(OpView::RemoveDir(scratch)),
            }
            &&& failing.after(ReplyView::Done(swept)).1 == TurnView {
                log: seq![],
                next: NextView::Finish(ReplyView::Done(Ok(()))),
            }
            &&& first == TurnView {
                log: seq![],
                next: NextView::Do(
                    if listed(entries).len() > 0 {
                        let name = listed(entries)[0].name;
                        OpView::Rename(below(from, name), below(place, name))
                    } else {
                        OpView::RemoveDir(scratch)
                    },
                ),
            }
            &&& moving.at == (if listed(entries).len() > 0 {
                GtarAt::Moving
            } else {
                GtarAt::Swept
            })
            &&& moving.name == v.name
            &&& moving.temp == v.temp
            &&& moving.next == 0
            &&& moving.moved == 0
            &&& moving.payload == from
            &&& moving.names.len() == listed(entries).len()
            &&& forall|i: int|
                0 <= i < moving.names.len() ==> #[trigger] moving.names[i] == listed(
                    entries,
                )[i].name
        }),
{
    if listed(entries).len() > 0 {
        assert(entry_names(listed(entries))[0] == listed(entries)[0].name);
    }
}

/// Each entry goes to the same name in the tool's directory: it is renamed, or copied
/// with all that belongs to it where it cannot be. Then the next has its turn, however
/// it went; behind the last the scratch directory is removed, and the number of entries
/// that arrived is told.
pub proof fn law_course_of_an_entry(v: GtarView, renamed: Result<(), Seq<char>>, end: ProcessEndView)
    requires
        v.wf(),
        v.at == GtarAt::Moving,
    ensures
        ({
            let place = place_of(gtar_target(v.name));
            let scratch = scratch_of(v.temp, gtar_target(v.name));
            let (asked, turn) = v.after(ReplyView::Done(renamed));
            let (state, next) = if renamed is Ok {
                (asked, turn)
            } else {
                asked.after(ReplyView::Ended(end))
            };
            let arrived = renamed is Ok || end == ProcessEndView::Exited(Some(0i32));
            &&& renamed is Err ==> turn == TurnView {
                log: seq![],
                next: NextView::Do(
                    OpView::Status(
                        CommandView {
                            program: "cp"@,
                            args: seq![
                                "-a"@,
                                "-T"@,
                                below(v.payload, v.names[v.next]),
                                below(place, v.names[v.next]),
                            ],
                        },
                    ),
                ),
            }
            &&& next == TurnView {
                log: seq![],
                next: NextView::Do(
                    if v.next + 1 < v.names.len() {
                        OpView::Rename(
                            below(v.payload, v.names[v.next + 1]),
                            below(place, v.names[v.next + 1]),
                        )
                    } else {
                        OpView::RemoveDir(scratch)
                    },
                ),
            }
            &&& state.at == (if v.next + 1 < v.names.len() {
                GtarAt::Moving
            } else {
                GtarAt::Swept
            })
            &&& state.next == v.next + 1
            &&& state.names == v.names
            &&& state.payload == v.payload
            &&& state.name == v.name
            &&& state.temp == v.temp
            &&& state.moved == v.moved + (if arrived {
                1int
            } else {
                0int
            })
        }),
{
}

/// The end tells how many entries have arrived, and that there is something wrong where
/// none has.
pub proof fn law_end_tells_the_entries(v: GtarView, swept: Result<(), Seq<char>>)
    requires
        v.wf(),
        v.at == GtarAt::Swept,
    ensures
        v.after(ReplyView::Done(swept)).1 == (TurnView {
            log: seq![
                if v.moved > 0 {
                    "[SUCCESS] "@ + gtar_target(v.name) + " installed ("@ + decimal(v.moved as nat)
                        + " entries)."@
                } else {
                    "[ERROR] Extracted "@ + v.name + " but found nothing to move into "@
                        + place_of(gtar_target(v.name)) + " - check the archive layout manually."@
                },
            ],
            next: NextView::Finish(ReplyView::Done(Ok(()))),
        }),
{
}

/// Of several endings, each is taken off once and in a fixed order: that of a wrapped
/// archive, then that of a compressed one in its long and in its short form, then that
/// of a plain one. One that stands in front of an ending taken off later stays.
pub proof fn law_endings_are_taken_off_in_order(tool: Seq<char>)
    requires
        !crate::text::ends(tool, ".tar"@),
    ensures
        gtar_target(tool + ".tar"@ + ".tgz"@ + ".tar.gz"@ + ".gtar"@) == tool,
        gtar_target(tool + ".tar.gz"@ + ".tgz"@ + ".gtar"@) == tool + ".tar.gz"@,
        gtar_target(tool + ".gtar"@ + ".gtar"@) == tool + ".gtar"@,
{
    reveal_strlit(".gtar");
    reveal_strlit(".tar.gz");
    reveal_strlit(".tgz");
    reveal_strlit(".tar");
    let a = tool + ".tar"@;
    let b = a + ".tgz"@;
    let c = b + ".tar.gz"@;
    crate::archives::lemma_stem_of_suffixed(c, ".gtar"@);
    crate::archives::lemma_stem_of_suffixed(b, ".tar.gz"@);
    crate::archives::lemma_stem_of_suffixed(a, ".tgz"@);
    crate::archives::lemma_stem_of_suffixed(tool, ".tar"@);
    let x = tool + ".tar.gz"@;
    let y = x + ".tgz"@;
    crate::archives::lemma_stem_of_suffixed(y, ".gtar"@);
    crate::archives::lemma_stem_of_suffixed(x, ".tgz"@);
    if crate::text::ends(y, ".tar.gz"@) {
        assert(y.skip(y.len() - 7)[3] == ".tar.gz"@[3]);
        assert(y.skip(y.len() - 7)[3] == y[y.len() - 4]);
        assert(y[y.len() - 4] == '.');
    }
    if crate::text::ends(x, ".tar"@) {
        assert(x.skip(x.len() - 4)[3] == ".tar"@[3]);
    }
    let g = tool + ".gtar"@;
    crate::archives::lemma_stem_of_suffixed(g, ".gtar"@);
    assert(g.last() == 'r');
    if crate::text::ends(g, ".tar.gz"@) {
        assert(g.skip(g.len() - 7)[6] == ".tar.gz"@[6]);
    }
    if crate::text::ends(g, ".tgz"@) {
        assert(g.skip(g.len() - 4)[3] == ".tgz"@[3]);
    }
    if crate::text::ends(g, ".tar"@) {
        assert(g.skip(g.len() - 4)[0] == ".tar"@[0]);
        assert(g[g.len() - 4] == 'g');
    }
}

/// Going through the archives adds no line to what is said of each.
pub proof fn law_going_through_archives_adds_no_line(v: GtarsView, reply: ReplyView)
    requires
        v.wf(),
        v.waits() == reply.kind(),
    ensures
        v.after(reply).1.log.len() == 0,
{
}

} // verus!
