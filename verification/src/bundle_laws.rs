//! What the unpacking of the bundles keeps to over a whole pass.

use vstd::prelude::*;

use crate::archives::{appeared, dirs_in, is_visible_dir, names_where, unpacked};
use crate::bundles::{stamp_of, BundlesAt, BundlesView};
use crate::exchange::{
    listed, CommandView, EntryView, NextView, OpView, ProcessEndView, ReplyView, TurnView,
};
use crate::number::decimal;
use crate::order::{in_order, itself, law_sorted_set};
use crate::path::{below, is_file_name};
use crate::places::{law_places_of_tools, mark_of, stamp_at};
use crate::text::joined;

verus! {

/// What is asked for where the turn comes to the bundle at a position: its stamp is
/// looked for, or, behind the last bundle, the pass is over.
pub open spec fn turn_of_bundle(names: Seq<Seq<char>>, i: int) -> NextView {
    if i < names.len() {
        NextView::Do(OpView::Exists(stamp_at(names[i])))
    } else {
        NextView::Finish(ReplyView::Done(Ok(())))
    }
}

/// A pass over bundles before its first turn.
pub open spec fn pass_over(dir: Seq<char>, names: Seq<Seq<char>>) -> BundlesView {
    BundlesView {
        dir,
        names,
        next: 0,
        strip: 0,
        before: seq![],
        dirs: seq![],
        marked: 0,
        failed: false,
        at: BundlesAt::Start,
    }
}

/// A pass makes the directory of the stamps and turns to its first bundle. Without
/// that directory it is given up, and without bundles it does nothing.
pub proof fn law_pass_begins_with_the_first_bundle(
    dir: Seq<char>,
    names: Seq<Seq<char>>,
    e: Seq<char>,
)
    ensures
        ({
            let (ready, first) = pass_over(dir, names).after(ReplyView::Start);
            &&& names.len() == 0 ==> first == TurnView {
                log: seq![],
                next: NextView::Finish(ReplyView::Done(Ok(()))),
            }
            &&& names.len() > 0 ==> {
                &&& first == TurnView {
                    log: seq![],
                    next: NextView::Do(
                        OpView::CreateDir(below("/opt/cadence"@, ".c2s-bundles"@)),
                    ),
                }
                &&& ready.after(ReplyView::Done(Ok(()))) == (
                    BundlesView { at: BundlesAt::Checked, ..pass_over(dir, names) },
                    TurnView { log: seq![], next: turn_of_bundle(names, 0) },
                )
                &&& ready.after(ReplyView::Done(Err(e))).1 == TurnView {
                    log: seq![
                        "[ERROR] Could not create "@ + below("/opt/cadence"@, ".c2s-bundles"@)
                            + ": "@ + e + " - skipping the bulk bundles."@,
                    ],
                    next: NextView::Finish(ReplyView::Done(Ok(()))),
                }
            }
        }),
{
}

/// Every bundle gets its turn: once the answer to the stamp of a bundle is there,
/// whatever it says, the turn comes to the bundle behind it, and the outcome is told.
pub proof fn law_every_bundle_gets_its_turn(v: BundlesView, reply: ReplyView)
    requires
        v.wf(),
        v.at == BundlesAt::Stamped,
        v.waits() == reply.kind(),
    ensures
        v.after(reply).1 == (TurnView {
            log: seq![
                if v.dirs.len() == 0 {
                    "[INFO] "@ + v.names[v.next]
                        + " extracted - no new tool folders (everything it carries was already installed)."@
                } else {
                    "[SUCCESS] "@ + v.names[v.next] + " extracted - provided "@ + decimal(
                        v.dirs.len(),
                    ) + " tool folder(s): "@ + joined(v.dirs, ", "@)
                },
            ],
            next: turn_of_bundle(v.names, v.next + 1),
        }),
        v.after(reply).0.next == v.next + 1,
        v.after(reply).0.names == v.names,
        v.after(reply).0.dir == v.dir,
        v.next + 1 < v.names.len() ==> v.after(reply).0.at == BundlesAt::Checked,
{
}

/// A bundle is passed over only if it has its stamp already, if its own stamp has been
/// answered, or if it could not be unpacked; the pass never goes back nor leaves one
/// out, and ends only behind the last bundle or where the stamps have no directory.
pub proof fn law_pass_leaves_out_no_bundle(v: BundlesView, reply: ReplyView)
    requires
        v.wf(),
        v.waits() == reply.kind(),
    ensures
        v.after(reply).0.names == v.names,
        v.after(reply).0.dir == v.dir,
        v.after(reply).0.next == v.next || v.after(reply).0.next == v.next + 1,
        v.after(reply).0.next == v.next + 1 ==> {
            ||| reply == ReplyView::Flag(true)
            ||| v.at == BundlesAt::Stamped
            ||| v.failed
        },
        v.after(reply).1.next is Finish ==> {
            ||| v.after(reply).0.next == v.names.len()
            ||| v.at == BundlesAt::Ready && !reply.is_ok()
        },
{
}

/// A bundle with its stamp is not touched; one without is judged, the tools that are
/// there are noted, and it is unpacked below the tools' root with all files kept that
/// are there.
pub proof fn law_course_of_a_bundle(
    v: BundlesView,
    strip: usize,
    before: Option<Seq<EntryView>>,
    end: ProcessEndView,
)
    requires
        v.wf(),
        v.at == BundlesAt::Checked,
    ensures
        ({
            let name = v.names[v.next];
            let archive = below(v.dir, name);
            let (judging, judge) = v.after(ReplyView::Flag(false));
            let (noting, note) = judging.after(ReplyView::Count(strip));
            let (unpacking, unpack) = noting.after(ReplyView::Listing(before));
            let (looking, look) = unpacking.after(ReplyView::Ended(end));
            &&& v.after(ReplyView::Flag(true)).1 == TurnView {
                log: seq![
                    "[INFO] Bulk bundle "@ + name + " already extracted - skipping (delete "@
                        + stamp_at(name) + " to force)."@,
                ],
                next: turn_of_bundle(v.names, v.next + 1),
            }
            &&& judge == TurnView {
                log: seq![],
                next: NextView::Do(OpView::StripComponents(v.dir, name)),
            }
            &&& note == TurnView {
                log: seq![
                    "[INFO] Extracting bulk bundle "@ + name + " -> "@ + "/opt/cadence"@
                        + "/ (this is large; existing files are kept)..."@,
                ],
                next: NextView::Do(OpView::ListDir("/opt/cadence"@)),
            }
            &&& unpack == TurnView {
                log: seq![],
                next: NextView::Do(
                    OpView::Status(
                        CommandView {
                            program: "tar"@,
                            args: if strip == 0 {
                                seq![
                                    "-xf"@,
                                    archive,
                                    "-C"@,
                                    "/opt/cadence"@,
                                    "--skip-old-files"@,
                                ]
                            } else {
                                seq![
                                    "-xf"@,
                                    archive,
                                    "-C"@,
                                    "/opt/cadence"@,
                                    "--skip-old-files"@,
                                    "--strip-components="@ + decimal(strip as nat),
                                ]
                            },
                        },
                    ),
                ),
            }
            &&& look.next == NextView::Do(OpView::ListDir("/opt/cadence"@))
            &&& look.log == (match end {
                ProcessEndView::Exited(Some(0i32)) => seq![],
                _ => seq!["[ERROR] Failed to extract "@ + name + ": "@ + unpacked(end)->Err_0],
            })
            &&& looking.at == BundlesAt::ListedAfter
            &&& looking.failed <==> end != ProcessEndView::Exited(Some(0i32))
            &&& looking.next == v.next
            &&& looking.names == v.names
            &&& looking.before == dirs_in(listed(before))
        }),
{
    let name = v.names[v.next];
    let long = seq![
        "-xf"@,
        below(v.dir, name),
        "-C"@,
        "/opt/cadence"@,
        "--skip-old-files"@,
    ].push("--strip-components="@ + decimal(strip as nat));
    assert(long =~= seq![
        "-xf"@,
        below(v.dir, name),
        "-C"@,
        "/opt/cadence"@,
        "--skip-old-files"@,
        "--strip-components="@ + decimal(strip as nat),
    ]);
}

/// The listing behind a bundle leads to the mark of the first tool that is new. Where
/// none is, a bundle that was unpacked gets its stamp, and one that was not is passed
/// over without.
pub proof fn law_new_tools_are_marked(v: BundlesView, listing: Option<Seq<EntryView>>)
    requires
        v.wf(),
        v.at == BundlesAt::ListedAfter,
    ensures
        ({
            let name = v.names[v.next];
            let dirs = appeared(dirs_in(listed(listing)), v.before);
            v.after(ReplyView::Listing(listing)).1 == TurnView {
                log: seq![],
                next: if dirs.len() > 0 {
                    NextView::Do(
                        OpView::WriteText(
                            mark_of(dirs[0]),
                            "Provided by the bulk bundle "@ + name
                                + ". Removed when CADENCE/TOOLS/"@ + dirs[0]
                                + ".tar.gz is extracted over it.\n"@,
                        ),
                    )
                } else if v.failed {
                    turn_of_bundle(v.names, v.next + 1)
                } else {
                    NextView::Do(
                        OpView::WriteText(
                            stamp_at(name),
                            joined(dirs, "\n"@),
                        ),
                    )
                },
            }
        }),
        ({
            let w = v.after(ReplyView::Listing(listing)).0;
            &&& w.names == v.names
            &&& w.dir == v.dir
            &&& w.failed == v.failed
            &&& w.dirs == appeared(dirs_in(listed(listing)), v.before)
            &&& w.dirs.len() > 0 ==> w.at == BundlesAt::Marking && w.marked == 0 && w.next
                == v.next
            &&& w.dirs.len() == 0 && !v.failed ==> w.at == BundlesAt::Stamped && w.next == v.next
        }),
{
}

/// Behind the mark of a tool comes that of the next, whatever came of it; behind the
/// last comes the stamp with the names of all of them, or, where the bundle could not
/// be unpacked, the turn of the bundle behind it.
pub proof fn law_marks_go_on(v: BundlesView, reply: ReplyView)
    requires
        v.wf(),
        v.at == BundlesAt::Marking,
        v.waits() == reply.kind(),
    ensures
        ({
            let name = v.names[v.next];
            let n = v.marked + 1;
            v.after(reply).1 == TurnView {
                log: seq![],
                next: if n < v.dirs.len() {
                    NextView::Do(
                        OpView::WriteText(
                            mark_of(v.dirs[n]),
                            "Provided by the bulk bundle "@ + name
                                + ". Removed when CADENCE/TOOLS/"@ + v.dirs[n]
                                + ".tar.gz is extracted over it.\n"@,
                        ),
                    )
                } else if v.failed {
                    turn_of_bundle(v.names, v.next + 1)
                } else {
                    NextView::Do(
                        OpView::WriteText(
                            stamp_at(name),
                            joined(v.dirs, "\n"@),
                        ),
                    )
                },
            }
        }),
        v.after(reply).0.marked == v.marked + 1,
        v.after(reply).0.dirs == v.dirs,
        v.after(reply).0.names == v.names,
        v.after(reply).0.failed == v.failed,
        v.marked + 1 < v.dirs.len() ==> v.after(reply).0.at == BundlesAt::Marking,
        v.marked + 1 == v.dirs.len() && !v.failed ==> v.after(reply).0.at == BundlesAt::Stamped
            && v.after(reply).0.next == v.next,
{
}

/// The tools that are new are the directories, but for hidden ones, that a listing
/// shows and that were not noted before.
pub proof fn law_new_tools_are_new_directories(
    entries: Seq<EntryView>,
    before: Seq<Seq<char>>,
    name: Seq<char>,
)
    ensures
        appeared(dirs_in(entries), before).contains(name) <==> {
            &&& exists|i: int|
                0 <= i < entries.len() && (#[trigger] entries[i]).is_dir && entries[i].name == name
            &&& !(name.len() > 0 && name[0] == '.')
            &&& !before.contains(name)
        },
{
    reveal_strlit(".");
    crate::archives::law_appeared(dirs_in(entries), before, name);
    let test = is_visible_dir();
    crate::order::law_sorted_set(names_where(entries, test));
    crate::archives::law_names_are_those_that_pass(entries, test, name);
    assert forall|e: EntryView| #[trigger]
        test(e) <==> e.is_dir && !(e.name.len() > 0 && e.name[0] == '.') by {
        if e.name.len() > 0 {
            assert(e.name.take(1) =~= seq![e.name[0]]);
            assert("."@ =~= seq!['.']);
            if e.name[0] != '.' {
                assert(e.name.take(1)[0] != "."@[0]);
            }
        }
    }
    if dirs_in(entries).contains(name) {
        let i = choose|i: int|
            0 <= i < entries.len() && test(#[trigger] entries[i]) && entries[i].name == name;
        assert(entries[i].is_dir);
    }
    if exists|i: int|
        0 <= i < entries.len() && (#[trigger] entries[i]).is_dir && entries[i].name == name {
        let i = choose|i: int|
            0 <= i < entries.len() && (#[trigger] entries[i]).is_dir && entries[i].name == name;
        if !(name.len() > 0 && name[0] == '.') {
            assert(test(entries[i]));
        }
    }
}

/// The state of a pass that has heard `replies`.
pub open spec fn passed(v: BundlesView, replies: Seq<ReplyView>) -> BundlesView
    decreases replies.len(),
{
    if replies.len() == 0 {
        v
    } else {
        passed(v, replies.drop_last()).after(replies.last()).0
    }
}

/// What a pass that has heard `replies` asks for, or ends with; nothing before its
/// first turn.
pub open spec fn asked(v: BundlesView, replies: Seq<ReplyView>) -> Option<NextView> {
    if replies.len() == 0 {
        None
    } else {
        Some(passed(v, replies.drop_last()).after(replies.last()).1.next)
    }
}

/// The files that a pass which has heard `replies` has found or has written.
pub open spec fn files_known(v: BundlesView, replies: Seq<ReplyView>) -> Set<Seq<char>>
    decreases replies.len(),
{
    if replies.len() == 0 {
        Set::empty()
    } else {
        let front = replies.drop_last();
        let found = match (asked(v, front), replies.last()) {
            (Some(NextView::Do(OpView::Exists(file))), ReplyView::Flag(true)) => files_known(
                v,
                front,
            ).insert(file),
            _ => files_known(v, front),
        };
        match asked(v, replies) {
            Some(NextView::Do(OpView::WriteText(file, _))) => found.insert(file),
            _ => found,
        }
    }
}

/// Whether replies are what a pass waits for from a machine that can make the stamps'
/// directory and on which every bundle can be unpacked.
pub open spec fn all_unpack(v: BundlesView, replies: Seq<ReplyView>) -> bool
    decreases replies.len(),
{
    replies.len() > 0 ==> {
        &&& all_unpack(v, replies.drop_last())
        &&& passed(v, replies.drop_last()).waits() == replies.last().kind()
        &&& replies.last() matches ReplyView::Ended(end) ==> end == ProcessEndView::Exited(
            Some(0i32),
        )
        &&& replies.len() == 2 ==> replies.last().is_ok()
    }
}

proof fn lemma_step(u: BundlesView, reply: ReplyView)
    requires
        u.wf(),
        u.waits() == reply.kind(),
        reply matches ReplyView::Ended(end) ==> end == ProcessEndView::Exited(Some(0i32)),
        u.at == BundlesAt::Ready ==> reply.is_ok(),
        u.at == BundlesAt::ListedAfter || u.at == BundlesAt::Marking ==> !u.failed,
        u.at == BundlesAt::Start ==> u.next == 0,
    ensures
        ({
            let (w, turn) = u.after(reply);
            &&& w.wf()
            &&& w.names == u.names
            &&& w.at != BundlesAt::Start
            &&& w.at == BundlesAt::Ready ==> u.at == BundlesAt::Start
            &&& w.at == BundlesAt::Over <==> turn.next is Finish
            &&& w.at == BundlesAt::Over ==> w.next == w.names.len()
            &&& w.at == BundlesAt::Checked ==> turn.next == NextView::Do(
                OpView::Exists(stamp_of(w.names[w.next])),
            )
            &&& w.at == BundlesAt::ListedAfter || w.at == BundlesAt::Marking ==> !w.failed
            &&& w.at == BundlesAt::Stamped ==> (turn.next matches NextView::Do(
                OpView::WriteText(file, _),
            ) && file == stamp_of(w.names[w.next]))
            &&& w.next == u.next || {
                &&& w.next == u.next + 1
                &&& u.at == BundlesAt::Stamped || u.at == BundlesAt::Checked && reply
                    == ReplyView::Flag(true)
            }
        }),
{
    if u.at == BundlesAt::ListedAfter {
        let w = u.after(reply).0;
        assert forall|name: Seq<char>| #[trigger] w.dirs.contains(name) implies !w.before.contains(
            name,
        ) by {
            crate::archives::law_appeared(dirs_in(listed(reply->Listing_0)), u.before, name);
        }
    }
}

/// What holds of a pass on a machine on which every bundle can be unpacked, where it
/// stands at `w` with the request `next` and knows of `files`.
spec fn pass_holds(w: BundlesView, next: NextView, files: Set<Seq<char>>) -> bool {
    &&& w.wf()
    &&& w.at != BundlesAt::Start
    &&& w.at == BundlesAt::Over <==> next is Finish
    &&& w.at == BundlesAt::Over ==> w.next == w.names.len()
    &&& w.at == BundlesAt::Checked ==> next == NextView::Do(
        OpView::Exists(stamp_of(w.names[w.next])),
    )
    &&& w.at == BundlesAt::ListedAfter || w.at == BundlesAt::Marking ==> !w.failed
    &&& w.at == BundlesAt::Stamped ==> files.contains(stamp_of(w.names[w.next]))
    &&& forall|i: int| 0 <= i < w.next ==> files.contains(stamp_of(#[trigger] w.names[i]))
}

proof fn lemma_pass(v: BundlesView, replies: Seq<ReplyView>)
    requires
        v == pass_over(v.dir, v.names),
        all_unpack(v, replies),
        replies.len() > 0,
    ensures
        pass_holds(passed(v, replies), asked(v, replies)->Some_0, files_known(v, replies)),
        passed(v, replies).names == v.names,
        passed(v, replies).at == BundlesAt::Ready ==> replies.len() == 1,
    decreases replies.len(),
{
    let front = replies.drop_last();
    let reply = replies.last();
    let u = passed(v, front);
    if front.len() > 0 {
        lemma_pass(v, front);
    }
    lemma_step(u, reply);
}

/// On a machine on which every bundle can be unpacked, a pass that has ended has seen
/// to every bundle: each one's stamp was found or has been written.
pub proof fn law_pass_stamps_every_bundle(
    dir: Seq<char>,
    names: Seq<Seq<char>>,
    replies: Seq<ReplyView>,
    i: int,
)
    requires
        0 <= i < names.len(),
        is_file_name(names[i]),
        all_unpack(pass_over(dir, names), replies),
        asked(pass_over(dir, names), replies) matches Some(NextView::Finish(_)),
    ensures
        files_known(pass_over(dir, names), replies).contains(
            "/opt/cadence/.c2s-bundles/"@ + names[i] + ".done"@,
        ),
{
    let v = pass_over(dir, names);
    lemma_pass(v, replies);
    law_places_of_tools(names[i]);
    assert(passed(v, replies).names[i] == names[i]);
}

/// The tools that are new come in the order of their names, each once.
pub proof fn law_new_tools_come_in_order(entries: Seq<EntryView>, before: Seq<Seq<char>>)
    ensures
        in_order(appeared(dirs_in(entries), before), itself()),
        appeared(dirs_in(entries), before).no_duplicates(),
{
    law_sorted_set(names_where(entries, is_visible_dir()));
    lemma_filter_keeps_order(dirs_in(entries), crate::archives::not_in(before));
}

proof fn lemma_filter_keeps_order(s: Seq<Seq<char>>, test: spec_fn(Seq<char>) -> bool)
    requires
        in_order(s, itself()),
        s.no_duplicates(),
    ensures
        in_order(s.filter(test), itself()),
        s.filter(test).no_duplicates(),
        forall|x: Seq<char>| #[trigger] s.filter(test).contains(x) ==> s.contains(x),
    decreases s.len(),
{
    reveal(Seq::filter);
    if s.len() > 0 {
        let front = s.drop_last();
        let n = s.len() as int - 1;
        let key = itself();
        assert forall|i: int, j: int| 0 <= i < j < front.len() implies crate::order::le(
            key(#[trigger] front[i]),
            key(#[trigger] front[j]),
        ) by {
            assert(front[i] == s[i] && front[j] == s[j]);
        }
        lemma_filter_keeps_order(front, test);
        let kept = front.filter(test);
        let all = s.filter(test);
        assert forall|x: Seq<char>| #[trigger] kept.contains(x) implies exists|k: int|
            0 <= k < n && s[k] == x by {
            let k = choose|k: int| 0 <= k < front.len() && front[k] == x;
            assert(s[k] == x);
        }
        if test(s.last()) {
            assert(all == kept.push(s.last()));
            assert forall|i: int, j: int| 0 <= i < j < all.len() implies crate::order::le(
                key(#[trigger] all[i]),
                key(#[trigger] all[j]),
            ) by {
                if j == kept.len() {
                    assert(kept.contains(kept[i]));
                    let k = choose|k: int| 0 <= k < n && s[k] == kept[i];
                    assert(crate::order::le(key(s[k]), key(s[n])));
                } else {
                    assert(all[i] == kept[i] && all[j] == kept[j]);
                }
            }
            assert forall|i: int, j: int| 0 <= i < j < all.len() implies all[i] != all[j] by {
                if j == kept.len() {
                    assert(kept.contains(kept[i]));
                    let k = choose|k: int| 0 <= k < n && s[k] == kept[i];
                    assert(s[k] != s[n]);
                } else {
                    assert(kept[i] != kept[j]);
                }
            }
        }
        assert forall|x: Seq<char>| #[trigger] all.contains(x) implies s.contains(x) by {
            let i = choose|i: int| 0 <= i < all.len() && all[i] == x;
            if i < kept.len() {
                assert(kept.contains(kept[i]));
            } else {
                assert(s[n] == x);
            }
        }
    }
}

/// Entries are named in the order of their listing, and an entry that does not pass is
/// left out.
pub proof fn law_entries_are_named_in_order(
    entries: Seq<EntryView>,
    e: EntryView,
    test: spec_fn(EntryView) -> bool,
)
    ensures
        names_where(Seq::empty(), test).len() == 0,
        names_where(entries.push(e), test) == (if test(e) {
            names_where(entries, test).push(e.name)
        } else {
            names_where(entries, test)
        }),
{
    assert(entries.push(e).drop_last() =~= entries);
}

} // verus!
