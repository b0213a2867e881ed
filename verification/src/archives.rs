//! The archives that tools come in: finding them, naming what they hold, and the
//! commands that unpack them.

use vstd::prelude::*;

use crate::exchange::{
    args4, command, entry_views, list0, make_command, with, CommandLine, CommandView, Entry,
    EntryView, ProcessEnd, ProcessEndView,
};
use crate::number::{decimal, decimal_text};
use crate::order::{among, in_order, itself, sort, sort_distinct, sorted, sorted_set};
use crate::path::{below, join_path};
use crate::shell::{code_text, show_code};
use crate::text::{
    begins, before, ends, ends_with, find, starts_with, stem, strip_or_keep, texts, trim,
    trim_start_matches, trimmed,
};

verus! {

/// Where the Cadence tools are installed.
pub open spec fn tools_root() -> Seq<char> {
    "/opt/cadence"@
}

/// Where a tool is installed.
pub open spec fn tool_dir(name: Seq<char>) -> Seq<char> {
    below(tools_root(), name)
}

/// The file that tells that a tool's directory came from a bundle and may be
/// overwritten by the tool's own archive.
pub open spec fn marker_of(dir: Seq<char>) -> Seq<char> {
    below(dir, ".c2s-from-bundle"@)
}

/// Where a tool is installed.
pub fn tool_path(name: &str) -> (r: String)
    ensures
        r@ == tool_dir(name@),
{
    join_path("/opt/cadence", name)
}

/// The marker of a directory.
pub fn marker_path(dir: &str) -> (r: String)
    ensures
        r@ == marker_of(dir@),
{
    join_path(dir, ".c2s-from-bundle")
}

/// The tool that an archive holds: the archive's name without the ending.
pub open spec fn tool_of(archive: Seq<char>) -> Seq<char> {
    stem(archive, ".tar.gz"@)
}

/// The tool that an archive holds.
pub fn tool_name(archive: &str) -> (r: String)
    ensures
        r@ == tool_of(archive@),
{
    strip_or_keep(archive, ".tar.gz")
}

/// The names of the entries that pass a test, in the order of the listing.
pub open spec fn names_where(entries: Seq<EntryView>, test: spec_fn(EntryView) -> bool) -> Seq<
    Seq<char>,
>
    decreases entries.len(),
{
    if entries.len() == 0 {
        seq![]
    } else {
        let rest = names_where(entries.drop_last(), test);
        if test(entries.last()) {
            rest.push(entries.last().name)
        } else {
            rest
        }
    }
}

/// Whether an entry is a file with the given ending.
pub open spec fn is_archive(suffix: Seq<char>) -> spec_fn(EntryView) -> bool {
    |e: EntryView| e.is_file && ends(e.name, suffix)
}

/// Whether an entry is a directory that is not hidden.
pub open spec fn is_visible_dir() -> spec_fn(EntryView) -> bool {
    |e: EntryView| e.is_dir && !begins(e.name, "."@)
}

/// Whether an entry is a file with the extension `gtar`: a name that is nothing but an
/// ending has no extension.
pub open spec fn is_gtar() -> spec_fn(EntryView) -> bool {
    |e: EntryView| e.is_file && ends(e.name, ".gtar"@) && e.name.len() > 5
}

/// The files with an ending, in order.
pub open spec fn archives_in(entries: Seq<EntryView>, suffix: Seq<char>) -> Seq<Seq<char>> {
    sorted(names_where(entries, is_archive(suffix)))
}

/// The directories that are not hidden, in order, each once.
pub open spec fn dirs_in(entries: Seq<EntryView>) -> Seq<Seq<char>> {
    sorted_set(names_where(entries, is_visible_dir()))
}

/// The files with the extension `gtar`, in the order of the listing.
pub open spec fn gtars_in(entries: Seq<EntryView>) -> Seq<Seq<char>> {
    names_where(entries, is_gtar())
}

/// The files with an ending, in order.
pub fn find_archives(entries: &Vec<Entry>, suffix: &str) -> (r: Vec<String>)
    ensures
        texts(r@) == archives_in(entry_views(entries@), suffix@),
{
    let mut r: Vec<String> = list0();
    let mut i: usize = 0;
    let ghost all = entry_views(entries@);
    let ghost test = is_archive(suffix@);
    while i < entries.len()
        invariant
            i <= entries@.len(),
            all == entry_views(entries@),
            test == is_archive(suffix@),
            texts(r@) == names_where(all.take(i as int), test),
        decreases entries.len() - i,
    {
        assert(all.take(i + 1).drop_last() =~= all.take(i as int));
        if entries[i].is_file && ends_with(entries[i].name.as_str(), suffix) {
            r = with(r, entries[i].name.clone());
        }
        i += 1;
    }
    assert(all.take(i as int) =~= all);
    sort(&r)
}

/// The directories that are not hidden, in order, each once.
pub fn dir_names(entries: &Vec<Entry>) -> (r: Vec<String>)
    ensures
        texts(r@) == dirs_in(entry_views(entries@)),
{
    let mut r: Vec<String> = list0();
    let mut i: usize = 0;
    let ghost all = entry_views(entries@);
    let ghost test = is_visible_dir();
    while i < entries.len()
        invariant
            i <= entries@.len(),
            all == entry_views(entries@),
            test == is_visible_dir(),
            texts(r@) == names_where(all.take(i as int), test),
        decreases entries.len() - i,
    {
        assert(all.take(i + 1).drop_last() =~= all.take(i as int));
        if entries[i].is_dir && !starts_with(entries[i].name.as_str(), ".") {
            r = with(r, entries[i].name.clone());
        }
        i += 1;
    }
    assert(all.take(i as int) =~= all);
    sort_distinct(&r)
}

/// The files with the extension `gtar`, in the order of the listing.
pub fn find_gtar_archives(entries: &Vec<Entry>) -> (r: Vec<String>)
    ensures
        texts(r@) == gtars_in(entry_views(entries@)),
{
    let mut r: Vec<String> = list0();
    let mut i: usize = 0;
    let ghost all = entry_views(entries@);
    let ghost test = is_gtar();
    while i < entries.len()
        invariant
            i <= entries@.len(),
            all == entry_views(entries@),
            test == is_gtar(),
            texts(r@) == names_where(all.take(i as int), test),
        decreases entries.len() - i,
    {
        assert(all.take(i + 1).drop_last() =~= all.take(i as int));
        let name = entries[i].name.as_str();
        if entries[i].is_file && ends_with(name, ".gtar") && name.unicode_len() > 5 {
            r = with(r, entries[i].name.clone());
        }
        i += 1;
    }
    assert(all.take(i as int) =~= all);
    r
}

/// Whether a text is missing from `before`.
pub open spec fn not_in(before: Seq<Seq<char>>) -> spec_fn(Seq<char>) -> bool {
    |name: Seq<char>| !before.contains(name)
}

/// The names that were not there before.
pub open spec fn appeared(after: Seq<Seq<char>>, before: Seq<Seq<char>>) -> Seq<Seq<char>> {
    after.filter(not_in(before))
}

/// The names that were not there before.
pub fn new_names(after: &Vec<String>, before: &Vec<String>) -> (r: Vec<String>)
    ensures
        texts(r@) == appeared(texts(after@), texts(before@)),
{
    let mut r: Vec<String> = list0();
    let mut i: usize = 0;
    let ghost all = texts(after@);
    let ghost test = not_in(texts(before@));
    assert(all.take(0) =~= seq![]);
    reveal(Seq::filter);
    assert(texts(r@) =~= all.take(0).filter(test));
    while i < after.len()
        invariant
            i <= after@.len(),
            all == texts(after@),
            test == not_in(texts(before@)),
            texts(r@) == all.take(i as int).filter(test),
        decreases after.len() - i,
    {
        proof {
            reveal(Seq::filter);
            assert(all.take(i + 1).drop_last() =~= all.take(i as int));
        }
        if !among(before, after[i].as_str()) {
            r = with(r, after[i].clone());
        }
        i += 1;
    }
    assert(all.take(i as int) =~= all);
    r
}

/// The name under which a doubly wrapped archive is installed: its own without the
/// endings.
pub open spec fn gtar_target(archive: Seq<char>) -> Seq<char> {
    stem(stem(stem(stem(archive, ".gtar"@), ".tar.gz"@), ".tgz"@), ".tar"@)
}

/// The name under which a doubly wrapped archive is installed.
pub fn target_name(archive: &str) -> (r: String)
    ensures
        r@ == gtar_target(archive@),
{
    let a = strip_or_keep(archive, ".gtar");
    let b = strip_or_keep(a.as_str(), ".tar.gz");
    let c = strip_or_keep(b.as_str(), ".tgz");
    strip_or_keep(c.as_str(), ".tar")
}

/// The command that unpacks an archive into a directory, over what is there.
pub open spec fn unpack_command(archive: Seq<char>, dir: Seq<char>) -> CommandView {
    command("tar"@, seq!["-xf"@, archive, "-C"@, dir])
}

/// The command that unpacks an archive into a directory, over what is there.
pub fn extract_archive(archive: &str, dir: &str) -> (c: CommandLine)
    ensures
        c@ == unpack_command(archive@, dir@),
{
    make_command("tar", args4("-xf", archive, "-C", dir))
}

/// The command that unpacks a bundle into a directory, leaving every file that is
/// there as it is, with this many leading directories taken off.
pub open spec fn fill_command(archive: Seq<char>, dir: Seq<char>, strip: nat) -> CommandView {
    let args = seq!["-xf"@, archive, "-C"@, dir, "--skip-old-files"@];
    command(
        "tar"@,
        if strip > 0 {
            args.push("--strip-components="@ + decimal(strip))
        } else {
            args
        },
    )
}

/// The command that unpacks a bundle.
pub fn extract_bundle(archive: &str, dir: &str, strip: usize) -> (c: CommandLine)
    ensures
        c@ == fill_command(archive@, dir@, strip as nat),
{
    let args = with(args4("-xf", archive, "-C", dir), "--skip-old-files".to_owned());
    assert(texts(args@) =~= seq!["-xf"@, archive@, "-C"@, dir@, "--skip-old-files"@]);
    if strip > 0 {
        let option = "--strip-components=".to_owned().concat(decimal_text(strip as u64).as_str());
        make_command("tar", with(args, option))
    } else {
        make_command("tar", args)
    }
}

/// What came of unpacking an archive: it succeeded if and only if the program exited
/// with code 0.
pub open spec fn unpacked(end: ProcessEndView) -> Result<(), Seq<char>> {
    match end {
        ProcessEndView::Exited(code) => if code == Some(0i32) {
            Ok(())
        } else {
            Err("tar exited with "@ + code_text(code))
        },
        ProcessEndView::SpawnFailed(e) => Err("failed to spawn tar: "@ + e),
        ProcessEndView::WaitFailed(e) => Err("failed to spawn tar: "@ + e),
    }
}

/// What came of unpacking an archive.
pub fn unpacking_result(end: ProcessEnd) -> (r: Result<(), String>)
    ensures
        match r {
            Ok(_) => unpacked(end@) is Ok,
            Err(e) => unpacked(end@) == Err::<(), Seq<char>>(e@),
        },
{
    match end {
        ProcessEnd::Exited(code) => if code == Some(0i32) {
            Ok(())
        } else {
            Err("tar exited with ".to_owned().concat(show_code(code).as_str()))
        },
        ProcessEnd::SpawnFailed(e) => Err("failed to spawn tar: ".to_owned().concat(e.as_str())),
        ProcessEnd::WaitFailed(e) => Err("failed to spawn tar: ".to_owned().concat(e.as_str())),
    }
}

/// The top-level name on a line of an archive's table of contents.
pub open spec fn top_of(line: Seq<char>) -> Seq<char> {
    let path = after_dots(line);
    path.take(find(path, '/') as int)
}

/// A line of an archive's table of contents without the white space around it and the
/// references to the current directory at its front.
pub open spec fn after_dots(line: Seq<char>) -> Seq<char> {
    crate::text::after_all(trimmed(line), "./"@)
}

/// The top-level name on a line of an archive's table of contents.
pub fn top_name(line: &str) -> (r: String)
    ensures
        r@ == top_of(line@),
{
    let path = trim_start_matches(trim(line).as_str(), "./");
    before(path.as_str(), '/')
}

/// A name with an ending loses exactly that ending.
pub proof fn lemma_stem_of_suffixed(name: Seq<char>, suffix: Seq<char>)
    ensures
        stem(name + suffix, suffix) == name,
{
    let s = name + suffix;
    assert(s.skip(s.len() - suffix.len()) =~= suffix);
    assert(s.take(s.len() - suffix.len()) =~= name);
}

/// An archive that is named after its tool holds that tool.
pub proof fn law_archive_holds_its_tool(name: Seq<char>)
    ensures
        tool_of(name + ".tar.gz"@) == name,
{
    lemma_stem_of_suffixed(name, ".tar.gz"@);
}

/// Exactly the entries that pass a test are named.
pub proof fn law_names_are_those_that_pass(
    entries: Seq<EntryView>,
    test: spec_fn(EntryView) -> bool,
    name: Seq<char>,
)
    ensures
        names_where(entries, test).contains(name) <==> exists|i: int|
            0 <= i < entries.len() && test(#[trigger] entries[i]) && entries[i].name == name,
    decreases entries.len(),
{
    if entries.len() > 0 {
        let front = entries.drop_last();
        let last = entries.last();
        let n = entries.len() as int - 1;
        let rest = names_where(front, test);
        let all = names_where(entries, test);
        law_names_are_those_that_pass(front, test, name);
        if rest.contains(name) {
            let i = choose|i: int|
                0 <= i < front.len() && test(#[trigger] front[i]) && front[i].name == name;
            assert(entries[i] == front[i]);
            let k = choose|k: int| 0 <= k < rest.len() && rest[k] == name;
            assert(all[k] == name);
        }
        if test(last) && last.name == name {
            assert(entries[n] == last);
            assert(all.last() == name);
            assert(all[all.len() - 1] == name);
        }
        if all.contains(name) && !rest.contains(name) {
            let k = choose|k: int| 0 <= k < all.len() && all[k] == name;
            if k < rest.len() {
                assert(rest[k] == name);
            }
            assert(test(last) && last.name == name);
            assert(entries[n].name == name);
        }
        if exists|i: int|
            0 <= i < entries.len() && test(#[trigger] entries[i]) && entries[i].name == name {
            let i = choose|i: int|
                0 <= i < entries.len() && test(#[trigger] entries[i]) && entries[i].name == name;
            if i < n {
                assert(front[i] == entries[i]);
            }
        }
    }
}

/// Archives are taken in the order of their names, whatever the order of the listing.
pub proof fn law_archives_come_in_order(entries: Seq<EntryView>, suffix: Seq<char>)
    ensures
        in_order(archives_in(entries, suffix), itself()),
        archives_in(entries, suffix).to_multiset() == names_where(
            entries,
            is_archive(suffix),
        ).to_multiset(),
{
    crate::order::law_sorting_orders(names_where(entries, is_archive(suffix)), itself());
}

/// The names that appeared are exactly those that are there now and were not before.
pub proof fn law_appeared(after: Seq<Seq<char>>, before: Seq<Seq<char>>, name: Seq<char>)
    ensures
        appeared(after, before).contains(name) <==> after.contains(name) && !before.contains(name),
{
    broadcast use vstd::seq_lib::group_filter_ensures;

    let test = not_in(before);
    let got = after.filter(test);
    if got.contains(name) {
        let i = choose|i: int| 0 <= i < got.len() && got[i] == name;
        assert(test(got[i]));
        after.lemma_filter_contains_rev(test, name);
    }
    if after.contains(name) && !before.contains(name) {
        let i = choose|i: int| 0 <= i < after.len() && after[i] == name;
        assert(test(after[i]));
        after.lemma_filter_contains(test, i);
    }
}

/// A bundle is never unpacked over a file that is there.
pub proof fn law_bundles_skip_old_files(archive: Seq<char>, dir: Seq<char>, strip: nat)
    ensures
        fill_command(archive, dir, strip).args.contains("--skip-old-files"@),
{
    assert(fill_command(archive, dir, strip).args[4] == "--skip-old-files"@);
}

/// Unpacking ends well if and only if the program exited with code 0.
pub proof fn law_unpacked(end: ProcessEndView)
    ensures
        unpacked(end) is Ok <==> end == ProcessEndView::Exited(Some(0i32)),
{
}

} // verus!
