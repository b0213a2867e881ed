//! VNC sessions: which display belongs to whom in `/etc/tigervnc/vncserver.users`.

use vstd::prelude::*;

use crate::exchange::{maybe_text, with};
use crate::number::{decimal, decimal_text, number_of, parse_number};
use crate::text;
use crate::text::{
    begins, halves, join, joined, lines, lines_of, same, slice, split_once, starts_with, texts,
    trim, trim_start, trim_start_matches, trimmed, trimmed_start,
};

verus! {

/// The display and the user that a line maps to each other. Empty lines, comments and
/// lines without an equals sign map nothing.
pub open spec fn mapping_of(line: Seq<char>) -> Option<(Seq<char>, Seq<char>)> {
    let t = trimmed(line);
    if t.len() == 0 || t[0] == '#' {
        None
    } else {
        match halves(t, '=') {
            Some(p) => Some((trimmed(p.0), trimmed(p.1))),
            None => None,
        }
    }
}

/// Whether a line maps some display to `user`.
pub open spec fn maps_to(line: Seq<char>, user: Seq<char>) -> bool {
    mapping_of(line) matches Some(m) && m.1 == user
}

/// Whether some line maps a display to `user`.
pub open spec fn vnc_configured(content: Seq<char>, user: Seq<char>) -> bool {
    exists|i: int| 0 <= i < lines_of(content).len() && maps_to(#[trigger] lines_of(content)[i], user)
}

/// The display of the first line that maps one to `user`.
pub open spec fn own_display(ls: Seq<Seq<char>>, user: Seq<char>) -> Option<Seq<char>>
    decreases ls.len(),
{
    if ls.len() == 0 {
        None
    } else if maps_to(ls[0], user) {
        Some((mapping_of(ls[0])->Some_0).0)
    } else {
        own_display(ls.drop_first(), user)
    }
}

/// The number of a display that is written as a colon and a number.
pub open spec fn display_number(d: Seq<char>) -> Option<u32> {
    if d.len() > 0 && d[0] == ':' {
        number_of(d.drop_first())
    } else {
        None
    }
}

/// Whether a line maps the display with the number `n` to anybody.
pub open spec fn takes(line: Seq<char>, n: int) -> bool {
    mapping_of(line) matches Some(m) && display_number(m.0) matches Some(k) && k == n
}

/// Whether some line maps the display with the number `n` to anybody.
pub open spec fn taken(ls: Seq<Seq<char>>, n: int) -> bool {
    exists|i: int| 0 <= i < ls.len() && takes(#[trigger] ls[i], n)
}

/// The lowest number from `n` on, within 32 bits, that no line takes.
pub open spec fn lowest_free(ls: Seq<Seq<char>>, n: int) -> Option<int>
    decreases u32::MAX + 1 - n,
{
    if n > u32::MAX {
        None
    } else if taken(ls, n) {
        lowest_free(ls, n + 1)
    } else {
        Some(n)
    }
}

/// The display for `user`: their own where they have one, else that with the lowest
/// free number from 1 on. There is none only if every 32-bit number is taken.
pub open spec fn allocated(content: Seq<char>, user: Seq<char>) -> Option<Seq<char>> {
    let ls = lines_of(content);
    match own_display(ls, user) {
        Some(d) => Some(d),
        None => match lowest_free(ls, 1) {
            Some(n) => Some(":"@ + decimal(n as nat)),
            None => None,
        },
    }
}

fn read_mapping(line: &str) -> (r: Option<(String, String)>)
    ensures
        match r {
            Some(p) => mapping_of(line@) == Some((p.0@, p.1@)),
            None => mapping_of(line@) is None,
        },
{
    let t = trim(line);
    if t.as_str().unicode_len() == 0 || t.as_str().get_char(0) == '#' {
        return None;
    }
    match split_once(t.as_str(), '=') {
        Some(p) => Some((trim(p.0.as_str()), trim(p.1.as_str()))),
        None => None,
    }
}

/// Whether the file maps any display to `username`.
pub fn is_vnc_configured(content: &str, username: &str) -> (r: bool)
    ensures
        r == vnc_configured(content@, username@),
{
    let ls = lines(content);
    let ghost all = lines_of(content@);
    let mut i: usize = 0;
    while i < ls.len()
        invariant
            i <= ls@.len(),
            all == lines_of(content@),
            texts(ls@) == all,
            forall|k: int| 0 <= k < i ==> !maps_to(#[trigger] all[k], username@),
        decreases ls.len() - i,
    {
        assert(all[i as int] == ls@[i as int]@);
        if let Some(m) = read_mapping(ls[i].as_str()) {
            if same(m.1.as_str(), username) {
                assert(maps_to(all[i as int], username@));
                return true;
            }
        }
        i += 1;
    }
    false
}

fn read_display(d: &str) -> (r: Option<u32>)
    ensures
        r == display_number(d@),
{
    let n: usize = d.unicode_len();
    if n > 0 && d.get_char(0) == ':' {
        let rest = slice(d, 1, n);
        assert(rest@ =~= d@.drop_first());
        parse_number(rest.as_str())
    } else {
        None
    }
}

fn is_used(used: &Vec<u32>, n: u32) -> (r: bool)
    ensures
        r == used@.contains(n),
{
    let mut k: usize = 0;
    while k < used.len()
        invariant
            k <= used@.len(),
            forall|j: int| 0 <= j < k ==> used@[j] != n,
        decreases used.len() - k,
    {
        if used[k] == n {
            return true;
        }
        k += 1;
    }
    false
}

/// The display for `username`, or none where no number is free.
pub fn find_vnc_display(content: &str, username: &str) -> (r: Option<String>)
    ensures
        maybe_text(r) == allocated(content@, username@),
{
    let ls = lines(content);
    let ghost all = lines_of(content@);
    let mut used: Vec<u32> = Vec::new();
    let mut i: usize = 0;
    assert(all.skip(0) =~= all);
    while i < ls.len()
        invariant
            i <= ls@.len(),
            all == lines_of(content@),
            texts(ls@) == all,
            own_display(all, username@) == own_display(all.skip(i as int), username@),
            forall|n: u32|
                #[trigger] used@.contains(n) <==> exists|k: int|
                    0 <= k < i && takes(#[trigger] all[k], n as int),
        decreases ls.len() - i,
    {
        let ghost t = all.skip(i as int);
        assert(t[0] == ls@[i as int]@);
        assert(t.drop_first() =~= all.skip(i + 1));
        assert(all[i as int] == ls@[i as int]@);
        let ghost before = used@;
        if let Some(m) = read_mapping(ls[i].as_str()) {
            if same(m.1.as_str(), username) {
                return Some(m.0);
            }
            if let Some(n) = read_display(m.0.as_str()) {
                used.push(n);
            }
        }
        proof {
            assert forall|n: u32| #[trigger] used@.contains(n) <==> exists|k: int|
                0 <= k < i + 1 && takes(#[trigger] all[k], n as int) by {
                if used@.contains(n) {
                    let j = choose|j: int| 0 <= j < used@.len() && used@[j] == n;
                    if j < before.len() {
                        assert(before[j] == n);
                        assert(before.contains(n));
                    } else {
                        assert(takes(all[i as int], n as int));
                    }
                }
                if exists|k: int| 0 <= k < i + 1 && takes(#[trigger] all[k], n as int) {
                    let k = choose|k: int| 0 <= k < i + 1 && takes(#[trigger] all[k], n as int);
                    if k < i {
                        assert(before.contains(n));
                        let j = choose|j: int| 0 <= j < before.len() && before[j] == n;
                        assert(used@[j] == n);
                    } else {
                        assert(used@[used@.len() - 1] == n);
                    }
                }
            }
        }
        i += 1;
    }
    assert(all.skip(i as int) =~= seq![]);
    let mut n: u64 = 1;
    while n <= 0xffff_ffff
        invariant
            1 <= n <= 0x1_0000_0000,
            all == lines_of(content@),
            own_display(all, username@) is None,
            lowest_free(all, 1) == lowest_free(all, n as int),
            forall|m: u32|
                #[trigger] used@.contains(m) <==> exists|k: int|
                    0 <= k < all.len() && takes(#[trigger] all[k], m as int),
        decreases 0x1_0000_0000 - n,
    {
        let found = is_used(&used, n as u32);
        assert(taken(all, n as int) == found) by {
            if found {
                let j = choose|j: int| 0 <= j < all.len() && takes(#[trigger] all[j], n as int);
                assert(takes(all[j], n as int));
            }
        }
        if !found {
            return Some(":".to_owned().concat(decimal_text(n).as_str()));
        }
        n += 1;
    }
    None
}

/// The display for `username`.
pub fn allocate_vnc_display(content: &str, username: &str) -> (r: String)
    requires
        allocated(content@, username@) is Some,
    ensures
        allocated(content@, username@) == Some(r@),
{
    match find_vnc_display(content, username) {
        Some(d) => d,
        None => String::new(),
    }
}

/// The port of a display's VNC server; a display that is no number counts as 1.
pub open spec fn vnc_port(display: Seq<char>) -> int {
    5900 + (match number_of(text::after_all(display, ":"@)) {
        Some(n) => n as int,
        None => 1,
    })
}

/// The port of a display's VNC server, where it fits in 32 bits.
pub fn port_of_display(display: &str) -> (r: Option<u32>)
    ensures
        match r {
            Some(p) => p == vnc_port(display@),
            None => vnc_port(display@) > u32::MAX,
        },
{
    let n: u32 = match parse_number(trim_start_matches(display, ":").as_str()) {
        Some(n) => n,
        None => 1,
    };
    n.checked_add(5900)
}

/// The line that maps `display` to `user`.
pub open spec fn mapping_line(display: Seq<char>, user: Seq<char>) -> Seq<char> {
    display + "="@ + user
}

/// Whether a line is for `display`: it maps the display, to whomever, or it begins as the
/// line that maps it would.
pub open spec fn is_for(line: Seq<char>, display: Seq<char>) -> bool {
    ||| mapping_of(line) matches Some(m) && m.0 == display
    ||| begins(trimmed_start(line), display + "="@)
}

fn is_line_for(line: &str, display: &str) -> (r: bool)
    ensures
        r == is_for(line@, display@),
{
    if let Some(m) = read_mapping(line) {
        if same(m.0.as_str(), display) {
            return true;
        }
    }
    let prefix = display.to_owned().concat("=");
    starts_with(trim_start(line).as_str(), prefix.as_str())
}

/// The lines that are not for `display`.
pub open spec fn others(ls: Seq<Seq<char>>, display: Seq<char>) -> Seq<Seq<char>>
    decreases ls.len(),
{
    if ls.len() == 0 {
        seq![]
    } else if is_for(ls.last(), display) {
        others(ls.drop_last(), display)
    } else {
        others(ls.drop_last(), display).push(ls.last())
    }
}

/// Whether the line that maps `display` to `user` stands in the file.
pub open spec fn is_mapped(content: Seq<char>, display: Seq<char>, user: Seq<char>) -> bool {
    exists|i: int|
        0 <= i < lines_of(content).len() && trimmed(#[trigger] lines_of(content)[i])
            == mapping_line(display, user)
}

/// The file with `display` mapped to `user` at its end, and to nobody else.
pub open spec fn remapped(content: Seq<char>, display: Seq<char>, user: Seq<char>) -> Seq<char> {
    joined(others(lines_of(content), display).push(mapping_line(display, user)), "\n"@) + "\n"@
}

/// The file's contents after `display` is mapped to `user`: as they are where that
/// line stands in them, even beside another mapping of the display.
pub open spec fn with_mapping(content: Seq<char>, display: Seq<char>, user: Seq<char>) -> Seq<char> {
    if is_mapped(content, display, user) {
        content
    } else {
        remapped(content, display, user)
    }
}

/// The new contents of the file that map `display` to `username`, or none where the
/// line stands in it.
pub fn map_vnc_display(content: &str, display: &str, username: &str) -> (r: Option<String>)
    ensures
        match r {
            Some(c) => !is_mapped(content@, display@, username@) && c@ == remapped(
                content@,
                display@,
                username@,
            ),
            None => is_mapped(content@, display@, username@),
        },
{
    let target = display.to_owned().concat("=").concat(username);
    let ls = lines(content);
    let ghost all = lines_of(content@);
    let mut kept: Vec<String> = Vec::new();
    let mut i: usize = 0;
    assert(texts(kept@) =~= seq![]);
    assert(all.take(0) =~= seq![]);
    while i < ls.len()
        invariant
            i <= ls@.len(),
            all == lines_of(content@),
            texts(ls@) == all,
            target@ == mapping_line(display@, username@),
            texts(kept@) == others(all.take(i as int), display@),
            forall|k: int| 0 <= k < i ==> trimmed(#[trigger] all[k]) != target@,
        decreases ls.len() - i,
    {
        assert(all[i as int] == ls@[i as int]@);
        assert(all.take(i + 1).drop_last() =~= all.take(i as int));
        assert(all.take(i + 1).last() == all[i as int]);
        if same(trim(ls[i].as_str()).as_str(), target.as_str()) {
            assert(trimmed(all[i as int]) == mapping_line(display@, username@));
            return None;
        }
        if !is_line_for(ls[i].as_str(), display) {
            kept = with(kept, ls[i].clone());
        }
        i += 1;
    }
    assert(all.take(i as int) =~= all);
    kept = with(kept, target);
    Some(join(&kept, "\n").concat("\n"))
}

} // verus!
