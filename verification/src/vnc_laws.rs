//! What holds of the mapping of VNC displays as a whole.

use vstd::prelude::*;
use vstd::set_lib::set_int_range;

use crate::number;
use crate::number::{decimal, is_digit};
use crate::order::lemma_push_contains;
use crate::text::{
    begins, ends, find, halves, is_white, joined, lemma_find_bound, lemma_trimmed_start_suffix,
    lines_of, trimmed, trimmed_end, trimmed_start, without_cr,
};
use crate::vnc::{
    allocated, display_number, is_for, is_mapped, lowest_free, mapping_line, mapping_of, maps_to,
    others, own_display, remapped, taken, takes, vnc_configured, with_mapping,
};

verus! {

/// A text without white space at its ends and without a line break.
pub open spec fn plain(s: Seq<char>) -> bool {
    trimmed(s) == s && !s.contains('\n')
}

/// A text that can stand for a display in a line of the file.
pub open spec fn plain_display(d: Seq<char>) -> bool {
    plain(d) && !d.contains('=') && (d.len() > 0 ==> d[0] != '#')
}

/// Whether some line maps `display` to `user`.
pub open spec fn has_mapping(content: Seq<char>, display: Seq<char>, user: Seq<char>) -> bool {
    exists|i: int|
        0 <= i < lines_of(content).len() && mapping_of(#[trigger] lines_of(content)[i]) == Some(
            (display, user),
        )
}

proof fn lemma_trimmed_end_prefix(s: Seq<char>)
    ensures
        trimmed_end(s).len() <= s.len(),
        trimmed_end(s) == s.take(trimmed_end(s).len() as int),
        trimmed_end(s).len() > 0 ==> !is_white(trimmed_end(s).last()),
        forall|i: int| trimmed_end(s).len() <= i < s.len() ==> is_white(s[i]),
    decreases s.len(),
{
    if s.len() > 0 && is_white(s.last()) {
        let t = s.drop_last();
        lemma_trimmed_end_prefix(t);
        assert(t.take(trimmed_end(t).len() as int) =~= s.take(trimmed_end(t).len() as int));
        assert forall|i: int| trimmed_end(s).len() <= i < s.len() implies is_white(s[i]) by {
            if i < t.len() {
                assert(s[i] == t[i]);
            }
        }
    } else {
        assert(s.take(s.len() as int) =~= s);
    }
}

/// Where the trimmed text stands in the text.
proof fn lemma_trimmed_range(s: Seq<char>) -> (r: (int, int))
    ensures
        0 <= r.0 <= r.1 <= s.len(),
        trimmed(s) == s.subrange(r.0, r.1),
        r.0 < r.1 ==> !is_white(s[r.0]) && !is_white(s[r.1 - 1]),
{
    let t = trimmed_start(s);
    lemma_trimmed_start_suffix(s);
    lemma_trimmed_end_prefix(t);
    let u = trimmed_end(t);
    let a = s.len() - t.len();
    let b = a + u.len();
    assert(u =~= s.subrange(a, b));
    if u.len() > 0 {
        assert(u[0] == t[0] && t[0] == s[a]);
        assert(u.last() == s[b - 1]);
    }
    (a, b)
}

proof fn lemma_trimmed_fixed(s: Seq<char>)
    ensures
        trimmed(s) == s <==> (s.len() > 0 ==> !is_white(s[0]) && !is_white(s.last())),
{
    if s.len() > 0 {
        if !is_white(s[0]) && !is_white(s.last()) {
            assert(trimmed_start(s) == s);
            assert(trimmed_end(s) == s);
        } else if trimmed(s) == s {
            let (a, b) = lemma_trimmed_range(s);
            assert(s.subrange(a, b).len() == s.len());
            assert(a == 0 && b == s.len());
        }
    } else {
        assert(trimmed_start(s) == s);
    }
}

proof fn lemma_trimmed_twice(s: Seq<char>)
    ensures
        trimmed(trimmed(s)) == trimmed(s),
{
    let (a, b) = lemma_trimmed_range(s);
    lemma_trimmed_fixed(trimmed(s));
}

proof fn lemma_trimmed_push(s: Seq<char>, w: char)
    requires
        is_white(w),
    ensures
        trimmed(s.push(w)) == trimmed(s),
    decreases s.len(),
{
    let t = s.push(w);
    if s.len() == 0 {
        assert(t.drop_first() =~= s);
        assert(trimmed_start(t) == trimmed_start(s));
    } else if is_white(s[0]) {
        assert(t[0] == s[0]);
        assert(t.drop_first() =~= s.drop_first().push(w));
        lemma_trimmed_push(s.drop_first(), w);
    } else {
        assert(t[0] == s[0]);
        assert(t.last() == w);
        assert(t.drop_last() =~= s);
    }
}

proof fn lemma_without_cr_maps_alike(s: Seq<char>)
    ensures
        trimmed(without_cr(s)) == trimmed(s),
        mapping_of(without_cr(s)) == mapping_of(s),
{
    if s.len() > 0 && s.last() == '\r' {
        lemma_trimmed_push(s.drop_last(), '\r');
        assert(s.drop_last().push('\r') =~= s);
    }
}

proof fn lemma_find_at(s: Seq<char>, c: char, i: int)
    requires
        0 <= i < s.len(),
        s[i] == c,
        forall|k: int| 0 <= k < i ==> s[k] != c,
    ensures
        find(s, c) == i,
{
    lemma_find_bound(s, c);
    let f = find(s, c) as int;
    if f < i {
        assert(s[f] != c);
    }
    if f > i {
        assert(s[i] != c);
    }
}

proof fn lemma_lines_append(p: Seq<char>, x: Seq<char>)
    requires
        p.len() == 0 || p.last() == '\n',
        !x.contains('\n'),
    ensures
        lines_of(p + x + seq!['\n']) == lines_of(p).push(without_cr(x)),
    decreases p.len(),
{
    let s = p + x + seq!['\n'];
    assert(forall|k: int| 0 <= k < x.len() ==> x.contains(#[trigger] x[k]));
    if p.len() == 0 {
        assert(s =~= x + seq!['\n']);
        lemma_find_at(s, '\n', x.len() as int);
        assert(s.take(x.len() as int) =~= x);
        assert(s.skip(x.len() as int + 1) =~= seq![]);
        assert(lines_of(s.skip(x.len() as int + 1)) =~= seq![]);
        assert(lines_of(s) =~= seq![without_cr(x)]);
        assert(lines_of(p) =~= seq![]);
    } else {
        lemma_find_bound(p, '\n');
        let i = find(p, '\n') as int;
        if i == p.len() {
            assert(p[p.len() - 1] != '\n');
        }
        assert(s[i] == p[i]);
        assert forall|k: int| 0 <= k < i implies s[k] != '\n' by {
            assert(s[k] == p[k]);
        }
        lemma_find_at(s, '\n', i);
        let q = p.skip(i + 1);
        assert(s.take(i) =~= p.take(i));
        assert(s.skip(i + 1) =~= q + x + seq!['\n']);
        if q.len() > 0 {
            assert(q.last() == p.last());
        }
        lemma_lines_append(q, x);
        assert(lines_of(s) =~= lines_of(p).push(without_cr(x)));
    }
}

proof fn lemma_lines_joined(ls: Seq<Seq<char>>)
    requires
        ls.len() > 0,
        forall|i: int| 0 <= i < ls.len() ==> !(#[trigger] ls[i]).contains('\n'),
    ensures
        lines_of(joined(ls, "\n"@) + "\n"@) == ls.map_values(|l: Seq<char>| without_cr(l)),
    decreases ls.len(),
{
    reveal_strlit("\n");
    assert("\n"@ =~= seq!['\n']);
    if ls.len() == 1 {
        assert(joined(ls, "\n"@) == ls[0]);
        lemma_lines_append(seq![], ls[0]);
        assert(Seq::<char>::empty() + ls[0] + seq!['\n'] =~= ls[0] + seq!['\n']);
        assert(lines_of(Seq::<char>::empty()) =~= seq![]);
        assert(lines_of(ls[0] + seq!['\n']) =~= ls.map_values(|l: Seq<char>| without_cr(l)));
    } else {
        let front = ls.drop_last();
        assert forall|i: int| 0 <= i < front.len() implies !(#[trigger] front[i]).contains('\n') by {
            assert(!ls[i].contains('\n'));
        }
        lemma_lines_joined(front);
        let p = joined(front, "\n"@) + "\n"@;
        assert(p.last() == '\n');
        assert(!ls[ls.len() - 1].contains('\n'));
        lemma_lines_append(p, ls.last());
        assert(joined(ls, "\n"@) + "\n"@ =~= p + ls.last() + seq!['\n']);
        assert(lines_of(p).push(without_cr(ls.last())) =~= ls.map_values(
            |l: Seq<char>| without_cr(l),
        ));
    }
}

proof fn lemma_lines_hold_no_break(s: Seq<char>)
    ensures
        forall|i: int| 0 <= i < lines_of(s).len() ==> !(#[trigger] lines_of(s)[i]).contains('\n'),
        lines_of(s).len() <= s.len(),
    decreases s.len(),
{
    lemma_find_bound(s, '\n');
    if s.len() > 0 {
        let i = find(s, '\n') as int;
        if i < s.len() {
            let rest = lines_of(s.skip(i + 1));
            lemma_lines_hold_no_break(s.skip(i + 1));
            let first = without_cr(s.take(i));
            assert(!first.contains('\n')) by {
                if first.contains('\n') {
                    let k = choose|k: int| 0 <= k < first.len() && first[k] == '\n';
                    assert(s[k] == '\n');
                }
            }
            assert forall|j: int| 0 <= j < lines_of(s).len() implies !(
            #[trigger] lines_of(s)[j]).contains('\n') by {
                if j > 0 {
                    assert(lines_of(s)[j] == rest[j - 1]);
                }
            }
        } else {
            assert(!s.contains('\n'));
        }
    }
}

proof fn lemma_others(ls: Seq<Seq<char>>, d: Seq<char>)
    ensures
        forall|l: Seq<char>| #[trigger]
            others(ls, d).contains(l) <==> ls.contains(l) && !is_for(l, d),
    decreases ls.len(),
{
    if ls.len() > 0 {
        let front = ls.drop_last();
        lemma_others(front, d);
        assert(ls =~= front.push(ls.last()));
        assert forall|l: Seq<char>| #[trigger] others(ls, d).contains(l) <==> ls.contains(l)
            && !is_for(l, d) by {
            lemma_push_contains(front, ls.last(), l);
            lemma_push_contains(others(front, d), ls.last(), l);
        }
    }
}

/// The line that maps a plain text to another is a plain text.
proof fn lemma_mapping_line_plain(d: Seq<char>, u: Seq<char>)
    requires
        plain(d),
        plain(u),
    ensures
        trimmed(mapping_line(d, u)) == mapping_line(d, u),
        !mapping_line(d, u).contains('\n'),
{
    reveal_strlit("=");
    let t = mapping_line(d, u);
    assert(t.len() == d.len() + 1 + u.len());
    assert(forall|k: int| 0 <= k < d.len() ==> t[k] == d[k]);
    assert(t[d.len() as int] == '=');
    assert(forall|k: int| 0 <= k < u.len() ==> t[d.len() + 1 + k] == #[trigger] u[k]);
    lemma_trimmed_fixed(d);
    lemma_trimmed_fixed(u);
    if u.len() > 0 {
        assert(t.last() == u[u.len() - 1]);
    }
    lemma_trimmed_fixed(t);
    if t.contains('\n') {
        let k = choose|k: int| 0 <= k < t.len() && t[k] == '\n';
        if k < d.len() {
            assert(d.contains(d[k]));
        } else if k > d.len() {
            assert(u.contains(u[k - d.len() - 1]));
        }
    }
}

/// The line that maps a plain display to a plain user does so.
proof fn lemma_mapping_line(d: Seq<char>, u: Seq<char>)
    requires
        plain_display(d),
        plain(u),
    ensures
        mapping_of(mapping_line(d, u)) == Some((d, u)),
{
    reveal_strlit("=");
    let t = mapping_line(d, u);
    lemma_mapping_line_plain(d, u);
    assert(t.len() == d.len() + 1 + u.len());
    assert(t[d.len() as int] == '=');
    assert forall|k: int| 0 <= k < d.len() implies t[k] != '=' by {
        assert(t[k] == d[k]);
        assert(d.contains(d[k]));
    }
    lemma_find_at(t, '=', d.len() as int);
    assert(t.take(d.len() as int) =~= d);
    assert(t.skip(d.len() as int + 1) =~= u);
}

/// The lines of the file after a display has been mapped anew.
proof fn lemma_remapped_lines(content: Seq<char>, d: Seq<char>, u: Seq<char>)
    requires
        plain(d),
        plain(u),
    ensures
        lines_of(remapped(content, d, u)) == others(lines_of(content), d).push(
            mapping_line(d, u),
        ).map_values(|l: Seq<char>| without_cr(l)),
        without_cr(mapping_line(d, u)) == mapping_line(d, u),
{
    let ls = lines_of(content);
    let kept = others(ls, d);
    let t = mapping_line(d, u);
    lemma_lines_hold_no_break(content);
    lemma_others(ls, d);
    lemma_mapping_line_plain(d, u);
    let all = kept.push(t);
    assert forall|i: int| 0 <= i < all.len() implies !(#[trigger] all[i]).contains('\n') by {
        if i < kept.len() {
            assert(kept.contains(kept[i]));
            let k = choose|k: int| 0 <= k < ls.len() && ls[k] == kept[i];
            assert(!ls[k].contains('\n'));
        }
    }
    lemma_lines_joined(all);
    reveal_strlit("=");
    lemma_trimmed_fixed(t);
    assert(t.len() > 0);
}

/// A display that is allocated can stand in a line of the file.
pub proof fn law_allocated_displays_are_plain(content: Seq<char>, user: Seq<char>)
    requires
        allocated(content, user) is Some,
    ensures
        plain_display(allocated(content, user)->Some_0),
{
    let ls = lines_of(content);
    lemma_lines_hold_no_break(content);
    if own_display(ls, user) is Some {
        lemma_own_display_plain(ls, user);
    } else {
        let n = lowest_free(ls, 1)->Some_0;
        lemma_numbered_display(n as nat);
    }
}

proof fn lemma_numbered_display(n: nat)
    ensures
        plain_display(":"@ + decimal(n)),
        (":"@ + decimal(n)).len() > 1,
        (":"@ + decimal(n))[0] == ':',
        (":"@ + decimal(n)).drop_first() == decimal(n),
{
    reveal_strlit(":");
    let d = ":"@ + decimal(n);
    number::law_decimal_is_digits(n);
    assert(d[0] == ':');
    assert(forall|k: int| 1 <= k < d.len() ==> d[k] == decimal(n)[k - 1]);
    assert(is_digit(decimal(n)[decimal(n).len() - 1]));
    assert(d.last() == decimal(n)[decimal(n).len() - 1]);
    lemma_trimmed_fixed(d);
    assert forall|c: char| d.contains(c) implies c == ':' || is_digit(c) by {
        let k = choose|k: int| 0 <= k < d.len() && d[k] == c;
        if k > 0 {
            assert(is_digit(decimal(n)[k - 1]));
        }
    }
    assert(d.drop_first() =~= decimal(n));
}

proof fn lemma_mapped_display_plain(l: Seq<char>)
    requires
        mapping_of(l) is Some,
        !l.contains('\n'),
    ensures
        plain_display((mapping_of(l)->Some_0).0),
{
    let t = trimmed(l);
    let (a, b) = lemma_trimmed_range(l);
    lemma_find_bound(t, '=');
    let i = find(t, '=') as int;
    let h = t.take(i);
    let d = trimmed(h);
    let (e, f) = lemma_trimmed_range(h);
    lemma_trimmed_twice(h);
    assert forall|k: int| 0 <= k < d.len() implies #[trigger] d[k] == l[a + e + k] && d[k] == t[e
        + k] by {}
    if d.contains('\n') {
        let k = choose|k: int| 0 <= k < d.len() && d[k] == '\n';
        assert(l[a + e + k] == '\n');
    }
    if d.contains('=') {
        let k = choose|k: int| 0 <= k < d.len() && d[k] == '=';
        assert(t[e + k] == '=');
    }
    if d.len() > 0 {
        assert(h[0] == t[0] && t[0] == l[a]);
        assert(!is_white(h[0]));
        assert(trimmed_start(h) == h);
        lemma_trimmed_end_prefix(h);
        assert(d[0] == t[0]);
    }
}

proof fn lemma_own_display_plain(ls: Seq<Seq<char>>, user: Seq<char>)
    requires
        own_display(ls, user) is Some,
        forall|i: int| 0 <= i < ls.len() ==> !(#[trigger] ls[i]).contains('\n'),
    ensures
        plain_display(own_display(ls, user)->Some_0),
    decreases ls.len(),
{
    if maps_to(ls[0], user) {
        lemma_mapped_display_plain(ls[0]);
    } else {
        let rest = ls.drop_first();
        assert forall|i: int| 0 <= i < rest.len() implies !(#[trigger] rest[i]).contains('\n') by {
            assert(!ls[i + 1].contains('\n'));
        }
        lemma_own_display_plain(rest, user);
    }
}

/// What is written is read back: once a plain text is mapped to another, the line stands
/// in the file; and where the first can stand for a display, the file maps that display
/// to the user, and they count as configured.
pub proof fn law_mapping_reads_back(content: Seq<char>, d: Seq<char>, u: Seq<char>)
    requires
        plain(d),
        plain(u),
    ensures
        is_mapped(with_mapping(content, d, u), d, u),
        plain_display(d) ==> has_mapping(with_mapping(content, d, u), d, u),
        plain_display(d) ==> vnc_configured(with_mapping(content, d, u), u),
{
    let t = mapping_line(d, u);
    let c = with_mapping(content, d, u);
    let ls = lines_of(c);
    lemma_mapping_line_plain(d, u);
    if !is_mapped(content, d, u) {
        lemma_remapped_lines(content, d, u);
        let k = others(lines_of(content), d).len() as int;
        assert(trimmed(ls[k]) == t);
    }
    let i = choose|i: int| 0 <= i < ls.len() && trimmed(#[trigger] ls[i]) == t;
    if plain_display(d) {
        lemma_mapping_line(d, u);
        assert(mapping_of(ls[i]) == Some((d, u)));
        assert(maps_to(ls[i], u));
    }
}

/// Mapping a display to a user a second time changes nothing.
pub proof fn law_mapping_is_idempotent(content: Seq<char>, d: Seq<char>, u: Seq<char>)
    requires
        plain(d),
        plain(u),
    ensures
        with_mapping(with_mapping(content, d, u), d, u) == with_mapping(content, d, u),
{
    law_mapping_reads_back(content, d, u);
}

/// A line for a plain display maps that display.
proof fn lemma_is_for_maps(l: Seq<char>, d: Seq<char>)
    requires
        plain_display(d),
        is_for(l, d),
    ensures
        mapping_of(l) matches Some(m) && m.0 == d,
{
    if !(mapping_of(l) matches Some(m) && m.0 == d) {
        reveal_strlit("=");
        let s = trimmed_start(l);
        let p = d + "="@;
        assert(s.take(p.len() as int) == p);
        assert(forall|k: int| 0 <= k < p.len() ==> s[k] == #[trigger] p[k]);
        assert(s[d.len() as int] == p[d.len() as int]);
        lemma_trimmed_end_prefix(s);
        let t = trimmed(l);
        if t.len() <= d.len() {
            assert(is_white(s[d.len() as int]));
        }
        assert(forall|k: int| 0 <= k < p.len() ==> t[k] == #[trigger] p[k]);
        assert(t[d.len() as int] == p[d.len() as int]);
        assert forall|k: int| 0 <= k < d.len() implies t[k] != '=' by {
            assert(t[k] == p[k] && p[k] == d[k]);
            assert(d.contains(d[k]));
        }
        lemma_find_at(t, '=', d.len() as int);
        assert(t.take(d.len() as int) =~= d) by {
            assert forall|k: int| 0 <= k < d.len() implies t[k] == d[k] by {
                assert(t[k] == p[k]);
            }
        }
        assert(t[0] == p[0]);
    }
}

proof fn lemma_trimmed_start_push(s: Seq<char>, w: char, p: Seq<char>)
    requires
        begins(trimmed_start(s), p),
        p.len() > 0,
    ensures
        begins(trimmed_start(s.push(w)), p),
    decreases s.len(),
{
    let t = s.push(w);
    if s.len() > 0 && is_white(s[0]) {
        assert(t[0] == s[0]);
        assert(t.drop_first() =~= s.drop_first().push(w));
        lemma_trimmed_start_push(s.drop_first(), w, p);
    } else if s.len() > 0 {
        assert(t[0] == s[0]);
        assert(t.take(p.len() as int) =~= s.take(p.len() as int));
    }
}

proof fn lemma_without_cr_is_for_alike(l: Seq<char>, d: Seq<char>)
    requires
        is_for(without_cr(l), d),
    ensures
        is_for(l, d),
{
    lemma_without_cr_maps_alike(l);
    if l.len() > 0 && l.last() == '\r' && begins(trimmed_start(l.drop_last()), d + "="@) {
        reveal_strlit("=");
        lemma_trimmed_start_push(l.drop_last(), '\r', d + "="@);
        assert(l.drop_last().push('\r') =~= l);
    }
}

/// The mappings of all other displays stay.
pub proof fn law_other_mappings_stay(
    content: Seq<char>,
    d: Seq<char>,
    u: Seq<char>,
    e: Seq<char>,
    v: Seq<char>,
)
    requires
        plain_display(d),
        plain(u),
        e != d,
    ensures
        has_mapping(content, e, v) <==> has_mapping(with_mapping(content, d, u), e, v),
{
    if !is_mapped(content, d, u) {
        let ls = lines_of(content);
        let kept = others(ls, d);
        let c = remapped(content, d, u);
        lemma_remapped_lines(content, d, u);
        lemma_mapping_line(d, u);
        lemma_others(ls, d);
        if has_mapping(content, e, v) {
            let i = choose|i: int| 0 <= i < ls.len() && mapping_of(#[trigger] ls[i]) == Some((e, v));
            if is_for(ls[i], d) {
                lemma_is_for_maps(ls[i], d);
            }
            assert(ls.contains(ls[i]));
            assert(kept.contains(ls[i]));
            let k = choose|k: int| 0 <= k < kept.len() && kept[k] == ls[i];
            lemma_without_cr_maps_alike(kept[k]);
            assert(lines_of(c)[k] == without_cr(kept[k]));
        }
        if has_mapping(c, e, v) {
            let k = choose|k: int|
                0 <= k < lines_of(c).len() && mapping_of(#[trigger] lines_of(c)[k]) == Some((e, v));
            if k < kept.len() {
                assert(lines_of(c)[k] == without_cr(kept[k]));
                lemma_without_cr_maps_alike(kept[k]);
                assert(kept.contains(kept[k]));
                let i = choose|i: int| 0 <= i < ls.len() && ls[i] == kept[k];
                assert(mapping_of(ls[i]) == Some((e, v)));
            } else {
                assert(lines_of(c)[k] == mapping_line(d, u));
            }
        }
    }
}

/// Where the file had to be changed, no line but its last is for the display, however the
/// others were written: any mapping that the display had before is gone.
pub proof fn law_prior_mapping_is_replaced(content: Seq<char>, d: Seq<char>, u: Seq<char>, i: int)
    requires
        plain(d),
        plain(u),
        !is_mapped(content, d, u),
        0 <= i < lines_of(with_mapping(content, d, u)).len(),
    ensures
        ({
            let ls = lines_of(with_mapping(content, d, u));
            &&& ls.last() == mapping_line(d, u)
            &&& i < ls.len() - 1 ==> !is_for(ls[i], d)
            &&& plain_display(d) ==> ((mapping_of(ls[i]) matches Some(m) && m.0 == d) <==> i
                == ls.len() - 1)
        }),
{
    let ls = lines_of(content);
    let kept = others(ls, d);
    let new = lines_of(with_mapping(content, d, u));
    lemma_remapped_lines(content, d, u);
    lemma_others(ls, d);
    if i < kept.len() {
        assert(new[i] == without_cr(kept[i]));
        assert(kept.contains(kept[i]));
        if is_for(new[i], d) {
            lemma_without_cr_is_for_alike(kept[i], d);
        }
    } else if plain_display(d) {
        lemma_mapping_line(d, u);
        assert(new[i] == mapping_line(d, u));
    }
}

/// Where the file had to be changed, nobody else has the display any more.
pub proof fn law_display_is_taken_from_others(
    content: Seq<char>,
    d: Seq<char>,
    u: Seq<char>,
    v: Seq<char>,
)
    requires
        plain_display(d),
        plain(u),
        !is_mapped(content, d, u),
        v != u,
    ensures
        !has_mapping(with_mapping(content, d, u), d, v),
{
    let ls = lines_of(with_mapping(content, d, u));
    lemma_mapping_line(d, u);
    assert forall|i: int| 0 <= i < ls.len() implies mapping_of(#[trigger] ls[i]) != Some(
        (d, v),
    ) by {
        law_prior_mapping_is_replaced(content, d, u, i);
    }
}

/// Where the wanted line stands in the file, the file stays as it is, with whatever
/// other mappings of the same display it holds.
pub proof fn law_standing_line_leaves_the_file(content: Seq<char>, d: Seq<char>, u: Seq<char>)
    requires
        is_mapped(content, d, u),
    ensures
        with_mapping(content, d, u) == content,
{
}

proof fn lemma_lowest_free(ls: Seq<Seq<char>>, n: int)
    ensures
        lowest_free(ls, n) matches Some(k) ==> n <= k <= u32::MAX && !taken(ls, k) && forall|m: int|
            n <= m < k ==> #[trigger] taken(ls, m),
        lowest_free(ls, n) is None ==> forall|m: int|
            n <= m <= u32::MAX ==> #[trigger] taken(ls, m),
    decreases u32::MAX + 1 - n,
{
    if n <= u32::MAX && taken(ls, n) {
        lemma_lowest_free(ls, n + 1);
    }
}

/// A user without a display is given the lowest number from 1 on that nobody has.
pub proof fn law_new_display_is_lowest_free(content: Seq<char>, user: Seq<char>)
    requires
        own_display(lines_of(content), user) is None,
        allocated(content, user) is Some,
    ensures
        exists|n: int|
            {
                &&& 1 <= n <= u32::MAX
                &&& allocated(content, user) == Some(":"@ + #[trigger] decimal(n as nat))
                &&& !taken(lines_of(content), n)
                &&& forall|m: int| 1 <= m < n ==> #[trigger] taken(lines_of(content), m)
            },
{
    lemma_lowest_free(lines_of(content), 1);
    let n = lowest_free(lines_of(content), 1)->Some_0;
    assert(allocated(content, user) == Some(":"@ + decimal(n as nat)));
}

/// Giving a user a new display takes no line out of the file.
pub proof fn law_new_display_takes_nothing_away(content: Seq<char>, user: Seq<char>)
    requires
        own_display(lines_of(content), user) is None,
        allocated(content, user) is Some,
    ensures
        others(lines_of(content), allocated(content, user)->Some_0) == lines_of(content),
{
    let ls = lines_of(content);
    lemma_lowest_free(ls, 1);
    let n = lowest_free(ls, 1)->Some_0;
    let d = ":"@ + decimal(n as nat);
    lemma_numbered_display(n as nat);
    number::law_decimal_reads_back(n as u32);
    assert forall|i: int| 0 <= i < ls.len() implies !is_for(#[trigger] ls[i], d) by {
        if is_for(ls[i], d) {
            lemma_is_for_maps(ls[i], d);
            assert(takes(ls[i], n));
        }
    }
    lemma_others_all(ls, d);
}

proof fn lemma_others_all(ls: Seq<Seq<char>>, d: Seq<char>)
    requires
        forall|i: int| 0 <= i < ls.len() ==> !is_for(#[trigger] ls[i], d),
    ensures
        others(ls, d) == ls,
    decreases ls.len(),
{
    if ls.len() > 0 {
        let front = ls.drop_last();
        assert forall|i: int| 0 <= i < front.len() implies !is_for(#[trigger] front[i], d) by {
            assert(!is_for(ls[i], d));
        }
        lemma_others_all(front, d);
        assert(!is_for(ls[ls.len() - 1], d));
        assert(front.push(ls.last()) =~= ls);
    } else {
        assert(ls =~= seq![]);
    }
}

proof fn lemma_only_display(ls: Seq<Seq<char>>, user: Seq<char>, d: Seq<char>, k: int)
    requires
        0 <= k < ls.len(),
        maps_to(ls[k], user),
        forall|i: int|
            0 <= i < ls.len() && maps_to(#[trigger] ls[i], user) ==> (mapping_of(ls[i])->Some_0).0
                == d,
    ensures
        own_display(ls, user) == Some(d),
    decreases ls.len(),
{
    if !maps_to(ls[0], user) {
        let rest = ls.drop_first();
        assert(rest[k - 1] == ls[k]);
        assert forall|i: int| 0 <= i < rest.len() && maps_to(#[trigger] rest[i], user) implies (
        mapping_of(rest[i])->Some_0).0 == d by {
            assert(rest[i] == ls[i + 1]);
        }
        lemma_only_display(rest, user, d, k - 1);
    }
}

proof fn lemma_own_display_is_mapped(ls: Seq<Seq<char>>, user: Seq<char>) -> (k: int)
    requires
        own_display(ls, user) is Some,
    ensures
        0 <= k < ls.len(),
        mapping_of(ls[k]) == Some((own_display(ls, user)->Some_0, user)),
    decreases ls.len(),
{
    if maps_to(ls[0], user) {
        0
    } else {
        lemma_own_display_is_mapped(ls.drop_first(), user) + 1
    }
}

/// A mapping in front of another decides which display a user has.
proof fn lemma_own_display_in_front(ls: Seq<Seq<char>>, user: Seq<char>, d: Seq<char>, k: int)
    requires
        0 <= k < ls.len() - 1,
        maps_to(ls[k], user),
        forall|i: int| 0 <= i < ls.len() - 1 ==> !is_for(#[trigger] ls[i], d),
    ensures
        own_display(ls, user) matches Some(e) && e != d,
    decreases ls.len(),
{
    assert(!is_for(ls[0], d));
    if !maps_to(ls[0], user) {
        let rest = ls.drop_first();
        assert(rest[k - 1] == ls[k]);
        assert forall|i: int| 0 <= i < rest.len() - 1 implies !is_for(#[trigger] rest[i], d) by {
            assert(!is_for(ls[i + 1], d));
        }
        lemma_own_display_in_front(rest, user, d, k - 1);
    }
}

/// The display that a user is given stays theirs: after it has been written down the
/// same display is found for them again, if the line stood in the file already or if no
/// line gives them another display, and only then.
pub proof fn law_allocation_is_stable(content: Seq<char>, user: Seq<char>)
    requires
        plain(user),
        allocated(content, user) is Some,
    ensures
        ({
            let d = allocated(content, user)->Some_0;
            allocated(with_mapping(content, d, user), user) == Some(d) <==> (is_mapped(
                content,
                d,
                user,
            ) || forall|e: Seq<char>| #[trigger] has_mapping(content, e, user) ==> e == d)
        }),
{
    let d = allocated(content, user)->Some_0;
    let c = with_mapping(content, d, user);
    law_allocated_displays_are_plain(content, user);
    law_mapping_reads_back(content, d, user);
    let ls = lines_of(c);
    if !is_mapped(content, d, user) {
        if forall|e: Seq<char>| #[trigger] has_mapping(content, e, user) ==> e == d {
            let k = choose|k: int| 0 <= k < ls.len() && maps_to(#[trigger] ls[k], user);
            assert forall|i: int|
                0 <= i < ls.len() && maps_to(#[trigger] ls[i], user) implies (mapping_of(
                ls[i],
            )->Some_0).0 == d by {
                let e = (mapping_of(ls[i])->Some_0).0;
                assert(has_mapping(c, e, user));
                if e != d {
                    law_other_mappings_stay(content, d, user, e, user);
                }
            }
            lemma_only_display(ls, user, d, k);
        } else {
            let e = choose|e: Seq<char>| #[trigger] has_mapping(content, e, user) && e != d;
            law_other_mappings_stay(content, d, user, e, user);
            let k = choose|k: int|
                0 <= k < ls.len() && mapping_of(#[trigger] ls[k]) == Some((e, user));
            law_prior_mapping_is_replaced(content, d, user, k);
            assert forall|i: int| 0 <= i < ls.len() - 1 implies !is_for(#[trigger] ls[i], d) by {
                law_prior_mapping_is_replaced(content, d, user, i);
            }
            lemma_own_display_in_front(ls, user, d, k);
        }
    }
}

/// No two users are given one display: once a display has been written down for a user,
/// nobody who has none is given it.
pub proof fn law_display_is_given_to_one_user(content: Seq<char>, u: Seq<char>, v: Seq<char>)
    requires
        plain(u),
        u != v,
        !vnc_configured(content, v),
        allocated(content, u) is Some,
    ensures
        ({
            let d = allocated(content, u)->Some_0;
            allocated(with_mapping(content, d, u), v) != Some(d)
        }),
{
    let d = allocated(content, u)->Some_0;
    let c = with_mapping(content, d, u);
    let ls = lines_of(c);
    law_allocated_displays_are_plain(content, u);
    law_mapping_reads_back(content, d, u);
    if own_display(ls, v) is Some {
        let k = lemma_own_display_is_mapped(ls, v);
        let e = own_display(ls, v)->Some_0;
        assert(has_mapping(c, e, v));
        if e != d {
            law_other_mappings_stay(content, d, u, e, v);
        } else if !is_mapped(content, d, u) {
            law_display_is_taken_from_others(content, d, u, v);
        }
        assert(has_mapping(content, e, v));
        let i = choose|i: int|
            0 <= i < lines_of(content).len() && mapping_of(#[trigger] lines_of(content)[i]) == Some(
                (e, v),
            );
        assert(maps_to(lines_of(content)[i], v));
    } else if allocated(c, v) is Some {
        let n = lowest_free(ls, 1)->Some_0;
        lemma_lowest_free(ls, 1);
        lemma_numbered_display(n as nat);
        number::law_decimal_reads_back(n as u32);
        if ":"@ + decimal(n as nat) == d {
            let k = choose|k: int| 0 <= k < ls.len() && mapping_of(#[trigger] ls[k]) == Some((d, u));
            assert(takes(ls[k], n));
        }
    }
}

/// A file with fewer characters than there are 32-bit numbers above zero leaves a
/// display for everybody.
pub proof fn law_short_file_has_free_display(content: Seq<char>, user: Seq<char>)
    requires
        content.len() < u32::MAX,
    ensures
        allocated(content, user) is Some,
{
    let ls = lines_of(content);
    lemma_lines_hold_no_break(content);
    lemma_lowest_free(ls, 1);
    if lowest_free(ls, 1) is None {
        let nums = ls.map_values(
            |l: Seq<char>|
                match mapping_of(l) {
                    Some(m) => match display_number(m.0) {
                        Some(n) => n as int,
                        None => 0int,
                    },
                    None => 0int,
                },
        );
        let range = set_int_range(1, u32::MAX + 1);
        assert forall|m: int| range.contains(m) implies nums.to_set().contains(m) by {
            assert(taken(ls, m));
            let i = choose|i: int| 0 <= i < ls.len() && takes(#[trigger] ls[i], m);
            assert(nums[i] == m);
        }
        vstd::set_lib::lemma_int_range(1, u32::MAX + 1);
        nums.lemma_cardinality_of_set();
        vstd::set_lib::lemma_len_subset(range, nums.to_set());
    }
}

/// A line maps what stands in front of its first equals sign to what stands behind it,
/// white space around either ignored. A comment maps nothing, nor does a line without
/// an equals sign.
pub proof fn law_lines_that_map(line: Seq<char>, d: Seq<char>, u: Seq<char>)
    ensures
        trimmed(line).len() == 0 ==> mapping_of(line) is None,
        trimmed(line).len() > 0 && trimmed(line)[0] == '#' ==> mapping_of(line) is None,
        !trimmed(line).contains('=') ==> mapping_of(line) is None,
        plain_display(d) && plain(u) ==> mapping_of(d + seq!['='] + u) == Some((d, u)),
        trimmed(line) == d + seq!['='] + u && !d.contains('=') && (d.len() > 0 ==> d[0] != '#')
            ==> mapping_of(line) == Some((trimmed(d), trimmed(u))),
{
    crate::text_laws::law_halves_make_up_the_text(trimmed(line), '=');
    reveal_strlit("=");
    assert("="@ =~= seq!['=']);
    if plain_display(d) && plain(u) {
        lemma_mapping_line(d, u);
        lemma_mapping_line_plain(d, u);
        assert(mapping_line(d, u) =~= d + seq!['='] + u);
        assert(mapping_of(mapping_line(d, u)) == Some((d, u)));
    }
    let t = d + seq!['='] + u;
    if trimmed(line) == t && !d.contains('=') {
        crate::text_laws::law_halves_make_up_the_text(t, '=');
        assert(t[d.len() as int] == '=');
        assert(t.contains('='));
        let p = halves(t, '=')->0;
        if p.0.len() < d.len() {
            assert(t[p.0.len() as int] == '=');
            assert(d[p.0.len() as int] == '=');
            assert(d.contains(d[p.0.len() as int]));
        }
        if p.0.len() > d.len() {
            assert(p.0[d.len() as int] == t[d.len() as int]);
            assert(p.0.contains(p.0[d.len() as int]));
        }
        assert(p.0 =~= d);
        assert(p.1 =~= u) by {
            assert(t.skip(d.len() as int + 1) =~= u);
            assert((p.0 + seq!['='] + p.1).skip(d.len() as int + 1) =~= p.1);
        }
        assert(t[0] == (if d.len() > 0 {
            d[0]
        } else {
            '='
        }));
    }
}

/// A user's display is that of the first line that maps one to them.
pub proof fn law_own_display_is_the_first(ls: Seq<Seq<char>>, user: Seq<char>)
    ensures
        own_display(ls, user) is None <==> forall|i: int|
            0 <= i < ls.len() ==> !maps_to(#[trigger] ls[i], user),
        own_display(ls, user) matches Some(d) ==> exists|i: int|
            {
                &&& 0 <= i < ls.len()
                &&& mapping_of(#[trigger] ls[i]) == Some((d, user))
                &&& forall|k: int| 0 <= k < i ==> !maps_to(#[trigger] ls[k], user)
            },
    decreases ls.len(),
{
    if ls.len() > 0 {
        if maps_to(ls[0], user) {
            let d = own_display(ls, user)->0;
            assert(mapping_of(ls[0]) == Some((d, user)));
        } else {
            let rest = ls.drop_first();
            law_own_display_is_the_first(rest, user);
            if own_display(rest, user) is Some {
                let d = own_display(rest, user)->0;
                let j = choose|i: int|
                    {
                        &&& 0 <= i < rest.len()
                        &&& mapping_of(#[trigger] rest[i]) == Some((d, user))
                        &&& forall|k: int| 0 <= k < i ==> !maps_to(#[trigger] rest[k], user)
                    };
                assert(ls[j + 1] == rest[j]);
                assert(mapping_of(ls[j + 1]) == Some((d, user)));
                assert(maps_to(ls[j + 1], user));
                assert forall|k: int| 0 <= k < j + 1 implies !maps_to(#[trigger] ls[k], user) by {
                    if k > 0 {
                        assert(ls[k] == rest[k - 1]);
                    }
                }
            } else {
                assert forall|i: int| 0 <= i < ls.len() implies !maps_to(#[trigger] ls[i], user) by {
                    if i > 0 {
                        assert(ls[i] == rest[i - 1]);
                    }
                }
            }
        }
    }
}

/// A user has a session if and only if they have a display of their own.
pub proof fn law_configured_users_have_a_display(content: Seq<char>, user: Seq<char>)
    ensures
        vnc_configured(content, user) <==> own_display(lines_of(content), user) is Some,
{
    law_own_display_is_the_first(lines_of(content), user);
}

/// A display is numbered by the digits behind its colon; without a colon it has no
/// number.
pub proof fn law_displays_are_numbered(n: u32, d: Seq<char>)
    ensures
        display_number(":"@ + decimal(n as nat)) == Some(n),
        d.len() == 0 || d[0] != ':' ==> display_number(d) is None,
{
    reveal_strlit(":");
    number::law_decimal_reads_back(n);
    assert((":"@ + decimal(n as nat)).drop_first() =~= decimal(n as nat));
}

/// A file that is written anew ends with the line of the display and the user; whether
/// a display is mapped is told by that line alone.
pub proof fn law_new_mapping_stands_last(content: Seq<char>, d: Seq<char>, u: Seq<char>)
    ensures
        ends(remapped(content, d, u), d + seq!['='] + u + seq!['\n']),
        is_mapped(content, d, u) <==> exists|i: int|
            0 <= i < lines_of(content).len() && trimmed(#[trigger] lines_of(content)[i]) == d
                + seq!['='] + u,
{
    reveal_strlit("=");
    reveal_strlit("\n");
    assert("="@ =~= seq!['=']);
    assert("\n"@ =~= seq!['\n']);
    let line = mapping_line(d, u);
    assert(line =~= d + seq!['='] + u);
    let all = others(lines_of(content), d).push(line);
    assert(all.drop_last() =~= others(lines_of(content), d));
    assert(all.last() == line);
    let body = joined(all, "\n"@);
    let front = if all.len() == 1 {
        Seq::<char>::empty()
    } else {
        joined(all.drop_last(), "\n"@) + "\n"@
    };
    assert(body =~= front + line);
    let tail = line + seq!['\n'];
    let new = remapped(content, d, u);
    assert(new =~= front + tail);
    assert(new.skip(new.len() - tail.len()) =~= tail);
}

/// A number is taken if and only if some line maps the display with that number, to
/// whomever.
pub proof fn law_taken_numbers(ls: Seq<Seq<char>>, n: int)
    ensures
        taken(ls, n) <==> exists|i: int|
            0 <= i < ls.len() && (mapping_of(#[trigger] ls[i]) matches Some(m) && display_number(
                m.0,
            ) is Some && display_number(m.0)->0 == n),
{
    if taken(ls, n) {
        let i = choose|i: int| 0 <= i < ls.len() && takes(#[trigger] ls[i], n);
        assert(mapping_of(ls[i]) is Some);
    }
    if exists|i: int|
        0 <= i < ls.len() && (mapping_of(#[trigger] ls[i]) matches Some(m) && display_number(
            m.0,
        ) is Some && display_number(m.0)->0 == n) {
        let i = choose|i: int|
            0 <= i < ls.len() && (mapping_of(#[trigger] ls[i]) matches Some(m) && display_number(
                m.0,
            ) is Some && display_number(m.0)->0 == n);
        assert(takes(ls[i], n));
    }
}

/// A user who has a display is given that one again.
pub proof fn law_own_display_is_given_again(content: Seq<char>, user: Seq<char>)
    requires
        own_display(lines_of(content), user) is Some,
    ensures
        allocated(content, user) == own_display(lines_of(content), user),
{
}

} // verus!
