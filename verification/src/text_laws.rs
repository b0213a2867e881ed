//! What the operations on text, numbers and orders keep to.

use vstd::prelude::*;

use crate::number::{decimal, number_of, value};
use crate::order::le;
use crate::text::{
    after_all, begins, cut_end, ends, find, find_white, halves, is_white, joined,
    lemma_find_bound, lemma_find_white_bound, lemma_trimmed_start_suffix, lines_of, occurs,
    occurs_at, pieces, stem, trimmed, trimmed_end, trimmed_start, words_of,
};

verus! {

proof fn lemma_cut_front(s: Seq<char>)
    ensures
        forall|i: int|
            0 <= i < s.len() - trimmed_start(s).len() ==> is_white(#[trigger] s[i]),
    decreases s.len(),
{
    if s.len() > 0 && is_white(s[0]) {
        let t = s.drop_first();
        lemma_cut_front(t);
        assert forall|i: int| 0 <= i < s.len() - trimmed_start(s).len() implies is_white(
            #[trigger] s[i],
        ) by {
            if i > 0 {
                assert(s[i] == t[i - 1]);
            }
        }
    }
}

proof fn lemma_cut_back(s: Seq<char>)
    ensures
        trimmed_end(s).len() <= s.len(),
        trimmed_end(s) == s.take(trimmed_end(s).len() as int),
        trimmed_end(s).len() > 0 ==> !is_white(trimmed_end(s).last()),
        forall|i: int| trimmed_end(s).len() <= i < s.len() ==> is_white(#[trigger] s[i]),
    decreases s.len(),
{
    if s.len() > 0 && is_white(s.last()) {
        let t = s.drop_last();
        lemma_cut_back(t);
        assert(t.take(trimmed_end(t).len() as int) =~= s.take(trimmed_end(t).len() as int));
        assert forall|i: int| trimmed_end(s).len() <= i < s.len() implies is_white(
            #[trigger] s[i],
        ) by {
            if i < t.len() {
                assert(s[i] == t[i]);
            }
        }
    } else {
        assert(s.take(s.len() as int) =~= s);
    }
}

/// Trimming takes off white space at either end, all of it, and nothing else.
pub proof fn law_trimming_takes_white_space_only(s: Seq<char>)
    ensures
        ({
            let t = trimmed(s);
            let a = s.len() - trimmed_start(s).len();
            &&& 0 <= a && a + t.len() <= s.len()
            &&& s.subrange(a, a + t.len()) == t
            &&& forall|i: int| 0 <= i < a ==> is_white(#[trigger] s[i])
            &&& forall|i: int| a + t.len() <= i < s.len() ==> is_white(#[trigger] s[i])
            &&& t.len() > 0 ==> !is_white(t[0]) && !is_white(t.last())
        }),
{
    lemma_trimmed_start_suffix(s);
    lemma_cut_front(s);
    let u = trimmed_start(s);
    lemma_cut_back(u);
    let t = trimmed(s);
    let a = s.len() - u.len();
    assert(s.subrange(a, a + t.len()) =~= t);
    assert forall|i: int| a + t.len() <= i < s.len() implies is_white(#[trigger] s[i]) by {
        assert(s[i] == u[i - a]);
    }
}

/// Spaces, tabs and line breaks are white space; letters, digits and the characters of
/// paths and mappings are not.
pub proof fn law_white_space(c: char)
    ensures
        c == ' ' || c == '\t' || c == '\n' || c == '\r' ==> is_white(c),
        'a' <= c <= 'z' || 'A' <= c <= 'Z' || '0' <= c <= '9' ==> !is_white(c),
        c == '/' || c == '.' || c == '-' || c == '_' || c == ':' || c == '=' || c == '#' || c == ','
            ==> !is_white(c),
{
}

/// A text is parted at the first of a character: what stands in front holds none, and
/// with the character in between the two halves make up the text. Without the character
/// there are no halves.
pub proof fn law_halves_make_up_the_text(s: Seq<char>, c: char)
    ensures
        halves(s, c) is None <==> !s.contains(c),
        halves(s, c) matches Some(p) ==> s == p.0 + seq![c] + p.1 && !p.0.contains(c),
{
    lemma_find_bound(s, c);
    let i = find(s, c) as int;
    if i < s.len() {
        assert(s.contains(s[i]));
        assert(s =~= s.take(i) + seq![c] + s.skip(i + 1));
        if s.take(i).contains(c) {
            let k = choose|k: int| 0 <= k < i && s.take(i)[k] == c;
            assert(s[k] == c);
        }
    } else if s.contains(c) {
        let k = choose|k: int| 0 <= k < s.len() && s[k] == c;
        assert(s[k] == c);
    }
}

/// The pieces of a text hold the character at which it is split nowhere, and joined by
/// it they make up the text.
pub proof fn law_pieces_make_up_the_text(s: Seq<char>, c: char)
    ensures
        pieces(s, c).len() > 0,
        joined(pieces(s, c), seq![c]) == s,
        forall|i: int| 0 <= i < pieces(s, c).len() ==> !(#[trigger] pieces(s, c)[i]).contains(c),
    decreases s.len(),
{
    law_halves_make_up_the_text(s, c);
    let i = find(s, c) as int;
    lemma_find_bound(s, c);
    let all = pieces(s, c);
    if i < s.len() {
        let first = s.take(i);
        let rest = s.skip(i + 1);
        law_pieces_make_up_the_text(rest, c);
        law_joining_in_front(first, pieces(rest, c), seq![c]);
        assert(halves(s, c) == Some((first, rest)));
        assert forall|k: int| 0 <= k < all.len() implies !(#[trigger] all[k]).contains(c) by {
            if k > 0 {
                assert(all[k] == pieces(rest, c)[k - 1]);
            }
        }
    } else {
        assert(all =~= seq![s]);
        assert forall|k: int| 0 <= k < all.len() implies !(#[trigger] all[k]).contains(c) by {
            assert(!s.contains(c));
        }
    }
}

/// Joining puts the separator between each two parts and nowhere else.
pub proof fn law_joining_in_front(part: Seq<char>, parts: Seq<Seq<char>>, sep: Seq<char>)
    ensures
        joined(seq![part], sep) == part,
        joined(Seq::empty(), sep).len() == 0,
        parts.len() > 0 ==> joined(seq![part] + parts, sep) == part + sep + joined(parts, sep),
    decreases parts.len(),
{
    if parts.len() > 0 {
        let all = seq![part] + parts;
        assert(all.last() == parts.last());
        assert(all.drop_last() =~= seq![part] + parts.drop_last());
        if parts.len() == 1 {
            assert(all.drop_last() =~= seq![part]);
            assert(joined(all.drop_last(), sep) == part);
            assert(joined(parts, sep) == parts[0]);
            assert(joined(all, sep) =~= part + sep + parts[0]);
        } else {
            law_joining_in_front(part, parts.drop_last(), sep);
            assert(joined(all, sep) =~= part + sep + joined(parts, sep));
        }
    }
}

/// A line ends at a line break, with or without a carriage return in front of it; the
/// last one may end without. A text without any is one line, and none where it is empty.
pub proof fn law_lines_end_at_line_breaks(line: Seq<char>, rest: Seq<char>)
    requires
        !line.contains('\n'),
    ensures
        lines_of(Seq::empty()).len() == 0,
        line.len() > 0 ==> lines_of(line) == seq![line],
        line.len() == 0 || line.last() != '\r' ==> lines_of(line + seq!['\n'] + rest) == seq![line]
            + lines_of(rest),
        lines_of(line + seq!['\r', '\n'] + rest) == seq![line] + lines_of(rest),
{
    lemma_find_bound(line, '\n');
    let i = find(line, '\n') as int;
    if i < line.len() {
        assert(line.contains(line[i]));
    }
    let a = line + seq!['\n'] + rest;
    lemma_first_break(line, seq!['\n'], rest);
    assert(a.take(line.len() as int) =~= line);
    assert(a.skip(line.len() as int + 1) =~= rest);
    let b = line + seq!['\r', '\n'] + rest;
    let cr = line.push('\r');
    assert(!cr.contains('\n')) by {
        if cr.contains('\n') {
            let k = choose|k: int| 0 <= k < cr.len() && cr[k] == '\n';
            assert(line[k] == '\n');
            assert(line.contains(line[k]));
        }
    }
    lemma_first_break(cr, seq!['\n'], rest);
    assert(b =~= cr + seq!['\n'] + rest);
    assert(b.take(cr.len() as int) =~= cr);
    assert(b.skip(cr.len() as int + 1) =~= rest);
    assert(cr.drop_last() =~= line);
}

proof fn lemma_first_break(front: Seq<char>, sep: Seq<char>, rest: Seq<char>)
    requires
        !front.contains('\n'),
        sep == seq!['\n'],
    ensures
        find(front + sep + rest, '\n') == front.len(),
{
    let s = front + sep + rest;
    lemma_find_bound(s, '\n');
    let k = find(s, '\n') as int;
    assert(s[front.len() as int] == '\n');
    if k < front.len() {
        assert(s[k] == front[k]);
        assert(front.contains(front[k]));
    }
}

/// White space parts words: a text without any is one word, and what stands in front of
/// white space is split on its own.
pub proof fn law_words_are_parted_by_white_space(word: Seq<char>, c: char, rest: Seq<char>)
    requires
        word.len() > 0,
        forall|i: int| 0 <= i < word.len() ==> !is_white(#[trigger] word[i]),
        is_white(c),
    ensures
        words_of(word) == seq![word],
        words_of(word + seq![c] + rest) == seq![word] + words_of(rest),
        words_of(seq![c] + rest) == words_of(rest),
        words_of(Seq::empty()).len() == 0,
{
    lemma_find_white(word, Seq::empty());
    assert(word + Seq::<char>::empty() =~= word);
    assert(trimmed_start(word) == word);
    assert(word.take(word.len() as int) =~= word);
    assert(word.skip(word.len() as int) =~= Seq::empty());
    let none = Seq::<char>::empty();
    assert(trimmed_start(none) == none);
    assert(words_of(none) =~= seq![]);
    assert(words_of(word) =~= seq![word]);
    let tail = seq![c] + rest;
    let s = word + seq![c] + rest;
    assert(s =~= word + tail);
    lemma_find_white(word, tail);
    assert(trimmed_start(s) == s);
    assert(s.take(word.len() as int) =~= word);
    assert(s.skip(word.len() as int) =~= tail);
    assert(tail.drop_first() =~= rest);
    assert(trimmed_start(tail) == trimmed_start(rest));
    assert(words_of(tail) == words_of(rest));
}

proof fn lemma_find_white(word: Seq<char>, tail: Seq<char>)
    requires
        forall|i: int| 0 <= i < word.len() ==> !is_white(#[trigger] word[i]),
        tail.len() == 0 || is_white(tail[0]),
    ensures
        find_white(word + tail) == word.len(),
    decreases word.len(),
{
    let s = word + tail;
    lemma_find_white_bound(s);
    if word.len() > 0 {
        assert(!is_white(word[0]));
        assert(s.drop_first() =~= word.drop_first() + tail);
        lemma_find_white(word.drop_first(), tail);
    } else {
        assert(s =~= tail);
    }
}

/// A text begins with another if and only if something can be added to that to make up
/// the text, and so it ends with one; what is cut off its end is the rest.
pub proof fn law_fronts_and_ends(a: Seq<char>, b: Seq<char>)
    ensures
        begins(a + b, a),
        ends(a + b, b),
        cut_end(a + b, b) == Some(a),
        stem(a + b, b) == a,
        begins(a, b) ==> a == b + a.skip(b.len() as int),
        ends(a, b) ==> a == a.take(a.len() - b.len()) + b,
        !ends(a, b) ==> stem(a, b) == a && cut_end(a, b) is None,
{
    assert((a + b).take(a.len() as int) =~= a);
    assert((a + b).skip(a.len() as int) =~= b);
    assert((a + b).take((a + b).len() - b.len()) =~= a);
    if begins(a, b) {
        assert(a =~= b + a.skip(b.len() as int));
    }
    if ends(a, b) {
        assert(a =~= a.take(a.len() - b.len()) + b);
    }
}

/// Every copy of a prefix is taken off, and a text that does not begin with it stays.
pub proof fn law_every_copy_is_taken_off(s: Seq<char>, p: Seq<char>)
    requires
        p.len() > 0,
    ensures
        after_all(p + s, p) == after_all(s, p),
        !begins(s, p) ==> after_all(s, p) == s,
{
    assert((p + s).take(p.len() as int) =~= p);
    assert((p + s).skip(p.len() as int) =~= s);
}

/// A number is written digit by digit, the last one being its remainder by ten.
pub proof fn law_decimal_digits(q: nat, r: nat)
    requires
        r < 10,
    ensures
        decimal(r) == seq![seq!['0', '1', '2', '3', '4', '5', '6', '7', '8', '9'][r as int]],
        q > 0 ==> decimal(10 * q + r) == decimal(q) + decimal(r),
{
    assert(decimal(r) =~= seq![
        seq!['0', '1', '2', '3', '4', '5', '6', '7', '8', '9'][r as int],
    ]);
    if q > 0 {
        assert((10 * q + r) / 10 == q);
        assert((10 * q + r) % 10 == r);
        assert(decimal(10 * q + r) =~= decimal(q) + decimal(r));
    }
}

/// A text is read as a number if and only if it holds digits alone, behind one plus sign
/// at most, and the number fits in 32 bits.
pub proof fn law_numbers_are_digits(s: Seq<char>, c: char)
    ensures
        number_of(Seq::empty()) is None,
        !('0' <= c <= '9') && c != '+' ==> number_of(seq![c] + s) is None,
        !('0' <= c <= '9') && s.len() > 0 ==> number_of(s + seq![c]) is None,
        '0' <= c <= '9' && number_of(s) is Some && value(crate::number::unsigned_part(s)) * 10 + (
        c as nat - 48) <= u32::MAX ==> number_of(s + seq![c]) == Some(
            (number_of(s)->0 * 10 + (c as u32 - 48)) as u32,
        ),
        '0' <= c <= '9' ==> number_of(seq![c]) == Some((c as u32 - 48) as u32),
        s.len() > 0 && s[0] != '+' ==> number_of(seq!['+'] + s) == number_of(s),
{
    let front = seq![c] + s;
    let back = s + seq![c];
    assert(front[0] == c);
    assert(back.last() == c);
    assert((seq!['+'] + s).drop_first() =~= s);
    let d = crate::number::unsigned_part(s);
    let e = crate::number::unsigned_part(back);
    if s.len() > 0 {
        assert(back[0] == s[0]);
        assert(e =~= d + seq![c]);
        assert(e.last() == c);
        assert(e.drop_last() =~= d);
        assert(e[e.len() - 1] == c);
        if crate::number::all_digits(d) && '0' <= c <= '9' {
            assert forall|i: int| 0 <= i < e.len() implies crate::number::is_digit(
                #[trigger] e[i],
            ) by {
                if i < d.len() {
                    assert(e[i] == d[i]);
                }
            }
        }
    }
    let one = seq![c];
    assert(one.drop_last() =~= Seq::empty());
    reveal_with_fuel(value, 3);
    assert(crate::number::unsigned_part(one) =~= one || c == '+');
}

/// Texts are ordered by their first difference; one that the other continues comes
/// first.
pub proof fn law_order_goes_by_the_first_difference(
    p: Seq<char>,
    a: char,
    s: Seq<char>,
    b: char,
    t: Seq<char>,
)
    requires
        a < b,
    ensures
        le(p + seq![a] + s, p + seq![b] + t),
        !le(p + seq![b] + t, p + seq![a] + s),
        le(p, p + s),
        s.len() > 0 ==> !le(p + s, p),
    decreases p.len(),
{
    let x = p + seq![a] + s;
    let y = p + seq![b] + t;
    if p.len() > 0 {
        let q = p.drop_first();
        law_order_goes_by_the_first_difference(q, a, s, b, t);
        assert(x.drop_first() =~= q + seq![a] + s);
        assert(y.drop_first() =~= q + seq![b] + t);
        assert((p + s).drop_first() =~= q + s);
        assert(x[0] == p[0] && y[0] == p[0] && (p + s)[0] == p[0]);
    } else {
        assert(x[0] == a && y[0] == b);
        assert(p + s =~= s);
    }
}

/// A text holds another if and only if it can be parted into what stands in front of
/// it, the text itself and what stands behind it.
pub proof fn law_holding_a_text(s: Seq<char>, a: Seq<char>, p: Seq<char>, b: Seq<char>)
    ensures
        occurs(a + p + b, p),
        occurs(s, p) ==> exists|i: int|
            0 <= i && i + p.len() <= s.len() && s == #[trigger] s.take(i) + p + s.skip(
                i + p.len(),
            ),
{
    let t = a + p + b;
    assert(t.subrange(a.len() as int, a.len() as int + p.len()) =~= p);
    assert(occurs_at(t, p, a.len() as int));
    if occurs(s, p) {
        let i = choose|i: int| occurs_at(s, p, i);
        assert(s =~= s.take(i) + p + s.skip(i + p.len()));
    }
}

} // verus!
