//! Text as sequences of characters: trimming, splitting, searching and ordering.
//!
//! Each executable function works on `&str` and is tied to a specification
//! function on `Seq<char>` of the same meaning.

use vstd::prelude::*;

verus! {

/// The views of a list of strings.
pub open spec fn texts(v: Seq<String>) -> Seq<Seq<char>> {
    v.map_values(|s: String| s@)
}

/// Characters with the Unicode property White_Space.
pub open spec fn is_white(c: char) -> bool {
    let n = c as u32;
    ||| 0x9 <= n <= 0xd
    ||| n == 0x20
    ||| n == 0x85
    ||| n == 0xa0
    ||| n == 0x1680
    ||| 0x2000 <= n <= 0x200a
    ||| n == 0x2028
    ||| n == 0x2029
    ||| n == 0x202f
    ||| n == 0x205f
    ||| n == 0x3000
}

/// `s` without its leading white space.
pub open spec fn trimmed_start(s: Seq<char>) -> Seq<char>
    decreases s.len(),
{
    if s.len() > 0 && is_white(s[0]) {
        trimmed_start(s.drop_first())
    } else {
        s
    }
}

/// `s` without its trailing white space.
pub open spec fn trimmed_end(s: Seq<char>) -> Seq<char>
    decreases s.len(),
{
    if s.len() > 0 && is_white(s.last()) {
        trimmed_end(s.drop_last())
    } else {
        s
    }
}

/// `s` without white space at either end.
pub open spec fn trimmed(s: Seq<char>) -> Seq<char> {
    trimmed_end(trimmed_start(s))
}

/// The position of the first `c` in `s`, or the length of `s` where there is none.
pub open spec fn find(s: Seq<char>, c: char) -> nat
    decreases s.len(),
{
    if s.len() == 0 || s[0] == c {
        0
    } else {
        1 + find(s.drop_first(), c)
    }
}

/// The position of the first white space in `s`, or the length of `s`.
pub open spec fn find_white(s: Seq<char>) -> nat
    decreases s.len(),
{
    if s.len() == 0 || is_white(s[0]) {
        0
    } else {
        1 + find_white(s.drop_first())
    }
}

/// What stands before and after the first `c` in `s`.
pub open spec fn halves(s: Seq<char>, c: char) -> Option<(Seq<char>, Seq<char>)> {
    let i = find(s, c) as int;
    if i < s.len() {
        Some((s.take(i), s.skip(i + 1)))
    } else {
        None
    }
}

/// The pieces of `s` between the occurrences of `c`; never empty.
pub open spec fn pieces(s: Seq<char>, c: char) -> Seq<Seq<char>>
    decreases s.len(),
{
    let i = find(s, c) as int;
    if i < s.len() {
        seq![s.take(i)] + pieces(s.skip(i + 1), c)
    } else {
        seq![s]
    }
}

/// `s` without a carriage return at its end.
pub open spec fn without_cr(s: Seq<char>) -> Seq<char> {
    if s.len() > 0 && s.last() == '\r' {
        s.drop_last()
    } else {
        s
    }
}

/// The lines of `s`: split at `\n` or `\r\n`, with the last terminator optional.
pub open spec fn lines_of(s: Seq<char>) -> Seq<Seq<char>>
    decreases s.len(),
{
    if s.len() == 0 {
        seq![]
    } else {
        let i = find(s, '\n') as int;
        if i < s.len() {
            seq![without_cr(s.take(i))] + lines_of(s.skip(i + 1))
        } else {
            seq![s]
        }
    }
}

/// The words of `s`: its longest runs without white space.
pub open spec fn words_of(s: Seq<char>) -> Seq<Seq<char>>
    decreases s.len(),
{
    proof {
        lemma_trimmed_start_suffix(s);
        lemma_find_white_bound(trimmed_start(s));
    }
    let t = trimmed_start(s);
    if t.len() == 0 {
        seq![]
    } else {
        let i = find_white(t) as int;
        seq![t.take(i)] + words_of(t.skip(i))
    }
}

/// Whether `s` begins with `p`.
pub open spec fn begins(s: Seq<char>, p: Seq<char>) -> bool {
    p.len() <= s.len() && s.take(p.len() as int) == p
}

/// Whether `s` ends with `p`.
pub open spec fn ends(s: Seq<char>, p: Seq<char>) -> bool {
    p.len() <= s.len() && s.skip(s.len() - p.len()) == p
}

/// Whether `p` stands in `s` at position `i`.
pub open spec fn occurs_at(s: Seq<char>, p: Seq<char>, i: int) -> bool {
    0 <= i && i + p.len() <= s.len() && s.subrange(i, i + p.len()) == p
}

/// Whether `p` stands somewhere in `s`.
pub open spec fn occurs(s: Seq<char>, p: Seq<char>) -> bool {
    exists|i: int| occurs_at(s, p, i)
}

/// `s` without `p` at its end, where it ends with `p`.
pub open spec fn cut_end(s: Seq<char>, p: Seq<char>) -> Option<Seq<char>> {
    if ends(s, p) {
        Some(s.take(s.len() - p.len()))
    } else {
        None
    }
}

/// `s` without `p` at its end, or `s` itself where it does not end with `p`.
pub open spec fn stem(s: Seq<char>, p: Seq<char>) -> Seq<char> {
    match cut_end(s, p) {
        Some(t) => t,
        None => s,
    }
}

/// `s` after every `p` at its front is taken off.
pub open spec fn after_all(s: Seq<char>, p: Seq<char>) -> Seq<char>
    decreases s.len(),
{
    if p.len() > 0 && begins(s, p) {
        after_all(s.skip(p.len() as int), p)
    } else {
        s
    }
}

/// The parts in order, with `sep` between each two of them.
pub open spec fn joined(parts: Seq<Seq<char>>, sep: Seq<char>) -> Seq<char>
    decreases parts.len(),
{
    if parts.len() == 0 {
        seq![]
    } else if parts.len() == 1 {
        parts[0]
    } else {
        joined(parts.drop_last(), sep) + sep + parts.last()
    }
}

pub proof fn lemma_trimmed_start_suffix(s: Seq<char>)
    ensures
        trimmed_start(s).len() <= s.len(),
        trimmed_start(s) == s.skip(s.len() - trimmed_start(s).len()),
        trimmed_start(s).len() > 0 ==> !is_white(trimmed_start(s)[0]),
    decreases s.len(),
{
    if s.len() > 0 && is_white(s[0]) {
        let t = s.drop_first();
        lemma_trimmed_start_suffix(t);
        assert(t.skip(t.len() - trimmed_start(t).len()) =~= s.skip(s.len() - trimmed_start(t).len()));
    } else {
        assert(s.skip(0) =~= s);
    }
}

pub proof fn lemma_find_white_bound(s: Seq<char>)
    ensures
        find_white(s) <= s.len(),
        s.len() > 0 && !is_white(s[0]) ==> find_white(s) > 0,
    decreases s.len(),
{
    if s.len() > 0 && !is_white(s[0]) {
        lemma_find_white_bound(s.drop_first());
    }
}

pub proof fn lemma_find_bound(s: Seq<char>, c: char)
    ensures
        find(s, c) <= s.len(),
        find(s, c) < s.len() ==> s[find(s, c) as int] == c,
        forall|i: int| 0 <= i < find(s, c) ==> s[i] != c,
    decreases s.len(),
{
    if s.len() == 0 || s[0] == c {
    } else {
        let t = s.drop_first();
        lemma_find_bound(t, c);
        assert forall|i: int| 0 <= i < find(s, c) implies s[i] != c by {
            if i > 0 {
                assert(s[i] == t[i - 1]);
            }
        }
    }
}

/// The characters of a string.
pub fn chars_of(s: &str) -> (v: Vec<char>)
    ensures
        v@ == s@,
{
    let mut v: Vec<char> = Vec::new();
    for c in it: s.chars()
        invariant
            v@ == s@.take(it.index() as int),
            it.seq() == s@,
    {
        proof {
            assert(s@.take(it.index() as int).push(c) =~= s@.take(it.index() + 1));
        }
        v.push(c);
    }
    assert(s@.take(s@.len() as int) =~= s@);
    v
}

/// Whether `c` is white space.
pub fn white(c: char) -> (r: bool)
    ensures
        r == is_white(c),
{
    let n: u32 = c as u32;
    (0x9 <= n && n <= 0xd) || n == 0x20 || n == 0x85 || n == 0xa0 || n == 0x1680 || (0x2000 <= n && n
        <= 0x200a) || n == 0x2028 || n == 0x2029 || n == 0x202f || n == 0x205f || n == 0x3000
}

/// Whether two texts are equal.
pub fn same(a: &str, b: &str) -> (r: bool)
    ensures
        r == (a@ == b@),
{
    a.to_owned() == b.to_owned()
}

/// The characters of `s` from position `from` up to position `to`.
pub fn slice(s: &str, from: usize, to: usize) -> (r: String)
    requires
        from <= to <= s@.len(),
    ensures
        r@ == s@.subrange(from as int, to as int),
{
    s.substring_char(from, to).to_owned()
}

/// Where the white space at the front of `v` ends.
fn leading(v: &Vec<char>) -> (i: usize)
    ensures
        i <= v@.len(),
        trimmed_start(v@) == v@.skip(i as int),
{
    let mut i: usize = 0;
    assert(v@.skip(0) =~= v@);
    while i < v.len() && white(v[i])
        invariant
            i <= v@.len(),
            trimmed_start(v@) == trimmed_start(v@.skip(i as int)),
        decreases v.len() - i,
    {
        proof {
            let t = v@.skip(i as int);
            assert(t[0] == v@[i as int]);
            assert(t.drop_first() =~= v@.skip(i + 1));
        }
        i += 1;
    }
    proof {
        let t = v@.skip(i as int);
        if t.len() > 0 {
            assert(t[0] == v@[i as int]);
        }
    }
    i
}

/// Where the white space at the end of `v` begins, looking no further than `from`.
fn trailing(v: &Vec<char>, from: usize) -> (j: usize)
    requires
        from <= v@.len(),
    ensures
        from <= j <= v@.len(),
        trimmed_end(v@.skip(from as int)) == v@.subrange(from as int, j as int),
{
    let mut j: usize = v.len();
    assert(v@.subrange(from as int, j as int) =~= v@.skip(from as int));
    while j > from && white(v[j - 1])
        invariant
            from <= j <= v@.len(),
            trimmed_end(v@.skip(from as int)) == trimmed_end(v@.subrange(from as int, j as int)),
        decreases j,
    {
        proof {
            let t = v@.subrange(from as int, j as int);
            assert(t.last() == v@[j - 1]);
            assert(t.drop_last() =~= v@.subrange(from as int, j - 1));
        }
        j -= 1;
    }
    proof {
        let t = v@.subrange(from as int, j as int);
        if t.len() > 0 {
            assert(t.last() == v@[j - 1]);
        }
    }
    j
}

/// `s` without white space at either end.
pub fn trim(s: &str) -> (r: String)
    ensures
        r@ == trimmed(s@),
{
    let v = chars_of(s);
    let i = leading(&v);
    let j = trailing(&v, i);
    slice(s, i, j)
}

/// `s` without its leading white space.
pub fn trim_start(s: &str) -> (r: String)
    ensures
        r@ == trimmed_start(s@),
{
    let v = chars_of(s);
    let i = leading(&v);
    assert(s@.subrange(i as int, s@.len() as int) =~= s@.skip(i as int));
    slice(s, i, v.len())
}

/// The position of the first `c` at or after `from`, or the length.
fn position(v: &Vec<char>, from: usize, c: char) -> (r: usize)
    requires
        from <= v@.len(),
    ensures
        from <= r <= v@.len(),
        r == from + find(v@.skip(from as int), c),
{
    let mut i: usize = from;
    while i < v.len() && v[i] != c
        invariant
            from <= i <= v@.len(),
            from + find(v@.skip(from as int), c) == i + find(v@.skip(i as int), c),
        decreases v.len() - i,
    {
        proof {
            let t = v@.skip(i as int);
            assert(t[0] == v@[i as int]);
            assert(t.drop_first() =~= v@.skip(i + 1));
        }
        i += 1;
    }
    proof {
        let t = v@.skip(i as int);
        if t.len() > 0 {
            assert(t[0] == v@[i as int]);
        }
    }
    i
}

/// Whether `c` occurs in `s`, and if so what stands before and after its first
/// occurrence.
pub fn split_once(s: &str, c: char) -> (r: Option<(String, String)>)
    ensures
        match r {
            Some(p) => halves(s@, c) == Some((p.0@, p.1@)),
            None => halves(s@, c) is None,
        },
{
    let v = chars_of(s);
    let i = position(&v, 0, c);
    assert(v@.skip(0) =~= v@);
    if i < v.len() {
        assert(s@.subrange(0, i as int) =~= s@.take(i as int));
        assert(s@.subrange(i + 1, s@.len() as int) =~= s@.skip(i + 1));
        Some((slice(s, 0, i), slice(s, i + 1, v.len())))
    } else {
        None
    }
}

/// What stands before the first `c` in `s`: all of `s` where there is none.
pub fn before(s: &str, c: char) -> (r: String)
    ensures
        r@ == s@.take(find(s@, c) as int),
{
    let v = chars_of(s);
    let i = position(&v, 0, c);
    assert(v@.skip(0) =~= v@);
    assert(s@.subrange(0, i as int) =~= s@.take(i as int));
    slice(s, 0, i)
}

/// The pieces of `s` between the occurrences of `c`.
pub fn split(s: &str, c: char) -> (r: Vec<String>)
    ensures
        texts(r@) == pieces(s@, c),
{
    let v = chars_of(s);
    let mut r: Vec<String> = Vec::new();
    let mut start: usize = 0;
    let mut i: usize = position(&v, 0, c);
    assert(v@.skip(0) =~= v@);
    assert(texts(r@) + pieces(s@, c) =~= pieces(s@, c));
    while i < v.len()
        invariant
            v@ == s@,
            start <= i <= v@.len(),
            i == start + find(s@.skip(start as int), c),
            pieces(s@, c) == texts(r@) + pieces(s@.skip(start as int), c),
        decreases v.len() - i,
    {
        let ghost t = s@.skip(start as int);
        let ghost before = texts(r@);
        assert(s@.subrange(start as int, i as int) =~= t.take(i - start));
        assert(t.skip(i - start + 1) =~= s@.skip(i + 1));
        r.push(slice(s, start, i));
        proof {
            assert(texts(r@) =~= before.push(t.take(i - start)));
            assert(before + pieces(t, c) =~= texts(r@) + pieces(s@.skip(i + 1), c));
        }
        start = i + 1;
        i = position(&v, start, c);
    }
    let ghost before = texts(r@);
    assert(s@.subrange(start as int, s@.len() as int) =~= s@.skip(start as int));
    r.push(slice(s, start, v.len()));
    assert(texts(r@) =~= before + seq![s@.skip(start as int)]);
    r
}

/// The lines of `s`.
pub fn lines(s: &str) -> (r: Vec<String>)
    ensures
        texts(r@) == lines_of(s@),
{
    let v = chars_of(s);
    let mut r: Vec<String> = Vec::new();
    let mut start: usize = 0;
    assert(v@.skip(0) =~= v@);
    assert(texts(r@) + lines_of(s@) =~= lines_of(s@));
    while start < v.len()
        invariant
            v@ == s@,
            start <= v@.len(),
            lines_of(s@) == texts(r@) + lines_of(s@.skip(start as int)),
        decreases v.len() - start,
    {
        let ghost t = s@.skip(start as int);
        let ghost before = texts(r@);
        let i = position(&v, start, '\n');
        assert(s@.subrange(start as int, i as int) =~= t.take(i - start));
        if i < v.len() {
            assert(t.skip(i - start + 1) =~= s@.skip(i + 1));
            let mut end: usize = i;
            if i > start && v[i - 1] == '\r' {
                end = i - 1;
                assert(t.take(i - start).last() == v@[i - 1]);
                assert(t.take(i - start).drop_last() =~= s@.subrange(start as int, i - 1));
            } else if i > start {
                assert(t.take(i - start).last() == v@[i - 1]);
            }
            r.push(slice(s, start, end));
            proof {
                assert(texts(r@) =~= before.push(without_cr(t.take(i - start))));
                assert(before + lines_of(t) =~= texts(r@) + lines_of(s@.skip(i + 1)));
            }
            start = i + 1;
        } else {
            assert(t.take(i - start) =~= t);
            r.push(slice(s, start, i));
            proof {
                assert(texts(r@) =~= before.push(t));
                assert(before + lines_of(t) =~= texts(r@) + lines_of(s@.skip(i as int)));
            }
            start = i;
        }
    }
    assert(texts(r@) + lines_of(s@.skip(start as int)) =~= texts(r@));
    r
}

/// The words of `s`.
pub fn words(s: &str) -> (r: Vec<String>)
    ensures
        texts(r@) == words_of(s@),
{
    let v = chars_of(s);
    let mut r: Vec<String> = Vec::new();
    let mut start: usize = 0;
    assert(v@.skip(0) =~= v@);
    assert(texts(r@) + words_of(s@) =~= words_of(s@));
    while start < v.len()
        invariant
            v@ == s@,
            start <= v@.len(),
            words_of(s@) == texts(r@) + words_of(s@.skip(start as int)),
        decreases v.len() - start,
    {
        let ghost t = s@.skip(start as int);
        assert(t[0] == v@[start as int]);
        assert(t.drop_first() =~= s@.skip(start + 1));
        if white(v[start]) {
            start += 1;
        } else {
            let ghost before = texts(r@);
            let mut i: usize = start;
            while i < v.len() && !white(v[i])
                invariant
                    v@ == s@,
                    start <= i <= v@.len(),
                    find_white(s@.skip(start as int)) == i - start + find_white(s@.skip(i as int)),
                decreases v.len() - i,
            {
                proof {
                    let u = s@.skip(i as int);
                    assert(u[0] == v@[i as int]);
                    assert(u.drop_first() =~= s@.skip(i + 1));
                }
                i += 1;
            }
            proof {
                let u = s@.skip(i as int);
                if u.len() > 0 {
                    assert(u[0] == v@[i as int]);
                }
                lemma_find_white_bound(t);
                assert(s@.subrange(start as int, i as int) =~= t.take(i - start));
                assert(t.skip(i - start) =~= u);
            }
            r.push(slice(s, start, i));
            proof {
                assert(texts(r@) =~= before.push(t.take(i - start)));
                assert(before + words_of(t) =~= texts(r@) + words_of(s@.skip(i as int)));
            }
            start = i;
        }
    }
    assert(texts(r@) + words_of(s@.skip(start as int)) =~= texts(r@));
    r
}

/// Whether the characters of `p` stand in `s` at position `i`.
fn stands_at(s: &Vec<char>, p: &Vec<char>, i: usize) -> (r: bool)
    requires
        i + p@.len() <= s@.len(),
    ensures
        r == occurs_at(s@, p@, i as int),
{
    let mut k: usize = 0;
    while k < p.len()
        invariant
            k <= p@.len(),
            i + p@.len() <= s.len(),
            forall|j: int| 0 <= j < k ==> s@[i + j] == p@[j],
        decreases p.len() - k,
    {
        if s[i + k] != p[k] {
            proof {
                assert(s@.subrange(i as int, i + p@.len())[k as int] == s@[i + k]);
            }
            return false;
        }
        k += 1;
    }
    assert(s@.subrange(i as int, i + p@.len()) =~= p@);
    true
}

/// Whether `p` stands somewhere in `s`.
pub fn contains(s: &str, p: &str) -> (r: bool)
    ensures
        r == occurs(s@, p@),
{
    let sv = chars_of(s);
    let pv = chars_of(p);
    if pv.len() > sv.len() {
        return false;
    }
    let mut i: usize = 0;
    let last: usize = sv.len() - pv.len();
    while i <= last
        invariant
            sv@ == s@,
            pv@ == p@,
            last == sv@.len() - pv@.len(),
            i <= last + 1,
            forall|j: int| 0 <= j < i ==> !occurs_at(s@, p@, j),
        decreases last + 1 - i,
    {
        if stands_at(&sv, &pv, i) {
            return true;
        }
        if i == last {
            return false;
        }
        i += 1;
    }
    false
}

/// Whether `s` begins with `p`.
pub fn starts_with(s: &str, p: &str) -> (r: bool)
    ensures
        r == begins(s@, p@),
{
    let sv = chars_of(s);
    let pv = chars_of(p);
    if pv.len() > sv.len() {
        return false;
    }
    assert(s@.subrange(0, p@.len() as int) =~= s@.take(p@.len() as int));
    stands_at(&sv, &pv, 0)
}

/// Whether `s` ends with `p`.
pub fn ends_with(s: &str, p: &str) -> (r: bool)
    ensures
        r == ends(s@, p@),
{
    let sv = chars_of(s);
    let pv = chars_of(p);
    if pv.len() > sv.len() {
        return false;
    }
    let i: usize = sv.len() - pv.len();
    assert(s@.subrange(i as int, i + p@.len()) =~= s@.skip(s@.len() - p@.len()));
    stands_at(&sv, &pv, i)
}

/// `s` without `p` at its end, where it ends with `p`.
pub fn strip_suffix(s: &str, p: &str) -> (r: Option<String>)
    ensures
        match r {
            Some(t) => cut_end(s@, p@) == Some(t@),
            None => cut_end(s@, p@) is None,
        },
{
    if ends_with(s, p) {
        let n: usize = s.unicode_len() - p.unicode_len();
        assert(s@.subrange(0, n as int) =~= s@.take(s@.len() - p@.len()));
        Some(slice(s, 0, n))
    } else {
        None
    }
}

/// `s` without `p` at its end, or `s` itself where it does not end with `p`.
pub fn strip_or_keep(s: &str, p: &str) -> (r: String)
    ensures
        r@ == stem(s@, p@),
{
    match strip_suffix(s, p) {
        Some(t) => t,
        None => s.to_owned(),
    }
}

/// `s` after every `p` at its front is taken off.
pub fn trim_start_matches(s: &str, p: &str) -> (r: String)
    ensures
        r@ == after_all(s@, p@),
{
    let n: usize = p.unicode_len();
    let mut rest: String = s.to_owned();
    if n == 0 {
        return rest;
    }
    while starts_with(rest.as_str(), p)
        invariant
            n == p@.len(),
            n > 0,
            after_all(s@, p@) == after_all(rest@, p@),
        decreases rest@.len(),
    {
        let m: usize = rest.as_str().unicode_len();
        assert(rest@.subrange(n as int, m as int) =~= rest@.skip(n as int));
        rest = slice(rest.as_str(), n, m);
    }
    rest
}

/// The parts in order, with `sep` between each two of them.
pub fn join(parts: &Vec<String>, sep: &str) -> (r: String)
    ensures
        r@ == joined(texts(parts@), sep@),
{
    let mut r = String::new();
    let mut i: usize = 0;
    let ghost all = texts(parts@);
    assert(joined(all.take(0), sep@) =~= seq![]);
    while i < parts.len()
        invariant
            i <= parts@.len(),
            all == texts(parts@),
            r@ == joined(all.take(i as int), sep@),
        decreases parts.len() - i,
    {
        let ghost next = all.take(i + 1);
        assert(next.drop_last() =~= all.take(i as int));
        assert(next.last() == parts@[i as int]@);
        if i > 0 {
            r.append(sep);
        }
        r.append(parts[i].as_str());
        proof {
            if i == 0 {
                assert(r@ =~= next[0]);
            }
        }
        i += 1;
    }
    assert(all.take(i as int) =~= all);
    r
}

} // verus!
