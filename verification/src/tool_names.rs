//! The names by which tools are chosen on the command line.

use vstd::prelude::*;
use vstd::utf8::is_ascii_chars;

use crate::exchange::with;
use crate::order::among;
use crate::text;
use crate::text::{same, slice, texts, trim};

verus! {

/// What `str::to_lowercase` of the standard library gives for a text.
pub uninterp spec fn unicode_lowercase(s: Seq<char>) -> Seq<char>;

/// `str::to_lowercase`: the lower-case equivalent of a text by the rules of Unicode,
/// which depends on the text alone. The mapping itself is not stated.
#[verifier::external_body]
fn unicode_lower(s: &str) -> (r: String)
    ensures
        r@ == unicode_lowercase(s@),
{
    s.to_lowercase()
}

/// The lower-case letter of an ASCII capital; any other character as it is.
pub open spec fn ascii_lower(c: char) -> char {
    if 'A' <= c <= 'Z' {
        (c as u32 + 32) as char
    } else {
        c
    }
}

/// A text in lower case.
pub open spec fn lowered(s: Seq<char>) -> Seq<char> {
    if is_ascii_chars(s) {
        s.map_values(|c: char| ascii_lower(c))
    } else {
        unicode_lowercase(s)
    }
}

/// The lower-case ASCII letter at a position of the alphabet.
fn letter(i: usize) -> (r: &'static str)
    requires
        i < 26,
    ensures
        r@ == seq![(97 + i) as char],
{
    let all: &'static str = "abcdefghijklmnopqrstuvwxyz";
    proof {
        reveal_strlit("abcdefghijklmnopqrstuvwxyz");
    }
    let r = all.substring_char(i, i + 1);
    assert(r@ =~= seq![(97 + i) as char]);
    r
}

/// A text in lower case.
pub fn lower(s: &str) -> (r: String)
    ensures
        r@ == lowered(s@),
{
    if !s.is_ascii() {
        return unicode_lower(s);
    }
    let v = text::chars_of(s);
    let mut r = String::new();
    let mut i: usize = 0;
    let ghost low = lowered(s@);
    while i < v.len()
        invariant
            v@ == s@,
            i <= v@.len(),
            low == s@.map_values(|c: char| ascii_lower(c)),
            r@ == low.take(i as int),
        decreases v.len() - i,
    {
        let c = v[i];
        if 'A' <= c && c <= 'Z' {
            r.append(letter(c as usize - 65));
        } else {
            r.append(slice(s, i, i + 1).as_str());
        }
        assert(r@ =~= low.take(i + 1));
        i += 1;
    }
    assert(low.take(i as int) =~= low);
    r
}

/// The tools that can be chosen, in the order in which all of them are installed.
pub open spec fn known_tools() -> Seq<Seq<char>> {
    seq!["xilinx"@, "cadence"@, "silvaco"@, "cadre"@]
}

/// The tools that can be chosen.
pub fn all_tools() -> (r: Vec<String>)
    ensures
        texts(r@) == known_tools(),
{
    let v = crate::exchange::list2("xilinx".to_owned(), "cadence".to_owned());
    with(with(v, "silvaco".to_owned()), "cadre".to_owned())
}

/// An entry as it is compared: without white space around it, in lower case.
pub open spec fn normal(entry: Seq<char>) -> Seq<char> {
    lowered(text::trimmed(entry))
}

/// The tools that a name in lower case stands for; none where it is unknown.
pub open spec fn meant(name: Seq<char>) -> Option<Seq<Seq<char>>> {
    if name == "all"@ {
        Some(known_tools())
    } else if known_tools().contains(name) {
        Some(seq![name])
    } else {
        None
    }
}

/// The tools that a name in lower case stands for; none where it is unknown.
pub fn tools_meant(name: &str) -> (r: Option<Vec<String>>)
    ensures
        match r {
            Some(v) => meant(name@) == Some(texts(v@)),
            None => meant(name@) is None,
        },
{
    let tools = all_tools();
    if same(name, "all") {
        Some(tools)
    } else if among(&tools, name) {
        Some(crate::exchange::args1(name))
    } else {
        None
    }
}

/// Whether an entry names a tool, or all of them.
pub open spec fn acceptable(entry: Seq<char>) -> bool {
    meant(normal(entry)) is Some
}

/// The tools that an acceptable entry names.
pub open spec fn named(entry: Seq<char>) -> Seq<Seq<char>> {
    meant(normal(entry))->Some_0
}

/// What is said of an entry that names no tool.
pub open spec fn unknown_tool(entry: Seq<char>) -> Seq<char> {
    "Unknown tool '"@ + entry
        + "' - expected one of: xilinx, cadence, silvaco, cadre, or all"@
}

/// The tools that the entries name, one entry after another; an error on the first
/// entry that names none.
pub open spec fn resolved(raw: Seq<Seq<char>>) -> Result<Seq<Seq<char>>, Seq<char>>
    decreases raw.len(),
{
    if raw.len() == 0 {
        Ok(seq![])
    } else {
        match resolved(raw.drop_last()) {
            Err(e) => Err(e),
            Ok(tools) => if acceptable(raw.last()) {
                Ok(tools + named(raw.last()))
            } else {
                Err(unknown_tool(raw.last()))
            },
        }
    }
}

/// The model of a list of names or an error.
pub open spec fn names_view(r: Result<Vec<String>, String>) -> Result<Seq<Seq<char>>, Seq<char>> {
    match r {
        Ok(v) => Ok(texts(v@)),
        Err(e) => Err(e@),
    }
}

/// Replaces "all" by the names of all tools and checks every entry, without regard
/// to case, before anything is done with any of them.
pub fn resolve_tool_names(raw: &Vec<String>) -> (r: Result<Vec<String>, String>)
    ensures
        names_view(r) == resolved(texts(raw@)),
{
    let mut out: Vec<String> = Vec::new();
    let mut i: usize = 0;
    let ghost all = texts(raw@);
    assert(texts(out@) =~= seq![]);
    assert(all.take(0) =~= seq![]);
    while i < raw.len()
        invariant
            i <= raw@.len(),
            all == texts(raw@),
            resolved(all.take(i as int)) == Ok::<Seq<Seq<char>>, Seq<char>>(texts(out@)),
        decreases raw.len() - i,
    {
        let ghost next = all.take(i + 1);
        assert(next.drop_last() =~= all.take(i as int));
        assert(next.last() == raw@[i as int]@);
        let name = lower(trim(raw[i].as_str()).as_str());
        match tools_meant(name.as_str()) {
            None => {
                proof {
                    lemma_error_stays(all, i + 1);
                }
                return Err(
                    "Unknown tool '".to_owned().concat(raw[i].as_str()).concat(
                        "' - expected one of: xilinx, cadence, silvaco, cadre, or all",
                    ),
                );
            },
            Some(tools) => {
                out = followed_by(out, &tools);
            },
        }
        i += 1;
    }
    assert(all.take(i as int) =~= all);
    Ok(out)
}

fn followed_by(v: Vec<String>, more: &Vec<String>) -> (r: Vec<String>)
    ensures
        texts(r@) == texts(v@) + texts(more@),
{
    let mut r = v;
    let mut k: usize = 0;
    let ghost start = texts(r@);
    let ghost all = texts(more@);
    assert(start + all.take(0) =~= start);
    while k < more.len()
        invariant
            k <= more@.len(),
            all == texts(more@),
            texts(r@) == start + all.take(k as int),
        decreases more.len() - k,
    {
        r = with(r, more[k].clone());
        assert(texts(r@) =~= start + all.take(k + 1));
        k += 1;
    }
    assert(all.take(k as int) =~= all);
    r
}

proof fn lemma_error_stays(raw: Seq<Seq<char>>, k: int)
    requires
        0 <= k <= raw.len(),
        resolved(raw.take(k)) is Err,
    ensures
        resolved(raw) == resolved(raw.take(k)),
    decreases raw.len() - k,
{
    if k < raw.len() {
        assert(raw.take(k + 1).drop_last() =~= raw.take(k));
        lemma_error_stays(raw, k + 1);
    } else {
        assert(raw.take(k) =~= raw);
    }
}

/// Names are resolved if and only if every entry names a tool or all of them.
pub proof fn law_resolves_iff_all_acceptable(raw: Seq<Seq<char>>)
    ensures
        resolved(raw) is Ok <==> forall|i: int| 0 <= i < raw.len() ==> acceptable(#[trigger] raw[i]),
    decreases raw.len(),
{
    if raw.len() > 0 {
        let front = raw.drop_last();
        law_resolves_iff_all_acceptable(front);
        if forall|i: int| 0 <= i < raw.len() ==> acceptable(#[trigger] raw[i]) {
            assert forall|i: int| 0 <= i < front.len() implies acceptable(#[trigger] front[i]) by {
                assert(acceptable(raw[i]));
            }
            assert(acceptable(raw[raw.len() - 1]));
        }
        if resolved(raw) is Ok {
            assert forall|i: int| 0 <= i < raw.len() implies acceptable(#[trigger] raw[i]) by {
                if i < front.len() {
                    assert(acceptable(front[i]));
                }
            }
        }
    }
}

/// The error speaks of the first entry that names no tool.
pub proof fn law_error_names_first_bad_entry(raw: Seq<Seq<char>>, k: int)
    requires
        0 <= k < raw.len(),
        !acceptable(raw[k]),
        forall|i: int| 0 <= i < k ==> acceptable(#[trigger] raw[i]),
    ensures
        resolved(raw) == Err::<Seq<Seq<char>>, Seq<char>>(unknown_tool(raw[k])),
{
    let front = raw.take(k);
    assert forall|i: int| 0 <= i < front.len() implies acceptable(#[trigger] front[i]) by {
        assert(acceptable(raw[i]));
    }
    law_resolves_iff_all_acceptable(front);
    assert(raw.take(k + 1).drop_last() =~= front);
    assert(raw.take(k + 1).last() == raw[k]);
    lemma_error_stays(raw, k + 1);
}

/// Every name that comes out is that of a known tool.
pub proof fn law_resolved_names_are_known(raw: Seq<Seq<char>>)
    requires
        resolved(raw) is Ok,
    ensures
        forall|i: int|
            0 <= i < resolved(raw)->Ok_0.len() ==> known_tools().contains(
                #[trigger] resolved(raw)->Ok_0[i],
            ),
    decreases raw.len(),
{
    if raw.len() > 0 {
        law_resolved_names_are_known(raw.drop_last());
        let front = resolved(raw.drop_last())->Ok_0;
        let out = resolved(raw)->Ok_0;
        assert forall|i: int| 0 <= i < out.len() implies known_tools().contains(
            #[trigger] out[i],
        ) by {
            if i < front.len() {
                assert(out[i] == front[i]);
            } else {
                let t = named(raw.last());
                assert(out[i] == t[i - front.len()]);
            }
        }
    }
}

/// A known name stands for itself, and none of them is "all".
pub proof fn law_known_names_are_normal(t: Seq<char>)
    requires
        known_tools().contains(t),
    ensures
        normal(t) == t,
        t != "all"@,
        acceptable(t),
        named(t) == seq![t],
{
    reveal_strlit("xilinx");
    reveal_strlit("cadence");
    reveal_strlit("silvaco");
    reveal_strlit("cadre");
    reveal_strlit("all");
    assert(t == "xilinx"@ || t == "cadence"@ || t == "silvaco"@ || t == "cadre"@);
    assert(t[0] == 'x' || t[0] == 'c' || t[0] == 's');
    assert(t.last() == 'x' || t.last() == 'e' || t.last() == 'o');
    assert(text::trimmed(t) == t);
    assert(is_ascii_chars(t));
    assert(lowered(t) =~= t);
}

/// Names that have been resolved resolve to themselves.
pub proof fn law_resolving_twice_changes_nothing(raw: Seq<Seq<char>>)
    requires
        resolved(raw) is Ok,
    ensures
        resolved(resolved(raw)->Ok_0) == resolved(raw),
{
    law_resolved_names_are_known(raw);
    lemma_known_resolve(resolved(raw)->Ok_0);
}

proof fn lemma_known_resolve(names: Seq<Seq<char>>)
    requires
        forall|i: int| 0 <= i < names.len() ==> known_tools().contains(#[trigger] names[i]),
    ensures
        resolved(names) == Ok::<Seq<Seq<char>>, Seq<char>>(names),
    decreases names.len(),
{
    if names.len() > 0 {
        let front = names.drop_last();
        assert forall|i: int| 0 <= i < front.len() implies known_tools().contains(
            #[trigger] front[i],
        ) by {
            assert(known_tools().contains(names[i]));
        }
        lemma_known_resolve(front);
        assert(known_tools().contains(names[names.len() - 1]));
        law_known_names_are_normal(names.last());
        assert(front + seq![names.last()] =~= names);
    } else {
        assert(names =~= seq![]);
    }
}

/// Case does not matter for ASCII text.
pub proof fn law_case_does_not_matter(a: Seq<char>, b: Seq<char>)
    requires
        is_ascii_chars(text::trimmed(a)),
        is_ascii_chars(text::trimmed(b)),
        text::trimmed(a).map_values(|c: char| ascii_lower(c)) == text::trimmed(b).map_values(
            |c: char| ascii_lower(c),
        ),
    ensures
        acceptable(a) == acceptable(b),
        named(a) == named(b),
{
}

} // verus!
