//! Paths as text.

use vstd::prelude::*;

verus! {

/// `p` below `base`; `p` alone where it is absolute.
pub open spec fn below(base: Seq<char>, p: Seq<char>) -> Seq<char> {
    if p.len() > 0 && p[0] == '/' {
        p
    } else if base.len() == 0 || base.last() == '/' {
        base + p
    } else {
        base + "/"@ + p
    }
}

/// `p` below `base`; `p` alone where it is absolute.
pub fn join_path(base: &str, p: &str) -> (r: String)
    ensures
        r@ == below(base@, p@),
{
    if p.unicode_len() > 0 && p.get_char(0) == '/' {
        return p.to_owned();
    }
    let n: usize = base.unicode_len();
    if n == 0 || base.get_char(n - 1) == '/' {
        base.to_owned().concat(p)
    } else {
        base.to_owned().concat("/").concat(p)
    }
}

/// Whether a text can be the name of a file: it is not empty and holds no slash.
pub open spec fn is_file_name(s: Seq<char>) -> bool {
    s.len() > 0 && !s.contains('/')
}

/// A path that is not absolute stands behind its base with exactly one slash between
/// them, whether or not the base ends with one; behind an empty base it stands alone.
pub proof fn law_paths_are_joined_by_one_slash(base: Seq<char>, p: Seq<char>)
    requires
        p.len() == 0 || p[0] != '/',
    ensures
        base.len() == 0 ==> below(base, p) == p,
        base.len() > 0 && base.last() != '/' ==> below(base, p) == base + seq!['/'] + p,
        base.len() > 0 && base.last() == '/' ==> below(base, p) == base + p,
{
    reveal_strlit("/");
    assert(Seq::<char>::empty() + p =~= p);
    assert("/"@ =~= seq!['/']);
}

/// An absolute path is taken as it is, whatever its base.
pub proof fn law_absolute_path_stands_alone(base: Seq<char>, p: Seq<char>)
    ensures
        below(base, seq!['/'] + p) == seq!['/'] + p,
{
}

/// A file name below a directory that does not end with a slash.
pub proof fn lemma_file_below(base: Seq<char>, name: Seq<char>)
    requires
        base.len() > 0,
        base.last() != '/',
        is_file_name(name),
    ensures
        below(base, name) == base + "/"@ + name,
        below(base, name).len() > 0,
        below(base, name).last() != '/',
{
    assert(name.contains(name[0]));
    assert(name.contains(name.last()));
}

} // verus!
