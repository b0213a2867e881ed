//! Passwords that a person has to type once.

use vstd::prelude::*;

verus! {

/// Letters and digits that are not mistaken for each other.
pub open spec fn charset() -> Seq<char> {
    "ABCDEFGHJKLMNPQRSTUVWXYZabcdefghijkmnopqrstuvwxyz23456789"@
}

/// The characters that can be taken for one another.
pub open spec fn is_ambiguous(c: char) -> bool {
    c == '0' || c == 'O' || c == '1' || c == 'l' || c == 'I'
}

/// The password that bytes choose: one character of the set for each byte.
pub open spec fn password_of(bytes: Seq<u8>) -> Seq<char> {
    bytes.map_values(|b: u8| charset()[b as int % charset().len() as int])
}

/// Bytes made from a number, for when the system has no random bytes.
pub open spec fn bytes_from(seed: u32, len: nat) -> Seq<u8> {
    Seq::new(len, |i: int| ((seed + i * 7919) % 256) as u8)
}

/// The password that bytes choose.
pub fn password_from(bytes: &Vec<u8>) -> (r: String)
    ensures
        r@ == password_of(bytes@),
{
    let all: &'static str = "ABCDEFGHJKLMNPQRSTUVWXYZabcdefghijkmnopqrstuvwxyz23456789";
    let n: usize = all.unicode_len();
    proof {
        reveal_strlit("ABCDEFGHJKLMNPQRSTUVWXYZabcdefghijkmnopqrstuvwxyz23456789");
    }
    let mut r = String::new();
    let mut i: usize = 0;
    let ghost whole = password_of(bytes@);
    while i < bytes.len()
        invariant
            i <= bytes@.len(),
            all@ == charset(),
            n == charset().len(),
            n > 0,
            whole == password_of(bytes@),
            r@ == whole.take(i as int),
        decreases bytes.len() - i,
    {
        let k: usize = bytes[i] as usize % n;
        r.append(all.substring_char(k, k + 1));
        assert(r@ =~= whole.take(i + 1));
        i += 1;
    }
    assert(whole.take(i as int) =~= whole);
    r
}

/// Bytes made from a number.
pub fn fallback_bytes(seed: u32, len: usize) -> (r: Vec<u8>)
    ensures
        r@ == bytes_from(seed, len as nat),
{
    let mut r: Vec<u8> = Vec::new();
    let mut b: u64 = (seed as u64) % 256;
    let mut i: usize = 0;
    while i < len
        invariant
            i <= len,
            b == (seed + i * 7919) % 256,
            r@ == bytes_from(seed, i as nat),
        decreases len - i,
    {
        r.push(b as u8);
        assert(r@ =~= bytes_from(seed, (i + 1) as nat));
        b = (b + 7919) % 256;
        i += 1;
    }
    r
}

/// The password of a length: from random bytes where there are as many, else from the
/// number.
pub open spec fn password_from_source(random: Option<Seq<u8>>, seed: u32, len: nat) -> Seq<char> {
    match random {
        Some(bytes) if bytes.len() == len => password_of(bytes),
        _ => password_of(bytes_from(seed, len)),
    }
}

/// The password of a length: from random bytes where there are as many, else from the
/// nanoseconds of the clock.
pub fn random_password(random: &Option<Vec<u8>>, nanos: u32, len: usize) -> (r: String)
    ensures
        r@ == password_from_source(
            match random {
                Some(v) => Some(v@),
                None => None,
            },
            nanos,
            len as nat,
        ),
        r@.len() == len,
{
    match random {
        Some(bytes) => if bytes.len() == len {
            password_from(bytes)
        } else {
            password_from(&fallback_bytes(nanos, len))
        },
        None => password_from(&fallback_bytes(nanos, len)),
    }
}

/// A password has as many characters as there are bytes, all of them from the set,
/// and none that is mistaken for another.
pub proof fn law_passwords_are_unambiguous(bytes: Seq<u8>)
    ensures
        password_of(bytes).len() == bytes.len(),
        forall|i: int|
            0 <= i < bytes.len() ==> charset().contains(#[trigger] password_of(bytes)[i])
                && !is_ambiguous(password_of(bytes)[i]),
{
    reveal_strlit("ABCDEFGHJKLMNPQRSTUVWXYZabcdefghijkmnopqrstuvwxyz23456789");
    assert(forall|k: int| 0 <= k < charset().len() ==> !is_ambiguous(#[trigger] charset()[k]));
}

/// Every character of the set can come up.
pub proof fn law_every_character_can_come_up(k: u8)
    requires
        k < charset().len(),
    ensures
        password_of(seq![k]) == seq![charset()[k as int]],
{
    reveal_strlit("ABCDEFGHJKLMNPQRSTUVWXYZabcdefghijkmnopqrstuvwxyz23456789");
    assert(password_of(seq![k]) =~= seq![charset()[k as int]]);
}

} // verus!
