//! Small facts and functions about byte strings.

use vstd::prelude::*;

verus! {

/// The path separator.
pub const SLASH: u8 = 47;

/// The byte `.`.
pub const DOT: u8 = 46;

/// The name of the directory itself.
pub open spec fn dot() -> Seq<u8> {
    seq![DOT]
}

/// The name of the parent directory.
pub open spec fn dotdot() -> Seq<u8> {
    seq![DOT, DOT]
}

/// The path of the root directory.
pub open spec fn root() -> Seq<u8> {
    seq![SLASH]
}

/// The length of the part of `s` before its first separator.
pub open spec fn head_len(s: Seq<u8>) -> nat
    decreases s.len(),
{
    if s.len() == 0 || s[0] == SLASH {
        0
    } else {
        1 + head_len(s.skip(1))
    }
}

/// The part of `s` before its first separator: all of it where there is none.
pub open spec fn head(s: Seq<u8>) -> Seq<u8> {
    s.take(head_len(s) as int)
}

/// Whether `s` has anything after its head, that is, a separator.
pub open spec fn has_tail(s: Seq<u8>) -> bool {
    head_len(s) < s.len()
}

/// The part of `s` after its first separator.
pub open spec fn tail(s: Seq<u8>) -> Seq<u8> {
    s.skip(head_len(s) as int + 1)
}

/// The head ends at the first separator or at the end.
pub proof fn lemma_head_len(s: Seq<u8>)
    ensures
        head_len(s) <= s.len(),
        has_tail(s) ==> s[head_len(s) as int] == SLASH,
        forall|i: int| 0 <= i < head_len(s) ==> s[i] != SLASH,
        has_tail(s) <==> s.contains(SLASH),
    decreases s.len(),
{
    if s.len() > 0 && s[0] != SLASH {
        let rest = s.skip(1);
        lemma_head_len(rest);
        assert forall|i: int| 0 <= i < head_len(s) implies s[i] != SLASH by {
            if i > 0 {
                assert(rest[i - 1] == s[i]);
            }
        }
        if rest.contains(SLASH) {
            let i = choose|i: int| 0 <= i < rest.len() && rest[i] == SLASH;
            assert(s[i + 1] == SLASH);
        }
        if s.contains(SLASH) {
            let i = choose|i: int| 0 <= i < s.len() && s[i] == SLASH;
            assert(rest[i - 1] == SLASH);
        }
    }
}

/// A position reached without meeting a separator, and at which one stands or
/// the string ends, is where the head ends.
pub proof fn lemma_head_len_is(s: Seq<u8>, n: int)
    requires
        0 <= n <= s.len(),
        n < s.len() ==> s[n] == SLASH,
        forall|i: int| 0 <= i < n ==> s[i] != SLASH,
    ensures
        head_len(s) == n,
{
    lemma_head_len(s);
}

/// Whether two byte strings are equal.
pub fn bytes_eq(a: &[u8], b: &[u8]) -> (r: bool)
    ensures
        r == (a@ == b@),
{
    if a.len() != b.len() {
        return false;
    }
    let mut i: usize = 0;
    while i < a.len()
        invariant
            i <= a.len(),
            a.len() == b.len(),
            forall|j: int| 0 <= j < i ==> a@[j] == b@[j],
        decreases a.len() - i,
    {
        if a[i] != b[i] {
            return false;
        }
        i += 1;
    }
    assert(a@ =~= b@);
    true
}

/// Whether a byte string holds `b`.
pub fn contains_byte(s: &[u8], b: u8) -> (r: bool)
    ensures
        r == s@.contains(b),
{
    let mut i: usize = 0;
    while i < s.len()
        invariant
            i <= s.len(),
            forall|j: int| 0 <= j < i ==> s@[j] != b,
        decreases s.len() - i,
    {
        if s[i] == b {
            return true;
        }
        i += 1;
    }
    false
}

/// Whether a byte string is `.`.
pub fn is_dot(s: &[u8]) -> (r: bool)
    ensures
        r == (s@ == dot()),
{
    let r = s.len() == 1 && s[0] == DOT;
    assert(r ==> s@ =~= dot());
    r
}

/// Whether a byte string is `..`.
pub fn is_dotdot(s: &[u8]) -> (r: bool)
    ensures
        r == (s@ == dotdot()),
{
    let r = s.len() == 2 && s[0] == DOT && s[1] == DOT;
    assert(r ==> s@ =~= dotdot());
    r
}

/// Whether a byte string is the root path.
pub fn is_root(s: &[u8]) -> (r: bool)
    ensures
        r == (s@ == root()),
{
    let r = s.len() == 1 && s[0] == SLASH;
    assert(r ==> s@ =~= root());
    r
}

/// The byte strings held by a vector of vectors.
pub open spec fn views(v: Seq<Vec<u8>>) -> Seq<Seq<u8>> {
    Seq::new(v.len(), |i: int| v[i]@)
}

/// Whether a list of byte strings holds `b`.
pub fn holds_bytes(list: &[Vec<u8>], b: &[u8]) -> (r: bool)
    ensures
        r == views(list@).contains(b@),
{
    let mut i: usize = 0;
    while i < list.len()
        invariant
            i <= list.len(),
            forall|j: int| 0 <= j < i ==> views(list@)[j] != b@,
        decreases list.len() - i,
    {
        if bytes_eq(list[i].as_slice(), b) {
            assert(views(list@)[i as int] == b@);
            return true;
        }
        i += 1;
    }
    false
}

/// A copy of a byte string.
pub fn copy_bytes(s: &[u8]) -> (r: Vec<u8>)
    ensures
        r@ == s@,
{
    let mut r: Vec<u8> = Vec::new();
    r.extend_from_slice(s);
    assert(r@ =~= s@);
    r
}

} // verus!
