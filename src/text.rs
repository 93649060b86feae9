use vstd::prelude::*;
use vstd::string::{StrSliceExecFns, StringExecFns};

verus! {

/// Whether two strings hold the same characters.
pub fn same_chars(a: &str, b: &str) -> (r: bool)
    ensures
        r == (a@ == b@),
{
    let n = a.unicode_len();
    if n != b.unicode_len() {
        return false;
    }
    let mut i: usize = 0;
    while i < n
        invariant
            n == a@.len(),
            n == b@.len(),
            i <= n,
            forall|j: int| 0 <= j < i ==> a@[j] == b@[j],
        decreases n - i,
    {
        if a.get_char(i) != b.get_char(i) {
            return false;
        }
        i = i + 1;
    }
    assert(a@ =~= b@);
    true
}

/// Whether `s` begins with `prefix`.
pub fn starts_with(s: &str, prefix: &str) -> (r: bool)
    ensures
        r == prefix@.is_prefix_of(s@),
{
    let n = prefix.unicode_len();
    if n > s.unicode_len() {
        return false;
    }
    let mut i: usize = 0;
    while i < n
        invariant
            n == prefix@.len(),
            n <= s@.len(),
            i <= n,
            forall|j: int| 0 <= j < i ==> prefix@[j] == s@[j],
        decreases n - i,
    {
        if prefix.get_char(i) != s.get_char(i) {
            return false;
        }
        i = i + 1;
    }
    true
}

/// The three dots that mark a shortened text.
pub open spec fn ellipsis() -> Seq<char> {
    seq!['.', '.', '.']
}

/// `s`, whose UTF-8 encoding takes `bytes` bytes, itself when that is at
/// most `len`; otherwise its first `len` characters (all of them, if it has
/// fewer) and three dots.
pub open spec fn shortened(s: Seq<char>, bytes: nat, len: nat) -> Seq<char> {
    if bytes <= len {
        s
    } else if s.len() <= len {
        s + ellipsis()
    } else {
        s.take(len as int) + ellipsis()
    }
}

/// Shortens a text for a narrow column, as `shortened` says.
pub fn truncate_with_ellipsis(s: &str, len: usize) -> (r: String)
    ensures
        r@ == shortened(s@, s.len() as nat, len as nat),
{
    if s.len() <= len {
        return s.to_owned();
    }
    let chars = s.unicode_len();
    let n = if chars <= len {
        chars
    } else {
        len
    };
    let mut r = s.substring_char(0, n).to_owned();
    proof {
        reveal_strlit("...");
    }
    r.append("...");
    assert(s@.subrange(0, n as int) =~= if s@.len() <= len { s@ } else { s@.take(len as int) });
    r
}

} // verus!
