//! Generation and validation of the 8-character paste identifier.
//!
//! The first and last characters come from an alphanumeric alphabet, so an
//! identifier never starts or ends with a character that a URL or filename
//! could misread; the six interior characters come from a wider URL-safe
//! alphabet that adds `-`, `_`, `.` and `~`.
use crate::text::{chars_to_string, check_alnum, is_alnum, str_to_chars};
use vstd::prelude::*;

verus! {

/// Length of every paste identifier.
pub const ID_LEN: usize = 8;

/// A character the six interior positions of an identifier may hold.
pub open spec fn is_wide_id_char(c: char) -> bool {
    is_alnum(c) || c == '-' || c == '_' || c == '.' || c == '~'
}

/// A well-formed paste identifier: 8 characters, alphanumeric at both ends,
/// URL-safe throughout.
pub open spec fn valid_paste_id(s: Seq<char>) -> bool {
    &&& s.len() == ID_LEN
    &&& is_alnum(s[0])
    &&& is_alnum(s[s.len() - 1])
    &&& forall|i: int| 0 < i < s.len() - 1 ==> is_wide_id_char(#[trigger] s[i])
}

/// Relies on rand's `thread_rng` and `Rng::gen_range`: the result lies in
/// `0..bound`; `gen_range` panics on an empty range, so the bound must be
/// positive.
#[verifier::external_body]
fn random_index(bound: usize) -> (r: usize)
    requires
        bound > 0,
    ensures
        r < bound,
{
    rand::Rng::gen_range(&mut rand::thread_rng(), 0..bound)
}

/// Draw one alphanumeric character.  The table holds only such characters,
/// so the fallback arm is never taken; checking the drawn character keeps
/// the contract independent of the table literal.
fn random_narrow_char() -> (c: char)
    ensures
        is_alnum(c),
{
    let table = "ABCDEFGHIJKLMNOPQRSTUVWXYZabcdefghijklmnopqrstuvwxyz0123456789";
    proof {
        reveal_strlit("ABCDEFGHIJKLMNOPQRSTUVWXYZabcdefghijklmnopqrstuvwxyz0123456789");
    }
    let i = random_index(62);
    let c = table.get_char(i);
    if check_alnum(c) {
        c
    } else {
        'a'
    }
}

/// Draw one URL-safe identifier character, as `random_narrow_char` does.
fn random_wide_char() -> (c: char)
    ensures
        is_wide_id_char(c),
{
    let table = "ABCDEFGHIJKLMNOPQRSTUVWXYZabcdefghijklmnopqrstuvwxyz0123456789-_.~";
    proof {
        reveal_strlit("ABCDEFGHIJKLMNOPQRSTUVWXYZabcdefghijklmnopqrstuvwxyz0123456789-_.~");
    }
    let i = random_index(66);
    let c = table.get_char(i);
    if check_alnum(c) || c == '-' || c == '_' || c == '.' || c == '~' {
        c
    } else {
        'a'
    }
}

/// Produce a fresh random paste identifier.  Uniqueness is not checked
/// against the store; the keyspace makes a collision negligible, and the
/// store's uniqueness constraint surfaces one as an insert error.
pub fn generate_paste_id() -> (r: String)
    ensures
        valid_paste_id(r@),
{
    let mut out: Vec<char> = Vec::new();
    out.push(random_narrow_char());
    let mut i: usize = 0;
    while i < 6
        invariant
            0 <= i <= 6,
            out@.len() == i + 1,
            is_alnum(out@[0]),
            forall|j: int| 0 < j < out@.len() ==> is_wide_id_char(#[trigger] out@[j]),
        decreases 6 - i,
    {
        out.push(random_wide_char());
        i += 1;
    }
    out.push(random_narrow_char());
    chars_to_string(&out)
}

/// Check a caller-supplied identifier for well-formedness.
pub fn is_valid_paste_id(s: &str) -> (r: bool)
    ensures
        r == valid_paste_id(s@),
{
    let n = s.unicode_len();
    if n != ID_LEN {
        return false;
    }
    if !check_alnum(s.get_char(0)) || !check_alnum(s.get_char(ID_LEN - 1)) {
        return false;
    }
    let mut i: usize = 1;
    while i < ID_LEN - 1
        invariant
            1 <= i <= ID_LEN - 1,
            s@.len() == ID_LEN,
            is_alnum(s@[0]),
            is_alnum(s@[ID_LEN - 1]),
            forall|j: int| 0 < j < i ==> is_wide_id_char(#[trigger] s@[j]),
        decreases ID_LEN - 1 - i,
    {
        let c = s.get_char(i);
        if !(check_alnum(c) || c == '-' || c == '_' || c == '.' || c == '~') {
            return false;
        }
        i += 1;
    }
    true
}

/// A caller-supplied identifier trimmed to the canonical 8 characters; a
/// shorter input is kept whole.
pub open spec fn truncated_id(s: Seq<char>) -> Seq<char> {
    if s.len() <= ID_LEN {
        s
    } else {
        s.take(ID_LEN as int)
    }
}

/// Trim a caller-supplied identifier to the canonical 8 characters before it
/// is looked up; a shorter input is kept whole.
pub fn truncate_id(s: &str) -> (r: String)
    ensures
        r@ == truncated_id(s@),
{
    let cs = str_to_chars(s);
    let mut out: Vec<char> = Vec::new();
    let mut i: usize = 0;
    while i < cs.len() && i < ID_LEN
        invariant
            0 <= i <= cs@.len(),
            i <= ID_LEN,
            cs@ == s@,
            out@ == s@.take(i as int),
        decreases cs@.len() - i,
    {
        out.push(cs[i]);
        i += 1;
    }
    proof {
        if s@.len() <= ID_LEN {
            assert(out@ =~= s@);
        }
    }
    chars_to_string(&out)
}

} // verus!
