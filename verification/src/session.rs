//! The session-tracked list of recently created pastes: a bounded ring of
//! the last ten identifiers, used for the anonymous-ownership fallback.
//! Reading and writing the cookie that carries the list happens at the
//! process boundary; the list arithmetic lives here.
use crate::text::{str_eq, str_views};
use vstd::prelude::*;

verus! {

/// Most paste identifiers a session remembers.
pub const SESSION_MAX: usize = 10;

/// Append a freshly created paste to the session list, dropping the oldest
/// entry once more than ten are held.
pub fn update_session(paste_ids: &Vec<String>, paste_id: &str) -> (r: Vec<String>)
    ensures
        str_views(r@) == if str_views(paste_ids@).len() < SESSION_MAX {
            str_views(paste_ids@).push(paste_id@)
        } else {
            str_views(paste_ids@).push(paste_id@).drop_first()
        },
{
    let mut out: Vec<String> = Vec::new();
    let start: usize = if paste_ids.len() < SESSION_MAX {
        0
    } else {
        1
    };
    let mut i: usize = start;
    while i < paste_ids.len()
        invariant
            start <= i <= paste_ids@.len(),
            out@.len() == i - start,
            forall|j: int|
                0 <= j < out@.len() ==> #[trigger] out@[j]@ == paste_ids@[start + j]@,
        decreases paste_ids@.len() - i,
    {
        out.push(paste_ids[i].clone());
        i += 1;
    }
    out.push(paste_id.to_owned());
    proof {
        let full = str_views(paste_ids@).push(paste_id@);
        if paste_ids@.len() < SESSION_MAX {
            assert(str_views(out@) =~= full);
        } else {
            assert(str_views(out@) =~= full.drop_first());
        }
    }
    out
}

/// Whether the session list holds the given paste identifier, the
/// anonymous-ownership test.
pub fn is_paste_in_session(paste_ids: &Vec<String>, paste_id: &str) -> (r: bool)
    ensures
        r == str_views(paste_ids@).contains(paste_id@),
{
    let mut i: usize = 0;
    while i < paste_ids.len()
        invariant
            0 <= i <= paste_ids@.len(),
            forall|j: int| 0 <= j < i ==> #[trigger] str_views(paste_ids@)[j] != paste_id@,
        decreases paste_ids@.len() - i,
    {
        if str_eq(paste_ids[i].as_str(), paste_id) {
            assert(str_views(paste_ids@)[i as int] == paste_id@);
            return true;
        }
        i += 1;
    }
    false
}

} // verus!
