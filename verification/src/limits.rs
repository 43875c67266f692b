//! Daily request limiting for the programmatic interface.
use crate::assoc::{lemma_lookup_at, lemma_lookup_none, lemma_lookup_push, lookup};
use crate::text::str_eq;
use vstd::prelude::*;

verus! {

/// Requests allowed per user per day.
pub const DAILY_LIMIT: u8 = 50;

/// One more request, saturating instead of wrapping at the top of the range.
pub open spec fn bump_count(c: u8) -> u8 {
    if c < u8::MAX {
        (c + 1) as u8
    } else {
        c
    }
}

/// The in-memory map from user identifier to requests seen today, cleared at
/// midnight.
pub struct RateLimiter {
    entries: Vec<(String, u8)>,
}

impl RateLimiter {
    /// The limiter as a keyed sequence of `(user, count)` pairs.
    pub closed spec fn contents(&self) -> Seq<(Seq<char>, u8)> {
        self.entries@.map_values(|e: (String, u8)| (e.0@, e.1))
    }

    /// The users tracked, in entry order.
    pub open spec fn keys(&self) -> Seq<Seq<char>> {
        self.contents().map_values(|p: (Seq<char>, u8)| p.0)
    }

    /// Each user appears at most once.
    pub open spec fn wf(&self) -> bool {
        self.keys().no_duplicates()
    }

    /// An empty limiter.
    pub fn new() -> (r: RateLimiter)
        ensures
            r.contents() == Seq::<(Seq<char>, u8)>::empty(),
            r.wf(),
    {
        let r = RateLimiter { entries: Vec::new() };
        proof {
            assert(r.contents() =~= Seq::<(Seq<char>, u8)>::empty());
        }
        r
    }

    /// Count one request by the given user and say whether the daily limit
    /// is now exceeded.
    pub fn rate_limited(&mut self, user_id: &str) -> (r: bool)
        requires
            old(self).wf(),
        ensures
            final(self).wf(),
            ({
                let c = match lookup(old(self).contents(), user_id@) {
                    Some(c) => bump_count(c),
                    None => 1u8,
                };
                &&& r == (c > DAILY_LIMIT)
                &&& lookup(final(self).contents(), user_id@) == Some(c)
            }),
            forall|k: Seq<char>|
                k != user_id@ ==> lookup(final(self).contents(), k) == lookup(
                    old(self).contents(),
                    k,
                ),
    {
        let ghost m = self.contents();
        let mut i: usize = 0;
        while i < self.entries.len()
            invariant
                0 <= i <= self.entries@.len(),
                m == self.contents(),
                old(self) == self,
                old(self).wf(),
                forall|j: int| 0 <= j < i ==> (#[trigger] m[j]).0 != user_id@,
            decreases self.entries@.len() - i,
        {
            if str_eq(self.entries[i].0.as_str(), user_id) {
                proof {
                    lemma_lookup_at(m, user_id@, i as int);
                }
                let e = self.entries.remove(i);
                let c = if e.1 < u8::MAX {
                    e.1 + 1
                } else {
                    e.1
                };
                self.entries.insert(i, (e.0, c));
                proof {
                    assert(self.contents() =~= m.update(i as int, (user_id@, bump_count(m[i as int].1))));
                    assert(m[i as int].0 == user_id@);
                    let oldk = old(self).keys();
                    let newk = self.keys();
                    assert(newk =~= oldk);
                    assert forall|a: int, b: int|
                        0 <= a < newk.len() && 0 <= b < newk.len() && a != b implies newk[a]
                        != newk[b] by {
                        assert(oldk[a] != oldk[b]);
                    }
                    lemma_lookup_at(self.contents(), user_id@, i as int);
                    assert forall|k: Seq<char>| k != user_id@ implies lookup(self.contents(), k)
                        == lookup(m, k) by {
                        crate::assoc::lemma_lookup_update_other(
                            m,
                            i as int,
                            (user_id@, bump_count(m[i as int].1)),
                            k,
                        );
                    }
                }
                return c > DAILY_LIMIT;
            }
            i += 1;
        }
        proof {
            lemma_lookup_none(m, user_id@);
        }
        self.entries.push((user_id.to_owned(), 1));
        proof {
            assert(self.contents() =~= m.push((user_id@, 1u8)));
            let oldk = old(self).keys();
            let newk = self.keys();
            assert(newk =~= oldk.push(user_id@));
            assert forall|a: int, b: int|
                0 <= a < newk.len() && 0 <= b < newk.len() && a != b implies newk[a] != newk[b] by {
                if a < oldk.len() && b < oldk.len() {
                    assert(oldk[a] != oldk[b]);
                } else if a < oldk.len() {
                    assert(oldk[a] == m[a].0 && m[a].0 != user_id@);
                } else {
                    assert(oldk[b] == m[b].0 && m[b].0 != user_id@);
                }
            }
            assert forall|k: Seq<char>| true implies {
                &&& k == user_id@ ==> lookup(self.contents(), k) == Some(1u8)
                &&& k != user_id@ ==> lookup(self.contents(), k) == lookup(m, k)
            } by {
                lemma_lookup_push(m, (user_id@, 1u8), k);
            }
        }
        false
    }

    /// Forget every count; run once a day at midnight.
    pub fn reset(&mut self)
        ensures
            final(self).contents() == Seq::<(Seq<char>, u8)>::empty(),
            final(self).wf(),
    {
        self.entries.clear();
        proof {
            assert(self.contents() =~= Seq::<(Seq<char>, u8)>::empty());
        }
    }
}

} // verus!
