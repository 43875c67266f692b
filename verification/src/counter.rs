//! The in-memory view counter, flushed to the metadata store on an interval.
//!
//! Each entry maps a paste identifier to the up-to-date view count (the
//! durable count plus every view seen since the last flush).  The counter is
//! purely in memory: a crash loses pending views, so the durable count only
//! ever lags the true one.
use crate::assoc::{lemma_lookup_at, lemma_lookup_none, lemma_lookup_push, lookup};
use crate::text::str_eq;
use vstd::prelude::*;

verus! {

/// One more view, saturating instead of wrapping at the top of the range.
pub open spec fn bump(c: u64) -> u64 {
    if c < u64::MAX {
        (c + 1) as u64
    } else {
        c
    }
}

struct CounterEntry {
    id: String,
    count: u64,
}

/// The in-memory map from paste identifier to pending view count.
pub struct ViewCounter {
    entries: Vec<CounterEntry>,
}

impl ViewCounter {
    /// The counter as a keyed sequence of `(identifier, count)` pairs.
    pub closed spec fn contents(&self) -> Seq<(Seq<char>, u64)> {
        self.entries@.map_values(|e: CounterEntry| (e.id@, e.count))
    }

    /// The identifiers tracked, in entry order.
    pub open spec fn keys(&self) -> Seq<Seq<char>> {
        self.contents().map_values(|p: (Seq<char>, u64)| p.0)
    }

    /// Each identifier appears at most once.
    pub open spec fn wf(&self) -> bool {
        self.keys().no_duplicates()
    }

    /// An empty counter.
    pub fn new() -> (r: ViewCounter)
        ensures
            r.contents() == Seq::<(Seq<char>, u64)>::empty(),
            r.wf(),
    {
        let r = ViewCounter { entries: Vec::new() };
        proof {
            assert(r.contents() =~= Seq::<(Seq<char>, u64)>::empty());
        }
        r
    }

    /// Count one view of the given paste and return the up-to-date count for
    /// immediate display.  A paste seen for the first time since the last
    /// flush starts from its durable count.
    pub fn record_view(&mut self, paste_id: &str, durable_views: u64) -> (r: u64)
        requires
            old(self).wf(),
        ensures
            final(self).wf(),
            r == match lookup(old(self).contents(), paste_id@) {
                Some(c) => bump(c),
                None => bump(durable_views),
            },
            lookup(final(self).contents(), paste_id@) == Some(r),
            forall|k: Seq<char>|
                k != paste_id@ ==> lookup(final(self).contents(), k) == lookup(
                    old(self).contents(),
                    k,
                ),
    {
        let ghost m = self.contents();
        let mut i: usize = 0;
        while i < self.entries.len()
            invariant
                0 <= i <= self.entries@.len(),
                m == self.contents(),
                old(self) == self,
                old(self).wf(),
                forall|j: int| 0 <= j < i ==> (#[trigger] m[j]).0 != paste_id@,
            decreases self.entries@.len() - i,
        {
            if str_eq(self.entries[i].id.as_str(), paste_id) {
                proof {
                    lemma_lookup_at(m, paste_id@, i as int);
                }
                let e = self.entries.remove(i);
                let c = if e.count < u64::MAX {
                    e.count + 1
                } else {
                    e.count
                };
                self.entries.insert(i, CounterEntry { id: e.id, count: c });
                proof {
                    assert(self.contents() =~= m.update(i as int, (paste_id@, bump(m[i as int].1))));
                    assert(m[i as int].0 == paste_id@);
                    let oldk = old(self).keys();
                    let newk = self.keys();
                    assert(newk =~= oldk);
                    assert(oldk.no_duplicates());
                    assert forall|a: int, b: int|
                        0 <= a < newk.len() && 0 <= b < newk.len() && a != b implies newk[a]
                        != newk[b] by {
                        assert(oldk[a] != oldk[b]);
                    }
                    assert(self.wf());
                    lemma_lookup_at(self.contents(), paste_id@, i as int);
                    assert forall|k: Seq<char>| k != paste_id@ implies lookup(
                        self.contents(),
                        k,
                    ) == lookup(m, k) by {
                        crate::assoc::lemma_lookup_update_other(
                            m,
                            i as int,
                            (paste_id@, bump(m[i as int].1)),
                            k,
                        );
                    }
                }
                return c;
            }
            i += 1;
        }
        proof {
            lemma_lookup_none(m, paste_id@);
        }
        let c = if durable_views < u64::MAX {
            durable_views + 1
        } else {
            durable_views
        };
        self.entries.push(CounterEntry { id: paste_id.to_owned(), count: c });
        proof {
            assert(self.contents() =~= m.push((paste_id@, bump(durable_views))));
            let oldk = old(self).keys();
            let newk = self.keys();
            assert(newk =~= oldk.push(paste_id@));
            assert forall|a: int, b: int|
                0 <= a < newk.len() && 0 <= b < newk.len() && a != b implies newk[a] != newk[b] by {
                if a < oldk.len() && b < oldk.len() {
                    assert(oldk[a] != oldk[b]);
                } else if a < oldk.len() {
                    assert(oldk[a] == m[a].0 && m[a].0 != paste_id@);
                } else {
                    assert(oldk[b] == m[b].0 && m[b].0 != paste_id@);
                }
            }
            assert forall|k: Seq<char>| true implies {
                &&& k == paste_id@ ==> lookup(self.contents(), k) == Some(bump(durable_views))
                &&& k != paste_id@ ==> lookup(self.contents(), k) == lookup(m, k)
            } by {
                lemma_lookup_push(m, (paste_id@, bump(durable_views)), k);
            }
            assert(self.wf());
        }
        c
    }

    /// Hand every pending entry out for persistence and clear the counter.
    pub fn take_all(&mut self) -> (r: Vec<(String, u64)>)
        requires
            old(self).wf(),
        ensures
            final(self).wf(),
            final(self).contents() == Seq::<(Seq<char>, u64)>::empty(),
            r@.map_values(|p: (String, u64)| (p.0@, p.1)) == old(self).contents(),
    {
        let mut out: Vec<(String, u64)> = Vec::new();
        let mut i: usize = 0;
        while i < self.entries.len()
            invariant
                0 <= i <= self.entries@.len(),
                old(self) == self,
                out@.len() == i,
                forall|j: int|
                    0 <= j < i ==> #[trigger] out@[j].0@ == self.contents()[j].0 && out@[j].1
                        == self.contents()[j].1,
            decreases self.entries@.len() - i,
        {
            out.push((self.entries[i].id.clone(), self.entries[i].count));
            i += 1;
        }
        self.entries.clear();
        proof {
            assert(self.contents() =~= Seq::<(Seq<char>, u64)>::empty());
            assert(out@.map_values(|p: (String, u64)| (p.0@, p.1)) =~= old(self).contents());
        }
        out
    }

    /// How many pastes have pending views.
    pub fn len(&self) -> (r: usize)
        ensures
            r == self.contents().len(),
    {
        self.entries.len()
    }
}

} // verus!
