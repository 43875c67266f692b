//! The queue of freed storage keys awaiting upstream cache invalidation.
//!
//! Keys accumulate until ten are queued or a purge is forced; the batch is
//! then handed out for one upstream request and the queue cleared whatever
//! that request's outcome, trading a possibly stale cache entry for never
//! retrying.
use crate::text::{str_eq, str_views};
use vstd::prelude::*;

verus! {

/// Queued keys before an unforced purge goes out.
pub const PURGE_BATCH: usize = 10;

/// The set of storage keys pending cache invalidation, in arrival order.
pub struct PurgeQueue {
    keys: Vec<String>,
}

impl PurgeQueue {
    /// The queued keys, in arrival order.
    pub closed spec fn contents(&self) -> Seq<Seq<char>> {
        str_views(self.keys@)
    }

    /// Each key appears at most once.
    pub open spec fn wf(&self) -> bool {
        self.contents().no_duplicates()
    }

    /// An empty queue.
    pub fn new() -> (r: PurgeQueue)
        ensures
            r.contents() == Seq::<Seq<char>>::empty(),
            r.wf(),
    {
        let r = PurgeQueue { keys: Vec::new() };
        proof {
            assert(r.contents() =~= Seq::<Seq<char>>::empty());
        }
        r
    }

    /// Queue a freed key for invalidation; a key already queued is not
    /// queued twice.
    pub fn enqueue(&mut self, key: &str)
        requires
            old(self).wf(),
        ensures
            final(self).wf(),
            final(self).contents() == if old(self).contents().contains(key@) {
                old(self).contents()
            } else {
                old(self).contents().push(key@)
            },
    {
        let ghost m = self.contents();
        let mut i: usize = 0;
        while i < self.keys.len()
            invariant
                0 <= i <= self.keys@.len(),
                m == self.contents(),
                old(self) == self,
                old(self).wf(),
                forall|j: int| 0 <= j < i ==> #[trigger] m[j] != key@,
            decreases self.keys@.len() - i,
        {
            if str_eq(self.keys[i].as_str(), key) {
                assert(m[i as int] == key@);
                assert(m.contains(key@));
                return ;
            }
            i += 1;
        }
        assert(!m.contains(key@));
        self.keys.push(key.to_owned());
        proof {
            assert(self.contents() =~= m.push(key@));
            assert forall|a: int, b: int|
                0 <= a < self.contents().len() && 0 <= b < self.contents().len() && a != b implies
            self.contents()[a] != self.contents()[b] by {
                if a < m.len() && b < m.len() {
                    assert(m[a] != m[b]);
                } else if a < m.len() {
                    assert(!m.contains(key@) && m[a] == self.contents()[a]);
                } else {
                    assert(!m.contains(key@) && m[b] == self.contents()[b]);
                }
            }
        }
    }

    /// How many keys are queued.
    pub fn len(&self) -> (r: usize)
        ensures
            r == self.contents().len(),
    {
        self.keys.len()
    }

    /// Hand the whole batch out when it is due: when ten keys have
    /// accumulated, or at once when forced.  An empty queue never yields a
    /// batch.
    pub fn take_batch(&mut self, now: bool) -> (r: Option<Vec<String>>)
        requires
            old(self).wf(),
        ensures
            final(self).wf(),
            old(self).contents().len() == 0 || (old(self).contents().len() < PURGE_BATCH && !now)
                ==> r is None && *final(self) == *old(self),
            old(self).contents().len() > 0 && (old(self).contents().len() >= PURGE_BATCH || now)
                ==> {
                &&& r matches Some(v) && str_views(v@) == old(self).contents()
                &&& final(self).contents() == Seq::<Seq<char>>::empty()
            },
    {
        if self.keys.len() == 0 || (self.keys.len() < PURGE_BATCH && !now) {
            return None;
        }
        let ghost m = self.contents();
        let mut out: Vec<String> = Vec::new();
        core::mem::swap(&mut out, &mut self.keys);
        proof {
            assert(self.contents() =~= Seq::<Seq<char>>::empty());
            assert(str_views(out@) == m);
        }
        Some(out)
    }
}

} // verus!
