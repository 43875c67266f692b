//! The metadata store: one row per paste, the single source of truth for
//! existence, ownership and view counts.
//!
//! Modeled as an owned table ordered newest-first, with unique identifiers —
//! the real store's primary-key constraint.  The failure flags simulate a
//! store that cannot begin or commit a transaction, so the engine's
//! rollback behavior can be exercised.
use crate::errors::PasteError;
use crate::paste::Paste;
use crate::text::str_eq;
use vstd::prelude::*;

verus! {

/// The row holding the given identifier, if any.
pub open spec fn row_for(rows: Seq<Paste>, id: Seq<char>) -> Option<Paste>
    decreases rows.len(),
{
    if rows.len() == 0 {
        None
    } else if rows[0].paste_id@ == id {
        Some(rows[0])
    } else {
        row_for(rows.drop_first(), id)
    }
}

/// When everything before index `i` misses the identifier and `rows[i]`
/// carries it, the lookup finds `rows[i]`.
pub proof fn lemma_row_for_at(rows: Seq<Paste>, id: Seq<char>, i: int)
    requires
        0 <= i < rows.len(),
        rows[i].paste_id@ == id,
        forall|j: int| 0 <= j < i ==> (#[trigger] rows[j]).paste_id@ != id,
    ensures
        row_for(rows, id) == Some(rows[i]),
    decreases i,
{
    if i > 0 {
        lemma_row_for_at(rows.drop_first(), id, i - 1);
    }
}

/// When no row carries the identifier, the lookup misses.
pub proof fn lemma_row_for_none(rows: Seq<Paste>, id: Seq<char>)
    requires
        forall|j: int| 0 <= j < rows.len() ==> (#[trigger] rows[j]).paste_id@ != id,
    ensures
        row_for(rows, id) is None,
    decreases rows.len(),
{
    if rows.len() > 0 {
        lemma_row_for_none(rows.drop_first(), id);
    }
}

/// Inserting a row under a fresh identifier makes that row findable and
/// leaves every other lookup alone.
pub proof fn lemma_row_for_insert(rows: Seq<Paste>, k: int, p: Paste, id: Seq<char>)
    requires
        0 <= k <= rows.len(),
        forall|j: int| 0 <= j < rows.len() ==> (#[trigger] rows[j]).paste_id@ != p.paste_id@,
    ensures
        id == p.paste_id@ ==> row_for(rows.insert(k, p), id) == Some(p),
        id != p.paste_id@ ==> row_for(rows.insert(k, p), id) == row_for(rows, id),
    decreases k,
{
    let s = rows.insert(k, p);
    if k == 0 {
        assert(s[0] == p);
        assert(s.drop_first() =~= rows);
    } else {
        assert(s[0] == rows[0]);
        assert(s.drop_first() =~= rows.drop_first().insert(k - 1, p));
        lemma_row_for_insert(rows.drop_first(), k - 1, p, id);
    }
}

/// Removing the only row under an identifier makes its lookup miss and
/// leaves every other lookup alone.
pub proof fn lemma_row_for_remove(rows: Seq<Paste>, k: int, id: Seq<char>)
    requires
        0 <= k < rows.len(),
        forall|j: int| 0 <= j < rows.len() && j != k ==> (#[trigger] rows[j]).paste_id@ != rows[
            k].paste_id@,
    ensures
        id == rows[k].paste_id@ ==> row_for(rows.remove(k), id) is None,
        id != rows[k].paste_id@ ==> row_for(rows.remove(k), id) == row_for(rows, id),
    decreases k,
{
    let s = rows.remove(k);
    if k == 0 {
        assert(s =~= rows.drop_first());
        if id == rows[0].paste_id@ {
            assert forall|j: int| 0 <= j < s.len() implies (#[trigger] s[j]).paste_id@ != id by {
                assert(s[j] == rows[j + 1]);
            }
            lemma_row_for_none(s, id);
        }
    } else {
        assert(s[0] == rows[0]);
        assert(s.drop_first() =~= rows.drop_first().remove(k - 1));
        lemma_row_for_remove(rows.drop_first(), k - 1, id);
    }
}

/// Replacing the row at `k` by one under the same identifier redirects that
/// identifier's lookup and leaves every other lookup alone.
pub proof fn lemma_row_for_update(rows: Seq<Paste>, k: int, p: Paste, id: Seq<char>)
    requires
        0 <= k < rows.len(),
        p.paste_id@ == rows[k].paste_id@,
        forall|j: int| 0 <= j < k ==> (#[trigger] rows[j]).paste_id@ != rows[k].paste_id@,
    ensures
        id == p.paste_id@ ==> row_for(rows.update(k, p), id) == Some(p),
        id != p.paste_id@ ==> row_for(rows.update(k, p), id) == row_for(rows, id),
    decreases k,
{
    let s = rows.update(k, p);
    if k == 0 {
        assert(s[0] == p);
        assert(s.drop_first() =~= rows.drop_first());
    } else {
        assert(s[0] == rows[0]);
        assert(s.drop_first() =~= rows.drop_first().update(k - 1, p));
        lemma_row_for_update(rows.drop_first(), k - 1, p, id);
    }
}

/// A found row sits at some index and carries the identifier.
pub proof fn lemma_row_for_some_index(rows: Seq<Paste>, id: Seq<char>)
    ensures
        row_for(rows, id) matches Some(p) ==> exists|j: int|
            0 <= j < rows.len() && #[trigger] rows[j] == p && rows[j].paste_id@ == id,
    decreases rows.len(),
{
    if rows.len() > 0 && rows[0].paste_id@ != id {
        lemma_row_for_some_index(rows.drop_first(), id);
        if row_for(rows, id) is Some {
            let p = row_for(rows, id)->Some_0;
            let j = choose|j: int|
                0 <= j < rows.drop_first().len() && #[trigger] rows.drop_first()[j] == p
                    && rows.drop_first()[j].paste_id@ == id;
            assert(rows[j + 1] == p);
        }
    }
}

/// The metadata table, rows newest-first.
pub struct MetaStore {
    rows: Vec<Paste>,
    fail_begin: bool,
    fail_commit: bool,
}

impl MetaStore {
    /// The rows, newest-first.
    pub closed spec fn rows_view(&self) -> Seq<Paste> {
        self.rows@
    }

    /// Whether the next transaction fails to begin.
    pub closed spec fn begin_fails(&self) -> bool {
        self.fail_begin
    }

    /// Whether the next transaction fails to commit.
    pub closed spec fn commit_fails(&self) -> bool {
        self.fail_commit
    }

    /// The stored identifiers, newest-first.
    pub open spec fn ids(&self) -> Seq<Seq<char>> {
        self.rows_view().map_values(|p: Paste| p.paste_id@)
    }

    /// Identifiers are unique and rows are ordered newest-first.
    pub open spec fn wf(&self) -> bool {
        &&& self.ids().no_duplicates()
        &&& forall|i: int, j: int|
            0 <= i < j < self.rows_view().len() ==> (#[trigger] self.rows_view()[i]).date >= (
            #[trigger] self.rows_view()[j]).date
    }

    /// An empty, healthy store.
    pub fn new() -> (r: MetaStore)
        ensures
            r.rows_view() == Seq::<Paste>::empty(),
            r.wf(),
            !r.begin_fails(),
            !r.commit_fails(),
    {
        let r = MetaStore { rows: Vec::new(), fail_begin: false, fail_commit: false };
        proof {
            assert(r.rows_view() =~= Seq::<Paste>::empty());
            assert(r.ids() =~= Seq::<Seq<char>>::empty());
        }
        r
    }

    /// Simulate a store whose transactions cannot begin.
    pub fn set_fail_begin(&mut self, v: bool)
        ensures
            final(self).begin_fails() == v,
            final(self).commit_fails() == old(self).commit_fails(),
            final(self).rows_view() == old(self).rows_view(),
    {
        self.fail_begin = v;
    }

    /// Simulate a store whose transactions cannot commit.
    pub fn set_fail_commit(&mut self, v: bool)
        ensures
            final(self).commit_fails() == v,
            final(self).begin_fails() == old(self).begin_fails(),
            final(self).rows_view() == old(self).rows_view(),
    {
        self.fail_commit = v;
    }

    /// How many rows are stored.
    pub fn len(&self) -> (r: usize)
        ensures
            r == self.rows_view().len(),
    {
        self.rows.len()
    }

    /// Open a transaction; fails only when the store is simulated down.
    pub fn begin(&self) -> (r: Result<(), PasteError>)
        ensures
            r is Ok <==> !self.begin_fails(),
            r is Err ==> r == Err::<(), PasteError>(PasteError::Transaction),
    {
        if self.fail_begin {
            Err(PasteError::Transaction)
        } else {
            Ok(())
        }
    }

    /// Commit the open transaction; fails only when the store is simulated
    /// unable to commit.
    pub fn commit(&self) -> (r: Result<(), PasteError>)
        ensures
            r is Ok <==> !self.commit_fails(),
            r is Err ==> r == Err::<(), PasteError>(PasteError::Transaction),
    {
        if self.fail_commit {
            Err(PasteError::Transaction)
        } else {
            Ok(())
        }
    }

    /// The index of the row under the given identifier, if any.
    pub fn find(&self, id: &str) -> (r: Option<usize>)
        ensures
            r matches Some(i) ==> i < self.rows_view().len() && self.rows_view()[
                i as int].paste_id@ == id@ && row_for(self.rows_view(), id@) == Some(
                self.rows_view()[i as int],
            ) && (forall|j: int|
                0 <= j < i ==> (#[trigger] self.rows_view()[j]).paste_id@ != id@),
            r is None ==> row_for(self.rows_view(), id@) is None && !self.ids().contains(id@),
    {
        let mut i: usize = 0;
        while i < self.rows.len()
            invariant
                0 <= i <= self.rows@.len(),
                forall|j: int| 0 <= j < i ==> (#[trigger] self.rows@[j]).paste_id@ != id@,
            decreases self.rows@.len() - i,
        {
            if str_eq(self.rows[i].paste_id.as_str(), id) {
                proof {
                    lemma_row_for_at(self.rows_view(), id@, i as int);
                }
                return Some(i);
            }
            i += 1;
        }
        proof {
            lemma_row_for_none(self.rows_view(), id@);
            if self.ids().contains(id@) {
                let k = choose|k: int|
                    0 <= k < self.ids().len() && #[trigger] self.ids()[k] == id@;
                assert(self.rows_view()[k].paste_id@ == id@);
            }
        }
        None
    }

    /// Borrow the row at an index.
    pub fn row_at(&self, i: usize) -> (r: &Paste)
        requires
            i < self.rows_view().len(),
        ensures
            *r == self.rows_view()[i as int],
    {
        &self.rows[i]
    }

    /// Insert a fresh row at its place in the newest-first order.  A row
    /// under an identifier already present is refused, as the store's
    /// uniqueness constraint refuses it, and nothing changes.
    pub fn insert_row(&mut self, p: Paste) -> (r: Result<(), PasteError>)
        requires
            old(self).wf(),
        ensures
            final(self).wf(),
            final(self).begin_fails() == old(self).begin_fails(),
            final(self).commit_fails() == old(self).commit_fails(),
            old(self).ids().contains(p.paste_id@) ==> r == Err::<(), PasteError>(
                PasteError::Transaction,
            ) && final(self).rows_view() == old(self).rows_view(),
            !old(self).ids().contains(p.paste_id@) ==> {
                &&& r is Ok
                &&& final(self).rows_view().len() == old(self).rows_view().len() + 1
                &&& row_for(final(self).rows_view(), p.paste_id@) == Some(p)
                &&& forall|k: Seq<char>|
                    k != p.paste_id@ ==> row_for(final(self).rows_view(), k) == row_for(
                        old(self).rows_view(),
                        k,
                    )
                &&& final(self).ids().contains(p.paste_id@)
                &&& forall|k: Seq<char>|
                    #[trigger] old(self).ids().contains(k) ==> final(self).ids().contains(k)
            },
    {
        if self.find(p.paste_id.as_str()).is_some() {
            proof {
                let k = choose|k: int|
                    0 <= k < self.rows_view().len() && (#[trigger] self.rows_view()[k]).paste_id@
                        == p.paste_id@;
                assert(self.ids()[k] == p.paste_id@);
            }
            return Err(PasteError::Transaction);
        }
        let ghost m = self.rows_view();
        let mut pos: usize = 0;
        while pos < self.rows.len() && self.rows[pos].date > p.date
            invariant
                0 <= pos <= self.rows@.len(),
                m == self.rows_view(),
                old(self) == self,
                forall|j: int| 0 <= j < pos ==> (#[trigger] m[j]).date > p.date,
            decreases self.rows@.len() - pos,
        {
            pos += 1;
        }
        self.rows.insert(pos, p);
        proof {
            assert(self.rows_view() =~= m.insert(pos as int, p));
            assert forall|j: int| 0 <= j < m.len() implies (#[trigger] m[j]).paste_id@
                != p.paste_id@ by {
                if m[j].paste_id@ == p.paste_id@ {
                    assert(old(self).ids()[j] == p.paste_id@);
                }
            }
            lemma_row_for_insert(m, pos as int, p, p.paste_id@);
            assert forall|k: Seq<char>| k != p.paste_id@ implies row_for(
                self.rows_view(),
                k,
            ) == row_for(m, k) by {
                lemma_row_for_insert(m, pos as int, p, k);
            }
            let newids = self.ids();
            let oldids = old(self).ids();
            assert(newids =~= oldids.insert(pos as int, p.paste_id@));
            assert(newids[pos as int] == p.paste_id@);
            assert forall|a: int, b: int|
                0 <= a < newids.len() && 0 <= b < newids.len() && a != b implies newids[a]
                != newids[b] by {
                let a0 = if a < pos { a } else { a - 1 };
                let b0 = if b < pos { b } else { b - 1 };
                if a == pos || b == pos {
                    if a == pos {
                        assert(newids[b] == oldids[b0] && m[b0].paste_id@ != p.paste_id@);
                    } else {
                        assert(newids[a] == oldids[a0] && m[a0].paste_id@ != p.paste_id@);
                    }
                } else {
                    assert(newids[a] == oldids[a0] && newids[b] == oldids[b0] && a0 != b0);
                }
            }
            assert forall|i: int, j: int|
                0 <= i < j < self.rows_view().len() implies (#[trigger] self.rows_view()[i]).date
                >= (#[trigger] self.rows_view()[j]).date by {
                let i0 = if i < pos { i } else { i - 1 };
                let j0 = if j < pos { j } else { j - 1 };
                if i == pos {
                    assert(self.rows_view()[j] == m[j0] && !(m[j0].date > p.date));
                } else if j == pos {
                    assert(self.rows_view()[i] == m[i0] && m[i0].date > p.date);
                } else {
                    assert(self.rows_view()[i] == m[i0] && self.rows_view()[j] == m[j0]);
                }
            }
            assert forall|k: Seq<char>| #[trigger] oldids.contains(k) implies newids.contains(
                k,
            ) by {
                let j = choose|j: int| 0 <= j < oldids.len() && #[trigger] oldids[j] == k;
                if j < pos {
                    assert(newids[j] == k);
                } else {
                    assert(newids[j + 1] == k);
                }
            }
        }
        Ok(())
    }

    /// Remove the row under an identifier and hand it back; an absent
    /// identifier changes nothing.
    pub fn remove_row(&mut self, id: &str) -> (r: Option<Paste>)
        requires
            old(self).wf(),
        ensures
            final(self).wf(),
            final(self).begin_fails() == old(self).begin_fails(),
            final(self).commit_fails() == old(self).commit_fails(),
            r is None ==> row_for(old(self).rows_view(), id@) is None && final(self).rows_view()
                == old(self).rows_view(),
            r matches Some(p) ==> {
                &&& row_for(old(self).rows_view(), id@) == Some(p)
                &&& final(self).rows_view().len() + 1 == old(self).rows_view().len()
                &&& row_for(final(self).rows_view(), id@) is None
                &&& forall|k: Seq<char>|
                    k != id@ ==> row_for(final(self).rows_view(), k) == row_for(
                        old(self).rows_view(),
                        k,
                    )
            },
    {
        let i = match self.find(id) {
            Some(i) => i,
            None => {
                return None;
            },
        };
        let ghost m = self.rows_view();
        let p = self.rows.remove(i);
        proof {
            assert(self.rows_view() =~= m.remove(i as int));
            assert forall|j: int| 0 <= j < m.len() && j != i implies (#[trigger] m[j]).paste_id@
                != m[i as int].paste_id@ by {
                if m[j].paste_id@ == m[i as int].paste_id@ {
                    assert(old(self).ids()[j] == old(self).ids()[i as int]);
                }
            }
            lemma_row_for_remove(m, i as int, id@);
            assert forall|k: Seq<char>| k != id@ implies row_for(self.rows_view(), k) == row_for(
                m,
                k,
            ) by {
                lemma_row_for_remove(m, i as int, k);
            }
            let newids = self.ids();
            let oldids = old(self).ids();
            assert(newids =~= oldids.remove(i as int));
            assert forall|a: int, b: int|
                0 <= a < newids.len() && 0 <= b < newids.len() && a != b implies newids[a]
                != newids[b] by {
                let a0 = if a < i { a } else { a + 1 };
                let b0 = if b < i { b } else { b + 1 };
                assert(newids[a] == oldids[a0] && newids[b] == oldids[b0] && a0 != b0);
            }
            assert forall|x: int, y: int|
                0 <= x < y < self.rows_view().len() implies (#[trigger] self.rows_view()[x]).date
                >= (#[trigger] self.rows_view()[y]).date by {
                let x0 = if x < i { x } else { x + 1 };
                let y0 = if y < i { y } else { y + 1 };
                assert(self.rows_view()[x] == m[x0] && self.rows_view()[y] == m[y0]);
            }
        }
        Some(p)
    }

    /// Write a new durable view count and last-seen time into the row under
    /// an identifier; an absent identifier changes nothing.
    pub fn update_row_views(&mut self, id: &str, views: u64, now: i64) -> (r: bool)
        requires
            old(self).wf(),
        ensures
            final(self).wf(),
            final(self).begin_fails() == old(self).begin_fails(),
            final(self).commit_fails() == old(self).commit_fails(),
            final(self).rows_view().len() == old(self).rows_view().len(),
            !r ==> row_for(old(self).rows_view(), id@) is None && final(self).rows_view() == old(
                self,
            ).rows_view(),
            r ==> (row_for(old(self).rows_view(), id@) matches Some(p) && {
                &&& row_for(final(self).rows_view(), id@) == Some(
                    Paste { views, last_seen: now, ..p },
                )
                &&& forall|k: Seq<char>|
                    k != id@ ==> row_for(final(self).rows_view(), k) == row_for(
                        old(self).rows_view(),
                        k,
                    )
            }),
    {
        let i = match self.find(id) {
            Some(i) => i,
            None => {
                return false;
            },
        };
        let ghost m = self.rows_view();
        let mut p = self.rows.remove(i);
        let ghost orig = p;
        p.views = views;
        p.last_seen = now;
        self.rows.insert(i, p);
        proof {
            assert(p == Paste { views, last_seen: now, ..orig });
            assert(self.rows_view() =~= m.update(i as int, p));
            lemma_row_for_update(m, i as int, p, id@);
            assert forall|k: Seq<char>| k != id@ implies row_for(self.rows_view(), k) == row_for(
                m,
                k,
            ) by {
                lemma_row_for_update(m, i as int, p, k);
            }
            let newids = self.ids();
            assert(newids =~= old(self).ids());
            assert forall|x: int, y: int|
                0 <= x < y < self.rows_view().len() implies (#[trigger] self.rows_view()[x]).date
                >= (#[trigger] self.rows_view()[y]).date by {
                assert(m[x].date >= m[y].date);
            }
        }
        true
    }
}

} // verus!
