//! The object store holding paste bodies, modeled as an owned in-memory
//! store with injectable failures.
//!
//! The engine builds a full [`UploadRequest`] — key, bytes, content type and
//! encoding, content disposition, title and tag metadata — and the process
//! boundary replays it against the real bucket.  The `fake` mode
//! short-circuits to success without touching anything: it stands in for the
//! primary-store call kept, for symmetry with delete, when content actually
//! lives in the alternate backend.
use crate::errors::PasteError;
use crate::text::str_eq;
use vstd::prelude::*;
use vstd::string::StringExecFns;

verus! {

/// Everything one object-store upload carries.
pub struct UploadRequest {
    pub key: String,
    pub body: Vec<u8>,
    pub content_type: String,
    pub content_encoding: String,
    pub content_disposition: String,
    pub meta_title: String,
    pub meta_tags: String,
    pub content_length: u64,
}

/// The first `n` tags joined with `", "`, as object metadata stores them.
pub open spec fn joined_tags_prefix(tags: Seq<Seq<char>>, n: nat) -> Seq<char>
    decreases n,
{
    if n == 0 || n > tags.len() {
        Seq::empty()
    } else if n == 1 {
        tags[0]
    } else {
        joined_tags_prefix(tags, (n - 1) as nat) + ", "@ + tags[n - 1]
    }
}

/// A tag list joined with `", "`.
pub open spec fn joined_tags_spec(tags: Seq<Seq<char>>) -> Seq<char> {
    joined_tags_prefix(tags, tags.len())
}

/// The content-disposition header value: an attachment under the given
/// filename, plainly and percent/UTF-8-escaped.
pub open spec fn disposition_spec(filename: Seq<char>) -> Seq<char> {
    "attachment; filename=\""@ + filename + "\"; filename*=UTF-8''"@ + filename
}

/// Join a tag list with `", "` for object metadata.
pub fn join_tags(tags: &Vec<String>) -> (r: String)
    ensures
        r@ == joined_tags_spec(crate::text::str_views(tags@)),
{
    let ghost views = crate::text::str_views(tags@);
    let mut r = String::new();
    let mut i: usize = 0;
    while i < tags.len()
        invariant
            0 <= i <= tags@.len(),
            views == crate::text::str_views(tags@),
            r@ == joined_tags_prefix(views, i as nat),
        decreases tags@.len() - i,
    {
        if i > 0 {
            r.append(", ");
        }
        r.append(tags[i].as_str());
        proof {
            assert(r@ =~= joined_tags_prefix(views, (i + 1) as nat));
        }
        i += 1;
    }
    r
}

/// Build the content-disposition header value for a download filename.
pub fn build_disposition(filename: &str) -> (r: String)
    ensures
        r@ == disposition_spec(filename@),
{
    let mut r = "attachment; filename=\"".to_owned();
    r.append(filename);
    r.append("\"; filename*=UTF-8''");
    r.append(filename);
    proof {
        assert(r@ =~= disposition_spec(filename@));
    }
    r
}

/// Assemble one upload: the title falls back to empty, tags are joined, and
/// the length is pinned to the body.
pub fn build_upload_request(
    key: String,
    body: Vec<u8>,
    content_type: &str,
    content_encoding: &str,
    title: &Option<String>,
    tags: &Vec<String>,
    filename: &str,
) -> (r: UploadRequest)
    requires
        body@.len() <= u64::MAX,
    ensures
        r.key == key,
        r.body == body,
        r.content_type@ == content_type@,
        r.content_encoding@ == content_encoding@,
        r.content_disposition@ == disposition_spec(filename@),
        r.meta_title@ == crate::normalize::opt_str_view(*title),
        r.meta_tags@ == joined_tags_spec(crate::text::str_views(tags@)),
        r.content_length == body@.len(),
{
    let meta_title = match title {
        Some(t) => t.clone(),
        None => String::new(),
    };
    let content_length = body.len() as u64;
    UploadRequest {
        content_disposition: build_disposition(filename),
        meta_title,
        meta_tags: join_tags(tags),
        content_type: content_type.to_owned(),
        content_encoding: content_encoding.to_owned(),
        content_length,
        key,
        body,
    }
}

/// Whether some stored object lives under the given key.
pub open spec fn has_blob(objs: Seq<UploadRequest>, key: Seq<char>) -> bool {
    exists|i: int| 0 <= i < objs.len() && (#[trigger] objs[i]).key@ == key
}

/// The stored objects with every object under the given key removed.
pub open spec fn without_key(objs: Seq<UploadRequest>, key: Seq<char>) -> Seq<UploadRequest>
    decreases objs.len(),
{
    if objs.len() == 0 {
        Seq::empty()
    } else if objs[0].key@ == key {
        without_key(objs.drop_first(), key)
    } else {
        seq![objs[0]] + without_key(objs.drop_first(), key)
    }
}

/// The in-memory object store.  The failure flags simulate an unreachable
/// bucket, so transactional behavior around a failed call can be exercised.
pub struct BlobStore {
    objects: Vec<UploadRequest>,
    fail_uploads: bool,
    fail_deletes: bool,
}

impl BlobStore {
    /// The stored objects, oldest first.
    pub closed spec fn contents(&self) -> Seq<UploadRequest> {
        self.objects@
    }

    /// Whether the next upload fails.
    pub closed spec fn upload_fails(&self) -> bool {
        self.fail_uploads
    }

    /// Whether the next delete fails.
    pub closed spec fn delete_fails(&self) -> bool {
        self.fail_deletes
    }

    /// An empty, healthy store.
    pub fn new() -> (r: BlobStore)
        ensures
            r.contents() == Seq::<UploadRequest>::empty(),
            !r.upload_fails(),
            !r.delete_fails(),
    {
        let r = BlobStore { objects: Vec::new(), fail_uploads: false, fail_deletes: false };
        proof {
            assert(r.contents() =~= Seq::<UploadRequest>::empty());
        }
        r
    }

    /// Simulate an unreachable store on uploads.
    pub fn set_fail_uploads(&mut self, v: bool)
        ensures
            final(self).upload_fails() == v,
            final(self).delete_fails() == old(self).delete_fails(),
            final(self).contents() == old(self).contents(),
    {
        self.fail_uploads = v;
    }

    /// Simulate an unreachable store on deletes.
    pub fn set_fail_deletes(&mut self, v: bool)
        ensures
            final(self).delete_fails() == v,
            final(self).upload_fails() == old(self).upload_fails(),
            final(self).contents() == old(self).contents(),
    {
        self.fail_deletes = v;
    }

    /// How many objects are stored.
    pub fn len(&self) -> (r: usize)
        ensures
            r == self.contents().len(),
    {
        self.objects.len()
    }

    /// The index of the object under the given key, if any.
    pub fn find(&self, key: &str) -> (r: Option<usize>)
        ensures
            r matches Some(i) ==> i < self.contents().len() && self.contents()[i as int].key@
                == key@,
            r is None ==> !has_blob(self.contents(), key@),
    {
        let mut i: usize = 0;
        while i < self.objects.len()
            invariant
                0 <= i <= self.objects@.len(),
                forall|j: int| 0 <= j < i ==> (#[trigger] self.objects@[j]).key@ != key@,
            decreases self.objects@.len() - i,
        {
            if str_eq(self.objects[i].key.as_str(), key) {
                return Some(i);
            }
            i += 1;
        }
        None
    }

    /// Borrow the object at an index.
    pub fn object_at(&self, i: usize) -> (r: &UploadRequest)
        requires
            i < self.contents().len(),
        ensures
            *r == self.contents()[i as int],
    {
        &self.objects[i]
    }

    /// Store an object, or pretend to when `fake_it` is set.  Every failure
    /// is surfaced, never retried.
    pub fn upload(&mut self, req: UploadRequest, fake_it: bool) -> (r: Result<(), PasteError>)
        ensures
            final(self).upload_fails() == old(self).upload_fails(),
            final(self).delete_fails() == old(self).delete_fails(),
            fake_it ==> r is Ok && final(self).contents() == old(self).contents(),
            !fake_it && old(self).upload_fails() ==> r == Err::<(), PasteError>(PasteError::Storage)
                && final(self).contents() == old(self).contents(),
            !fake_it && !old(self).upload_fails() ==> r is Ok && final(self).contents() == old(
                self,
            ).contents().push(req),
    {
        if fake_it {
            return Ok(());
        }
        if self.fail_uploads {
            return Err(PasteError::Storage);
        }
        self.objects.push(req);
        Ok(())
    }

    /// Remove the object under a key, or pretend to when `fake_it` is set.
    /// Deleting an absent key succeeds, as the real store's delete does.
    pub fn delete(&mut self, key: &str, fake_it: bool) -> (r: Result<(), PasteError>)
        ensures
            final(self).upload_fails() == old(self).upload_fails(),
            final(self).delete_fails() == old(self).delete_fails(),
            fake_it ==> r is Ok && final(self).contents() == old(self).contents(),
            !fake_it && old(self).delete_fails() ==> r == Err::<(), PasteError>(PasteError::Storage)
                && final(self).contents() == old(self).contents(),
            !fake_it && !old(self).delete_fails() ==> r is Ok && final(self).contents()
                == without_key(old(self).contents(), key@) && !has_blob(
                final(self).contents(),
                key@,
            ) && (forall|other: Seq<char>|
                other != key@ ==> has_blob(final(self).contents(), other) == has_blob(
                    old(self).contents(),
                    other,
                )),
    {
        if fake_it {
            return Ok(());
        }
        if self.fail_deletes {
            return Err(PasteError::Storage);
        }
        let ghost m = self.objects@;
        let mut olds: Vec<UploadRequest> = Vec::new();
        core::mem::swap(&mut olds, &mut self.objects);
        while olds.len() > 0
            invariant
                self.objects@ + without_key(olds@, key@) =~= without_key(m, key@),
                self.fail_uploads == old(self).upload_fails(),
                self.fail_deletes == old(self).delete_fails(),
            decreases olds@.len(),
        {
            let ghost before = olds@;
            let o = olds.remove(0);
            proof {
                assert(before.drop_first() =~= olds@);
            }
            if !str_eq(o.key.as_str(), key) {
                self.objects.push(o);
                proof {
                    assert(self.objects@ + without_key(olds@, key@) =~= without_key(m, key@));
                }
            }
        }
        proof {
            assert(without_key(olds@, key@) =~= Seq::<UploadRequest>::empty());
            assert(self.objects@ =~= without_key(m, key@));
            lemma_without_key_gone(m, key@);
            assert forall|other: Seq<char>| other != key@ implies has_blob(self.objects@, other)
                == has_blob(m, other) by {
                lemma_without_key_keeps(m, key@, other);
            }
        }
        Ok(())
    }
}

/// A key removed from the store is gone.
pub proof fn lemma_without_key_gone(objs: Seq<UploadRequest>, key: Seq<char>)
    ensures
        !has_blob(without_key(objs, key), key),
    decreases objs.len(),
{
    if objs.len() > 0 {
        lemma_without_key_gone(objs.drop_first(), key);
        if objs[0].key@ != key {
            let w = without_key(objs, key);
            let wrest = without_key(objs.drop_first(), key);
            assert(w =~= seq![objs[0]] + wrest);
            if has_blob(w, key) {
                let i = choose|i: int| 0 <= i < w.len() && (#[trigger] w[i]).key@ == key;
                if i > 0 {
                    assert(wrest[i - 1].key@ == key);
                }
            }
        }
    }
}

/// Objects under other keys survive a removal.
pub proof fn lemma_without_key_keeps(objs: Seq<UploadRequest>, key: Seq<char>, other: Seq<char>)
    requires
        other != key,
    ensures
        has_blob(without_key(objs, key), other) == has_blob(objs, other),
    decreases objs.len(),
{
    if objs.len() > 0 {
        lemma_without_key_keeps(objs.drop_first(), key, other);
        let w = without_key(objs, key);
        let wrest = without_key(objs.drop_first(), key);
        if objs[0].key@ == key {
            if has_blob(objs, other) {
                let i = choose|i: int| 0 <= i < objs.len() && (#[trigger] objs[i]).key@ == other;
                assert(objs.drop_first()[i - 1].key@ == other);
            }
        } else {
            assert(w =~= seq![objs[0]] + wrest);
            if has_blob(objs, other) && objs[0].key@ != other {
                let i = choose|i: int| 0 <= i < objs.len() && (#[trigger] objs[i]).key@ == other;
                assert(objs.drop_first()[i - 1].key@ == other);
            }
            if has_blob(wrest, other) {
                let i = choose|i: int| 0 <= i < wrest.len() && (#[trigger] wrest[i]).key@ == other;
                assert(w[i + 1].key@ == other);
            }
            if objs[0].key@ == other {
                assert(w[0].key@ == other);
            }
        }
    }
}

} // verus!
