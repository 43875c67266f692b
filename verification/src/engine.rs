//! The paste engine: create, fetch, delete and search, composed over the
//! metadata store, the object store, the view counter and the purge queue,
//! with the transactional guarantees each operation carries.
use crate::compress::{
    brotli_of, chosen_encoding, compress, encoding_token, str_byte_len, Encoding,
};
use crate::config::AppConfig;
use crate::counter::ViewCounter;
use crate::errors::PasteError;
use crate::format::{format_content_type, parse_format_spec};
use crate::forms::{PasteForm, ValidDestination};
use crate::id::{truncated_id, valid_paste_id};
use crate::normalize::{clean_title, opt_str_view, stored_tags_spec};
use crate::paste::{
    build_filename, build_storage_key, filename_spec, storage_key_spec, Paste, SearchPaste,
};
use crate::purge::PurgeQueue;
use crate::s3::{
    build_upload_request, disposition_spec, joined_tags_spec, BlobStore, UploadRequest,
};
use crate::store::{row_for, MetaStore};
use crate::text::str_views;
use crate::MAX_CONTENT_LENGTH;
use vstd::prelude::*;
use vstd::string::StringSliceAdditionalSpecFns;
use vstd::utf8::encode_utf8;

verus! {

/// The view of an optional string.
pub open spec fn opt_view(o: Option<String>) -> Option<Seq<char>> {
    match o {
        Some(s) => Some(s@),
        None => None,
    }
}

/// The bytes a submission's content encodes to.
pub open spec fn content_bytes(content: Seq<char>) -> Seq<u8> {
    encode_utf8(content)
}

/// The byte length of a submission's content, as `str::len` reports it.
pub open spec fn content_byte_len(content: Seq<char>) -> nat {
    (encode_utf8(content).len() as usize) as nat
}

/// The bytes actually stored for a submission: the content itself under the
/// `identity` encoding, its brotli compression under `br`.
pub open spec fn stored_bytes(content: Seq<char>, alt_backend: bool) -> Seq<u8> {
    if chosen_encoding(content_byte_len(content), alt_backend) == Encoding::Identity {
        content_bytes(content)
    } else {
        brotli_of(content_bytes(content))
    }
}

/// A submission that passes validation: non-empty content and a known
/// format.
pub open spec fn create_valid(form: &PasteForm) -> bool {
    form.content@.len() > 0 && parse_format_spec(form.format@) is Some
}

/// A bot score good enough to create a paste; the threshold is enforced
/// only in production.
pub open spec fn bot_ok(config: &AppConfig, score_milli: u32) -> bool {
    !config.production || score_milli >= config.score_threshold_milli
}

/// Whether the submission is bound for the alternate backend.
pub open spec fn wants_alt(form: &PasteForm) -> bool {
    form.destination == ValidDestination::GDrive
}

/// Two row tables that hold the same rows under every identifier.
pub open spec fn same_rows(a: Seq<Paste>, b: Seq<Paste>) -> bool {
    a.len() == b.len() && forall|k: Seq<char>| row_for(a, k) == row_for(b, k)
}

/// Two pastes that carry the same values in every field.
pub open spec fn paste_like(a: &Paste, b: &Paste) -> bool {
    &&& a.paste_id@ == b.paste_id@
    &&& opt_view(a.user_id) == opt_view(b.user_id)
    &&& opt_view(a.session_id) == opt_view(b.session_id)
    &&& opt_view(a.title) == opt_view(b.title)
    &&& str_views(a.tags@) == str_views(b.tags@)
    &&& a.format == b.format
    &&& a.date == b.date
    &&& opt_view(a.gdriveid) == opt_view(b.gdriveid)
    &&& opt_view(a.gdrivedl) == opt_view(b.gdrivedl)
    &&& a.s3_key@ == b.s3_key@
    &&& a.s3_content_length == b.s3_content_length
    &&& a.rcscore_milli == b.rcscore_milli
    &&& a.views == b.views
    &&& a.last_seen == b.last_seen
}

/// Everything the engine owns: configuration, the two stores, the view
/// counter and the purge queue, injected rather than ambient so a fresh
/// instance can stand per test.
pub struct AppState {
    pub config: AppConfig,
    pub db: MetaStore,
    pub s3: BlobStore,
    pub counter: ViewCounter,
    pub cloudflare_q: PurgeQueue,
}

impl AppState {
    /// All owned structures are well formed.
    pub open spec fn wf(&self) -> bool {
        &&& self.db.wf()
        &&& self.counter.wf()
        &&& self.cloudflare_q.wf()
    }

    /// A fresh engine over empty stores.
    pub fn new(config: AppConfig) -> (r: AppState)
        ensures
            r.wf(),
            r.config == config,
            r.db.rows_view() == Seq::<Paste>::empty(),
            r.s3.contents() == Seq::<UploadRequest>::empty(),
            r.counter.contents() == Seq::<(Seq<char>, u64)>::empty(),
            r.cloudflare_q.contents() == Seq::<Seq<char>>::empty(),
            !r.db.begin_fails() && !r.db.commit_fails(),
            !r.s3.upload_fails() && !r.s3.delete_fails(),
    {
        AppState {
            config,
            db: MetaStore::new(),
            s3: BlobStore::new(),
            counter: ViewCounter::new(),
            cloudflare_q: PurgeQueue::new(),
        }
    }
}

/// Everything a creation needs after validation and before any store is
/// touched: the row to insert and the upload to perform.
pub struct CreatePlan {
    pub paste: Paste,
    pub upload: UploadRequest,
    /// Whether the content goes to the alternate backend, making the
    /// primary-store upload a structural no-op.
    pub needs_alt: bool,
}

/// A submission the planner accepts: valid, bot-passing, and — once encoded
/// — within the primary store's ceiling, which the alternate backend
/// bypasses.
pub open spec fn prepare_ok(config: &AppConfig, form: &PasteForm, score_milli: u32) -> bool {
    &&& create_valid(form)
    &&& bot_ok(config, score_milli)
    &&& (wants_alt(form) || stored_bytes(form.content@, false).len() <= MAX_CONTENT_LENGTH)
}

/// A submission that reaches the store transaction: the planner accepts it,
/// and the alternate upload is in hand when one is wanted.
pub open spec fn reaches_txn(
    config: &AppConfig,
    form: &PasteForm,
    score_milli: u32,
    alt_upload: Option<(String, String)>,
) -> bool {
    prepare_ok(config, form, score_milli) && (wants_alt(form) ==> alt_upload is Some)
}

/// Validate and normalize a submission and lay out the row and the upload.
/// Rejections happen here, before any store is touched: empty content or an
/// unknown format, a failing bot score, and — once the payload is encoded —
/// a payload over the primary store's ceiling.
pub fn prepare_paste(
    config: &AppConfig,
    form: &PasteForm,
    score_milli: u32,
    user_id: Option<String>,
    session_id: Option<String>,
    now: i64,
) -> (r: Result<CreatePlan, PasteError>)
    ensures
        r matches Ok(plan) ==> {
            &&& create_valid(form) && bot_ok(config, score_milli)
            &&& plan.paste.wf()
            &&& valid_paste_id(plan.paste.paste_id@)
            &&& Some(plan.paste.format) == parse_format_spec(form.format@)
            &&& opt_view(plan.paste.title) == Some(clean_title(opt_str_view(form.title)))
            &&& str_views(plan.paste.tags@) == stored_tags_spec(opt_str_view(form.tags))
            &&& plan.paste.user_id == user_id
            &&& plan.paste.session_id == session_id
            &&& plan.paste.date == now
            &&& plan.paste.last_seen == now
            &&& plan.paste.views == 0
            &&& plan.paste.rcscore_milli == score_milli
            &&& plan.paste.gdriveid is None
            &&& plan.paste.gdrivedl is None
            &&& plan.needs_alt == wants_alt(form)
            &&& ({
                let enc = chosen_encoding(content_byte_len(form.content@), plan.needs_alt);
                let body = stored_bytes(form.content@, plan.needs_alt);
                &&& plan.paste.s3_key@ == storage_key_spec(
                    config.s3_prefix@,
                    plan.paste.paste_id@,
                    plan.paste.format,
                    enc,
                )
                &&& plan.upload.key@ == plan.paste.s3_key@
                &&& plan.upload.body@ == body
                &&& plan.paste.s3_content_length == body.len()
                &&& plan.upload.content_length == body.len()
                &&& plan.needs_alt || body.len() <= MAX_CONTENT_LENGTH
                &&& plan.upload.content_type@ == format_content_type(plan.paste.format)
                &&& plan.upload.content_encoding@ == encoding_token(enc)
                &&& plan.upload.content_disposition@ == disposition_spec(
                    filename_spec(plan.paste.paste_id@, plan.paste.format),
                )
                &&& plan.upload.meta_title@ == clean_title(opt_str_view(form.title))
                &&& plan.upload.meta_tags@ == joined_tags_spec(
                    stored_tags_spec(opt_str_view(form.tags)),
                )
            })
        },
        r is Ok <==> prepare_ok(config, form, score_milli),
        !create_valid(form) ==> r == Err::<CreatePlan, PasteError>(PasteError::Validation),
        create_valid(form) && !bot_ok(config, score_milli) ==> r == Err::<CreatePlan, PasteError>(
            PasteError::BotRejected,
        ),
        create_valid(form) && bot_ok(config, score_milli) && !wants_alt(form) && stored_bytes(
            form.content@,
            false,
        ).len() > MAX_CONTENT_LENGTH ==> r == Err::<CreatePlan, PasteError>(
            PasteError::PayloadTooLarge,
        ),
{
    let mut paste = match Paste::new(form, score_milli, user_id, session_id, now) {
        Ok(p) => p,
        Err(e) => {
            return Err(e);
        },
    };
    if config.production && score_milli < config.score_threshold_milli {
        return Err(PasteError::BotRejected);
    }
    let needs_alt = matches!(form.destination, ValidDestination::GDrive);
    let content = form.content.as_str();
    proof {
        assert(content.spec_bytes() == encode_utf8(form.content@));
        assert(str_byte_len(content) == content_byte_len(form.content@));
    }
    let (body, enc) = match compress(content, needs_alt) {
        Ok(x) => x,
        Err(e) => {
            return Err(e);
        },
    };
    if !needs_alt && body.len() > MAX_CONTENT_LENGTH {
        return Err(PasteError::PayloadTooLarge);
    }
    let key = build_storage_key(
        config.s3_prefix.as_str(),
        paste.paste_id.as_str(),
        paste.format,
        enc,
    );
    let filename = build_filename(paste.paste_id.as_str(), paste.format);
    let content_length = body.len() as u64;
    let upload = build_upload_request(
        key.clone(),
        body,
        paste.format.content_type(),
        enc.token(),
        &paste.title,
        &paste.tags,
        filename.as_str(),
    );
    paste.s3_key = key;
    paste.s3_content_length = content_length;
    Ok(CreatePlan { paste, upload, needs_alt })
}

/// Conditions under which a creation is owed success: the submission
/// reaches the transaction, the stores are healthy, and the table is empty
/// (so the random identifier cannot collide).
pub open spec fn create_must_succeed(
    s: &AppState,
    form: &PasteForm,
    score_milli: u32,
    alt_upload: Option<(String, String)>,
) -> bool {
    &&& reaches_txn(&s.config, form, score_milli, alt_upload)
    &&& !s.db.begin_fails()
    &&& !s.db.commit_fails()
    &&& (wants_alt(form) || !s.s3.upload_fails())
    &&& s.db.rows_view().len() == 0
}

/// Create a paste: validate and normalize, then insert the metadata row,
/// upload the blob, and commit — in that order, so a failed upload rolls the
/// row back and a row never outlives a missing blob.  For alternate-backend
/// submissions the caller performs that upload first and passes its
/// `(identifier, URL)` outcome in `alt_upload`; its absence aborts the whole
/// operation before any store is touched, and the primary-store upload
/// becomes a structural no-op.  A commit failure after a successful upload
/// surfaces an error and leaves the uploaded blob orphaned — the accepted
/// failure direction.
pub fn new_paste(
    state: &mut AppState,
    form: &PasteForm,
    score_milli: u32,
    user_id: Option<String>,
    session_id: Option<String>,
    now: i64,
    alt_upload: Option<(String, String)>,
) -> (r: Result<String, PasteError>)
    requires
        old(state).wf(),
    ensures
        final(state).wf(),
        final(state).config == old(state).config,
        final(state).counter.contents() == old(state).counter.contents(),
        final(state).cloudflare_q.contents() == old(state).cloudflare_q.contents(),
        final(state).db.begin_fails() == old(state).db.begin_fails(),
        final(state).db.commit_fails() == old(state).db.commit_fails(),
        final(state).s3.upload_fails() == old(state).s3.upload_fails(),
        final(state).s3.delete_fails() == old(state).s3.delete_fails(),
        r matches Ok(id) ==> {
            &&& valid_paste_id(id@)
            &&& !old(state).db.ids().contains(id@)
            &&& final(state).db.rows_view().len() == old(state).db.rows_view().len() + 1
            &&& forall|k: Seq<char>|
                k != id@ ==> row_for(final(state).db.rows_view(), k) == row_for(
                    old(state).db.rows_view(),
                    k,
                )
            &&& (row_for(final(state).db.rows_view(), id@) matches Some(p) && {
                &&& p.paste_id@ == id@
                &&& p.wf()
                &&& Some(p.format) == parse_format_spec(form.format@)
                &&& opt_view(p.title) == Some(clean_title(opt_str_view(form.title)))
                &&& str_views(p.tags@) == stored_tags_spec(opt_str_view(form.tags))
                &&& p.user_id == user_id
                &&& p.session_id == session_id
                &&& p.date == now
                &&& p.last_seen == now
                &&& p.views == 0
                &&& p.rcscore_milli == score_milli
                &&& p.s3_key@ == storage_key_spec(
                    old(state).config.s3_prefix@,
                    id@,
                    p.format,
                    chosen_encoding(content_byte_len(form.content@), wants_alt(form)),
                )
                &&& p.s3_content_length == stored_bytes(form.content@, wants_alt(form)).len()
                &&& (wants_alt(form) ==> (alt_upload matches Some(a) && opt_view(p.gdriveid)
                    == Some(a.0@) && opt_view(p.gdrivedl) == Some(a.1@)))
                &&& (!wants_alt(form) ==> p.gdriveid is None && p.gdrivedl is None)
                &&& (!wants_alt(form) ==> {
                    &&& final(state).s3.contents().len() == old(state).s3.contents().len() + 1
                    &&& final(state).s3.contents().drop_last() == old(state).s3.contents()
                    &&& ({
                        let req = final(state).s3.contents().last();
                        &&& req.key@ == p.s3_key@
                        &&& req.body@ == stored_bytes(form.content@, false)
                        &&& req.content_type@ == format_content_type(p.format)
                        &&& req.content_encoding@ == encoding_token(
                            chosen_encoding(content_byte_len(form.content@), false),
                        )
                        &&& req.content_disposition@ == disposition_spec(
                            filename_spec(id@, p.format),
                        )
                        &&& req.meta_title@ == clean_title(opt_str_view(form.title))
                        &&& req.meta_tags@ == joined_tags_spec(
                            stored_tags_spec(opt_str_view(form.tags)),
                        )
                    })
                })
                &&& (wants_alt(form) ==> final(state).s3.contents() == old(state).s3.contents())
            })
        },
        r matches Err(e) ==> {
            &&& same_rows(final(state).db.rows_view(), old(state).db.rows_view())
            &&& (e == PasteError::Validation || e == PasteError::BotRejected || e
                == PasteError::PayloadTooLarge || e == PasteError::Storage ==> final(state).s3.contents() == old(state).s3.contents())
            &&& (final(state).s3.contents() == old(state).s3.contents() || (e
                == PasteError::Transaction && final(state).s3.contents().drop_last() == old(state).s3.contents()))
            &&& (e == PasteError::Validation ==> !create_valid(form))
            &&& (e == PasteError::BotRejected ==> !bot_ok(&old(state).config, score_milli))
            &&& (e == PasteError::PayloadTooLarge ==> !wants_alt(form) && stored_bytes(
                form.content@,
                false,
            ).len() > MAX_CONTENT_LENGTH)
            &&& (e == PasteError::Storage ==> (wants_alt(form) && alt_upload is None) || old(state).s3.upload_fails())
            &&& (e == PasteError::Transaction ==> old(state).db.begin_fails() || old(state).db.commit_fails() || old(state).db.rows_view().len() > 0)
            &&& (wants_alt(form) ==> final(state).s3.contents() == old(state).s3.contents())
            &&& e != PasteError::NotFound
            &&& e != PasteError::Forbidden
        },
        r is Ok ==> reaches_txn(&old(state).config, form, score_milli, alt_upload),
        !create_valid(form) ==> r == Err::<String, PasteError>(PasteError::Validation),
        create_valid(form) && !bot_ok(&old(state).config, score_milli) ==> r == Err::<
            String,
            PasteError,
        >(PasteError::BotRejected),
        create_valid(form) && bot_ok(&old(state).config, score_milli) && !wants_alt(form)
            && stored_bytes(form.content@, false).len() > MAX_CONTENT_LENGTH ==> r == Err::<
            String,
            PasteError,
        >(PasteError::PayloadTooLarge),
        prepare_ok(&old(state).config, form, score_milli) && wants_alt(form) && alt_upload is None
            ==> r == Err::<String, PasteError>(PasteError::Storage),
        reaches_txn(&old(state).config, form, score_milli, alt_upload) && old(state).db.begin_fails() ==> r == Err::<String, PasteError>(PasteError::Transaction),
        reaches_txn(&old(state).config, form, score_milli, alt_upload) && !old(state).db.begin_fails() && !wants_alt(form) && old(state).s3.upload_fails() ==> r is Err,
        reaches_txn(&old(state).config, form, score_milli, alt_upload) && !old(state).db.begin_fails() && (wants_alt(form) || !old(state).s3.upload_fails()) && old(state).db.commit_fails() ==> r == Err::<String, PasteError>(PasteError::Transaction),
        create_must_succeed(old(state), form, score_milli, alt_upload) ==> r is Ok,
{
    let plan = match prepare_paste(&state.config, form, score_milli, user_id, session_id, now) {
        Ok(p) => p,
        Err(e) => {
            return Err(e);
        },
    };
    let mut paste = plan.paste;
    if plan.needs_alt {
        match alt_upload {
            Some((gid, gurl)) => {
                paste.gdriveid = Some(gid);
                paste.gdrivedl = Some(gurl);
            },
            None => {
                return Err(PasteError::Storage);
            },
        }
    }
    match state.db.begin() {
        Ok(_) => {},
        Err(e) => {
            return Err(e);
        },
    }
    let id = paste.paste_id.clone();
    match state.db.insert_row(paste) {
        Ok(_) => {},
        Err(e) => {
            proof {
                crate::store::lemma_row_for_some_index(old(state).db.rows_view(), id@);
            }
            return Err(e);
        },
    }
    proof {
        assert(!old(state).db.ids().contains(id@));
        if row_for(old(state).db.rows_view(), id@) is Some {
            crate::store::lemma_row_for_some_index(old(state).db.rows_view(), id@);
            let j = choose|j: int|
                0 <= j < old(state).db.rows_view().len() && #[trigger] old(state).db.rows_view()[j] == row_for(old(state).db.rows_view(), id@)->Some_0 && old(state).db.rows_view()[j].paste_id@ == id@;
            assert(old(state).db.ids()[j] == id@);
        }
        assert(row_for(old(state).db.rows_view(), id@) is None);
    }
    match state.s3.upload(plan.upload, plan.needs_alt) {
        Ok(_) => {},
        Err(e) => {
            let _removed = state.db.remove_row(id.as_str());
            return Err(e);
        },
    }
    match state.db.commit() {
        Ok(_) => {},
        Err(e) => {
            let _removed = state.db.remove_row(id.as_str());
            proof {
                if !plan.needs_alt {
                    assert(final(state).s3.contents().drop_last() =~= old(state).s3.contents());
                }
            }
            return Err(e);
        },
    }
    Ok(id)
}

/// Copy an optional string.
fn clone_opt_string(o: &Option<String>) -> (r: Option<String>)
    ensures
        r == *o,
{
    match o {
        Some(s) => Some(s.clone()),
        None => None,
    }
}

impl Paste {
    /// An independent copy of this paste, field for field.
    pub fn duplicate(&self) -> (r: Paste)
        ensures
            paste_like(&r, self),
    {
        Paste {
            paste_id: self.paste_id.clone(),
            user_id: clone_opt_string(&self.user_id),
            session_id: clone_opt_string(&self.session_id),
            title: clone_opt_string(&self.title),
            tags: self.get_tags(),
            format: self.format,
            date: self.date,
            gdriveid: clone_opt_string(&self.gdriveid),
            gdrivedl: clone_opt_string(&self.gdrivedl),
            s3_key: self.s3_key.clone(),
            s3_content_length: self.s3_content_length,
            rcscore_milli: self.rcscore_milli,
            views: self.views,
            last_seen: self.last_seen,
        }
    }

    /// Look a paste up by identifier, trimming an over-long caller-supplied
    /// identifier to the canonical 8 characters first.
    pub fn get(state: &AppState, paste_id: &str) -> (r: Result<Paste, PasteError>)
        ensures
            r matches Ok(p) ==> (row_for(state.db.rows_view(), truncated_id(paste_id@))
                matches Some(row) && paste_like(&p, &row)),
            r matches Err(e) ==> e == PasteError::NotFound && row_for(
                state.db.rows_view(),
                truncated_id(paste_id@),
            ) is None,
            r is Ok <==> row_for(state.db.rows_view(), truncated_id(paste_id@)) is Some,
    {
        let id = crate::id::truncate_id(paste_id);
        match state.db.find(id.as_str()) {
            Some(i) => Ok(state.db.row_at(i).duplicate()),
            None => Err(PasteError::NotFound),
        }
    }

    /// Delete this paste: remove the metadata row, delete the blob (a
    /// structural no-op for alternate-backend pastes), commit, and queue the
    /// freed key for cache invalidation.  A failed blob delete rolls the
    /// whole operation back and the row stays; a failed commit after the
    /// blob is gone surfaces an error and the row remains — the documented
    /// orphan direction.  `delete_paste` composes this with the
    /// opportunistic purge pass that follows every successful deletion.
    pub fn delete(&self, state: &mut AppState) -> (r: Result<(), PasteError>)
        requires
            old(state).wf(),
        ensures
            final(state).wf(),
            final(state).config == old(state).config,
            final(state).counter.contents() == old(state).counter.contents(),
            final(state).db.begin_fails() == old(state).db.begin_fails(),
            final(state).db.commit_fails() == old(state).db.commit_fails(),
            final(state).s3.upload_fails() == old(state).s3.upload_fails(),
            final(state).s3.delete_fails() == old(state).s3.delete_fails(),
            r is Ok ==> (row_for(old(state).db.rows_view(), self.paste_id@) matches Some(row) && {
                &&& row_for(final(state).db.rows_view(), self.paste_id@) is None
                &&& forall|k: Seq<char>|
                    k != self.paste_id@ ==> row_for(final(state).db.rows_view(), k) == row_for(
                        old(state).db.rows_view(),
                        k,
                    )
                &&& final(state).db.rows_view().len() + 1 == old(state).db.rows_view().len()
                &&& (row.gdrivedl is Some ==> final(state).s3.contents() == old(state).s3.contents())
                &&& (row.gdrivedl is None ==> final(state).s3.contents()
                    == crate::s3::without_key(old(state).s3.contents(), row.s3_key@))
                &&& final(state).cloudflare_q.contents() == (if old(state).cloudflare_q.contents().contains(row.s3_key@) {
                    old(state).cloudflare_q.contents()
                } else {
                    old(state).cloudflare_q.contents().push(row.s3_key@)
                })
            }),
            r matches Err(e) ==> {
                &&& final(state).db.rows_view() == old(state).db.rows_view()
                &&& final(state).cloudflare_q.contents() == old(state).cloudflare_q.contents()
                &&& (e == PasteError::NotFound ==> row_for(
                    old(state).db.rows_view(),
                    self.paste_id@,
                ) is None && final(state).s3.contents() == old(state).s3.contents())
                &&& (e == PasteError::Storage ==> old(state).s3.delete_fails() && final(state).s3.contents() == old(state).s3.contents())
                &&& (e == PasteError::Transaction ==> old(state).db.begin_fails() || old(state).db.commit_fails())
                &&& (e == PasteError::Transaction && old(state).db.begin_fails() ==> final(state).s3.contents() == old(state).s3.contents())
                &&& (e == PasteError::Transaction && !old(state).db.begin_fails() ==> (row_for(
                    old(state).db.rows_view(),
                    self.paste_id@,
                ) matches Some(row) && {
                    &&& (row.gdrivedl is Some ==> final(state).s3.contents() == old(state).s3.contents())
                    &&& (row.gdrivedl is None ==> final(state).s3.contents()
                        == crate::s3::without_key(old(state).s3.contents(), row.s3_key@))
                }))
                &&& (e == PasteError::Validation || e == PasteError::BotRejected || e
                    == PasteError::PayloadTooLarge || e == PasteError::Forbidden) == false
            },
            old(state).db.begin_fails() ==> r == Err::<(), PasteError>(PasteError::Transaction),
            !old(state).db.begin_fails() && row_for(
                old(state).db.rows_view(),
                self.paste_id@,
            ) is None ==> r == Err::<(), PasteError>(PasteError::NotFound),
            !old(state).db.begin_fails() && (row_for(old(state).db.rows_view(), self.paste_id@)
                matches Some(row) && row.gdrivedl is None && old(state).s3.delete_fails()) ==> r
                == Err::<(), PasteError>(PasteError::Storage),
            !old(state).db.begin_fails() && (row_for(old(state).db.rows_view(), self.paste_id@)
                matches Some(row) && (row.gdrivedl is Some || !old(state).s3.delete_fails()))
                && old(state).db.commit_fails() ==> r == Err::<(), PasteError>(
                PasteError::Transaction,
            ),
            delete_must_succeed(old(state), self) ==> r is Ok,
    {
        match state.db.begin() {
            Ok(_) => {},
            Err(e) => {
                return Err(e);
            },
        }
        let i = match state.db.find(self.paste_id.as_str()) {
            Some(i) => i,
            None => {
                return Err(PasteError::NotFound);
            },
        };
        let key = state.db.row_at(i).s3_key.clone();
        let fake = state.db.row_at(i).gdrivedl.is_some();
        match state.s3.delete(key.as_str(), fake) {
            Ok(_) => {},
            Err(e) => {
                return Err(e);
            },
        }
        match state.db.commit() {
            Ok(_) => {},
            Err(e) => {
                return Err(e);
            },
        }
        let _removed = state.db.remove_row(self.paste_id.as_str());
        state.cloudflare_q.enqueue(key.as_str());
        Ok(())
    }

    /// Count one view and return the up-to-date count for display, without
    /// waiting for a flush.
    pub fn get_views(&self, state: &mut AppState) -> (r: u64)
        requires
            old(state).wf(),
        ensures
            final(state).wf(),
            final(state).config == old(state).config,
            final(state).db == old(state).db,
            final(state).s3 == old(state).s3,
            final(state).cloudflare_q == old(state).cloudflare_q,
            r == match crate::assoc::lookup(old(state).counter.contents(), self.paste_id@) {
                Some(c) => crate::counter::bump(c),
                None => crate::counter::bump(self.views),
            },
            crate::assoc::lookup(final(state).counter.contents(), self.paste_id@) == Some(r),
            forall|k: Seq<char>|
                k != self.paste_id@ ==> crate::assoc::lookup(final(state).counter.contents(), k)
                    == crate::assoc::lookup(old(state).counter.contents(), k),
    {
        state.counter.record_view(self.paste_id.as_str(), self.views)
    }

    /// Write an accumulated view count into this paste's row, also bumping
    /// its last-seen time; an absent row changes nothing, a benign race with
    /// deletion.
    pub fn save_views(&self, db: &mut MetaStore, views: u64, now: i64) -> (r: bool)
        requires
            old(db).wf(),
        ensures
            final(db).wf(),
            final(db).begin_fails() == old(db).begin_fails(),
            final(db).commit_fails() == old(db).commit_fails(),
            final(db).rows_view().len() == old(db).rows_view().len(),
            !r ==> row_for(old(db).rows_view(), self.paste_id@) is None && final(db).rows_view()
                == old(db).rows_view(),
            r ==> (row_for(old(db).rows_view(), self.paste_id@) matches Some(p) && {
                &&& row_for(final(db).rows_view(), self.paste_id@) == Some(
                    Paste { views, last_seen: now, ..p },
                )
                &&& forall|k: Seq<char>|
                    k != self.paste_id@ ==> row_for(final(db).rows_view(), k) == row_for(
                        old(db).rows_view(),
                        k,
                    )
            }),
    {
        db.update_row_views(self.paste_id.as_str(), views, now)
    }
}

/// Conditions under which a deletion is owed success: the row exists, the
/// store's transactions work, and — unless the blob lives in the alternate
/// backend — the object store's deletes work.
pub open spec fn delete_must_succeed(s: &AppState, paste: &Paste) -> bool {
    &&& row_for(s.db.rows_view(), paste.paste_id@) is Some
    &&& !s.db.begin_fails()
    &&& !s.db.commit_fails()
    &&& (row_for(s.db.rows_view(), paste.paste_id@)->Some_0.gdrivedl is Some
        || !s.s3.delete_fails())
}

/// The row table after one flush of pending view counts: a row with a
/// pending entry takes that count and the flush time; every other row stays.
pub open spec fn flushed_row(
    rows: Seq<Paste>,
    pending: Seq<(Seq<char>, u64)>,
    k: Seq<char>,
    now: i64,
) -> Option<Paste> {
    match (crate::assoc::lookup(pending, k), row_for(rows, k)) {
        (Some(v), Some(p)) => Some(Paste { views: v, last_seen: now, ..p }),
        _ => row_for(rows, k),
    }
}

/// Flushing never lowers a durable view count, as long as every pending
/// entry whose row still exists is at least that row's durable count —
/// which `record_view` establishes when handed the row's current count,
/// since it starts a fresh entry one above it and only ever counts up.
pub proof fn lemma_flush_monotonic(
    rows: Seq<Paste>,
    pending: Seq<(Seq<char>, u64)>,
    k: Seq<char>,
    now: i64,
)
    requires
        crate::assoc::lookup(pending, k) matches Some(v) ==> (row_for(rows, k) matches Some(p)
            ==> v >= p.views),
    ensures
        row_for(rows, k) matches Some(p) ==> (flushed_row(rows, pending, k, now) matches Some(q)
            && q.views >= p.views && q.paste_id@ == p.paste_id@),
{
}

/// Flush the view counter: write every pending count into its row as the new
/// durable view count, tolerating rows deleted since the views were counted,
/// then clear the counter.  A flush with nothing pending writes nothing.
pub fn update_views(state: &mut AppState, now: i64)
    requires
        old(state).wf(),
    ensures
        final(state).wf(),
        final(state).config == old(state).config,
        final(state).s3 == old(state).s3,
        final(state).cloudflare_q == old(state).cloudflare_q,
        final(state).db.begin_fails() == old(state).db.begin_fails(),
        final(state).db.commit_fails() == old(state).db.commit_fails(),
        final(state).counter.contents() == Seq::<(Seq<char>, u64)>::empty(),
        final(state).db.rows_view().len() == old(state).db.rows_view().len(),
        forall|k: Seq<char>|
            row_for(final(state).db.rows_view(), k) == flushed_row(
                old(state).db.rows_view(),
                old(state).counter.contents(),
                k,
                now,
            ),
{
    let ghost rows0 = state.db.rows_view();
    let ghost m = state.counter.contents();
    let entries = state.counter.take_all();
    let mut i: usize = 0;
    while i < entries.len()
        invariant
            0 <= i <= entries@.len(),
            entries@.map_values(|p: (String, u64)| (p.0@, p.1)) == m,
            m.map_values(|p: (Seq<char>, u64)| p.0).no_duplicates(),
            state.db.wf(),
            state.counter.wf(),
            state.cloudflare_q.wf(),
            state.config == old(state).config,
            state.s3 == old(state).s3,
            state.cloudflare_q == old(state).cloudflare_q,
            state.counter.contents() == Seq::<(Seq<char>, u64)>::empty(),
            state.db.begin_fails() == old(state).db.begin_fails(),
            state.db.commit_fails() == old(state).db.commit_fails(),
            state.db.rows_view().len() == rows0.len(),
            forall|k: Seq<char>|
                row_for(state.db.rows_view(), k) == flushed_row(
                    rows0,
                    m.take(i as int),
                    k,
                    now,
                ),
        decreases entries@.len() - i,
    {
        let ghost pre = state.db.rows_view();
        let ghost key = m[i as int].0;
        proof {
            assert(m[i as int] == (entries@[i as int].0@, entries@[i as int].1));
            assert forall|j: int| 0 <= j < i implies (#[trigger] m.take(i as int)[j]).0 != key by {
                let keys = m.map_values(|p: (Seq<char>, u64)| p.0);
                assert(keys[j] == m[j].0 && keys[i as int] == key);
            }
            crate::assoc::lemma_lookup_none(m.take(i as int), key);
            assert(m.take(i + 1) =~= m.take(i as int).push(m[i as int]));
        }
        let changed = state.db.update_row_views(entries[i].0.as_str(), entries[i].1, now);
        proof {
            assert forall|k: Seq<char>| true implies row_for(state.db.rows_view(), k)
                == flushed_row(rows0, m.take(i + 1), k, now) by {
                crate::assoc::lemma_lookup_push(m.take(i as int), m[i as int], k);
                if k == key {
                    assert(row_for(pre, k) == row_for(rows0, k));
                } else {
                    assert(row_for(state.db.rows_view(), k) == row_for(pre, k));
                }
            }
        }
        i += 1;
    }
    proof {
        assert(m.take(m.len() as int) =~= m);
    }
}

/// Whether a row's tag set contains every queried tag.
pub open spec fn tag_match(row: Paste, query: Seq<Seq<char>>) -> bool {
    forall|t: Seq<char>| #[trigger] query.contains(t) ==> str_views(row.tags@).contains(t)
}

/// The rows among the first `n` whose tags contain every queried tag, in
/// stored (newest-first) order.
pub open spec fn matching_prefix(rows: Seq<Paste>, query: Seq<Seq<char>>, n: nat) -> Seq<Paste>
    decreases n,
{
    if n == 0 || n > rows.len() {
        Seq::empty()
    } else {
        let prev = matching_prefix(rows, query, (n - 1) as nat);
        if tag_match(rows[n - 1], query) {
            prev.push(rows[n - 1])
        } else {
            prev
        }
    }
}

/// The rows whose tags contain every queried tag, newest first.
pub open spec fn matching_rows(rows: Seq<Paste>, query: Seq<Seq<char>>) -> Seq<Paste> {
    matching_prefix(rows, query, rows.len())
}

/// The row offset a one-indexed page starts at; pages below one start at
/// the beginning.
pub open spec fn search_offset(page: i64) -> int {
    ((if page < 1 {
        1int
    } else {
        page as int
    }) - 1) * 10
}

/// One page of ten matching rows, starting at the given offset.
pub open spec fn page_slice(m: Seq<Paste>, off: int) -> Seq<Paste> {
    if off >= m.len() {
        Seq::empty()
    } else {
        m.subrange(
            off,
            if off + 10 <= m.len() {
                off + 10
            } else {
                m.len() as int
            },
        )
    }
}

/// A search row carrying the same values as a stored row.
pub open spec fn search_like(s: SearchPaste, p: Paste) -> bool {
    &&& s.paste_id@ == p.paste_id@
    &&& opt_view(s.title) == opt_view(p.title)
    &&& str_views(s.tags@) == str_views(p.tags@)
    &&& s.format == p.format
    &&& s.date == p.date
    &&& s.views == p.views
}

/// Test whether a row's tags contain every queried tag.
fn row_matches(row: &Paste, query: &Vec<String>) -> (r: bool)
    ensures
        r == tag_match(*row, str_views(query@)),
{
    let mut j: usize = 0;
    while j < query.len()
        invariant
            0 <= j <= query@.len(),
            forall|j2: int|
                0 <= j2 < j ==> str_views(row.tags@).contains(#[trigger] str_views(query@)[j2]),
        decreases query@.len() - j,
    {
        if !crate::normalize::vec_contains_str(&row.tags, &query[j]) {
            proof {
                assert(str_views(query@).contains(str_views(query@)[j as int]));
            }
            return false;
        }
        j += 1;
    }
    proof {
        assert forall|t: Seq<char>| #[trigger] str_views(query@).contains(t) implies str_views(
            row.tags@,
        ).contains(t) by {
            let j2 = choose|j2: int|
                0 <= j2 < str_views(query@).len() && #[trigger] str_views(query@)[j2] == t;
        }
    }
    true
}

/// Project a row into its search-result shape.
fn to_search(row: &Paste) -> (s: SearchPaste)
    ensures
        search_like(s, *row),
{
    SearchPaste {
        paste_id: row.paste_id.clone(),
        title: clone_opt_string(&row.title),
        tags: row.get_tags(),
        format: row.format,
        date: row.date,
        views: row.views,
    }
}

impl Paste {
    /// Search pastes whose tag set contains every queried tag, newest
    /// first, in pages of ten; page numbers are one-indexed and a page
    /// below one reads as the first.  An empty tag query is rejected before
    /// the store is consulted.
    pub fn search(state: &AppState, tags: &Vec<String>, page: i64) -> (r: Result<
        Vec<SearchPaste>,
        PasteError,
    >)
        ensures
            tags@.len() == 0 ==> r == Err::<Vec<SearchPaste>, PasteError>(PasteError::Validation),
            tags@.len() > 0 ==> (r matches Ok(v) && {
                let m = matching_rows(state.db.rows_view(), str_views(tags@));
                let off = search_offset(page);
                &&& v@.len() == page_slice(m, off).len()
                &&& forall|i: int|
                    0 <= i < v@.len() ==> search_like(#[trigger] v@[i], page_slice(m, off)[i])
            }),
            tags@.len() > 0 && state.db.wf() ==> (r matches Ok(v) && forall|i: int, j: int|
                0 <= i < j < v@.len() ==> (#[trigger] v@[i]).date >= (#[trigger] v@[j]).date),
    {
        if tags.len() == 0 {
            return Err(PasteError::Validation);
        }
        let p: i64 = if page < 1 {
            1
        } else {
            page
        };
        let off: u128 = (p as u128 - 1) * 10;
        let hi: u128 = off + 10;
        let ghost offs = search_offset(page);
        proof {
            assert(off as int == offs);
        }
        let ghost q = str_views(tags@);
        let ghost rows = state.db.rows_view();
        let n = state.db.len();
        let mut out: Vec<SearchPaste> = Vec::new();
        let mut c: u128 = 0;
        let mut i: usize = 0;
        while i < n
            invariant
                0 <= i <= rows.len(),
                n == rows.len(),
                rows == state.db.rows_view(),
                q == str_views(tags@),
                offs == off as int,
                hi == off + 10,
                c == matching_prefix(rows, q, i as nat).len(),
                out@.len() == page_slice(matching_prefix(rows, q, i as nat), offs).len(),
                forall|j: int|
                    0 <= j < out@.len() ==> search_like(
                        #[trigger] out@[j],
                        page_slice(matching_prefix(rows, q, i as nat), offs)[j],
                    ),
            decreases rows.len() - i,
        {
            let row = state.db.row_at(i);
            let ghost mprev = matching_prefix(rows, q, i as nat);
            let ghost mnext = matching_prefix(rows, q, (i + 1) as nat);
            if row_matches(row, tags) {
                proof {
                    assert(mnext == mprev.push(rows[i as int]));
                    assert(c < u128::MAX) by {
                        lemma_matching_prefix_len(rows, q, i as nat);
                    }
                }
                if c >= off && c < hi {
                    out.push(to_search(row));
                    proof {
                        assert(page_slice(mnext, offs) =~= page_slice(mprev, offs).push(
                            rows[i as int],
                        ));
                    }
                } else {
                    proof {
                        assert(page_slice(mnext, offs) =~= page_slice(mprev, offs));
                    }
                }
                c = c + 1;
            } else {
                proof {
                    assert(mnext == mprev);
                }
            }
            i += 1;
        }
        proof {
            if state.db.wf() {
                lemma_matching_sorted(rows, q, rows.len());
                let m = matching_rows(rows, q);
                let pg = page_slice(m, offs);
                assert forall|a: int, b: int| 0 <= a < b < out@.len() implies (
                #[trigger] out@[a]).date >= (#[trigger] out@[b]).date by {
                    assert(pg[a] == m[offs + a] && pg[b] == m[offs + b]);
                    assert(out@[a].date == pg[a].date && out@[b].date == pg[b].date);
                }
            }
        }
        Ok(out)
    }
}

/// No more rows match than exist.
proof fn lemma_matching_prefix_len(rows: Seq<Paste>, query: Seq<Seq<char>>, n: nat)
    ensures
        matching_prefix(rows, query, n).len() <= n,
    decreases n,
{
    if n > 0 {
        lemma_matching_prefix_len(rows, query, (n - 1) as nat);
    }
}

/// Filtering newest-first rows keeps them newest-first.
proof fn lemma_matching_sorted(rows: Seq<Paste>, query: Seq<Seq<char>>, n: nat)
    requires
        n <= rows.len(),
        forall|i: int, j: int|
            0 <= i < j < rows.len() ==> (#[trigger] rows[i]).date >= (#[trigger] rows[j]).date,
    ensures
        ({
            let m = matching_prefix(rows, query, n);
            &&& forall|i: int, j: int|
                0 <= i < j < m.len() ==> (#[trigger] m[i]).date >= (#[trigger] m[j]).date
            &&& forall|i: int|
                0 <= i < m.len() ==> exists|k: int| 0 <= k < n && #[trigger] m[i] == rows[k]
        }),
    decreases n,
{
    if n > 0 {
        lemma_matching_sorted(rows, query, (n - 1) as nat);
        let prev = matching_prefix(rows, query, (n - 1) as nat);
        let m = matching_prefix(rows, query, n);
        if tag_match(rows[n - 1], query) {
            assert forall|i: int, j: int| 0 <= i < j < m.len() implies (#[trigger] m[i]).date >= (
            #[trigger] m[j]).date by {
                if j == prev.len() {
                    let k = choose|k: int| 0 <= k < n - 1 && #[trigger] prev[i] == rows[k];
                    assert(rows[k].date >= rows[n - 1].date);
                }
            }
            assert forall|i: int| 0 <= i < m.len() implies exists|k: int|
                0 <= k < n && #[trigger] m[i] == rows[k] by {
                if i < prev.len() {
                    let k = choose|k: int| 0 <= k < n - 1 && #[trigger] prev[i] == rows[k];
                    assert(m[i] == rows[k]);
                } else {
                    assert(m[i] == rows[n - 1]);
                }
            }
        }
    }
}

/// Whether a purge is due: keys are queued, and either a full batch has
/// accumulated or the purge is forced.
pub open spec fn purge_due(q: Seq<Seq<char>>, now: bool) -> bool {
    q.len() > 0 && (q.len() >= crate::purge::PURGE_BATCH || now)
}

/// Delete a paste and run the opportunistic purge pass that follows every
/// successful deletion, as one operation: the freed key joins the queue,
/// and once a full batch of ten has accumulated there the queue is drained
/// and the URLs to invalidate are handed back for the boundary to send.
pub fn delete_paste(state: &mut AppState, paste: &Paste) -> (r: Result<
    Option<Vec<String>>,
    PasteError,
>)
    requires
        old(state).wf(),
    ensures
        final(state).wf(),
        final(state).config == old(state).config,
        final(state).counter.contents() == old(state).counter.contents(),
        final(state).db.begin_fails() == old(state).db.begin_fails(),
        final(state).db.commit_fails() == old(state).db.commit_fails(),
        final(state).s3.upload_fails() == old(state).s3.upload_fails(),
        final(state).s3.delete_fails() == old(state).s3.delete_fails(),
        r matches Ok(batch) ==> (row_for(old(state).db.rows_view(), paste.paste_id@)
            matches Some(row) && {
            &&& row_for(final(state).db.rows_view(), paste.paste_id@) is None
            &&& forall|k: Seq<char>|
                k != paste.paste_id@ ==> row_for(final(state).db.rows_view(), k) == row_for(
                    old(state).db.rows_view(),
                    k,
                )
            &&& final(state).db.rows_view().len() + 1 == old(state).db.rows_view().len()
            &&& (row.gdrivedl is Some ==> final(state).s3.contents() == old(state).s3.contents())
            &&& (row.gdrivedl is None ==> final(state).s3.contents() == crate::s3::without_key(
                old(state).s3.contents(),
                row.s3_key@,
            ))
            &&& ({
                let queued = if old(state).cloudflare_q.contents().contains(row.s3_key@) {
                    old(state).cloudflare_q.contents()
                } else {
                    old(state).cloudflare_q.contents().push(row.s3_key@)
                };
                &&& (!purge_due(queued, false) ==> batch is None && final(state).cloudflare_q.contents() == queued)
                &&& (purge_due(queued, false) ==> final(state).cloudflare_q.contents() == Seq::<
                    Seq<char>,
                >::empty())
                &&& (purge_due(queued, false) && !old(state).config.cloudflare_enabled
                    ==> batch is None)
                &&& (purge_due(queued, false) && old(state).config.cloudflare_enabled ==> (batch
                    matches Some(urls) && urls@.len() == queued.len() && forall|i: int|
                    0 <= i < urls@.len() ==> #[trigger] urls@[i]@ == old(state).config.s3_bucket_url@ + queued[i]))
            })
        }),
        r matches Err(e) ==> {
            &&& final(state).db.rows_view() == old(state).db.rows_view()
            &&& final(state).cloudflare_q.contents() == old(state).cloudflare_q.contents()
            &&& (e == PasteError::NotFound ==> row_for(
                old(state).db.rows_view(),
                paste.paste_id@,
            ) is None && final(state).s3.contents() == old(state).s3.contents())
            &&& (e == PasteError::Storage ==> old(state).s3.delete_fails() && final(state).s3.contents() == old(state).s3.contents())
            &&& (e == PasteError::Transaction ==> old(state).db.begin_fails() || old(state).db.commit_fails())
        },
        old(state).db.begin_fails() ==> r == Err::<Option<Vec<String>>, PasteError>(
            PasteError::Transaction,
        ),
        !old(state).db.begin_fails() && row_for(old(state).db.rows_view(), paste.paste_id@)
            is None ==> r == Err::<Option<Vec<String>>, PasteError>(PasteError::NotFound),
        !old(state).db.begin_fails() && (row_for(old(state).db.rows_view(), paste.paste_id@)
            matches Some(row) && row.gdrivedl is None && old(state).s3.delete_fails()) ==> r
            == Err::<Option<Vec<String>>, PasteError>(PasteError::Storage),
        !old(state).db.begin_fails() && (row_for(old(state).db.rows_view(), paste.paste_id@)
            matches Some(row) && (row.gdrivedl is Some || !old(state).s3.delete_fails())) && old(state).db.commit_fails() ==> r == Err::<Option<Vec<String>>, PasteError>(
            PasteError::Transaction,
        ),
        delete_must_succeed(old(state), paste) ==> r is Ok,
{
    match paste.delete(state) {
        Ok(_) => Ok(purge_cache(state, false)),
        Err(e) => Err(e),
    }
}

/// Run one purge pass: when a purge is due, drain the queue and hand back
/// the URLs to invalidate upstream — unless the upstream purge is disabled,
/// in which case the queue is drained with no call to make.  The queue is
/// cleared whatever becomes of the returned request.
pub fn purge_cache(state: &mut AppState, now: bool) -> (r: Option<Vec<String>>)
    requires
        old(state).wf(),
    ensures
        final(state).wf(),
        final(state).config == old(state).config,
        final(state).db == old(state).db,
        final(state).s3 == old(state).s3,
        final(state).counter == old(state).counter,
        !purge_due(old(state).cloudflare_q.contents(), now) ==> r is None && final(state).cloudflare_q.contents() == old(state).cloudflare_q.contents(),
        purge_due(old(state).cloudflare_q.contents(), now) ==> final(state).cloudflare_q.contents() == Seq::<Seq<char>>::empty(),
        purge_due(old(state).cloudflare_q.contents(), now) && !old(state).config.cloudflare_enabled ==> r is None,
        purge_due(old(state).cloudflare_q.contents(), now) && old(state).config.cloudflare_enabled ==> (r matches Some(urls) && {
            &&& urls@.len() == old(state).cloudflare_q.contents().len()
            &&& forall|i: int|
                0 <= i < urls@.len() ==> #[trigger] urls@[i]@ == old(state).config.s3_bucket_url@
                    + old(state).cloudflare_q.contents()[i]
        }),
{
    let batch = match state.cloudflare_q.take_batch(now) {
        Some(b) => b,
        None => {
            return None;
        },
    };
    if !state.config.cloudflare_enabled {
        return None;
    }
    let mut urls: Vec<String> = Vec::new();
    let mut i: usize = 0;
    while i < batch.len()
        invariant
            0 <= i <= batch@.len(),
            str_views(batch@) == old(state).cloudflare_q.contents(),
            urls@.len() == i,
            state.config == old(state).config,
            forall|j: int|
                0 <= j < i ==> #[trigger] urls@[j]@ == old(state).config.s3_bucket_url@ + old(state).cloudflare_q.contents()[j],
        decreases batch@.len() - i,
    {
        let mut url = state.config.s3_bucket_url.clone();
        url.append(batch[i].as_str());
        urls.push(url);
        i += 1;
    }
    Some(urls)
}

} // verus!
