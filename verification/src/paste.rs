//! The paste entity: one stored text artifact with its metadata.
use crate::compress::Encoding;
use crate::errors::PasteError;
use crate::format::{format_ext, parse_format_spec, PasteFormat};
use crate::forms::PasteForm;
use crate::id::{generate_paste_id, valid_paste_id};
use crate::normalize::{
    clean_title, dedup_tags, fix_tags, lemma_stored_tags_wf, normalize_title, opt_str_view,
    stored_tags_spec, tag_ok, title_ok, TAG_MAX,
};
use crate::text::{chars_to_string, str_to_chars, str_views};
use vstd::prelude::*;
use vstd::string::StringExecFns;

verus! {

/// One paste row, as the metadata store holds it.  `s3_key` stays empty
/// until the blob is uploaded; `gdriveid` and `gdrivedl` are set only when
/// the content lives in the alternate backend.
#[derive(Debug)]
pub struct Paste {
    pub paste_id: String,
    pub user_id: Option<String>,
    pub session_id: Option<String>,
    pub title: Option<String>,
    pub tags: Vec<String>,
    pub format: PasteFormat,
    pub date: i64,
    pub gdriveid: Option<String>,
    pub gdrivedl: Option<String>,
    pub s3_key: String,
    pub s3_content_length: u64,
    /// Bot score in thousandths: 0 is certainly a bot, 1000 certainly human.
    pub rcscore_milli: u32,
    pub views: u64,
    pub last_seen: i64,
}

/// One row of a search result page.
#[derive(Debug)]
pub struct SearchPaste {
    pub paste_id: String,
    pub title: Option<String>,
    pub tags: Vec<String>,
    pub format: PasteFormat,
    pub date: i64,
    pub views: u64,
}

impl Paste {
    /// A well-formed paste: a valid identifier, a normalized title, and a
    /// deduplicated, well-formed tag list.
    pub open spec fn wf(&self) -> bool {
        &&& valid_paste_id(self.paste_id@)
        &&& match self.title {
            Some(t) => title_ok(t@),
            None => true,
        }
        &&& str_views(self.tags@).len() <= TAG_MAX
        &&& str_views(self.tags@).no_duplicates()
        &&& forall|i: int|
            0 <= i < self.tags@.len() ==> tag_ok(#[trigger] str_views(self.tags@)[i])
    }

    /// Build a candidate paste from a submission: reject empty content and
    /// unknown formats, normalize title and tags, draw a fresh identifier.
    /// No store is touched.
    pub fn new(
        form: &PasteForm,
        score_milli: u32,
        user_id: Option<String>,
        session_id: Option<String>,
        now: i64,
    ) -> (r: Result<Paste, PasteError>)
        ensures
            r matches Ok(p) ==> {
                &&& p.wf()
                &&& Some(p.format) == parse_format_spec(form.format@)
                &&& p.title matches Some(t) && t@ == clean_title(opt_str_view(form.title))
                &&& str_views(p.tags@) == stored_tags_spec(opt_str_view(form.tags))
                &&& p.user_id == user_id
                &&& p.session_id == session_id
                &&& p.date == now
                &&& p.last_seen == now
                &&& p.views == 0
                &&& p.rcscore_milli == score_milli
                &&& p.s3_key@ == Seq::<char>::empty()
                &&& p.s3_content_length == 0
                &&& p.gdriveid is None
                &&& p.gdrivedl is None
                &&& form.content@.len() > 0
            },
            r matches Err(e) ==> e == PasteError::Validation && (form.content@.len() == 0
                || parse_format_spec(form.format@) is None),
            form.content@.len() > 0 && parse_format_spec(form.format@) is Some ==> r is Ok,
    {
        if form.content.as_str().is_empty() {
            return Err(PasteError::Validation);
        }
        let format = match PasteFormat::parse(form.format.as_str()) {
            Some(f) => f,
            None => {
                return Err(PasteError::Validation);
            },
        };
        let title = normalize_title(&form.title);
        let split = fix_tags(&form.tags);
        let tags = dedup_tags(&split);
        proof {
            lemma_stored_tags_wf(opt_str_view(form.tags));
        }
        let paste_id = generate_paste_id();
        Ok(
            Paste {
                paste_id,
                user_id,
                session_id,
                title: Some(title),
                tags,
                format,
                date: now,
                gdriveid: None,
                gdrivedl: None,
                s3_key: String::new(),
                s3_content_length: 0,
                rcscore_milli: score_milli,
                views: 0,
                last_seen: now,
            },
        )
    }

    /// The URL a paste's content is fetched from: straight from the bucket
    /// for primary-store pastes, through the relay path for alternate-backend
    /// pastes.
    pub fn get_content_url(&self, s3_bucket_url: &str) -> (r: String)
        ensures
            self.gdrivedl is None ==> r@ == s3_bucket_url@ + self.s3_key@,
            self.gdrivedl is Some ==> r@ == "/pastebinc/"@ + self.paste_id@ + "/content"@,
    {
        if self.gdrivedl.is_none() {
            let mut r = s3_bucket_url.to_owned();
            r.append(self.s3_key.as_str());
            r
        } else {
            let mut r = "/pastebinc/".to_owned();
            r.append(self.paste_id.as_str());
            r.append("/content");
            r
        }
    }

    /// The title to display: the paste identifier when no title was kept.
    pub fn get_title(&self) -> (r: String)
        ensures
            r@ == display_title_spec(self),
    {
        match &self.title {
            Some(t) => {
                if t.as_str().is_empty() {
                    self.paste_id.clone()
                } else {
                    t.clone()
                }
            },
            None => self.paste_id.clone(),
        }
    }

    /// The discriminant string of the paste's format.
    pub fn get_format(&self) -> (r: String)
        ensures
            r@ == crate::format::format_name(self.format),
    {
        self.format.name().to_owned()
    }

    /// A copy of the stored tag list.
    pub fn get_tags(&self) -> (r: Vec<String>)
        ensures
            str_views(r@) == str_views(self.tags@),
    {
        let mut out: Vec<String> = Vec::new();
        let mut i: usize = 0;
        while i < self.tags.len()
            invariant
                0 <= i <= self.tags@.len(),
                out@.len() == i,
                forall|j: int| 0 <= j < i ==> #[trigger] out@[j]@ == self.tags@[j]@,
            decreases self.tags@.len() - i,
        {
            out.push(self.tags[i].clone());
            i += 1;
        }
        proof {
            assert(str_views(out@) =~= str_views(self.tags@));
        }
        out
    }
}

/// The title shown for a paste: its identifier when no title was stored.
pub open spec fn display_title_spec(p: &Paste) -> Seq<char> {
    match p.title {
        Some(t) => if t@.len() == 0 {
            p.paste_id@
        } else {
            t@
        },
        None => p.paste_id@,
    }
}

/// The object-store key a paste's blob lives under:
/// `{prefix}{id}.{ext}`, with `.br` appended iff the blob is
/// brotli-compressed.
pub open spec fn storage_key_spec(
    prefix: Seq<char>,
    id: Seq<char>,
    f: PasteFormat,
    e: Encoding,
) -> Seq<char> {
    prefix + id + "."@ + format_ext(f) + if e == Encoding::Br {
        ".br"@
    } else {
        Seq::<char>::empty()
    }
}

/// Build the object-store key for a paste's blob.
pub fn build_storage_key(prefix: &str, id: &str, f: PasteFormat, e: Encoding) -> (r: String)
    ensures
        r@ == storage_key_spec(prefix@, id@, f, e),
{
    let mut r = prefix.to_owned();
    r.append(id);
    r.append(".");
    r.append(f.extension());
    if matches!(e, Encoding::Br) {
        r.append(".br");
    }
    proof {
        assert(r@ =~= storage_key_spec(prefix@, id@, f, e));
    }
    r
}

/// A storage key ends in `.br` exactly when brotli compression was applied,
/// so a client can tell the encoding from the key alone.
pub proof fn lemma_storage_key_br_suffix(
    prefix: Seq<char>,
    id: Seq<char>,
    f: PasteFormat,
    e: Encoding,
)
    ensures
        ({
            let key = storage_key_spec(prefix, id, f, e);
            &&& (e == Encoding::Br ==> key.len() >= 3 && key.subrange(
                key.len() - 3,
                key.len() as int,
            ) == ".br"@)
            &&& (e == Encoding::Identity ==> key == prefix + id + "."@ + format_ext(f))
        }),
{
    reveal_strlit(".br");
    reveal_strlit(".");
    let key = storage_key_spec(prefix, id, f, e);
    if e == Encoding::Br {
        assert(key.subrange(key.len() - 3, key.len() as int) =~= ".br"@);
    } else {
        assert(key =~= prefix + id + "."@ + format_ext(f));
    }
}

/// The first `n` characters of an identifier with every `~` removed, as a
/// download filename must not hold one.
pub open spec fn strip_tilde(s: Seq<char>, n: nat) -> Seq<char>
    decreases n,
{
    if n == 0 || n > s.len() {
        Seq::empty()
    } else {
        let prev = strip_tilde(s, (n - 1) as nat);
        if s[n - 1] == '~' {
            prev
        } else {
            prev.push(s[n - 1])
        }
    }
}

/// The filename offered in the content-disposition header:
/// `{id}.{ext}` with `~` stripped from the identifier.
pub open spec fn filename_spec(id: Seq<char>, f: PasteFormat) -> Seq<char> {
    strip_tilde(id, id.len()) + "."@ + format_ext(f)
}

/// Build the download filename for a paste.
pub fn build_filename(id: &str, f: PasteFormat) -> (r: String)
    ensures
        r@ == filename_spec(id@, f),
{
    let cs = str_to_chars(id);
    let mut out: Vec<char> = Vec::new();
    let mut i: usize = 0;
    while i < cs.len()
        invariant
            0 <= i <= cs@.len(),
            cs@ == id@,
            out@ == strip_tilde(id@, i as nat),
        decreases cs@.len() - i,
    {
        if cs[i] != '~' {
            out.push(cs[i]);
        }
        i += 1;
    }
    let mut r = chars_to_string(&out);
    r.append(".");
    r.append(f.extension());
    proof {
        assert(r@ =~= filename_spec(id@, f));
    }
    r
}

} // verus!
