//! Title and tag normalization for inbound paste submissions.
//!
//! A submitted title keeps its first 50 non-control characters.  A submitted
//! tag string is split on whitespace; each word keeps its first 15
//! alphanumeric characters, lower-cased, and empty words are dropped.  The
//! final stored list keeps the first occurrence of each distinct tag, capped
//! at 15 entries.
use crate::text::{
    check_alnum, check_control, check_space, chars_to_string, is_alnum, is_control, is_space,
    lower_char, str_eq, str_to_chars, str_views, to_lower_char,
};
use vstd::prelude::*;

verus! {

/// Most characters a stored title may hold.
pub const TITLE_MAX: usize = 50;

/// Most characters a stored tag may hold, and most tags a paste may hold.
pub const TAG_MAX: usize = 15;

/// A character that may appear in a stored tag: a digit or a lower-case
/// ASCII letter.
pub open spec fn is_lower_alnum(c: char) -> bool {
    ('0' <= c && c <= '9') || ('a' <= c && c <= 'z')
}

/// A well-formed stored tag: non-empty, at most 15 characters, all of them
/// lower-case alphanumeric.
pub open spec fn tag_ok(t: Seq<char>) -> bool {
    1 <= t.len() <= TAG_MAX && (forall|i: int| 0 <= i < t.len() ==> is_lower_alnum(#[trigger] t[i]))
}

/// A well-formed stored title: at most 50 characters, none of them control
/// characters.
pub open spec fn title_ok(t: Seq<char>) -> bool {
    t.len() <= TITLE_MAX && (forall|i: int| 0 <= i < t.len() ==> !is_control(#[trigger] t[i]))
}

/// The cleaned form of the first `n` characters of one whitespace-free word:
/// its alphanumeric characters, lower-cased, capped at 15.
pub open spec fn clean_prefix(w: Seq<char>, n: nat) -> Seq<char>
    decreases n,
{
    if n == 0 || n > w.len() {
        Seq::empty()
    } else {
        let prev = clean_prefix(w, (n - 1) as nat);
        if is_alnum(w[n - 1]) && prev.len() < TAG_MAX {
            prev.push(lower_char(w[n - 1]))
        } else {
            prev
        }
    }
}

/// The cleaned form of one whitespace-free word.
pub open spec fn clean_tag(w: Seq<char>) -> Seq<char> {
    clean_prefix(w, w.len())
}

/// The cleaned form of the first `n` characters of a title: its non-control
/// characters, capped at 50.
pub open spec fn title_prefix(t: Seq<char>, n: nat) -> Seq<char>
    decreases n,
{
    if n == 0 || n > t.len() {
        Seq::empty()
    } else {
        let prev = title_prefix(t, (n - 1) as nat);
        if !is_control(t[n - 1]) && prev.len() < TITLE_MAX {
            prev.push(t[n - 1])
        } else {
            prev
        }
    }
}

/// A title with its leading whitespace removed.
pub open spec fn trim_start(s: Seq<char>) -> Seq<char>
    decreases s.len(),
{
    if s.len() > 0 && is_space(s[0]) {
        trim_start(s.drop_first())
    } else {
        s
    }
}

/// A title with its trailing whitespace removed.
pub open spec fn trim_end(s: Seq<char>) -> Seq<char>
    decreases s.len(),
{
    if s.len() > 0 && is_space(s.last()) {
        trim_end(s.drop_last())
    } else {
        s
    }
}

/// A title with leading and trailing whitespace removed.
pub open spec fn trimmed(s: Seq<char>) -> Seq<char> {
    trim_end(trim_start(s))
}

/// The normalized form of a submitted title: trimmed, control characters
/// stripped, capped at 50 characters.
pub open spec fn clean_title(t: Seq<char>) -> Seq<char> {
    title_prefix(trimmed(t), trimmed(t).len())
}

/// The cleaned word, as zero tags if it cleans to nothing, else as one tag.
pub open spec fn emit_tag(cur: Seq<char>) -> Seq<Seq<char>> {
    if clean_tag(cur).len() == 0 {
        Seq::empty()
    } else {
        seq![clean_tag(cur)]
    }
}

/// The state after scanning the first `n` characters of a tag string: the
/// tags already emitted, and the word currently being collected.
pub open spec fn scan_tags(s: Seq<char>, n: nat) -> (Seq<Seq<char>>, Seq<char>)
    decreases n,
{
    if n == 0 || n > s.len() {
        (Seq::empty(), Seq::empty())
    } else {
        let (acc, cur) = scan_tags(s, (n - 1) as nat);
        if is_space(s[n - 1]) {
            (acc + emit_tag(cur), Seq::<char>::empty())
        } else {
            (acc, cur.push(s[n - 1]))
        }
    }
}

/// The tag list obtained by splitting a tag string on whitespace and cleaning
/// each word, duplicates still present.
pub open spec fn fix_tags_spec(s: Seq<char>) -> Seq<Seq<char>> {
    let (acc, cur) = scan_tags(s, s.len());
    acc + emit_tag(cur)
}

/// The first `n` tags of a list, with duplicates dropped (first occurrence
/// kept) and the result capped at 15 entries.
pub open spec fn dedup_prefix(tags: Seq<Seq<char>>, n: nat) -> Seq<Seq<char>>
    decreases n,
{
    if n == 0 || n > tags.len() {
        Seq::empty()
    } else {
        let prev = dedup_prefix(tags, (n - 1) as nat);
        if prev.contains(tags[n - 1]) || prev.len() >= TAG_MAX {
            prev
        } else {
            prev.push(tags[n - 1])
        }
    }
}

/// A tag list with duplicates dropped, first-seen order kept, capped at 15.
pub open spec fn dedup_tags_spec(tags: Seq<Seq<char>>) -> Seq<Seq<char>> {
    dedup_prefix(tags, tags.len())
}

/// The tag list a paste stores for a given submitted tag string.
pub open spec fn stored_tags_spec(s: Seq<char>) -> Seq<Seq<char>> {
    dedup_tags_spec(fix_tags_spec(s))
}

/// The character sequence of an optional string, empty when absent.
pub open spec fn opt_str_view(t: Option<String>) -> Seq<char> {
    match t {
        Some(s) => s@,
        None => Seq::empty(),
    }
}

/// Clean one whitespace-free word: keep its alphanumeric characters,
/// lower-cased, capped at 15.
fn clean_word(word: &Vec<char>) -> (out: Vec<char>)
    ensures
        out@ == clean_tag(word@),
{
    let mut out: Vec<char> = Vec::new();
    let mut i: usize = 0;
    while i < word.len()
        invariant
            0 <= i <= word@.len(),
            out@ == clean_prefix(word@, i as nat),
            out@.len() <= TAG_MAX,
        decreases word@.len() - i,
    {
        let c = word[i];
        if check_alnum(c) && out.len() < TAG_MAX {
            out.push(to_lower_char(c));
        }
        i += 1;
    }
    out
}

/// When everything before index `a` is whitespace and `a` is the end or a
/// non-space, trimming the start drops exactly the first `a` characters.
proof fn lemma_trim_start_at(s: Seq<char>, a: int)
    requires
        0 <= a <= s.len(),
        forall|j: int| 0 <= j < a ==> is_space(#[trigger] s[j]),
        a == s.len() || !is_space(s[a]),
    ensures
        trim_start(s) == s.skip(a),
    decreases a,
{
    if a == 0 {
        assert(s.skip(0) =~= s);
    } else {
        assert(is_space(s[0]));
        lemma_trim_start_at(s.drop_first(), a - 1);
        assert(s.drop_first().skip(a - 1) =~= s.skip(a));
    }
}

/// When everything from index `b` on is whitespace and `b` is the start or
/// follows a non-space, trimming the end keeps exactly the first `b`
/// characters.
proof fn lemma_trim_end_at(s: Seq<char>, b: int)
    requires
        0 <= b <= s.len(),
        forall|j: int| b <= j < s.len() ==> is_space(#[trigger] s[j]),
        b == 0 || !is_space(s[b - 1]),
    ensures
        trim_end(s) == s.take(b),
    decreases s.len(),
{
    if s.len() == 0 {
        assert(s.take(0) =~= s);
    } else if b == s.len() {
        assert(!is_space(s.last()));
        assert(s.take(b) =~= s);
    } else {
        assert(is_space(s.last()));
        lemma_trim_end_at(s.drop_last(), b);
        assert(s.drop_last().take(b) =~= s.take(b));
    }
}

/// Normalize a submitted title: trim surrounding whitespace, drop control
/// characters, and keep the first 50 of the rest.  An absent title
/// normalizes to the empty string.
pub fn normalize_title(title: &Option<String>) -> (r: String)
    ensures
        r@ == clean_title(opt_str_view(*title)),
        title_ok(r@),
{
    let t = match title {
        Some(t) => t.as_str(),
        None => {
            return String::new();
        },
    };
    let cs = str_to_chars(t);
    let mut a: usize = 0;
    while a < cs.len() && check_space(cs[a])
        invariant
            0 <= a <= cs@.len(),
            cs@ == t@,
            forall|j: int| 0 <= j < a ==> is_space(#[trigger] t@[j]),
        decreases cs@.len() - a,
    {
        a += 1;
    }
    proof {
        lemma_trim_start_at(t@, a as int);
    }
    if a == cs.len() {
        proof {
            assert(t@.skip(a as int) =~= Seq::<char>::empty());
        }
        return String::new();
    }
    let mut b: usize = cs.len() - 1;
    while b > a && check_space(cs[b])
        invariant
            a <= b < cs@.len(),
            cs@ == t@,
            forall|j: int| b < j < cs@.len() ==> is_space(#[trigger] t@[j]),
        decreases b,
    {
        b -= 1;
    }
    let ghost rest = t@.skip(a as int);
    let ghost body = t@.subrange(a as int, (b + 1) as int);
    proof {
        assert(!is_space(t@[b as int]));
        assert forall|j: int| b + 1 - a <= j < rest.len() implies is_space(#[trigger] rest[j]) by {
            assert(rest[j] == t@[a + j]);
        }
        assert(rest[(b - a) as int] == t@[b as int]);
        lemma_trim_end_at(rest, (b + 1 - a) as int);
        assert(rest.take((b + 1 - a) as int) =~= body);
        assert(trimmed(t@) == body);
    }
    let mut out: Vec<char> = Vec::new();
    let mut i: usize = a;
    while i <= b
        invariant
            a <= i <= b + 1,
            b < cs@.len(),
            cs@.len() <= usize::MAX,
            cs@ == t@,
            body == t@.subrange(a as int, (b + 1) as int),
            out@ == title_prefix(body, (i - a) as nat),
            out@.len() <= TITLE_MAX,
        decreases b + 1 - i,
    {
        let c = cs[i];
        proof {
            assert(body[(i - a) as int] == t@[i as int]);
        }
        if !check_control(c) && out.len() < TITLE_MAX {
            out.push(c);
        }
        i += 1;
    }
    proof {
        lemma_title_prefix_ok(body, body.len());
        assert(out@ == title_prefix(trimmed(t@), trimmed(t@).len()));
    }
    chars_to_string(&out)
}

/// Split a submitted tag string on whitespace and clean each word, keeping
/// the order of appearance; duplicates are not yet dropped.
pub fn fix_tags(tags: &Option<String>) -> (r: Vec<String>)
    ensures
        str_views(r@) == fix_tags_spec(opt_str_view(*tags)),
{
    let s = match tags {
        Some(s) => s.as_str(),
        None => {
            let r: Vec<String> = Vec::new();
            proof {
                assert(str_views(r@) =~= fix_tags_spec(Seq::empty()));
            }
            return r;
        },
    };
    let cs = str_to_chars(s);
    let mut acc: Vec<String> = Vec::new();
    let mut cur: Vec<char> = Vec::new();
    let mut i: usize = 0;
    while i < cs.len()
        invariant
            0 <= i <= cs@.len(),
            cs@ == s@,
            (str_views(acc@), cur@) == scan_tags(s@, i as nat),
        decreases cs@.len() - i,
    {
        let c = cs[i];
        if check_space(c) {
            let cleaned = clean_word(&cur);
            if cleaned.len() > 0 {
                let tag = chars_to_string(&cleaned);
                acc.push(tag);
                proof {
                    assert(str_views(acc@) =~= scan_tags(s@, i as nat).0 + emit_tag(cur@));
                }
            } else {
                proof {
                    assert(str_views(acc@) =~= scan_tags(s@, i as nat).0 + emit_tag(cur@));
                }
            }
            cur = Vec::new();
        } else {
            cur.push(c);
        }
        i += 1;
    }
    let cleaned = clean_word(&cur);
    if cleaned.len() > 0 {
        let tag = chars_to_string(&cleaned);
        acc.push(tag);
        proof {
            assert(str_views(acc@) =~= scan_tags(s@, s@.len()).0 + emit_tag(cur@));
        }
    } else {
        proof {
            assert(str_views(acc@) =~= scan_tags(s@, s@.len()).0 + emit_tag(cur@));
        }
    }
    acc
}

/// Test whether a list of strings holds one with the given characters.
pub fn vec_contains_str(v: &Vec<String>, s: &String) -> (r: bool)
    ensures
        r == str_views(v@).contains(s@),
{
    let mut i: usize = 0;
    while i < v.len()
        invariant
            0 <= i <= v@.len(),
            forall|j: int| 0 <= j < i ==> str_views(v@)[j] != s@,
        decreases v@.len() - i,
    {
        if str_eq(v[i].as_str(), s.as_str()) {
            assert(str_views(v@)[i as int] == s@);
            return true;
        }
        i += 1;
    }
    false
}

/// Drop duplicate tags, keeping the first occurrence of each and at most 15
/// entries in all.
pub fn dedup_tags(tags: &Vec<String>) -> (r: Vec<String>)
    ensures
        str_views(r@) == dedup_tags_spec(str_views(tags@)),
{
    let mut acc: Vec<String> = Vec::new();
    let mut i: usize = 0;
    while i < tags.len()
        invariant
            0 <= i <= tags@.len(),
            str_views(acc@) == dedup_prefix(str_views(tags@), i as nat),
            acc@.len() <= TAG_MAX,
        decreases tags@.len() - i,
    {
        proof {
            lemma_dedup_prefix_len(str_views(tags@), i as nat);
        }
        let t = &tags[i];
        if !vec_contains_str(&acc, t) && acc.len() < TAG_MAX {
            acc.push(t.clone());
            proof {
                assert(str_views(acc@) =~= dedup_prefix(str_views(tags@), (i + 1) as nat));
            }
        }
        i += 1;
    }
    acc
}

/// The cleaned form of a word is never longer than 15 characters and holds
/// only lower-case alphanumerics.
pub proof fn lemma_clean_prefix_ok(w: Seq<char>, n: nat)
    ensures
        clean_prefix(w, n).len() <= TAG_MAX,
        forall|i: int|
            0 <= i < clean_prefix(w, n).len() ==> is_lower_alnum(#[trigger] clean_prefix(w, n)[i]),
    decreases n,
{
    if n == 0 || n > w.len() {
    } else {
        lemma_clean_prefix_ok(w, (n - 1) as nat);
    }
}

/// The normalized form of a title is never longer than 50 characters and
/// holds no control characters.
pub proof fn lemma_title_prefix_ok(t: Seq<char>, n: nat)
    ensures
        title_prefix(t, n).len() <= TITLE_MAX,
        forall|i: int|
            0 <= i < title_prefix(t, n).len() ==> !is_control(#[trigger] title_prefix(t, n)[i]),
    decreases n,
{
    if n == 0 || n > t.len() {
    } else {
        lemma_title_prefix_ok(t, (n - 1) as nat);
    }
}

/// Every tag produced by splitting and cleaning is well formed.
pub proof fn lemma_fix_tags_ok(s: Seq<char>, n: nat)
    ensures
        forall|i: int|
            0 <= i < scan_tags(s, n).0.len() ==> tag_ok(#[trigger] scan_tags(s, n).0[i]),
    decreases n,
{
    if n == 0 || n > s.len() {
    } else {
        lemma_fix_tags_ok(s, (n - 1) as nat);
        let (acc, cur) = scan_tags(s, (n - 1) as nat);
        if is_space(s[n - 1]) {
            lemma_clean_prefix_ok(cur, cur.len());
        }
    }
}

/// A deduplicated tag list never exceeds 15 entries.
pub proof fn lemma_dedup_prefix_len(tags: Seq<Seq<char>>, n: nat)
    ensures
        dedup_prefix(tags, n).len() <= TAG_MAX,
    decreases n,
{
    if n == 0 || n > tags.len() {
    } else {
        lemma_dedup_prefix_len(tags, (n - 1) as nat);
    }
}

/// Every tag of the whole split-and-cleaned list is well formed.
pub proof fn lemma_fix_tags_spec_ok(s: Seq<char>)
    ensures
        forall|i: int| 0 <= i < fix_tags_spec(s).len() ==> tag_ok(#[trigger] fix_tags_spec(s)[i]),
{
    lemma_fix_tags_ok(s, s.len());
    let (acc, cur) = scan_tags(s, s.len());
    lemma_clean_prefix_ok(cur, cur.len());
}

/// `a`'s first occurrence in the list comes strictly before `b`'s.
pub open spec fn lt_first(tags: Seq<Seq<char>>, a: Seq<char>, b: Seq<char>) -> bool {
    &&& tags.index_of_first(a) matches Some(fa) && (tags.index_of_first(b) matches Some(fb)
        && fa < fb)
}

/// Deduplication keeps at most 15 entries, no duplicates, only tags that
/// occur in the input prefix, all of them (while below the cap), in the
/// order of their first occurrence.
pub proof fn lemma_dedup_prefix_props(tags: Seq<Seq<char>>, n: nat)
    requires
        n <= tags.len(),
    ensures
        dedup_prefix(tags, n).no_duplicates(),
        forall|i: int|
            0 <= i < dedup_prefix(tags, n).len() ==> tags.take(n as int).contains(
                #[trigger] dedup_prefix(tags, n)[i],
            ),
        dedup_prefix(tags, n).len() < TAG_MAX ==> (forall|k: int|
            0 <= k < n ==> dedup_prefix(tags, n).contains(#[trigger] tags[k])),
        forall|i: int, j: int|
            0 <= i < j < dedup_prefix(tags, n).len() ==> lt_first(
                tags,
                #[trigger] dedup_prefix(tags, n)[i],
                #[trigger] dedup_prefix(tags, n)[j],
            ),
    decreases n,
{
    if n == 0 {
    } else {
        lemma_dedup_prefix_props(tags, (n - 1) as nat);
        let prev = dedup_prefix(tags, (n - 1) as nat);
        let cur = dedup_prefix(tags, n);
        let t = tags[n - 1];
        assert(tags.take(n as int)[n - 1] == t);
        assert forall|i: int| 0 <= i < prev.len() implies tags.take(n as int).contains(
            #[trigger] prev[i],
        ) by {
            let k = choose|k: int| 0 <= k < n - 1 && #[trigger] tags.take(n - 1)[k] == prev[i];
            assert(tags.take(n as int)[k] == prev[i]);
        }
        if !prev.contains(t) && prev.len() < TAG_MAX {
            // `t` is pushed: its first occurrence is exactly `n - 1`, later
            // than the first occurrence of everything already kept.
            assert(tags.contains(t));
            tags.index_of_first_ensures(t);
            assert forall|k: int| 0 <= k < n - 1 implies tags[k] != t by {
                assert(prev.contains(tags.take(n - 1)[k]));
            }
            assert(tags.index_of_first(t) matches Some(ft) && ft == n - 1);
            assert forall|i: int| 0 <= i < prev.len() implies lt_first(tags, prev[i], t) by {
                let k = choose|k: int| 0 <= k < n - 1 && #[trigger] tags.take(n - 1)[k] == prev[i];
                assert(tags[k] == prev[i]);
                assert(tags.contains(prev[i]));
                tags.index_of_first_ensures(prev[i]);
                assert(tags.index_of_first(prev[i]) matches Some(fi) && fi <= k);
            }
            assert(cur == prev.push(t));
            assert forall|i: int, j: int| 0 <= i < j < cur.len() implies lt_first(
                tags,
                #[trigger] cur[i],
                #[trigger] cur[j],
            ) by {
                if j < prev.len() {
                    assert(cur[i] == prev[i] && cur[j] == prev[j]);
                } else {
                    assert(cur[j] == t && cur[i] == prev[i]);
                }
            }
            assert(cur.no_duplicates());
            assert forall|k: int| 0 <= k < n implies cur.contains(#[trigger] tags[k]) by {
                if k < n - 1 {
                    assert(prev.contains(tags[k]));
                    let m = choose|m: int| 0 <= m < prev.len() && prev[m] == tags[k];
                    assert(cur[m] == tags[k]);
                } else {
                    assert(cur[prev.len() as int] == t);
                }
            }
            assert forall|i: int| 0 <= i < cur.len() implies tags.take(n as int).contains(
                #[trigger] cur[i],
            ) by {
                if i < prev.len() {
                    assert(tags.take(n as int).contains(prev[i]));
                } else {
                    assert(tags.take(n as int)[n - 1] == cur[i]);
                }
            }
        } else {
            if prev.contains(t) && cur.len() < TAG_MAX {
                assert forall|k: int| 0 <= k < n implies cur.contains(#[trigger] tags[k]) by {
                    if k < n - 1 {
                        assert(prev.contains(tags[k]));
                    }
                }
            }
        }
    }
}

/// What a paste stores for a submitted tag string: at most 15 tags, no
/// duplicates, each one non-empty lower-case alphanumeric of at most 15
/// characters, listed in the order the distinct tags first appear.
pub proof fn lemma_stored_tags_wf(s: Seq<char>)
    ensures
        stored_tags_spec(s).len() <= TAG_MAX,
        stored_tags_spec(s).no_duplicates(),
        forall|i: int| 0 <= i < stored_tags_spec(s).len() ==> tag_ok(#[trigger] stored_tags_spec(s)[i]),
        forall|i: int, j: int|
            0 <= i < j < stored_tags_spec(s).len() ==> lt_first(
                fix_tags_spec(s),
                #[trigger] stored_tags_spec(s)[i],
                #[trigger] stored_tags_spec(s)[j],
            ),
{
    let fixed = fix_tags_spec(s);
    lemma_dedup_prefix_len(fixed, fixed.len());
    lemma_dedup_prefix_props(fixed, fixed.len());
    lemma_fix_tags_spec_ok(s);
    assert(fixed.take(fixed.len() as int) =~= fixed);
    assert forall|i: int| 0 <= i < stored_tags_spec(s).len() implies tag_ok(
        #[trigger] stored_tags_spec(s)[i],
    ) by {
        let k = choose|k: int| 0 <= k < fixed.len() && #[trigger] fixed[k] == stored_tags_spec(s)[i];
    }
}

/// Cleaning an already-clean tag changes nothing.
pub proof fn lemma_clean_tag_idempotent(t: Seq<char>)
    requires
        tag_ok(t),
    ensures
        clean_tag(t) == t,
{
    lemma_clean_prefix_id(t, t.len());
    assert(t.take(t.len() as int) =~= t);
}

proof fn lemma_clean_prefix_id(t: Seq<char>, n: nat)
    requires
        t.len() <= TAG_MAX,
        forall|i: int| 0 <= i < t.len() ==> is_lower_alnum(#[trigger] t[i]),
        n <= t.len(),
    ensures
        clean_prefix(t, n) == t.take(n as int),
    decreases n,
{
    if n == 0 {
        assert(clean_prefix(t, n) =~= t.take(0));
    } else {
        lemma_clean_prefix_id(t, (n - 1) as nat);
        assert(is_lower_alnum(t[n - 1]));
        assert(is_alnum(t[n - 1]) && lower_char(t[n - 1]) == t[n - 1]);
        assert(clean_prefix(t, n) =~= t.take(n as int));
    }
}

/// A title that carries no whitespace at either end.
pub open spec fn title_trimmed_ok(t: Seq<char>) -> bool {
    t.len() == 0 || (!is_space(t[0]) && !is_space(t.last()))
}

/// Normalizing an already-normalized title changes nothing.
pub proof fn lemma_clean_title_idempotent(t: Seq<char>)
    requires
        title_ok(t),
        title_trimmed_ok(t),
    ensures
        clean_title(t) == t,
{
    assert(trim_start(t) == t);
    assert(trim_end(t) == t);
    lemma_title_prefix_id(t, t.len());
    assert(t.take(t.len() as int) =~= t);
}

proof fn lemma_title_prefix_id(t: Seq<char>, n: nat)
    requires
        title_ok(t),
        n <= t.len(),
    ensures
        title_prefix(t, n) == t.take(n as int),
    decreases n,
{
    if n == 0 {
        assert(title_prefix(t, n) =~= t.take(0));
    } else {
        lemma_title_prefix_id(t, (n - 1) as nat);
        assert(title_prefix(t, n) =~= t.take(n as int));
    }
}

/// Cleaning a word is idempotent: cleaning its cleaned form changes
/// nothing.
pub proof fn lemma_clean_tag_idempotent_all(w: Seq<char>)
    ensures
        clean_tag(clean_tag(w)) == clean_tag(w),
{
    lemma_clean_prefix_ok(w, w.len());
    let c = clean_tag(w);
    lemma_clean_prefix_id(c, c.len());
    assert(c.take(c.len() as int) =~= c);
}

/// Normalizing a title is idempotent, for every title whose normalized form
/// does not itself end in whitespace (truncation at 50 characters can cut a
/// title just after an interior space, which a second pass would trim).
pub proof fn lemma_clean_title_idempotent_all(t: Seq<char>)
    requires
        title_trimmed_ok(clean_title(t)),
    ensures
        clean_title(clean_title(t)) == clean_title(t),
{
    lemma_title_prefix_ok(trimmed(t), trimmed(t).len());
    lemma_clean_title_idempotent(clean_title(t));
}

/// Deduplicating the stored tag list again changes nothing.
pub proof fn lemma_stored_tags_idempotent(s: Seq<char>)
    ensures
        dedup_tags_spec(stored_tags_spec(s)) == stored_tags_spec(s),
{
    lemma_stored_tags_wf(s);
    lemma_dedup_idempotent(stored_tags_spec(s));
}

/// The first `n` tags joined with single spaces.
pub open spec fn join_tags_spaced(tags: Seq<Seq<char>>, n: nat) -> Seq<char>
    decreases n,
{
    if n == 0 || n > tags.len() {
        Seq::empty()
    } else if n == 1 {
        tags[0]
    } else {
        join_tags_spaced(tags, (n - 1) as nat) + seq![' '] + tags[n - 1]
    }
}

/// Scanning looks only at the first `n` characters.
proof fn lemma_scan_prefix(s1: Seq<char>, s2: Seq<char>, n: nat)
    requires
        n <= s1.len(),
        n <= s2.len(),
        s1.take(n as int) == s2.take(n as int),
    ensures
        scan_tags(s1, n) == scan_tags(s2, n),
    decreases n,
{
    if n > 0 {
        assert(s1.take(n as int).take(n - 1) =~= s1.take(n - 1));
        assert(s2.take(n as int).take(n - 1) =~= s2.take(n - 1));
        lemma_scan_prefix(s1, s2, (n - 1) as nat);
        assert(s1[n - 1] == s1.take(n as int)[n - 1]);
        assert(s2[n - 1] == s2.take(n as int)[n - 1]);
    }
}

/// Scanning a space-free stretch only extends the word being collected.
proof fn lemma_scan_word(s: Seq<char>, start: nat, end: nat)
    requires
        start <= end,
        end <= s.len(),
        forall|j: int| start <= j < end ==> !is_space(#[trigger] s[j]),
    ensures
        scan_tags(s, end).0 == scan_tags(s, start).0,
        scan_tags(s, end).1 == scan_tags(s, start).1 + s.subrange(start as int, end as int),
    decreases end - start,
{
    if end == start {
        assert(scan_tags(s, start).1 + s.subrange(start as int, start as int) =~= scan_tags(
            s,
            start,
        ).1);
    } else {
        lemma_scan_word(s, start, (end - 1) as nat);
        assert(!is_space(s[end - 1]));
        assert(scan_tags(s, end).1 =~= scan_tags(s, start).1 + s.subrange(
            start as int,
            end as int,
        ));
    }
}

/// After scanning the join of `n` well-formed tags, the first `n - 1` are
/// emitted and the last is the word still being collected.
proof fn lemma_scan_join(tags: Seq<Seq<char>>, n: nat)
    requires
        1 <= n <= tags.len(),
        forall|i: int| 0 <= i < tags.len() ==> tag_ok(#[trigger] tags[i]),
    ensures
        scan_tags(join_tags_spaced(tags, n), join_tags_spaced(tags, n).len()) == (
        tags.take(n - 1), tags[n - 1]),
    decreases n,
{
    let s = join_tags_spaced(tags, n);
    assert forall|i: int, j: int|
        0 <= i < tags.len() && 0 <= j < tags[i].len() implies !is_space(#[trigger] tags[i][j]) by {
        assert(is_lower_alnum(tags[i][j]));
    }
    if n == 1 {
        assert(s == tags[0]);
        lemma_scan_word(s, 0, s.len());
        assert(scan_tags(s, 0) == (Seq::<Seq<char>>::empty(), Seq::<char>::empty()));
        assert(s.subrange(0, s.len() as int) =~= s);
        assert(Seq::<char>::empty() + s =~= s);
        assert(tags.take(0) =~= Seq::<Seq<char>>::empty());
    } else {
        let prev = join_tags_spaced(tags, (n - 1) as nat);
        assert(s == prev + seq![' '] + tags[n - 1]);
        lemma_scan_join(tags, (n - 1) as nat);
        assert(s.take(prev.len() as int) =~= prev.take(prev.len() as int));
        lemma_scan_prefix(s, prev, prev.len());
        assert(prev.take(prev.len() as int) =~= prev);
        assert(scan_tags(s, prev.len()) == (tags.take(n - 2), tags[n - 2]));
        // One space finishes the collected word.
        let after_space = (prev.len() + 1) as nat;
        assert(s[prev.len() as int] == ' ');
        lemma_clean_tag_idempotent(tags[n - 2]);
        assert(emit_tag(tags[n - 2]) =~= seq![tags[n - 2]]);
        assert(scan_tags(s, after_space).0 =~= tags.take(n - 2) + seq![tags[n - 2]]);
        assert(tags.take(n - 2) + seq![tags[n - 2]] =~= tags.take(n - 1));
        assert(scan_tags(s, after_space).1 =~= Seq::<char>::empty());
        // The rest of the string is the last tag, space-free.
        assert forall|j: int| after_space <= j < s.len() implies !is_space(#[trigger] s[j]) by {
            assert(s[j] == tags[n - 1][j - after_space]);
        }
        lemma_scan_word(s, after_space, s.len());
        assert(s.subrange(after_space as int, s.len() as int) =~= tags[n - 1]);
        assert(Seq::<char>::empty() + tags[n - 1] =~= tags[n - 1]);
    }
}

/// Splitting and cleaning the space-joined form of a well-formed tag list
/// gives the list back.
pub proof fn lemma_fix_tags_of_join(tags: Seq<Seq<char>>)
    requires
        forall|i: int| 0 <= i < tags.len() ==> tag_ok(#[trigger] tags[i]),
    ensures
        fix_tags_spec(join_tags_spaced(tags, tags.len())) == tags,
    decreases tags.len(),
{
    if tags.len() == 0 {
        assert(fix_tags_spec(Seq::empty()) =~= Seq::<Seq<char>>::empty());
    } else {
        lemma_scan_join(tags, tags.len());
        let s = join_tags_spaced(tags, tags.len());
        lemma_clean_tag_idempotent(tags[tags.len() - 1]);
        assert(emit_tag(tags[tags.len() - 1]) =~= seq![tags[tags.len() - 1]]);
        assert(fix_tags_spec(s) =~= tags.take(tags.len() - 1) + seq![tags[tags.len() - 1]]);
        assert(tags.take(tags.len() - 1) + seq![tags[tags.len() - 1]] =~= tags);
    }
}

/// Tag normalization is idempotent: normalizing the space-joined stored tag
/// list gives the stored list back unchanged.
pub proof fn lemma_stored_tags_round_trip(s: Seq<char>)
    ensures
        stored_tags_spec(join_tags_spaced(stored_tags_spec(s), stored_tags_spec(s).len()))
            == stored_tags_spec(s),
{
    let stored = stored_tags_spec(s);
    lemma_stored_tags_wf(s);
    lemma_fix_tags_of_join(stored);
    lemma_dedup_idempotent(stored);
}

/// Deduplicating a list that already has no duplicates and at most 15
/// entries changes nothing.
pub proof fn lemma_dedup_idempotent(tags: Seq<Seq<char>>)
    requires
        tags.no_duplicates(),
        tags.len() <= TAG_MAX,
    ensures
        dedup_tags_spec(tags) == tags,
{
    lemma_dedup_prefix_id(tags, tags.len());
    assert(tags.take(tags.len() as int) =~= tags);
}

proof fn lemma_dedup_prefix_id(tags: Seq<Seq<char>>, n: nat)
    requires
        tags.no_duplicates(),
        tags.len() <= TAG_MAX,
        n <= tags.len(),
    ensures
        dedup_prefix(tags, n) == tags.take(n as int),
    decreases n,
{
    if n == 0 {
        assert(dedup_prefix(tags, n) =~= tags.take(0));
    } else {
        lemma_dedup_prefix_id(tags, (n - 1) as nat);
        let prev = dedup_prefix(tags, (n - 1) as nat);
        assert(!prev.contains(tags[n - 1])) by {
            if prev.contains(tags[n - 1]) {
                let k = choose|k: int| 0 <= k < n - 1 && #[trigger] tags.take(n - 1)[k] == tags[n - 1];
                assert(tags[k] == tags[n - 1]);
            }
        }
        assert(dedup_prefix(tags, n) =~= tags.take(n as int));
    }
}

} // verus!
