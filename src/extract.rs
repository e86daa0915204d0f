//! Preparation of one analysis request and interpretation of its reply.
//!
//! The page body is cut to a fixed number of characters and embedded, with
//! the target address, in a fixed instruction. The reply's text is cleaned
//! of surrounding whitespace and code-fence markers before it is parsed; a
//! reply that does not parse counts as "no records", while a failure of the
//! call itself stays an error.
use vstd::prelude::*;
use vstd::string::StrSliceExecFns;
use vstd::string::StringExecFns;
use crate::types::Hackathon;

verus! {

/// Opening fence with a language tag.
pub const FENCE_JSON: &'static str = "```json";

/// Bare fence marker.
pub const FENCE: &'static str = "```";

/// Reply text used when the reply carries no message text.
pub const EMPTY_ARRAY: &'static str = "[]";

pub const PROMPT_OPENING: &'static str =
    "You are a hackathon finder. Given HTML from the page \"";

pub const PROMPT_FIELDS: &'static str = "\", extract any hackathons mentioned.\n\nFor each hackathon found, respond with a JSON array. Each object must have exactly these fields:\n- \"name\": hackathon name\n- \"url\": most specific URL for the hackathon (use \"";

pub const PROMPT_CLOSING: &'static str = "\" if no better link found)\n- \"dates\": date or date range as a string (e.g. \"March 15\u{2013}17, 2025\"), or \"Unknown\" if not found\n- \"summary\": one sentence describing the hackathon\n\nIf there are no hackathons on this page, respond with an empty array: []\nRespond with ONLY the JSON array, no other text.\n\nHTML:\n";

/// Whether `char::is_whitespace` holds of a character outside ASCII.
pub uninterp spec fn unicode_white_space(c: char) -> bool;

/// Whether `char::is_whitespace` holds of `c` (Unicode White_Space): among
/// ASCII characters, tab, line feed, vertical tab, form feed, carriage
/// return and space.
pub open spec fn white_space(c: char) -> bool {
    if (c as u32) < 128 {
        c == ' ' || ('\t' <= c && c <= '\r')
    } else {
        unicode_white_space(c)
    }
}

/// Relies on `char::is_whitespace`: the Unicode White_Space property.
#[verifier::external_body]
pub(crate) fn is_white_space(c: char) -> (r: bool)
    ensures
        r == white_space(c),
        (c as u32) >= 128 ==> r == unicode_white_space(c),
{
    c.is_whitespace()
}

/// The first `limit` characters of `s`, or `s` itself when it is no longer.
pub open spec fn truncated(s: Seq<char>, limit: nat) -> Seq<char> {
    if s.len() <= limit {
        s
    } else {
        s.take(limit as int)
    }
}

pub open spec fn trim_start(s: Seq<char>) -> Seq<char>
    decreases s.len(),
{
    if s.len() > 0 && white_space(s[0]) {
        trim_start(s.skip(1))
    } else {
        s
    }
}

pub open spec fn trim_end(s: Seq<char>) -> Seq<char>
    decreases s.len(),
{
    if s.len() > 0 && white_space(s.last()) {
        trim_end(s.drop_last())
    } else {
        s
    }
}

/// `s` without leading and trailing white space, as `str::trim` gives it.
pub open spec fn trim(s: Seq<char>) -> Seq<char> {
    trim_end(trim_start(s))
}

/// `s` with every leading repetition of `p` removed, as
/// `str::trim_start_matches` gives it.
pub open spec fn strip_prefixes(s: Seq<char>, p: Seq<char>) -> Seq<char>
    decreases s.len(),
{
    if 0 < p.len() <= s.len() && s.take(p.len() as int) == p {
        strip_prefixes(s.skip(p.len() as int), p)
    } else {
        s
    }
}

/// `s` with every trailing repetition of `p` removed, as
/// `str::trim_end_matches` gives it.
pub open spec fn strip_suffixes(s: Seq<char>, p: Seq<char>) -> Seq<char>
    decreases s.len(),
{
    if 0 < p.len() <= s.len() && s.skip(s.len() - p.len()) == p {
        strip_suffixes(s.take(s.len() - p.len()), p)
    } else {
        s
    }
}

/// The reply text made ready for parsing: trimmed, opening fences (with or
/// without the language tag) and closing fences removed, trimmed again.
pub open spec fn cleaned(s: Seq<char>) -> Seq<char> {
    trim(strip_suffixes(strip_prefixes(strip_prefixes(trim(s), FENCE_JSON@), FENCE@), FENCE@))
}

/// The instruction sent for the page at `url` with body `body`.
pub open spec fn prompt_text(url: Seq<char>, body: Seq<char>) -> Seq<char> {
    PROMPT_OPENING@ + url + PROMPT_FIELDS@ + url + PROMPT_CLOSING@ + body
}

/// The first `limit` characters of `s`; all of `s` when it is no longer.
pub fn truncate_chars(s: &str, limit: usize) -> (r: String)
    ensures
        r@ == truncated(s@, limit as nat),
{
    let n = s.unicode_len();
    if n <= limit {
        s.to_owned()
    } else {
        s.substring_char(0, limit).to_owned()
    }
}

/// The instruction for the page at `url`, with its body cut to `limit`
/// characters.
pub fn build_prompt(url: &str, html: &str, limit: usize) -> (r: String)
    ensures
        r@ == prompt_text(url@, truncated(html@, limit as nat)),
{
    let body = truncate_chars(html, limit);
    let mut r = String::from_str(PROMPT_OPENING);
    r.append(url);
    r.append(PROMPT_FIELDS);
    r.append(url);
    r.append(PROMPT_CLOSING);
    r.append(body.as_str());
    r
}

/// The value of the authorization header for `api_key`.
pub fn bearer_header(api_key: &str) -> (r: String)
    ensures
        r@ == "Bearer "@ + api_key@,
{
    let mut r = String::from_str("Bearer ");
    r.append(api_key);
    r
}

/// Index of the first character in `s@[lo..hi]` that is not white space
/// (`hi` when there is none).
pub(crate) fn skip_white_start(s: &str, lo: usize, hi: usize) -> (r: usize)
    requires
        lo <= hi <= s@.len(),
    ensures
        lo <= r <= hi,
        s@.subrange(r as int, hi as int) == trim_start(s@.subrange(lo as int, hi as int)),
{
    let mut i = lo;
    while i < hi && is_white_space(s.get_char(i))
        invariant
            lo <= i <= hi <= s@.len(),
            trim_start(s@.subrange(i as int, hi as int)) == trim_start(
                s@.subrange(lo as int, hi as int),
            ),
        decreases hi - i,
    {
        assert(s@.subrange(i as int, hi as int).skip(1) =~= s@.subrange(i + 1, hi as int));
        i += 1;
    }
    proof {
        lemma_trim_start_stops(s@.subrange(i as int, hi as int));
    }
    i
}

proof fn lemma_trim_start_stops(s: Seq<char>)
    requires
        s.len() == 0 || !white_space(s[0]),
    ensures
        trim_start(s) == s,
{
}

/// End of `s@[lo..hi]` once trailing white space is removed.
pub(crate) fn skip_white_end(s: &str, lo: usize, hi: usize) -> (r: usize)
    requires
        lo <= hi <= s@.len(),
    ensures
        lo <= r <= hi,
        s@.subrange(lo as int, r as int) == trim_end(s@.subrange(lo as int, hi as int)),
{
    let mut j = hi;
    while j > lo && is_white_space(s.get_char(j - 1))
        invariant
            lo <= j <= hi <= s@.len(),
            trim_end(s@.subrange(lo as int, j as int)) == trim_end(
                s@.subrange(lo as int, hi as int),
            ),
        decreases j - lo,
    {
        assert(s@.subrange(lo as int, j as int).drop_last() =~= s@.subrange(lo as int, j - 1));
        j -= 1;
    }
    j
}

/// Whether `p` occurs in `s` at character index `at`.
pub(crate) fn matches_at(s: &str, at: usize, p: &str, plen: usize) -> (r: bool)
    requires
        plen == p@.len(),
        at + plen <= s@.len(),
        at + plen <= usize::MAX,
    ensures
        r == (s@.subrange(at as int, at + plen) == p@),
{
    let mut k: usize = 0;
    while k < plen
        invariant
            k <= plen == p@.len(),
            at + plen <= s@.len(),
            at + plen <= usize::MAX,
            forall|m: int| 0 <= m < k ==> s@[at + m] == p@[m],
        decreases plen - k,
    {
        if s.get_char(at + k) != p.get_char(k) {
            assert(s@.subrange(at as int, at + plen)[k as int] != p@[k as int]);
            return false;
        }
        k += 1;
    }
    assert(s@.subrange(at as int, at + plen) =~= p@);
    true
}

/// Start of `s@[lo..hi]` once every leading repetition of `p` is removed.
fn skip_prefixes(s: &str, lo: usize, hi: usize, p: &str) -> (r: usize)
    requires
        lo <= hi <= s@.len(),
    ensures
        lo <= r <= hi,
        s@.subrange(r as int, hi as int) == strip_prefixes(s@.subrange(lo as int, hi as int), p@),
{
    let plen = p.unicode_len();
    if plen == 0 {
        return lo;
    }
    let mut i = lo;
    while plen <= hi - i && matches_at(s, i, p, plen)
        invariant
            lo <= i <= hi <= s@.len(),
            plen == p@.len() > 0,
            strip_prefixes(s@.subrange(i as int, hi as int), p@) == strip_prefixes(
                s@.subrange(lo as int, hi as int),
                p@,
            ),
        decreases hi - i,
    {
        assert(s@.subrange(i as int, hi as int).take(plen as int) =~= s@.subrange(
            i as int,
            i + plen,
        ));
        assert(s@.subrange(i as int, hi as int).skip(plen as int) =~= s@.subrange(
            i + plen,
            hi as int,
        ));
        i += plen;
    }
    if plen <= hi - i {
        assert(s@.subrange(i as int, hi as int).take(plen as int) =~= s@.subrange(
            i as int,
            i + plen,
        ));
    }
    i
}

/// End of `s@[lo..hi]` once every trailing repetition of `p` is removed.
fn skip_suffixes(s: &str, lo: usize, hi: usize, p: &str) -> (r: usize)
    requires
        lo <= hi <= s@.len(),
    ensures
        lo <= r <= hi,
        s@.subrange(lo as int, r as int) == strip_suffixes(s@.subrange(lo as int, hi as int), p@),
{
    let plen = p.unicode_len();
    if plen == 0 {
        return hi;
    }
    let mut j = hi;
    while plen <= j - lo && matches_at(s, j - plen, p, plen)
        invariant
            lo <= j <= hi <= s@.len(),
            plen == p@.len() > 0,
            strip_suffixes(s@.subrange(lo as int, j as int), p@) == strip_suffixes(
                s@.subrange(lo as int, hi as int),
                p@,
            ),
        decreases j - lo,
    {
        assert(s@.subrange(lo as int, j as int).skip(j - lo - plen) =~= s@.subrange(
            j - plen,
            j as int,
        ));
        assert(s@.subrange(lo as int, j as int).take(j - lo - plen) =~= s@.subrange(
            lo as int,
            j - plen,
        ));
        j -= plen;
    }
    if plen <= j - lo {
        assert(s@.subrange(lo as int, j as int).skip(j - lo - plen) =~= s@.subrange(
            j - plen,
            j as int,
        ));
    }
    j
}

/// The reply's text made ready for parsing: `cleaned` of the message text,
/// or an empty array when the reply carried none.
pub fn clean_reply(content: Option<&str>) -> (r: String)
    ensures
        match content {
            Some(t) => r@ == cleaned(t@),
            None => r@ == cleaned(EMPTY_ARRAY@),
        },
{
    let text = match content {
        Some(t) => t,
        None => EMPTY_ARRAY,
    };
    let n = text.unicode_len();
    assert(text@.subrange(0, n as int) =~= text@);
    let lo = skip_white_start(text, 0, n);
    let hi = skip_white_end(text, lo, n);
    let lo = skip_prefixes(text, lo, hi, FENCE_JSON);
    let lo = skip_prefixes(text, lo, hi, FENCE);
    let hi = skip_suffixes(text, lo, hi, FENCE);
    let lo = skip_white_start(text, lo, hi);
    let hi = skip_white_end(text, lo, hi);
    text.substring_char(lo, hi).to_owned()
}

pub open spec fn all_white(s: Seq<char>) -> bool {
    forall|i: int| 0 <= i < s.len() ==> white_space(#[trigger] s[i])
}

proof fn lemma_trim_start_skips_white(a: Seq<char>, x: Seq<char>)
    requires
        all_white(a),
    ensures
        trim_start(a + x) == trim_start(x),
    decreases a.len(),
{
    if a.len() > 0 {
        assert((a + x)[0] == a[0]);
        assert((a + x).skip(1) =~= a.skip(1) + x);
        assert(all_white(a.skip(1))) by {
            assert forall|i: int| 0 <= i < a.skip(1).len() implies white_space(
                #[trigger] a.skip(1)[i],
            ) by {
                assert(a.skip(1)[i] == a[i + 1]);
            }
        }
        lemma_trim_start_skips_white(a.skip(1), x);
    } else {
        assert(a + x =~= x);
    }
}

proof fn lemma_trim_end_skips_white(x: Seq<char>, b: Seq<char>)
    requires
        all_white(b),
    ensures
        trim_end(x + b) == trim_end(x),
    decreases b.len(),
{
    if b.len() > 0 {
        assert((x + b).last() == b.last());
        assert((x + b).drop_last() =~= x + b.drop_last());
        assert(all_white(b.drop_last())) by {
            assert forall|i: int| 0 <= i < b.drop_last().len() implies white_space(
                #[trigger] b.drop_last()[i],
            ) by {
                assert(b.drop_last()[i] == b[i]);
            }
        }
        lemma_trim_end_skips_white(x, b.drop_last());
    } else {
        assert(x + b =~= x);
    }
}

/// A reply wrapped in an opening "```json" fence and a closing "```" fence
/// is read as the text between them: the fences and the white space inside
/// them come off, and content `t` that neither starts nor ends with white
/// space or a backtick comes through unchanged, fenced or not.
pub proof fn lemma_fenced_reply_unwraps(a: Seq<char>, t: Seq<char>, b: Seq<char>)
    requires
        all_white(a),
        all_white(b),
        t.len() > 0,
        !white_space(t[0]),
        !white_space(t.last()),
        t[0] != '`',
        t.last() != '`',
    ensures
        cleaned(FENCE_JSON@ + (a + t + b) + FENCE@) == t,
        cleaned(a + t + b) == t,
{
    reveal_strlit("```json");
    reveal_strlit("```");
    let fj = FENCE_JSON@;
    let f = FENCE@;
    let s = a + t + b;
    let sf = s + f;
    let w = fj + s + f;
    // white space is never a backtick
    assert(!white_space('`'));
    assert(s.len() > 0 && s[0] != '`') by {
        if a.len() > 0 {
            assert(s[0] == a[0]);
            assert(white_space(a[0]));
        } else {
            assert(s[0] == t[0]);
        }
    }
    assert(s.last() != '`') by {
        if b.len() > 0 {
            assert(s.last() == b.last());
            assert(white_space(b[b.len() - 1]));
        } else {
            assert(s.last() == t.last());
        }
    }
    // the text between the fences, trimmed, is `t`
    lemma_trim_start_skips_white(a, t + b);
    assert(a + (t + b) =~= s);
    assert(trim_start(t + b) == t + b) by {
        assert((t + b)[0] == t[0]);
    }
    lemma_trim_end_skips_white(t, b);
    assert(trim_end(t) == t);
    assert(trim(s) == t);
    // the fences come off
    assert(w[0] == '`');
    assert(w.last() == '`');
    assert(trim_start(w) == w);
    assert(trim_end(w) == w);
    assert(w.take(7) =~= fj);
    assert(w.skip(7) =~= sf);
    if sf.len() >= 7 {
        assert(sf.take(7)[0] != fj[0]);
    }
    assert(strip_prefixes(sf, fj) == sf);
    assert(sf.take(3)[0] != f[0]);
    assert(strip_prefixes(sf, f) == sf);
    assert(sf.skip(sf.len() - 3) =~= f);
    assert(sf.take(sf.len() - 3) =~= s);
    if s.len() >= 3 {
        assert(s.skip(s.len() - 3).last() != f.last());
    }
    assert(strip_suffixes(s, f) == s);
    assert(strip_suffixes(sf, f) == s);
    // unfenced content of the same shape passes through as well
    if t.len() >= 7 {
        assert(t.take(7)[0] != fj[0]);
    }
    if t.len() >= 3 {
        assert(t.take(3)[0] != f[0]);
        assert(t.skip(t.len() - 3).last() != f.last());
    }
    assert(strip_prefixes(t, fj) == t);
    assert(strip_prefixes(t, f) == t);
    assert(strip_suffixes(t, f) == t);
    assert(trim_start(t) == t);
}

/// The outcome of one analysis call. `reply` is `Err` when the call itself
/// failed (credentials, transport, timeout), `Ok(None)` when the reply's
/// text did not parse as a list of records, and `Ok(Some(records))`
/// otherwise. A reply that does not parse yields no records and no error.
pub fn extraction_outcome(reply: Result<Option<Vec<Hackathon>>, String>) -> (r: Result<
    Vec<Hackathon>,
    String,
>)
    ensures
        match reply {
            Err(e) => r == Err::<Vec<Hackathon>, String>(e),
            Ok(None) => r is Ok && r->Ok_0@.len() == 0,
            Ok(Some(v)) => r == Ok::<Vec<Hackathon>, String>(v),
        },
{
    match reply {
        Err(e) => Err(e),
        Ok(None) => Ok(Vec::new()),
        Ok(Some(v)) => Ok(v),
    }
}

} // verus!
