//! When each DNS entry was first added and last changed, read from the
//! patch history (`git log -p`) of the record file.
use vstd::prelude::*;
use vstd::string::StrSliceExecFns;
use vstd::string::StringExecFns;
use vstd::utf8::encode_utf8;
use crate::extract::{is_white_space, matches_at, skip_white_end, skip_white_start, trim, white_space};

verus! {

/// First and last change of one entry, as timestamps.
#[derive(Debug, Clone)]
pub struct GitInfo {
    /// Timestamp of the first commit that touched the entry.
    pub first_added: Option<String>,
    /// Timestamp of the last commit that touched the entry.
    pub last_modified: Option<String>,
}

/// Whether `char::is_alphanumeric` holds of a character outside ASCII.
pub uninterp spec fn unicode_alphanumeric(c: char) -> bool;

/// Whether `char::is_alphanumeric` holds of `c` (Unicode Alphabetic or
/// Numeric): among ASCII characters, the letters and the digits.
pub open spec fn alphanumeric(c: char) -> bool {
    if (c as u32) < 128 {
        ('a' <= c && c <= 'z') || ('A' <= c && c <= 'Z') || ('0' <= c && c <= '9')
    } else {
        unicode_alphanumeric(c)
    }
}

/// Relies on `char::is_alphanumeric`: the Unicode Alphabetic or Numeric
/// property.
#[verifier::external_body]
fn is_alphanumeric(c: char) -> (r: bool)
    ensures
        r == alphanumeric(c),
        (c as u32) >= 128 ==> r == unicode_alphanumeric(c),
{
    c.is_alphanumeric()
}

/// A character allowed in an entry name.
pub open spec fn key_char(c: char) -> bool {
    alphanumeric(c) || c == '-' || c == '_'
}

/// `i` is the position of the first colon of `s`.
pub open spec fn is_first_colon(s: Seq<char>, i: int) -> bool {
    &&& 0 <= i < s.len()
    &&& s[i] == ':'
    &&& forall|j: int| 0 <= j < i ==> s[j] != ':'
}

/// The entry name a record-file line declares: the trimmed text before the
/// first colon of a line that does not start with a space, when it is
/// non-empty and made of letters, digits, '-' and '_'.
pub open spec fn yaml_key(line: Seq<char>) -> Option<Seq<char>> {
    if line.len() == 0 || line[0] == ' ' || !(exists|i: int| is_first_colon(line, i)) {
        None
    } else {
        let i = choose|i: int| is_first_colon(line, i);
        let key = trim(line.take(i));
        if key.len() > 0 && (forall|j: int| 0 <= j < key.len() ==> key_char(#[trigger] key[j])) {
            Some(key)
        } else {
            None
        }
    }
}

/// Extracts the entry name declared by a line of the record file, if the
/// line is a top-level key.
pub fn parse_subdomain_from_yaml_line(line: &str) -> (r: Option<String>)
    ensures
        match yaml_key(line@) {
            Some(k) => r is Some && r->Some_0@ == k,
            None => r is None,
        },
{
    let n = line.unicode_len();
    if n == 0 || line.get_char(0) == ' ' {
        return None;
    }
    let mut i: usize = 0;
    while i < n && line.get_char(i) != ':'
        invariant
            i <= n == line@.len(),
            forall|j: int| 0 <= j < i ==> line@[j] != ':',
        decreases n - i,
    {
        i += 1;
    }
    if i == n {
        assert(!(exists|k: int| is_first_colon(line@, k)));
        return None;
    }
    assert(is_first_colon(line@, i as int));
    let ghost c = choose|k: int| is_first_colon(line@, k);
    assert(c == i) by {
        if c < i {
            assert(line@[c] == ':');
        }
        if i < c {
            assert(line@[i as int] == ':');
        }
    }
    assert(line@.subrange(0, i as int) =~= line@.take(i as int));
    let lo = skip_white_start(line, 0, i);
    let hi = skip_white_end(line, lo, i);
    let ghost key_view = line@.subrange(lo as int, hi as int);
    assert(key_view == trim(line@.take(i as int)));
    assert(key_view == trim(line@.take(c)));
    if lo == hi {
        assert(yaml_key(line@) is None);
        return None;
    }
    let mut k = lo;
    while k < hi
        invariant
            lo <= k <= hi <= line@.len(),
            key_view == line@.subrange(lo as int, hi as int),
            key_view == trim(line@.take(c)),
            key_view.len() > 0,
            c == choose|k: int| is_first_colon(line@, k),
            is_first_colon(line@, c),
            line@.len() > 0 && line@[0] != ' ',
            forall|j: int| lo <= j < k ==> key_char(#[trigger] line@[j]),
        decreases hi - k,
    {
        let ch = line.get_char(k);
        if !(is_alphanumeric(ch) || ch == '-' || ch == '_') {
            assert(key_view[k - lo] == ch);
            assert(!key_char(key_view[k - lo]));
            assert(!(forall|j: int|
                0 <= j < key_view.len() ==> key_char(#[trigger] key_view[j])));
            assert(yaml_key(line@) is None);
            return None;
        }
        k += 1;
    }
    let key = line.substring_char(lo, hi);
    assert forall|j: int| 0 <= j < key@.len() implies key_char(#[trigger] key@[j]) by {
        assert(key@[j] == line@[lo + j]);
    }
    assert(yaml_key(line@) == Some(key_view));
    Some(key.to_owned())
}

/// What `DateTime::parse_from_rfc2822` followed by `to_rfc3339_opts` (whole
/// seconds, `Z` for UTC) gives for `s`: `None` where `s` does not parse.
pub uninterp spec fn rfc2822_as_rfc3339(s: Seq<char>) -> Option<Seq<char>>;

/// Relies on chrono's `DateTime::parse_from_rfc2822` and
/// `DateTime::to_rfc3339_opts`: the result depends on the text alone.
#[verifier::external_body]
fn reformat_rfc2822(s: &str) -> (r: Option<String>)
    ensures
        match rfc2822_as_rfc3339(s@) {
            Some(t) => r is Some && r->Some_0@ == t,
            None => r is None,
        },
{
    chrono::DateTime::parse_from_rfc2822(s).ok().map(
        |dt| dt.to_rfc3339_opts(chrono::SecondsFormat::Secs, true),
    )
}

/// Relies on `String::push`: appends one character.
#[verifier::external_body]
fn push_char(s: &mut String, c: char)
    ensures
        final(s)@ == old(s)@.push(c),
{
    s.push(c)
}

/// `s` with each pair of spaces, taken from the left without overlap,
/// replaced by one space (as `str::replace("  ", " ")` gives it).
pub open spec fn collapse_spaces(s: Seq<char>) -> Seq<char>
    decreases s.len(),
{
    if s.len() >= 2 && s[0] == ' ' && s[1] == ' ' {
        seq![' '] + collapse_spaces(s.skip(2))
    } else if s.len() > 0 {
        seq![s[0]] + collapse_spaces(s.skip(1))
    } else {
        seq![]
    }
}

/// The maximal runs of non-white-space characters of `s`, in order (as
/// `str::split_whitespace` gives them).
pub open spec fn words(s: Seq<char>) -> Seq<Seq<char>>
    decreases s.len(),
{
    if s.len() == 0 {
        seq![]
    } else if white_space(s.last()) {
        words(s.drop_last())
    } else if s.len() >= 2 && !white_space(s[s.len() - 2]) {
        let w = words(s.drop_last());
        w.update(w.len() - 1, w.last().push(s.last()))
    } else {
        words(s.drop_last()).push(seq![s.last()])
    }
}

/// git's "DoW Mon DD HH:MM:SS YYYY [+ZZZZ]" rearranged into RFC 2822 order
/// "DoW, DD Mon YYYY HH:MM:SS +ZZZZ"; the zone defaults to +0000.
pub open spec fn rfc2822_candidate(w: Seq<Seq<char>>) -> Seq<char> {
    let zone = if w.len() > 5 {
        w[5]
    } else {
        "+0000"@
    };
    w[0] + ", "@ + w[2] + " "@ + w[1] + " "@ + w[4] + " "@ + w[3] + " "@ + zone
}

/// The ISO 8601 form of a date as git prints it: text that already looks
/// like ISO 8601 (ten bytes or more, a '-' as fifth character) is kept; else
/// double spaces are collapsed, the text trimmed and read as RFC 2822, or,
/// failing that, rearranged from git's default layout and read again.
pub open spec fn iso_date(s: Seq<char>) -> Option<Seq<char>> {
    if encode_utf8(s).len() >= 10 && s.len() > 4 && s[4] == '-' {
        Some(s)
    } else {
        let c = trim(collapse_spaces(s));
        match rfc2822_as_rfc3339(c) {
            Some(t) => Some(t),
            None => {
                let w = words(c);
                if w.len() >= 5 {
                    rfc2822_as_rfc3339(rfc2822_candidate(w))
                } else {
                    None
                }
            },
        }
    }
}

/// `s` with double spaces collapsed.
fn collapse_double_spaces(s: &str) -> (r: String)
    ensures
        r@ == collapse_spaces(s@),
{
    let n = s.unicode_len();
    let mut r = String::new();
    let mut i: usize = 0;
    assert(s@.skip(0) =~= s@);
    assert(r@ + collapse_spaces(s@) =~= collapse_spaces(s@));
    while i < n
        invariant
            i <= n == s@.len(),
            r@ + collapse_spaces(s@.skip(i as int)) == collapse_spaces(s@),
        decreases n - i,
    {
        let c = s.get_char(i);
        let ghost rest = s@.skip(i as int);
        if i + 1 < n && c == ' ' && s.get_char(i + 1) == ' ' {
            assert(rest.skip(2) =~= s@.skip(i + 2));
            push_char(&mut r, ' ');
            proof {
                assert(r@ + collapse_spaces(s@.skip(i + 2)) =~= (r@.drop_last() + (seq![' ']
                    + collapse_spaces(rest.skip(2)))));
            }
            i += 2;
        } else {
            assert(rest.skip(1) =~= s@.skip(i + 1));
            push_char(&mut r, c);
            proof {
                assert(r@ + collapse_spaces(s@.skip(i + 1)) =~= (r@.drop_last() + (seq![c]
                    + collapse_spaces(rest.skip(1)))));
            }
            i += 1;
        }
    }
    assert(collapse_spaces(s@.skip(n as int)) =~= seq![]);
    assert(r@ + seq![] =~= r@);
    r
}

/// The words of `s`, split at white space.
fn split_words(s: &str) -> (r: Vec<String>)
    ensures
        r@.len() == words(s@).len(),
        forall|k: int| 0 <= k < r@.len() ==> (#[trigger] r@[k])@ == words(s@)[k],
{
    let n = s.unicode_len();
    let mut r: Vec<String> = Vec::new();
    let mut in_word = false;
    let mut i: usize = 0;
    while i < n
        invariant
            i <= n == s@.len(),
            r@.len() == words(s@.take(i as int)).len(),
            forall|k: int| 0 <= k < r@.len() ==> (#[trigger] r@[k])@ == words(s@.take(i as int))[k],
            in_word == (i > 0 && !white_space(s@[i - 1])),
            in_word ==> r@.len() > 0,
        decreases n - i,
    {
        let c = s.get_char(i);
        let ghost t = s@.take(i + 1);
        assert(t.drop_last() =~= s@.take(i as int));
        assert(t.last() == c);
        if is_white_space(c) {
            in_word = false;
        } else if in_word {
            assert(t[t.len() - 2] == s@[i - 1]);
            let ghost w = words(s@.take(i as int));
            let mut last = r.pop().unwrap();
            push_char(&mut last, c);
            r.push(last);
            assert(words(t) == w.update(w.len() - 1, w.last().push(c)));
        } else {
            if i > 0 {
                assert(t[t.len() - 2] == s@[i - 1]);
            }
            let mut word = String::new();
            push_char(&mut word, c);
            assert(word@ =~= seq![c]);
            r.push(word);
            in_word = true;
        }
        i += 1;
    }
    assert(s@.take(n as int) =~= s@);
    r
}

/// Converts a date as git prints it to ISO 8601 (see `iso_date`).
pub fn format_date_to_iso8601(date_str: &str) -> (r: Result<String, String>)
    ensures
        match iso_date(date_str@) {
            Some(t) => r is Ok && r->Ok_0@ == t,
            None => r is Err && r->Err_0@ == "Could not parse date: "@ + date_str@,
        },
{
    let n = date_str.unicode_len();
    if date_str.as_bytes().len() >= 10 && n > 4 && date_str.get_char(4) == '-' {
        return Ok(date_str.to_owned());
    }
    let collapsed = collapse_double_spaces(date_str);
    let cs = collapsed.as_str();
    let m = cs.unicode_len();
    assert(cs@.subrange(0, m as int) =~= cs@);
    let lo = skip_white_start(cs, 0, m);
    let hi = skip_white_end(cs, lo, m);
    let cleaned = cs.substring_char(lo, hi);
    assert(cleaned@ == trim(collapse_spaces(date_str@)));
    if let Some(t) = reformat_rfc2822(cleaned) {
        return Ok(t);
    }
    let parts = split_words(cleaned);
    if parts.len() >= 5 {
        let mut candidate = parts[0].clone();
        candidate.append(", ");
        candidate.append(parts[2].as_str());
        candidate.append(" ");
        candidate.append(parts[1].as_str());
        candidate.append(" ");
        candidate.append(parts[4].as_str());
        candidate.append(" ");
        candidate.append(parts[3].as_str());
        candidate.append(" ");
        if parts.len() > 5 {
            candidate.append(parts[5].as_str());
        } else {
            candidate.append("+0000");
        }
        assert(candidate@ == rfc2822_candidate(words(cleaned@)));
        if let Some(t) = reformat_rfc2822(candidate.as_str()) {
            return Ok(t);
        }
    }
    let mut msg = String::from_str("Could not parse date: ");
    msg.append(date_str);
    Err(msg)
}

/// One history entry as values: name, first change, last change.
pub type EntryView = (Seq<char>, Option<Seq<char>>, Option<Seq<char>>);

pub open spec fn opt_view(o: Option<String>) -> Option<Seq<char>> {
    match o {
        Some(s) => Some(s@),
        None => None,
    }
}

pub open spec fn entry_view(e: (String, GitInfo)) -> EntryView {
    (e.0@, opt_view(e.1.first_added), opt_view(e.1.last_modified))
}

pub open spec fn history_view(h: Seq<(String, GitInfo)>) -> Seq<EntryView> {
    h.map_values(|e: (String, GitInfo)| entry_view(e))
}

/// No name occurs twice in a history.
pub open spec fn keys_unique(h: Seq<EntryView>) -> bool {
    forall|i: int, j: int| 0 <= i < h.len() && 0 <= j < h.len() && i != j ==> h[i].0 != h[j].0
}

pub open spec fn has_key(h: Seq<EntryView>, key: Seq<char>) -> bool {
    exists|i: int| 0 <= i < h.len() && h[i].0 == key
}

/// The history after a commit at `ts` changed `key`: a new entry starts
/// with `ts` as first and last change; a known entry keeps its first change
/// (or takes `ts` where it had none) and takes `ts` as last change.
pub open spec fn record_change(h: Seq<EntryView>, key: Seq<char>, ts: Seq<char>) -> Seq<
    EntryView,
> {
    if has_key(h, key) {
        let i = choose|i: int| 0 <= i < h.len() && h[i].0 == key;
        let first = if h[i].1 is Some {
            h[i].1
        } else {
            Some(ts)
        };
        h.update(i, (key, first, Some(ts)))
    } else {
        h.push((key, Some(ts), Some(ts)))
    }
}

pub open spec fn record_all(h: Seq<EntryView>, keys: Seq<Seq<char>>, ts: Seq<char>) -> Seq<
    EntryView,
>
    decreases keys.len(),
{
    if keys.len() == 0 {
        h
    } else {
        record_change(record_all(h, keys.drop_last(), ts), keys.last(), ts)
    }
}

/// Applies the names changed by one commit: only when its date was read.
pub open spec fn flush(h: Seq<EntryView>, pending: Seq<Seq<char>>, ts: Option<Seq<char>>) -> Seq<
    EntryView,
> {
    match ts {
        Some(t) => record_all(h, pending, t),
        None => h,
    }
}

pub open spec fn starts_with(s: Seq<char>, p: Seq<char>) -> bool {
    p.len() <= s.len() && s.take(p.len() as int) == p
}

pub open spec fn strip_cr(l: Seq<char>) -> Seq<char> {
    if l.len() > 0 && l.last() == '\r' {
        l.drop_last()
    } else {
        l
    }
}

pub open spec fn is_first_newline(s: Seq<char>, i: int) -> bool {
    &&& 0 <= i < s.len()
    &&& s[i] == '\n'
    &&& forall|j: int| 0 <= j < i ==> s[j] != '\n'
}

/// The lines of `s` as `str::lines` yields them: split at '\n', a '\r'
/// before the '\n' dropped, no empty line after a final '\n'.
pub open spec fn lines(s: Seq<char>) -> Seq<Seq<char>>
    decreases s.len(),
{
    if s.len() == 0 {
        seq![]
    } else if exists|i: int| is_first_newline(s, i) {
        let i = choose|i: int| is_first_newline(s, i);
        seq![strip_cr(s.take(i))] + lines(s.skip(i + 1))
    } else {
        seq![s]
    }
}

/// The name a patch line adds or removes, if it is an added or removed
/// top-level key (file headers "+++" and "---" excluded).
pub open spec fn changed_key(line: Seq<char>) -> Option<Seq<char>> {
    if line.len() > 0 && ((line[0] == '+' && !starts_with(line, "+++"@)) || (line[0] == '-'
        && !starts_with(line, "---"@))) {
        yaml_key(line.skip(1))
    } else {
        None
    }
}

pub open spec fn add_pending(p: Seq<Seq<char>>, key: Seq<char>) -> Seq<Seq<char>> {
    if p.contains(key) {
        p
    } else {
        p.push(key)
    }
}

/// Reading state: the current commit's date, the names it changed so far,
/// and the history built from the earlier commits.
pub type DiffState = (Option<Seq<char>>, Seq<Seq<char>>, Seq<EntryView>);

/// One line read: a "Date:" line closes the previous commit and opens a new
/// one; an added or removed key is noted for the current commit.
pub open spec fn line_step(st: DiffState, line: Seq<char>) -> DiffState {
    let st1 = if starts_with(line, "Date:"@) {
        (
            iso_date(trim(line.skip("Date:"@.len() as int))),
            Seq::<Seq<char>>::empty(),
            flush(st.2, st.1, st.0),
        )
    } else {
        st
    };
    match changed_key(line) {
        Some(k) => (st1.0, add_pending(st1.1, k), st1.2),
        None => st1,
    }
}

pub open spec fn run_lines(st: DiffState, ls: Seq<Seq<char>>) -> DiffState
    decreases ls.len(),
{
    if ls.len() == 0 {
        st
    } else {
        run_lines(line_step(st, ls[0]), ls.skip(1))
    }
}

/// The history `h` extended by the patch history `diff`.
pub open spec fn diff_history(h: Seq<EntryView>, diff: Seq<char>) -> Seq<EntryView> {
    let st = run_lines((None, Seq::<Seq<char>>::empty(), h), lines(diff));
    flush(st.2, st.1, st.0)
}

/// Copies an optional text.
fn clone_opt(o: &Option<String>) -> (r: Option<String>)
    ensures
        opt_view(r) == opt_view(*o),
{
    match o {
        Some(s) => Some(s.clone()),
        None => None,
    }
}

/// Records that a commit at `ts` changed `key`.
fn record_change_exec(history_map: &mut Vec<(String, GitInfo)>, key: &String, ts: &String)
    requires
        keys_unique(history_view(old(history_map)@)),
    ensures
        keys_unique(history_view(final(history_map)@)),
        history_view(final(history_map)@) == record_change(
            history_view(old(history_map)@),
            key@,
            ts@,
        ),
{
    let ghost h = history_view(history_map@);
    let mut i: usize = 0;
    while i < history_map.len()
        invariant
            i <= history_map@.len(),
            h == history_view(history_map@),
            history_map@ == old(history_map)@,
            keys_unique(h),
            forall|j: int| 0 <= j < i ==> h[j].0 != key@,
        decreases history_map@.len() - i,
    {
        assert(h[i as int] == entry_view(history_map@[i as int]));
        if history_map[i].0 == *key {
            assert(h[i as int].0 == key@);
            let ghost c = choose|c: int| 0 <= c < h.len() && h[c].0 == key@;
            assert(c == i);
            let first = match &history_map[i].1.first_added {
                Some(f) => Some(f.clone()),
                None => Some(ts.clone()),
            };
            let info = GitInfo { first_added: first, last_modified: Some(ts.clone()) };
            history_map.set(i, (key.clone(), info));
            assert(history_view(history_map@) =~= record_change(h, key@, ts@));
            assert forall|a: int| 0 <= a < h.len() implies history_view(history_map@)[a].0
                == h[a].0 by {
                assert(history_view(history_map@)[a] == entry_view(history_map@[a]));
            }
            let ghost nh = history_view(history_map@);
            assert forall|a: int, b: int|
                0 <= a < nh.len() && 0 <= b < nh.len() && a != b implies nh[a].0 != nh[b].0 by {
                assert(nh[a].0 == h[a].0);
                assert(nh[b].0 == h[b].0);
            }
            return;
        }
        i += 1;
    }
    assert(!has_key(h, key@));
    let info = GitInfo { first_added: Some(ts.clone()), last_modified: Some(ts.clone()) };
    history_map.push((key.clone(), info));
    assert(history_view(history_map@) =~= record_change(h, key@, ts@));
    let ghost nh = history_view(history_map@);
    assert(nh =~= h.push((key@, Some(ts@), Some(ts@))));
    assert forall|a: int, b: int|
        0 <= a < nh.len() && 0 <= b < nh.len() && a != b implies nh[a].0 != nh[b].0 by {
        if a < h.len() && b < h.len() {
            assert(nh[a] == h[a]);
            assert(nh[b] == h[b]);
        }
    }
}

/// Records that a commit at `ts` changed every name of `pending`.
fn record_all_exec(history_map: &mut Vec<(String, GitInfo)>, pending: &Vec<String>, ts: &String)
    requires
        keys_unique(history_view(old(history_map)@)),
    ensures
        keys_unique(history_view(final(history_map)@)),
        history_view(final(history_map)@) == record_all(
            history_view(old(history_map)@),
            pending@.map_values(|p: String| p@),
            ts@,
        ),
{
    let ghost h0 = history_view(history_map@);
    let ghost keys = pending@.map_values(|p: String| p@);
    let mut k: usize = 0;
    while k < pending.len()
        invariant
            k <= pending@.len(),
            keys == pending@.map_values(|p: String| p@),
            keys_unique(history_view(history_map@)),
            history_view(history_map@) == record_all(h0, keys.take(k as int), ts@),
        decreases pending@.len() - k,
    {
        record_change_exec(history_map, &pending[k], ts);
        assert(keys.take(k + 1).drop_last() =~= keys.take(k as int));
        k += 1;
    }
    assert(keys.take(pending@.len() as int) =~= keys);
}

/// Notes `key` among the names the current commit changed, once.
fn add_pending_exec(pending: &mut Vec<String>, key: String)
    ensures
        final(pending)@.map_values(|p: String| p@) == add_pending(
            old(pending)@.map_values(|p: String| p@),
            key@,
        ),
{
    let ghost p = old(pending)@.map_values(|p: String| p@);
    let mut i: usize = 0;
    while i < pending.len()
        invariant
            i <= pending@.len(),
            pending@ == old(pending)@,
            p == pending@.map_values(|p: String| p@),
            forall|j: int| 0 <= j < i ==> p[j] != key@,
        decreases pending@.len() - i,
    {
        if pending[i] == key {
            assert(p[i as int] == key@);
            assert(p.contains(key@));
            return;
        }
        i += 1;
    }
    assert(!p.contains(key@));
    pending.push(key);
    assert(pending@.map_values(|p: String| p@) =~= p.push(key@));
}

/// Applies the names of the commit being read, when its date is known.
fn flush_exec(history_map: &mut Vec<(String, GitInfo)>, pending: &Vec<String>, ts: &Option<
    String,
>)
    requires
        keys_unique(history_view(old(history_map)@)),
    ensures
        keys_unique(history_view(final(history_map)@)),
        history_view(final(history_map)@) == flush(
            history_view(old(history_map)@),
            pending@.map_values(|p: String| p@),
            opt_view(*ts),
        ),
{
    match ts {
        Some(t) => record_all_exec(history_map, pending, t),
        None => {},
    }
}

/// The name changed by a patch line, if any (see `changed_key`).
fn changed_key_exec(line: &str) -> (r: Option<String>)
    ensures
        opt_view(r) == changed_key(line@),
{
    let n = line.unicode_len();
    if n == 0 {
        return None;
    }
    let c = line.get_char(0);
    proof {
        reveal_strlit("+++");
        reveal_strlit("---");
    }
    let plus = c == '+' && !(n >= 3 && matches_at(line, 0, "+++", "+++".unicode_len()));
    let minus = c == '-' && !(n >= 3 && matches_at(line, 0, "---", "---".unicode_len()));
    proof {
        if n >= 3 {
            assert(line@.subrange(0, 3) =~= line@.take(3));
        }
    }
    if plus || minus {
        let rest = line.substring_char(1, n);
        assert(rest@ =~= line@.skip(1));
        parse_subdomain_from_yaml_line(rest)
    } else {
        None
    }
}

/// Reads one line of the patch history (see `line_step`).
fn read_line(
    line: &str,
    ts: &mut Option<String>,
    pending: &mut Vec<String>,
    history_map: &mut Vec<(String, GitInfo)>,
)
    requires
        keys_unique(history_view(old(history_map)@)),
    ensures
        keys_unique(history_view(final(history_map)@)),
        (
            opt_view(*final(ts)),
            final(pending)@.map_values(|p: String| p@),
            history_view(final(history_map)@),
        ) == line_step(
            (
                opt_view(*old(ts)),
                old(pending)@.map_values(|p: String| p@),
                history_view(old(history_map)@),
            ),
            line@,
        ),
{
        let ghost before: DiffState = (
            opt_view(*ts),
            pending@.map_values(|p: String| p@),
            history_view(history_map@),
        );
        let date_len = "Date:".unicode_len();
        let line_len = line.unicode_len();
        if date_len <= line_len && matches_at(line, 0, "Date:", date_len) {
            proof {
                assert(line@.subrange(0, date_len as int) =~= line@.take(date_len as int));
            }
            flush_exec(history_map, pending, ts);
            *pending = Vec::new();
            let lo = skip_white_start(line, date_len, line_len);
            let hi = skip_white_end(line, lo, line_len);
            let date = line.substring_char(lo, hi);
            assert(line@.subrange(date_len as int, line_len as int) =~= line@.skip(
                date_len as int,
            ));
            assert(date@ == trim(line@.skip("Date:"@.len() as int)));
            *ts = match format_date_to_iso8601(date) {
                Ok(t) => Some(t),
                Err(_) => None,
            };
            assert(pending@.map_values(|p: String| p@) =~= Seq::<Seq<char>>::empty());
        } else {
            proof {
                if date_len <= line_len {
                    assert(line@.subrange(0, date_len as int) =~= line@.take(date_len as int));
                }
            }
        }
        match changed_key_exec(line) {
            Some(k) => add_pending_exec(pending, k),
            None => {},
        }
        assert((opt_view(*ts), pending@.map_values(|p: String| p@), history_view(history_map@))
            == line_step(before, line@));
}

/// Reads the patch history `diff_content` (`git log -p` of the record
/// file) and records, for each name a commit added or removed, that commit's
/// date as its last change and, the first time, as its first change. A
/// commit whose date cannot be read changes nothing. Names keep the order in
/// which they were first recorded; the history holds each name once.
pub fn parse_git_diff(diff_content: &str, history_map: &mut Vec<(String, GitInfo)>)
    requires
        keys_unique(history_view(old(history_map)@)),
    ensures
        keys_unique(history_view(final(history_map)@)),
        history_view(final(history_map)@) == diff_history(
            history_view(old(history_map)@),
            diff_content@,
        ),
{
    let s = diff_content;
    let n = s.unicode_len();
    let ghost init: DiffState = (None, Seq::<Seq<char>>::empty(), history_view(history_map@));
    let mut ts: Option<String> = None;
    let mut pending: Vec<String> = Vec::new();
    let mut pos: usize = 0;
    assert(s@.skip(0) =~= s@);
    assert(pending@.map_values(|p: String| p@) =~= Seq::<Seq<char>>::empty());
    while pos < n
        invariant
            pos <= n == s@.len(),
            keys_unique(history_view(history_map@)),
            run_lines(
                (
                    opt_view(ts),
                    pending@.map_values(|p: String| p@),
                    history_view(history_map@),
                ),
                lines(s@.skip(pos as int)),
            ) == run_lines(init, lines(s@)),
        decreases n - pos,
    {
        let ghost rest = s@.skip(pos as int);
        let mut j = pos;
        while j < n && s.get_char(j) != '\n'
            invariant
                pos <= j <= n == s@.len(),
                forall|k: int| pos <= k < j ==> s@[k] != '\n',
            decreases n - j,
        {
            j += 1;
        }
        let mut end = j;
        if j < n && end > pos && s.get_char(end - 1) == '\r' {
            end = end - 1;
        }
        let line = s.substring_char(pos, end);
        proof {
            if j < n {
                assert(is_first_newline(rest, j - pos));
                let c = choose|c: int| is_first_newline(rest, c);
                assert(c == j - pos) by {
                    if c < j - pos {
                        assert(rest[c] == s@[pos + c]);
                    }
                    if c > j - pos {
                        assert(rest[j - pos] == '\n');
                    }
                }
                assert(rest.take(j - pos) =~= s@.subrange(pos as int, j as int));
                assert(rest.skip(j - pos + 1) =~= s@.skip(j + 1));
                assert(line@ =~= strip_cr(rest.take(j - pos)));
            } else {
                assert(!(exists|c: int| is_first_newline(rest, c))) by {
                    if exists|c: int| is_first_newline(rest, c) {
                        let c = choose|c: int| is_first_newline(rest, c);
                        assert(rest[c] == s@[pos + c]);
                    }
                }
                assert(line@ =~= rest);
            }
        }
        let ghost ls = lines(rest);
        let ghost before: DiffState = (
            opt_view(ts),
            pending@.map_values(|p: String| p@),
            history_view(history_map@),
        );
        proof {
            if j < n {
                assert(ls == seq![strip_cr(rest.take(j - pos))] + lines(rest.skip(j - pos + 1)));
            } else {
                assert(ls == seq![rest]);
            }
            assert(ls[0] == line@);
        }
        read_line(line, &mut ts, &mut pending, history_map);
        pos = if j < n {
            j + 1
        } else {
            n
        };
        proof {
            if pos == n {
                assert(s@.skip(pos as int) =~= Seq::<char>::empty());
            }
            assert(ls.skip(1) =~= lines(s@.skip(pos as int)));
            assert(run_lines(before, ls) == run_lines(line_step(before, ls[0]), ls.skip(1)));
        }
    }
    assert(s@.skip(n as int) =~= Seq::<char>::empty());
    flush_exec(history_map, &pending, &ts);
}

} // verus!
