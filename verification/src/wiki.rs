//! Wiki links: the link values and the parsing of `[[Note Name]]` and
//! `[[Display Text|note-name]]` links out of note content.

use crate::crypto::push_char;
use crate::text::{
    alnum_of, char_is_alphanumeric, char_is_whitespace, lower_of, lowercase, space_of, trim_back,
    trim_front, trimmed,
};
use vstd::prelude::*;
use vstd::string::StrSliceExecFns;
use vstd::string::StringExecFns;

verus! {

/// A wiki link found in note content.
#[derive(Debug, Clone)]
pub struct WikiLink {
    /// The display text of the link.
    pub text: String,
    /// The target filename.
    pub target: String,
    /// Whether the target note exists.
    pub exists: bool,
}

/// A backlink: where a note is linked from.
#[derive(Debug, Clone)]
pub struct BacklinkInfo {
    /// The filename of the note containing the link.
    pub from_note: String,
    /// The title of the source note.
    pub from_title: String,
    /// Context around the link.
    pub context: String,
}

/// A link index entry: which notes one note links to.
#[derive(Debug, Clone)]
pub struct LinkIndex {
    /// The note filename.
    pub note: String,
    /// The notes this one links to.
    pub links_to: Vec<String>,
}

/// The first index at or past `k` holding ']' or '|', or the length.
pub open spec fn scan_delim(s: Seq<char>, k: int) -> int
    decreases s.len() - k,
    when 0 <= k <= s.len()
{
    if k >= s.len() {
        s.len() as int
    } else if s[k] == ']' || s[k] == '|' {
        k
    } else {
        scan_delim(s, k + 1)
    }
}

/// The first index at or past `k` holding ']', or the length.
pub open spec fn scan_close(s: Seq<char>, k: int) -> int
    decreases s.len() - k,
    when 0 <= k <= s.len()
{
    if k >= s.len() {
        s.len() as int
    } else if s[k] == ']' {
        k
    } else {
        scan_close(s, k + 1)
    }
}

pub proof fn lemma_scan_delim_bounds(s: Seq<char>, k: int)
    requires
        0 <= k <= s.len(),
    ensures
        k <= scan_delim(s, k) <= s.len(),
    decreases s.len() - k,
{
    if k < s.len() && s[k] != ']' && s[k] != '|' {
        lemma_scan_delim_bounds(s, k + 1);
    }
}

pub proof fn lemma_scan_close_bounds(s: Seq<char>, k: int)
    requires
        0 <= k <= s.len(),
    ensures
        k <= scan_close(s, k) <= s.len(),
    decreases s.len() - k,
{
    if k < s.len() && s[k] != ']' {
        lemma_scan_close_bounds(s, k + 1);
    }
}

/// A wiki link match starting exactly at `p`: `[[`, a non-empty run free
/// of ']' and '|', then either `]]` (the run is the target), or `|`, a
/// non-empty run free of ']', and `]]` (that run is the target). The result
/// carries the target and the index just past the match.
pub open spec fn wiki_match_at(s: Seq<char>, p: int) -> Option<(Seq<char>, int)>
    recommends
        0 <= p,
{
    if p + 1 < s.len() && s[p] == '[' && s[p + 1] == '[' {
        let q = scan_delim(s, p + 2);
        if q == s.len() || q == p + 2 {
            None
        } else if s[q] == ']' {
            if q + 1 < s.len() && s[q + 1] == ']' {
                Some((s.subrange(p + 2, q), q + 2))
            } else {
                None
            }
        } else {
            let r = scan_close(s, q + 1);
            if r == s.len() || r == q + 1 {
                None
            } else if r + 1 < s.len() && s[r + 1] == ']' {
                Some((s.subrange(q + 1, r), r + 2))
            } else {
                None
            }
        }
    } else {
        None
    }
}

/// The targets of all wiki links in the text from `p` on, leftmost first,
/// each next search starting just past the previous match.
pub open spec fn wiki_links_from(s: Seq<char>, p: int) -> Seq<Seq<char>>
    decreases s.len() - p,
    when 0 <= p
    via wiki_links_from_decreases
{
    if p >= s.len() {
        Seq::<Seq<char>>::empty()
    } else {
        match wiki_match_at(s, p) {
            Some(m) => seq![m.0] + wiki_links_from(s, m.1),
            None => wiki_links_from(s, p + 1),
        }
    }
}

#[via_fn]
proof fn wiki_links_from_decreases(s: Seq<char>, p: int) {
    if 0 <= p && p < s.len() {
        if p + 1 < s.len() && s[p] == '[' && s[p + 1] == '[' {
            assert(0 <= p + 2 <= s.len());
            lemma_scan_delim_bounds(s, p + 2);
            let q = scan_delim(s, p + 2);
            assert(p + 2 <= q <= s.len());
            if q < s.len() && s[q] != ']' {
                assert(0 <= q + 1 <= s.len());
                lemma_scan_close_bounds(s, q + 1);
            }
        }
    }
}

/// The targets of all wiki links in a text.
pub open spec fn wiki_links_of(s: Seq<char>) -> Seq<Seq<char>> {
    wiki_links_from(s, 0)
}

/// The views of a list of link targets.
pub open spec fn link_views(s: Seq<String>) -> Seq<Seq<char>> {
    s.map_values(|p: String| p@)
}

/// The first index at or past `k` holding ']' or '|', or the length.
fn scan_delim_exec(s: &str, k: usize, n: usize) -> (r: usize)
    requires
        n == s@.len(),
        k <= n,
    ensures
        r == scan_delim(s@, k as int),
        k <= r <= n,
{
    let mut q = k;
    while q < n
        invariant
            n == s@.len(),
            k <= q <= n,
            scan_delim(s@, k as int) == scan_delim(s@, q as int),
        decreases n - q,
    {
        let c = s.get_char(q);
        if c == ']' || c == '|' {
            return q;
        }
        q += 1;
    }
    q
}

/// The first index at or past `k` holding ']', or the length.
fn scan_close_exec(s: &str, k: usize, n: usize) -> (r: usize)
    requires
        n == s@.len(),
        k <= n,
    ensures
        r == scan_close(s@, k as int),
        k <= r <= n,
{
    let mut q = k;
    while q < n
        invariant
            n == s@.len(),
            k <= q <= n,
            scan_close(s@, k as int) == scan_close(s@, q as int),
        decreases n - q,
    {
        let c = s.get_char(q);
        if c == ']' {
            return q;
        }
        q += 1;
    }
    q
}

/// Parse the wiki link targets out of note content: `[[Note Name]]` yields
/// "Note Name", `[[Display Text|note-name]]` yields "note-name".
pub fn parse_wiki_links(content: &str) -> (links: Vec<String>)
    ensures
        link_views(links@) =~~= wiki_links_of(content@),
{
    let n = content.unicode_len();
    let mut links: Vec<String> = Vec::new();
    let mut p: usize = 0;
    while p < n
        invariant
            n == content@.len(),
            p <= n,
            wiki_links_of(content@) =~~= link_views(links@) + wiki_links_from(
                content@,
                p as int,
            ),
        decreases n - p,
    {
        let mut matched: Option<(String, usize)> = None;
        if p + 1 < n && content.get_char(p) == '[' && content.get_char(p + 1) == '[' {
            let q = scan_delim_exec(content, p + 2, n);
            if q < n && q > p + 2 {
                if content.get_char(q) == ']' {
                    if q + 1 < n && content.get_char(q + 1) == ']' {
                        let target = content.substring_char(p + 2, q).to_owned();
                        matched = Some((target, q + 2));
                    }
                } else {
                    let r = scan_close_exec(content, q + 1, n);
                    if r < n && r > q + 1 {
                        if r + 1 < n && content.get_char(r + 1) == ']' {
                            let target = content.substring_char(q + 1, r).to_owned();
                            matched = Some((target, r + 2));
                        }
                    }
                }
            }
        }
        match matched {
            Some((target, e)) => {
                proof {
                    assert(wiki_match_at(content@, p as int) matches Some(m) && m.0
                        == target@ && m.1 == e as int);
                    assert(link_views(links@.push(target)) =~~= link_views(links@) + seq![
                        target@,
                    ]);
                }
                links.push(target);
                p = e;
            },
            None => {
                proof {
                    assert(wiki_match_at(content@, p as int) is None);
                }
                p += 1;
            },
        }
    }
    links
}

/// The filename a name gets as a daily note: unchanged when it already
/// ends in ".md", else with ".md" appended.
pub open spec fn daily_filename_of(name: Seq<char>) -> Seq<char> {
    if name.len() >= 3 && name.subrange(name.len() - 3, name.len() as int) == seq![
        '.',
        'm',
        'd',
    ] {
        name
    } else {
        name + seq!['.', 'm', 'd']
    }
}

/// Whether a note of this name exists: first as a standalone note under its
/// slug filename, then as a daily note under its own name. The caller lists
/// the two directories and passes the filenames present; the result carries
/// the filename the note was (or would be) found under.
pub fn note_exists(note_name: &str, standalone_names: &Vec<String>, daily_names: &Vec<String>) -> (r:
    (bool, String))
    ensures
        ({
            let slug = note_filename_of(note_name@);
            let daily = daily_filename_of(note_name@);
            if crate::utils::name_views(standalone_names@).contains(slug) {
                r.0 && r.1@ == slug
            } else if crate::utils::name_views(daily_names@).contains(daily) {
                r.0 && r.1@ == daily
            } else {
                !r.0 && r.1@ == slug
            }
        }),
{
    let filename = note_name_to_filename(note_name);
    if crate::utils::contains_name(standalone_names, &filename) {
        return (true, filename);
    }
    let n = note_name.unicode_len();
    let is_md = n >= 3 && note_name.get_char(n - 3) == '.' && note_name.get_char(n - 2) == 'm'
        && note_name.get_char(n - 1) == 'd';
    let daily_filename = if is_md {
        proof {
            assert(note_name@.subrange(n - 3, n as int) =~= seq!['.', 'm', 'd']);
        }
        note_name.to_owned()
    } else {
        proof {
            if n >= 3 && note_name@.subrange(n - 3, n as int) == seq!['.', 'm', 'd'] {
                assert(note_name@.subrange(n - 3, n as int)[0] == note_name@[n - 3]);
                assert(note_name@.subrange(n - 3, n as int)[1] == note_name@[n - 2]);
                assert(note_name@.subrange(n - 3, n as int)[2] == note_name@[n - 1]);
            }
        }
        let mut with_ext = note_name.to_owned();
        push_char(&mut with_ext, '.');
        push_char(&mut with_ext, 'm');
        push_char(&mut with_ext, 'd');
        proof {
            assert(with_ext@ =~= note_name@ + seq!['.', 'm', 'd']);
        }
        with_ext
    };
    if crate::utils::contains_name(daily_names, &daily_filename) {
        return (true, daily_filename);
    }
    (false, filename)
}

/// Where a link target resolves: the slug filename if it is among the
/// standalone notes, else the daily filename if it is among the daily
/// notes, else the slug filename of a note that does not exist.
pub open spec fn link_target(name: Seq<char>, standalone: Seq<Seq<char>>, daily: Seq<Seq<char>>) -> (
    Seq<char>,
    bool,
) {
    let slug = note_filename_of(name);
    let daily_name = daily_filename_of(name);
    if standalone.contains(slug) {
        (slug, true)
    } else if daily.contains(daily_name) {
        (daily_name, true)
    } else {
        (slug, false)
    }
}

/// Scan note content for wiki links and resolve each against the note
/// files present: one `WikiLink` per link, in order, with its display
/// text, its target filename and whether that target exists.
pub fn scan_note_links(
    content: &str,
    standalone_names: &Vec<String>,
    daily_names: &Vec<String>,
) -> (r: Vec<WikiLink>)
    ensures
        r@.len() == wiki_links_of(content@).len(),
        forall|i: int|
            0 <= i < r@.len() ==> {
                let name = wiki_links_of(content@)[i];
                let resolved = link_target(
                    name,
                    crate::utils::name_views(standalone_names@),
                    crate::utils::name_views(daily_names@),
                );
                (#[trigger] r@[i]).text@ == name && r@[i].target@ == resolved.0 && r@[i].exists
                    == resolved.1
            },
{
    let names = parse_wiki_links(content);
    let n = names.len();
    let mut out: Vec<WikiLink> = Vec::new();
    let mut i: usize = 0;
    while i < n
        invariant
            n == names@.len(),
            i <= n,
            out@.len() == i,
            link_views(names@) =~~= wiki_links_of(content@),
            forall|j: int|
                0 <= j < i ==> {
                    let name = wiki_links_of(content@)[j];
                    let resolved = link_target(
                        name,
                        crate::utils::name_views(standalone_names@),
                        crate::utils::name_views(daily_names@),
                    );
                    (#[trigger] out@[j]).text@ == name && out@[j].target@ == resolved.0
                        && out@[j].exists == resolved.1
                },
        decreases n - i,
    {
        let (exists, target) = note_exists(names[i].as_str(), standalone_names, daily_names);
        let text = names[i].clone();
        proof {
            assert(names@[i as int]@ == wiki_links_of(content@)[i as int]);
        }
        out.push(WikiLink { text, target, exists });
        i += 1;
    }
    out
}

/// The first index at or past `from` where `pat` occurs in `s`, or -1.
pub open spec fn find_sub(s: Seq<char>, pat: Seq<char>, from: int) -> int
    decreases s.len() + 1 - from,
    when 0 <= from
{
    if from + pat.len() > s.len() {
        -1
    } else if s.subrange(from, from + pat.len()) == pat {
        from
    } else {
        find_sub(s, pat, from + 1)
    }
}

pub proof fn lemma_find_sub_props(s: Seq<char>, pat: Seq<char>, from: int)
    requires
        0 <= from,
    ensures
        find_sub(s, pat, from) == -1 || (from <= find_sub(s, pat, from) && find_sub(s, pat, from)
            + pat.len() <= s.len() && s.subrange(
            find_sub(s, pat, from),
            find_sub(s, pat, from) + pat.len(),
        ) == pat),
    decreases s.len() + 1 - from,
{
    if from + pat.len() > s.len() {
    } else if s.subrange(from, from + pat.len()) == pat {
    } else {
        lemma_find_sub_props(s, pat, from + 1);
    }
}

/// Whether `pat` stands at position `i` of `s`.
fn match_at_exec(s: &str, pat: &str, i: usize, n: usize, m: usize) -> (r: bool)
    requires
        n == s@.len(),
        m == pat@.len(),
        i + m <= n,
    ensures
        r == (s@.subrange(i as int, i + m) == pat@),
{
    let mut j: usize = 0;
    while j < m
        invariant
            n == s@.len(),
            m == pat@.len(),
            i + m <= n,
            j <= m,
            forall|l: int| 0 <= l < j ==> s@[i + l] == pat@[l],
        decreases m - j,
    {
        if s.get_char(i + j) != pat.get_char(j) {
            proof {
                assert(s@.subrange(i as int, i + m)[j as int] == s@[i + j]);
            }
            return false;
        }
        j += 1;
    }
    proof {
        assert(s@.subrange(i as int, i + m) =~= pat@);
    }
    true
}

/// The first occurrence of `pat` in `s` at or past `from`.
pub(crate) fn find_sub_exec(s: &str, pat: &str, from: usize) -> (r: Option<usize>)
    requires
        from <= s@.len(),
    ensures
        match r {
            Some(i) => find_sub(s@, pat@, from as int) == i as int && from <= i && i + pat@.len()
                <= s@.len(),
            None => find_sub(s@, pat@, from as int) == -1,
        },
{
    let n = s.unicode_len();
    let m = pat.unicode_len();
    if m == 0 {
        proof {
            assert(s@.subrange(from as int, from as int) =~= pat@);
        }
        return Some(from);
    }
    if m > n || from > n - m {
        return None;
    }
    let mut i = from;
    while i <= n - m
        invariant
            n == s@.len(),
            m == pat@.len(),
            1 <= m <= n,
            from <= i,
            i <= n - m + 1,
            find_sub(s@, pat@, from as int) == find_sub(s@, pat@, i as int),
        decreases n - i,
    {
        if match_at_exec(s, pat, i, n, m) {
            return Some(i);
        }
        i += 1;
    }
    None
}

/// Three dots marking elided text.
pub open spec fn ellipsis() -> Seq<char> {
    seq!['.', '.', '.']
}

/// The excerpt of `content` from `start` to `end`, with dots marking the
/// elided text on either side.
pub open spec fn window(content: Seq<char>, start: int, end: int) -> Seq<char>
    recommends
        0 <= start <= end <= content.len(),
{
    let pre = if start > 0 {
        ellipsis()
    } else {
        Seq::<char>::empty()
    };
    let post = if end < content.len() {
        ellipsis()
    } else {
        Seq::<char>::empty()
    };
    pre + content.subrange(start, end) + post
}

/// The context around a link in content: 50 characters on either side of
/// the first `[[text]]` occurrence, or of the first `[[text|` occurrence
/// extended past its closing `]]`; empty when the link does not occur.
pub open spec fn context_of(content: Seq<char>, link: Seq<char>) -> Seq<char> {
    let pat1 = seq!['[', '['] + link + seq![']', ']'];
    let pat2 = seq!['[', '['] + link + seq!['|'];
    let p1 = find_sub(content, pat1, 0);
    let p2 = find_sub(content, pat2, 0);
    if p1 >= 0 {
        let start = if p1 > 50 {
            p1 - 50
        } else {
            0
        };
        let end = if p1 + pat1.len() + 50 < content.len() {
            p1 + pat1.len() + 50
        } else {
            content.len() as int
        };
        window(content, start, end)
    } else if p2 >= 0 {
        let start = if p2 > 50 {
            p2 - 50
        } else {
            0
        };
        let close = find_sub(content, seq![']', ']'], p2);
        let end = if close >= 0 {
            if close + 52 < content.len() {
                close + 52
            } else {
                content.len() as int
            }
        } else {
            if p2 + pat2.len() + 50 < content.len() {
                p2 + pat2.len() + 50
            } else {
                content.len() as int
            }
        };
        window(content, start, end)
    } else {
        Seq::<char>::empty()
    }
}

/// Append an excerpt of `content` with elision dots to an empty string.
fn build_window(content: &str, start: usize, end: usize, n: usize) -> (r: String)
    requires
        n == content@.len(),
        start <= end <= n,
    ensures
        r@ == window(content@, start as int, end as int),
{
    let mut out = String::new();
    if start > 0 {
        push_char(&mut out, '.');
        push_char(&mut out, '.');
        push_char(&mut out, '.');
        proof {
            assert(out@ =~= ellipsis());
        }
    }
    out.append(content.substring_char(start, end));
    if end < n {
        push_char(&mut out, '.');
        push_char(&mut out, '.');
        push_char(&mut out, '.');
    }
    proof {
        assert(out@ =~= window(content@, start as int, end as int));
    }
    out
}

/// The context around a link in note content, for backlink display.
pub fn get_link_context(content: &str, link_text: &str) -> (r: String)
    ensures
        r@ == context_of(content@, link_text@),
{
    let n = content.unicode_len();
    let mut pat1 = String::new();
    push_char(&mut pat1, '[');
    push_char(&mut pat1, '[');
    pat1.append(link_text);
    let mut pat2 = pat1.clone();
    push_char(&mut pat1, ']');
    push_char(&mut pat1, ']');
    push_char(&mut pat2, '|');
    proof {
        assert(pat1@ =~= seq!['[', '['] + link_text@ + seq![']', ']']);
        assert(pat2@ =~= seq!['[', '['] + link_text@ + seq!['|']);
    }
    let m1 = pat1.as_str().unicode_len();
    let m2 = pat2.as_str().unicode_len();
    if let Some(p1) = find_sub_exec(content, pat1.as_str(), 0) {
        let start = if p1 > 50 {
            p1 - 50
        } else {
            0
        };
        let end_raw = (p1 + m1).saturating_add(50);
        let end = if end_raw < n {
            end_raw
        } else {
            n
        };
        return build_window(content, start, end, n);
    }
    if let Some(p2) = find_sub_exec(content, pat2.as_str(), 0) {
        let start = if p2 > 50 {
            p2 - 50
        } else {
            0
        };
        let mut close_pat = String::new();
        push_char(&mut close_pat, ']');
        push_char(&mut close_pat, ']');
        proof {
            assert(close_pat@ =~= seq![']', ']']);
        }
        let end = match find_sub_exec(content, close_pat.as_str(), p2) {
            Some(c) => {
                let e_raw = c.saturating_add(52);
                if e_raw < n {
                    e_raw
                } else {
                    n
                }
            },
            None => {
                let e_raw = (p2 + m2).saturating_add(50);
                if e_raw < n {
                    e_raw
                } else {
                    n
                }
            },
        };
        return build_window(content, start, end, n);
    }
    String::new()
}

/// The slug a trimmed, lowercased name yields: spaces become dashes,
/// alphanumeric characters and dashes stay, everything else is dropped.
pub open spec fn slug_chars(s: Seq<char>) -> Seq<char>
    decreases s.len(),
{
    if s.len() == 0 {
        Seq::<char>::empty()
    } else {
        let c = s[0];
        let rest = slug_chars(s.drop_first());
        if c == ' ' {
            seq!['-'] + rest
        } else if alnum_of(c) || c == '-' {
            seq![c] + rest
        } else {
            rest
        }
    }
}

/// The filename a note name maps to: the lowercased, trimmed name as a
/// slug, with the ".md" extension.
pub open spec fn note_filename_of(name: Seq<char>) -> Seq<char> {
    slug_chars(trimmed(lower_of(name))) + seq!['.', 'm', 'd']
}

/// Convert a note name to a filename: lowercase it, trim it, turn spaces
/// into dashes, drop everything that is neither alphanumeric nor a dash,
/// and append ".md".
pub fn note_name_to_filename(note_name: &str) -> (r: String)
    ensures
        r@ == note_filename_of(note_name@),
{
    let lower = lowercase(note_name);
    let ls = lower.as_str();
    let n = ls.unicode_len();
    let ghost l = lower@;
    let mut start: usize = 0;
    proof {
        assert(l.skip(0) =~= l);
    }
    while start < n && char_is_whitespace(ls.get_char(start))
        invariant
            n == l.len(),
            ls@ == l,
            start <= n,
            trim_front(l) == trim_front(l.skip(start as int)),
        decreases n - start,
    {
        proof {
            let t = l.skip(start as int);
            assert(t[0] == l[start as int]);
            assert(t.drop_first() =~= l.skip(start + 1));
        }
        start += 1;
    }
    proof {
        if start == n {
            assert(l.skip(n as int) =~= Seq::<char>::empty());
        }
        assert(trim_front(l) == l.skip(start as int));
    }
    let mut end: usize = n;
    while end > start && char_is_whitespace(ls.get_char(end - 1))
        invariant
            n == l.len(),
            ls@ == l,
            start <= end <= n,
            trim_front(l) == l.skip(start as int),
            trim_back(l.skip(start as int)) == trim_back(
                l.subrange(start as int, end as int),
            ),
        decreases end,
    {
        proof {
            let t = l.subrange(start as int, end as int);
            assert(t.last() == l[end - 1]);
            assert(t.drop_last() =~= l.subrange(start as int, end - 1));
        }
        end -= 1;
    }
    let ghost tr = l.subrange(start as int, end as int);
    proof {
        assert(trimmed(l) == tr);
        assert(tr.skip(0) =~= tr);
    }
    let mut out = String::new();
    let mut i: usize = start;
    while i < end
        invariant
            n == l.len(),
            ls@ == l,
            start <= i <= end <= n,
            tr == l.subrange(start as int, end as int),
            slug_chars(tr) == out@ + slug_chars(tr.skip(i - start)),
        decreases end - i,
    {
        let ghost t = tr.skip(i - start);
        proof {
            assert(t[0] == tr[i - start]);
            assert(tr[i - start] == l[i as int]);
            assert(t.drop_first() =~= tr.skip(i + 1 - start));
        }
        let c = ls.get_char(i);
        if c == ' ' {
            push_char(&mut out, '-');
        } else if char_is_alphanumeric(c) || c == '-' {
            push_char(&mut out, c);
        }
        i += 1;
    }
    proof {
        assert(tr.skip(end - start) =~= Seq::<char>::empty());
    }
    push_char(&mut out, '.');
    push_char(&mut out, 'm');
    push_char(&mut out, 'd');
    proof {
        assert(out@ =~= slug_chars(tr) + seq!['.', 'm', 'd']);
    }
    out
}

} // verus!
