//! M3U8 playlists: rewriting segment references to local file names, and
//! resolving them into absolute URLs.
use vstd::prelude::*;
use crate::text::{
    find_first, find_last, first_index, has_prefix, last_index, lemma_first_index_at,
    lemma_first_within, lemma_last_index_none, lemma_last_within, starts_with,
};

verus! {

/// Unicode white space, as `char::is_whitespace` and `str::trim` know it.
pub open spec fn is_white(c: char) -> bool {
    c == ' ' || ('\t' <= c && c <= '\r') || c == '\u{85}' || c == '\u{a0}' || c == '\u{1680}'
        || ('\u{2000}' <= c && c <= '\u{200a}') || c == '\u{2028}' || c == '\u{2029}' || c
        == '\u{202f}' || c == '\u{205f}' || c == '\u{3000}'
}

/// A directive line begins with `#`.
pub open spec fn is_directive(l: Seq<char>) -> bool {
    l.len() > 0 && l[0] == '#'
}

/// A blank line holds white space only.
pub open spec fn is_blank(l: Seq<char>) -> bool {
    forall|i: int| 0 <= i < l.len() ==> is_white(l[i])
}

/// The text after the last `/` of `l`, or all of `l` where it has none.
pub open spec fn final_component(l: Seq<char>) -> Seq<char> {
    l.skip(last_index(l, '/') + 1)
}

/// What a line becomes in the local copy of a playlist.
pub open spec fn local_line_spec(l: Seq<char>) -> Seq<char> {
    if is_directive(l) || is_blank(l) {
        l
    } else {
        final_component(l)
    }
}

/// The lines of `s`, split at each `\n`.
pub open spec fn lines_of(s: Seq<char>) -> Seq<Seq<char>>
    decreases s.len(),
{
    let k = first_index(s, '\n');
    if 0 <= k < s.len() {
        seq![s.take(k)] + lines_of(s.skip(k + 1))
    } else {
        seq![s]
    }
}

/// The local copy of playlist `s`: each line rewritten by
/// `local_line_spec`, the line breaks kept.
pub open spec fn rewrite_spec(s: Seq<char>) -> Seq<char>
    decreases s.len(),
{
    let k = first_index(s, '\n');
    if 0 <= k < s.len() {
        local_line_spec(s.take(k)) + seq!['\n'] + rewrite_spec(s.skip(k + 1))
    } else {
        local_line_spec(s)
    }
}

pub fn is_white_char(c: char) -> (r: bool)
    ensures
        r == is_white(c),
{
    c == ' ' || ('\t' <= c && c <= '\r') || c == '\u{85}' || c == '\u{a0}' || c == '\u{1680}'
        || ('\u{2000}' <= c && c <= '\u{200a}') || c == '\u{2028}' || c == '\u{2029}' || c
        == '\u{202f}' || c == '\u{205f}' || c == '\u{3000}'
}

/// Whether `line` holds white space only.
pub fn is_blank_line(line: &str) -> (r: bool)
    ensures
        r == is_blank(line@),
{
    let n = line.unicode_len();
    let mut i: usize = 0;
    while i < n
        invariant
            n == line@.len(),
            i <= n,
            forall|j: int| 0 <= j < i ==> is_white(line@[j]),
        decreases n - i,
    {
        if !is_white_char(line.get_char(i)) {
            return false;
        }
        i = i + 1;
    }
    true
}

/// Whether `line` is a directive.
pub fn is_directive_line(line: &str) -> (r: bool)
    ensures
        r == is_directive(line@),
{
    line.unicode_len() > 0 && line.get_char(0) == '#'
}

/// The text after the last `/` of `line`.
pub fn final_path_component(line: &str) -> (r: &str)
    ensures
        r@ == final_component(line@),
{
    let n = line.unicode_len();
    match find_last(line, '/') {
        Some(k) => line.substring_char(k + 1, n),
        None => {
            assert(line@.skip(0) =~= line@);
            line
        },
    }
}

/// The local form of one playlist line: directives and blank lines as they
/// are, a segment reference reduced to its file name.
pub fn local_line(line: &str) -> (r: &str)
    ensures
        r@ == local_line_spec(line@),
{
    if is_directive_line(line) || is_blank_line(line) {
        line
    } else {
        final_path_component(line)
    }
}

/// Rewrites a playlist so that each segment reference names a file in the
/// playlist's own directory.
pub fn rewrite_m3u8(content: &str) -> (r: String)
    ensures
        r@ == rewrite_spec(content@),
{
    let n = content.unicode_len();
    let mut out = String::new();
    let mut p: usize = 0;
    assert(content@.skip(0) =~= content@);
    assert(out@ + rewrite_spec(content@) =~= rewrite_spec(content@));
    loop
        invariant
            n == content@.len(),
            p <= n,
            out@ + rewrite_spec(content@.skip(p as int)) == rewrite_spec(content@),
        decreases n - p,
    {
        let tail = content.substring_char(p, n);
        assert(tail@ == content@.skip(p as int));
        match find_first(tail, '\n') {
            None => {
                out.append(local_line(tail));
                return out;
            },
            Some(k) => {
                let line = tail.substring_char(0, k);
                out.append(local_line(line));
                out.append("\n");
                proof {
                    reveal_strlit("\n");
                    assert(tail@.skip(k + 1) =~= content@.skip(p + k + 1));
                    assert("\n"@ =~= seq!['\n']);
                    assert(line@ == tail@.take(k as int));
                }
                p = p + k + 1;
            },
        }
    }
}

proof fn lemma_local_line_facts(l: Seq<char>)
    ensures
        (forall|i: int| 0 <= i < l.len() ==> l[i] != '\n') ==> (forall|i: int|
            0 <= i < local_line_spec(l).len() ==> local_line_spec(l)[i] != '\n'),
        local_line_spec(local_line_spec(l)) == local_line_spec(l),
{
    lemma_last_within(l, '/', l.len() as int);
    let k = last_index(l, '/');
    let f = final_component(l);
    if !(is_directive(l) || is_blank(l)) {
        assert forall|i: int| 0 <= i < f.len() implies f[i] != '/' by {
            assert(f[i] == l[i + k + 1]);
        }
        lemma_last_index_none(f, '/');
        assert(f.skip(0) =~= f);
        assert forall|i: int| 0 <= i < f.len() implies f[i] == l[i + k + 1] by {}
    }
}

/// Splitting `l` + `\n` + `rest` at its first line break, for a line `l`
/// without one.
proof fn lemma_split_first_line(l: Seq<char>, rest: Seq<char>)
    requires
        forall|i: int| 0 <= i < l.len() ==> l[i] != '\n',
    ensures
        ({
            let s = l + seq!['\n'] + rest;
            &&& first_index(s, '\n') == l.len()
            &&& s.take(l.len() as int) == l
            &&& s.skip(l.len() as int + 1) == rest
        }),
{
    let s = l + seq!['\n'] + rest;
    assert forall|j: int| 0 <= j < l.len() implies s[j] != '\n' by {
        assert(s[j] == l[j]);
    }
    lemma_first_index_at(s, '\n', l.len() as int);
    assert(s.take(l.len() as int) =~= l);
    assert(s.skip(l.len() as int + 1) =~= rest);
}

/// The first line of `s` and what follows it.
proof fn lemma_first_line(s: Seq<char>)
    ensures
        ({
            let k = first_index(s, '\n');
            &&& -1 <= k < s.len()
            &&& 0 <= k ==> forall|i: int| 0 <= i < k ==> s.take(k)[i] != '\n'
            &&& k < 0 ==> forall|i: int| 0 <= i < s.len() ==> s[i] != '\n'
        }),
{
    lemma_first_within(s, '\n', s.len() as int);
}

/// Rewriting a playlist twice gives what rewriting it once gives.
pub proof fn law_rewrite_idempotent(s: Seq<char>)
    ensures
        rewrite_spec(rewrite_spec(s)) == rewrite_spec(s),
    decreases s.len(),
{
    lemma_first_line(s);
    let k = first_index(s, '\n');
    if 0 <= k < s.len() {
        let l = s.take(k);
        let rest = s.skip(k + 1);
        law_rewrite_idempotent(rest);
        lemma_local_line_facts(l);
        lemma_local_line_facts(local_line_spec(l));
        lemma_split_first_line(local_line_spec(l), rewrite_spec(rest));
    } else {
        lemma_local_line_facts(s);
        lemma_local_line_facts(local_line_spec(s));
        lemma_first_within(local_line_spec(s), '\n', local_line_spec(s).len() as int);
    }
}

/// The local copy has one line for each line of the playlist, each the
/// rewritten form of the line at the same place.
pub proof fn law_rewrite_by_lines(s: Seq<char>)
    ensures
        lines_of(rewrite_spec(s)) == lines_of(s).map_values(|l: Seq<char>| local_line_spec(l)),
    decreases s.len(),
{
    lemma_first_line(s);
    let k = first_index(s, '\n');
    if 0 <= k < s.len() {
        let l = s.take(k);
        let rest = s.skip(k + 1);
        law_rewrite_by_lines(rest);
        lemma_local_line_facts(l);
        lemma_split_first_line(local_line_spec(l), rewrite_spec(rest));
        assert(lines_of(rewrite_spec(s)) =~= lines_of(s).map_values(
            |l: Seq<char>| local_line_spec(l),
        ));
    } else {
        lemma_local_line_facts(s);
        lemma_first_within(local_line_spec(s), '\n', local_line_spec(s).len() as int);
        assert(lines_of(rewrite_spec(s)) =~= lines_of(s).map_values(
            |l: Seq<char>| local_line_spec(l),
        ));
    }
}

/// Directive and blank lines come out of a rewrite byte for byte as they
/// went in, at the same line number.
pub proof fn law_rewrite_keeps_directives_and_blanks(s: Seq<char>, i: int)
    requires
        0 <= i < lines_of(s).len(),
        is_directive(lines_of(s)[i]) || is_blank(lines_of(s)[i]),
    ensures
        lines_of(rewrite_spec(s)).len() == lines_of(s).len(),
        lines_of(rewrite_spec(s))[i] == lines_of(s)[i],
{
    law_rewrite_by_lines(s);
}

/// The base URL of a playlist: its URL without the final path segment (the
/// text before the last `/`), or empty where the URL has no `/`.
pub open spec fn base_url_spec(url: Seq<char>) -> Seq<char> {
    let k = last_index(url, '/');
    if k < 0 {
        Seq::empty()
    } else {
        url.take(k)
    }
}

/// A line as `str::lines` yields it: without one trailing carriage return.
pub open spec fn strip_cr(l: Seq<char>) -> Seq<char> {
    if l.len() > 0 && l.last() == '\r' {
        l.drop_last()
    } else {
        l
    }
}

/// A reference that names its scheme is absolute.
pub open spec fn is_absolute(r: Seq<char>) -> bool {
    starts_with(r, "http://"@) || starts_with(r, "https://"@)
}

/// The absolute URL of segment reference `r` under base URL `base`.
pub open spec fn resolve_ref(base: Seq<char>, r: Seq<char>) -> Seq<char> {
    if is_absolute(r) {
        r
    } else {
        base + "/"@ + r
    }
}

/// The URLs that one playlist line contributes: none for a directive or a
/// blank line, else its reference resolved.
pub open spec fn line_urls(base: Seq<char>, l: Seq<char>) -> Seq<Seq<char>> {
    let t = strip_cr(l);
    if is_directive(t) || is_blank(t) {
        seq![]
    } else {
        seq![resolve_ref(base, t)]
    }
}

/// The segment URLs of playlist text `s`, in line order.
pub open spec fn segment_urls_spec(base: Seq<char>, s: Seq<char>) -> Seq<Seq<char>>
    decreases s.len(),
{
    let k = first_index(s, '\n');
    if 0 <= k < s.len() {
        line_urls(base, s.take(k)) + segment_urls_spec(base, s.skip(k + 1))
    } else {
        line_urls(base, s)
    }
}

/// The base URL against which the references of the playlist at `url`
/// resolve.
pub fn base_url(url: &str) -> (r: &str)
    ensures
        r@ == base_url_spec(url@),
{
    match find_last(url, '/') {
        Some(k) => url.substring_char(0, k),
        None => {
            proof {
                reveal_strlit("");
            }
            ""
        },
    }
}

fn without_cr(line: &str) -> (r: &str)
    ensures
        r@ == strip_cr(line@),
{
    let n = line.unicode_len();
    if n > 0 && line.get_char(n - 1) == '\r' {
        line.substring_char(0, n - 1)
    } else {
        line
    }
}

/// Resolves one segment reference against `base`.
pub fn resolve_reference(base: &str, reference: &str) -> (r: String)
    ensures
        r@ == resolve_ref(base@, reference@),
{
    if has_prefix(reference, "http://") || has_prefix(reference, "https://") {
        String::from_str(reference)
    } else {
        let mut out = String::from_str(base);
        out.append("/");
        out.append(reference);
        out
    }
}

/// The absolute URLs of the segments that the playlist `content`, fetched
/// from `manifest_url`, references, in the order of its lines.
pub fn segment_urls(manifest_url: &str, content: &str) -> (r: Vec<String>)
    ensures
        r.deep_view() == segment_urls_spec(base_url_spec(manifest_url@), content@),
{
    let base = base_url(manifest_url);
    let ghost b = base@;
    let n = content.unicode_len();
    let mut out: Vec<String> = Vec::new();
    let mut p: usize = 0;
    assert(content@.skip(0) =~= content@);
    assert(out.deep_view() + segment_urls_spec(b, content@) =~= segment_urls_spec(b, content@));
    loop
        invariant
            n == content@.len(),
            p <= n,
            b == base@,
            b == base_url_spec(manifest_url@),
            out.deep_view() + segment_urls_spec(b, content@.skip(p as int))
                == segment_urls_spec(b, content@),
        decreases n - p,
    {
        let tail = content.substring_char(p, n);
        assert(tail@ == content@.skip(p as int));
        match find_first(tail, '\n') {
            None => {
                let t = without_cr(tail);
                if !(is_directive_line(t) || is_blank_line(t)) {
                    out.push(resolve_reference(base, t));
                }
                assert(out.deep_view() =~= segment_urls_spec(b, content@));
                return out;
            },
            Some(k) => {
                let line = tail.substring_char(0, k);
                let ghost before = out.deep_view();
                let t = without_cr(line);
                if !(is_directive_line(t) || is_blank_line(t)) {
                    out.push(resolve_reference(base, t));
                }
                assert(out.deep_view() =~= before + line_urls(b, line@));
                assert(tail@.skip(k + 1) =~= content@.skip(p + k + 1));
                p = p + k + 1;
            },
        }
    }
}

} // verus!
