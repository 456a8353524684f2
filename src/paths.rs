//! File names, URL paths and percent-encoding of URIs.
use vstd::prelude::*;
use crate::text::{find_first, first_index};

verus! {

#[verifier::external_type_specification]
#[verifier::external_body]
pub struct ExUrl(url::Url);

/// The final component of `path` as `std::path::Path::file_name` gives it.
pub uninterp spec fn path_file_name(path: Seq<char>) -> Option<Seq<char>>;

/// Whether `url::Url::parse` accepts `s`.
pub uninterp spec fn url_parses(s: Seq<char>) -> bool;

/// The path of the URL that `url::Url::parse` reads from `s`.
pub uninterp spec fn url_path_of(s: Seq<char>) -> Seq<char>;

/// What `urlencoding::encode` makes of `s`.
pub uninterp spec fn url_encoded(s: Seq<char>) -> Seq<char>;

/// What percent-decoding `s` and reading the bytes as UTF-8 gives, if they
/// are UTF-8.
pub uninterp spec fn percent_decoded_utf8(s: Seq<char>) -> Option<Seq<char>>;

/// Why a path has no file name.
#[derive(Debug)]
pub struct FileNameError {
    pub path: String,
}

/// Relies on `std::path::Path::file_name`: the last normal component of
/// the path, which a `&str` path holds as UTF-8.
#[verifier::external_body]
fn file_name_of(path: &str) -> (r: Option<&str>)
    ensures
        match r {
            Some(n) => path_file_name(path@) == Some(n@),
            None => path_file_name(path@) is None,
        },
{
    std::path::Path::new(path).file_name().and_then(|n| n.to_str())
}

/// The file name of `path`, or the empty string where it has none.
pub fn get_file_name(path: &str) -> (r: &str)
    ensures
        r@ == match path_file_name(path@) {
            Some(n) => n,
            None => Seq::empty(),
        },
{
    match file_name_of(path) {
        Some(n) => n,
        None => {
            proof {
                reveal_strlit("");
            }
            ""
        },
    }
}

/// The file name of `path`, or an error naming the path where it has none.
pub fn try_get_file_name(path: &str) -> (r: Result<&str, FileNameError>)
    ensures
        match r {
            Ok(n) => path_file_name(path@) == Some(n@),
            Err(e) => path_file_name(path@) is None && e.path@ == path@,
        },
{
    match file_name_of(path) {
        Some(n) => Ok(n),
        None => Err(FileNameError { path: String::from_str(path) }),
    }
}

/// A URL read by `url::Url::parse`, kept with the text it was read from.
pub struct ParsedUrl {
    source: String,
    url: url::Url,
}

/// Relies on `url::Url::parse`: it accepts or refuses a URL by its text
/// alone.
#[verifier::external_body]
fn parse_url(s: &str) -> (r: Option<ParsedUrl>)
    ensures
        r is Some == url_parses(s@),
        r matches Some(u) ==> u.source@ == s@,
{
    match url::Url::parse(s) {
        Ok(url) => Some(ParsedUrl { source: s.to_string(), url }),
        Err(_) => None,
    }
}

/// Relies on `url::Url::path`: the path of the URL parsed from the kept
/// text.
#[verifier::external_body]
fn url_path(u: &ParsedUrl) -> (r: &str)
    ensures
        r@ == url_path_of(u.source@),
{
    u.url.path()
}

/// `s` without its leading slashes.
pub open spec fn trim_leading_slashes(s: Seq<char>) -> Seq<char>
    decreases s.len(),
{
    if s.len() > 0 && s[0] == '/' {
        trim_leading_slashes(s.drop_first())
    } else {
        s
    }
}

/// Removes the leading slashes of `s`.
pub fn strip_leading_slashes(s: &str) -> (r: &str)
    ensures
        r@ == trim_leading_slashes(s@),
{
    let n = s.unicode_len();
    let mut i: usize = 0;
    assert(s@.skip(0) =~= s@);
    while i < n && s.get_char(i) == '/'
        invariant
            n == s@.len(),
            i <= n,
            trim_leading_slashes(s@.skip(i as int)) == trim_leading_slashes(s@),
        decreases n - i,
    {
        assert(s@.skip(i as int).drop_first() =~= s@.skip(i + 1));
        i = i + 1;
    }
    s.substring_char(i, n)
}

/// The path of the URL `url_str` without its leading slashes, or `None`
/// where `url_str` is no URL.
pub fn get_path_from_url(url_str: &str) -> (r: Option<String>)
    ensures
        r is Some == url_parses(url_str@),
        r matches Some(p) ==> p@ == trim_leading_slashes(url_path_of(url_str@)),
{
    match parse_url(url_str) {
        Some(u) => Some(String::from_str(strip_leading_slashes(url_path(&u)))),
        None => None,
    }
}

/// Relies on `urlencoding::encode`: the encoding depends on the text alone.
#[verifier::external_body]
fn encode_component(s: &str) -> (r: String)
    ensures
        r@ == url_encoded(s@),
{
    urlencoding::encode(s).into_owned()
}

/// `s` with each `/`-separated part percent-encoded and the slashes kept.
pub open spec fn encode_uri_spec(s: Seq<char>) -> Seq<char>
    decreases s.len(),
{
    let k = first_index(s, '/');
    if 0 <= k < s.len() {
        url_encoded(s.take(k)) + "/"@ + encode_uri_spec(s.skip(k + 1))
    } else {
        url_encoded(s)
    }
}

/// Percent-encodes each `/`-separated part of `v`, keeping the slashes.
pub fn encode_uri(v: &str) -> (r: String)
    ensures
        r@ == encode_uri_spec(v@),
{
    let n = v.unicode_len();
    let mut out = String::new();
    let mut p: usize = 0;
    assert(v@.skip(0) =~= v@);
    assert(out@ + encode_uri_spec(v@) =~= encode_uri_spec(v@));
    loop
        invariant
            n == v@.len(),
            p <= n,
            out@ + encode_uri_spec(v@.skip(p as int)) == encode_uri_spec(v@),
        decreases n - p,
    {
        let tail = v.substring_char(p, n);
        assert(tail@ == v@.skip(p as int));
        match find_first(tail, '/') {
            None => {
                let part = encode_component(tail);
                out.append(part.as_str());
                return out;
            },
            Some(k) => {
                let part = encode_component(tail.substring_char(0, k));
                out.append(part.as_str());
                out.append("/");
                assert(tail@.skip(k + 1) =~= v@.skip(p + k + 1));
                p = p + k + 1;
            },
        }
    }
}

/// Relies on `percent_encoding::percent_decode` and
/// `PercentDecode::decode_utf8`: the decoded text depends on the input
/// alone, and is absent where the decoded bytes are not UTF-8.
#[verifier::external_body]
fn percent_decode_text(v: &str) -> (r: Option<String>)
    ensures
        match r {
            Some(d) => percent_decoded_utf8(v@) == Some(d@),
            None => percent_decoded_utf8(v@) is None,
        },
{
    percent_encoding::percent_decode(v.as_bytes()).decode_utf8().ok().map(|d| d.into_owned())
}

/// Percent-decodes `v`, or `None` where the decoded bytes are not UTF-8.
pub fn decode_uri(v: &str) -> (r: Option<String>)
    ensures
        match r {
            Some(d) => percent_decoded_utf8(v@) == Some(d@),
            None => percent_decoded_utf8(v@) is None,
        },
{
    percent_decode_text(v)
}

} // verus!
