//! From a page's URL to its host and to the file that holds its Markdown.
use vstd::prelude::*;
use crate::text::{chars_of, push_range, push_str, string_of};

verus! {

/// What `url::Url::parse` followed by `Url::path` gives for a URL string:
/// `None` when the string does not parse.
pub uninterp spec fn url_path(s: Seq<char>) -> Option<Seq<char>>;

/// What `url::Url::parse` followed by `Url::host_str` gives for a URL
/// string: `None` when the string does not parse or has no host.
pub uninterp spec fn url_host(s: Seq<char>) -> Option<Seq<char>>;

/// What `slug::slugify` makes of a string.
pub uninterp spec fn slugify_of(s: Seq<char>) -> Seq<char>;

/// The characters a slug is made of.
pub open spec fn is_slug_char(c: char) -> bool {
    ('a' <= c && c <= 'z') || ('0' <= c && c <= '9') || c == '-'
}

/// A string of slug characters without `-` at either end and without two
/// `-` in a row.
pub open spec fn is_slug(s: Seq<char>) -> bool {
    &&& forall|i: int| 0 <= i < s.len() ==> is_slug_char(#[trigger] s[i])
    &&& s.len() > 0 ==> s[0] != '-' && s.last() != '-'
    &&& forall|i: int| 0 <= i < s.len() - 1 ==> !(#[trigger] s[i] == '-' && s[i + 1] == '-')
}

/// Relies on `url::Url::parse` and `Url::path`: the path of a URL that parses.
#[verifier::external_body]
fn parse_path(url: &str) -> (r: Option<String>)
    ensures
        match r {
            Some(p) => url_path(url@) == Some(p@),
            None => url_path(url@) is None,
        },
{
    url::Url::parse(url).ok().map(|u| u.path().to_string())
}

/// Relies on `url::Url::parse` and `Url::host_str`: the host of a URL that
/// parses and has one.
#[verifier::external_body]
fn extract_host(url: &str) -> (r: Option<String>)
    ensures
        match r {
            Some(h) => url_host(url@) == Some(h@),
            None => url_host(url@) is None,
        },
{
    url::Url::parse(url).ok()?.host_str().map(|s| s.to_string())
}

/// Relies on `slug::slugify`: its result holds only lower-case ASCII
/// letters, digits and `-`, never starts or ends with `-`, and never has
/// two `-` in a row.
#[verifier::external_body]
fn slugify(s: &str) -> (r: String)
    ensures
        r@ == slugify_of(s@),
        is_slug(r@),
{
    slug::slugify(s)
}

/// The host of a URL, or the empty string where it has none.
pub open spec fn host_or_empty(url: Seq<char>) -> Seq<char> {
    match url_host(url) {
        Some(h) => h,
        None => Seq::<char>::empty(),
    }
}

/// The host of a URL, or the empty string when it cannot be parsed or has no host.
pub fn host_of(url: &str) -> (r: String)
    ensures
        r@ == host_or_empty(url@),
{
    match extract_host(url) {
        Some(h) => h,
        None => String::new(),
    }
}

/// `p` without one leading and one trailing `/`.
pub open spec fn trim_slashes(p: Seq<char>) -> Seq<char> {
    let a = if p.len() > 0 && p[0] == '/' { p.drop_first() } else { p };
    if a.len() > 0 && a.last() == '/' { a.drop_last() } else { a }
}

/// Removes one leading and one trailing `/` from a path.
pub fn trim_slashes_of(p: &str) -> (r: String)
    ensures
        r@ == trim_slashes(p@),
{
    let v = chars_of(p);
    let n = v.len();
    let lo: usize = if n > 0 && v[0] == '/' { 1 } else { 0 };
    let hi: usize = if n > lo && v[n - 1] == '/' { n - 1 } else { n };
    let mut out: Vec<char> = Vec::new();
    push_range(&mut out, &v, lo, hi);
    let ghost a = if p@.len() > 0 && p@[0] == '/' { p@.drop_first() } else { p@ };
    assert(a =~= v@.subrange(lo as int, n as int));
    assert(out@ =~= trim_slashes(p@));
    string_of(&out)
}

/// The slug of a page whose URL has the path `path` (`None`: the URL does
/// not parse).
pub open spec fn slug_for_path(path: Option<Seq<char>>) -> Seq<char> {
    match path {
        None => "unknown"@,
        Some(p) => if trim_slashes(p).len() == 0 { "index"@ } else { slugify_of(trim_slashes(p)) },
    }
}

/// The slug of a URL: `index` for an empty path, `unknown` for a string that
/// is no URL, else the slugified path.
pub open spec fn slug_spec(url: Seq<char>) -> Seq<char> {
    slug_for_path(url_path(url))
}

/// The slug for a URL path, or for a URL that did not parse (`None`).
pub fn slug_from_path(path: Option<&str>) -> (r: String)
    ensures
        r@ == slug_for_path(match path { Some(p) => Some(p@), None => None }),
        r@ == "index"@ || r@ == "unknown"@ || is_slug(r@),
{
    match path {
        None => String::from_str("unknown"),
        Some(p) => {
            let t = trim_slashes_of(p);
            if t.as_str().unicode_len() == 0 {
                String::from_str("index")
            } else {
                slugify(t.as_str())
            }
        },
    }
}

/// The file-name stem under which a page's Markdown is stored.
pub fn url_to_slug(url: &str) -> (r: String)
    ensures
        r@ == slug_spec(url@),
        r@ == "index"@ || r@ == "unknown"@ || is_slug(r@),
{
    match parse_path(url) {
        Some(p) => slug_from_path(Some(p.as_str())),
        None => slug_from_path(None),
    }
}

/// `{root}{slug}.md`: where the Markdown of `url` is written.
pub fn output_path(root: &str, url: &str) -> (r: String)
    ensures
        r@ == root@ + slug_spec(url@) + ".md"@,
{
    let mut out = chars_of(root);
    let s = url_to_slug(url);
    push_str(&mut out, s.as_str());
    push_str(&mut out, ".md");
    string_of(&out)
}

} // verus!
