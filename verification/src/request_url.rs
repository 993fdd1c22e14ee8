//! The URL of the request: what is given on the command line, with the
//! scheme and the host filled in where they were left out, parsed, and
//! with the query pairs of the request items appended.
//!
//! Parsing and appending are the `url` crate's. A URL is known to the
//! rest of the library by its text. The items on the `url` crate are
//! trusted: they state what the crate does and prove none of it.
use crate::error::{Error, ErrorView};
use crate::text::chars_of;
use url::Url;
use vstd::prelude::*;
use vstd::string::StringExecFns;
use vstd::utf8::encode_utf8;

verus! {

/// `url::Url`, a parsed URL. Nothing of its inside is known here.
#[verifier::external_type_specification]
#[verifier::external_body]
pub struct ExUrl(Url);

/// What a URL holds: its text, as the URL writes itself.
pub uninterp spec fn url_text(url: Url) -> Seq<char>;

/// What `Url::parse` makes of a text: the text of the URL that it
/// parsed, or the message of the error that it reported.
pub uninterp spec fn url_parsed(text: Seq<char>) -> Result<Seq<char>, Seq<char>>;

/// The text of a URL after one pair is appended to its query.
pub uninterp spec fn url_with_pair(url: Seq<char>, name: Seq<char>, value: Seq<char>) -> Seq<char>;

/// Parses a URL.
///
/// Trusted: `Url::parse`. The result is a function of the text alone:
/// the URL, known by its text, or the error, handed on as the message
/// that its `Display` writes.
#[verifier::external_body]
pub(crate) fn parse_url(text: &str) -> (r: Result<Url, String>)
    ensures
        match r {
            Ok(url) => url_parsed(text@) == Ok::<Seq<char>, Seq<char>>(url_text(url)),
            Err(message) => url_parsed(text@) == Err::<Seq<char>, Seq<char>>(message@),
        },
{
    Url::parse(text).map_err(|e: url::ParseError| e.to_string())
}

/// The text of a URL.
///
/// Trusted: `Url::as_str`, which is also what the URL's `Display`
/// writes.
#[verifier::external_body]
pub(crate) fn url_to_string(url: &Url) -> (text: String)
    ensures
        text@ == url_text(*url),
{
    url.as_str().to_owned()
}

/// Appends one pair to the query of a URL.
///
/// Trusted: `Url::query_pairs_mut` and `append_pair` on what it hands
/// out. The text afterwards is a function of the text before and of the
/// pair. The crate keeps positions in the text as 32-bit numbers and
/// panics where one does not fit; the pair adds at most three bytes for
/// each of its own and three more, so the text must have room for that.
#[verifier::external_body]
pub(crate) fn append_query_pair(url: &mut Url, name: &str, value: &str)
    requires
        pair_fits(url_text(*old(url)), name@, value@),
    ensures
        url_text(*final(url)) == url_with_pair(url_text(*old(url)), name@, value@),
{
    url.query_pairs_mut().append_pair(name, value);
}

/// Whether the text of a URL has room for one more pair: the bytes of
/// the text, three for each byte of the name and of the value, and
/// three more, are no more than a 32-bit number counts.
pub open spec fn pair_fits(url: Seq<char>, name: Seq<char>, value: Seq<char>) -> bool {
    encode_utf8(url).len() + 3 * encode_utf8(name).len() + 3 * encode_utf8(value).len() + 3
        <= u32::MAX
}

/// The text of the URL with the pairs appended to its query, one by
/// one; an error where the text has no room for one of them.
pub open spec fn with_query(url: Seq<char>, query: Seq<(Seq<char>, Seq<char>)>) -> Result<
    Seq<char>,
    ErrorView,
>
    decreases query.len(),
{
    if query.len() == 0 {
        Ok(url)
    } else if !pair_fits(url, query[0].0, query[0].1) {
        Err(ErrorView::UrlTooLong)
    } else {
        with_query(url_with_pair(url, query[0].0, query[0].1), query.skip(1))
    }
}

/// The text of the URL of a request: the URL of the command line,
/// completed and parsed, with the query pairs appended. Or the error of
/// the parser, with the completed URL that it was given.
pub open spec fn constructed(
    url: Seq<char>,
    default_scheme: Option<Seq<char>>,
    query: Seq<(Seq<char>, Seq<char>)>,
) -> Result<Seq<char>, ErrorView> {
    let full = completed(url, default_scheme);
    match url_parsed(full) {
        Err(message) => Err(ErrorView::InvalidUrl(full, message)),
        Ok(text) => with_query(text, query),
    }
}

/// The pairs of string slices as pairs of texts.
pub open spec fn str_pairs_view(pairs: Seq<(&str, &str)>) -> Seq<(Seq<char>, Seq<char>)> {
    pairs.map_values(|pair: (&str, &str)| (pair.0@, pair.1@))
}

/// The scheme, where one is given, as text.
pub open spec fn scheme_view(default_scheme: Option<&str>) -> Option<Seq<char>> {
    match default_scheme {
        Some(scheme) => Some(scheme@),
        None => None,
    }
}

/// Whether the character is an ASCII letter or digit.
pub open spec fn is_alphanumeric(c: char) -> bool {
    ('a' <= c <= 'z') || ('A' <= c <= 'Z') || ('0' <= c <= '9')
}

/// Whether a scheme ends at position `i` of `s`: a letter or digit
/// stands there, then `://`, then at least one more character of the
/// same line.
pub open spec fn scheme_ends_at(s: Seq<char>, i: int) -> bool {
    &&& 0 <= i
    &&& i + 4 < s.len()
    &&& is_alphanumeric(s[i])
    &&& s[i + 1] == ':'
    &&& s[i + 2] == '/'
    &&& s[i + 3] == '/'
    &&& s[i + 4] != '\n'
}

/// Whether the text names its scheme.
pub open spec fn has_scheme(s: Seq<char>) -> bool {
    exists|i: int| scheme_ends_at(s, i)
}

/// Whether the text ends in `://`.
pub open spec fn ends_with_separator(s: Seq<char>) -> bool {
    s.len() >= 3 && s[s.len() - 3] == ':' && s[s.len() - 2] == '/' && s[s.len() - 1] == '/'
}

/// The scheme to put before a URL that names none, with `://` at its
/// end: the given one, and `http` where none is given.
pub open spec fn scheme_prefix(default_scheme: Option<Seq<char>>) -> Seq<char> {
    let scheme = match default_scheme {
        Some(scheme) => scheme,
        None => "http://"@,
    };
    if ends_with_separator(scheme) {
        scheme
    } else {
        scheme + "://"@
    }
}

/// The URL in full. A URL that starts with a colon is a port, and a
/// path, on `localhost`; a URL that names no scheme gets the default
/// one; any other URL is taken as it is.
pub open spec fn completed(url: Seq<char>, default_scheme: Option<Seq<char>>) -> Seq<char> {
    if url.len() > 0 && url[0] == ':' {
        scheme_prefix(default_scheme) + "localhost"@ + url
    } else if !has_scheme(url) {
        scheme_prefix(default_scheme) + url
    } else {
        url
    }
}

/// Whether the character is an ASCII letter or digit.
fn alphanumeric(c: char) -> (r: bool)
    ensures
        r == is_alphanumeric(c),
{
    ('a' <= c && c <= 'z') || ('A' <= c && c <= 'Z') || ('0' <= c && c <= '9')
}

/// Whether the text names its scheme.
fn names_scheme(chars: &Vec<char>) -> (found: bool)
    ensures
        found == has_scheme(chars@),
{
    let n = chars.len();
    let mut i: usize = 0;
    while i < n && n - i > 4
        invariant
            n == chars.len(),
            i <= n,
            forall|j: int| 0 <= j < i ==> !scheme_ends_at(chars@, j),
        decreases n - i,
    {
        if alphanumeric(chars[i]) && chars[i + 1] == ':' && chars[i + 2] == '/' && chars[i + 3]
            == '/' && chars[i + 4] != '\n' {
            assert(scheme_ends_at(chars@, i as int));
            return true;
        }
        i += 1;
    }
    false
}

/// Completes the URL given on the command line: see [`completed`].
pub fn complete_url(url: &str, default_scheme: Option<&str>) -> (full: String)
    ensures
        full@ == completed(url@, scheme_view(default_scheme)),
{
    let scheme = match default_scheme {
        Some(scheme) => scheme,
        None => "http://",
    };
    let scheme_chars = chars_of(scheme);
    let n = scheme_chars.len();
    let mut prefix = String::from_str(scheme);
    if !(n >= 3 && scheme_chars[n - 3] == ':' && scheme_chars[n - 2] == '/' && scheme_chars[n - 1]
        == '/') {
        prefix.append("://");
    }
    let chars = chars_of(url);
    if chars.len() > 0 && chars[0] == ':' {
        prefix.append("localhost");
        prefix.append(url);
        prefix
    } else if !names_scheme(&chars) {
        prefix.append(url);
        prefix
    } else {
        String::from_str(url)
    }
}

/// Whether the URL has room for the pair.
fn has_room(url: &Url, name: &str, value: &str) -> (fits: bool)
    ensures
        fits == pair_fits(url_text(*url), name@, value@),
{
    let text = url_to_string(url);
    let url_len = text.as_str().as_bytes().len();
    let name_len = name.as_bytes().len();
    let value_len = value.as_bytes().len();
    let needed: u128 = url_len as u128 + 3 * (name_len as u128) + 3 * (value_len as u128) + 3;
    needed <= u32::MAX as u128
}

/// Builds the URL of a request from the URL given on the command line,
/// the default scheme and the query pairs: see [`constructed`].
pub fn construct_url(url: &str, default_scheme: Option<&str>, query: Vec<(&str, &str)>) -> (r:
    Result<Url, Error>)
    ensures
        match r {
            Ok(built) => constructed(url@, scheme_view(default_scheme), str_pairs_view(query@))
                == Ok::<Seq<char>, ErrorView>(url_text(built)),
            Err(e) => constructed(url@, scheme_view(default_scheme), str_pairs_view(query@))
                == Err::<Seq<char>, ErrorView>(e@),
        },
{
    let full = complete_url(url, default_scheme);
    let mut built = match parse_url(full.as_str()) {
        Ok(parsed) => parsed,
        Err(message) => {
            return Err(Error::InvalidUrl(full, message));
        },
    };
    let ghost pairs = str_pairs_view(query@);
    let mut i: usize = 0;
    assert(pairs.skip(0) =~= pairs);
    while i < query.len()
        invariant
            i <= query.len(),
            pairs == str_pairs_view(query@),
            constructed(url@, scheme_view(default_scheme), pairs) == with_query(
                url_text(built),
                pairs.skip(i as int),
            ),
        decreases query.len() - i,
    {
        let ghost rest = pairs.skip(i as int);
        assert(rest.skip(1) =~= pairs.skip(i + 1));
        let (name, value) = query[i];
        if !has_room(&built, name, value) {
            return Err(Error::UrlTooLong);
        }
        append_query_pair(&mut built, name, value);
        i += 1;
    }
    Ok(built)
}

} // verus!
