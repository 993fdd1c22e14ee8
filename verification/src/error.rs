//! What can go wrong while request items are parsed, assembled into a
//! body or translated.
use vstd::prelude::*;
use vstd::string::StringExecFns;

verus! {

/// A field whose kind does not go with the encoding of the body.
#[derive(Clone, Copy, Debug, PartialEq, Eq, Structural)]
pub enum Conflict {
    /// A JSON field in a URL-encoded form.
    JsonInForm,
    /// A JSON field in a multipart form.
    JsonInMultipart,
    /// A file in a JSON body.
    FileInJson,
}

/// A failure of the library. Each one ends the current invocation.
#[derive(Debug)]
pub enum Error {
    /// The token has no separator and no trailing `;`. Holds the token.
    Syntax(String),
    /// The text after `:=` is not JSON. Holds the token and the decoder's
    /// message.
    InvalidJson(String, String),
    /// A URL that cannot be parsed. Holds the URL, completed, and the
    /// parser's message.
    InvalidUrl(String, String),
    /// A URL that the query pairs would make longer than a URL can be.
    UrlTooLong,
    /// A header name that is not a valid HTTP header name. Holds the name.
    HeaderName(String),
    /// A header value that is not a valid HTTP header value. Holds the
    /// value.
    HeaderValue(String),
    /// A header value that cannot be written out as text. Holds the
    /// header's name.
    HeaderNotText(String),
    /// The header map took no more headers.
    TooManyHeaders,
    /// A field kind that the encoding of the body rules out.
    Conflict(Conflict),
    /// A form field name that could not be URL-encoded. Holds the name.
    Encoding(String),
}

/// The mathematical content of an [`Error`].
pub enum ErrorView {
    Syntax(Seq<char>),
    InvalidJson(Seq<char>, Seq<char>),
    InvalidUrl(Seq<char>, Seq<char>),
    UrlTooLong,
    HeaderName(Seq<char>),
    HeaderValue(Seq<char>),
    HeaderNotText(Seq<char>),
    TooManyHeaders,
    Conflict(Conflict),
    Encoding(Seq<char>),
}

impl View for Error {
    type V = ErrorView;

    open spec fn view(&self) -> ErrorView {
        match self {
            Error::Syntax(token) => ErrorView::Syntax(token@),
            Error::InvalidJson(token, message) => ErrorView::InvalidJson(token@, message@),
            Error::InvalidUrl(url, message) => ErrorView::InvalidUrl(url@, message@),
            Error::UrlTooLong => ErrorView::UrlTooLong,
            Error::HeaderName(name) => ErrorView::HeaderName(name@),
            Error::HeaderValue(value) => ErrorView::HeaderValue(value@),
            Error::HeaderNotText(name) => ErrorView::HeaderNotText(name@),
            Error::TooManyHeaders => ErrorView::TooManyHeaders,
            Error::Conflict(conflict) => ErrorView::Conflict(*conflict),
            Error::Encoding(name) => ErrorView::Encoding(name@),
        }
    }
}

/// What `{:?}` writes for a string: the string in double quotes, with
/// the characters escaped that Rust escapes in a string literal.
pub uninterp spec fn debug_text(s: Seq<char>) -> Seq<char>;

/// A string as `{:?}` shows it.
///
/// Trusted: `Debug` of `str` in the standard library, whose output is a
/// function of the string alone.
#[verifier::external_body]
fn debug_string(s: &str) -> (shown: String)
    ensures
        shown@ == debug_text(s@),
{
    format!("{:?}", s)
}

impl Conflict {
    /// What [`Conflict::message`] returns.
    pub open spec fn message_text(self) -> Seq<char> {
        match self {
            Conflict::JsonInForm => "JSON values are not supported in Form fields"@,
            Conflict::JsonInMultipart => "JSON values are not supported in multipart fields"@,
            Conflict::FileInJson => "Sending files is not supported when the request body is in JSON format"@,
        }
    }

    /// The conflict in words.
    pub fn message(self) -> (text: String)
        ensures
            text@ == self.message_text(),
    {
        match self {
            Conflict::JsonInForm => String::from_str("JSON values are not supported in Form fields"),
            Conflict::JsonInMultipart => String::from_str(
                "JSON values are not supported in multipart fields",
            ),
            Conflict::FileInJson => String::from_str(
                "Sending files is not supported when the request body is in JSON format",
            ),
        }
    }
}

impl ErrorView {
    /// What [`Error::message`] returns.
    pub open spec fn message_text(self) -> Seq<char> {
        match self {
            ErrorView::Syntax(token) => debug_text(token) + " is not a valid request item"@,
            ErrorView::InvalidJson(token, message) => debug_text(token) + ": "@ + message,
            ErrorView::InvalidUrl(url, message) => debug_text(url) + ": "@ + message,
            ErrorView::UrlTooLong => "the URL is too long"@,
            ErrorView::HeaderName(name) => "invalid HTTP header name: "@ + debug_text(name),
            ErrorView::HeaderValue(value) => "failed to parse header value: "@ + debug_text(value),
            ErrorView::HeaderNotText(name) => "failed to convert header to a str: "@ + debug_text(name),
            ErrorView::TooManyHeaders => "too many headers"@,
            ErrorView::Conflict(conflict) => conflict.message_text(),
            ErrorView::Encoding(name) => "cannot URL-encode the field name "@ + debug_text(name),
        }
    }
}

impl Error {
    /// The error in words, for the user. A syntax error and a JSON error
    /// show the offending token.
    pub fn message(&self) -> (text: String)
        ensures
            text@ == self@.message_text(),
    {
        match self {
            Error::Syntax(token) => {
                let mut text = debug_string(token.as_str());
                text.append(" is not a valid request item");
                text
            },
            Error::InvalidJson(token, message) => {
                let mut text = debug_string(token.as_str());
                text.append(": ");
                text.append(message.as_str());
                text
            },
            Error::InvalidUrl(url, message) => {
                let mut text = debug_string(url.as_str());
                text.append(": ");
                text.append(message.as_str());
                text
            },
            Error::UrlTooLong => String::from_str("the URL is too long"),
            Error::HeaderName(name) => {
                let mut text = String::from_str("invalid HTTP header name: ");
                let shown = debug_string(name.as_str());
                text.append(shown.as_str());
                text
            },
            Error::HeaderValue(value) => {
                let mut text = String::from_str("failed to parse header value: ");
                let shown = debug_string(value.as_str());
                text.append(shown.as_str());
                text
            },
            Error::HeaderNotText(name) => {
                let mut text = String::from_str("failed to convert header to a str: ");
                let shown = debug_string(name.as_str());
                text.append(shown.as_str());
                text
            },
            Error::TooManyHeaders => String::from_str("too many headers"),
            Error::Conflict(conflict) => conflict.message(),
            Error::Encoding(name) => {
                let mut text = String::from_str("cannot URL-encode the field name ");
                let shown = debug_string(name.as_str());
                text.append(shown.as_str());
                text
            },
        }
    }
}

} // verus!
