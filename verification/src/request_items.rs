//! Request items: the parser that turns one token into a typed item, the
//! ordered collection of items, and the request body built from them.
use crate::entries::{distinct_keys, lemma_with_entry_distinct, lemma_with_entry_len, with_entry};
use crate::error::{Conflict, Error, ErrorView};
use crate::grammar::{
    ends_with_bare_semicolon, escape, escaped, find_separator, lemma_split_escaped, separator_at,
    split, unescape, Separator,
};
use crate::headers::{
    encoded_entries, header_entries, header_map_insert, header_name_of, header_name_text,
    HEADER_ROOM,
    header_value_bytes, is_value_text, lemma_encoded_with_entry, lemma_header_value_chars,
    new_header_map, parse_header_name, parse_header_value,
};
use crate::json::{
    decode, json_decoded, json_members, json_string_text, json_text, new_object, object_insert,
    object_is_empty, string_value,
};
use crate::method::{Method, MethodView};
use crate::request_url::str_pairs_view;
use crate::text::{chars_of, string_of};
use reqwest::header::{HeaderMap, HeaderName, HeaderValue};
use serde_json::Value;
use vstd::prelude::*;

verus! {

/// The content type of a URL-encoded form.
pub const FORM_CONTENT_TYPE: &'static str = "application/x-www-form-urlencoded";

/// The content type of a JSON body.
pub const JSON_CONTENT_TYPE: &'static str = "application/json";

/// What a request with a JSON body accepts.
pub const JSON_ACCEPT: &'static str = "application/json, */*;q=0.5";

/// One parsed token of the command line: a header, a query parameter, a
/// body field or a file. Which variant it is follows from the separator
/// that the token was cut at.
#[derive(Debug, PartialEq)]
pub enum RequestItem {
    /// `name:value`, or `name;`: set a header.
    HttpHeader(String, String),
    /// `name:`: remove a header that would be sent by default.
    HttpHeaderToUnset(String),
    /// `name==value`: a pair of the query string.
    UrlParam(String, String),
    /// `name=value`: a body field with a string value.
    DataField(String, String),
    /// `name:=json`: a body field with a JSON value.
    JSONField(String, Value),
    /// `name@path` or `name@path;type=mime`: a file to upload, with the
    /// MIME type where one is given.
    FormFile(String, String, Option<String>),
}

/// The mathematical content of a [`RequestItem`]. A JSON value stands
/// here as its compact text.
pub enum ItemView {
    HttpHeader(Seq<char>, Seq<char>),
    HttpHeaderToUnset(Seq<char>),
    UrlParam(Seq<char>, Seq<char>),
    DataField(Seq<char>, Seq<char>),
    JsonField(Seq<char>, Seq<char>),
    FormFile(Seq<char>, Seq<char>, Option<Seq<char>>),
}

impl View for RequestItem {
    type V = ItemView;

    open spec fn view(&self) -> ItemView {
        match self {
            RequestItem::HttpHeader(name, value) => ItemView::HttpHeader(name@, value@),
            RequestItem::HttpHeaderToUnset(name) => ItemView::HttpHeaderToUnset(name@),
            RequestItem::UrlParam(name, value) => ItemView::UrlParam(name@, value@),
            RequestItem::DataField(name, value) => ItemView::DataField(name@, value@),
            RequestItem::JSONField(name, value) => ItemView::JsonField(name@, json_text(*value)),
            RequestItem::FormFile(name, path, mime) => ItemView::FormFile(
                name@,
                path@,
                match mime {
                    Some(mime) => Some(mime@),
                    None => None,
                },
            ),
        }
    }
}

impl Clone for RequestItem {
    fn clone(&self) -> (copy: RequestItem)
        ensures
            copy@ == self@,
    {
        match self {
            RequestItem::HttpHeader(name, value) => RequestItem::HttpHeader(
                name.clone(),
                value.clone(),
            ),
            RequestItem::HttpHeaderToUnset(name) => RequestItem::HttpHeaderToUnset(name.clone()),
            RequestItem::UrlParam(name, value) => RequestItem::UrlParam(
                name.clone(),
                value.clone(),
            ),
            RequestItem::DataField(name, value) => RequestItem::DataField(
                name.clone(),
                value.clone(),
            ),
            RequestItem::JSONField(name, value) => RequestItem::JSONField(
                name.clone(),
                value.clone(),
            ),
            RequestItem::FormFile(name, path, mime) => RequestItem::FormFile(
                name.clone(),
                path.clone(),
                match mime {
                    Some(mime) => Some(mime.clone()),
                    None => None,
                },
            ),
        }
    }
}

/// Whether `;type=` stands at position `i` of `s`.
pub open spec fn type_marker_at(s: Seq<char>, i: int) -> bool {
    &&& 0 <= i
    &&& i + 6 <= s.len()
    &&& s[i] == ';'
    &&& s[i + 1] == 't'
    &&& s[i + 2] == 'y'
    &&& s[i + 3] == 'p'
    &&& s[i + 4] == 'e'
    &&& s[i + 5] == '='
}

/// The rightmost position below `bound` at which `;type=` stands.
pub open spec fn last_type_marker(s: Seq<char>, bound: int) -> Option<int>
    decreases bound,
{
    if bound <= 0 {
        None
    } else if type_marker_at(s, bound - 1) {
        Some(bound - 1)
    } else {
        last_type_marker(s, bound - 1)
    }
}

/// The value of a file item cut at its rightmost `;type=`: the path
/// before it and the MIME type after it. Without `;type=` the whole
/// value is the path.
pub open spec fn path_and_type(value: Seq<char>) -> (Seq<char>, Option<Seq<char>>) {
    match last_type_marker(value, value.len() as int) {
        Some(at) => (value.take(at), Some(value.skip(at + 6))),
        None => (value, None),
    }
}

/// The item that a key, a separator and a value stand for, or the error
/// where the value of a JSON field is not JSON. `token` is what the
/// error then shows.
pub open spec fn classified(
    token: Seq<char>,
    key: Seq<char>,
    sep: Separator,
    value: Seq<char>,
) -> Result<ItemView, ErrorView> {
    match sep {
        Separator::UrlParam => Ok(ItemView::UrlParam(key, value)),
        Separator::DataField => Ok(ItemView::DataField(key, value)),
        Separator::JsonField => match json_decoded(value) {
            Ok(text) => Ok(ItemView::JsonField(key, text)),
            Err(message) => Err(ErrorView::InvalidJson(token, message)),
        },
        Separator::FormFile => Ok(
            ItemView::FormFile(key, path_and_type(value).0, path_and_type(value).1),
        ),
        Separator::Header => if value.len() == 0 {
            Ok(ItemView::HttpHeaderToUnset(key))
        } else {
            Ok(ItemView::HttpHeader(key, value))
        },
    }
}

/// What a token parses to. A token with a separator is cut there and
/// classified. A token without one that ends in an unescaped `;` sets
/// the header named by what stands before the `;` to the empty value.
/// Any other token is a syntax error.
pub open spec fn parsed(token: Seq<char>) -> Result<ItemView, ErrorView> {
    match split(token) {
        Some((key, sep, value)) => classified(token, key, sep, value),
        None => if ends_with_bare_semicolon(token) {
            Ok(ItemView::HttpHeader(token.drop_last(), Seq::empty()))
        } else {
            Err(ErrorView::Syntax(token))
        },
    }
}

/// The variant of an item follows from the separator that the token was
/// cut at, and from nothing else but, for a header, whether the value is
/// empty: no two separators give the same variant.
pub proof fn lemma_variant_follows_separator(
    token: Seq<char>,
    key: Seq<char>,
    sep: Separator,
    value: Seq<char>,
)
    requires
        classified(token, key, sep, value) is Ok,
    ensures
        ({
            let item = classified(token, key, sep, value)->Ok_0;
            &&& item is UrlParam <==> sep == Separator::UrlParam
            &&& item is DataField <==> sep == Separator::DataField
            &&& item is JsonField <==> sep == Separator::JsonField
            &&& item is FormFile <==> sep == Separator::FormFile
            &&& item is HttpHeader <==> sep == Separator::Header && value.len() > 0
            &&& item is HttpHeaderToUnset <==> sep == Separator::Header && value.len() == 0
        }),
{
}

/// Escapes are resolved by parsing: for every key, separator and value,
/// the token written as the escaped key, the separator and the escaped
/// value parses to the item that this key, this separator and this
/// value stand for, with the characters that were escaped in it and the
/// backslashes gone.
pub proof fn lemma_parse_escaped(key: Seq<char>, sep: Separator, value: Seq<char>)
    ensures
        ({
            let token = escape(key) + sep.text() + escape(value);
            parsed(token) == classified(token, key, sep, value)
        }),
{
    lemma_split_escaped(key, sep, value);
}

/// Parsing is stable: a token that parses to an item at a separator, cut
/// into its key and its value and written out again with both escaped,
/// parses to the same item.
pub proof fn lemma_reparse(token: Seq<char>)
    requires
        split(token) is Some,
        parsed(token) is Ok,
    ensures
        ({
            let (key, sep, value) = split(token)->0;
            parsed(escape(key) + sep.text() + escape(value)) == parsed(token)
        }),
{
    let (key, sep, value) = split(token)->0;
    lemma_split_escaped(key, sep, value);
}

/// The separator that starts at `chars[i]`, if any.
fn separator_here(chars: &Vec<char>, i: usize) -> (sep: Option<Separator>)
    requires
        i < chars.len(),
    ensures
        sep == separator_at(chars@, i as int),
{
    let c = chars[i];
    let followed_by_equals = chars.len() - i >= 2 && chars[i + 1] == '=';
    if c == '=' && followed_by_equals {
        Some(Separator::UrlParam)
    } else if c == ':' && followed_by_equals {
        Some(Separator::JsonField)
    } else if c == '=' {
        Some(Separator::DataField)
    } else if c == '@' {
        Some(Separator::FormFile)
    } else if c == ':' {
        Some(Separator::Header)
    } else {
        None
    }
}

/// Scans for the separator. Where there is none, also tells whether the
/// token ends in an unescaped `;`.
fn scan(chars: &Vec<char>) -> (found: (Option<(usize, Separator)>, bool))
    ensures
        match found.0 {
            Some((at, sep)) => {
                &&& find_separator(chars@, 0) == Some((at as int, sep))
                &&& at + sep.text().len() <= chars.len()
            },
            None => {
                &&& find_separator(chars@, 0) is None
                &&& found.1 == ends_with_bare_semicolon(chars@)
            },
        },
{
    let n = chars.len();
    let mut i: usize = 0;
    while i < n
        invariant
            n == chars.len(),
            i <= n,
            find_separator(chars@, 0) == find_separator(chars@, i as int),
            !escaped(chars@, i as int),
            i == n && n > 0 ==> escaped(chars@, n - 1),
        decreases n - i,
    {
        if chars[i] == '\\' {
            assert(escaped(chars@, i + 1));
            if n - i < 2 {
                assert(find_separator(chars@, i + 2) is None);
                return (None, false);
            }
            i += 2;
        } else {
            match separator_here(chars, i) {
                Some(sep) => {
                    return (Some((i, sep)), false);
                },
                None => {
                    if n - i < 2 {
                        assert(find_separator(chars@, i + 1) is None);
                        return (None, chars[i] == ';');
                    }
                    i += 1;
                },
            }
        }
    }
    (None, false)
}

/// `chars[from..to]` with its escapes resolved.
fn unescape_range(chars: &Vec<char>, from: usize, to: usize) -> (out: Vec<char>)
    requires
        from <= to <= chars.len(),
    ensures
        out@ == unescape(chars@.subrange(from as int, to as int)),
{
    let mut out: Vec<char> = Vec::new();
    let mut i: usize = from;
    while i < to
        invariant
            from <= i <= to <= chars.len(),
            out@ + unescape(chars@.subrange(i as int, to as int)) == unescape(
                chars@.subrange(from as int, to as int),
            ),
        decreases to - i,
    {
        let ghost rest = chars@.subrange(i as int, to as int);
        let c = chars[i];
        if c != '\\' {
            out.push(c);
            assert(rest.skip(1) =~= chars@.subrange(i + 1, to as int));
            i += 1;
        } else if to - i < 2 {
            out.push(c);
            i += 1;
        } else {
            let d = chars[i + 1];
            assert(rest.skip(2) =~= chars@.subrange(i + 2, to as int));
            if d == '=' || d == '@' || d == ':' || d == ';' || d == '\\' {
                out.push(d);
            } else {
                out.push(c);
                out.push(d);
            }
            i += 2;
        }
    }
    out
}

/// Whether `;type=` stands at `chars[i]`.
fn type_marker_here(chars: &Vec<char>, i: usize) -> (here: bool)
    requires
        i < chars.len(),
    ensures
        here == type_marker_at(chars@, i as int),
{
    chars.len() - i >= 6 && chars[i] == ';' && chars[i + 1] == 't' && chars[i + 2] == 'y'
        && chars[i + 3] == 'p' && chars[i + 4] == 'e' && chars[i + 5] == '='
}

/// Cuts the value of a file item at its rightmost `;type=`.
pub fn split_path_and_type(value: &str) -> (cut: (String, Option<String>))
    ensures
        cut.0@ == path_and_type(value@).0,
        match cut.1 {
            Some(mime) => path_and_type(value@).1 == Some(mime@),
            None => path_and_type(value@).1 is None,
        },
{
    let chars = chars_of(value);
    let n = chars.len();
    let mut bound: usize = n;
    while bound > 0
        invariant
            n == chars.len(),
            chars@ == value@,
            bound <= n,
            last_type_marker(chars@, n as int) == last_type_marker(chars@, bound as int),
        decreases bound,
    {
        if type_marker_here(&chars, bound - 1) {
            let path = string_of(&chars, 0, bound - 1);
            let mime = string_of(&chars, bound + 5, n);
            return (path, Some(mime));
        }
        bound -= 1;
    }
    (string_of(&chars, 0, n), None)
}

/// Cuts a token at its separator.
///
/// Returns the key and the value, both with escapes resolved, and the
/// separator between them; `None` where the token has no separator.
pub fn split_token(token: &str) -> (cut: Option<(String, Separator, String)>)
    ensures
        match cut {
            Some((key, sep, value)) => split(token@) == Some((key@, sep, value@)),
            None => split(token@) is None,
        },
{
    let chars = chars_of(token);
    match scan(&chars).0 {
        Some((at, sep)) => {
            let (key, value) = cut(&chars, at, sep);
            Some((key, sep, value))
        },
        None => None,
    }
}

/// The key before the separator at `at` and the value after it, both
/// with escapes resolved.
fn cut(chars: &Vec<char>, at: usize, sep: Separator) -> (r: (String, String))
    requires
        at + sep.text().len() <= chars.len(),
    ensures
        r.0@ == unescape(chars@.take(at as int)),
        r.1@ == unescape(chars@.skip(at + sep.text().len())),
{
    let key = unescape_range(chars, 0, at);
    let value = unescape_range(chars, at + sep.width(), chars.len());
    (string_of(&key, 0, key.len()), string_of(&value, 0, value.len()))
}

impl RequestItem {
    /// The item that a key, a separator and a value stand for.
    ///
    /// The value of a JSON field is parsed here, and the error, where it
    /// is not JSON, shows `token`. A header with an empty value is a
    /// header to unset. The value of a file is cut at its rightmost
    /// `;type=`.
    pub fn classify(token: &str, key: String, sep: Separator, value: String) -> (r: Result<
        RequestItem,
        Error,
    >)
        ensures
            match r {
                Ok(item) => classified(token@, key@, sep, value@) == Ok::<ItemView, ErrorView>(
                    item@,
                ),
                Err(e) => classified(token@, key@, sep, value@) == Err::<ItemView, ErrorView>(e@),
            },
    {
        match sep {
            Separator::UrlParam => Ok(RequestItem::UrlParam(key, value)),
            Separator::DataField => Ok(RequestItem::DataField(key, value)),
            Separator::JsonField => match decode(value.as_str()) {
                Ok(json) => Ok(RequestItem::JSONField(key, json)),
                Err(message) => Err(Error::InvalidJson(token.to_owned(), message)),
            },
            Separator::FormFile => {
                let (path, mime) = split_path_and_type(value.as_str());
                Ok(RequestItem::FormFile(key, path, mime))
            },
            Separator::Header => if value.as_str().unicode_len() == 0 {
                Ok(RequestItem::HttpHeaderToUnset(key))
            } else {
                Ok(RequestItem::HttpHeader(key, value))
            },
        }
    }

    /// Parses one token of the command line.
    ///
    /// The result is a function of the token alone, [`parsed`]: the item
    /// that the token stands for, [`Error::InvalidJson`] where the text
    /// after `:=` is not JSON, and [`Error::Syntax`] where the token has
    /// neither a separator nor an unescaped `;` at its end.
    pub fn parse(token: &str) -> (r: Result<RequestItem, Error>)
        ensures
            match r {
                Ok(item) => parsed(token@) == Ok::<ItemView, ErrorView>(item@),
                Err(e) => parsed(token@) == Err::<ItemView, ErrorView>(e@),
            },
    {
        let chars = chars_of(token);
        let (found, bare_semicolon) = scan(&chars);
        match found {
            Some((at, sep)) => {
                let (key, value) = cut(&chars, at, sep);
                RequestItem::classify(token, key, sep, value)
            },
            None => if bare_semicolon {
                let name = string_of(&chars, 0, chars.len() - 1);
                Ok(RequestItem::HttpHeader(name, String::new()))
            } else {
                Err(Error::Syntax(token.to_owned()))
            },
        }
    }
}

impl std::str::FromStr for RequestItem {
    type Err = Error;

    /// Parses one token of the command line: see [`RequestItem::parse`].
    fn from_str(request_item: &str) -> (r: Result<RequestItem, Error>)
        ensures
            match r {
                Ok(item) => parsed(request_item@) == Ok::<ItemView, ErrorView>(item@),
                Err(e) => parsed(request_item@) == Err::<ItemView, ErrorView>(e@),
            },
    {
        RequestItem::parse(request_item)
    }
}

/// How the body of the request is to be encoded, where the command line
/// says so.
#[derive(Clone, Copy, Debug, PartialEq, Eq, Structural)]
pub enum RequestType {
    /// A JSON object.
    Json,
    /// A URL-encoded form.
    Form,
    /// A multipart form.
    Multipart,
}

/// One part of a multipart form.
#[derive(Debug, PartialEq, Eq)]
pub enum Part {
    /// A field with its text: name and value.
    Text(String, String),
    /// A file to stream: the field's name, the file's path, and the MIME
    /// type where the item gave one.
    File(String, String, Option<String>),
}

/// The mathematical content of a [`Part`].
pub enum PartView {
    Text(Seq<char>, Seq<char>),
    File(Seq<char>, Seq<char>, Option<Seq<char>>),
}

impl View for Part {
    type V = PartView;

    open spec fn view(&self) -> PartView {
        match self {
            Part::Text(name, value) => PartView::Text(name@, value@),
            Part::File(name, path, mime) => PartView::File(
                name@,
                path@,
                match mime {
                    Some(mime) => Some(mime@),
                    None => None,
                },
            ),
        }
    }
}

/// The payload of a request, in one of four encodings.
#[derive(Debug)]
pub enum Body {
    /// A JSON object. Its keys are distinct and keep the order in which
    /// they first came.
    Json(serde_json::Map<String, Value>),
    /// The fields of a URL-encoded form, in order, duplicates included.
    Form(Vec<(String, String)>),
    /// The parts of a multipart form, in order.
    Multipart(Vec<Part>),
    /// Bytes that are sent as they are.
    Raw(Vec<u8>),
}

/// The mathematical content of a [`Body`]. A JSON value stands here as
/// its compact text.
pub enum BodyView {
    Json(Seq<(Seq<char>, Seq<char>)>),
    Form(Seq<(Seq<char>, Seq<char>)>),
    Multipart(Seq<PartView>),
    Raw(Seq<u8>),
}

/// The pairs of strings as pairs of texts.
pub open spec fn pairs_view(pairs: Seq<(String, String)>) -> Seq<(Seq<char>, Seq<char>)> {
    pairs.map_values(|pair: (String, String)| (pair.0@, pair.1@))
}

/// The parts as their contents.
pub open spec fn parts_view(parts: Seq<Part>) -> Seq<PartView> {
    parts.map_values(|part: Part| part@)
}

impl View for Body {
    type V = BodyView;

    open spec fn view(&self) -> BodyView {
        match self {
            Body::Json(object) => BodyView::Json(json_members(*object)),
            Body::Form(fields) => BodyView::Form(pairs_view(fields@)),
            Body::Multipart(parts) => BodyView::Multipart(parts_view(parts@)),
            Body::Raw(bytes) => BodyView::Raw(bytes@),
        }
    }
}

impl BodyView {
    /// Whether there is nothing to send. A JSON object and a form are
    /// empty where they have no member and no field, raw bytes where
    /// there are none. A multipart form is never empty: without parts
    /// it still has its framing.
    pub open spec fn is_empty(self) -> bool {
        match self {
            BodyView::Json(members) => members.len() == 0,
            BodyView::Form(fields) => fields.len() == 0,
            BodyView::Multipart(_) => false,
            BodyView::Raw(bytes) => bytes.len() == 0,
        }
    }
}

impl Body {
    /// Whether there is nothing to send: see [`BodyView::is_empty`].
    pub fn is_empty(&self) -> (empty: bool)
        ensures
            empty == self@.is_empty(),
    {
        match self {
            Body::Json(object) => object_is_empty(object),
            Body::Form(fields) => fields.len() == 0,
            Body::Raw(bytes) => bytes.len() == 0,
            Body::Multipart(_) => false,
        }
    }

    /// The method for a request with this body and no method given:
    /// `POST` where there is something to send, else `GET`.
    pub fn pick_method(&self) -> (method: Method)
        ensures
            method@ == if self@.is_empty() {
                MethodView::GET
            } else {
                MethodView::POST
            },
    {
        if self.is_empty() {
            Method::GET
        } else {
            Method::POST
        }
    }

    /// Whether this is a multipart form.
    pub fn is_multipart(&self) -> (multipart: bool)
        ensures
            multipart == (self@ is Multipart),
    {
        match self {
            Body::Multipart(_) => true,
            _ => false,
        }
    }
}

/// The request items of one command line, in the order in which they
/// were given.
#[derive(Debug)]
pub struct RequestItems(pub Vec<RequestItem>);

impl View for RequestItems {
    type V = Seq<ItemView>;

    open spec fn view(&self) -> Seq<ItemView> {
        self.0@.map_values(|item: RequestItem| item@)
    }
}

/// Whether one of the items is a file.
pub open spec fn has_files(items: Seq<ItemView>) -> bool {
    exists|i: int| 0 <= i < items.len() && #[trigger] items[i] is FormFile
}

/// Whether one of the items is a JSON field.
pub open spec fn has_json_fields(items: Seq<ItemView>) -> bool {
    exists|i: int| 0 <= i < items.len() && #[trigger] items[i] is JsonField
}

/// Whether the item goes into the body: a data field, a JSON field or a
/// file.
pub open spec fn is_body_item(item: ItemView) -> bool {
    item is DataField || item is JsonField || item is FormFile
}

/// The query pairs among the items, in order, duplicates included.
pub open spec fn query_of(items: Seq<ItemView>) -> Seq<(Seq<char>, Seq<char>)>
    decreases items.len(),
{
    if items.len() == 0 {
        Seq::empty()
    } else {
        let before = query_of(items.drop_last());
        match items.last() {
            ItemView::UrlParam(name, value) => before.push((name, value)),
            _ => before,
        }
    }
}

/// The headers among the items: the headers to set, each with its name
/// as a header map spells it and its value, after the items were put
/// into the map one by one (a later value for a name replaces the
/// earlier one, where that stood), and the names of the headers to
/// unset, in order. Or the error of the first item whose name or value
/// is not valid.
pub open spec fn header_fields_of(items: Seq<ItemView>) -> Result<
    (Seq<(Seq<char>, Seq<char>)>, Seq<Seq<char>>),
    ErrorView,
>
    decreases items.len(),
{
    if items.len() == 0 {
        Ok((Seq::empty(), Seq::empty()))
    } else {
        match header_fields_of(items.drop_last()) {
            Err(e) => Err(e),
            Ok((set, unset)) => match items.last() {
                ItemView::HttpHeader(name, value) => match header_name_of(name) {
                    None => Err(ErrorView::HeaderName(name)),
                    Some(name_text) => if is_value_text(value) {
                        Ok((with_entry(set, name_text, value), unset))
                    } else {
                        Err(ErrorView::HeaderValue(value))
                    },
                },
                ItemView::HttpHeaderToUnset(name) => match header_name_of(name) {
                    None => Err(ErrorView::HeaderName(name)),
                    Some(name_text) => Ok((set, unset.push(name_text))),
                },
                _ => Ok((set, unset)),
            },
        }
    }
}

/// The headers among the items as a header map holds them, each value
/// as its bytes, and the names of the headers to unset: see
/// [`header_fields_of`].
pub open spec fn headers_of(items: Seq<ItemView>) -> Result<
    (Seq<(Seq<char>, Seq<u8>)>, Seq<Seq<char>>),
    ErrorView,
> {
    match header_fields_of(items) {
        Ok((set, unset)) => Ok((encoded_entries(set), unset)),
        Err(e) => Err(e),
    }
}

/// Whether the header map may refuse the header that item `i` sets: the
/// items up to and with this one are valid, and the items before it
/// have set [`HEADER_ROOM`] headers or more.
pub open spec fn out_of_room_at(items: Seq<ItemView>, i: int) -> bool {
    &&& 0 <= i < items.len()
    &&& items[i] is HttpHeader
    &&& header_fields_of(items.take(i + 1)) is Ok
    &&& header_fields_of(items.take(i)) matches Ok(before) && before.0.len() >= HEADER_ROOM
}

/// Whether the header map may refuse one of the headers that the items
/// set.
pub open spec fn may_run_out_of_room(items: Seq<ItemView>) -> bool {
    exists|i: int| out_of_room_at(items, i)
}

/// The members of the JSON object built from the items: each JSON field
/// with its value, each data field with its value as a JSON string, a
/// later member for a key replacing the earlier one where that stood.
pub open spec fn json_body_of(items: Seq<ItemView>) -> Seq<(Seq<char>, Seq<char>)>
    decreases items.len(),
{
    if items.len() == 0 {
        Seq::empty()
    } else {
        let before = json_body_of(items.drop_last());
        match items.last() {
            ItemView::JsonField(name, text) => with_entry(before, name, text),
            ItemView::DataField(name, value) => with_entry(before, name, json_string_text(value)),
            _ => before,
        }
    }
}

/// The fields of the form built from the items: the data fields, in
/// order.
pub open spec fn form_body_of(items: Seq<ItemView>) -> Seq<(Seq<char>, Seq<char>)>
    decreases items.len(),
{
    if items.len() == 0 {
        Seq::empty()
    } else {
        let before = form_body_of(items.drop_last());
        match items.last() {
            ItemView::DataField(name, value) => before.push((name, value)),
            _ => before,
        }
    }
}

/// The parts of the multipart form built from the items: a text part for
/// each data field and a file part for each file, in order.
pub open spec fn multipart_body_of(items: Seq<ItemView>) -> Seq<PartView>
    decreases items.len(),
{
    if items.len() == 0 {
        Seq::empty()
    } else {
        let before = multipart_body_of(items.drop_last());
        match items.last() {
            ItemView::DataField(name, value) => before.push(PartView::Text(name, value)),
            ItemView::FormFile(name, path, mime) => before.push(PartView::File(name, path, mime)),
            _ => before,
        }
    }
}

/// The body built from the items under the given hint, or the conflict
/// that rules it out.
///
/// A multipart form where the hint says so, or says "form" while there
/// are files; it takes no JSON field. A URL-encoded form where the hint
/// says "form" and there are no files; it takes no JSON field either.
/// Else a JSON object, which takes no file.
pub open spec fn body_of(items: Seq<ItemView>, hint: Option<RequestType>) -> Result<
    BodyView,
    Conflict,
> {
    if hint == Some(RequestType::Multipart) || (hint == Some(RequestType::Form) && has_files(
        items,
    )) {
        if has_json_fields(items) {
            Err(Conflict::JsonInMultipart)
        } else {
            Ok(BodyView::Multipart(multipart_body_of(items)))
        }
    } else if hint == Some(RequestType::Form) {
        if has_json_fields(items) {
            Err(Conflict::JsonInForm)
        } else {
            Ok(BodyView::Form(form_body_of(items)))
        }
    } else {
        if has_files(items) {
            Err(Conflict::FileInJson)
        } else {
            Ok(BodyView::Json(json_body_of(items)))
        }
    }
}

/// The method that the items and the hint suggest: `POST` where the hint
/// says "multipart" or an item goes into the body, else `GET`.
pub open spec fn method_of(items: Seq<ItemView>, hint: Option<RequestType>) -> MethodView {
    if hint == Some(RequestType::Multipart) || exists|i: int|
        0 <= i < items.len() && is_body_item(#[trigger] items[i]) {
        MethodView::POST
    } else {
        MethodView::GET
    }
}

/// The texts of the header names.
pub open spec fn names_view(names: Seq<HeaderName>) -> Seq<Seq<char>> {
    names.map_values(|name: HeaderName| header_name_text(name))
}

impl RequestItems {
    /// The collection of the given items.
    pub fn new(request_items: Vec<RequestItem>) -> (items: RequestItems)
        ensures
            items.0 == request_items,
    {
        RequestItems(request_items)
    }

    /// Whether one of the items is a file.
    pub fn has_form_files(&self) -> (found: bool)
        ensures
            found == has_files(self@),
    {
        let mut i: usize = 0;
        while i < self.0.len()
            invariant
                i <= self.0.len(),
                forall|j: int| 0 <= j < i ==> !(#[trigger] self@[j] is FormFile),
            decreases self.0.len() - i,
        {
            match &self.0[i] {
                RequestItem::FormFile(_, _, _) => {
                    assert(self@[i as int] is FormFile);
                    return true;
                },
                _ => {},
            }
            i += 1;
        }
        false
    }

    /// Whether one of the items is a JSON field.
    pub(crate) fn has_json(&self) -> (found: bool)
        ensures
            found == has_json_fields(self@),
    {
        let mut i: usize = 0;
        while i < self.0.len()
            invariant
                i <= self.0.len(),
                forall|j: int| 0 <= j < i ==> !(#[trigger] self@[j] is JsonField),
            decreases self.0.len() - i,
        {
            match &self.0[i] {
                RequestItem::JSONField(_, _) => {
                    assert(self@[i as int] is JsonField);
                    return true;
                },
                _ => {},
            }
            i += 1;
        }
        false
    }

    /// The headers that the items set, as a header map, and the names of
    /// the headers that they unset, in order.
    ///
    /// The result is [`headers_of`], `Ok` or `Err`: it fails on the
    /// first item whose header name or value is not valid, with that
    /// name or value. The one exception is a header map that is full: it
    /// may refuse a valid header once [`HEADER_ROOM`] headers are set
    /// before it, and the result is then [`Error::TooManyHeaders`]. With
    /// no more than [`HEADER_ROOM`] items that does not happen.
    pub fn headers(&self) -> (r: Result<(HeaderMap<HeaderValue>, Vec<HeaderName>), Error>)
        ensures
            match r {
                Ok((map, unset)) => headers_of(self@) == Ok::<
                    (Seq<(Seq<char>, Seq<u8>)>, Seq<Seq<char>>),
                    ErrorView,
                >((header_entries(map), names_view(unset@))) && distinct_keys(header_entries(map)),
                Err(e) => headers_of(self@) == Err::<
                    (Seq<(Seq<char>, Seq<u8>)>, Seq<Seq<char>>),
                    ErrorView,
                >(e@) || (e@ is TooManyHeaders && may_run_out_of_room(self@)),
            },
            self@.len() <= HEADER_ROOM ==> (r matches Err(e) ==> headers_of(self@) == Err::<
                (Seq<(Seq<char>, Seq<u8>)>, Seq<Seq<char>>),
                ErrorView,
            >(e@)),
    {
        let mut headers = new_header_map();
        let mut headers_to_unset: Vec<HeaderName> = Vec::new();
        let ghost mut set = Seq::<(Seq<char>, Seq<char>)>::empty();
        let mut i: usize = 0;
        assert(names_view(headers_to_unset@) =~= Seq::<Seq<char>>::empty());
        while i < self.0.len()
            invariant
                i <= self.0.len(),
                distinct_keys(header_entries(headers)),
                header_entries(headers) == encoded_entries(set),
                header_fields_of(self@.take(i as int)) == Ok::<
                    (Seq<(Seq<char>, Seq<char>)>, Seq<Seq<char>>),
                    ErrorView,
                >((set, names_view(headers_to_unset@))),
            decreases self.0.len() - i,
        {
            let ghost next = self@.take(i + 1);
            assert(next.drop_last() =~= self@.take(i as int));
            proof {
                if header_fields_of(next) is Err {
                    lemma_headers_error_stays(self@, i + 1);
                }
            }
            match &self.0[i] {
                RequestItem::HttpHeader(key, value) => {
                    let name = match parse_header_name(key.as_str()) {
                        Some(name) => name,
                        None => {
                            return Err(Error::HeaderName(key.clone()));
                        },
                    };
                    proof {
                        lemma_header_value_chars(value@);
                    }
                    let header_value = match parse_header_value(value.as_str()) {
                        Some(header_value) => header_value,
                        None => {
                            return Err(Error::HeaderValue(value.clone()));
                        },
                    };
                    proof {
                        lemma_with_entry_distinct(
                            header_entries(headers),
                            header_name_text(name),
                            header_value_bytes(header_value),
                        );
                        lemma_encoded_with_entry(set, header_name_text(name), value@);
                        set = with_entry(set, header_name_text(name), value@);
                    }
                    if !header_map_insert(&mut headers, name, header_value) {
                        proof {
                            assert(out_of_room_at(self@, i as int));
                            if self@.len() <= HEADER_ROOM {
                                lemma_room_for_few(self@);
                            }
                        }
                        return Err(Error::TooManyHeaders);
                    }
                },
                RequestItem::HttpHeaderToUnset(key) => {
                    let name = match parse_header_name(key.as_str()) {
                        Some(name) => name,
                        None => {
                            return Err(Error::HeaderName(key.clone()));
                        },
                    };
                    assert(names_view(headers_to_unset@.push(name)) =~= names_view(
                        headers_to_unset@,
                    ).push(header_name_text(name)));
                    headers_to_unset.push(name);
                },
                _ => {},
            }
            i += 1;
        }
        assert(self@.take(i as int) =~= self@);
        Ok((headers, headers_to_unset))
    }

    /// The query pairs among the items, in order, duplicates included.
    pub fn query(&self) -> (query: Vec<(&str, &str)>)
        ensures
            str_pairs_view(query@) == query_of(self@),
    {
        let mut query: Vec<(&str, &str)> = Vec::new();
        let mut i: usize = 0;
        while i < self.0.len()
            invariant
                i <= self.0.len(),
                str_pairs_view(query@) == query_of(self@.take(i as int)),
            decreases self.0.len() - i,
        {
            assert(self@.take(i + 1).drop_last() =~= self@.take(i as int));
            if let RequestItem::UrlParam(key, value) = &self.0[i] {
                let pair = (key.as_str(), value.as_str());
                query.push(pair);
            }
            i += 1;
        }
        assert(self@.take(i as int) =~= self@);
        query
    }

    /// The JSON object built from the items, which hold no file.
    fn body_as_json(&self) -> (body: Body)
        ensures
            body@ == BodyView::Json(json_body_of(self@)),
    {
        let mut object = new_object();
        let mut i: usize = 0;
        while i < self.0.len()
            invariant
                i <= self.0.len(),
                json_members(object) == json_body_of(self@.take(i as int)),
            decreases self.0.len() - i,
        {
            assert(self@.take(i + 1).drop_last() =~= self@.take(i as int));
            match &self.0[i] {
                RequestItem::JSONField(key, value) => {
                    object_insert(&mut object, key.clone(), value.clone());
                },
                RequestItem::DataField(key, value) => {
                    object_insert(&mut object, key.clone(), string_value(value.clone()));
                },
                _ => {},
            }
            i += 1;
        }
        assert(self@.take(i as int) =~= self@);
        Body::Json(object)
    }

    /// The URL-encoded form built from the items, which hold no JSON
    /// field.
    fn body_as_form(&self) -> (body: Body)
        ensures
            body@ == BodyView::Form(form_body_of(self@)),
    {
        let mut text_fields: Vec<(String, String)> = Vec::new();
        let mut i: usize = 0;
        while i < self.0.len()
            invariant
                i <= self.0.len(),
                pairs_view(text_fields@) == form_body_of(self@.take(i as int)),
            decreases self.0.len() - i,
        {
            assert(self@.take(i + 1).drop_last() =~= self@.take(i as int));
            if let RequestItem::DataField(key, value) = &self.0[i] {
                let field = (key.clone(), value.clone());
                text_fields.push(field);
            }
            i += 1;
        }
        assert(self@.take(i as int) =~= self@);
        Body::Form(text_fields)
    }

    /// The multipart form built from the items.
    fn body_as_multipart(&self) -> (body: Body)
        ensures
            body@ == BodyView::Multipart(multipart_body_of(self@)),
    {
        let mut parts: Vec<Part> = Vec::new();
        let mut i: usize = 0;
        while i < self.0.len()
            invariant
                i <= self.0.len(),
                parts_view(parts@) == multipart_body_of(self@.take(i as int)),
            decreases self.0.len() - i,
        {
            assert(self@.take(i + 1).drop_last() =~= self@.take(i as int));
            match &self.0[i] {
                RequestItem::DataField(key, value) => {
                    let part = Part::Text(key.clone(), value.clone());
                    parts.push(part);
                },
                RequestItem::FormFile(key, path, mime) => {
                    let mime = match mime {
                        Some(mime) => Some(mime.clone()),
                        None => None,
                    };
                    let part = Part::File(key.clone(), path.clone(), mime);
                    parts.push(part);
                },
                _ => {},
            }
            i += 1;
        }
        assert(self@.take(i as int) =~= self@);
        Body::Multipart(parts)
    }

    /// Builds the body of the request under the given hint: see
    /// [`body_of`].
    ///
    /// The files of a multipart form are named here, by their paths, and
    /// not opened.
    pub fn body(self, request_type: Option<RequestType>) -> (r: Result<Body, Error>)
        ensures
            match r {
                Ok(body) => body_of(self@, request_type) == Ok::<BodyView, Conflict>(body@),
                Err(e) => e@ is Conflict && body_of(self@, request_type) == Err::<
                    BodyView,
                    Conflict,
                >(e@->Conflict_0),
            },
    {
        self.build_body(request_type)
    }

    /// Builds the body and leaves the items where they are.
    pub(crate) fn build_body(&self, request_type: Option<RequestType>) -> (r: Result<Body, Error>)
        ensures
            match r {
                Ok(body) => body_of(self@, request_type) == Ok::<BodyView, Conflict>(body@),
                Err(e) => e@ is Conflict && body_of(self@, request_type) == Err::<
                    BodyView,
                    Conflict,
                >(e@->Conflict_0),
            },
    {
        let multipart = match request_type {
            Some(RequestType::Multipart) => true,
            Some(RequestType::Form) => self.has_form_files(),
            _ => false,
        };
        let form = match request_type {
            Some(RequestType::Form) => true,
            _ => false,
        };
        if multipart {
            if self.has_json() {
                Err(Error::Conflict(Conflict::JsonInMultipart))
            } else {
                Ok(self.body_as_multipart())
            }
        } else if form {
            if self.has_json() {
                Err(Error::Conflict(Conflict::JsonInForm))
            } else {
                Ok(self.body_as_form())
            }
        } else {
            if self.has_form_files() {
                Err(Error::Conflict(Conflict::FileInJson))
            } else {
                Ok(self.body_as_json())
            }
        }
    }

    /// The method that the items and the hint suggest, for where the
    /// body is not built: `POST` where the hint says "multipart" or an
    /// item goes into the body, else `GET`.
    pub fn pick_method(&self, request_type: Option<RequestType>) -> (method: Method)
        ensures
            method@ == method_of(self@, request_type),
    {
        if let Some(RequestType::Multipart) = request_type {
            return Method::POST;
        }
        let mut i: usize = 0;
        while i < self.0.len()
            invariant
                i <= self.0.len(),
                request_type != Some(RequestType::Multipart),
                forall|j: int| 0 <= j < i ==> !is_body_item(#[trigger] self@[j]),
            decreases self.0.len() - i,
        {
            match &self.0[i] {
                RequestItem::HttpHeader(_, _)
                | RequestItem::HttpHeaderToUnset(_)
                | RequestItem::UrlParam(_, _) => {},
                RequestItem::DataField(_, _)
                | RequestItem::JSONField(_, _)
                | RequestItem::FormFile(_, _, _) => {
                    assert(is_body_item(self@[i as int]));
                    return Method::POST;
                },
            }
            i += 1;
        }
        Method::GET
    }
}

/// The JSON object built from the items has a member if and only if
/// one of the items is a data field or a JSON field, and its keys are
/// distinct.
pub proof fn lemma_json_body(items: Seq<ItemView>)
    ensures
        distinct_keys(json_body_of(items)),
        json_body_of(items).len() == 0 <==> forall|i: int|
            0 <= i < items.len() ==> !(#[trigger] items[i] is DataField || items[i] is JsonField),
    decreases items.len(),
{
    if items.len() > 0 {
        let front = items.drop_last();
        lemma_json_body(front);
        let before = json_body_of(front);
        match items.last() {
            ItemView::JsonField(name, text) => {
                lemma_with_entry_distinct(before, name, text);
                lemma_with_entry_len(before, name, text);
            },
            ItemView::DataField(name, value) => {
                lemma_with_entry_distinct(before, name, json_string_text(value));
                lemma_with_entry_len(before, name, json_string_text(value));
            },
            _ => {},
        }
        if json_body_of(items).len() == 0 {
            assert forall|i: int| 0 <= i < items.len() implies !(#[trigger] items[i]
                is DataField || items[i] is JsonField) by {
                if i < front.len() {
                    assert(front[i] == items[i]);
                }
            }
        }
    }
}

/// The form built from the items has a field if and only if one of the
/// items is a data field.
pub proof fn lemma_form_body(items: Seq<ItemView>)
    ensures
        form_body_of(items).len() == 0 <==> forall|i: int|
            0 <= i < items.len() ==> !(#[trigger] items[i] is DataField),
    decreases items.len(),
{
    if items.len() > 0 {
        let front = items.drop_last();
        lemma_form_body(front);
        if form_body_of(items).len() == 0 {
            assert forall|i: int| 0 <= i < items.len() implies !(#[trigger] items[i]
                is DataField) by {
                if i < front.len() {
                    assert(front[i] == items[i]);
                }
            }
        }
    }
}

/// The two ways to pick a method agree: where the body can be built, the
/// method that the items suggest is the one that the body picks, `POST`
/// where the body is not empty and `GET` where it is.
pub proof fn lemma_methods_agree(items: Seq<ItemView>, hint: Option<RequestType>)
    requires
        body_of(items, hint) is Ok,
    ensures
        method_of(items, hint) == if (body_of(items, hint)->Ok_0).is_empty() {
            MethodView::GET
        } else {
            MethodView::POST
        },
{
    lemma_json_body(items);
    lemma_form_body(items);
}

/// Items set no more headers than there are items.
pub proof fn lemma_header_fields_len(items: Seq<ItemView>)
    ensures
        header_fields_of(items) matches Ok(fields) ==> fields.0.len() <= items.len(),
    decreases items.len(),
{
    if items.len() > 0 {
        lemma_header_fields_len(items.drop_last());
        if let Ok((set, unset)) = header_fields_of(items.drop_last()) {
            if let ItemView::HttpHeader(name, value) = items.last() {
                if let Some(name_text) = header_name_of(name) {
                    lemma_with_entry_len(set, name_text, value);
                }
            }
        }
    }
}

/// The header map has room for the headers of [`HEADER_ROOM`] items and
/// fewer.
pub proof fn lemma_room_for_few(items: Seq<ItemView>)
    requires
        items.len() <= HEADER_ROOM,
    ensures
        !may_run_out_of_room(items),
{
    assert forall|i: int| !out_of_room_at(items, i) by {
        if 0 <= i < items.len() {
            lemma_header_fields_len(items.take(i));
        }
    }
}

/// Once a prefix of the items has failed, the whole has failed, with the
/// same error.
proof fn lemma_headers_error_stays(items: Seq<ItemView>, n: int)
    requires
        0 <= n <= items.len(),
        header_fields_of(items.take(n)) is Err,
    ensures
        header_fields_of(items) == header_fields_of(items.take(n)),
    decreases items.len() - n,
{
    if n < items.len() {
        assert(items.take(n + 1).drop_last() =~= items.take(n));
        lemma_headers_error_stays(items, n + 1);
    } else {
        assert(items.take(n) =~= items);
    }
}

} // verus!
