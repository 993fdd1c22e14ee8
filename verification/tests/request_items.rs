use serde_json::Value;
use xh::error::{Conflict, Error};
use xh::grammar::Separator;
use xh::method::Method;
use xh::request_items::RequestItem::{
    DataField, FormFile, HttpHeader, HttpHeaderToUnset, JSONField, UrlParam,
};
use xh::request_items::{
    split_path_and_type, split_token, Body, Part, RequestItem, RequestItems, RequestType,
};

fn parse(text: &str) -> RequestItem {
    text.parse().unwrap()
}

fn items(tokens: &[&str]) -> RequestItems {
    RequestItems::new(tokens.iter().map(|token| parse(token)).collect())
}

fn json_array(numbers: &[i64]) -> Value {
    Value::Array(numbers.iter().map(|n| Value::from(*n)).collect())
}

#[test]
fn request_item_parsing() {
    // Data field
    assert_eq!(parse("foo=bar"), DataField("foo".into(), "bar".into()));
    // URL param
    assert_eq!(parse("foo==bar"), UrlParam("foo".into(), "bar".into()));
    // Escaped right before separator
    assert_eq!(parse(r"foo\==bar"), DataField("foo=".into(), "bar".into()));
    // Header
    assert_eq!(parse("foo:bar"), HttpHeader("foo".into(), "bar".into()));
    // JSON field
    assert_eq!(parse("foo:=[1,2]"), JSONField("foo".into(), json_array(&[1, 2])));
    // Bad JSON field
    "foo:=bar".parse::<RequestItem>().unwrap_err();
    // Can't escape normal chars
    assert_eq!(
        parse(r"f\o\o=\ba\r"),
        DataField(r"f\o\o".into(), r"\ba\r".into()),
    );
    // Can escape special chars
    assert_eq!(
        parse(r"f\=\:\@\;oo=b\:\:\:ar"),
        DataField("f=:@;oo".into(), "b:::ar".into()),
    );
    // Unset header
    assert_eq!(parse("foobar:"), HttpHeaderToUnset("foobar".into()));
    // Empty header
    assert_eq!(parse("foobar;"), HttpHeader("foobar".into(), "".into()));
    // Untyped file
    assert_eq!(parse("foo@bar"), FormFile("foo".into(), "bar".into(), None));
    // Typed file
    assert_eq!(
        parse("foo@bar;type=qux"),
        FormFile("foo".into(), "bar".into(), Some("qux".into())),
    );
    // Multi-typed file
    assert_eq!(
        parse("foo@bar;type=qux;type=qux"),
        FormFile("foo".into(), "bar;type=qux".into(), Some("qux".into())),
    );
    // Empty filename
    assert_eq!(parse("foo@"), FormFile("foo".into(), "".into(), None));
    // No separator
    "foobar".parse::<RequestItem>().unwrap_err();
    "".parse::<RequestItem>().unwrap_err();
    // Trailing backslash
    assert_eq!(parse(r"foo=bar\"), DataField("foo".into(), r"bar\".into()));
    // Escaped backslash
    assert_eq!(parse(r"foo\\=bar"), DataField(r"foo\".into(), "bar".into()),);
    // Unicode
    assert_eq!(
        parse("\u{00B5}=\u{00B5}"),
        DataField("\u{00B5}".into(), "\u{00B5}".into()),
    );
    // Empty
    assert_eq!(parse("="), DataField("".into(), "".into()));
}

#[test]
fn separators_are_tried_in_priority_order() {
    assert_eq!(parse("a==b"), UrlParam("a".into(), "b".into()));
    assert_eq!(parse("a:=1"), JSONField("a".into(), Value::from(1)));
    assert_eq!(parse("a=:b"), DataField("a".into(), ":b".into()));
    assert_eq!(parse("a:b=c"), HttpHeader("a".into(), "b=c".into()));
    assert_eq!(parse("a@b=c"), FormFile("a".into(), "b=c".into(), None));
    assert_eq!(parse("a=b==c"), DataField("a".into(), "b==c".into()));
    assert_eq!(parse("==b"), UrlParam("".into(), "b".into()));
    assert_eq!(parse("==="), UrlParam("".into(), "=".into()));
}

#[test]
fn split_token_cuts_at_the_first_unescaped_separator() {
    assert_eq!(
        split_token("foo=bar"),
        Some(("foo".to_string(), Separator::DataField, "bar".to_string()))
    );
    assert_eq!(
        split_token(r"a\:b:c\=d"),
        Some(("a:b".to_string(), Separator::Header, "c=d".to_string()))
    );
    assert_eq!(
        split_token(r"a\\:=b"),
        Some((r"a\".to_string(), Separator::JsonField, "b".to_string()))
    );
    assert_eq!(
        split_token("k@v"),
        Some(("k".to_string(), Separator::FormFile, "v".to_string()))
    );
    assert_eq!(
        split_token("k==v"),
        Some(("k".to_string(), Separator::UrlParam, "v".to_string()))
    );
    assert_eq!(split_token("plain"), None);
    assert_eq!(split_token(r"a\=b"), None);
    assert_eq!(split_token(""), None);
    assert_eq!(Separator::UrlParam.width(), 2);
    assert_eq!(Separator::Header.width(), 1);
}

#[test]
fn escaping_a_key_and_a_value_is_undone_by_parsing() {
    // Each special character behind a backslash comes out bare.
    let key = r"k=@:;\x";
    let value = r"v;:@=\";
    let escaped_key = r"k\=\@\:\;\\x";
    let escaped_value = r"v\;\:\@\=\\";
    for separator in ["==", "=", ":", "@"] {
        let token = format!("{}{}{}", escaped_key, separator, escaped_value);
        let expected = match separator {
            "==" => UrlParam(key.into(), value.into()),
            "=" => DataField(key.into(), value.into()),
            ":" => HttpHeader(key.into(), value.into()),
            _ => FormFile(key.into(), value.into(), None),
        };
        assert_eq!(parse(&token), expected);
    }
}

/// `text` with a backslash before each special character.
fn escape(text: &str) -> String {
    let mut out = String::new();
    for c in text.chars() {
        if "=@:;\\".contains(c) {
            out.push('\\');
        }
        out.push(c);
    }
    out
}

#[test]
fn reparsing_the_unescaped_key_and_value_gives_the_same_item() {
    for token in [
        "foo=bar",
        r"f\=\:oo==b\@r",
        r"a\\:=[1, 2]",
        r"k\;:v\:w",
        "name:",
        r"file@p\;th;type=a;type=b",
        r"x\y=\z\",
        "=",
    ] {
        let item = parse(token);
        let (key, separator, value) = split_token(token).unwrap();
        let separator = match separator {
            Separator::UrlParam => "==",
            Separator::JsonField => ":=",
            Separator::DataField => "=",
            Separator::FormFile => "@",
            Separator::Header => ":",
        };
        let again = format!("{}{}{}", escape(&key), separator, escape(&value));
        assert_eq!(parse(&again), item, "for {:?} written as {:?}", token, again);
    }
}

#[test]
fn a_backslash_before_an_ordinary_character_stays() {
    assert_eq!(parse(r"\a=\b"), DataField(r"\a".into(), r"\b".into()));
    assert_eq!(parse(r"a\ b:c\n"), HttpHeader(r"a\ b".into(), r"c\n".into()));
    assert_eq!(parse(r"x=\"), DataField("x".into(), r"\".into()));
}

#[test]
fn a_trailing_semicolon_must_be_unescaped() {
    assert_eq!(parse("name;"), HttpHeader("name".into(), "".into()));
    assert_eq!(parse(";"), HttpHeader("".into(), "".into()));
    assert_eq!(parse(r"name\\;"), HttpHeader(r"name\\".into(), "".into()));
    assert!(matches!(
        r"name\;".parse::<RequestItem>(),
        Err(Error::Syntax(token)) if token == r"name\;"
    ));
}

#[test]
fn parse_errors_name_the_token() {
    let error = "foobar".parse::<RequestItem>().unwrap_err();
    assert!(matches!(&error, Error::Syntax(token) if token == "foobar"));
    assert_eq!(error.message(), "\"foobar\" is not a valid request item");

    let error = RequestItem::parse("foo:=bar").unwrap_err();
    match &error {
        Error::InvalidJson(token, reason) => {
            assert_eq!(token, "foo:=bar");
            assert_eq!(reason, "expected value at line 1 column 1");
        }
        other => panic!("unexpected error {:?}", other),
    }
    assert_eq!(
        error.message(),
        "\"foo:=bar\": expected value at line 1 column 1"
    );
}

#[test]
fn json_values_are_parsed() {
    assert_eq!(parse("a:=true"), JSONField("a".into(), Value::Bool(true)));
    assert_eq!(parse("a:=null"), JSONField("a".into(), Value::Null));
    assert_eq!(
        parse("a:= [ 1 , 2 ] "),
        JSONField("a".into(), json_array(&[1, 2]))
    );
    assert_eq!(
        parse(r#"a:="x""#),
        JSONField("a".into(), Value::String("x".into()))
    );
    assert!(matches!(
        RequestItem::parse("a:=[1,"),
        Err(Error::InvalidJson(_, _))
    ));
    assert!(matches!(
        RequestItem::parse("a:="),
        Err(Error::InvalidJson(_, _))
    ));
}

#[test]
fn classify_goes_by_the_separator() {
    let classify = |sep, value: &str| {
        RequestItem::classify("token", "k".to_string(), sep, value.to_string()).unwrap()
    };
    assert_eq!(classify(Separator::Header, ""), HttpHeaderToUnset("k".into()));
    assert_eq!(classify(Separator::Header, "v"), HttpHeader("k".into(), "v".into()));
    assert_eq!(classify(Separator::UrlParam, ""), UrlParam("k".into(), "".into()));
    assert_eq!(classify(Separator::DataField, "v"), DataField("k".into(), "v".into()));
    assert_eq!(
        classify(Separator::FormFile, "p;type=t"),
        FormFile("k".into(), "p".into(), Some("t".into()))
    );
    assert_eq!(classify(Separator::JsonField, "3"), JSONField("k".into(), Value::from(3)));
    let error =
        RequestItem::classify("the token", "k".to_string(), Separator::JsonField, "x".to_string())
            .unwrap_err();
    assert!(matches!(error, Error::InvalidJson(token, _) if token == "the token"));
}

#[test]
fn the_type_is_cut_at_the_rightmost_marker() {
    assert_eq!(split_path_and_type("bar"), ("bar".to_string(), None));
    assert_eq!(
        split_path_and_type("bar;type=qux"),
        ("bar".to_string(), Some("qux".to_string()))
    );
    assert_eq!(
        split_path_and_type("a;type=b;type=c"),
        ("a;type=b".to_string(), Some("c".to_string()))
    );
    assert_eq!(
        split_path_and_type(";type="),
        ("".to_string(), Some("".to_string()))
    );
    assert_eq!(split_path_and_type(";type"), (";type".to_string(), None));
    assert_eq!(split_path_and_type(""), ("".to_string(), None));
}

#[test]
fn a_copy_of_an_item_equals_it() {
    for token in ["a=b", "a==b", "a:b", "a:", "a:={\"x\":[1,2]}", "a@b;type=c", "a@b"] {
        let item = parse(token);
        assert_eq!(item.clone(), item);
    }
}

#[test]
fn query_keeps_order_and_duplicates() {
    let items = items(&["a==1", "h:v", "b==2", "a==3", "d=4"]);
    assert_eq!(items.query(), vec![("a", "1"), ("b", "2"), ("a", "3")]);
    assert_eq!(RequestItems::new(vec![]).query(), Vec::<(&str, &str)>::new());
}

#[test]
fn has_form_files_looks_for_files() {
    assert!(!items(&["a=b", "c:d", "e==f", "g:=1"]).has_form_files());
    assert!(items(&["a=b", "f@path"]).has_form_files());
    assert!(!RequestItems::new(vec![]).has_form_files());
}

#[test]
fn headers_are_normalized_and_the_last_value_wins() {
    let (headers, unset) = items(&["X-Custom:1", "other:2", "x-custom:3", "Gone:", "a=b"])
        .headers()
        .unwrap();
    let seen: Vec<(String, String)> = headers
        .iter()
        .map(|(name, value)| (name.as_str().to_owned(), value.to_str().unwrap().to_owned()))
        .collect();
    assert_eq!(
        seen,
        vec![
            ("x-custom".to_string(), "3".to_string()),
            ("other".to_string(), "2".to_string())
        ]
    );
    let unset: Vec<&str> = unset.iter().map(|name| name.as_str()).collect();
    assert_eq!(unset, vec!["gone"]);
}

#[test]
fn headers_reject_bad_names_and_values() {
    assert!(matches!(
        items(&["bad name:1"]).headers(),
        Err(Error::HeaderName(name)) if name == "bad name"
    ));
    assert!(matches!(
        items(&["ok:1", ":2"]).headers(),
        Err(Error::HeaderName(name)) if name.is_empty()
    ));
    assert!(matches!(
        items(&["bad name:"]).headers(),
        Err(Error::HeaderName(name)) if name == "bad name"
    ));
    assert!(matches!(
        items(&["name:a\nb"]).headers(),
        Err(Error::HeaderValue(value)) if value == "a\nb"
    ));
    let error = items(&["bad name:1"]).headers().unwrap_err();
    assert_eq!(error.message(), "invalid HTTP header name: \"bad name\"");
    let error = items(&["name:a\nb"]).headers().unwrap_err();
    assert_eq!(error.message(), "failed to parse header value: \"a\\nb\"");
    // Bytes above ASCII make a header value.
    assert!(items(&["name:\u{00B5}"]).headers().is_ok());
}

#[test]
fn body_is_json_by_default() {
    for hint in [None, Some(RequestType::Json)] {
        let body = items(&["a=1", "b:=[2]", "h:v", "q==x", "a=3"]).body(hint).unwrap();
        match body {
            Body::Json(object) => {
                let members: Vec<(String, Value)> =
                    object.iter().map(|(k, v)| (k.clone(), v.clone())).collect();
                assert_eq!(
                    members,
                    vec![
                        ("a".to_string(), Value::String("3".into())),
                        ("b".to_string(), json_array(&[2]))
                    ]
                );
            }
            other => panic!("unexpected body {:?}", other),
        }
    }
}

#[test]
fn body_is_a_form_where_asked_for() {
    let body = items(&["a=1", "h:v", "a=2", "q==x"]).body(Some(RequestType::Form)).unwrap();
    match body {
        Body::Form(fields) => assert_eq!(
            fields,
            vec![
                ("a".to_string(), "1".to_string()),
                ("a".to_string(), "2".to_string())
            ]
        ),
        other => panic!("unexpected body {:?}", other),
    }
}

#[test]
fn body_is_multipart_where_asked_for_or_with_files() {
    let expected = vec![
        Part::Text("a".into(), "1".into()),
        Part::File("f".into(), "/tmp/x".into(), None),
        Part::File("g".into(), "/tmp/y".into(), Some("text/plain".into())),
    ];
    for hint in [Some(RequestType::Form), Some(RequestType::Multipart)] {
        let body = items(&["a=1", "f@/tmp/x", "h:v", "g@/tmp/y;type=text/plain"])
            .body(hint)
            .unwrap();
        assert!(body.is_multipart());
        match body {
            Body::Multipart(parts) => assert_eq!(parts, expected),
            other => panic!("unexpected body {:?}", other),
        }
    }
    let body = items(&["a=1"]).body(Some(RequestType::Multipart)).unwrap();
    assert!(matches!(body, Body::Multipart(parts) if parts == vec![Part::Text("a".into(), "1".into())]));
}

#[test]
fn body_conflicts() {
    let conflict = |tokens: &[&str], hint| match items(tokens).body(hint) {
        Err(Error::Conflict(conflict)) => conflict,
        other => panic!("unexpected result {:?}", other),
    };
    assert_eq!(conflict(&["a=1", "f@x"], None), Conflict::FileInJson);
    assert_eq!(conflict(&["f@x"], Some(RequestType::Json)), Conflict::FileInJson);
    assert_eq!(conflict(&["a:=1"], Some(RequestType::Form)), Conflict::JsonInForm);
    assert_eq!(
        conflict(&["a:=1"], Some(RequestType::Multipart)),
        Conflict::JsonInMultipart
    );
    assert_eq!(
        conflict(&["f@x", "a:=1"], Some(RequestType::Form)),
        Conflict::JsonInMultipart
    );
    assert_eq!(
        Conflict::FileInJson.message(),
        "Sending files is not supported when the request body is in JSON format"
    );
    assert_eq!(
        Conflict::JsonInForm.message(),
        "JSON values are not supported in Form fields"
    );
    assert_eq!(
        Error::Conflict(Conflict::JsonInMultipart).message(),
        "JSON values are not supported in multipart fields"
    );
}

#[test]
fn a_body_is_empty_where_it_holds_nothing_but_multipart_never_is() {
    assert!(Body::Json(serde_json::Map::new()).is_empty());
    assert!(Body::Form(vec![]).is_empty());
    assert!(Body::Raw(vec![]).is_empty());
    assert!(!Body::Multipart(vec![]).is_empty());
    assert!(!Body::Raw(vec![0]).is_empty());
    assert!(!Body::Form(vec![("a".into(), "b".into())]).is_empty());
    assert!(!items(&["a=b"]).body(None).unwrap().is_empty());
    assert!(items(&["h:v", "q==1"]).body(None).unwrap().is_empty());
    assert!(items(&["h:v"]).body(Some(RequestType::Form)).unwrap().is_empty());
    assert!(!items(&[]).body(Some(RequestType::Multipart)).unwrap().is_empty());
    assert!(!Body::Json(serde_json::Map::new()).is_multipart());
}

#[test]
fn a_body_picks_post_where_it_is_not_empty() {
    assert_eq!(Body::Form(vec![]).pick_method(), Method::GET);
    assert_eq!(Body::Raw(vec![1]).pick_method(), Method::POST);
    assert_eq!(Body::Multipart(vec![]).pick_method(), Method::POST);
    assert_eq!(items(&["a=b"]).body(None).unwrap().pick_method(), Method::POST);
    assert_eq!(items(&["a:b"]).body(None).unwrap().pick_method(), Method::GET);
}

#[test]
fn items_pick_post_where_one_goes_into_the_body() {
    assert_eq!(items(&["h:v", "u:", "q==1"]).pick_method(None), Method::GET);
    assert_eq!(items(&[]).pick_method(Some(RequestType::Form)), Method::GET);
    assert_eq!(items(&[]).pick_method(Some(RequestType::Multipart)), Method::POST);
    assert_eq!(items(&["h:v", "a=b"]).pick_method(None), Method::POST);
    assert_eq!(items(&["a:=1"]).pick_method(None), Method::POST);
    assert_eq!(items(&["f@x"]).pick_method(Some(RequestType::Json)), Method::POST);
}

#[test]
fn methods_have_their_names() {
    assert_eq!(Method::GET.name(), "GET");
    assert_eq!(Method::HEAD.name(), "HEAD");
    assert_eq!(Method::POST.name(), "POST");
    assert_eq!(Method::PUT.name(), "PUT");
    assert_eq!(Method::DELETE.name(), "DELETE");
    assert_eq!(Method::CONNECT.name(), "CONNECT");
    assert_eq!(Method::OPTIONS.name(), "OPTIONS");
    assert_eq!(Method::TRACE.name(), "TRACE");
    assert_eq!(Method::PATCH.name(), "PATCH");
    assert_eq!(Method::Other("PURGE".into()).name(), "PURGE");
    assert_eq!(Method::Other("PURGE".into()).clone(), Method::Other("PURGE".into()));
}

#[test]
fn a_header_map_takes_only_so_many_headers() {
    let many: Vec<RequestItem> = (0..40000)
        .map(|i| HttpHeader(format!("x-header-{}", i), "v".into()))
        .collect();
    assert!(matches!(
        RequestItems::new(many).headers(),
        Err(Error::TooManyHeaders)
    ));
    let few: Vec<RequestItem> = (0..40000)
        .map(|i| HttpHeader(format!("x-header-{}", i % 100), i.to_string()))
        .collect();
    let (headers, _) = RequestItems::new(few).headers().unwrap();
    assert_eq!(headers.len(), 100);
    assert_eq!(headers.get("x-header-99").unwrap(), "39999");
}

#[test]
fn every_error_has_its_message() {
    assert_eq!(
        Error::Syntax("a b".into()).message(),
        "\"a b\" is not a valid request item"
    );
    assert_eq!(
        Error::InvalidJson("k:=\"".into(), "reason".into()).message(),
        "\"k:=\\\"\": reason"
    );
    assert_eq!(
        Error::InvalidUrl("http://".into(), "empty host".into()).message(),
        "\"http://\": empty host"
    );
    assert_eq!(Error::UrlTooLong.message(), "the URL is too long");
    assert_eq!(
        Error::HeaderName("a b".into()).message(),
        "invalid HTTP header name: \"a b\""
    );
    assert_eq!(
        Error::HeaderValue("\t\n".into()).message(),
        "failed to parse header value: \"\\t\\n\""
    );
    assert_eq!(
        Error::HeaderNotText("name".into()).message(),
        "failed to convert header to a str: \"name\""
    );
    assert_eq!(Error::TooManyHeaders.message(), "too many headers");
    assert_eq!(
        Error::Conflict(Conflict::FileInJson).message(),
        Conflict::FileInJson.message()
    );
    assert_eq!(
        Error::Encoding("k".into()).message(),
        "cannot URL-encode the field name \"k\""
    );
}

#[test]
fn header_values_take_all_but_control_characters() {
    assert!(items(&["n:a\tb"]).headers().is_ok());
    assert!(items(&["n: ~"]).headers().is_ok());
    assert!(items(&["n:\u{80}"]).headers().is_ok());
    for value in ["\u{7f}", "\u{1f}", "\0", "a\rb"] {
        let token = format!("n:{}", value);
        assert!(matches!(
            items(&[token.as_str()]).headers(),
            Err(Error::HeaderValue(found)) if found == value
        ));
    }
}

#[test]
fn a_method_given_by_name_is_the_standard_method() {
    assert_eq!(Method::new("GET"), Method::GET);
    assert_eq!(Method::new("HEAD"), Method::HEAD);
    assert_eq!(Method::new("POST"), Method::POST);
    assert_eq!(Method::new("PUT"), Method::PUT);
    assert_eq!(Method::new("DELETE"), Method::DELETE);
    assert_eq!(Method::new("CONNECT"), Method::CONNECT);
    assert_eq!(Method::new("OPTIONS"), Method::OPTIONS);
    assert_eq!(Method::new("TRACE"), Method::TRACE);
    assert_eq!(Method::new("PATCH"), Method::PATCH);
    assert_eq!(Method::new("get"), Method::Other("get".into()));
    assert_eq!(Method::new("PURGE"), Method::Other("PURGE".into()));
    assert_eq!(Method::new(""), Method::Other("".into()));
    assert_eq!(Method::Other("HEAD".into()).normalized(), Method::HEAD);
    assert_eq!(Method::Other("HEADS".into()).normalized(), Method::Other("HEADS".into()));
    assert_eq!(Method::PUT.normalized(), Method::PUT);
}

#[test]
fn a_header_map_has_room_for_thousands_of_headers() {
    let many: Vec<RequestItem> = (0..4096)
        .map(|i| HttpHeader(format!("X-Header-{}", i), i.to_string()))
        .collect();
    let (headers, unset) = RequestItems::new(many).headers().unwrap();
    assert_eq!(headers.len(), 4096);
    assert!(unset.is_empty());
    assert_eq!(headers.get("x-header-4095").unwrap(), "4095");
    let first = headers.iter().next().unwrap();
    assert_eq!((first.0.as_str(), first.1.to_str().unwrap()), ("x-header-0", "0"));
}

#[test]
fn the_later_of_two_spellings_of_a_header_wins() {
    let (headers, unset) = items(&["Foo:1", "foo:2", "user-agent:"]).headers().unwrap();
    assert_eq!(headers.len(), 1);
    assert_eq!(headers.get("foo").unwrap(), "2");
    let unset: Vec<&str> = unset.iter().map(|name| name.as_str()).collect();
    assert_eq!(unset, vec!["user-agent"]);
}

#[test]
fn simple_header_names_are_taken_in_lower_case() {
    let long = "Ab-9_".repeat(13107);
    assert_eq!(long.len(), 65535);
    let (_, unset) = RequestItems::new(vec![
        HttpHeaderToUnset("A_b-C9".into()),
        HttpHeaderToUnset("Content-Type".into()),
        HttpHeaderToUnset("X".repeat(65)),
        HttpHeaderToUnset(long.clone()),
    ])
    .headers()
    .unwrap();
    let unset: Vec<&str> = unset.iter().map(|name| name.as_str()).collect();
    assert_eq!(
        unset,
        vec![
            "a_b-c9".to_string(),
            "content-type".to_string(),
            "x".repeat(65),
            long.to_lowercase()
        ]
    );
    let too_long = "a".repeat(65536);
    assert!(matches!(
        RequestItems::new(vec![HttpHeaderToUnset(too_long)]).headers(),
        Err(Error::HeaderName(_))
    ));
}
