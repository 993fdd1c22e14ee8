use xh::cli::{Cli, Proxy, Verify};
use xh::error::{Conflict, Error};
use xh::method::Method;
use xh::request_items::{RequestItem, RequestItems, RequestType};
use xh::shell::Dialect;
use xh::to_curl::{assemble, translate, Command, Payload};

fn items(tokens: &[&str]) -> RequestItems {
    RequestItems::new(
        tokens
            .iter()
            .map(|token| token.parse::<RequestItem>().unwrap())
            .collect(),
    )
}

fn cli(raw_url: &str, tokens: &[&str]) -> Cli {
    Cli::new(raw_url.to_string(), items(tokens))
}

fn args_of(cli: Cli) -> Vec<String> {
    translate(cli).unwrap().args
}

#[test]
fn examples() {
    let mut expected: Vec<(&str, Cli, &str, &str)> = Vec::new();
    expected.push((
        "xh httpbin.org/get",
        cli("httpbin.org/get", &[]),
        "curl 'http://httpbin.org/get'",
        "curl http://httpbin.org/get",
    ));
    expected.push((
        "xh httpbin.org/post x=3",
        cli("httpbin.org/post", &["x=3"]),
        r#"curl 'http://httpbin.org/post' -H 'content-type: application/json' -H 'accept: application/json, */*;q=0.5' -d '{"x":"3"}'"#,
        r#"curl http://httpbin.org/post -H "content-type: application/json" -H "accept: application/json, */*;q=0.5" -d "{\"x\":\"3\"}""#,
    ));
    let mut form = cli("httpbin.org/post", &["x\\=y=z=w"]);
    form.request_type = Some(RequestType::Form);
    expected.push((
        "xh --form httpbin.org/post x\\=y=z=w",
        form,
        "curl 'http://httpbin.org/post' --data-urlencode 'x%3Dy=z=w'",
        "curl http://httpbin.org/post --data-urlencode x%3Dy=z=w",
    ));
    let mut put = cli("httpbin.org/put", &[]);
    put.method = Some(Method::PUT);
    expected.push((
        "xh put httpbin.org/put",
        put,
        "curl -X PUT 'http://httpbin.org/put'",
        "curl -X PUT http://httpbin.org/put",
    ));
    let mut https = cli("httpbin.org/get", &["x==3"]);
    https.default_scheme = Some("https".into());
    expected.push((
        "xh --https httpbin.org/get x==3",
        https,
        "curl 'https://httpbin.org/get?x=3'",
        "curl https://httpbin.org/get?x=3",
    ));
    let mut https = cli("httpbin.org/get", &["x==3"]);
    https.default_scheme = Some("https".into());
    expected.push((
        "xhs httpbin.org/get x==3",
        https,
        "curl 'https://httpbin.org/get?x=3'",
        "curl https://httpbin.org/get?x=3",
    ));
    let mut headers_only = cli("httpbin.org/get", &[]);
    headers_only.headers = true;
    expected.push((
        "xh -h httpbin.org/get",
        headers_only,
        "curl -I -X GET 'http://httpbin.org/get'",
        "curl -I -X GET http://httpbin.org/get",
    ));
    let mut options = cli("httpbin.org/get", &[]);
    options.method = Some(Method::OPTIONS);
    expected.push((
        "xh options httpbin.org/get",
        options,
        "curl -i -X OPTIONS 'http://httpbin.org/get'",
        "curl -i -X OPTIONS http://httpbin.org/get",
    ));
    let mut http_proxy = cli("httpbin.org/get", &[]);
    http_proxy.proxy = vec![Proxy::Http("localhost:1080".into())];
    expected.push((
        "xh --proxy http:localhost:1080 httpbin.org/get",
        http_proxy,
        "http_proxy='localhost:1080' curl 'http://httpbin.org/get'",
        "http_proxy=localhost:1080 curl http://httpbin.org/get",
    ));
    let mut all_proxy = cli("httpbin.org/get", &[]);
    all_proxy.proxy = vec![Proxy::All("localhost:1080".into())];
    expected.push((
        "xh --proxy all:localhost:1080 httpbin.org/get",
        all_proxy,
        "curl -x 'localhost:1080' 'http://httpbin.org/get'",
        "curl -x localhost:1080 http://httpbin.org/get",
    ));
    expected.push((
        "xh httpbin.org/post x:=[3]",
        cli("httpbin.org/post", &["x:=[3]"]),
        r#"curl 'http://httpbin.org/post' -H 'content-type: application/json' -H 'accept: application/json, */*;q=0.5' -d '{"x":[3]}'"#,
        r#"curl http://httpbin.org/post -H "content-type: application/json" -H "accept: application/json, */*;q=0.5" -d "{\"x\":[3]}""#,
    ));
    let mut json = cli("httpbin.org/post", &[]);
    json.json = true;
    json.request_type = Some(RequestType::Json);
    expected.push((
        "xh --json httpbin.org/post",
        json,
        "curl 'http://httpbin.org/post' -H 'content-type: application/json' -H 'accept: application/json, */*;q=0.5'",
        r#"curl http://httpbin.org/post -H "content-type: application/json" -H "accept: application/json, */*;q=0.5""#,
    ));
    let mut upload = cli("httpbin.org/post", &["x@/dev/null"]);
    upload.request_type = Some(RequestType::Form);
    expected.push((
        "xh --form httpbin.org/post x@/dev/null",
        upload,
        "curl 'http://httpbin.org/post' -F 'x=@/dev/null'",
        "curl http://httpbin.org/post -F x=@/dev/null",
    ));
    let mut empty_form = cli("httpbin.org/post", &[]);
    empty_form.request_type = Some(RequestType::Form);
    expected.push((
        "xh --form httpbin.org/post",
        empty_form,
        "curl 'http://httpbin.org/post' -H 'content-type: application/x-www-form-urlencoded'",
        r#"curl http://httpbin.org/post -H "content-type: application/x-www-form-urlencoded""#,
    ));
    let mut bearer = cli("httpbin.org/post", &[]);
    bearer.bearer = Some("foobar".into());
    bearer.method = Some(Method::POST);
    expected.push((
        "xh --bearer foobar post httpbin.org/post",
        bearer,
        "curl -X POST 'http://httpbin.org/post' --oauth2-bearer foobar",
        "curl -X POST http://httpbin.org/post --oauth2-bearer foobar",
    ));
    expected.push((
        "xh httpbin.org/get foo:Bar baz; user-agent:",
        cli("httpbin.org/get", &["foo:Bar", "baz;", "user-agent:"]),
        "curl 'http://httpbin.org/get' -H 'foo: Bar' -H 'baz;' -H 'user-agent:'",
        r#"curl http://httpbin.org/get -H "foo: Bar" -H baz; -H user-agent:"#,
    ));
    let mut download = cli("httpbin.org/get", &[]);
    download.download = true;
    download.follow = true;
    expected.push((
        "xh -d httpbin.org/get",
        download,
        "curl -L -O 'http://httpbin.org/get'",
        "curl -L -O http://httpbin.org/get",
    ));
    let mut resume = cli("httpbin.org/get", &[]);
    resume.download = true;
    resume.follow = true;
    resume.output = Some("foobar".into());
    resume.resume = true;
    expected.push((
        "xh -d -o foobar --continue httpbin.org/get",
        resume,
        "curl -L -o foobar -C - 'http://httpbin.org/get'",
        "curl -L -o foobar -C - http://httpbin.org/get",
    ));
    let mut long = cli("httpbin.org/get", &[]);
    long.curl_long = true;
    long.download = true;
    long.follow = true;
    long.output = Some("foobar".into());
    long.resume = true;
    expected.push((
        "xh --curl-long -d -o foobar --continue httpbin.org/get",
        long,
        "curl --location --output foobar --continue-at - 'http://httpbin.org/get'",
        "curl --location --output foobar --continue-at - http://httpbin.org/get",
    ));
    for (input, cli, output_unix, output_windows) in expected {
        let cmd = translate(cli).unwrap();
        assert_eq!(
            cmd.render(Dialect::Posix),
            output_unix,
            "Wrong Unix output for {:?}",
            input
        );
        assert_eq!(
            cmd.render(Dialect::Windows),
            output_windows,
            "Wrong Windows output for {:?}",
            input
        );
    }
}

#[test]
fn a_data_field_makes_a_json_body() {
    let args = args_of(cli("httpbin.org/post", &["x=3"]));
    assert_eq!(
        args,
        vec![
            "http://httpbin.org/post",
            "-H",
            "content-type: application/json",
            "-H",
            "accept: application/json, */*;q=0.5",
            "-d",
            r#"{"x":"3"}"#,
        ]
    );
}

#[test]
fn a_method_without_items_is_spelled_out_and_nothing_else() {
    let mut put = cli("httpbin.org/put", &[]);
    put.method = Some(Method::PUT);
    let cmd = translate(put).unwrap();
    assert_eq!(cmd.args, vec!["-X", "PUT", "http://httpbin.org/put"]);
    assert!(cmd.env.is_empty());
    assert!(cmd.warnings.is_empty());
    assert_eq!(cmd.diagnostics(), "");
}

#[test]
fn json_members_keep_their_order_and_the_last_value_wins() {
    let args = args_of(cli(
        "h.test/",
        &["b=1", "a:={\"k\": [1, 2.5, null]}", "b:=true", "c=\"q\""],
    ));
    assert_eq!(
        args.last().unwrap(),
        r#"{"b":true,"a":{"k":[1,2.5,null]},"c":"\"q\""}"#
    );
}

#[test]
fn an_empty_json_body_sets_headers_only_where_json_was_asked_for() {
    assert_eq!(args_of(cli("h.test/", &["a:b"])), vec!["http://h.test/", "-H", "a: b"]);
    let mut hinted = cli("h.test/", &[]);
    hinted.request_type = Some(RequestType::Json);
    assert_eq!(args_of(hinted), vec!["http://h.test/"]);
    let mut asked = cli("h.test/", &[]);
    asked.json = true;
    assert_eq!(
        args_of(asked),
        vec![
            "http://h.test/",
            "-H",
            "content-type: application/json",
            "-H",
            "accept: application/json, */*;q=0.5",
        ]
    );
}

#[test]
fn form_fields_are_encoded_by_name_only() {
    let mut form = cli("h.test/", &["a b=c d", "k&=v&", "µ=µ", "e="]);
    form.request_type = Some(RequestType::Form);
    assert_eq!(
        args_of(form),
        vec![
            "http://h.test/",
            "--data-urlencode",
            "a+b=c d",
            "--data-urlencode",
            "k%26=v&",
            "--data-urlencode",
            "%C2%B5=µ",
            "--data-urlencode",
            "e=",
        ]
    );
}

#[test]
fn multipart_fields_go_behind_the_form_option() {
    let mut multipart = cli("h.test/", &["a=1", "h:v", "f@/p", "g@/q;type=text/plain"]);
    multipart.multipart = true;
    multipart.request_type = Some(RequestType::Multipart);
    assert_eq!(
        args_of(multipart),
        vec![
            "http://h.test/",
            "-H",
            "h: v",
            "-F",
            "a=1",
            "-F",
            "f=@/p",
            "-F",
            "g=@/q;type=text/plain",
        ]
    );
    let mut long = cli("h.test/", &["f@/p"]);
    long.curl_long = true;
    assert_eq!(args_of(long), vec!["http://h.test/", "--form", "f=@/p"]);
    let mut empty = cli("h.test/", &[]);
    empty.multipart = true;
    empty.request_type = Some(RequestType::Multipart);
    assert_eq!(args_of(empty), vec!["http://h.test/"]);
}

#[test]
fn the_url_is_completed_and_takes_the_query() {
    assert_eq!(args_of(cli(":8080/a", &[])), vec!["http://localhost:8080/a"]);
    assert_eq!(
        args_of(cli("https://h.test/a?x=1#top", &["y==2 3", "h:v", "x==&"])),
        vec!["https://h.test/a?x=1&y=2+3&x=%26#top", "-H", "h: v"]
    );
    let mut other = cli("h.test", &["q==\u{00B5}"]);
    other.default_scheme = Some("https://".into());
    assert_eq!(args_of(other), vec!["https://h.test/?q=%C2%B5"]);
    let error = translate(cli("http://[bad", &["bad name:v"])).unwrap_err();
    assert!(matches!(error, Error::HeaderName(_)));
    let error = translate(cli("http://[bad", &["j:=1", "f@p"])).unwrap_err();
    match &error {
        Error::InvalidUrl(url, reason) => {
            assert_eq!(url, "http://[bad");
            assert_eq!(reason, "invalid IPv6 address");
        }
        other => panic!("unexpected error {:?}", other),
    }
    assert_eq!(error.message(), "\"http://[bad\": invalid IPv6 address");
}

#[test]
fn translation_conflicts() {
    let mut multipart = cli("h.test/", &["a=1", "j:=2"]);
    multipart.multipart = true;
    multipart.request_type = Some(RequestType::Multipart);
    assert!(matches!(
        translate(multipart),
        Err(Error::Conflict(Conflict::JsonInMultipart))
    ));
    assert!(matches!(
        translate(cli("h.test/", &["j:=2", "f@/p"])),
        Err(Error::Conflict(Conflict::JsonInMultipart))
    ));
    let mut form = cli("h.test/", &["j:=2"]);
    form.request_type = Some(RequestType::Form);
    assert!(matches!(
        translate(form),
        Err(Error::Conflict(Conflict::JsonInForm))
    ));
}

#[test]
fn translation_header_errors() {
    assert!(matches!(
        translate(cli("h.test/", &["bad name:v"])),
        Err(Error::HeaderName(name)) if name == "bad name"
    ));
    assert!(matches!(
        translate(cli("h.test/", &["n:a\rb"])),
        Err(Error::HeaderValue(value)) if value == "a\rb"
    ));
    let error = translate(cli("h.test/", &["Name:\u{00B5}", "j:=1", "f@p"])).unwrap_err();
    assert!(matches!(&error, Error::HeaderNotText(name) if name == "name"));
    assert_eq!(
        error.message(),
        "failed to convert header to a str: \"name\""
    );
}

#[test]
fn headers_are_written_in_lower_case_with_the_last_value() {
    let args = args_of(cli(
        "h.test/",
        &["X-One:1", "Two:2", "x-one:3", "Empty;", "Gone:", "two:"],
    ));
    assert_eq!(
        args,
        vec![
            "http://h.test/",
            "-H",
            "x-one: 3",
            "-H",
            "two: 2",
            "-H",
            "empty;",
            "-H",
            "gone:",
            "-H",
            "two:",
        ]
    );
}

#[test]
fn options_map_to_curl_options() {
    let mut all = cli("h.test/", &[]);
    all.verbose = true;
    all.stream = true;
    all.check_status = true;
    all.follow = true;
    all.max_redirects = Some(1050);
    all.download = true;
    all.resume = true;
    all.verify = Some(Verify::No);
    all.cert = Some("client.pem".into());
    all.cert_key = Some("client.key".into());
    all.proxy = vec![
        Proxy::Https("p1".into()),
        Proxy::All("p2".into()),
        Proxy::Http("p3".into()),
        Proxy::All("p4".into()),
    ];
    all.auth = Some("user:pass".into());
    all.bearer = Some("token".into());
    let cmd = translate(all).unwrap();
    assert_eq!(
        cmd.args,
        vec![
            "-v", "-N", "-f", "-L", "--max-redirects", "1050", "-O", "-C", "-", "-k", "-E",
            "client.pem", "--key", "client.key", "-x", "p2", "-x", "p4", "http://h.test/", "-u",
            "user:pass", "--oauth2-bearer", "token",
        ]
    );
    assert_eq!(
        cmd.env,
        vec![("https_proxy", "p1".to_string()), ("http_proxy", "p3".to_string())]
    );
    assert!(!cmd.long);

    let mut long = cli("h.test/", &[]);
    long.curl_long = true;
    long.verbose = true;
    long.stream = true;
    long.check_status = true;
    long.max_redirects = Some(0);
    long.output = Some("out".into());
    long.download = true;
    long.verify = Some(Verify::CustomCABundle("ca.pem".into()));
    long.cert = Some("client.pem".into());
    long.proxy = vec![Proxy::All("p".into())];
    long.auth = Some("user".into());
    let cmd = translate(long).unwrap();
    assert_eq!(
        cmd.args,
        vec![
            "--verbose", "--no-buffer", "--fail", "--max-redirects", "0", "--output", "out",
            "--cacert", "ca.pem", "--cert", "client.pem", "--proxy", "p", "http://h.test/",
            "--user", "user",
        ]
    );
    assert!(cmd.long);

    let mut verified = cli("h.test/", &[]);
    verified.verify = Some(Verify::Yes);
    assert_eq!(args_of(verified), vec!["http://h.test/"]);
}

#[test]
fn ignored_options_are_warned_about() {
    let mut ignored = cli("h.test/", &[]);
    ignored.offline = true;
    ignored.body = true;
    ignored.print = true;
    ignored.quiet = true;
    ignored.pretty = true;
    ignored.style = true;
    let cmd = translate(ignored).unwrap();
    assert_eq!(
        cmd.warnings,
        vec![
            "Ignored --offline",
            "Ignored -b/--body",
            "Ignored -p/--print",
            "Ignored -q/--quiet",
            "Ignored --pretty",
            "Ignored -s/--style",
        ]
    );
    assert_eq!(cmd.args, vec!["http://h.test/"]);
    assert_eq!(
        cmd.diagnostics(),
        "Warning: Ignored --offline\nWarning: Ignored -b/--body\nWarning: Ignored -p/--print\n\
         Warning: Ignored -q/--quiet\nWarning: Ignored --pretty\nWarning: Ignored -s/--style\n\n"
    );
    let mut quiet = cli("h.test/", &[]);
    quiet.quiet = true;
    assert_eq!(translate(quiet).unwrap().diagnostics(), "Warning: Ignored -q/--quiet\n\n");
}

#[test]
fn the_method_is_selected_in_order_of_precedence() {
    let with = |method: Option<Method>, headers: bool, tokens: &[&str]| {
        let mut args = cli("h.test/", tokens);
        args.method = method;
        args.headers = headers;
        let cmd = translate(args).unwrap();
        let at = cmd.args.iter().position(|arg| arg == "http://h.test/").unwrap();
        (cmd.args[..at].to_vec(), cmd.warnings)
    };
    let warning =
        "-I/--head is incompatible with sending data. Consider omitting -h/--headers.".to_string();
    assert_eq!(with(Some(Method::HEAD), false, &[]), (vec!["-I".to_string()], vec![]));
    assert_eq!(with(Some(Method::HEAD), true, &["a=b"]), (vec!["-I".to_string()], vec![]));
    assert_eq!(
        with(Some(Method::OPTIONS), true, &[]),
        (vec!["-i".to_string(), "-X".into(), "OPTIONS".into()], vec![])
    );
    assert_eq!(
        with(None, true, &[]),
        (vec!["-I".to_string(), "-X".into(), "GET".into()], vec![])
    );
    assert_eq!(
        with(None, true, &["a=b"]),
        (vec!["-I".to_string(), "-X".into(), "POST".into()], vec![warning.clone()])
    );
    assert_eq!(
        with(Some(Method::GET), true, &["a=b"]),
        (vec!["-I".to_string(), "-X".into(), "GET".into()], vec![])
    );
    assert_eq!(
        with(Some(Method::DELETE), true, &[]),
        (vec!["-I".to_string(), "-X".into(), "DELETE".into()], vec![warning.clone()])
    );
    assert_eq!(
        with(Some(Method::Other("PURGE".into())), false, &[]),
        (vec!["-X".to_string(), "PURGE".into()], vec![])
    );
    assert_eq!(with(None, false, &["a=b"]), (vec![], vec![]));
}

#[test]
fn assemble_puts_the_parts_in_order() {
    let mut args = cli("h.test/", &[]);
    args.verbose = true;
    args.auth = Some("u".into());
    let cmd = assemble(
        &args,
        "http://h.test/a?b",
        &Method::POST,
        &vec![("a".to_string(), "1".to_string()), ("b".to_string(), "".to_string())],
        &vec!["c".to_string()],
        &Payload::Form(vec!["k=v".to_string()]),
    );
    assert_eq!(
        cmd.args,
        vec![
            "-v", "http://h.test/a?b", "-H", "a: 1", "-H", "b;", "-H", "c:", "-u", "u",
            "--data-urlencode", "k=v",
        ]
    );
    let cmd = assemble(
        &args,
        "http://h.test/",
        &Method::GET,
        &vec![],
        &vec![],
        &Payload::Json(Some("{}".to_string())),
    );
    assert_eq!(
        cmd.args,
        vec![
            "-v", "http://h.test/", "-u", "u", "-H", "content-type: application/json", "-H",
            "accept: application/json, */*;q=0.5", "-d", "{}",
        ]
    );
    let cmd = assemble(
        &args,
        "http://h.test/",
        &Method::GET,
        &vec![],
        &vec![],
        &Payload::Multipart(vec!["a=1".to_string(), "f=@p".to_string()]),
    );
    assert_eq!(
        cmd.args,
        vec!["-v", "http://h.test/", "-u", "u", "-F", "a=1", "-F", "f=@p"]
    );
}

#[test]
fn a_command_is_built_step_by_step() {
    let mut short = Command::new(false);
    short.flag("-a", "--all");
    short.push("x y".to_string());
    short.header("name", "value");
    short.env("VAR", "v w".to_string());
    short.warn("careful".to_string());
    assert_eq!(short.args, vec!["-a", "x y", "-H", "name: value"]);
    assert_eq!(short.env, vec![("VAR", "v w".to_string())]);
    assert_eq!(short.warnings, vec!["careful"]);
    assert_eq!(short.render(Dialect::Posix), "VAR='v w' curl -a 'x y' -H 'name: value'");
    assert_eq!(
        short.render(Dialect::Windows),
        "VAR=\"v w\" curl -a \"x y\" -H \"name: value\""
    );
    assert_eq!(short.diagnostics(), "Warning: careful\n\n");

    let mut long = Command::new(true);
    long.flag("-a", "--all");
    long.header("n", "");
    assert_eq!(long.args, vec!["--all", "--header", "n: "]);
    assert_eq!(Command::new(true).render(Dialect::Posix), "curl");
    assert_eq!(Command::new(false).render(Dialect::Windows), "curl");
}

#[test]
fn rendering_quotes_each_word_for_its_shell() {
    let mut cmd = Command::new(false);
    for arg in ["", "plain-_=/,.+09azAZ", "it's", "wow!", "a b", "say \"hi\"", "back\\slash", "tab\there", "µ"] {
        cmd.push(arg.to_string());
    }
    assert_eq!(
        cmd.render(Dialect::Posix),
        r#"curl '' plain-_=/,.+09azAZ 'it'\''s' 'wow'\!'' 'a b' 'say "hi"' 'back\slash' 'tab	here' 'µ'"#
    );
    assert_eq!(
        cmd.render(Dialect::Windows),
        "curl \"\" plain-_=/,.+09azAZ it's wow! \"a b\" \"say \\\"hi\\\"\" back\\slash \"tab\there\" µ"
    );
}

#[test]
fn rendering_twice_gives_the_same_line_and_both_dialects_the_same_words() {
    let mut args = cli("h.test/path", &["a=b c", "H:it's", "q==1"]);
    args.proxy = vec![Proxy::Http("proxy host".into())];
    let cmd = translate(args).unwrap();
    for dialect in [Dialect::Posix, Dialect::Windows] {
        assert_eq!(cmd.render(dialect), cmd.render(dialect));
    }
    assert_eq!(
        cmd.render(Dialect::Posix),
        r#"http_proxy='proxy host' curl 'http://h.test/path?q=1' -H 'h: it'\''s' -H 'content-type: application/json' -H 'accept: application/json, */*;q=0.5' -d '{"a":"b c"}'"#
    );
    assert_eq!(
        cmd.render(Dialect::Windows),
        r#"http_proxy="proxy host" curl http://h.test/path?q=1 -H "h: it's" -H "content-type: application/json" -H "accept: application/json, */*;q=0.5" -d "{\"a\":\"b c\"}""#
    );
}

#[test]
fn a_header_value_is_written_out_where_it_is_visible_ascii() {
    assert_eq!(
        args_of(cli("h.test", &["n:a\tb ~"])),
        vec!["http://h.test/", "-H", "n: a\tb ~"]
    );
    for value in ["\u{80}", "caf\u{e9}", "\u{4e2d}"] {
        let token = format!("Some-Name:{}", value);
        assert!(matches!(
            translate(cli("h.test", &[token.as_str()])),
            Err(Error::HeaderNotText(name)) if name == "some-name"
        ));
    }
}

#[test]
fn a_standard_method_given_by_name_is_translated_as_the_method() {
    let mut head = cli("h.test", &["a=b"]);
    head.method = Some(Method::Other("HEAD".into()));
    head.headers = true;
    let cmd = translate(head).unwrap();
    assert_eq!(cmd.args[..2], ["-I", "http://h.test/"]);
    assert!(cmd.warnings.is_empty());

    let mut options = cli("h.test", &[]);
    options.method = Some(Method::Other("OPTIONS".into()));
    assert_eq!(
        args_of(options),
        vec!["-i", "-X", "OPTIONS", "http://h.test/"]
    );

    let mut get = cli("h.test", &["a=b"]);
    get.method = Some(Method::Other("GET".into()));
    get.headers = true;
    let cmd = translate(get).unwrap();
    assert_eq!(cmd.args[..4], ["-I", "-X", "GET", "http://h.test/"]);
    assert!(cmd.warnings.is_empty());
}

#[test]
fn ignored_options_change_the_warnings_only() {
    let plain = translate(cli("h.test", &["Foo:1", "a=b", "q==1"])).unwrap();
    let mut ignored = cli("h.test", &["Foo:1", "a=b", "q==1"]);
    ignored.offline = true;
    ignored.quiet = true;
    ignored.style = true;
    let cmd = translate(ignored).unwrap();
    assert_eq!(cmd.args, plain.args);
    assert_eq!(cmd.env, plain.env);
    assert!(plain.warnings.is_empty());
    assert_eq!(
        cmd.warnings,
        vec!["Ignored --offline", "Ignored -q/--quiet", "Ignored -s/--style"]
    );
}

#[test]
fn plain_field_names_and_strings_are_written_as_they_are() {
    let mut form = cli("h.test", &["a.b-c_d*9=v w"]);
    form.request_type = Some(RequestType::Form);
    assert_eq!(
        args_of(form),
        vec!["http://h.test/", "--data-urlencode", "a.b-c_d*9=v w"]
    );
    assert_eq!(
        args_of(cli("h.test", &["k=plain text \u{00B5}~\u{7f}"])).last().unwrap(),
        "{\"k\":\"plain text \u{00B5}~\u{7f}\"}"
    );
}
