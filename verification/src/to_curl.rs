//! The translation of an invocation into an equivalent `curl` command,
//! and the rendering of that command for a shell.
use crate::cli::{Cli, Proxy, Verify};
use crate::error::{Conflict, Error, ErrorView};
use crate::headers::{
    encoded_entries, header_entries, header_lines, header_name_string, is_shown_text,
    is_visible_text, lemma_visible_text_chars, line_shows, HEADER_ROOM,
};
use crate::json::{object_is_empty, object_text, object_to_string};
use crate::method::{Method, MethodView};
use crate::request_items::{
    form_body_of, has_files, has_json_fields, header_fields_of, json_body_of, method_of,
    may_run_out_of_room, names_view, pairs_view, query_of, Body, ItemView, RequestItem,
    RequestItems,
    RequestType, FORM_CONTENT_TYPE, JSON_ACCEPT, JSON_CONTENT_TYPE,
};
use crate::request_url::{construct_url, constructed, url_to_string};
use crate::shell::{
    form_pair_text, posix_escape, quoted, urlencode_pair, windows_escape, Dialect,
};
use crate::text::{concat, decimal, decimal_text, strings_view};
use reqwest::header::{HeaderMap, HeaderName, HeaderValue};
use vstd::pervasive::unreached;
use vstd::prelude::*;
use vstd::string::StringExecFns;
use vstd::utf8::{decode_utf8, encode_utf8_decode_utf8};

verus! {

/// A `curl` invocation: the arguments after `curl`, the environment
/// variables to set before it, and warnings about options that `curl`
/// has no equivalent for.
#[derive(Debug)]
pub struct Command {
    /// Whether options are spelled in their long form.
    pub long: bool,
    /// The arguments, in order.
    pub args: Vec<String>,
    /// The environment variables, in order: name and value.
    pub env: Vec<(&'static str, String)>,
    /// The warnings, in order.
    pub warnings: Vec<String>,
}

/// The mathematical content of a [`Command`].
pub struct CommandView {
    pub long: bool,
    pub args: Seq<Seq<char>>,
    pub env: Seq<(Seq<char>, Seq<char>)>,
    pub warnings: Seq<Seq<char>>,
}

/// The environment variables as pairs of texts.
pub open spec fn env_view(env: Seq<(&'static str, String)>) -> Seq<(Seq<char>, Seq<char>)> {
    env.map_values(|pair: (&'static str, String)| (pair.0@, pair.1@))
}

impl View for Command {
    type V = CommandView;

    open spec fn view(&self) -> CommandView {
        CommandView {
            long: self.long,
            args: strings_view(self.args@),
            env: env_view(self.env@),
            warnings: strings_view(self.warnings@),
        }
    }
}

/// An option as it is spelled: in its long form or in its short one.
pub open spec fn spelled(long: bool, short_form: &str, long_form: &str) -> Seq<char> {
    if long {
        long_form@
    } else {
        short_form@
    }
}

impl CommandView {
    /// The command with more arguments at its end.
    pub open spec fn with_args(self, more: Seq<Seq<char>>) -> CommandView {
        CommandView { args: self.args + more, ..self }
    }

    /// The command with one more argument.
    pub open spec fn with_arg(self, arg: Seq<char>) -> CommandView {
        CommandView { args: self.args.push(arg), ..self }
    }

    /// The command with more environment variables.
    pub open spec fn with_env(self, more: Seq<(Seq<char>, Seq<char>)>) -> CommandView {
        CommandView { env: self.env + more, ..self }
    }

    /// The command with more warnings.
    pub open spec fn with_warnings(self, more: Seq<Seq<char>>) -> CommandView {
        CommandView { warnings: self.warnings + more, ..self }
    }
}

/// What is sent as the body, as `curl` takes it.
#[derive(Debug)]
pub enum Payload {
    /// The fields of a multipart form, each as the argument of `-F`.
    Multipart(Vec<String>),
    /// The fields of a URL-encoded form, each as the argument of
    /// `--data-urlencode`.
    Form(Vec<String>),
    /// A JSON object as its text; `None` where it has no members.
    Json(Option<String>),
}

/// The mathematical content of a [`Payload`].
pub enum PayloadView {
    Multipart(Seq<Seq<char>>),
    Form(Seq<Seq<char>>),
    Json(Option<Seq<char>>),
}

impl View for Payload {
    type V = PayloadView;

    open spec fn view(&self) -> PayloadView {
        match self {
            Payload::Multipart(fields) => PayloadView::Multipart(strings_view(fields@)),
            Payload::Form(fields) => PayloadView::Form(strings_view(fields@)),
            Payload::Json(text) => PayloadView::Json(
                match text {
                    Some(text) => Some(text@),
                    None => None,
                },
            ),
        }
    }
}

/// The given words where the condition holds, else none.
pub open spec fn when(present: bool, words: Seq<Seq<char>>) -> Seq<Seq<char>> {
    if present {
        words
    } else {
        Seq::empty()
    }
}

/// The warning about an option that is left out.
pub open spec fn ignored(option: &str) -> Seq<char> {
    "Ignored "@ + option@
}

/// One warning for each option that was given and has no equivalent.
pub open spec fn ignored_warnings(args: &Cli) -> Seq<Seq<char>> {
    when(args.offline, seq![ignored("--offline")]) + when(args.body, seq![ignored("-b/--body")])
        + when(args.print, seq![ignored("-p/--print")]) + when(
        args.quiet,
        seq![ignored("-q/--quiet")],
    ) + when(args.pretty, seq![ignored("--pretty")]) + when(
        args.style,
        seq![ignored("-s/--style")],
    )
}

/// The options about output and redirects.
pub open spec fn output_args(args: &Cli) -> Seq<Seq<char>> {
    let long = args.curl_long;
    when(args.verbose, seq![spelled(long, "-v", "--verbose")]) + when(
        args.stream,
        seq![spelled(long, "-N", "--no-buffer")],
    ) + when(args.check_status, seq![spelled(long, "-f", "--fail")]) + when(
        args.follow,
        seq![spelled(long, "-L", "--location")],
    ) + (match args.max_redirects {
        Some(n) => seq!["--max-redirects"@, decimal_text(n as nat)],
        None => Seq::empty(),
    })
}

/// The options about downloads.
pub open spec fn download_args(args: &Cli) -> Seq<Seq<char>> {
    let long = args.curl_long;
    (match args.output {
        Some(file) => seq![spelled(long, "-o", "--output"), file@],
        None => when(args.download, seq![spelled(long, "-O", "--remote-name")]),
    }) + when(args.resume, seq![spelled(long, "-C", "--continue-at"), "-"@])
}

/// The options about TLS: how the server's certificate is verified, and
/// the client's certificate and key.
pub open spec fn tls_args(args: &Cli) -> Seq<Seq<char>> {
    let long = args.curl_long;
    (match args.verify {
        Some(Verify::CustomCABundle(file)) => seq!["--cacert"@, file@],
        Some(Verify::No) => seq![spelled(long, "-k", "--insecure")],
        _ => Seq::empty(),
    }) + (match args.cert {
        Some(file) => seq![spelled(long, "-E", "--cert"), file@],
        None => Seq::empty(),
    }) + (match args.cert_key {
        Some(file) => seq!["--key"@, file@],
        None => Seq::empty(),
    })
}

/// The options for the proxies that are for all requests.
pub open spec fn proxy_args(proxies: Seq<Proxy>, long: bool) -> Seq<Seq<char>>
    decreases proxies.len(),
{
    if proxies.len() == 0 {
        Seq::empty()
    } else {
        proxy_args(proxies.drop_last(), long) + (match proxies.last() {
            Proxy::All(proxy) => seq![spelled(long, "-x", "--proxy"), proxy@],
            _ => Seq::empty(),
        })
    }
}

/// The environment variables for the proxies that are for one protocol,
/// which `curl` has no options for.
pub open spec fn proxy_env(proxies: Seq<Proxy>) -> Seq<(Seq<char>, Seq<char>)>
    decreases proxies.len(),
{
    if proxies.len() == 0 {
        Seq::empty()
    } else {
        proxy_env(proxies.drop_last()) + (match proxies.last() {
            Proxy::Http(proxy) => seq![("http_proxy"@, proxy@)],
            Proxy::Https(proxy) => seq![("https_proxy"@, proxy@)],
            Proxy::All(_) => Seq::empty(),
        })
    }
}

/// The method where one was given, in its normal form.
pub open spec fn given_method(args: &Cli) -> Option<MethodView> {
    match args.method {
        Some(method) => Some(method@.normal()),
        None => None,
    }
}

/// The method that the request is made with, in its normal form: the
/// one given, else the one that the request items imply.
pub open spec fn resolved_method(args: &Cli, implied: MethodView) -> MethodView {
    match given_method(args) {
        Some(method) => method,
        None => implied.normal(),
    }
}

/// The options that select the method. `HEAD` is asked for with `-I`;
/// `OPTIONS` shows the headers too; where only the headers are to be
/// printed, `-I` comes with the method spelled out; else a method that
/// was given is spelled out, and where none was given there is no option.
pub open spec fn method_args(args: &Cli, implied: MethodView) -> Seq<Seq<char>> {
    let long = args.curl_long;
    if given_method(args) == Some(MethodView::HEAD) {
        seq![spelled(long, "-I", "--head")]
    } else if given_method(args) == Some(MethodView::OPTIONS) {
        seq![spelled(long, "-i", "--include"), spelled(long, "-X", "--request"), "OPTIONS"@]
    } else if args.headers {
        seq![
            spelled(long, "-I", "--head"),
            spelled(long, "-X", "--request"),
            resolved_method(args, implied).name(),
        ]
    } else {
        match given_method(args) {
            Some(method) => seq![spelled(long, "-X", "--request"), method.name()],
            None => Seq::empty(),
        }
    }
}

/// The warning that `-I` goes badly with a body: given where only the
/// headers are to be printed and the method is not `GET`.
pub open spec fn method_warnings(args: &Cli, implied: MethodView) -> Seq<Seq<char>> {
    when(
        given_method(args) != Some(MethodView::HEAD) && given_method(args) != Some(
            MethodView::OPTIONS,
        ) && args.headers && resolved_method(args, implied) != MethodView::GET,
        seq!["-I/--head is incompatible with sending data. Consider omitting -h/--headers."@],
    )
}

/// A header as the argument of `-H`: `name: value`, and `name;` where
/// the value is empty.
pub open spec fn header_line(name: Seq<char>, value: Seq<char>) -> Seq<char> {
    if value.len() == 0 {
        name + ";"@
    } else {
        name + ": "@ + value
    }
}

/// One `-H` for each header to set.
pub open spec fn header_args(lines: Seq<(Seq<char>, Seq<char>)>, long: bool) -> Seq<Seq<char>>
    decreases lines.len(),
{
    if lines.len() == 0 {
        Seq::empty()
    } else {
        header_args(lines.drop_last(), long) + seq![
            spelled(long, "-H", "--header"),
            header_line(lines.last().0, lines.last().1),
        ]
    }
}

/// One `-H` for each header to unset: `name:`.
pub open spec fn unset_args(names: Seq<Seq<char>>, long: bool) -> Seq<Seq<char>>
    decreases names.len(),
{
    if names.len() == 0 {
        Seq::empty()
    } else {
        unset_args(names.drop_last(), long) + seq![
            spelled(long, "-H", "--header"),
            names.last() + ":"@,
        ]
    }
}

/// The options for authentication.
pub open spec fn auth_args(args: &Cli) -> Seq<Seq<char>> {
    (match args.auth {
        Some(auth) => seq![spelled(args.curl_long, "-u", "--user"), auth@],
        None => Seq::empty(),
    }) + (match args.bearer {
        Some(token) => seq!["--oauth2-bearer"@, token@],
        None => Seq::empty(),
    })
}

/// Each field behind the given option.
pub open spec fn each_behind(option: Seq<char>, fields: Seq<Seq<char>>) -> Seq<Seq<char>>
    decreases fields.len(),
{
    if fields.len() == 0 {
        Seq::empty()
    } else {
        each_behind(option, fields.drop_last()) + seq![option, fields.last()]
    }
}

/// The two arguments that set a header to a fixed value.
pub open spec fn fixed_header(long: bool, name: &str, value: &str) -> Seq<Seq<char>> {
    seq![spelled(long, "-H", "--header"), name@ + ": "@ + value@]
}

/// The options for the body. A multipart field goes behind `-F`. A form
/// field goes behind `--data-urlencode`, and a form without fields sets
/// the content type, which `curl` would not. A JSON object that is not
/// empty sets content type and accept header and goes behind `-d`; an
/// empty one sets the two headers where JSON was asked for.
pub open spec fn payload_args(payload: PayloadView, json: bool, long: bool) -> Seq<Seq<char>> {
    match payload {
        PayloadView::Multipart(fields) => each_behind(spelled(long, "-F", "--form"), fields),
        PayloadView::Form(fields) => when(
            fields.len() == 0,
            fixed_header(long, "content-type", FORM_CONTENT_TYPE),
        ) + each_behind("--data-urlencode"@, fields),
        PayloadView::Json(Some(text)) => fixed_header(long, "content-type", JSON_CONTENT_TYPE)
            + fixed_header(long, "accept", JSON_ACCEPT) + seq![spelled(long, "-d", "--data"), text],
        PayloadView::Json(None) => when(
            json,
            fixed_header(long, "content-type", JSON_CONTENT_TYPE) + fixed_header(
                long,
                "accept",
                JSON_ACCEPT,
            ),
        ),
    }
}

/// The command for the given options, with what was worked out of the
/// URL and the request items: the URL in full, the method that the
/// items imply, the headers to set (name and value) and to unset, and
/// the payload.
///
/// The arguments are, in this order: the options about the transfer, the
/// proxies, the method, the URL, the headers, authentication, the body.
pub open spec fn assembled(
    args: &Cli,
    url: Seq<char>,
    implied: MethodView,
    headers: Seq<(Seq<char>, Seq<char>)>,
    unset: Seq<Seq<char>>,
    payload: PayloadView,
) -> CommandView {
    let long = args.curl_long;
    CommandView {
        long,
        args: output_args(args) + download_args(args) + tls_args(args) + proxy_args(
            args.proxy@,
            long,
        ) + method_args(args, implied)
            + seq![url] + header_args(headers, long) + unset_args(unset, long) + auth_args(
            args,
        ) + payload_args(payload, args.json, long),
        env: proxy_env(args.proxy@),
        warnings: ignored_warnings(args) + method_warnings(args, implied),
    }
}

impl Command {
    /// A command without arguments.
    pub fn new(long: bool) -> (cmd: Command)
        ensures
            cmd@ == (CommandView {
                long,
                args: Seq::empty(),
                env: Seq::empty(),
                warnings: Seq::empty(),
            }),
    {
        let cmd = Command { long, args: Vec::new(), env: Vec::new(), warnings: Vec::new() };
        assert(cmd@.env =~= Seq::<(Seq<char>, Seq<char>)>::empty());
        assert(cmd@.warnings =~= Seq::<Seq<char>>::empty());
        cmd
    }

    /// Adds an option, in the spelling that the command uses.
    pub fn flag(&mut self, short: &'static str, long: &'static str)
        ensures
            final(self)@ == old(self)@.with_arg(spelled(old(self).long, short, long)),
    {
        if self.long {
            self.push(String::from_str(long));
        } else {
            self.push(String::from_str(short));
        }
    }

    /// Adds an argument.
    pub fn push(&mut self, arg: String)
        ensures
            final(self)@ == old(self)@.with_arg(arg@),
    {
        assert(strings_view(self.args@.push(arg)) =~= strings_view(self.args@).push(arg@));
        self.args.push(arg);
    }

    /// Adds the option that sets a header to a value.
    pub fn header(&mut self, name: &str, value: &str)
        ensures
            final(self)@ == old(self)@.with_arg(spelled(old(self).long, "-H", "--header")).with_arg(
                name@ + ": "@ + value@,
            ),
    {
        self.flag("-H", "--header");
        let mut line = concat(name, ": ");
        line.append(value);
        self.push(line);
    }

    /// Adds an environment variable.
    pub fn env(&mut self, var: &'static str, value: String)
        ensures
            final(self)@ == old(self)@.with_env(seq![(var@, value@)]),
    {
        assert(env_view(self.env@.push((var, value))) =~= env_view(self.env@) + seq![
            (var@, value@),
        ]);
        self.env.push((var, value));
    }

    /// Adds a warning.
    pub fn warn(&mut self, message: String)
        ensures
            final(self)@ == old(self)@.with_warnings(seq![message@]),
    {
        assert(strings_view(self.warnings@.push(message)) =~= strings_view(self.warnings@)
            + seq![message@]);
        self.warnings.push(message);
    }
}

/// Warns about each option that was given and has no equivalent.
fn warn_ignored(cmd: &mut Command, args: &Cli)
    ensures
        final(cmd)@ == old(cmd)@.with_warnings(ignored_warnings(args)),
{
    if args.offline {
        cmd.warn(concat("Ignored ", "--offline"));
    }
    if args.body {
        cmd.warn(concat("Ignored ", "-b/--body"));
    }
    if args.print {
        cmd.warn(concat("Ignored ", "-p/--print"));
    }
    if args.quiet {
        cmd.warn(concat("Ignored ", "-q/--quiet"));
    }
    if args.pretty {
        cmd.warn(concat("Ignored ", "--pretty"));
    }
    if args.style {
        cmd.warn(concat("Ignored ", "-s/--style"));
    }
    assert(cmd@.warnings =~= old(cmd)@.warnings + ignored_warnings(args));
}

/// Adds the options about output and redirects.
fn push_output_options(cmd: &mut Command, args: &Cli)
    requires
        old(cmd).long == args.curl_long,
    ensures
        final(cmd)@ == old(cmd)@.with_args(output_args(args)),
{
    if args.verbose {
        cmd.flag("-v", "--verbose");
    }
    if args.stream {
        cmd.flag("-N", "--no-buffer");
    }
    if args.check_status {
        cmd.flag("-f", "--fail");
    }
    if args.follow {
        cmd.flag("-L", "--location");
    }
    if let Some(num) = args.max_redirects {
        cmd.push(String::from_str("--max-redirects"));
        cmd.push(decimal(num));
    }
    assert(cmd@.args =~= old(cmd)@.args + output_args(args));
}

/// Adds the options about downloads.
fn push_download_options(cmd: &mut Command, args: &Cli)
    requires
        old(cmd).long == args.curl_long,
    ensures
        final(cmd)@ == old(cmd)@.with_args(download_args(args)),
{
    if let Some(filename) = &args.output {
        cmd.flag("-o", "--output");
        cmd.push(filename.clone());
    } else if args.download {
        cmd.flag("-O", "--remote-name");
    }
    if args.resume {
        cmd.flag("-C", "--continue-at");
        cmd.push(String::from_str("-"));
    }
    assert(cmd@.args =~= old(cmd)@.args + download_args(args));
}

/// Adds the options about TLS.
fn push_tls_options(cmd: &mut Command, args: &Cli)
    requires
        old(cmd).long == args.curl_long,
    ensures
        final(cmd)@ == old(cmd)@.with_args(tls_args(args)),
{
    match &args.verify {
        Some(Verify::CustomCABundle(filename)) => {
            cmd.push(String::from_str("--cacert"));
            cmd.push(filename.clone());
        },
        Some(Verify::No) => {
            cmd.flag("-k", "--insecure");
        },
        _ => {},
    }
    if let Some(cert) = &args.cert {
        cmd.flag("-E", "--cert");
        cmd.push(cert.clone());
    }
    if let Some(keyfile) = &args.cert_key {
        cmd.push(String::from_str("--key"));
        cmd.push(keyfile.clone());
    }
    assert(cmd@.args =~= old(cmd)@.args + tls_args(args));
}

/// Adds the proxies: as options where they are for all requests, as
/// environment variables where they are for one protocol.
fn push_proxies(cmd: &mut Command, proxies: &Vec<Proxy>)
    ensures
        final(cmd)@ == old(cmd)@.with_args(proxy_args(proxies@, old(cmd).long)).with_env(
            proxy_env(proxies@),
        ),
{
    let mut i: usize = 0;
    while i < proxies.len()
        invariant
            i <= proxies.len(),
            cmd@ == old(cmd)@.with_args(proxy_args(proxies@.take(i as int), old(cmd).long)).with_env(
                proxy_env(proxies@.take(i as int)),
            ),
        decreases proxies.len() - i,
    {
        assert(proxies@.take(i + 1).drop_last() =~= proxies@.take(i as int));
        match &proxies[i] {
            Proxy::All(proxy) => {
                cmd.flag("-x", "--proxy");
                cmd.push(proxy.clone());
            },
            Proxy::Http(proxy) => {
                cmd.env("http_proxy", proxy.clone());
            },
            Proxy::Https(proxy) => {
                cmd.env("https_proxy", proxy.clone());
            },
        }
        assert(cmd@.args =~= old(cmd)@.args + proxy_args(proxies@.take(i + 1), old(cmd).long));
        assert(cmd@.env =~= old(cmd)@.env + proxy_env(proxies@.take(i + 1)));
        i += 1;
    }
    assert(proxies@.take(i as int) =~= proxies@);
}

/// Adds the options that select the method, with the warning that may
/// come with them.
fn push_method(cmd: &mut Command, args: &Cli, implied: &Method)
    requires
        old(cmd).long == args.curl_long,
    ensures
        final(cmd)@ == old(cmd)@.with_args(method_args(args, implied@)).with_warnings(
            method_warnings(args, implied@),
        ),
{
    let given = match &args.method {
        Some(method) => Some(method.normalized()),
        None => None,
    };
    let head = match &given {
        Some(Method::HEAD) => true,
        _ => false,
    };
    let options = match &given {
        Some(Method::OPTIONS) => true,
        _ => false,
    };
    if head {
        cmd.flag("-I", "--head");
    } else if options {
        cmd.flag("-i", "--include");
        cmd.flag("-X", "--request");
        cmd.push(String::from_str("OPTIONS"));
    } else if args.headers {
        let method = match given {
            Some(method) => method,
            None => implied.normalized(),
        };
        cmd.flag("-I", "--head");
        cmd.flag("-X", "--request");
        cmd.push(method.name());
        let get = match &method {
            Method::GET => true,
            _ => false,
        };
        if !get {
            cmd.warn(
                String::from_str(
                    "-I/--head is incompatible with sending data. Consider omitting -h/--headers.",
                ),
            );
        }
    } else if let Some(method) = given {
        cmd.flag("-X", "--request");
        cmd.push(method.name());
    }
    assert(cmd@.args =~= old(cmd)@.args + method_args(args, implied@));
}

/// Adds one `-H` for each header to set and each header to unset.
fn push_headers(cmd: &mut Command, headers: &Vec<(String, String)>, unset: &Vec<String>)
    ensures
        final(cmd)@ == old(cmd)@.with_args(
            header_args(pairs_view(headers@), old(cmd).long),
        ).with_args(unset_args(strings_view(unset@), old(cmd).long)),
{
    let ghost long = cmd.long;
    let ghost lines = pairs_view(headers@);
    let mut i: usize = 0;
    while i < headers.len()
        invariant
            i <= headers.len(),
            lines == pairs_view(headers@),
            long == old(cmd).long,
            cmd@ == old(cmd)@.with_args(header_args(lines.take(i as int), long)),
        decreases headers.len() - i,
    {
        assert(lines.take(i + 1).drop_last() =~= lines.take(i as int));
        let name = headers[i].0.as_str();
        let value = headers[i].1.as_str();
        cmd.flag("-H", "--header");
        if value.unicode_len() == 0 {
            cmd.push(concat(name, ";"));
        } else {
            let mut line = concat(name, ": ");
            line.append(value);
            cmd.push(line);
        }
        assert(cmd@.args =~= old(cmd)@.args + header_args(lines.take(i + 1), long));
        i += 1;
    }
    assert(lines.take(i as int) =~= lines);
    let ghost middle = cmd@;
    let ghost names = strings_view(unset@);
    let mut j: usize = 0;
    while j < unset.len()
        invariant
            j <= unset.len(),
            names == strings_view(unset@),
            long == old(cmd).long,
            middle.long == long,
            cmd@ == middle.with_args(unset_args(names.take(j as int), long)),
        decreases unset.len() - j,
    {
        assert(names.take(j + 1).drop_last() =~= names.take(j as int));
        cmd.flag("-H", "--header");
        cmd.push(concat(unset[j].as_str(), ":"));
        assert(cmd@.args =~= middle.args + unset_args(names.take(j + 1), long));
        j += 1;
    }
    assert(names.take(j as int) =~= names);
}

/// Adds the options for authentication.
fn push_auth(cmd: &mut Command, args: &Cli)
    requires
        old(cmd).long == args.curl_long,
    ensures
        final(cmd)@ == old(cmd)@.with_args(auth_args(args)),
{
    if let Some(auth) = &args.auth {
        cmd.flag("-u", "--user");
        cmd.push(auth.clone());
    }
    if let Some(token) = &args.bearer {
        cmd.push(String::from_str("--oauth2-bearer"));
        cmd.push(token.clone());
    }
    assert(cmd@.args =~= old(cmd)@.args + auth_args(args));
}

/// Adds each field behind the given option, spelled as the command
/// spells it.
fn push_each(cmd: &mut Command, short: &'static str, long: &'static str, fields: &Vec<String>)
    ensures
        final(cmd)@ == old(cmd)@.with_args(
            each_behind(spelled(old(cmd).long, short, long), strings_view(fields@)),
        ),
{
    let ghost option = spelled(cmd.long, short, long);
    let ghost texts = strings_view(fields@);
    let mut i: usize = 0;
    while i < fields.len()
        invariant
            i <= fields.len(),
            texts == strings_view(fields@),
            option == spelled(cmd.long, short, long),
            cmd.long == old(cmd).long,
            cmd@ == old(cmd)@.with_args(each_behind(option, texts.take(i as int))),
        decreases fields.len() - i,
    {
        assert(texts.take(i + 1).drop_last() =~= texts.take(i as int));
        cmd.flag(short, long);
        cmd.push(fields[i].clone());
        assert(cmd@.args =~= old(cmd)@.args + each_behind(option, texts.take(i + 1)));
        i += 1;
    }
    assert(texts.take(i as int) =~= texts);
}

/// Adds the options for the body.
fn push_payload(cmd: &mut Command, payload: &Payload, json: bool)
    ensures
        final(cmd)@ == old(cmd)@.with_args(payload_args(payload@, json, old(cmd).long)),
{
    let ghost long = cmd.long;
    match payload {
        Payload::Multipart(fields) => {
            push_each(cmd, "-F", "--form", fields);
        },
        Payload::Form(fields) => {
            if fields.len() == 0 {
                cmd.header("content-type", FORM_CONTENT_TYPE);
            }
            push_each(cmd, "--data-urlencode", "--data-urlencode", fields);
            assert(cmd@.args =~= old(cmd)@.args + payload_args(payload@, json, long));
        },
        Payload::Json(Some(text)) => {
            cmd.header("content-type", JSON_CONTENT_TYPE);
            cmd.header("accept", JSON_ACCEPT);
            cmd.flag("-d", "--data");
            cmd.push(text.clone());
            assert(cmd@.args =~= old(cmd)@.args + payload_args(payload@, json, long));
        },
        Payload::Json(None) => {
            if json {
                cmd.header("content-type", JSON_CONTENT_TYPE);
                cmd.header("accept", JSON_ACCEPT);
            }
            assert(cmd@.args =~= old(cmd)@.args + payload_args(payload@, json, long));
        },
    }
}

/// Puts the command together from the options and from what was worked
/// out of the URL and the request items: the URL in full, the method
/// that the items imply, the headers to set, each with its name and its
/// value, the names of the headers to unset, and the payload.
pub fn assemble(
    args: &Cli,
    url: &str,
    implied: &Method,
    headers: &Vec<(String, String)>,
    unset: &Vec<String>,
    payload: &Payload,
) -> (cmd: Command)
    ensures
        cmd@ == assembled(
            args,
            url@,
            implied@,
            pairs_view(headers@),
            strings_view(unset@),
            payload@,
        ),
{
    let mut cmd = Command::new(args.curl_long);
    warn_ignored(&mut cmd, args);
    push_output_options(&mut cmd, args);
    push_download_options(&mut cmd, args);
    push_tls_options(&mut cmd, args);
    push_proxies(&mut cmd, &args.proxy);
    push_method(&mut cmd, args, implied);
    cmd.push(String::from_str(url));
    push_headers(&mut cmd, headers, unset);
    push_auth(&mut cmd, args);
    push_payload(&mut cmd, payload, args.json);
    let ghost goal = assembled(
        args,
        url@,
        implied@,
        pairs_view(headers@),
        strings_view(unset@),
        payload@,
    );
    assert(cmd@.args =~= goal.args);
    cmd
}

/// The headers as they are written out: each name with its value. Or
/// the error of the first header whose value is not all visible ASCII
/// and tabs, which holds that header's name.
pub open spec fn shown_headers(headers: Seq<(Seq<char>, Seq<char>)>) -> Result<
    Seq<(Seq<char>, Seq<char>)>,
    ErrorView,
>
    decreases headers.len(),
{
    if headers.len() == 0 {
        Ok(headers)
    } else if !is_shown_text(headers[0].1) {
        Err(ErrorView::HeaderNotText(headers[0].0))
    } else {
        match shown_headers(headers.skip(1)) {
            Ok(rest) => Ok(seq![headers[0]] + rest),
            Err(e) => Err(e),
        }
    }
}

/// Headers that can be written out are written out as they are.
pub proof fn lemma_shown_headers(headers: Seq<(Seq<char>, Seq<char>)>)
    ensures
        shown_headers(headers) is Ok ==> shown_headers(headers) == Ok::<
            Seq<(Seq<char>, Seq<char>)>,
            ErrorView,
        >(headers),
    decreases headers.len(),
{
    if headers.len() > 0 {
        lemma_shown_headers(headers.skip(1));
        assert(seq![headers[0]] + headers.skip(1) =~= headers);
    }
}

/// The entries of a header map as lines of text: each name with its
/// value, decoded. Or the error of the first entry whose value is not
/// all visible ASCII and tabs.
spec fn lines_of(entries: Seq<(Seq<char>, Seq<u8>)>) -> Result<
    Seq<(Seq<char>, Seq<char>)>,
    ErrorView,
>
    decreases entries.len(),
{
    if entries.len() == 0 {
        Ok(Seq::empty())
    } else if !is_visible_text(entries[0].1) {
        Err(ErrorView::HeaderNotText(entries[0].0))
    } else {
        match lines_of(entries.skip(1)) {
            Ok(rest) => Ok(seq![(entries[0].0, decode_utf8(entries[0].1))] + rest),
            Err(e) => Err(e),
        }
    }
}

/// The lines of the entries that hold the bytes of headers are those
/// headers, written out.
proof fn lemma_lines_of_encoded(headers: Seq<(Seq<char>, Seq<char>)>)
    ensures
        lines_of(encoded_entries(headers)) == shown_headers(headers),
    decreases headers.len(),
{
    let entries = encoded_entries(headers);
    if headers.len() == 0 {
        assert(headers =~= Seq::<(Seq<char>, Seq<char>)>::empty());
    } else {
        lemma_visible_text_chars(headers[0].1);
        encode_utf8_decode_utf8(headers[0].1);
        lemma_lines_of_encoded(headers.skip(1));
        assert(entries.skip(1) =~= encoded_entries(headers.skip(1)));
    }
}

/// An item as a field of a multipart form, in the argument of `-F`:
/// `name=value` for a data field, `name=@path` for a file, with
/// `;type=` and the MIME type behind it where the item has one. `None`
/// for an item that is no such field.
pub open spec fn multipart_field(item: ItemView) -> Option<Seq<char>> {
    match item {
        ItemView::DataField(name, value) => Some(name + "="@ + value),
        ItemView::FormFile(name, path, Some(mime)) => Some(
            name + "=@"@ + path + ";type="@ + mime,
        ),
        ItemView::FormFile(name, path, None) => Some(name + "=@"@ + path),
        _ => None,
    }
}

/// The fields of the multipart form among the items, in order.
pub open spec fn multipart_fields(items: Seq<ItemView>) -> Seq<Seq<char>>
    decreases items.len(),
{
    if items.len() == 0 {
        Seq::empty()
    } else {
        let before = multipart_fields(items.drop_last());
        match multipart_field(items.last()) {
            Some(field) => before.push(field),
            None => before,
        }
    }
}

/// The fields of a form, each as the argument of `--data-urlencode`: the
/// name URL-encoded, `=`, and the value as it is. Or the error of the
/// first field whose name cannot be encoded.
pub open spec fn encoded_fields(fields: Seq<(Seq<char>, Seq<char>)>) -> Result<
    Seq<Seq<char>>,
    ErrorView,
>
    decreases fields.len(),
{
    if fields.len() == 0 {
        Ok(Seq::empty())
    } else {
        match form_pair_text(fields[0].0, Seq::empty()) {
            None => Err(ErrorView::Encoding(fields[0].0)),
            Some(name_and_equals) => match encoded_fields(fields.skip(1)) {
                Ok(rest) => Ok(seq![name_and_equals + fields[0].1] + rest),
                Err(e) => Err(e),
            },
        }
    }
}

/// The payload for the given options and their request items.
///
/// Where a multipart form was asked for, or an item is a file, the
/// request items are the fields of a multipart form, which takes no
/// JSON field. Else, where the hint says "form", the data fields are
/// the fields of a form, which takes no JSON field either. Else the
/// data fields and the JSON fields are the members of a JSON object,
/// which is written out where it has members.
pub open spec fn payload_of(args: &Cli) -> Result<PayloadView, ErrorView> {
    let items = args.request_items@;
    if args.multipart || has_files(items) {
        if has_json_fields(items) {
            Err(ErrorView::Conflict(Conflict::JsonInMultipart))
        } else {
            Ok(PayloadView::Multipart(multipart_fields(items)))
        }
    } else if args.request_type == Some(RequestType::Form) {
        if has_json_fields(items) {
            Err(ErrorView::Conflict(Conflict::JsonInForm))
        } else {
            match encoded_fields(form_body_of(items)) {
                Ok(fields) => Ok(PayloadView::Form(fields)),
                Err(e) => Err(e),
            }
        }
    } else {
        let members = json_body_of(items);
        Ok(
            PayloadView::Json(
                if members.len() == 0 {
                    None
                } else {
                    Some(object_text(members))
                },
            ),
        )
    }
}

/// The scheme that the options choose, as text.
pub open spec fn chosen_scheme(args: &Cli) -> Option<Seq<char>> {
    match args.default_scheme {
        Some(scheme) => Some(scheme@),
        None => None,
    }
}

/// The `curl` command for the given options and their request items, or
/// the error that rules it out: of a header, of the URL, of a header
/// value that is not text, of a field that the body does not take, in
/// this order.
///
/// The URL of the command is the URL of the options, completed, with
/// the query pairs of the request items appended.
pub open spec fn translated(args: &Cli) -> Result<CommandView, ErrorView> {
    let items = args.request_items@;
    match header_fields_of(items) {
        Err(e) => Err(e),
        Ok((set, unset)) => match constructed(args.url@, chosen_scheme(args), query_of(items)) {
            Err(e) => Err(e),
            Ok(url) => match shown_headers(set) {
                Err(e) => Err(e),
                Ok(lines) => match payload_of(args) {
                    Err(e) => Err(e),
                    Ok(payload) => Ok(
                        assembled(
                            args,
                            url,
                            method_of(items, args.request_type),
                            lines,
                            unset,
                            payload,
                        ),
                    ),
                },
            },
        },
    }
}

/// Whether two invocations differ at most in the options that have no
/// equivalent.
pub open spec fn same_but_ignored(a: &Cli, b: &Cli) -> bool {
    &&& a.curl_long == b.curl_long
    &&& a.verbose == b.verbose
    &&& a.stream == b.stream
    &&& a.check_status == b.check_status
    &&& a.follow == b.follow
    &&& a.max_redirects == b.max_redirects
    &&& a.output == b.output
    &&& a.download == b.download
    &&& a.resume == b.resume
    &&& a.verify == b.verify
    &&& a.cert == b.cert
    &&& a.cert_key == b.cert_key
    &&& a.proxy == b.proxy
    &&& a.method == b.method
    &&& a.headers == b.headers
    &&& a.request_type == b.request_type
    &&& a.json == b.json
    &&& a.multipart == b.multipart
    &&& a.auth == b.auth
    &&& a.bearer == b.bearer
    &&& a.url == b.url
    &&& a.default_scheme == b.default_scheme
    &&& a.request_items == b.request_items
}

/// The options that have no equivalent never make a translation fail
/// and change nothing of it but the warnings: of two invocations that
/// differ in these options alone, both translate or both fail with the
/// same error, and the two commands have the same arguments and the
/// same environment.
pub proof fn lemma_ignored_options(a: &Cli, b: &Cli)
    requires
        same_but_ignored(a, b),
    ensures
        match translated(a) {
            Ok(first) => translated(b) matches Ok(second) && second.args == first.args
                && second.env == first.env && second.long == first.long,
            Err(e) => translated(b) == Err::<CommandView, ErrorView>(e),
        },
{
    let items = a.request_items@;
    assert(payload_of(a) == payload_of(b));
    if let Ok((set, unset)) = header_fields_of(items) {
        if let Ok(url) = constructed(a.url@, chosen_scheme(a), query_of(items)) {
            if let Ok(lines) = shown_headers(set) {
                if let Ok(payload) = payload_of(a) {
                    lemma_assembled_but_ignored(
                        a,
                        b,
                        url,
                        method_of(items, a.request_type),
                        lines,
                        unset,
                        payload,
                    );
                }
            }
        }
    }
}

/// Of two invocations that differ in the options without an equivalent
/// alone, the commands put together from the same parts have the same
/// arguments and the same environment.
proof fn lemma_assembled_but_ignored(
    a: &Cli,
    b: &Cli,
    url: Seq<char>,
    implied: MethodView,
    headers: Seq<(Seq<char>, Seq<char>)>,
    unset: Seq<Seq<char>>,
    payload: PayloadView,
)
    requires
        same_but_ignored(a, b),
    ensures
        assembled(a, url, implied, headers, unset, payload).args == assembled(
            b,
            url,
            implied,
            headers,
            unset,
            payload,
        ).args,
        assembled(a, url, implied, headers, unset, payload).env == assembled(
            b,
            url,
            implied,
            headers,
            unset,
            payload,
        ).env,
        assembled(a, url, implied, headers, unset, payload).long == assembled(
            b,
            url,
            implied,
            headers,
            unset,
            payload,
        ).long,
{
    assert(output_args(a) == output_args(b));
    assert(download_args(a) == download_args(b));
    assert(tls_args(a) == tls_args(b));
    assert(method_args(a, implied) == method_args(b, implied));
    assert(auth_args(a) == auth_args(b));
}

/// The headers of a map as lines of text.
fn text_lines(map: &HeaderMap<HeaderValue>) -> (r: Result<Vec<(String, String)>, Error>)
    ensures
        match r {
            Ok(lines) => lines_of(header_entries(*map)) == Ok::<
                Seq<(Seq<char>, Seq<char>)>,
                ErrorView,
            >(pairs_view(lines@)),
            Err(e) => lines_of(header_entries(*map)) == Err::<
                Seq<(Seq<char>, Seq<char>)>,
                ErrorView,
            >(e@),
        },
{
    let ghost entries = header_entries(*map);
    let shown = header_lines(map);
    let mut lines: Vec<(String, String)> = Vec::new();
    let mut i: usize = 0;
    assert(entries.skip(0) =~= entries);
    while i < shown.len()
        invariant
            i <= shown.len(),
            entries == header_entries(*map),
            shown@.len() == entries.len(),
            forall|k: int| 0 <= k < shown@.len() ==> line_shows(#[trigger] shown@[k], entries[k]),
            lines_of(entries) == match lines_of(entries.skip(i as int)) {
                Ok(rest) => Ok::<Seq<(Seq<char>, Seq<char>)>, ErrorView>(pairs_view(lines@) + rest),
                Err(e) => Err(e),
            },
        decreases shown.len() - i,
    {
        let ghost rest = entries.skip(i as int);
        assert(rest.skip(1) =~= entries.skip(i + 1));
        match &shown[i].1 {
            Some(text) => {
                proof {
                    encode_utf8_decode_utf8(text@);
                }
                let line = (shown[i].0.clone(), text.clone());
                proof {
                    let first = seq![(line.0@, line.1@)];
                    assert(pairs_view(lines@.push(line)) =~= pairs_view(lines@) + first);
                    if let Ok(tail) = lines_of(entries.skip(i + 1)) {
                        assert((pairs_view(lines@) + first) + tail =~= pairs_view(lines@) + (first
                            + tail));
                    }
                }
                lines.push(line);
            },
            None => {
                return Err(Error::HeaderNotText(shown[i].0.clone()));
            },
        }
        i += 1;
    }
    Ok(lines)
}

/// The header names as strings.
fn name_strings(names: &Vec<HeaderName>) -> (texts: Vec<String>)
    ensures
        strings_view(texts@) == names_view(names@),
{
    let mut texts: Vec<String> = Vec::new();
    let mut i: usize = 0;
    while i < names.len()
        invariant
            i <= names.len(),
            strings_view(texts@) =~= names_view(names@.take(i as int)),
        decreases names.len() - i,
    {
        let text = header_name_string(&names[i]);
        assert(strings_view(texts@.push(text)) =~= strings_view(texts@).push(text@));
        texts.push(text);
        i += 1;
    }
    texts
}

/// The fields of the multipart form among the items, each as the
/// argument of `-F`.
fn form_fields(items: &RequestItems) -> (fields: Vec<String>)
    ensures
        strings_view(fields@) == multipart_fields(items@),
{
    let mut fields: Vec<String> = Vec::new();
    let mut i: usize = 0;
    while i < items.0.len()
        invariant
            i <= items.0.len(),
            strings_view(fields@) == multipart_fields(items@.take(i as int)),
        decreases items.0.len() - i,
    {
        assert(items@.take(i + 1).drop_last() =~= items@.take(i as int));
        match &items.0[i] {
            RequestItem::DataField(key, value) => {
                let mut field = concat(key.as_str(), "=");
                field.append(value.as_str());
                fields.push(field);
            },
            RequestItem::FormFile(key, path, file_type) => {
                let mut field = concat(key.as_str(), "=@");
                field.append(path.as_str());
                if let Some(file_type) = file_type {
                    field.append(";type=");
                    field.append(file_type.as_str());
                }
                fields.push(field);
            },
            _ => {},
        }
        i += 1;
    }
    assert(items@.take(i as int) =~= items@);
    fields
}

/// The fields of a form, each as the argument of `--data-urlencode`.
fn encode_fields(fields: &Vec<(String, String)>) -> (r: Result<Vec<String>, Error>)
    ensures
        match r {
            Ok(encoded) => encoded_fields(pairs_view(fields@)) == Ok::<Seq<Seq<char>>, ErrorView>(
                strings_view(encoded@),
            ),
            Err(e) => encoded_fields(pairs_view(fields@)) == Err::<Seq<Seq<char>>, ErrorView>(e@),
        },
{
    let ghost pairs = pairs_view(fields@);
    let mut encoded: Vec<String> = Vec::new();
    let mut i: usize = 0;
    assert(pairs.skip(0) =~= pairs);
    while i < fields.len()
        invariant
            i <= fields.len(),
            pairs == pairs_view(fields@),
            encoded_fields(pairs) == match encoded_fields(pairs.skip(i as int)) {
                Ok(rest) => Ok::<Seq<Seq<char>>, ErrorView>(strings_view(encoded@) + rest),
                Err(e) => Err(e),
            },
        decreases fields.len() - i,
    {
        let ghost rest = pairs.skip(i as int);
        assert(rest.skip(1) =~= pairs.skip(i + 1));
        let key = &fields[i].0;
        let value = &fields[i].1;
        assert(""@ =~= Seq::<char>::empty()) by {
            reveal_strlit("");
        }
        let mut field = match urlencode_pair(key.as_str(), "") {
            Some(field) => field,
            None => {
                return Err(Error::Encoding(key.clone()));
            },
        };
        field.append(value.as_str());
        proof {
            let first = seq![field@];
            assert(strings_view(encoded@.push(field)) =~= strings_view(encoded@) + first);
            if let Ok(tail) = encoded_fields(pairs.skip(i + 1)) {
                assert((strings_view(encoded@) + first) + tail =~= strings_view(encoded@) + (first
                    + tail));
            }
        }
        encoded.push(field);
        i += 1;
    }
    Ok(encoded)
}

/// Works out the payload for the given options and their request items.
fn payload_for(args: &Cli) -> (r: Result<Payload, Error>)
    requires
        args.request_type == Some(RequestType::Multipart) ==> args.multipart,
    ensures
        match r {
            Ok(payload) => payload_of(args) == Ok::<PayloadView, ErrorView>(payload@),
            Err(e) => payload_of(args) == Err::<PayloadView, ErrorView>(e@),
        },
{
    let items = &args.request_items;
    if args.multipart || items.has_form_files() {
        if items.has_json() {
            Err(Error::Conflict(Conflict::JsonInMultipart))
        } else {
            Ok(Payload::Multipart(form_fields(items)))
        }
    } else {
        match items.build_body(args.request_type) {
            Err(e) => Err(e),
            Ok(Body::Form(fields)) => match encode_fields(&fields) {
                Ok(encoded) => Ok(Payload::Form(encoded)),
                Err(e) => Err(e),
            },
            Ok(Body::Json(object)) => if object_is_empty(&object) {
                Ok(Payload::Json(None))
            } else {
                Ok(Payload::Json(Some(object_to_string(object))))
            },
            Ok(Body::Multipart(_)) => unreached(),
            Ok(Body::Raw(_)) => unreached(),
        }
    }
}

/// Translates an invocation into the `curl` command that makes the same
/// request: see [`translated`].
///
/// The options must not hint at a multipart body without asking for one.
/// The result is [`translated`], `Ok` or `Err`. The one exception is a
/// header map that is full: it may refuse a valid header once
/// [`HEADER_ROOM`] headers are set before it, and the result is then
/// [`Error::TooManyHeaders`]. With no more than [`HEADER_ROOM`] request
/// items that does not happen.
pub fn translate(args: Cli) -> (r: Result<Command, Error>)
    requires
        args.request_type == Some(RequestType::Multipart) ==> args.multipart,
    ensures
        match r {
            Ok(cmd) => translated(&args) == Ok::<CommandView, ErrorView>(cmd@),
            Err(e) => translated(&args) == Err::<CommandView, ErrorView>(e@) || (e@
                is TooManyHeaders && may_run_out_of_room(args.request_items@)),
        },
        args.request_items@.len() <= HEADER_ROOM ==> (r matches Err(e) ==> translated(&args)
            == Err::<CommandView, ErrorView>(e@)),
{
    let request_items = &args.request_items;
    let query = request_items.query();
    let (headers, headers_to_unset) = match request_items.headers() {
        Ok(found) => found,
        Err(e) => {
            return Err(e);
        },
    };
    let default_scheme = match &args.default_scheme {
        Some(scheme) => Some(scheme.as_str()),
        None => None,
    };
    let url = match construct_url(args.url.as_str(), default_scheme, query) {
        Ok(url) => url_to_string(&url),
        Err(e) => {
            return Err(e);
        },
    };
    proof {
        lemma_lines_of_encoded(header_fields_of(args.request_items@)->Ok_0.0);
    }
    let headers = match text_lines(&headers) {
        Ok(lines) => lines,
        Err(e) => {
            return Err(e);
        },
    };
    let headers_to_unset = name_strings(&headers_to_unset);
    let implied = request_items.pick_method(args.request_type);
    let payload = match payload_for(&args) {
        Ok(payload) => payload,
        Err(e) => {
            return Err(e);
        },
    };
    Ok(assemble(&args, url.as_str(), &implied, &headers, &headers_to_unset, &payload))
}

/// The words of the command line, each quoted for the shell of the
/// given dialect: an assignment for each environment variable, `curl`,
/// and the arguments.
pub open spec fn words(cmd: CommandView, dialect: Dialect) -> Seq<Seq<char>> {
    cmd.env.map_values(|pair: (Seq<char>, Seq<char>)| pair.0 + "="@ + quoted(pair.1, dialect))
        + seq!["curl"@] + cmd.args.map_values(|arg: Seq<char>| quoted(arg, dialect))
}

/// The words with one space between each two.
pub open spec fn joined(words: Seq<Seq<char>>) -> Seq<char>
    decreases words.len(),
{
    if words.len() == 0 {
        Seq::empty()
    } else if words.len() == 1 {
        words[0]
    } else {
        joined(words.drop_last()) + " "@ + words.last()
    }
}

/// The command as one line for the shell of the given dialect.
pub open spec fn rendered(cmd: CommandView, dialect: Dialect) -> Seq<char> {
    joined(words(cmd, dialect))
}

/// The words with a space behind each.
spec fn spaced(words: Seq<Seq<char>>) -> Seq<char>
    decreases words.len(),
{
    if words.len() == 0 {
        Seq::empty()
    } else {
        spaced(words.drop_last()) + words.last() + " "@
    }
}

/// Words with a space behind each, and one more word, are the words
/// joined.
proof fn lemma_spaced_then_word(words: Seq<Seq<char>>, word: Seq<char>)
    ensures
        spaced(words) + word == joined(words.push(word)),
    decreases words.len(),
{
    assert(words.push(word).drop_last() =~= words);
    if words.len() > 0 {
        let front = words.drop_last();
        lemma_spaced_then_word(front, words.last());
        assert(front.push(words.last()) =~= words);
    }
}

/// The dialect changes how each word is quoted and nothing else: in
/// both dialects the line has one word for each environment variable,
/// then `curl`, then one word for each argument, in the order of the
/// command, and each word is the quoted form of the same variable or
/// argument.
pub proof fn lemma_dialect_changes_quoting_only(cmd: CommandView, dialect: Dialect)
    ensures
        words(cmd, dialect).len() == cmd.env.len() + 1 + cmd.args.len(),
        words(cmd, Dialect::Posix).len() == words(cmd, Dialect::Windows).len(),
        forall|i: int|
            0 <= i < cmd.env.len() ==> #[trigger] words(cmd, dialect)[i] == cmd.env[i].0 + "="@
                + quoted(cmd.env[i].1, dialect),
        words(cmd, dialect)[cmd.env.len() as int] == "curl"@,
        forall|j: int|
            0 <= j < cmd.args.len() ==> #[trigger] words(cmd, dialect)[cmd.env.len() + 1 + j]
                == quoted(cmd.args[j], dialect),
{
}

/// The warnings as lines, each behind `Warning: `.
pub open spec fn warning_lines(warnings: Seq<Seq<char>>) -> Seq<char>
    decreases warnings.len(),
{
    if warnings.len() == 0 {
        Seq::empty()
    } else {
        warning_lines(warnings.drop_last()) + "Warning: "@ + warnings.last() + "\n"@
    }
}

/// What goes to the error stream before the command: the warnings as
/// lines, and an empty line after them where there are any.
pub open spec fn diagnostics_text(cmd: CommandView) -> Seq<char> {
    if cmd.warnings.len() == 0 {
        Seq::empty()
    } else {
        warning_lines(cmd.warnings) + "\n"@
    }
}

/// Quotes a word for the shell of the given dialect.
fn escape(word: &str, dialect: Dialect) -> (out: String)
    ensures
        out@ == quoted(word@, dialect),
{
    match dialect {
        Dialect::Posix => posix_escape(word),
        Dialect::Windows => windows_escape(word),
    }
}

impl Command {
    /// Writes the command as one line for the shell of the given
    /// dialect: the environment variables as assignments, `curl`, and
    /// the arguments, each word quoted as the shell needs it, with one
    /// space between each two.
    pub fn render(&self, dialect: Dialect) -> (line: String)
        ensures
            line@ == rendered(self@, dialect),
    {
        let ghost cmd = self@;
        let ghost env_words = cmd.env.map_values(
            |pair: (Seq<char>, Seq<char>)| pair.0 + "="@ + quoted(pair.1, dialect),
        );
        let ghost arg_words = cmd.args.map_values(|arg: Seq<char>| quoted(arg, dialect));
        let mut line = String::new();
        let mut i: usize = 0;
        while i < self.env.len()
            invariant
                i <= self.env.len(),
                cmd == self@,
                env_words == cmd.env.map_values(
                    |pair: (Seq<char>, Seq<char>)| pair.0 + "="@ + quoted(pair.1, dialect),
                ),
                line@ == spaced(env_words.take(i as int)),
            decreases self.env.len() - i,
        {
            assert(env_words.take(i + 1).drop_last() =~= env_words.take(i as int));
            line.append(self.env[i].0);
            line.append("=");
            let value = escape(self.env[i].1.as_str(), dialect);
            line.append(value.as_str());
            line.append(" ");
            i += 1;
        }
        assert(env_words.take(i as int) =~= env_words);
        line.append("curl");
        proof {
            lemma_spaced_then_word(env_words, "curl"@);
        }
        let ghost head = env_words.push("curl"@);
        let mut j: usize = 0;
        while j < self.args.len()
            invariant
                j <= self.args.len(),
                cmd == self@,
                head.len() > 0,
                arg_words == cmd.args.map_values(|arg: Seq<char>| quoted(arg, dialect)),
                line@ == joined(head + arg_words.take(j as int)),
            decreases self.args.len() - j,
        {
            let ghost so_far = head + arg_words.take(j as int);
            let ghost next = head + arg_words.take(j + 1);
            assert(next.drop_last() =~= so_far);
            line.append(" ");
            let arg = escape(self.args[j].as_str(), dialect);
            line.append(arg.as_str());
            j += 1;
        }
        assert(arg_words.take(j as int) =~= arg_words);
        assert(head + arg_words =~= words(cmd, dialect));
        line
    }

    /// What goes to the error stream before the command: a line
    /// `Warning: ...` for each warning, and an empty line after them
    /// where there are any.
    pub fn diagnostics(&self) -> (text: String)
        ensures
            text@ == diagnostics_text(self@),
    {
        let ghost warnings = self@.warnings;
        let mut text = String::new();
        let mut i: usize = 0;
        while i < self.warnings.len()
            invariant
                i <= self.warnings.len(),
                warnings == self@.warnings,
                text@ == warning_lines(warnings.take(i as int)),
            decreases self.warnings.len() - i,
        {
            assert(warnings.take(i + 1).drop_last() =~= warnings.take(i as int));
            text.append("Warning: ");
            text.append(self.warnings[i].as_str());
            text.append("\n");
            i += 1;
        }
        assert(warnings.take(i as int) =~= warnings);
        if self.warnings.len() > 0 {
            text.append("\n");
        }
        text
    }
}

} // verus!
