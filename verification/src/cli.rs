//! The options of one invocation, already parsed: what the translation
//! to `curl` reads of the command line.
use crate::method::Method;
use crate::request_items::{RequestItems, RequestType};
use vstd::prelude::*;

verus! {

/// Whether and how the server's certificate is verified.
#[derive(Debug)]
pub enum Verify {
    /// Against the system's certificates.
    Yes,
    /// Not at all.
    No,
    /// Against the CA bundle in the given file.
    CustomCABundle(String),
}

/// A proxy, with the requests that it is for.
#[derive(Debug)]
pub enum Proxy {
    /// For requests over plain HTTP.
    Http(String),
    /// For requests over HTTPS.
    Https(String),
    /// For all requests.
    All(String),
}

/// The options of one invocation.
#[derive(Debug)]
pub struct Cli {
    /// Spell `curl`'s options in their long form.
    pub curl_long: bool,
    /// Build the request without sending it.
    pub offline: bool,
    /// Print only the body of the response.
    pub body: bool,
    /// A selection of what to print was given.
    pub print: bool,
    /// Print nothing.
    pub quiet: bool,
    /// A choice of formatting was given.
    pub pretty: bool,
    /// A colour scheme was given.
    pub style: bool,
    /// Print the request as well.
    pub verbose: bool,
    /// Print the response as it comes in.
    pub stream: bool,
    /// Fail on an error status.
    pub check_status: bool,
    /// Follow redirects.
    pub follow: bool,
    /// How many redirects to follow at most.
    pub max_redirects: Option<usize>,
    /// The file to write the response to.
    pub output: Option<String>,
    /// Save the response under the name that the server gives.
    pub download: bool,
    /// Resume an interrupted download.
    pub resume: bool,
    /// Whether and how to verify the server's certificate.
    pub verify: Option<Verify>,
    /// The file with the client certificate.
    pub cert: Option<String>,
    /// The file with the key of the client certificate.
    pub cert_key: Option<String>,
    /// The proxies, in the order given.
    pub proxy: Vec<Proxy>,
    /// The method, where one was given.
    pub method: Option<Method>,
    /// Print only the headers of the response.
    pub headers: bool,
    /// The encoding of the body, where one was asked for.
    pub request_type: Option<RequestType>,
    /// A JSON body was asked for.
    pub json: bool,
    /// A multipart body was asked for.
    pub multipart: bool,
    /// User and password for basic authentication, as given.
    pub auth: Option<String>,
    /// The token for bearer authentication.
    pub bearer: Option<String>,
    /// The URL of the request, as given.
    pub url: String,
    /// The scheme for a URL that names none, where one was chosen.
    pub default_scheme: Option<String>,
    /// The request items, in the order given.
    pub request_items: RequestItems,
}

impl Cli {
    /// The options of an invocation that gives a URL and request items
    /// and nothing else.
    pub fn new(url: String, request_items: RequestItems) -> (args: Cli)
        ensures
            args.url == url,
            args.request_items == request_items,
            !args.curl_long && !args.offline && !args.body && !args.print && !args.quiet
                && !args.pretty && !args.style && !args.verbose && !args.stream
                && !args.check_status && !args.follow && !args.download && !args.resume
                && !args.headers && !args.json && !args.multipart,
            args.max_redirects is None && args.output is None && args.verify is None
                && args.cert is None && args.cert_key is None && args.method is None
                && args.request_type is None && args.auth is None && args.bearer is None
                && args.default_scheme is None,
            args.proxy@.len() == 0,
    {
        Cli {
            curl_long: false,
            offline: false,
            body: false,
            print: false,
            quiet: false,
            pretty: false,
            style: false,
            verbose: false,
            stream: false,
            check_status: false,
            follow: false,
            max_redirects: None,
            output: None,
            download: false,
            resume: false,
            verify: None,
            cert: None,
            cert_key: None,
            proxy: Vec::new(),
            method: None,
            headers: false,
            request_type: None,
            json: false,
            multipart: false,
            auth: None,
            bearer: None,
            url,
            default_scheme: None,
            request_items,
        }
    }
}

} // verus!
