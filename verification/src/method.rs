//! HTTP request methods.
use crate::text::same_text;
use vstd::prelude::*;
use vstd::string::StringExecFns;

verus! {

/// The method of a request: one of the nine standard methods, or another
/// token.
///
/// A standard method is meant to be held as its own variant. A value
/// that holds the name of one in [`Method::Other`] stands for that
/// method all the same: see [`MethodView::normal`].
#[derive(Debug, PartialEq, Eq)]
pub enum Method {
    GET,
    HEAD,
    POST,
    PUT,
    DELETE,
    CONNECT,
    OPTIONS,
    TRACE,
    PATCH,
    /// Another method, by its name.
    Other(String),
}

/// The mathematical content of a [`Method`].
pub enum MethodView {
    GET,
    HEAD,
    POST,
    PUT,
    DELETE,
    CONNECT,
    OPTIONS,
    TRACE,
    PATCH,
    Other(Seq<char>),
}

impl MethodView {
    /// The method as it is written in a request.
    pub open spec fn name(self) -> Seq<char> {
        match self {
            MethodView::GET => "GET"@,
            MethodView::HEAD => "HEAD"@,
            MethodView::POST => "POST"@,
            MethodView::PUT => "PUT"@,
            MethodView::DELETE => "DELETE"@,
            MethodView::CONNECT => "CONNECT"@,
            MethodView::OPTIONS => "OPTIONS"@,
            MethodView::TRACE => "TRACE"@,
            MethodView::PATCH => "PATCH"@,
            MethodView::Other(name) => name,
        }
    }

    /// The method in its normal form: a standard method as its own
    /// variant, also where it was given by its name.
    pub open spec fn normal(self) -> MethodView {
        match self {
            MethodView::Other(name) => if name == "GET"@ {
                MethodView::GET
            } else if name == "HEAD"@ {
                MethodView::HEAD
            } else if name == "POST"@ {
                MethodView::POST
            } else if name == "PUT"@ {
                MethodView::PUT
            } else if name == "DELETE"@ {
                MethodView::DELETE
            } else if name == "CONNECT"@ {
                MethodView::CONNECT
            } else if name == "OPTIONS"@ {
                MethodView::OPTIONS
            } else if name == "TRACE"@ {
                MethodView::TRACE
            } else if name == "PATCH"@ {
                MethodView::PATCH
            } else {
                MethodView::Other(name)
            },
            standard => standard,
        }
    }

    /// Whether the method is in its normal form.
    pub open spec fn is_normal(self) -> bool {
        self.normal() == self
    }
}

/// The normal form of a method is normal and has the name of the
/// method.
pub proof fn lemma_normal_method(method: MethodView)
    ensures
        method.normal().is_normal(),
        method.normal().name() == method.name(),
{
}

impl View for Method {
    type V = MethodView;

    open spec fn view(&self) -> MethodView {
        match self {
            Method::GET => MethodView::GET,
            Method::HEAD => MethodView::HEAD,
            Method::POST => MethodView::POST,
            Method::PUT => MethodView::PUT,
            Method::DELETE => MethodView::DELETE,
            Method::CONNECT => MethodView::CONNECT,
            Method::OPTIONS => MethodView::OPTIONS,
            Method::TRACE => MethodView::TRACE,
            Method::PATCH => MethodView::PATCH,
            Method::Other(name) => MethodView::Other(name@),
        }
    }
}

impl Clone for Method {
    fn clone(&self) -> (copy: Method)
        ensures
            copy@ == self@,
    {
        match self {
            Method::GET => Method::GET,
            Method::HEAD => Method::HEAD,
            Method::POST => Method::POST,
            Method::PUT => Method::PUT,
            Method::DELETE => Method::DELETE,
            Method::CONNECT => Method::CONNECT,
            Method::OPTIONS => Method::OPTIONS,
            Method::TRACE => Method::TRACE,
            Method::PATCH => Method::PATCH,
            Method::Other(name) => Method::Other(name.clone()),
        }
    }
}

impl Method {
    /// The method with the given name, in its normal form.
    pub fn new(name: &str) -> (method: Method)
        ensures
            method@ == MethodView::Other(name@).normal(),
            method@.is_normal(),
            method@.name() == name@,
    {
        if same_text(name, "GET") {
            Method::GET
        } else if same_text(name, "HEAD") {
            Method::HEAD
        } else if same_text(name, "POST") {
            Method::POST
        } else if same_text(name, "PUT") {
            Method::PUT
        } else if same_text(name, "DELETE") {
            Method::DELETE
        } else if same_text(name, "CONNECT") {
            Method::CONNECT
        } else if same_text(name, "OPTIONS") {
            Method::OPTIONS
        } else if same_text(name, "TRACE") {
            Method::TRACE
        } else if same_text(name, "PATCH") {
            Method::PATCH
        } else {
            Method::Other(String::from_str(name))
        }
    }

    /// The method in its normal form.
    pub fn normalized(&self) -> (method: Method)
        ensures
            method@ == self@.normal(),
    {
        match self {
            Method::Other(name) => Method::new(name.as_str()),
            standard => standard.clone(),
        }
    }

    /// The method as it is written in a request.
    pub fn name(&self) -> (name: String)
        ensures
            name@ == self@.name(),
    {
        match self {
            Method::GET => String::from_str("GET"),
            Method::HEAD => String::from_str("HEAD"),
            Method::POST => String::from_str("POST"),
            Method::PUT => String::from_str("PUT"),
            Method::DELETE => String::from_str("DELETE"),
            Method::CONNECT => String::from_str("CONNECT"),
            Method::OPTIONS => String::from_str("OPTIONS"),
            Method::TRACE => String::from_str("TRACE"),
            Method::PATCH => String::from_str("PATCH"),
            Method::Other(name) => name.clone(),
        }
    }
}

} // verus!
