use crate::message::{json_top_level, map_message, string_fields, usable_fields};
use crate::placeholder::{make_url, resolve};
use vstd::prelude::*;

verus! {

/// The HTTP method of the outbound requests.
#[allow(clippy::upper_case_acronyms)]
#[derive(Debug, Clone, Copy, PartialEq, Eq, Structural)]
pub enum HttpMethod {
    GET,
    POST,
}

impl HttpMethod {
    /// The method that a configuration names: `POST` for exactly `"POST"`,
    /// `GET` for anything else (an unknown name falls back to `GET`).
    pub fn from_name(name: &str) -> (r: HttpMethod)
        ensures
            r == (if name@ == seq!['P', 'O', 'S', 'T'] {
                HttpMethod::POST
            } else {
                HttpMethod::GET
            }),
    {
        if name.unicode_len() == 4 && name.get_char(0) == 'P' && name.get_char(1) == 'O'
            && name.get_char(2) == 'S' && name.get_char(3) == 'T' {
            assert(name@ =~= seq!['P', 'O', 'S', 'T']);
            HttpMethod::POST
        } else {
            HttpMethod::GET
        }
    }
}

/// A request ready to be sent: method, URL and, for POST, the body.
#[derive(Debug)]
pub struct RequestDescriptor {
    pub method: HttpMethod,
    pub url: String,
    pub body: Option<String>,
}

/// The model of an optional body.
pub open spec fn body_view(body: Option<String>) -> Option<Seq<char>> {
    match body {
        Some(b) => Some(b@),
        None => None,
    }
}

impl View for RequestDescriptor {
    type V = (HttpMethod, Seq<char>, Option<Seq<char>>);

    open spec fn view(&self) -> (HttpMethod, Seq<char>, Option<Seq<char>>) {
        (self.method, self.url@, body_view(self.body))
    }
}

/// The request that a message turns into. POST: the pattern as it is, with
/// the message as the body. GET: the pattern filled from the message's
/// string fields, without a body; nothing when the message has no such field
/// or is not JSON.
pub open spec fn built(method: HttpMethod, pattern: Seq<char>, msg: Seq<char>) -> Option<
    (HttpMethod, Seq<char>, Option<Seq<char>>),
> {
    match method {
        HttpMethod::POST => Some((HttpMethod::POST, pattern, Some(msg))),
        HttpMethod::GET => match usable_fields(msg) {
            Some(fields) => Some((HttpMethod::GET, resolve(pattern, fields), None)),
            None => None,
        },
    }
}

/// Turns messages into requests with a fixed method and URL pattern.
#[derive(Debug, Clone)]
pub struct RequestBuilder {
    method: HttpMethod,
    pattern: String,
}

impl View for RequestBuilder {
    type V = (HttpMethod, Seq<char>);

    closed spec fn view(&self) -> (HttpMethod, Seq<char>) {
        (self.method, self.pattern@)
    }
}

impl RequestBuilder {
    pub fn new(method: HttpMethod, pattern: String) -> (r: RequestBuilder)
        ensures
            r@ == (method, pattern@),
    {
        RequestBuilder { method, pattern }
    }

    pub fn method(&self) -> (r: HttpMethod)
        ensures
            r == self@.0,
    {
        self.method
    }

    pub fn pattern(&self) -> (r: &str)
        ensures
            r@ == self@.1,
    {
        self.pattern.as_str()
    }

    /// The request for one message; `None` when a GET request cannot be
    /// made from it.
    pub fn build(&self, msg: &str) -> (r: Option<RequestDescriptor>)
        ensures
            r is Some <==> built(self@.0, self@.1, msg@) is Some,
            r matches Some(d) ==> d@ == built(self@.0, self@.1, msg@)->0,
            self@.0 == HttpMethod::POST ==> r is Some && r->0.body is Some && r->0.body->0@
                == msg@ && r->0.url@ == self@.1,
            self@.0 == HttpMethod::GET && (json_top_level(msg@) is None || json_top_level(msg@)
                == Some(None::<Seq<(Seq<char>, crate::message::JsonModel)>>) || (json_top_level(
                msg@,
            ) matches Some(Some(f)) && string_fields(f).len() == 0)) ==> r is None,
    {
        match self.method {
            HttpMethod::GET => {
                let map = match map_message(msg) {
                    Some(m) => m,
                    None => return None,
                };
                let url = make_url(self.pattern.clone(), map.into_pairs());
                Some(RequestDescriptor { method: HttpMethod::GET, url, body: None })
            },
            HttpMethod::POST => {
                let body = msg.to_string();
                Some(
                    RequestDescriptor {
                        method: HttpMethod::POST,
                        url: self.pattern.clone(),
                        body: Some(body),
                    },
                )
            },
        }
    }
}

} // verus!
