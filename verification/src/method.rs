use vstd::prelude::*;

use crate::text::str_eq;

verus! {

/// The closed set of request methods this parser recognizes.
#[derive(Copy, Clone, Debug, PartialEq, Eq, Structural)]
pub enum Method {
    Get,
    Delete,
    Post,
    Put,
    Head,
    Connect,
    Options,
    Trace,
    Patch,
}

/// The method named by a token, or `None` when the token names no method
/// of the closed set.  The match is case-sensitive.
pub open spec fn spec_method_of(s: Seq<char>) -> Option<Method> {
    if s == "GET"@ {
        Some(Method::Get)
    } else if s == "DELETE"@ {
        Some(Method::Delete)
    } else if s == "POST"@ {
        Some(Method::Post)
    } else if s == "PUT"@ {
        Some(Method::Put)
    } else if s == "HEAD"@ {
        Some(Method::Head)
    } else if s == "CONNECT"@ {
        Some(Method::Connect)
    } else if s == "OPTIONS"@ {
        Some(Method::Options)
    } else if s == "TRACE"@ {
        Some(Method::Trace)
    } else if s == "PATCH"@ {
        Some(Method::Patch)
    } else {
        None
    }
}

impl Method {
    /// Parses a method token against the closed method set.
    pub fn from_str(s: &str) -> (r: Option<Method>)
        ensures
            r == spec_method_of(s@),
    {
        if str_eq(s, "GET") {
            Some(Method::Get)
        } else if str_eq(s, "DELETE") {
            Some(Method::Delete)
        } else if str_eq(s, "POST") {
            Some(Method::Post)
        } else if str_eq(s, "PUT") {
            Some(Method::Put)
        } else if str_eq(s, "HEAD") {
            Some(Method::Head)
        } else if str_eq(s, "CONNECT") {
            Some(Method::Connect)
        } else if str_eq(s, "OPTIONS") {
            Some(Method::Options)
        } else if str_eq(s, "TRACE") {
            Some(Method::Trace)
        } else if str_eq(s, "PATCH") {
            Some(Method::Patch)
        } else {
            None
        }
    }
}

} // verus!
