//! Attribute value types of the closed-enumeration-with-fallback shape.
//!
//! A closed enumeration maps to a tagged union whose named members come
//! first and whose last variant carries a free-text payload: the implicit
//! fallback for a value outside the declared set. Renderers expose the
//! fallback whatever the declared member count.

use vstd::prelude::*;

verus! {

/// Describes a class of error an operation ended with. The enumeration
/// declares no named members, so only the implicit fallback and the custom
/// escape hatch remain.
#[derive(Debug, Clone)]
#[non_exhaustive]
pub enum ErrorType {
    /// A fallback error value used when the instrumentation does not define
    /// a custom value.
    Other,
    /// This variant allows defining a custom entry in the enum.
    _Custom(String),
}

impl ErrorType {
    /// The characters of the value's string representation.
    pub open spec fn text(&self) -> Seq<char> {
        match self {
            ErrorType::Other => "_OTHER"@,
            ErrorType::_Custom(v) => v@,
        }
    }

    /// Returns the string representation of the [`ErrorType`].
    pub fn as_str(&self) -> (r: &str)
        ensures
            r@ == self.text(),
    {
        match self {
            ErrorType::Other => "_OTHER",
            ErrorType::_Custom(v) => v.as_str(),
        }
    }
}

/// The HTTP request method. The named members are the methods of the HTTP
/// standard; a method outside the set is carried by the fallback or the
/// custom escape hatch.
#[derive(Debug, Clone)]
#[non_exhaustive]
pub enum HttpRequestMethod {
    Connect,
    Delete,
    Get,
    Head,
    Options,
    Patch,
    Post,
    Put,
    Trace,
    /// A fallback value for a method the instrumentation does not know.
    Other,
    /// This variant allows defining a custom entry in the enum.
    _Custom(String),
}

impl HttpRequestMethod {
    /// The characters of the value's string representation.
    pub open spec fn text(&self) -> Seq<char> {
        match self {
            HttpRequestMethod::Connect => "CONNECT"@,
            HttpRequestMethod::Delete => "DELETE"@,
            HttpRequestMethod::Get => "GET"@,
            HttpRequestMethod::Head => "HEAD"@,
            HttpRequestMethod::Options => "OPTIONS"@,
            HttpRequestMethod::Patch => "PATCH"@,
            HttpRequestMethod::Post => "POST"@,
            HttpRequestMethod::Put => "PUT"@,
            HttpRequestMethod::Trace => "TRACE"@,
            HttpRequestMethod::Other => "_OTHER"@,
            HttpRequestMethod::_Custom(v) => v@,
        }
    }

    /// Returns the string representation of the [`HttpRequestMethod`].
    pub fn as_str(&self) -> (r: &str)
        ensures
            r@ == self.text(),
    {
        match self {
            HttpRequestMethod::Connect => "CONNECT",
            HttpRequestMethod::Delete => "DELETE",
            HttpRequestMethod::Get => "GET",
            HttpRequestMethod::Head => "HEAD",
            HttpRequestMethod::Options => "OPTIONS",
            HttpRequestMethod::Patch => "PATCH",
            HttpRequestMethod::Post => "POST",
            HttpRequestMethod::Put => "PUT",
            HttpRequestMethod::Trace => "TRACE",
            HttpRequestMethod::Other => "_OTHER",
            HttpRequestMethod::_Custom(v) => v.as_str(),
        }
    }
}

} // verus!
