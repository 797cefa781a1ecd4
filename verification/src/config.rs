//! Request methods and session defaults.

use vstd::prelude::*;

verus! {

/// An HTTP request method.
#[derive(Clone, Copy, Debug, PartialEq, Eq, Structural)]
pub enum Method {
    Get,
    Post,
    Put,
    Patch,
    Delete,
}

/// The verb as it stands on the wire.
pub open spec fn method_name(m: Method) -> Seq<char> {
    match m {
        Method::Get => "GET"@,
        Method::Post => "POST"@,
        Method::Put => "PUT"@,
        Method::Patch => "PATCH"@,
        Method::Delete => "DELETE"@,
    }
}

impl Method {
    /// The verb as it goes on the wire.
    pub fn wire_name(&self) -> (r: &'static str)
        ensures
            r@ == method_name(*self),
    {
        match self {
            Method::Get => "GET",
            Method::Post => "POST",
            Method::Put => "PUT",
            Method::Patch => "PATCH",
            Method::Delete => "DELETE",
        }
    }
}

/// The view of an optional string.
pub open spec fn opt_str_model(o: Option<String>) -> Option<Seq<char>> {
    match o {
        Some(s) => Some(s@),
        None => None,
    }
}

/// The defaults a session starts every request from, fixed at session
/// construction time.
pub struct ServerConfig {
    /// Whether cookies returned by the application are saved back into the
    /// session by default.
    pub save_cookies: bool,
    /// The content type a request starts with, when no body setter or
    /// explicit choice provides one.
    pub default_content_type: Option<String>,
}

impl Default for ServerConfig {
    /// Cookies are not saved, and requests start with no content type.
    fn default() -> (r: ServerConfig)
        ensures
            r.save_cookies == false,
            r.default_content_type is None,
    {
        ServerConfig { save_cookies: false, default_content_type: None }
    }
}

/// A request's content type, with its provenance.  An explicit choice
/// outranks the type a body setter implies, which in turn outranks the
/// session default the builder was seeded with.
pub(crate) enum ContentTypeState {
    /// No content type at all.
    Unset,
    /// Seeded from the session default; a body setter may still replace it.
    Defaulted(String),
    /// Set on this request, explicitly or by a body setter; later body
    /// setters leave it alone.
    Chosen(String),
}

/// Model of a request's content type and its provenance.
pub enum ContentTypeModel {
    Unset,
    Defaulted(Seq<char>),
    Chosen(Seq<char>),
}

/// Model of a content-type state.
pub(crate) open spec fn content_type_model(c: &ContentTypeState) -> ContentTypeModel {
    match c {
        ContentTypeState::Unset => ContentTypeModel::Unset,
        ContentTypeState::Defaulted(v) => ContentTypeModel::Defaulted(v@),
        ContentTypeState::Chosen(v) => ContentTypeModel::Chosen(v@),
    }
}

/// The content type a fresh builder starts with, given the session default.
pub open spec fn seeded_content_type(default: Option<Seq<char>>) -> ContentTypeModel {
    match default {
        Some(v) => ContentTypeModel::Defaulted(v),
        None => ContentTypeModel::Unset,
    }
}

/// The value that actually goes on the wire, whatever its provenance.
pub open spec fn effective_content_type(ct: ContentTypeModel) -> Option<Seq<char>> {
    match ct {
        ContentTypeModel::Unset => None,
        ContentTypeModel::Defaulted(v) => Some(v),
        ContentTypeModel::Chosen(v) => Some(v),
    }
}

/// Per-request settings, snapshotted from the session when a builder is
/// created and owned by the builder from then on.
pub(crate) struct RequestConfig {
    pub method: Method,
    pub request_path: String,
    pub save_cookies: bool,
    pub content_type: ContentTypeState,
}

} // verus!
