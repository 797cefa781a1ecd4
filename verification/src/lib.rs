//! An in-process HTTP test client.
//!
//! A [`Server`] represents one logical connection to an application under
//! test: it holds the base address, the cookies accumulated so far, and the
//! default settings that every new request starts from.  Calling one of its
//! verb methods (`get`, `post`, ...) yields a [`Request`] builder seeded with
//! a snapshot of that state; the builder is configured by chained calls and
//! then consumed, exactly once, into a [`WireRequest`] ready for a transport.
//! Cookies returned by the application are folded back into the `Server`
//! under an opt-in save policy.
//!
//! The transport itself (connections, TLS, the event loop) is not part of
//! this crate's logic: a caller hands the [`WireRequest`] to whatever client
//! it likes and feeds the outcome back through
//! [`Server::apply_response_cookies`] and [`Response::new`].

mod config;
mod cookies;
mod error;
mod request;
mod response;
mod server;
mod uri;
mod wire;

pub use config::Method;
pub use config::ServerConfig;
pub use config::ContentTypeModel;
pub use config::effective_content_type;
pub use config::method_name;
pub use config::opt_str_model;
pub use config::seeded_content_type;
pub use cookies::Cookie;
pub use cookies::CookieJar;
pub use cookies::CookieModel;
pub use cookies::cookie_index;
pub use cookies::distinct_names;
pub use cookies::has_cookie_named;
pub use cookies::jar_map;
pub use cookies::lemma_jar_map_names;
pub use cookies::lemma_jar_map_upsert;
pub use cookies::lemma_last_add_wins;
pub use cookies::upsert;
pub use cookies::upsert_all;
pub use error::Error;
pub use request::BodyModel;
pub use request::Request;
pub use request::RequestModel;
pub use request::WireModel;
pub use request::WireRequest;
pub use request::content_type_headers;
pub use request::cookie_headers;
pub use request::final_body_bytes;
pub use request::headers_encodable;
pub use request::into_wire_spec;
pub use request::lemma_added_cookie_sent;
pub use request::lemma_content_type_precedence;
pub use request::lemma_cookie_header_position;
pub use request::lemma_no_content_type_header;
pub use request::resolve_content_type;
pub use request::wire_headers;
pub use request::wire_result_model;
pub use response::Response;
pub use server::Server;
pub use server::ServerModel;
pub use server::lemma_cookie_isolation;
pub use server::lemma_all_values_merge;
pub use server::lemma_merged_cookie_present;
pub use server::merge_all;
pub use server::merge_step;
pub use server::parsable_prefix_len;
pub use server::seeded_request;
pub use server::set_cookie_values;
pub use server::strings_model;
pub use uri::build_request_path;
pub use uri::spec_join;
pub use wire::cookie_line;
pub use wire::header_char_ok;
pub use wire::json_encoding;
pub use wire::header_value_ok;
pub use wire::pairs_model;
pub use wire::uri_ok;
pub use wire::wire_cookie_parse;
pub use wire::wire_header_value_ok;
