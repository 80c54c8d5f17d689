//! A fragment cache engine for shortcodes: named, parameterised placeholders in
//! page content that are replaced by computed text.
//!
//! The engine derives a stable cache key from a shortcode's arguments, decides
//! whether a stored fragment may still be served, and stores a freshly computed
//! fragment at most once per key.
//!
//! - [`arguments`]: the arguments of one shortcode invocation.
//! - [`canonical`] and [`key`]: from arguments to a canonical string and on to
//!   the cache key, whatever the order of the arguments and whatever `rotate`
//!   says.
//! - [`fingerprint`]: the hash behind the cache key.
//! - [`eviction`]: the time to live and what it means for a stored fragment.
//! - [`store`]: fragments by key, written once.
//! - [`registry`]: the functions that compute fragments, by display name.
//! - [`dispatch`]: one shortcode reference from arguments to fragment.
//! - [`script`] and [`fetch`]: fragments that load their content from a URL,
//!   in the browser or on the server.
//! - [`table`] and [`text`]: the map and the string helpers underneath.

pub mod arguments;
pub mod canonical;
pub mod dispatch;
pub mod error;
pub mod eviction;
pub mod fetch;
pub mod fingerprint;
pub mod key;
pub mod registry;
pub mod script;
pub mod store;
pub mod table;
pub mod text;

pub use registry::Shortcodes;
pub use script::fetch_shortcode_js;
