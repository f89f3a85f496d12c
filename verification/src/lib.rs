//! The core of an HTTP server: every request runs through an ordered chain of
//! stages around one handler, and whatever comes out, a response or a failure,
//! is turned into a response for the wire.

pub mod content;
pub mod error;
pub mod extensions;
pub mod ferrum;
pub mod headers;
pub mod middleware;
pub mod request;
pub mod response;
pub mod service;
pub mod status;

pub use content::Content;
pub use error::{FerrumError, FerrumResult};
pub use extensions::{ExtensionStore, ExtensionValue};
pub use ferrum::Ferrum;
pub use middleware::{AfterMiddleware, AroundMiddleware, BeforeMiddleware, Chain, Handler};
pub use request::uri::UriPathSegments;
pub use request::Request;
pub use response::Response;
