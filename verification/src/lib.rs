//! Adapters between the Poem web framework, the better-auth authentication
//! core and the Vercel runtime, with the request/response logic verified.

pub mod text;
pub mod auth;
pub mod headers;
pub mod pairs;
pub mod query;
pub mod request;
pub mod response;
pub mod session;
pub mod stream;
pub mod laws;

pub use query::decode_query_component;
pub use request::poem_request_to_auth_request;
pub use response::{auth_error_to_poem, auth_response_to_poem};
pub use session::extract_token;
pub use stream::is_event_stream;
