//! An HTTP/1.1 server engine: request parsing, routing and response framing,
//! with the behaviour of every function stated and proved.

pub mod connection;
pub mod cookies;
pub mod http;
pub mod json;
pub mod methods;
pub mod paths;
pub mod request;
pub mod response;
pub mod routes;
pub mod search;
pub mod state;
pub mod table;
pub mod text;
pub mod utils;
pub mod virtual_host;
