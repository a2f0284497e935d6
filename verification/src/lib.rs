//! Decoding of HTTP/1.1 requests from a byte buffer, and a compact value type
//! for the request method.

pub mod byte_str;
pub mod decimal;
pub mod extension;
pub mod laws;
pub mod method;
pub mod request;
pub mod response;
pub mod route;
pub mod scan;
pub mod str_map;
pub mod text;
pub mod token;
pub mod version;
