//! A local HTTP relay core: turns a serialized request description into a
//! fully prepared outbound request, and turns an arbitrary remote response
//! into a single re-serializable JSON envelope.

pub mod envelope;
pub mod errors;
pub mod headers;
pub mod jsonval;
pub mod laws;
pub mod request;
pub mod response;
pub mod ser;
pub mod text;
