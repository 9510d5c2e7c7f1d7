//! The OpenAI backend: its wire types and the decisions made around one
//! request.

pub mod chat;
pub mod request;
pub mod response;
pub mod session;
pub mod stream;
