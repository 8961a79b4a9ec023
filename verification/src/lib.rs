//! Telegram MTProto client library: the TL wire encoding of values, the
//! framing of unencrypted requests, and the generators that turn the TL
//! schema into Rust definitions and `Serialize` impls.

pub mod codegen;
pub mod derive;
pub mod error;
pub mod numeral;
pub mod request;
pub mod ser;
pub mod text;
