//! Parser for the attribute (`a=`) lines of the Session Description Protocol
//! (RFC 4566): keyword classification, the per-kind payload grammars, a typed
//! value model, and a two-severity diagnostic model.
pub mod attribute_type;
pub mod error;
pub mod network;
pub mod strutil;
