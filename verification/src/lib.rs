//! Core of a SIP user agent: the INVITE dialog state machines of both
//! sides and the framing of SIP messages on a reliable byte stream.
//!
//! The library decides and computes; it performs no I/O. A caller feeds it
//! the bytes and messages that arrived and carries out the actions that it
//! hands back.
//!
//! - [`message`], [`wire`], [`typed`]: messages as plain values, reading
//!   them from text and writing them as bytes.
//! - [`dialog_id`], [`state`], [`dialog`]: what both kinds of dialog share.
//! - [`client`], [`server`], [`kinds`], [`auth`]: the two sides of an
//!   INVITE dialog and the answer to a digest challenge.
//! - [`framing`], [`framed`], [`transport`]: frames on a byte stream.

pub mod auth;
pub mod client;
pub mod dialog;
pub mod dialog_id;
pub mod error;
pub mod framed;
pub mod framing;
pub mod kinds;
pub mod message;
pub mod server;
pub mod state;
pub mod text;
pub mod transport;
pub mod typed;
pub mod wire;
