//! Query Minecraft-compatible game servers over the Server List Ping
//! protocol and render their status as styled terminal text.
//!
//! The crate covers the byte-exact and column-exact pieces of that job:
//! the VarInt codec and packet framing of the wire protocol, and the
//! text-formatting engine that interprets legacy `§`-code strings and
//! nested chat-component trees into width-bounded, SGR-styled output.
//! Connecting, reading and drawing are left to the caller.

pub mod arguments;
pub mod formatting;
pub mod protocol;
pub mod text;
