//! Recognition of wake-on-LAN magic packets.
//!
//! The library holds the protocol layer of a small daemon that runs a command
//! when a magic packet for a chosen hardware address arrives: the six-octet
//! address with its canonical text form, the grammar of that text form, the
//! grammar of the 102-byte magic packet, the diagnostics both grammars give,
//! and the decision taken on each received datagram.

pub mod error;
pub mod mac;
pub mod packet;
pub mod server;

pub use error::{Error, Info, Note, ParseDiagnostic};
pub use mac::MacAddress;
pub use server::{classify_datagram, Verdict};
