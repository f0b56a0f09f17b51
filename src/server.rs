//! The decision the listener takes on each datagram it receives.

use vstd::prelude::*;

use crate::error::Error;
use crate::mac::MacAddress;
use crate::packet::reports_packet;

verus! {

/// What becomes of one received datagram.
#[derive(Debug)]
pub enum Verdict {
    /// The payload is not a magic packet: the diagnostic is logged and the
    /// datagram dropped.
    Invalid(Error),
    /// A magic packet for another address: it is logged and dropped.
    OtherAddress(MacAddress),
    /// A magic packet for the watched address: the command is run.
    Wake(MacAddress),
}

/// Reads the payload of a datagram as a magic packet and decides what to do
/// with it, given the address that the listener watches for.
pub fn classify_datagram(bytes: &[u8], desired: MacAddress) -> (v: Verdict)
    ensures
        match v {
            Verdict::Invalid(e) => reports_packet(bytes@, Err(e)),
            Verdict::OtherAddress(a) => reports_packet(bytes@, Ok(a)) && a != desired,
            Verdict::Wake(a) => reports_packet(bytes@, Ok(a)) && a == desired,
        },
{
    match MacAddress::from_magic_packet(bytes) {
        Err(e) => Verdict::Invalid(e),
        Ok(a) => {
            if a == desired {
                Verdict::Wake(a)
            } else {
                Verdict::OtherAddress(a)
            }
        },
    }
}

} // verus!
