//! Diagnostics and the error type of the crate.

use vstd::prelude::*;

verus! {

/// `std::io::Error`, kept as the cause of a failure to bind a port or to
/// listen for signals. The library only carries it.
#[verifier::external_type_specification]
#[verifier::external_body]
pub struct ExIoError(std::io::Error);

/// What a diagnostic note speaks of.
#[derive(Clone, Copy, Debug, PartialEq, Eq)]
pub enum Info<T> {
    /// A single element of the input (a character or a byte).
    Token(T),
    /// The end of the input.
    EndOfInput,
    /// Any hexadecimal digit, of either case.
    HexDigit,
    /// The six `0xFF` bytes that open a magic packet.
    MagicPacketHeader,
    /// A repetition of the address captured after the header.
    RepeatedMacAddress,
}

/// One elementary note of a parse diagnostic.
#[derive(Clone, Copy, Debug, PartialEq, Eq)]
pub enum Note<T> {
    /// This was found where the grammar could not take it.
    Unexpected(Info<T>),
    /// This was what the grammar wanted at that position.
    Expected(Info<T>),
    /// So many more elements of a repeated pattern were still needed.
    ExpectedMore(usize),
}

/// Where a grammar first failed to match (a zero-based index of characters
/// or bytes), and why, as an ordered list of notes.
#[derive(Clone, Debug, PartialEq, Eq)]
pub struct ParseDiagnostic<T> {
    pub position: usize,
    pub notes: Vec<Note<T>>,
}

impl<T> View for ParseDiagnostic<T> {
    type V = (int, Seq<Note<T>>);

    open spec fn view(&self) -> (int, Seq<Note<T>>) {
        (self.position as int, self.notes@)
    }
}

/// Everything that can go wrong in this crate.
#[derive(Debug)]
pub enum Error {
    /// The text is not a hardware address.
    MacParseError(ParseDiagnostic<char>),
    /// The bytes, of the right length, are not a magic packet.
    MagicPacketParseError(ParseDiagnostic<u8>),
    /// The buffer has the given length, not that of a magic packet.
    MagicPacketLengthError(usize),
    /// The port could not be bound.
    BindError(u16, std::io::Error),
    /// Listening for signals failed.
    Io(std::io::Error),
}

} // verus!
