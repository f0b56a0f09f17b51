//! The magic packet grammar: six `0xFF` bytes, then an address sixteen times.

use vstd::prelude::*;

use crate::error::{Error, Info, Note, ParseDiagnostic};
use crate::mac::MacAddress;

verus! {

/// The number of `0xFF` bytes that open a magic packet.
pub const HEADER_LEN: usize = 6;

/// The number of octets of an address.
pub const ADDRESS_LEN: usize = 6;

/// How many times a magic packet holds the address.
pub const REPETITIONS: usize = 16;

/// The length of a magic packet: the header and sixteen copies of the
/// address, 102 bytes.
pub const MAGIC_PACKET_LEN: usize = HEADER_LEN + REPETITIONS * ADDRESS_LEN;

/// The first index from `i` on, below the header's end, whose byte is not
/// `0xFF`; the header's length where there is none.
pub open spec fn header_break_from(bs: Seq<u8>, i: int) -> int
    decreases 6 - i,
{
    if i >= 6 {
        6
    } else if bs[i] != 0xFF {
        i
    } else {
        header_break_from(bs, i + 1)
    }
}

/// The first index from `j` on, below the packet's end, whose byte differs
/// from the byte at the same offset of the address captured after the
/// header; the packet's length where there is none.
pub open spec fn repetition_break_from(bs: Seq<u8>, j: int) -> int
    decreases MAGIC_PACKET_LEN as int - j,
{
    if j >= MAGIC_PACKET_LEN as int {
        MAGIC_PACKET_LEN as int
    } else if bs[j] != bs[6 + j % 6] {
        j
    } else {
        repetition_break_from(bs, j + 1)
    }
}

/// The address whose six octets start at index `i` of `bs`.
pub open spec fn address_at(bs: Seq<u8>, i: int) -> MacAddress {
    MacAddress(bs[i], bs[i + 1], bs[i + 2], bs[i + 3], bs[i + 4], bs[i + 5])
}

/// The magic packet grammar on a buffer of 102 bytes: six `0xFF` bytes, an
/// address, and fifteen more copies of it. The result is that address, or
/// where and why the buffer breaks the form. The repetitions still owed at
/// a break count the copy that holds it.
pub open spec fn packet_grammar(bs: Seq<u8>) -> Result<MacAddress, (int, Seq<Note<u8>>)> {
    let h = header_break_from(bs, 0);
    let k = repetition_break_from(bs, 12);
    if h < 6 {
        Err((h, seq![Note::ExpectedMore((6 - h) as usize), Note::Expected(Info::MagicPacketHeader)]))
    } else if k < MAGIC_PACKET_LEN as int {
        Err(
            (
                k,
                seq![
                    Note::ExpectedMore((15 - (k - 12) / 6) as usize),
                    Note::Expected(Info::RepeatedMacAddress),
                ],
            ),
        )
    } else {
        Ok(address_at(bs, 6))
    }
}

/// Whether `r` is what reading `bs` as a magic packet gives: a length error
/// for a buffer that is not 102 bytes long, else the packet grammar's result.
pub open spec fn reports_packet(bs: Seq<u8>, r: Result<MacAddress, Error>) -> bool {
    if bs.len() != MAGIC_PACKET_LEN as int {
        r == Err::<MacAddress, Error>(Error::MagicPacketLengthError(bs.len() as usize))
    } else {
        match packet_grammar(bs) {
            Ok(a) => r == Ok::<MacAddress, Error>(a),
            Err(failure) => match r {
                Err(Error::MagicPacketParseError(d)) => d@ == failure,
                _ => false,
            },
        }
    }
}

/// A diagnostic of the packet grammar at `position`: `more` elements of the
/// pattern `label` were still needed.
fn packet_diagnostic(position: usize, more: usize, label: Info<u8>) -> (r: Error)
    ensures
        r matches Error::MagicPacketParseError(d) && d@ == (
            position as int,
            seq![Note::ExpectedMore(more), Note::Expected(label)],
        ),
{
    let notes = vec![Note::ExpectedMore(more), Note::Expected(label)];
    assert(notes@ =~= seq![Note::ExpectedMore(more), Note::Expected(label)]);
    Error::MagicPacketParseError(ParseDiagnostic { position, notes })
}

impl MacAddress {
    /// Reads a wake-on-LAN magic packet and returns the address it wakes.
    ///
    /// A buffer whose length is not 102 gives a length error with that
    /// length, and the grammar is not tried. Otherwise the first six bytes
    /// must be `0xFF`, the next six are taken as the address, and the rest
    /// must repeat them fifteen times over. A diagnostic stands at the first
    /// byte that breaks this, with the number of elements still owed: of the
    /// header, or of repetitions of the address. The sixteen copies end the
    /// buffer, so nothing can follow them.
    pub fn from_magic_packet(bs: &[u8]) -> (r: Result<MacAddress, Error>)
        ensures
            reports_packet(bs@, r),
            bs@.len() != MAGIC_PACKET_LEN as int <==> r matches Err(Error::MagicPacketLengthError(n)),
            r matches Err(Error::MagicPacketLengthError(n)) ==> n == bs@.len(),
    {
        if bs.len() != MAGIC_PACKET_LEN {
            return Err(Error::MagicPacketLengthError(bs.len()));
        }
        let mut i: usize = 0;
        while i < HEADER_LEN
            invariant
                bs@.len() == MAGIC_PACKET_LEN as int,
                i <= 6,
                header_break_from(bs@, 0) == header_break_from(bs@, i as int),
            decreases 6 - i,
        {
            if bs[i] != 0xFF {
                return Err(packet_diagnostic(i, HEADER_LEN - i, Info::MagicPacketHeader));
            }
            i += 1;
        }
        let first = HEADER_LEN + ADDRESS_LEN;
        let mut j: usize = first;
        while j < MAGIC_PACKET_LEN
            invariant
                bs@.len() == MAGIC_PACKET_LEN as int,
                first == 12,
                12 <= j <= MAGIC_PACKET_LEN as int,
                header_break_from(bs@, 0) == 6,
                repetition_break_from(bs@, 12) == repetition_break_from(bs@, j as int),
            decreases MAGIC_PACKET_LEN as int - j,
        {
            if bs[j] != bs[HEADER_LEN + j % ADDRESS_LEN] {
                let more = REPETITIONS - 1 - (j - first) / ADDRESS_LEN;
                return Err(packet_diagnostic(j, more, Info::RepeatedMacAddress));
            }
            j += 1;
        }
        Ok(MacAddress(bs[6], bs[7], bs[8], bs[9], bs[10], bs[11]))
    }
}

/// The magic packet that wakes `a`: six `0xFF` bytes, then the octets of `a`
/// sixteen times over.
pub open spec fn magic_packet_of(a: MacAddress) -> Seq<u8> {
    Seq::new(MAGIC_PACKET_LEN as nat, |i: int| if i < 6 { 0xFFu8 } else { a.octets()[(i - 6) % 6] })
}

proof fn lemma_header_break(bs: Seq<u8>, i: int)
    requires
        0 <= i <= 6,
        bs.len() >= 6,
    ensures
        i <= header_break_from(bs, i) <= 6,
        forall|j: int| i <= j < header_break_from(bs, i) ==> bs[j] == 0xFF,
        header_break_from(bs, i) < 6 ==> bs[header_break_from(bs, i)] != 0xFF,
    decreases 6 - i,
{
    if i < 6 && bs[i] == 0xFF {
        lemma_header_break(bs, i + 1);
    }
}

proof fn lemma_repetition_break(bs: Seq<u8>, j: int)
    requires
        12 <= j <= MAGIC_PACKET_LEN as int,
        bs.len() == MAGIC_PACKET_LEN as int,
    ensures
        j <= repetition_break_from(bs, j) <= MAGIC_PACKET_LEN as int,
        forall|q: int| j <= q < repetition_break_from(bs, j) ==> #[trigger] bs[q] == bs[6 + q % 6],
        repetition_break_from(bs, j) < MAGIC_PACKET_LEN as int ==> bs[repetition_break_from(bs, j)] != bs[6
            + repetition_break_from(bs, j) % 6],
    decreases MAGIC_PACKET_LEN as int - j,
{
    if j < MAGIC_PACKET_LEN as int && bs[j] == bs[6 + j % 6] {
        lemma_repetition_break(bs, j + 1);
    }
}

/// A buffer of six `0xFF` bytes followed by sixteen copies of an address is
/// a magic packet for that address.
pub proof fn lemma_magic_packet_of(a: MacAddress)
    ensures
        magic_packet_of(a).len() == MAGIC_PACKET_LEN as int,
        packet_grammar(magic_packet_of(a)) == Ok::<MacAddress, (int, Seq<Note<u8>>)>(a),
{
    let bs = magic_packet_of(a);
    lemma_header_break(bs, 0);
    lemma_repetition_break(bs, 12);
    let k = repetition_break_from(bs, 12);
    if k < MAGIC_PACKET_LEN as int {
        assert(bs[k] == a.octets()[(k - 6) % 6]);
        assert(bs[6 + k % 6] == a.octets()[k % 6]);
        assert((k - 6) % 6 == k % 6);
    }
    assert(address_at(bs, 6) == a);
}

/// A packet of 102 bytes with a good header, whose first fifteen copies of
/// the address agree but whose last copy differs from the first, fails at
/// the first byte of the last copy that differs, one repetition short.
pub proof fn lemma_last_copy_differs(bs: Seq<u8>, p: int)
    requires
        bs.len() == MAGIC_PACKET_LEN as int,
        forall|i: int| 0 <= i < 6 ==> bs[i] == 0xFF,
        forall|q: int| 12 <= q < 96 ==> #[trigger] bs[q] == bs[6 + q % 6],
        96 <= p < MAGIC_PACKET_LEN as int,
        forall|q: int| 96 <= q < p ==> #[trigger] bs[q] == bs[q - 90],
        bs[p] != bs[p - 90],
    ensures
        packet_grammar(bs) == Err::<MacAddress, (int, Seq<Note<u8>>)>(
            (p, seq![Note::ExpectedMore(1), Note::Expected(Info::RepeatedMacAddress)]),
        ),
{
    lemma_header_break(bs, 0);
    lemma_repetition_break(bs, 12);
    let k = repetition_break_from(bs, 12);
    assert forall|q: int| 96 <= q < p implies #[trigger] bs[q] == bs[6 + q % 6] by {
        assert(q - 90 == 6 + q % 6);
    }
    assert(p - 90 == 6 + p % 6);
    if k < p {
        if k >= 96 {
            assert(k - 90 == 6 + k % 6);
        }
    }
    assert(k == p);
}

/// Whether two results of reading input are the same outcome: the same
/// address, or the same diagnosis.
pub open spec fn same_outcome(r1: Result<MacAddress, Error>, r2: Result<MacAddress, Error>) -> bool {
    match (r1, r2) {
        (Ok(a), Ok(b)) => a == b,
        (Err(Error::MacParseError(d)), Err(Error::MacParseError(e))) => d@ == e@,
        (Err(Error::MagicPacketParseError(d)), Err(Error::MagicPacketParseError(e))) => d@ == e@,
        (Err(Error::MagicPacketLengthError(m)), Err(Error::MagicPacketLengthError(n))) => m == n,
        _ => false,
    }
}

/// Reading a magic packet depends on the bytes alone: two readings of the
/// same buffer have the same outcome.
pub proof fn lemma_packet_reading_repeatable(
    bs: Seq<u8>,
    r1: Result<MacAddress, Error>,
    r2: Result<MacAddress, Error>,
)
    requires
        reports_packet(bs, r1),
        reports_packet(bs, r2),
    ensures
        same_outcome(r1, r2),
{
}

} // verus!
