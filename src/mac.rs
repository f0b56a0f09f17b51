//! The hardware address, its canonical text form, and the grammar of that form.

use vstd::prelude::*;
use vstd::string::{StrSliceExecFns, StringExecFns};

use crate::error::{Error, Info, Note, ParseDiagnostic};

verus! {

/// A hardware (MAC) address: six octets, the first the most significant.
///
/// Equality and order are those of the octets taken in turn.
#[derive(Clone, Copy, Debug, PartialEq, Eq, Structural, Hash, PartialOrd, Ord)]
pub struct MacAddress(pub u8, pub u8, pub u8, pub u8, pub u8, pub u8);

impl MacAddress {
    /// The six octets, the most significant first.
    pub open spec fn octets(self) -> Seq<u8> {
        seq![self.0, self.1, self.2, self.3, self.4, self.5]
    }
}

/// Whether `c` is a hexadecimal digit, of either case.
pub open spec fn is_hex_digit(c: char) -> bool {
    ('0' <= c && c <= '9') || ('a' <= c && c <= 'f') || ('A' <= c && c <= 'F')
}

/// The value of the hexadecimal digit `c`.
pub open spec fn hex_value(c: char) -> int {
    if '0' <= c && c <= '9' {
        c as int - '0' as int
    } else if 'a' <= c && c <= 'f' {
        c as int - 'a' as int + 10
    } else {
        c as int - 'A' as int + 10
    }
}

/// The value of a hexadecimal digit, or `None` for any other character.
fn hex_digit_value(c: char) -> (r: Option<u8>)
    ensures
        r == (if is_hex_digit(c) { Some(hex_value(c) as u8) } else { None::<u8> }),
        r matches Some(v) ==> v < 16,
{
    if '0' <= c && c <= '9' {
        Some((c as u32 - '0' as u32) as u8)
    } else if 'a' <= c && c <= 'f' {
        Some((c as u32 - 'a' as u32 + 10) as u8)
    } else if 'A' <= c && c <= 'F' {
        Some((c as u32 - 'A' as u32 + 10) as u8)
    } else {
        None
    }
}

/// The number of characters in the text form of an address.
pub const MAC_TEXT_LEN: usize = 17;

/// Whether `c` may stand at index `i` of the text form: a colon after each
/// pair of digits, a hexadecimal digit elsewhere.
pub open spec fn fits_at(c: char, i: int) -> bool {
    if i % 3 == 2 {
        c == ':'
    } else {
        is_hex_digit(c)
    }
}

/// What the text grammar wants at index `i` of the text form.
pub open spec fn expected_at(i: int) -> Info<char> {
    if i % 3 == 2 {
        Info::Token(':')
    } else {
        Info::HexDigit
    }
}

/// The first place, from index `i` on, where `s` departs from the form
/// `XX:XX:XX:XX:XX:XX`, with the notes that report it; `None` where `s`
/// matches from `i` to its end.
pub open spec fn text_failure_from(s: Seq<char>, i: int) -> Option<(int, Seq<Note<char>>)>
    decreases 17 - i,
{
    if i >= 17 {
        if s.len() > 17 {
            Some((17, seq![Note::Unexpected(Info::Token(s[17])), Note::Expected(Info::EndOfInput)]))
        } else {
            None
        }
    } else if i >= s.len() {
        Some((i, seq![Note::Unexpected(Info::EndOfInput), Note::Expected(expected_at(i))]))
    } else if !fits_at(s[i], i) {
        Some((i, seq![Note::Unexpected(Info::Token(s[i])), Note::Expected(expected_at(i))]))
    } else {
        text_failure_from(s, i + 1)
    }
}

/// The octet written by the two hexadecimal digits at `i` and `i + 1`.
pub open spec fn octet_at(s: Seq<char>, i: int) -> u8 {
    (16 * hex_value(s[i]) + hex_value(s[i + 1])) as u8
}

/// The address written in `s`, read as six groups of two digits.
pub open spec fn address_of_text(s: Seq<char>) -> MacAddress {
    MacAddress(
        octet_at(s, 0),
        octet_at(s, 3),
        octet_at(s, 6),
        octet_at(s, 9),
        octet_at(s, 12),
        octet_at(s, 15),
    )
}

/// The text grammar: the address that `s` writes, or where and why it is
/// not an address.
pub open spec fn text_grammar(s: Seq<char>) -> Result<MacAddress, (int, Seq<Note<char>>)> {
    match text_failure_from(s, 0) {
        Some(failure) => Err(failure),
        None => Ok(address_of_text(s)),
    }
}

/// Whether `r` is what the text grammar makes of `s`.
pub open spec fn reports_text(s: Seq<char>, r: Result<MacAddress, Error>) -> bool {
    match text_grammar(s) {
        Ok(a) => r == Ok::<MacAddress, Error>(a),
        Err(failure) => match r {
            Err(Error::MacParseError(d)) => d@ == failure,
            _ => false,
        },
    }
}

/// What the text grammar wants at index `i`.
fn wanted_at(i: usize) -> (r: Info<char>)
    ensures
        r == expected_at(i as int),
{
    if i % 3 == 2 {
        Info::Token(':')
    } else {
        Info::HexDigit
    }
}

/// A diagnostic of the text grammar at `position`: `found` stood where
/// `wanted` was expected.
fn text_diagnostic(position: usize, found: Info<char>, wanted: Info<char>) -> (r: Error)
    ensures
        r matches Error::MacParseError(d) && d@ == (
            position as int,
            seq![Note::Unexpected(found), Note::Expected(wanted)],
        ),
{
    let notes = vec![Note::Unexpected(found), Note::Expected(wanted)];
    assert(notes@ =~= seq![Note::Unexpected(found), Note::Expected(wanted)]);
    Error::MacParseError(ParseDiagnostic { position, notes })
}

impl MacAddress {
    /// Parses the text form `XX:XX:XX:XX:XX:XX` of an address: six groups
    /// of two hexadecimal digits of either case, joined by colons, with
    /// nothing before or after.
    ///
    /// On failure the diagnostic stands at the first character (or the end
    /// of input) that departs from that form, and names what was found and
    /// what was expected there.
    pub fn from_str(s: &str) -> (r: Result<MacAddress, Error>)
        ensures
            reports_text(s@, r),
    {
        let n = s.unicode_len();
        let mut octets: [u8; 6] = [0u8; 6];
        let mut high: u8 = 0;
        let mut i: usize = 0;
        while i < MAC_TEXT_LEN
            invariant
                n as int == s@.len(),
                i <= 17,
                text_failure_from(s@, 0) == text_failure_from(s@, i as int),
                forall|j: int| 0 <= j < i ==> j < s@.len() && fits_at(#[trigger] s@[j], j),
                forall|g: int| 0 <= g < 6 && 3 * g + 1 < i ==> octets[g] == octet_at(s@, 3 * g),
                i % 3 == 1 ==> high as int == hex_value(s@[i - 1]),
                high < 16,
            decreases 17 - i,
        {
            if i >= n {
                return Err(text_diagnostic(i, Info::EndOfInput, wanted_at(i)));
            }
            let c = s.get_char(i);
            if i % 3 == 2 {
                if c != ':' {
                    return Err(text_diagnostic(i, Info::Token(c), Info::Token(':')));
                }
            } else {
                match hex_digit_value(c) {
                    None => {
                        return Err(text_diagnostic(i, Info::Token(c), Info::HexDigit));
                    },
                    Some(v) => {
                        if i % 3 == 0 {
                            high = v;
                        } else {
                            octets[i / 3] = high * 16 + v;
                        }
                    },
                }
            }
            i += 1;
        }
        if n > MAC_TEXT_LEN {
            let c = s.get_char(MAC_TEXT_LEN);
            return Err(text_diagnostic(MAC_TEXT_LEN, Info::Token(c), Info::EndOfInput));
        }
        Ok(MacAddress(octets[0], octets[1], octets[2], octets[3], octets[4], octets[5]))
    }
}

impl std::str::FromStr for MacAddress {
    type Err = Error;

    /// Parses the text form of an address, as `MacAddress::from_str` does.
    fn from_str(s: &str) -> (r: Result<MacAddress, Error>)
        ensures
            reports_text(s@, r),
    {
        MacAddress::from_str(s)
    }
}

/// The upper-case hexadecimal digit of `n`, for `0 <= n < 16`.
pub open spec fn upper_hex_digit(n: int) -> char {
    if n < 10 {
        ('0' as int + n) as char
    } else {
        ('A' as int + n - 10) as char
    }
}

/// The two upper-case hexadecimal digits of `b`.
pub open spec fn octet_text(b: u8) -> Seq<char> {
    seq![upper_hex_digit(b as int / 16), upper_hex_digit(b as int % 16)]
}

impl MacAddress {
    /// The canonical text form: six pairs of upper-case hexadecimal digits
    /// joined by colons, as in `AA:BB:CC:DD:EE:FF`.
    pub open spec fn text(self) -> Seq<char> {
        octet_text(self.0) + seq![':'] + octet_text(self.1) + seq![':'] + octet_text(self.2)
            + seq![':'] + octet_text(self.3) + seq![':'] + octet_text(self.4) + seq![':']
            + octet_text(self.5)
    }

    /// The canonical text form of the address, 17 characters long.
    pub fn to_string(&self) -> (r: String)
        ensures
            r@ == self.text(),
            r@.len() == 17,
    {
        let mut out = String::new();
        push_octet(&mut out, self.0);
        push_colon(&mut out);
        push_octet(&mut out, self.1);
        push_colon(&mut out);
        push_octet(&mut out, self.2);
        push_colon(&mut out);
        push_octet(&mut out, self.3);
        push_colon(&mut out);
        push_octet(&mut out, self.4);
        push_colon(&mut out);
        push_octet(&mut out, self.5);
        assert(out@ =~= self.text());
        out
    }
}

/// Appends the upper-case hexadecimal digit of `n`.
fn push_hex_digit(out: &mut String, n: u8)
    requires
        n < 16,
    ensures
        final(out)@ == old(out)@.push(upper_hex_digit(n as int)),
{
    let digits = "0123456789ABCDEF";
    proof {
        reveal_strlit("0123456789ABCDEF");
    }
    let digit = digits.substring_char(n as usize, n as usize + 1);
    out.append(digit);
    assert(digit@ =~= seq![upper_hex_digit(n as int)]);
}

/// Appends the two upper-case hexadecimal digits of `b`.
fn push_octet(out: &mut String, b: u8)
    ensures
        final(out)@ == old(out)@ + octet_text(b),
{
    push_hex_digit(out, b / 16);
    push_hex_digit(out, b % 16);
    assert(final(out)@ =~= old(out)@ + octet_text(b));
}

/// Appends a colon.
fn push_colon(out: &mut String)
    ensures
        final(out)@ == old(out)@ + seq![':'],
{
    let colon = ":";
    proof {
        reveal_strlit(":");
    }
    out.append(colon);
}

/// Whether `p` is the first index at which `s` departs from the text form:
/// every character before it fits, and at `p` either a character does not
/// fit, or the input ends early, or, past the sixth group, it goes on.
pub open spec fn first_departure(s: Seq<char>, p: int) -> bool {
    &&& 0 <= p <= 17
    &&& p <= s.len()
    &&& forall|j: int| 0 <= j < p ==> fits_at(#[trigger] s[j], j)
    &&& p < 17 ==> (p == s.len() || !fits_at(s[p], p))
    &&& p == 17 ==> s.len() > 17
}

/// The notes of a departure at `p`: what was found there and what was
/// expected.
pub open spec fn departure_notes(s: Seq<char>, p: int) -> Seq<Note<char>> {
    let found = if p < s.len() {
        Info::Token(s[p])
    } else {
        Info::EndOfInput
    };
    let wanted = if p < 17 {
        expected_at(p)
    } else {
        Info::EndOfInput
    };
    seq![Note::Unexpected(found), Note::Expected(wanted)]
}

proof fn lemma_failure_from(s: Seq<char>, i: int)
    requires
        0 <= i <= 17,
        i <= s.len(),
        forall|j: int| 0 <= j < i ==> fits_at(#[trigger] s[j], j),
    ensures
        text_failure_from(s, i) is None <==> (s.len() == 17 && forall|j: int|
            0 <= j < 17 ==> fits_at(#[trigger] s[j], j)),
        text_failure_from(s, i) matches Some((p, notes)) ==> first_departure(s, p) && notes
            == departure_notes(s, p),
    decreases 17 - i,
{
    if i < 17 && i < s.len() && fits_at(s[i], i) {
        lemma_failure_from(s, i + 1);
    }
}

/// The text grammar accepts exactly the strings of the form
/// `XX:XX:XX:XX:XX:XX`, and a diagnostic stands at the first character that
/// departs from it (or at the end, where the input stops early), naming the
/// character found and the one expected.
pub proof fn lemma_text_grammar_exact(s: Seq<char>)
    ensures
        text_grammar(s) is Ok <==> (s.len() == 17 && forall|j: int|
            0 <= j < 17 ==> fits_at(#[trigger] s[j], j)),
        text_grammar(s) is Ok ==> text_grammar(s) == Ok::<MacAddress, (int, Seq<Note<char>>)>(
            address_of_text(s),
        ),
        text_grammar(s) matches Err((p, notes)) ==> first_departure(s, p) && notes
            == departure_notes(s, p),
{
    lemma_failure_from(s, 0);
}

proof fn lemma_upper_hex_digit(n: int)
    requires
        0 <= n < 16,
    ensures
        is_hex_digit(upper_hex_digit(n)),
        hex_value(upper_hex_digit(n)) == n,
{
}

/// The two digits of `b` are hexadecimal digits that read back as `b`.
proof fn lemma_octet_text(b: u8)
    ensures
        is_hex_digit(octet_text(b)[0]),
        is_hex_digit(octet_text(b)[1]),
        16 * hex_value(octet_text(b)[0]) + hex_value(octet_text(b)[1]) == b,
{
    lemma_upper_hex_digit(b as int / 16);
    lemma_upper_hex_digit(b as int % 16);
}

/// Parsing the canonical text form of an address gives the address back.
pub proof fn lemma_round_trip(a: MacAddress)
    ensures
        text_grammar(a.text()) == Ok::<MacAddress, (int, Seq<Note<char>>)>(a),
{
    let s = a.text();
    let t0 = octet_text(a.0);
    let t1 = octet_text(a.1);
    let t2 = octet_text(a.2);
    let t3 = octet_text(a.3);
    let t4 = octet_text(a.4);
    let t5 = octet_text(a.5);
    assert(s =~= seq![t0[0], t0[1], ':', t1[0], t1[1], ':', t2[0], t2[1], ':', t3[0], t3[1], ':', t4[0], t4[1], ':', t5[0], t5[1]]);
    lemma_octet_text(a.0);
    lemma_octet_text(a.1);
    lemma_octet_text(a.2);
    lemma_octet_text(a.3);
    lemma_octet_text(a.4);
    lemma_octet_text(a.5);
    assert forall|j: int| 0 <= j < 17 implies fits_at(#[trigger] s[j], j) by {
    }
    lemma_text_grammar_exact(s);
}

} // verus!
