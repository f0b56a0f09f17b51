use wake_on_lan_hook::{Error, Info, MacAddress, Note, ParseDiagnostic};

fn make_magic_packet(valid_header: bool, macs: Vec<MacAddress>) -> Vec<u8> {
    let mut packet = Vec::with_capacity(102);

    packet.extend(std::iter::repeat(0xFF).take(6));

    if !valid_header {
        packet[5] = 0xFE;
    }

    for mac in macs {
        packet.push(mac.0);
        packet.push(mac.1);
        packet.push(mac.2);
        packet.push(mac.3);
        packet.push(mac.4);
        packet.push(mac.5);
    }

    packet
}

/// Check that parsing the MAC address results in the given diagnostic.
fn check_mac_parse_error(s: &str, expected: ParseDiagnostic<char>) {
    match MacAddress::from_str(s) {
        Err(Error::MacParseError(d)) => assert_eq!(d, expected),
        other => panic!("expected a MAC parse error, got {:?}", other),
    }
}

/// Check that parsing the given packet results in the given diagnostic.
fn check_magic_packet_parse_error(packet: &[u8], expected: ParseDiagnostic<u8>) {
    match MacAddress::from_magic_packet(packet) {
        Err(Error::MagicPacketParseError(d)) => assert_eq!(d, expected),
        other => panic!("expected a magic packet parse error, got {:?}", other),
    }
}

#[test]
fn test_parse() {
    assert_eq!(
        MacAddress::from_str("aa:bb:cc:dd:ee:ff").unwrap(),
        MacAddress(0xaa, 0xbb, 0xcc, 0xdd, 0xee, 0xff)
    );

    check_mac_parse_error(
        "aa",
        ParseDiagnostic {
            position: 2,
            notes: vec![
                Note::Unexpected(Info::EndOfInput),
                Note::Expected(Info::Token(':')),
            ],
        },
    );

    check_mac_parse_error(
        "aa:bb:cc:dd:ee:ff:",
        ParseDiagnostic {
            position: 17,
            notes: vec![
                Note::Unexpected(Info::Token(':')),
                Note::Expected(Info::EndOfInput),
            ],
        },
    );

    check_mac_parse_error(
        "bb:cc:dd:ee:ff:gg",
        ParseDiagnostic {
            position: 15,
            notes: vec![
                Note::Unexpected(Info::Token('g')),
                Note::Expected(Info::HexDigit),
            ],
        },
    );
}

#[test]
fn test_from_magic_packet() {
    let mac = MacAddress(0xaa, 0xbb, 0xcc, 0xdd, 0xee, 0xff);

    let packet = make_magic_packet(true, std::iter::repeat(mac).take(16).collect());
    assert_eq!(MacAddress::from_magic_packet(&packet[..]).unwrap(), mac);

    let packet = make_magic_packet(false, std::iter::repeat(mac).take(16).collect());
    check_magic_packet_parse_error(
        &packet[..],
        ParseDiagnostic {
            position: 5,
            notes: vec![
                Note::ExpectedMore(1),
                Note::Expected(Info::MagicPacketHeader),
            ],
        },
    );

    let packet = make_magic_packet(
        true,
        std::iter::repeat(mac)
            .take(15)
            .chain(std::iter::once(MacAddress(0, 0, 0, 0, 0, 0)))
            .collect::<Vec<_>>(),
    );
    check_magic_packet_parse_error(
        &packet[..],
        ParseDiagnostic {
            position: 96,
            notes: vec![
                Note::ExpectedMore(1),
                Note::Expected(Info::RepeatedMacAddress),
            ],
        },
    );

    let packet = make_magic_packet(
        true,
        std::iter::repeat(mac)
            .take(6)
            .chain(std::iter::repeat(MacAddress(0, 0, 0, 0, 0, 0)).take(10))
            .collect::<Vec<_>>(),
    );
    check_magic_packet_parse_error(
        &packet[..],
        ParseDiagnostic {
            position: 42,
            notes: vec![
                Note::ExpectedMore(10),
                Note::Expected(Info::RepeatedMacAddress),
            ],
        },
    );

    let packet: Vec<u8> = vec![];
    assert!(matches!(
        MacAddress::from_magic_packet(&packet[..]),
        Err(Error::MagicPacketLengthError(0))
    ));

    let packet = vec![0; 101];
    assert!(matches!(
        MacAddress::from_magic_packet(&packet[..]),
        Err(Error::MagicPacketLengthError(101))
    ));
}

#[test]
fn test_display() {
    assert_eq!(
        MacAddress(0xaa, 0xbb, 0xcc, 0xdd, 0xee, 0xff).to_string(),
        "AA:BB:CC:DD:EE:FF"
    );
}

#[test]
fn test_round_trip() {
    let s = "AA:BB:CC:DD:EE:FF";

    assert_eq!(MacAddress::from_str(s).unwrap().to_string(), s);
}
