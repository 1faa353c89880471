use rfid_audio::card::reader_supported;
use rfid_audio::controller::Controller;
use rfid_audio::events::Event;
use rfid_audio::events::Notice;
use rfid_audio::mapping::FileMapper;

/// The identifier under which a card with the given serial number is looked
/// up, as the notice about an unmapped card gives it.
fn identifier(uid: &[u8]) -> String {
    let mapper = match FileMapper::new(None, "/", &Vec::new()) {
        Ok(mapper) => mapper,
        Err(e) => panic!("line {} rejected", e.line),
    };
    let mut controller = Controller::new(mapper);
    match controller.step(Event::Card(Some(uid.to_vec()))).notice {
        Some(Notice::CardUnmapped { card }) => card,
        other => panic!("unexpected notice {:?}", other),
    }
}

#[test]
fn identifier_is_lowercase_hex_of_the_serial_number() {
    assert_eq!(identifier(&[0xab, 0x12]), "ab12");
    assert_eq!(identifier(&[1, 2, 3, 15, 16]), "0102030f10");
    assert_eq!(identifier(&[0x00, 0xff, 0x9a, 0xf0]), "00ff9af0");
}

#[test]
fn identifier_of_no_bytes_is_empty() {
    assert_eq!(identifier(&[]), "");
}

#[test]
fn identifier_has_two_digits_for_every_byte_value() {
    let digits = "0123456789abcdef".as_bytes();
    for byte in 0..=255u8 {
        let id = identifier(&[byte]);
        let expected = vec![digits[(byte / 16) as usize], digits[(byte % 16) as usize]];
        assert_eq!(id.as_bytes(), expected.as_slice());
    }
}

#[test]
fn only_the_two_known_chip_versions_are_supported() {
    for version in 0..=255u8 {
        assert_eq!(reader_supported(version), version == 0x91 || version == 0x92);
    }
}
