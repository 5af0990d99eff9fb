use soulstar::colour::Rgb;
use soulstar::configuration::TX_POWER_DBM;
use soulstar::presence::{
    addr_to_key, decode_report, encode_beacon, is_well_formed_ad, message_from_fields, AdField,
};

#[test]
fn identity_key_example() {
    assert_eq!(addr_to_key(&[0x01, 0x02, 0x03, 0x04, 0x05, 0x06]), 0x0206_0506);
}

#[test]
fn identity_key_is_repeatable() {
    let a = [0xde, 0xad, 0xbe, 0xef, 0x01, 0x02];
    let first = addr_to_key(&a);
    for _ in 0..10 {
        assert_eq!(addr_to_key(&a), first);
    }
    assert_eq!(first, 0x6042_0102);
}

#[test]
fn identity_keys_may_collide() {
    assert_eq!(addr_to_key(&[0, 0, 1, 1, 9, 9]), addr_to_key(&[1, 1, 0, 0, 9, 9]));
}

#[test]
fn beacon_bytes_are_laid_out() {
    let bytes = encode_beacon(b"Soul", Rgb::new(1, 2, 3), 20);
    assert_eq!(
        bytes,
        vec![5, 0x09, b'S', b'o', b'u', b'l', 2, 0x01, 0x06, 6, 0xFF, 0xEF, 0xBE, 1, 2, 3, 2, 0x0A, 20]
    );
}

#[test]
fn beacon_round_trip() {
    let colour = Rgb::new(200, 100, 50);
    let bytes = encode_beacon(b"Badge", colour, TX_POWER_DBM);
    let m = decode_report(&bytes, -60, [1, 2, 3, 4, 5, 6], 1234).expect("own beacon accepted");
    assert_eq!(m.colour, colour);
    assert_eq!(m.tx_power, TX_POWER_DBM);
    assert_eq!(m.rssi, -60);
    assert_eq!(m.last_seen, 1234);
    assert_eq!(m.address, [1, 2, 3, 4, 5, 6]);
    assert_eq!(m.name, b"Badge".to_vec());
}

#[test]
fn beacon_round_trip_negative_power() {
    let bytes = encode_beacon(b"x", Rgb::new(0, 0, 0), -12);
    let m = decode_report(&bytes, 0, [0; 6], 0).expect("own beacon accepted");
    assert_eq!(m.tx_power, -12);
}

#[test]
fn long_names_are_truncated() {
    let name = [b'n'; 40];
    let bytes = encode_beacon(&name, Rgb::new(1, 1, 1), 0);
    let m = decode_report(&bytes, 0, [0; 6], 0).expect("own beacon accepted");
    assert_eq!(m.name, vec![b'n'; 24]);
}

#[test]
fn other_company_is_filtered() {
    // manufacturer data under company 0x004C
    let raw = [6, 0xFF, 0x4C, 0x00, 1, 2, 3];
    assert!(decode_report(&raw, -50, [0; 6], 0).is_none());
}

#[test]
fn wrong_payload_length_is_filtered() {
    let raw = [7, 0xFF, 0xEF, 0xBE, 1, 2, 3, 4];
    assert!(decode_report(&raw, -50, [0; 6], 0).is_none());
    let short = [5, 0xFF, 0xEF, 0xBE, 1, 2];
    assert!(decode_report(&short, -50, [0; 6], 0).is_none());
}

#[test]
fn missing_name_and_power_take_defaults() {
    let raw = [6, 0xFF, 0xEF, 0xBE, 9, 8, 7];
    let m = decode_report(&raw, -70, [0; 6], 5).expect("accepted");
    assert_eq!(m.name, b"<Unknown>".to_vec());
    assert_eq!(m.tx_power, 0);
    assert_eq!(m.colour, Rgb::new(9, 8, 7));
}

#[test]
fn fields_in_any_order_are_found() {
    let raw = [2, 0x0A, 0xF6, 6, 0xFF, 0xEF, 0xBE, 4, 5, 6, 3, 0x09, b'h', b'i'];
    let m = decode_report(&raw, -70, [0; 6], 5).expect("accepted");
    assert_eq!(m.tx_power, -10);
    assert_eq!(m.name, b"hi".to_vec());
    assert_eq!(m.colour, Rgb::new(4, 5, 6));
}

#[test]
fn empty_report_is_filtered() {
    assert!(decode_report(&[], -70, [0; 6], 5).is_none());
}

#[test]
fn message_from_fields_picks_first_match() {
    let fields = vec![
        AdField::Manufacturer { company: 0x1234, payload: vec![1, 2, 3] },
        AdField::Other,
        AdField::Manufacturer { company: 0xBEEF, payload: vec![7, 8, 9] },
        AdField::Manufacturer { company: 0xBEEF, payload: vec![4, 4, 4] },
        AdField::TxPower(3),
        AdField::TxPower(4),
    ];
    let m = message_from_fields(&fields, 1, [9; 6], 2).expect("accepted");
    assert_eq!(m.colour, Rgb::new(7, 8, 9));
    assert_eq!(m.tx_power, 3);
    assert!(message_from_fields(&vec![AdField::Other], 1, [9; 6], 2).is_none());
}

#[test]
fn empty_name_beacon_round_trips() {
    let bytes = encode_beacon(b"", Rgb::new(1, 2, 0), 7);
    assert_eq!(bytes, vec![2, 0x01, 0x06, 6, 0xFF, 0xEF, 0xBE, 1, 2, 0, 2, 0x0A, 7]);
    let m = decode_report(&bytes, 0, [0; 6], 0).expect("own beacon accepted");
    assert_eq!(m.colour, Rgb::new(1, 2, 0));
    assert_eq!(m.tx_power, 7);
    assert_eq!(m.name, b"<Unknown>".to_vec());
}

#[test]
fn malformed_reports_are_dropped() {
    // a valid colour block followed by a zero length byte
    let trailing_zero = [6, 0xFF, 0xEF, 0xBE, 1, 2, 3, 0];
    assert!(decode_report(&trailing_zero, -50, [0; 6], 0).is_none());
    // a valid colour block followed by a structure that runs past the end
    let truncated = [6, 0xFF, 0xEF, 0xBE, 1, 2, 3, 5, 0x09, b'a'];
    assert!(decode_report(&truncated, -50, [0; 6], 0).is_none());
    // a length byte of 1
    let short = [1, 0x09, 6, 0xFF, 0xEF, 0xBE, 1, 2, 3];
    assert!(decode_report(&short, -50, [0; 6], 0).is_none());
}

#[test]
fn well_formedness_walk() {
    assert!(is_well_formed_ad(&[]));
    assert!(is_well_formed_ad(&[2, 0x01, 0x06, 3, 0x09, b'h', b'i']));
    assert!(!is_well_formed_ad(&[2, 0x01, 0x06, 0]));
    assert!(!is_well_formed_ad(&[3, 0x09, b'h']));
    assert!(!is_well_formed_ad(&[1]));
}
