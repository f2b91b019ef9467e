use court_rentals::codec::{decode_rental, encode_rental, name_fits};
use court_rentals::rental::{status_for_hour, BasketRental};

fn rental(id: u64, name: &str, date: u64, hour: u64, court: char) -> BasketRental {
    BasketRental {
        id,
        borrower_name: name.to_string(),
        loan_date: date,
        hour,
        court_type: court,
        status: status_for_hour(hour),
    }
}

#[test]
fn round_trip() {
    for r in [
        rental(1, "Ana", 20240101, 18, 'A'),
        rental(0, "", 0, 0, 'B'),
        rental(u64::MAX, "Łukasz 😀", u64::MAX, u64::MAX, '\u{10FFFF}'),
        rental(12345, "x", 1, 16, '\0'),
    ] {
        let bytes = encode_rental(&r);
        assert_eq!(decode_rental(&bytes), Some(r));
    }
}

#[test]
fn exact_layout() {
    let bytes = encode_rental(&rental(0x0102, "Ab", 3, 17, 'C'));
    let mut expected = vec![0x02, 0x01, 0, 0, 0, 0, 0, 0];
    expected.extend_from_slice(&[3, 0, 0, 0, 0, 0, 0, 0]);
    expected.extend_from_slice(&[17, 0, 0, 0, 0, 0, 0, 0]);
    expected.extend_from_slice(&[0x43, 0, 0, 0]);
    expected.extend_from_slice(b"Ab");
    assert_eq!(bytes, expected);
}

#[test]
fn name_is_utf8() {
    let bytes = encode_rental(&rental(1, "é", 0, 0, 'A'));
    assert_eq!(&bytes[28..], &[0xC3, 0xA9]);
    assert_eq!(bytes.len(), 30);
}

#[test]
fn short_input_is_rejected() {
    assert_eq!(decode_rental(&vec![]), None);
    assert_eq!(decode_rental(&vec![0u8; 27]), None);
    let ok = decode_rental(&vec![0u8; 28]).unwrap();
    assert_eq!(ok.id, 0);
    assert_eq!(ok.borrower_name, "");
    assert_eq!(ok.court_type, '\0');
    assert_eq!(ok.status, "belum");
}

#[test]
fn bad_court_code_is_rejected() {
    let mut bytes = encode_rental(&rental(1, "a", 0, 0, 'A'));
    bytes[24..28].copy_from_slice(&0xD800u32.to_le_bytes());
    assert_eq!(decode_rental(&bytes), None);
    bytes[24..28].copy_from_slice(&0x110000u32.to_le_bytes());
    assert_eq!(decode_rental(&bytes), None);
    bytes[24..28].copy_from_slice(&0x42u32.to_le_bytes());
    assert_eq!(decode_rental(&bytes).unwrap().court_type, 'B');
}

#[test]
fn bad_name_bytes_are_rejected() {
    let mut bytes = encode_rental(&rental(1, "a", 0, 0, 'A'));
    bytes.push(0xFF);
    assert_eq!(decode_rental(&bytes), None);
    let mut truncated = encode_rental(&rental(1, "é", 0, 0, 'A'));
    truncated.pop();
    assert_eq!(decode_rental(&truncated), None);
}

#[test]
fn status_is_derived_on_read() {
    let bytes = encode_rental(&rental(9, "a", 0, 17, 'A'));
    assert_eq!(decode_rental(&bytes).unwrap().status, "lunas");
}

#[test]
fn name_fit_bound() {
    assert!(name_fits(&String::new()));
    assert!(name_fits(&"y".repeat(996)));
    assert!(!name_fits(&"y".repeat(997)));
}
