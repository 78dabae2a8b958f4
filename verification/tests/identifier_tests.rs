use dog_walking::error::RepositoryError;
use dog_walking::identifier::Identifier;

const SAMPLE: [u8; 12] = [0x50, 0x7f, 0x1f, 0x77, 0xbc, 0xf8, 0x6c, 0xd7, 0x99, 0x43, 0x90, 0x11];

#[test]
fn parse_reads_lower_case_digits() {
    let id = Identifier::parse("507f1f77bcf86cd799439011").unwrap();
    assert_eq!(id.bytes, SAMPLE);
}

#[test]
fn parse_reads_upper_case_digits() {
    let id = Identifier::parse("507F1F77BCF86CD799439011").unwrap();
    assert_eq!(id.bytes, SAMPLE);
}

#[test]
fn parse_reads_mixed_case_digits() {
    let id = Identifier::parse("0123456789abcdefABCDEF01").unwrap();
    assert_eq!(
        id.bytes,
        [0x01, 0x23, 0x45, 0x67, 0x89, 0xab, 0xcd, 0xef, 0xab, 0xcd, 0xef, 0x01]
    );
}

#[test]
fn parse_reads_the_extremes() {
    assert_eq!(Identifier::parse("000000000000000000000000").unwrap().bytes, [0u8; 12]);
    assert_eq!(Identifier::parse("ffffffffffffffffffffffff").unwrap().bytes, [0xffu8; 12]);
}

#[test]
fn parse_rejects_empty_text() {
    assert_eq!(Identifier::parse(""), Err(RepositoryError::InvalidIdentifier(String::new())));
}

#[test]
fn parse_rejects_short_text() {
    let raw = "507f1f77bcf86cd79943901";
    assert_eq!(Identifier::parse(raw), Err(RepositoryError::InvalidIdentifier(raw.to_string())));
}

#[test]
fn parse_rejects_long_text() {
    let raw = "507f1f77bcf86cd7994390112";
    assert_eq!(Identifier::parse(raw), Err(RepositoryError::InvalidIdentifier(raw.to_string())));
    let raw = "507f1f77bcf86cd79943901122";
    assert_eq!(Identifier::parse(raw), Err(RepositoryError::InvalidIdentifier(raw.to_string())));
}

#[test]
fn parse_rejects_a_digit_that_is_not_hexadecimal() {
    let raw = "507f1f77bcf86cd79943901g";
    assert_eq!(Identifier::parse(raw), Err(RepositoryError::InvalidIdentifier(raw.to_string())));
    let raw = "x07f1f77bcf86cd799439011";
    assert_eq!(Identifier::parse(raw), Err(RepositoryError::InvalidIdentifier(raw.to_string())));
}

#[test]
fn parse_rejects_text_that_is_not_ascii() {
    // Twenty-four characters, one of them outside ASCII.
    let raw = "507f1f77bcf86cd79943901\u{e9}";
    assert_eq!(raw.chars().count(), 24);
    assert_eq!(Identifier::parse(raw), Err(RepositoryError::InvalidIdentifier(raw.to_string())));
    // Twenty-four bytes, one character of two bytes among them.
    let raw = "507f1f77bcf86cd7994390\u{e9}";
    assert_eq!(raw.len(), 24);
    assert_eq!(Identifier::parse(raw), Err(RepositoryError::InvalidIdentifier(raw.to_string())));
}

#[test]
fn parse_rejects_surrounding_space() {
    let raw = " 507f1f77bcf86cd799439011";
    assert_eq!(Identifier::parse(raw), Err(RepositoryError::InvalidIdentifier(raw.to_string())));
}

#[test]
fn to_hex_writes_lower_case_digits() {
    let id = Identifier { bytes: SAMPLE };
    assert_eq!(id.to_hex(), "507f1f77bcf86cd799439011");
    assert_eq!(Identifier { bytes: [0u8; 12] }.to_hex(), "000000000000000000000000");
    assert_eq!(Identifier { bytes: [0xffu8; 12] }.to_hex(), "ffffffffffffffffffffffff");
    assert_eq!(
        Identifier { bytes: [0x0a, 0xb0, 0, 1, 2, 3, 4, 5, 6, 7, 8, 0x9f] }.to_hex(),
        "0ab00001020304050607089f"
    );
}

#[test]
fn written_form_reads_back() {
    let id = Identifier { bytes: SAMPLE };
    assert_eq!(Identifier::parse(&id.to_hex()), Ok(id));
    let id = Identifier { bytes: [0xde, 0xad, 0xbe, 0xef, 0, 0, 0, 0, 0xff, 0x10, 0x01, 0x80] };
    assert_eq!(Identifier::parse(&id.to_hex()), Ok(id));
}

#[test]
fn upper_case_text_is_written_back_in_lower_case() {
    let id = Identifier::parse("507F1F77BCF86CD799439011").unwrap();
    assert_eq!(id.to_hex(), "507f1f77bcf86cd799439011");
}

#[test]
fn generated_identifier_reads_back() {
    let id = Identifier::generate();
    let text = id.to_hex();
    assert_eq!(text.len(), 24);
    assert_eq!(Identifier::parse(&text), Ok(id));
}

#[test]
fn generated_identifiers_differ() {
    let a = Identifier::generate();
    let b = Identifier::generate();
    let c = Identifier::generate();
    assert_ne!(a, b);
    assert_ne!(b, c);
    assert_ne!(a, c);
}

#[test]
fn equals_compares_every_byte() {
    let a = Identifier { bytes: SAMPLE };
    let mut other = SAMPLE;
    assert!(a.equals(&Identifier { bytes: other }));
    other[11] ^= 1;
    assert!(!a.equals(&Identifier { bytes: other }));
    other[11] ^= 1;
    other[0] ^= 0x80;
    assert!(!a.equals(&Identifier { bytes: other }));
}
