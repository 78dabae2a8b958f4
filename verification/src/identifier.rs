//! Identifiers of stored records: twelve bytes, written as twenty-four
//! hexadecimal digits.

use crate::error::RepositoryError;
use mongodb::bson::oid::ObjectId;
use vstd::prelude::*;

verus! {

/// Whether `c` is one of `0`-`9`, `a`-`f`, `A`-`F`.
pub open spec fn is_hex_digit(c: char) -> bool {
    ||| '0' <= c <= '9'
    ||| 'a' <= c <= 'f'
    ||| 'A' <= c <= 'F'
}

/// The number from 0 to 15 that the hexadecimal digit `c` stands for.
pub open spec fn hex_value(c: char) -> int {
    if '0' <= c <= '9' {
        c as int - '0' as int
    } else if 'a' <= c <= 'f' {
        c as int - 'a' as int + 10
    } else {
        c as int - 'A' as int + 10
    }
}

/// The lower-case hexadecimal digit for a number from 0 to 15.
pub open spec fn hex_digit(n: int) -> char {
    if n < 10 {
        ('0' as int + n) as char
    } else {
        ('a' as int + n - 10) as char
    }
}

/// Whether `text` is the written form of an identifier: exactly twenty-four
/// hexadecimal digits, in either case.
pub open spec fn is_identifier_text(text: Seq<char>) -> bool {
    &&& text.len() == 24
    &&& forall|i: int| 0 <= i < 24 ==> is_hex_digit(#[trigger] text[i])
}

/// The twelve bytes that a written identifier stands for: each pair of
/// digits is one byte, the high half first.
pub open spec fn identifier_bytes(text: Seq<char>) -> Seq<u8> {
    Seq::new(12, |i: int| (16 * hex_value(text[2 * i]) + hex_value(text[2 * i + 1])) as u8)
}

/// The written form of twelve bytes: two lower-case digits for each byte,
/// the high half first.
pub open spec fn identifier_text(bytes: Seq<u8>) -> Seq<char> {
    Seq::new(
        24,
        |i: int|
            if i % 2 == 0 {
                hex_digit(bytes[i / 2] as int / 16)
            } else {
                hex_digit(bytes[i / 2] as int % 16)
            },
    )
}

/// The error of the identifier parser of the storage driver.
#[verifier::external_type_specification]
#[verifier::external_body]
pub struct ExObjectIdError(mongodb::bson::oid::Error);

/// `ObjectId::parse_str`, with the identifier handed out as its bytes. The
/// driver decodes the text as hexadecimal and accepts it if and only if that
/// gives exactly twelve bytes, so: it succeeds on twenty-four hexadecimal
/// digits of either case and on nothing else, and byte `i` of the result is
/// sixteen times the value of digit `2i` plus the value of digit `2i + 1`.
#[verifier::external_body]
fn object_id_parse(raw: &str) -> (r: Result<[u8; 12], mongodb::bson::oid::Error>)
    ensures
        r is Ok <==> is_identifier_text(raw@),
        r matches Ok(bytes) ==> bytes@ == identifier_bytes(raw@),
{
    match ObjectId::parse_str(raw) {
        Ok(oid) => Ok(oid.bytes()),
        Err(e) => Err(e),
    }
}

/// `ObjectId::to_hex` of the identifier with these bytes. The driver writes
/// each byte as two lower-case hexadecimal digits, the high half first.
#[verifier::external_body]
fn object_id_to_hex(bytes: [u8; 12]) -> (text: String)
    ensures
        text@ == identifier_text(bytes@),
{
    ObjectId::from_bytes(bytes).to_hex()
}

/// `ObjectId::new`, with the identifier handed out as its bytes. The driver
/// builds it from the clock, a random number drawn once in each process and
/// a counter, so nothing is promised of the bytes.
#[verifier::external_body]
fn object_id_new() -> (bytes: [u8; 12]) {
    ObjectId::new().bytes()
}

/// The identifier of a stored record.
#[derive(Clone, Copy, Debug, PartialEq, Eq, Hash)]
pub struct Identifier {
    /// The twelve bytes of the identifier.
    pub bytes: [u8; 12],
}

impl View for Identifier {
    type V = Seq<u8>;

    open spec fn view(&self) -> Seq<u8> {
        self.bytes@
    }
}

impl Identifier {
    /// Reads an identifier from its written form. Text that is not
    /// twenty-four hexadecimal digits is rejected, and the error carries it.
    pub fn parse(raw: &str) -> (r: Result<Identifier, RepositoryError>)
        ensures
            is_identifier_text(raw@) ==> (r matches Ok(id) && id@ == identifier_bytes(raw@)),
            !is_identifier_text(raw@) ==> (r matches Err(RepositoryError::InvalidIdentifier(text))
                && text@ == raw@),
    {
        match object_id_parse(raw) {
            Ok(bytes) => Ok(Identifier { bytes }),
            Err(_) => Err(RepositoryError::InvalidIdentifier(raw.to_owned())),
        }
    }

    /// Mints the identifier for a new record.
    pub fn generate() -> Identifier {
        Identifier { bytes: object_id_new() }
    }

    /// The written form of the identifier: twenty-four lower-case
    /// hexadecimal digits, which `parse` reads back as this identifier.
    pub fn to_hex(&self) -> (text: String)
        ensures
            text@ == identifier_text(self@),
            is_identifier_text(text@),
            identifier_bytes(text@) == self@,
    {
        proof {
            lemma_text_round_trip(self@);
        }
        object_id_to_hex(self.bytes)
    }

    /// Whether two identifiers are the same.
    pub fn equals(&self, other: &Identifier) -> (same: bool)
        ensures
            same == (*self == *other),
            same == (self@ == other@),
    {
        let mut i: usize = 0;
        while i < 12
            invariant
                0 <= i <= 12,
                forall|k: int| 0 <= k < i ==> self.bytes[k] == other.bytes[k],
            decreases 12 - i,
        {
            if self.bytes[i] != other.bytes[i] {
                proof {
                    lemma_identifier_by_view(*self, *other);
                }
                return false;
            }
            i += 1;
        }
        proof {
            assert(self@ =~= other@);
            lemma_identifier_by_view(*self, *other);
        }
        true
    }
}

/// Each number from 0 to 15 has a digit, and the digit stands for it.
pub proof fn lemma_hex_digit_value(n: int)
    requires
        0 <= n < 16,
    ensures
        is_hex_digit(hex_digit(n)),
        hex_value(hex_digit(n)) == n,
{
}

/// Writing twelve bytes and reading the text back gives the same bytes: the
/// written form of an identifier is always accepted, and stands for it.
pub proof fn lemma_text_round_trip(bytes: Seq<u8>)
    requires
        bytes.len() == 12,
    ensures
        is_identifier_text(identifier_text(bytes)),
        identifier_bytes(identifier_text(bytes)) == bytes,
{
    let text = identifier_text(bytes);
    assert forall|i: int| 0 <= i < 24 implies is_hex_digit(#[trigger] text[i]) by {
        let v = bytes[i / 2] as int;
        lemma_hex_digit_value(v / 16);
        lemma_hex_digit_value(v % 16);
    }
    assert forall|k: int| 0 <= k < 12 implies #[trigger] identifier_bytes(text)[k] == bytes[k] by {
        let v = bytes[k] as int;
        lemma_hex_digit_value(v / 16);
        lemma_hex_digit_value(v % 16);
        assert(text[2 * k] == hex_digit(v / 16));
        assert(text[2 * k + 1] == hex_digit(v % 16));
    }
    assert(identifier_bytes(text) =~= bytes);
}

/// Two identifiers with the same bytes are the same identifier.
pub proof fn lemma_identifier_by_view(a: Identifier, b: Identifier)
    ensures
        (a == b) <==> (a@ == b@),
{
    if a@ == b@ {
        assert(a.bytes =~= b.bytes);
    }
}

} // verus!
