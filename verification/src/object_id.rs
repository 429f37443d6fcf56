//! Document identifiers: twelve raw bytes, written as 24 lower-case hex
//! digits. Encoding, parsing and generation go through the `bson` crate.
use vstd::prelude::*;

verus! {

/// The twelve bytes of a MongoDB object id.
#[derive(Clone, Copy, Debug, PartialEq, Eq)]
pub struct ObjectId {
    pub bytes: [u8; 12],
}

/// The lower-case hex digit for a value below 16.
pub open spec fn hex_digit(n: u8) -> char {
    if n < 10 {
        (48 + n) as char
    } else {
        (87 + n) as char
    }
}

/// Lower-case hex encoding: two digits per byte, high nibble first.
pub open spec fn hex_lower(bytes: Seq<u8>) -> Seq<char> {
    Seq::new(
        2 * bytes.len(),
        |i: int|
            if i % 2 == 0 {
                hex_digit(bytes[i / 2] / 16)
            } else {
                hex_digit(bytes[i / 2] % 16)
            },
    )
}

/// Whether `c` is a hex digit, in either case.
pub open spec fn is_hex_char(c: char) -> bool {
    ||| '0' <= c <= '9'
    ||| 'a' <= c <= 'f'
    ||| 'A' <= c <= 'F'
}

/// The value of a hex digit.
pub open spec fn hex_value(c: char) -> int {
    if '0' <= c <= '9' {
        c as int - 48
    } else if 'a' <= c <= 'f' {
        c as int - 87
    } else {
        c as int - 55
    }
}

/// Whether `s` spells an object id: exactly 24 hex digits.
pub open spec fn is_object_id_hex(s: Seq<char>) -> bool {
    &&& s.len() == 24
    &&& forall|i: int| 0 <= i < 24 ==> is_hex_char(#[trigger] s[i])
}

/// The twelve bytes that 24 hex digits spell, two digits per byte.
pub open spec fn hex_decode(s: Seq<char>) -> Seq<u8> {
    Seq::new(12, |i: int| (hex_value(s[2 * i]) * 16 + hex_value(s[2 * i + 1])) as u8)
}

/// `bson::oid::ObjectId::to_hex` on an id built with `ObjectId::with_bytes`:
/// the crate encodes with `hex::encode`, which writes each byte as two
/// lower-case digits, high nibble first.
#[verifier::external_body]
fn bson_to_hex(bytes: [u8; 12]) -> (s: String)
    ensures
        s@ == hex_lower(bytes@),
{
    bson::oid::ObjectId::with_bytes(bytes).to_hex()
}

/// `bson::oid::ObjectId::with_string`: `hex::decode` of the string's bytes,
/// which succeeds on an even number of hex digits of either case, and fails
/// unless twelve bytes came out. A non-ASCII character is never a hex
/// byte, so success means exactly 24 hex digits.
#[verifier::external_body]
fn bson_with_string(s: &str) -> (r: Option<[u8; 12]>)
    ensures
        r is Some <==> is_object_id_hex(s@),
        r matches Some(b) ==> b@ == hex_decode(s@),
{
    match bson::oid::ObjectId::with_string(s) {
        Ok(id) => Some(id.bytes()),
        Err(_) => None,
    }
}

/// Whether a byte is a lower-case ASCII hex digit.
pub open spec fn is_lower_hex_byte(b: u8) -> bool {
    ||| 48 <= b <= 57
    ||| 97 <= b <= 102
}

/// What every id from `bson::oid::ObjectId::new` holds: its machine bytes
/// (4 to 7) are the first three characters of the lower-case hex MD5 digest
/// of the host name, so lower-case hex digits; its counter bytes (9 to 12)
/// are a counter taken modulo `0xFFFFFF`, so never all `0xff`.
pub open spec fn is_generated_id(b: Seq<u8>) -> bool {
    &&& b.len() == 12
    &&& forall|i: int| 4 <= i < 7 ==> is_lower_hex_byte(#[trigger] b[i])
    &&& !(b[9] == 0xff && b[10] == 0xff && b[11] == 0xff)
}

/// `bson::oid::ObjectId::new`: four bytes of the time, three bytes of the
/// hex MD5 digest of the host name (`format!("{:x}", md5::compute(..))`),
/// two of the process id and three of a counter kept modulo `0xFFFFFF`.
/// Only the shape of the machine and counter bytes is stated; the time,
/// process id and counter values are not. The call fails when the host name
/// cannot be read.
#[verifier::external_body]
fn bson_new_object_id() -> (r: Option<[u8; 12]>)
    ensures
        r matches Some(b) ==> is_generated_id(b@),
{
    match bson::oid::ObjectId::new() {
        Ok(id) => Some(id.bytes()),
        Err(_) => None,
    }
}

impl ObjectId {
    /// The id written as 24 lower-case hex digits.
    pub fn to_hex(&self) -> (s: String)
        ensures
            s@ == hex_lower(self.bytes@),
            s@.len() == 24,
    {
        bson_to_hex(self.bytes)
    }

    /// Reads an id from 24 hex digits; `None` for any other string.
    pub fn with_string(s: &str) -> (r: Option<ObjectId>)
        ensures
            r is Some <==> is_object_id_hex(s@),
            r matches Some(id) ==> id.bytes@ == hex_decode(s@),
    {
        match bson_with_string(s) {
            Some(b) => Some(ObjectId { bytes: b }),
            None => None,
        }
    }

    /// A freshly generated id, or `None` when the host name cannot be read.
    /// Its machine bytes are lower-case hex digits of the host name's digest
    /// and its counter bytes are never all `0xff`.
    pub fn new() -> (r: Option<ObjectId>)
        ensures
            r matches Some(id) ==> is_generated_id(id.bytes@),
    {
        match bson_new_object_id() {
            Some(b) => Some(ObjectId { bytes: b }),
            None => None,
        }
    }
}

/// The digits of one byte read back give the byte.
proof fn lemma_hex_byte_round_trip(b: u8)
    ensures
        is_hex_char(hex_digit(b / 16)),
        is_hex_char(hex_digit(b % 16)),
        hex_value(hex_digit(b / 16)) * 16 + hex_value(hex_digit(b % 16)) == b,
{
    let hi = b / 16;
    let lo = b % 16;
    assert(hi < 16 && lo < 16);
    assert(hi * 16 + lo == b);
}

/// Writing an id as hex and reading it back gives the same id: the string
/// that `to_hex` makes is accepted by `with_string`, which returns the
/// original bytes.
pub proof fn lemma_hex_round_trip(id: ObjectId)
    ensures
        is_object_id_hex(hex_lower(id.bytes@)),
        hex_decode(hex_lower(id.bytes@)) == id.bytes@,
{
    let s = hex_lower(id.bytes@);
    assert forall|i: int| 0 <= i < 24 implies is_hex_char(#[trigger] s[i]) by {
        lemma_hex_byte_round_trip(id.bytes@[i / 2]);
    }
    assert forall|i: int| 0 <= i < 12 implies #[trigger] hex_decode(s)[i] == id.bytes@[i] by {
        lemma_hex_byte_round_trip(id.bytes@[i]);
        assert((2 * i) / 2 == i);
        assert((2 * i + 1) / 2 == i);
    }
    assert(hex_decode(s) =~= id.bytes@);
}

} // verus!
