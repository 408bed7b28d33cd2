//! Record identifiers: twelve opaque bytes, written as 24 hexadecimal digits.

use vstd::prelude::*;

verus! {

/// A hexadecimal digit, in either case.
pub open spec fn is_hex_digit(c: char) -> bool {
    ('0' <= c && c <= '9') || ('a' <= c && c <= 'f') || ('A' <= c && c <= 'F')
}

/// The value of a hexadecimal digit.
pub open spec fn hex_value(c: char) -> int {
    if '0' <= c && c <= '9' {
        c as int - '0' as int
    } else if 'a' <= c && c <= 'f' {
        c as int - 'a' as int + 10
    } else {
        c as int - 'A' as int + 10
    }
}

/// Text that names an identifier: exactly 24 hexadecimal digits.
pub open spec fn is_id_text(s: Seq<char>) -> bool {
    s.len() == 24 && forall|i: int| 0 <= i < 24 ==> #[trigger] is_hex_digit(s[i])
}

/// The bytes that identifier text spells, two digits per byte, high digit first.
pub open spec fn id_bytes_of(s: Seq<char>) -> Seq<u8> {
    Seq::new(12, |i: int| (hex_value(s[2 * i]) * 16 + hex_value(s[2 * i + 1])) as u8)
}

/// The lower-case hexadecimal digits, by value.
pub open spec fn lower_digits() -> Seq<char> {
    seq!['0', '1', '2', '3', '4', '5', '6', '7', '8', '9', 'a', 'b', 'c', 'd', 'e', 'f']
}

/// Bytes written in lower-case hexadecimal, two digits per byte, high digit first.
pub open spec fn hex_text_of(b: Seq<u8>) -> Seq<char> {
    Seq::new(
        2 * b.len(),
        |i: int|
            if i % 2 == 0 {
                lower_digits()[b[i / 2] as int / 16]
            } else {
                lower_digits()[b[i / 2] as int % 16]
            },
    )
}

/// The identifier of a stored record.
#[derive(Clone, Copy, Debug)]
pub struct RecordId {
    pub bytes: [u8; 12],
}

impl View for RecordId {
    type V = Seq<u8>;

    open spec fn view(&self) -> Seq<u8> {
        self.bytes@
    }
}

/// Relies on bson's `ObjectId::new`: a fresh identifier of twelve bytes, made
/// from the clock, a per-process random value and a counter. bson panics when
/// the system clock reads before 1970 or after 2106, which no argument here
/// can rule out.
#[verifier::external_body]
fn fresh_object_id() -> (r: [u8; 12]) {
    mongodb::bson::oid::ObjectId::new().bytes()
}

/// Relies on bson's `ObjectId::parse_str`, which hex-decodes the text and
/// accepts it exactly when that yields twelve bytes.
#[verifier::external_body]
fn parse_object_id(s: &str) -> (r: Option<[u8; 12]>)
    ensures
        r.is_some() <==> is_id_text(s@),
        r.is_some() ==> r.unwrap()@ == id_bytes_of(s@),
{
    mongodb::bson::oid::ObjectId::parse_str(s).ok().map(|o| o.bytes())
}

/// Relies on bson's `ObjectId::to_hex`, which is `hex::encode` of the bytes:
/// two lower-case digits per byte.
#[verifier::external_body]
fn object_id_hex(b: [u8; 12]) -> (r: String)
    ensures
        r@ == hex_text_of(b@),
{
    mongodb::bson::oid::ObjectId::from_bytes(b).to_hex()
}

impl RecordId {
    /// A freshly generated identifier.
    pub fn new() -> (r: RecordId)
        ensures
            r@.len() == 12,
    {
        RecordId { bytes: fresh_object_id() }
    }

    /// Reads identifier text; `None` unless it is exactly 24 hexadecimal digits.
    pub fn parse_str(s: &str) -> (r: Option<RecordId>)
        ensures
            r.is_some() <==> is_id_text(s@),
            r.is_some() ==> r.unwrap()@ == id_bytes_of(s@),
    {
        match parse_object_id(s) {
            Some(b) => Some(RecordId { bytes: b }),
            None => None,
        }
    }

    /// The identifier as 24 lower-case hexadecimal digits.
    pub fn to_hex(&self) -> (r: String)
        ensures
            r@ == hex_text_of(self@),
    {
        object_id_hex(self.bytes)
    }

    /// Whether two identifiers hold the same bytes.
    pub fn same_as(&self, other: &RecordId) -> (r: bool)
        ensures
            r == (self@ == other@),
    {
        let mut i: usize = 0;
        while i < 12
            invariant
                0 <= i <= 12,
                self@.len() == 12,
                other@.len() == 12,
                forall|j: int| 0 <= j < i ==> self@[j] == other@[j],
            decreases 12 - i,
        {
            if self.bytes[i] != other.bytes[i] {
                return false;
            }
            i = i + 1;
        }
        assert(self@ =~= other@);
        true
    }
}

} // verus!
