//! Document identifiers: random version-4 UUIDs, held as their 128-bit value.
use vstd::prelude::*;
use vstd::string::StringSliceAdditionalSpecFns;

verus! {

/// One lower-case hexadecimal digit for `d` in `0..16`.
pub open spec fn hex_digit(d: int) -> char {
    if d < 10 {
        (d + 48) as char
    } else {
        (d + 87) as char
    }
}

/// The lowest `n` hexadecimal digits of `x`, most significant first.
pub open spec fn hex_digits(x: nat, n: nat) -> Seq<char>
    decreases n,
{
    if n == 0 {
        seq![]
    } else {
        hex_digits(x / 16, (n - 1) as nat).push(hex_digit((x % 16) as int))
    }
}

/// The hyphenated lower-case text of an identifier, grouped 8-4-4-4-12.
pub open spec fn uuid_text_spec(id: u128) -> Seq<char> {
    let x = id as nat;
    hex_digits(x / 0x1_0000_0000_0000_0000_0000_0000, 8) + seq!['-'] + hex_digits(
        x / 0x1_0000_0000_0000_0000_0000,
        4,
    ) + seq!['-'] + hex_digits(x / 0x1_0000_0000_0000_0000, 4) + seq!['-'] + hex_digits(
        x / 0x1_0000_0000_0000,
        4,
    ) + seq!['-'] + hex_digits(x, 12)
}

/// What `uuid::Uuid::parse_str` returns on a text, taken as the 128-bit value.
pub uninterp spec fn parsed_uuid(text: Seq<char>) -> Option<u128>;

/// `uuid::Uuid::new_v4`: a random identifier; what every outcome shares is
/// the version nibble 4 and the variant bits `10`, which the crate's source sets.
#[verifier::external_body]
pub(crate) fn new_document_id() -> (id: u128)
    ensures
        (id >> 76u128) & 0xf == 4,
        (id >> 62u128) & 0x3 == 2,
{
    uuid::Uuid::new_v4().as_u128()
}

/// `Display` of `uuid::Uuid` (through `Uuid::from_u128`): the hyphenated
/// lower-case form, which `Uuid::parse_str` reads back to the same identifier.
#[verifier::external_body]
pub(crate) fn uuid_text(id: u128) -> (s: String)
    ensures
        s@ == uuid_text_spec(id),
        parsed_uuid(s@) == Some(id),
{
    uuid::Uuid::from_u128(id).to_string()
}

/// `uuid::Uuid::parse_str`: the identifier a text denotes, if it is one. Its
/// source accepts inputs of 32, 36, 38 or 45 bytes only; which texts of those
/// lengths it accepts is left to the name `parsed_uuid`.
#[verifier::external_body]
pub(crate) fn parse_uuid(text: &str) -> (r: Option<u128>)
    ensures
        r == parsed_uuid(text@),
        !(text.spec_bytes().len() == 32 || text.spec_bytes().len() == 36 || text.spec_bytes().len()
            == 38 || text.spec_bytes().len() == 45) ==> r is None,
{
    match uuid::Uuid::parse_str(text) {
        Ok(u) => Some(u.as_u128()),
        Err(_) => None,
    }
}

} // verus!
