use vstd::prelude::*;

verus! {

/// The text that the `uuid` crate writes for the identifier with the given 128-bit value:
/// thirty-two lower-case hexadecimal digits in five groups separated by hyphens.
pub uninterp spec fn hyphenated(id: u128) -> Seq<char>;

/// What the `uuid` crate reads from a text: the 128-bit value of the identifier it denotes,
/// or `None` where the text denotes none.
pub uninterp spec fn parsed(text: Seq<char>) -> Option<u128>;

/// The bits of an identifier that hold its version and its variant.
pub open spec fn version_bits(id: u128) -> u128 {
    id & 0x0000_0000_0000_f000_c000_0000_0000_0000u128
}

/// The version and variant bits of a random (version 4) identifier.
pub open spec fn random_version() -> u128 {
    0x0000_0000_0000_4000_8000_0000_0000_0000u128
}

/// `uuid::Uuid::new_v4`, read as a 128-bit value: a random identifier. Nothing is known of
/// it but that it is marked as version 4 of the standard variant.
#[verifier::external_body]
pub(crate) fn fresh_id() -> (id: u128)
    ensures
        version_bits(id) == random_version(),
{
    uuid::Uuid::new_v4().as_u128()
}

/// `Display` of `uuid::Uuid`, on the identifier with the given value: the result is the
/// hyphenated text of that value.
#[verifier::external_body]
pub(crate) fn id_text(id: u128) -> (text: String)
    ensures
        text@ == hyphenated(id),
{
    uuid::Uuid::from_u128(id).to_string()
}

/// `uuid::Uuid::parse_str`: the value of the identifier that the text denotes, if any.
#[verifier::external_body]
pub(crate) fn parse_id(text: &str) -> (id: Option<u128>)
    ensures
        id == parsed(text@),
{
    match uuid::Uuid::parse_str(text) {
        Ok(uuid) => Some(uuid.as_u128()),
        Err(_) => None,
    }
}

} // verus!
