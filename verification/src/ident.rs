//! Component identifiers as text.

use vstd::prelude::*;
use vstd::arithmetic::power::pow;
use crate::model::ComponentId;

verus! {

/// The sixteen digits of base sixteen, in lower case.
pub open spec fn hex_digits() -> Seq<char> {
    seq!['0', '1', '2', '3', '4', '5', '6', '7', '8', '9', 'a', 'b', 'c', 'd', 'e', 'f']
}

/// The digit with number `k` of the 32 digits that a 128-bit value has in
/// base sixteen, counted from the most significant one.
pub open spec fn nibble(value: u128, k: int) -> int {
    (value as int / pow(16, (31 - k) as nat)) % 16
}

/// Whether a hyphen stands at position `i` of an identifier's text.
pub open spec fn is_hyphen_position(i: int) -> bool {
    i == 8 || i == 13 || i == 18 || i == 23
}

/// The number of hyphens before position `i` of an identifier's text.
pub open spec fn hyphens_before(i: int) -> int {
    if i <= 8 {
        0
    } else if i <= 13 {
        1
    } else if i <= 18 {
        2
    } else if i <= 23 {
        3
    } else {
        4
    }
}

/// The text of an identifier: its 32 digits of base sixteen in lower
/// case, the most significant first, in groups of 8, 4, 4, 4 and 12 with a
/// hyphen between two groups.
pub open spec fn hyphenated(value: u128) -> Seq<char> {
    Seq::new(
        36,
        |i: int|
            if is_hyphen_position(i) {
                '-'
            } else {
                hex_digits()[nibble(value, i - hyphens_before(i))]
            },
    )
}

/// The identifier that a text denotes in one of the notations that the
/// `uuid` crate reads; none where it reads none.
pub uninterp spec fn uuid_of_text(text: Seq<char>) -> Option<u128>;

/// `uuid::Uuid`'s `Display`, on the identifier that `Uuid::from_u128`
/// makes of the value. Trusted: the text is the hyphenated lower-case
/// notation.
#[verifier::external_body]
fn uuid_to_text(value: u128) -> (r: String)
    ensures
        r@ == hyphenated(value),
{
    uuid::Uuid::from_u128(value).to_string()
}

/// `uuid::Uuid::parse_str`, with the identifier handed back as the 128
/// bits that `Uuid::as_u128` gives. Trusted: the result depends on the text
/// alone.
#[verifier::external_body]
fn uuid_from_text(text: &str) -> (r: Option<u128>)
    ensures
        r == uuid_of_text(text@),
{
    match uuid::Uuid::parse_str(text) {
        Ok(id) => Some(id.as_u128()),
        Err(_) => None,
    }
}

impl ComponentId {
    /// The identifier as text.
    pub fn to_string(&self) -> (r: String)
        ensures
            r@ == hyphenated(self.0),
    {
        uuid_to_text(self.0)
    }

    /// The identifier that a text denotes, if it denotes one.
    pub fn parse(text: &str) -> (r: Option<ComponentId>)
        ensures
            r == (match uuid_of_text(text@) {
                Some(value) => Some(ComponentId(value)),
                None => None,
            }),
    {
        match uuid_from_text(text) {
            Some(value) => Some(ComponentId(value)),
            None => None,
        }
    }
}

} // verus!
