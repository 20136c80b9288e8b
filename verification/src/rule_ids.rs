//! The identifiers of notification rules as texts.
use vstd::prelude::*;
use vstd::string::*;

use crate::api::labelled;
use crate::settings::RuleId;
use crate::text::{slice_text, to_chars};

verus! {

/// Sixteen to a power.
pub open spec fn power_of_sixteen(exponent: nat) -> nat
    decreases exponent,
{
    if exponent == 0 {
        1
    } else {
        16 * power_of_sixteen((exponent - 1) as nat)
    }
}

/// A hexadecimal digit, in lower case.
pub open spec fn hex_digit(value: nat) -> char {
    if value < 10 {
        (('0' as u32 + value) as u32) as char
    } else {
        (('a' as u32 + (value - 10)) as u32) as char
    }
}

/// One of the 32 hexadecimal digits of an identifier, the highest first.
pub open spec fn id_digit(bits: u128, at: int) -> char {
    hex_digit((bits as nat / power_of_sixteen((31 - at) as nat)) % 16)
}

/// An identifier as it is written: 8, 4, 4, 4 and 12 hexadecimal digits with hyphens between.
pub open spec fn written_id(bits: u128) -> Seq<char> {
    Seq::new(
        36,
        |i: int|
            if i == 8 || i == 13 || i == 18 || i == 23 {
                '-'
            } else if i < 8 {
                id_digit(bits, i)
            } else if i < 13 {
                id_digit(bits, i - 1)
            } else if i < 18 {
                id_digit(bits, i - 2)
            } else if i < 23 {
                id_digit(bits, i - 3)
            } else {
                id_digit(bits, i - 4)
            },
    )
}

/// The identifier that the `uuid` crate reads a text as, in any of the forms that it knows.
pub uninterp spec fn parsed_id(text: Seq<char>) -> Option<u128>;

/// `Display` of `uuid::Uuid`: the hyphenated form in lower case, which `uuid::Uuid::parse_str`
/// reads back.
#[verifier::external_body]
pub(crate) fn write_id(id: RuleId) -> (r: String)
    ensures
        r@ == written_id(id.bits),
        parsed_id(r@) == Some(id.bits),
{
    uuid::Uuid::from_u128(id.bits).to_string()
}

/// `uuid::Uuid::parse_str`. What it gives is a function of the text alone.
#[verifier::external_body]
pub(crate) fn read_id(text: &str) -> (r: Option<RuleId>)
    ensures
        match r {
            Some(id) => parsed_id(text@) == Some(id.bits),
            None => parsed_id(text@) is None,
        },
{
    match uuid::Uuid::parse_str(text) {
        Ok(id) => Some(RuleId { bits: id.as_u128() }),
        Err(_) => None,
    }
}

impl RuleId {
    /// The identifier as it is written.
    pub fn text(self) -> (r: String)
        ensures
            r@ == written_id(self.bits),
            parsed_id(r@) == Some(self.bits),
    {
        write_id(self)
    }
}

/// The identifier of the rule that was picked, if one was.
pub open spec fn picked_id(choice: Option<Seq<char>>) -> Option<u128> {
    match choice {
        Some(text) => if text.len() > 0 {
            parsed_id(text)
        } else {
            None
        },
        None => None,
    }
}

/// The identifier of the rule that was picked, if one was.
pub fn rule_id_from_picker(choice: Option<&str>) -> (r: Option<RuleId>)
    ensures
        match r {
            Some(id) => picked_id(choice.deep_view()) == Some(id.bits),
            None => picked_id(choice.deep_view()) is None,
        },
{
    match choice {
        Some(text) => if text.is_empty() {
            None
        } else {
            read_id(text)
        },
        None => None,
    }
}

/// The name of a rule without one: the start of its identifier.
pub fn default_rule_label(id: RuleId) -> (r: String)
    ensures
        r@ == "Rule "@ + written_id(id.bits).take(8),
{
    let text = id.text();
    let chars = to_chars(text.as_str());
    let start = slice_text(&chars, 0, 8);
    assert(start@ =~= written_id(id.bits).take(8));
    labelled("Rule ", start.as_str())
}

/// What the editor says of the rule that it shows.
pub fn rule_id_label(id: Option<RuleId>) -> (r: String)
    ensures
        r@ == "Rule ID: "@ + match id {
            Some(id) => written_id(id.bits),
            None => "new"@,
        },
{
    match id {
        Some(id) => labelled("Rule ID: ", id.text().as_str()),
        None => labelled("Rule ID: ", "new"),
    }
}

} // verus!
