use vstd::prelude::*;
use crate::number::{decimal_of, is_number_text, number_fits, parse_number, NumberError};
use crate::price::Decimal;

verus! {

/// The decimal text of the number held by the member `key` of the JSON
/// object written in `payload`, if it is one.
pub uninterp spec fn member_number_text(payload: Seq<char>, key: Seq<char>) -> Option<Seq<char>>;

/// Relies on serde_json: `from_str` parses the payload as a JSON value,
/// `Value::get` and `Value::as_number` read its member `key` as a number, and
/// `Number`'s `Display` writes that number in decimal. The result depends on
/// the payload and the key alone.
#[verifier::external_body]
fn member_number(payload: &str, key: &str) -> (r: Option<String>)
    ensures
        r is Some <==> member_number_text(payload@, key@) is Some,
        r is Some ==> r->0@ == member_number_text(payload@, key@)->0,
{
    match serde_json::from_str::<serde_json::Value>(payload) {
        Ok(v) => v.get(key).and_then(serde_json::Value::as_number).map(serde_json::Number::to_string),
        Err(_) => None,
    }
}

/// The member that holds the price.
pub open spec fn price_key() -> Seq<char> {
    "btc"@
}

/// The domain payload carried by a broker message: a price.
#[derive(Clone, Copy, Debug, PartialEq, Eq)]
pub struct Currency {
    pub btc: Decimal,
}

/// Why a message body is not a price record.
#[derive(Clone, Copy, Debug, PartialEq, Eq)]
pub enum DecodeError {
    /// Not JSON, not an object, or without a numeric `btc` member.
    NotAPriceRecord,
    /// A number whose digits or exponent are too large to hold exactly.
    PriceOutOfRange,
}

/// The record for the decimal text of the `btc` member, if there is one.
pub open spec fn currency_from_text(t: Option<Seq<char>>) -> Result<Currency, DecodeError> {
    match t {
        None => Err(DecodeError::NotAPriceRecord),
        Some(s) => if !is_number_text(s) {
            Err(DecodeError::NotAPriceRecord)
        } else if !number_fits(s) {
            Err(DecodeError::PriceOutOfRange)
        } else {
            Ok(Currency { btc: decimal_of(s) })
        },
    }
}

/// What decoding a message body gives.
pub open spec fn decoded(payload: Seq<char>) -> Result<Currency, DecodeError> {
    currency_from_text(member_number_text(payload, price_key()))
}

impl Currency {
    /// Builds the record from the decimal text of the `btc` member (`None`:
    /// there is no numeric `btc` member).
    pub fn from_btc_text(text: Option<&str>) -> (r: Result<Currency, DecodeError>)
        ensures
            r == currency_from_text(
                match text {
                    Some(t) => Some(t@),
                    None => None,
                },
            ),
    {
        match text {
            None => Err(DecodeError::NotAPriceRecord),
            Some(t) => match parse_number(t) {
                Ok(d) => Ok(Currency { btc: d }),
                Err(NumberError::OutOfRange) => Err(DecodeError::PriceOutOfRange),
                Err(NumberError::NotANumber) => Err(DecodeError::NotAPriceRecord),
            },
        }
    }

    /// Decodes a message body: a JSON object whose `btc` member is a number.
    /// Other members are ignored.
    pub fn decode(payload: &str) -> (r: Result<Currency, DecodeError>)
        ensures
            r == decoded(payload@),
    {
        let text = member_number(payload, "btc");
        match text {
            Some(t) => Currency::from_btc_text(Some(t.as_str())),
            None => Currency::from_btc_text(None),
        }
    }
}

} // verus!
