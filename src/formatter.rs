use crate::common::QoS;
use vstd::prelude::*;

verus! {

broadcast use vstd::string::to_string_from_display_ensures_for_str;

/// Why a form field was refused.
#[derive(Clone, Copy, Debug, PartialEq, Eq, Structural)]
pub enum ForError {
    NotEmpty,
    InvalidPort,
    InvalidQos,
}

/// Marker error of a required field left empty.
#[derive(Clone, Copy, Debug, PartialEq, Eq, Structural)]
pub struct MustInputError;

pub open spec fn is_digit(c: char) -> bool {
    '0' <= c && c <= '9'
}

/// The value of a string of decimal digits.
pub open spec fn digits_value(s: Seq<char>) -> int
    decreases s.len(),
{
    if s.len() == 0 {
        0
    } else {
        digits_value(s.drop_last()) * 10 + ((s.last() as u32) - ('0' as u32))
    }
}

/// The digits of a decimal number, after an optional leading `+`.
pub open spec fn unsigned_digits(s: Seq<char>) -> Seq<char> {
    if s.len() > 0 && s[0] == '+' {
        s.drop_first()
    } else {
        s
    }
}

/// The port number that a text denotes: one or more decimal digits after an optional
/// `+`, with a value of at most 65535.
pub open spec fn port_value(s: Seq<char>) -> Option<u16> {
    let d = unsigned_digits(s);
    if d.len() > 0 && (forall|i: int| 0 <= i < d.len() ==> is_digit(#[trigger] d[i]))
        && digits_value(d) <= 65535 {
        Some(digits_value(d) as u16)
    } else {
        None
    }
}

/// Relies on `str::parse::<u16>` (`u16::from_str`): it accepts an optional `+` followed
/// by at least one decimal digit, and fails when the value exceeds `u16::MAX`.
#[verifier::external_body]
fn parse_u16(input: &str) -> (r: Option<u16>)
    ensures
        r == port_value(input@),
{
    input.parse::<u16>().ok()
}

/// The result of checking a port field.
pub open spec fn spec_parse_to_port(s: Seq<char>) -> Result<u16, ForError> {
    if s.len() == 0 {
        Err(ForError::NotEmpty)
    } else {
        match port_value(s) {
            Some(p) => Ok(p),
            None => Err(ForError::InvalidPort),
        }
    }
}

pub fn parse_to_port(input: &str) -> (r: Result<u16, ForError>)
    ensures
        r == spec_parse_to_port(input@),
{
    if input.is_empty() {
        return Err(ForError::NotEmpty);
    }
    match parse_u16(input) {
        Some(p) => Ok(p),
        None => Err(ForError::InvalidPort),
    }
}

pub fn parse_to_no_empty(input: &str) -> (r: Result<String, ForError>)
    ensures
        input@.len() == 0 <==> r is Err,
        r matches Ok(s) ==> s@ == input@,
        r matches Err(e) ==> e == ForError::NotEmpty,
{
    if input.is_empty() {
        return Err(ForError::NotEmpty);
    }
    Ok(input.to_string())
}

/// The result of checking a QoS field: a number from 0 to 2.
pub open spec fn spec_parse_to_qos(s: Seq<char>) -> Result<QoS, ForError> {
    if s.len() == 0 {
        Err(ForError::NotEmpty)
    } else {
        match port_value(s) {
            Some(v) => if v == 0 {
                Ok(QoS::AtMostOnce)
            } else if v == 1 {
                Ok(QoS::AtLeastOnce)
            } else if v == 2 {
                Ok(QoS::ExactlyOnce)
            } else {
                Err(ForError::InvalidQos)
            },
            None => Err(ForError::InvalidQos),
        }
    }
}

pub fn parse_to_qos(input: &str) -> (r: Result<QoS, ForError>)
    ensures
        r == spec_parse_to_qos(input@),
{
    if input.is_empty() {
        return Err(ForError::NotEmpty);
    }
    match parse_u16(input) {
        Some(v) => if v == 0 {
            Ok(QoS::AtMostOnce)
        } else if v == 1 {
            Ok(QoS::AtLeastOnce)
        } else if v == 2 {
            Ok(QoS::ExactlyOnce)
        } else {
            Err(ForError::InvalidQos)
        },
        None => Err(ForError::InvalidQos),
    }
}

/// Whether an address field may be submitted: it must not be empty.
pub fn check_addr(input: &str) -> (r: bool)
    ensures
        r == (input@.len() > 0),
{
    if parse_to_no_empty(input).is_err() {
        return false;
    }
    true
}

/// Whether a port field may be submitted: it must hold a port number.
pub fn check_port(input: &str) -> (r: bool)
    ensures
        r == spec_parse_to_port(input@) is Ok,
{
    if parse_to_port(input).is_err() {
        return false;
    }
    true
}

/// Validator of required fields.
#[derive(Clone, Copy, Debug)]
pub struct MustInput;

impl MustInput {
    /// The text of a required text field, refused when empty.
    pub fn text_value(&self, input: &str) -> (r: Result<String, ForError>)
        ensures
            input@.len() == 0 <==> r is Err,
            r matches Ok(s) ==> s@ == input@,
            r matches Err(e) ==> e == ForError::NotEmpty,
    {
        parse_to_no_empty(input)
    }

    /// The number of a required port field.
    pub fn port_value(&self, input: &str) -> (r: Result<u16, ForError>)
        ensures
            r == spec_parse_to_port(input@),
    {
        parse_to_port(input)
    }
}

} // verus!
