//! Numbers: the literal as it stands in the text, and the value it denotes
//! with the kind it has (float, unsigned or signed).

use vstd::prelude::*;
use vstd::string::*;
use vstd::utf8::encode_utf8;
use crate::caf_fill::{CafFill, fill_or};
use crate::error::{CafError, ErrorModel, result_view};
use crate::json::{JsonModel, JsonValue};

verus! {

/// The value of a number, tagged with its kind.
///
/// A float is held as the 64 bits of its IEEE 754 double.
#[derive(Debug, Clone, Copy, PartialEq, Eq, Structural)]
pub enum NumberValue {
    Float(u64),
    Unsigned(u64),
    Signed(i64),
}

/// The call that a number makes on a visitor: the method of its natural
/// kind, with the native value.
#[derive(Debug, Clone, Copy, PartialEq, Eq, Structural)]
pub enum NumberVisit {
    VisitF64(u64),
    VisitU64(u64),
    VisitI64(i64),
}

/// The width of a number that a caller asks for.
#[derive(Debug, Clone, Copy, PartialEq, Eq, Structural)]
pub enum NumberWidth {
    I8,
    I16,
    I32,
    I64,
    I128,
    U8,
    U16,
    U32,
    U64,
    U128,
    F32,
    F64,
}

/// The type that a caller asks a number to be deserialized as: any type, a
/// number of some width, or a type that is no number.
#[derive(Debug, Clone, Copy, PartialEq, Eq, Structural)]
pub enum TypeRequest {
    Any,
    Number(NumberWidth),
    Other,
}

/// What a number reports of itself where a value of another type was asked
/// for: its kind and its value.
#[derive(Debug, Clone, Copy, PartialEq, Eq, Structural)]
pub enum UnexpectedNumber {
    Float(u64),
    Unsigned(u64),
    Signed(i64),
}

/// Whether the double with the bits `bits` is finite: neither an infinity
/// nor a NaN, which are the values with all eleven exponent bits set.
pub open spec fn is_finite_bits(bits: u64) -> bool {
    (bits / 0x10_0000_0000_0000) % 0x800 != 0x7FF
}

impl NumberValue {
    /// The bits of the float, if the number is one.
    pub fn as_f64_bits(&self) -> (res: Option<u64>)
        ensures
            res == (match *self {
                NumberValue::Float(bits) => Some(bits),
                _ => None,
            }),
    {
        match *self {
            NumberValue::Float(bits) => Some(bits),
            _ => None,
        }
    }

    /// The value, if the number is an unsigned integer.
    pub fn as_u64(&self) -> (res: Option<u64>)
        ensures
            res == (match *self {
                NumberValue::Unsigned(value) => Some(value),
                _ => None,
            }),
    {
        match *self {
            NumberValue::Unsigned(value) => Some(value),
            _ => None,
        }
    }

    /// The value, if the number is a signed integer.
    pub fn as_i64(&self) -> (res: Option<i64>)
        ensures
            res == (match *self {
                NumberValue::Signed(value) => Some(value),
                _ => None,
            }),
    {
        match *self {
            NumberValue::Signed(value) => Some(value),
            _ => None,
        }
    }

    /// The visitor call of the number's natural kind.
    pub open spec fn natural_visit(self) -> NumberVisit {
        match self {
            NumberValue::Float(bits) => NumberVisit::VisitF64(bits),
            NumberValue::Unsigned(value) => NumberVisit::VisitU64(value),
            NumberValue::Signed(value) => NumberVisit::VisitI64(value),
        }
    }

    /// The kind and value that the number reports where another type was
    /// asked for.
    pub open spec fn natural_unexpected(self) -> UnexpectedNumber {
        match self {
            NumberValue::Float(bits) => UnexpectedNumber::Float(bits),
            NumberValue::Unsigned(value) => UnexpectedNumber::Unsigned(value),
            NumberValue::Signed(value) => UnexpectedNumber::Signed(value),
        }
    }

    /// Whether JSON can hold the number: every integer, and every float
    /// that is finite.
    pub open spec fn is_json_number(self) -> bool {
        match self {
            NumberValue::Float(bits) => is_finite_bits(bits),
            _ => true,
        }
    }

    /// Picks the visitor call: the value is probed as a float, then as an
    /// unsigned integer, then as a signed integer, and the first that it is
    /// decides.
    pub fn visit(&self) -> (call: NumberVisit)
        ensures
            call == self.natural_visit(),
    {
        if let Some(float) = self.as_f64_bits() {
            NumberVisit::VisitF64(float)
        } else if let Some(uint) = self.as_u64() {
            NumberVisit::VisitU64(uint)
        } else if let Some(sint) = self.as_i64() {
            NumberVisit::VisitI64(sint)
        } else {
            vstd::pervasive::unreached()
        }
    }

    /// The kind and value to report where a value of another type was asked
    /// for, probed in the same order as [`NumberValue::visit`].
    pub fn unexpected(&self) -> (found: UnexpectedNumber)
        ensures
            found == self.natural_unexpected(),
    {
        if let Some(float) = self.as_f64_bits() {
            UnexpectedNumber::Float(float)
        } else if let Some(uint) = self.as_u64() {
            UnexpectedNumber::Unsigned(uint)
        } else if let Some(sint) = self.as_i64() {
            UnexpectedNumber::Signed(sint)
        } else {
            vstd::pervasive::unreached()
        }
    }

    /// Whether JSON can hold the number.
    pub fn is_json(&self) -> (res: bool)
        ensures
            res == self.is_json_number(),
    {
        match *self {
            NumberValue::Float(bits) => {
                let exponent: u64 = (bits >> 52) & 0x7FF;
                assert(exponent == (bits / 0x10_0000_0000_0000) % 0x800) by (bit_vector)
                    requires
                        exponent == (bits >> 52) & 0x7FF,
                ;
                exponent != 0x7FF
            },
            _ => true,
        }
    }
}

/// The character of the decimal digit `digit`.
pub open spec fn digit_char(digit: nat) -> char {
    if digit == 0 {
        '0'
    } else if digit == 1 {
        '1'
    } else if digit == 2 {
        '2'
    } else if digit == 3 {
        '3'
    } else if digit == 4 {
        '4'
    } else if digit == 5 {
        '5'
    } else if digit == 6 {
        '6'
    } else if digit == 7 {
        '7'
    } else if digit == 8 {
        '8'
    } else {
        '9'
    }
}

/// The decimal literal of `n`: its digits, most significant first, without
/// leading zeros.
pub open spec fn decimal(n: nat) -> Seq<char>
    decreases n,
{
    if n < 10 {
        seq![digit_char(n)]
    } else {
        decimal(n / 10).push(digit_char(n % 10))
    }
}

/// The decimal literal of `n`, with a minus sign in front of a negative
/// number.
pub open spec fn signed_decimal(n: int) -> Seq<char> {
    if n < 0 {
        seq!['-'] + decimal((-n) as nat)
    } else {
        decimal(n as nat)
    }
}

fn digit_str(digit: u64) -> (s: &'static str)
    requires
        digit < 10,
    ensures
        s@ == seq![digit_char(digit as nat)],
{
    proof {
        reveal_strlit("0");
        reveal_strlit("1");
        reveal_strlit("2");
        reveal_strlit("3");
        reveal_strlit("4");
        reveal_strlit("5");
        reveal_strlit("6");
        reveal_strlit("7");
        reveal_strlit("8");
        reveal_strlit("9");
    }
    let s = if digit == 0 {
        "0"
    } else if digit == 1 {
        "1"
    } else if digit == 2 {
        "2"
    } else if digit == 3 {
        "3"
    } else if digit == 4 {
        "4"
    } else if digit == 5 {
        "5"
    } else if digit == 6 {
        "6"
    } else if digit == 7 {
        "7"
    } else if digit == 8 {
        "8"
    } else {
        "9"
    };
    assert(s@ =~= seq![digit_char(digit as nat)]);
    s
}

/// Writes `n` as a decimal literal.
pub fn decimal_string(n: u64) -> (s: String)
    ensures
        s@ == decimal(n as nat),
    decreases n,
{
    if n < 10 {
        String::from_str(digit_str(n))
    } else {
        let mut s = decimal_string(n / 10);
        s.append(digit_str(n % 10));
        assert(s@ =~= decimal((n / 10) as nat).push(digit_char((n % 10) as nat)));
        s
    }
}

/// Writes `n` as a decimal literal, with a minus sign if it is negative.
pub fn signed_decimal_string(n: i64) -> (s: String)
    ensures
        s@ == signed_decimal(n as int),
{
    if n < 0 {
        // The magnitude of the least `i64` does not fit in an `i64`.
        let magnitude: u64 = ((-(n + 1)) as u64) + 1;
        proof {
            reveal_strlit("-");
        }
        let mut s = String::from_str("-");
        let digits = decimal_string(magnitude);
        s.append(digits.as_str());
        assert(s@ =~= seq!['-'] + decimal((-n) as nat));
        s
    } else {
        decimal_string(n as u64)
    }
}

/// A number as a document holds it: the literal, which is written back as it
/// stands, and the value that it denotes.
#[derive(Debug, Clone, PartialEq)]
pub struct CafNumberValue {
    pub original: String,
    pub deserialized: NumberValue,
}

/// A [`CafNumberValue`] as a mathematical value.
pub struct NumberValueModel {
    pub original: Seq<char>,
    pub deserialized: NumberValue,
}

impl View for CafNumberValue {
    type V = NumberValueModel;

    open spec fn view(&self) -> NumberValueModel {
        NumberValueModel { original: self.original@, deserialized: self.deserialized }
    }
}

impl CafNumberValue {
    /// The number `value`, spelled in decimal.
    pub fn from_u64(value: u64) -> (number: CafNumberValue)
        ensures
            number@ == (NumberValueModel {
                original: decimal(value as nat),
                deserialized: NumberValue::Unsigned(value),
            }),
    {
        CafNumberValue {
            original: decimal_string(value),
            deserialized: NumberValue::Unsigned(value),
        }
    }

    /// The number `value`, spelled in decimal.
    pub fn from_i64(value: i64) -> (number: CafNumberValue)
        ensures
            number@ == (NumberValueModel {
                original: signed_decimal(value as int),
                deserialized: NumberValue::Signed(value),
            }),
    {
        CafNumberValue {
            original: signed_decimal_string(value),
            deserialized: NumberValue::Signed(value),
        }
    }

    /// The float with the bits `bits`, spelled `literal`.
    pub fn from_float_bits(bits: u64, literal: &str) -> (number: CafNumberValue)
        ensures
            number@ == (NumberValueModel {
                original: literal@,
                deserialized: NumberValue::Float(bits),
            }),
    {
        CafNumberValue { original: literal.to_owned(), deserialized: NumberValue::Float(bits) }
    }

    /// A copy of the number.
    pub fn duplicate(&self) -> (copy: CafNumberValue)
        ensures
            copy@ == self@,
    {
        CafNumberValue { original: self.original.clone(), deserialized: self.deserialized }
    }
}

/// A number in a document: its fill, then its literal.
#[derive(Debug, Clone, PartialEq)]
pub struct CafNumber {
    pub fill: CafFill,
    pub number: CafNumberValue,
}

/// A [`CafNumber`] as a mathematical value.
pub struct NumberModel {
    pub fill: Seq<char>,
    pub number: NumberValueModel,
}

impl NumberModel {
    /// The text of the number at a position whose default spacing is
    /// `space`.
    pub open spec fn text(self, space: Seq<u8>) -> Seq<u8> {
        fill_or(self.fill, space) + encode_utf8(self.number.original)
    }

    /// The number after it took the fill of `other`.
    pub open spec fn recovered(self, other: NumberModel) -> NumberModel {
        NumberModel { fill: other.fill, number: self.number }
    }

    /// The number with its fill taken away.
    pub open spec fn without_fill(self) -> NumberModel {
        NumberModel { fill: Seq::empty(), number: self.number }
    }

    /// The number as JSON: the number itself, unless it is a float that JSON
    /// cannot hold.
    pub open spec fn to_json(self) -> Result<JsonModel, ErrorModel> {
        self.number.to_json()
    }

    /// The number that the JSON number `number` stands for, with no fill.
    pub open spec fn from_json(number: NumberValueModel) -> Result<NumberModel, ErrorModel> {
        match number.deserialized {
            NumberValue::Float(bits) if !is_finite_bits(bits) => Err(
                ErrorModel::NonFiniteNumber { bits },
            ),
            _ => Ok(NumberModel { fill: Seq::empty(), number }),
        }
    }
}

impl NumberValueModel {
    /// The number as JSON: the number itself, unless it is a float that JSON
    /// cannot hold.
    pub open spec fn to_json(self) -> Result<JsonModel, ErrorModel> {
        match self.deserialized {
            NumberValue::Float(bits) if !is_finite_bits(bits) => Err(
                ErrorModel::NonFiniteNumber { bits },
            ),
            _ => Ok(JsonModel::Number(self)),
        }
    }
}

impl View for CafNumber {
    type V = NumberModel;

    open spec fn view(&self) -> NumberModel {
        NumberModel { fill: self.fill@, number: self.number@ }
    }
}

impl CafNumber {
    /// The float with the bits `bits`, spelled `literal`, with no fill.
    pub fn from_float_bits(bits: u64, literal: &str) -> (number: CafNumber)
        ensures
            number@ == (NumberModel {
                fill: Seq::empty(),
                number: NumberValueModel {
                    original: literal@,
                    deserialized: NumberValue::Float(bits),
                },
            }),
    {
        CafNumber { fill: CafFill::default(), number: CafNumberValue::from_float_bits(bits, literal) }
    }

    /// Writes the number with no default spacing.
    pub fn write_to(&self, writer: &mut Vec<u8>)
        ensures
            final(writer)@ == old(writer)@ + self@.text(Seq::empty()),
    {
        proof {
            reveal_strlit("");
        }
        self.write_to_with_space(writer, "")
    }

    /// Writes the fill, or `space` where there is none, then the literal.
    pub fn write_to_with_space(&self, writer: &mut Vec<u8>, space: &str)
        ensures
            final(writer)@ == old(writer)@ + self@.text(space.spec_bytes()),
    {
        self.fill.write_to_or_else(writer, space);
        writer.extend_from_slice(self.number.original.as_str().as_bytes());
    }

    /// Takes the fill of `other` and keeps the number.
    pub fn recover_fill(&mut self, other: &CafNumber)
        ensures
            final(self)@ == old(self)@.recovered(other@),
    {
        self.fill.recover(&other.fill);
    }

    /// The number as JSON. Fails on a float that JSON cannot hold.
    pub fn to_json(&self) -> (res: Result<JsonValue, CafError>)
        ensures
            result_view(res) == self@.to_json(),
    {
        if let NumberValue::Float(bits) = self.number.deserialized {
            if !self.number.deserialized.is_json() {
                return Err(CafError::NonFiniteNumber { bits });
            }
        }
        Ok(JsonValue::Number(self.number.duplicate()))
    }

    /// The number that the JSON number `number` stands for, with no fill.
    /// Fails on a float that JSON cannot hold.
    pub fn from_json(number: &CafNumberValue) -> (res: Result<CafNumber, CafError>)
        ensures
            result_view(res) == NumberModel::from_json(number@),
    {
        if let NumberValue::Float(bits) = number.deserialized {
            if !number.deserialized.is_json() {
                return Err(CafError::NonFiniteNumber { bits });
            }
        }
        Ok(CafNumber { fill: CafFill::default(), number: number.duplicate() })
    }

    /// The visitor call of the number's natural kind.
    pub fn visit(&self) -> (call: NumberVisit)
        ensures
            call == self@.number.deserialized.natural_visit(),
    {
        self.number.deserialized.visit()
    }

    /// The visitor call that answers `request`.
    ///
    /// Whatever is asked for, the number offers its natural kind. Where a
    /// number of another width is asked for, the visitor narrows; where no
    /// number is asked for, the visitor refuses.
    pub fn deserialize(&self, request: TypeRequest) -> (call: NumberVisit)
        ensures
            call == self@.number.deserialized.natural_visit(),
    {
        match request {
            TypeRequest::Any => self.visit(),
            // A request for a width is answered as a request for any type.
            TypeRequest::Number(_) => self.visit(),
            // So is a request for a type that is no number.
            TypeRequest::Other => self.visit(),
        }
    }

    /// The kind and value to report where a value of another type was asked
    /// of the number.
    pub fn unexpected(&self) -> (found: UnexpectedNumber)
        ensures
            found == self@.number.deserialized.natural_unexpected(),
    {
        self.number.deserialized.unexpected()
    }
}

impl From<u64> for CafNumber {
    /// The number `value` with no fill, spelled in decimal.
    fn from(value: u64) -> (number: CafNumber)
        ensures
            number@ == (NumberModel {
                fill: Seq::empty(),
                number: NumberValueModel {
                    original: decimal(value as nat),
                    deserialized: NumberValue::Unsigned(value),
                },
            }),
    {
        CafNumber { fill: CafFill::default(), number: CafNumberValue::from_u64(value) }
    }
}

impl vstd::std_specs::convert::FromSpecImpl<u64> for CafNumber {
    /// What `from` returns is stated over its view.
    open spec fn obeys_from_spec() -> bool {
        false
    }

    open spec fn from_spec(value: u64) -> CafNumber {
        arbitrary()
    }
}


impl From<i64> for CafNumber {
    /// The number `value` with no fill, spelled in decimal.
    fn from(value: i64) -> (number: CafNumber)
        ensures
            number@ == (NumberModel {
                fill: Seq::empty(),
                number: NumberValueModel {
                    original: signed_decimal(value as int),
                    deserialized: NumberValue::Signed(value),
                },
            }),
    {
        CafNumber { fill: CafFill::default(), number: CafNumberValue::from_i64(value) }
    }
}

impl vstd::std_specs::convert::FromSpecImpl<i64> for CafNumber {
    /// What `from` returns is stated over its view.
    open spec fn obeys_from_spec() -> bool {
        false
    }

    open spec fn from_spec(value: i64) -> CafNumber {
        arbitrary()
    }
}

} // verus!
