//! Values: the union of the kinds of value that a document holds.

use vstd::prelude::*;
use vstd::string::*;
use crate::caf_array::{ArrayModel, CafArray};
use crate::caf_bool::{BoolModel, CafBool};
use crate::caf_number::{CafNumber, NumberModel};
use crate::caf_string::{CafString, StringModel};
use crate::error::{CafError, ErrorModel, Expected, result_view};
use crate::json::{JsonModel, JsonValue};
use crate::schema::{TypeInfo, TypeRegistry};

verus! {

/// A value in a document.
#[derive(Debug, PartialEq)]
pub enum CafValue {
    Array(CafArray),
    Number(CafNumber),
    Bool(CafBool),
    String(CafString),
}

/// A [`CafValue`] as a mathematical value.
pub enum ValueModel {
    Array(ArrayModel),
    Number(NumberModel),
    Bool(BoolModel),
    String(StringModel),
}

impl ValueModel {
    /// The text of the value at a position whose default spacing is
    /// `space`.
    pub open spec fn text(self, space: Seq<u8>) -> Seq<u8>
        decreases self,
    {
        match self {
            ValueModel::Array(array) => array.text(space),
            ValueModel::Number(number) => number.text(space),
            ValueModel::Bool(value) => value.text(space),
            ValueModel::String(string) => string.text(space),
        }
    }

    /// The value with all its fill taken away.
    pub open spec fn without_fill(self) -> ValueModel
        decreases self,
    {
        match self {
            ValueModel::Array(array) => ValueModel::Array(array.without_fill()),
            ValueModel::Number(number) => ValueModel::Number(number.without_fill()),
            ValueModel::Bool(value) => ValueModel::Bool(value.without_fill()),
            ValueModel::String(string) => ValueModel::String(string.without_fill()),
        }
    }

    /// The value as JSON.
    pub open spec fn to_json(self) -> Result<JsonModel, ErrorModel>
        decreases self,
    {
        match self {
            ValueModel::Array(array) => array.to_json(),
            ValueModel::Number(number) => number.to_json(),
            ValueModel::Bool(value) => Ok(value.to_json()),
            ValueModel::String(string) => Ok(string.to_json()),
        }
    }

    /// The value that `json` stands for as a value of the type `info`.
    ///
    /// A bool, a number and a string stand for themselves, whatever the
    /// type. An array is converted as the type says. Nothing else stands for
    /// a value. The result has no fill.
    pub open spec fn from_json(json: JsonModel, info: TypeInfo, registry: TypeRegistry) -> Result<
        ValueModel,
        ErrorModel,
    >
        decreases json, 1nat,
    {
        match json {
            JsonModel::Bool(value) => Ok(
                ValueModel::Bool(BoolModel { fill: Seq::empty(), value }),
            ),
            JsonModel::Number(number) => match NumberModel::from_json(number) {
                Ok(number) => Ok(ValueModel::Number(number)),
                Err(error) => Err(error),
            },
            JsonModel::String(string) => Ok(
                ValueModel::String(StringModel { fill: Seq::empty(), string }),
            ),
            JsonModel::Array(_) => match ArrayModel::from_json(json, info, registry) {
                Ok(array) => Ok(ValueModel::Array(array)),
                Err(error) => Err(error),
            },
            _ => Err(
                ErrorModel::ShapeMismatch {
                    type_path: info.type_path@,
                    json,
                    expected: Expected::Value,
                },
            ),
        }
    }

    /// The value after it took the fill of `other`. A value of another kind
    /// than `other` has no counterpart in it and stays as it is.
    pub open spec fn recovered(self, other: ValueModel) -> ValueModel
        decreases self,
    {
        match (self, other) {
            (ValueModel::Array(array), ValueModel::Array(o)) => ValueModel::Array(
                array.recovered(o),
            ),
            (ValueModel::Number(number), ValueModel::Number(o)) => ValueModel::Number(
                number.recovered(o),
            ),
            (ValueModel::Bool(value), ValueModel::Bool(o)) => ValueModel::Bool(value.recovered(o)),
            (ValueModel::String(string), ValueModel::String(o)) => ValueModel::String(
                string.recovered(o),
            ),
            _ => self,
        }
    }
}

impl CafValue {
    /// The value as a mathematical value.
    pub open spec fn model(&self) -> ValueModel
        decreases self,
    {
        match self {
            CafValue::Array(array) => ValueModel::Array(
                ArrayModel {
                    start_fill: array.start_fill@,
                    entries: Seq::new(
                        array.entries.len() as nat,
                        |i: int|
                            if 0 <= i < array.entries.len() {
                                array.entries[i].model()
                            } else {
                                arbitrary()
                            },
                    ),
                    end_fill: array.end_fill@,
                },
            ),
            CafValue::Number(number) => ValueModel::Number(number@),
            CafValue::Bool(value) => ValueModel::Bool(value@),
            CafValue::String(string) => ValueModel::String(string@),
        }
    }
}

impl CafValue {
    /// Writes the value with no default spacing.
    pub fn write_to(&self, writer: &mut Vec<u8>)
        ensures
            final(writer)@ == old(writer)@ + self@.text(Seq::empty()),
        decreases self, 1nat,
    {
        proof {
            reveal_strlit("");
        }
        self.write_to_with_space(writer, "")
    }

    /// Writes the value at a position whose default spacing is `space`.
    pub fn write_to_with_space(&self, writer: &mut Vec<u8>, space: &str)
        ensures
            final(writer)@ == old(writer)@ + self@.text(space.spec_bytes()),
        decreases self, 0nat,
    {
        match self {
            CafValue::Array(array) => {
                proof {
                    lemma_array_value_model(*array);
                }
                array.write_to_with_space(writer, space)
            },
            CafValue::Number(number) => number.write_to_with_space(writer, space),
            CafValue::Bool(value) => value.write_to_with_space(writer, space),
            CafValue::String(string) => string.write_to_with_space(writer, space),
        }
    }
}

impl CafValue {
    /// The value as JSON. Fails on a float that JSON cannot hold.
    pub fn to_json(&self) -> (res: Result<JsonValue, CafError>)
        ensures
            result_view(res) == self@.to_json(),
        decreases self,
    {
        match self {
            CafValue::Array(array) => {
                proof {
                    lemma_array_value_model(*array);
                }
                array.to_json()
            },
            CafValue::Number(number) => number.to_json(),
            CafValue::Bool(value) => Ok(value.to_json()),
            CafValue::String(string) => Ok(string.to_json()),
        }
    }

    /// The value that `val` stands for as a value of the type `type_info`.
    ///
    /// A bool, a number and a string stand for themselves, whatever the
    /// type. An array is converted as the type says. A null and an object
    /// stand for no value: the conversion fails with a shape mismatch. The
    /// registry must hold every type that the conversion looks up.
    pub fn from_json(val: &JsonValue, type_info: &TypeInfo, registry: &TypeRegistry) -> (res:
        Result<CafValue, CafError>)
        requires
            registry.is_complete(),
            registry.resolves(type_info),
        ensures
            result_view(res) == ValueModel::from_json(val@, *type_info, *registry),
        decreases val, 1nat,
    {
        match val {
            JsonValue::Bool(value) => Ok(CafValue::Bool(CafBool::from(*value))),
            JsonValue::Number(number) => match CafNumber::from_json(number) {
                Ok(number) => Ok(CafValue::Number(number)),
                Err(error) => Err(error),
            },
            JsonValue::String(string) => Ok(CafValue::String(CafString::from(string.as_str()))),
            JsonValue::Array(_) => match CafArray::from_json(val, type_info, registry) {
                Ok(array) => {
                    proof {
                        lemma_array_value_model(array);
                    }
                    Ok(CafValue::Array(array))
                },
                Err(error) => Err(error),
            },
            _ => Err(
                CafError::ShapeMismatch {
                    type_path: type_info.type_path.clone(),
                    json: val.duplicate(),
                    expected: Expected::Value,
                },
            ),
        }
    }

    /// Takes the fill of `other`, part by part, where `other` is a value of
    /// the same kind.
    pub fn recover_fill(&mut self, other: &CafValue)
        ensures
            final(self)@ == old(self)@.recovered(other@),
        decreases *old(self),
    {
        match self {
            CafValue::Array(array) => {
                if let CafValue::Array(other_array) = other {
                    proof {
                        lemma_array_value_model(*array);
                        lemma_array_value_model(*other_array);
                    }
                    array.recover_fill(other_array);
                    proof {
                        lemma_array_value_model(*array);
                    }
                }
            },
            CafValue::Number(number) => {
                if let CafValue::Number(other_number) = other {
                    number.recover_fill(other_number);
                }
            },
            CafValue::Bool(value) => {
                if let CafValue::Bool(other_value) = other {
                    value.recover_fill(other_value);
                }
            },
            CafValue::String(string) => {
                if let CafValue::String(other_string) = other {
                    string.recover_fill(other_string);
                }
            },
        }
    }
}

impl View for CafValue {
    type V = ValueModel;

    open spec fn view(&self) -> ValueModel {
        self.model()
    }
}

/// The model of an array value is the model of the array.
pub proof fn lemma_array_value_model(array: CafArray)
    ensures
        CafValue::Array(array)@ == ValueModel::Array(array@),
{
    assert(CafValue::Array(array).model()->Array_0.entries =~= array@.entries);
}

} // verus!
