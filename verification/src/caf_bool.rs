//! Booleans.

use vstd::prelude::*;
use vstd::string::*;
use crate::caf_fill::{CafFill, fill_or};
use crate::json::{JsonModel, JsonValue};

verus! {

/// A boolean in a document: its fill, then `true` or `false`.
#[derive(Debug, Clone, PartialEq)]
pub struct CafBool {
    pub fill: CafFill,
    pub value: bool,
}

/// A [`CafBool`] as a mathematical value.
pub struct BoolModel {
    pub fill: Seq<char>,
    pub value: bool,
}

/// The keyword that spells `value`.
pub open spec fn bool_keyword(value: bool) -> Seq<u8> {
    if value {
        "true".spec_bytes()
    } else {
        "false".spec_bytes()
    }
}

impl BoolModel {
    /// The text of the boolean at a position whose default spacing is
    /// `space`.
    pub open spec fn text(self, space: Seq<u8>) -> Seq<u8> {
        fill_or(self.fill, space) + bool_keyword(self.value)
    }

    /// The boolean after it took the fill of `other`.
    pub open spec fn recovered(self, other: BoolModel) -> BoolModel {
        BoolModel { fill: other.fill, value: self.value }
    }

    /// The boolean with its fill taken away.
    pub open spec fn without_fill(self) -> BoolModel {
        BoolModel { fill: Seq::empty(), value: self.value }
    }

    /// The boolean as JSON.
    pub open spec fn to_json(self) -> JsonModel {
        JsonModel::Bool(self.value)
    }
}

impl View for CafBool {
    type V = BoolModel;

    open spec fn view(&self) -> BoolModel {
        BoolModel { fill: self.fill@, value: self.value }
    }
}

impl CafBool {
    /// Writes the boolean with no default spacing.
    pub fn write_to(&self, writer: &mut Vec<u8>)
        ensures
            final(writer)@ == old(writer)@ + self@.text(Seq::empty()),
    {
        proof {
            reveal_strlit("");
        }
        self.write_to_with_space(writer, "")
    }

    /// Writes the fill, or `space` where there is none, then the keyword.
    pub fn write_to_with_space(&self, writer: &mut Vec<u8>, space: &str)
        ensures
            final(writer)@ == old(writer)@ + self@.text(space.spec_bytes()),
    {
        self.fill.write_to_or_else(writer, space);
        let string = match self.value {
            true => "true",
            false => "false",
        };
        writer.extend_from_slice(string.as_bytes());
    }

    /// Takes the fill of `other` and keeps the value.
    pub fn recover_fill(&mut self, other: &CafBool)
        ensures
            final(self)@ == old(self)@.recovered(other@),
    {
        self.fill.recover(&other.fill);
    }

    /// The boolean as JSON.
    pub fn to_json(&self) -> (json: JsonValue)
        ensures
            json@ == self@.to_json(),
    {
        JsonValue::Bool(self.value)
    }
}

impl From<bool> for CafBool {
    /// The boolean `value` with no fill.
    fn from(value: bool) -> (node: CafBool)
        ensures
            node@ == (BoolModel { fill: Seq::empty(), value }),
    {
        CafBool { fill: CafFill::default(), value }
    }
}

impl vstd::std_specs::convert::FromSpecImpl<bool> for CafBool {
    /// What `from` returns is stated over its view.
    open spec fn obeys_from_spec() -> bool {
        false
    }

    open spec fn from_spec(value: bool) -> CafBool {
        arbitrary()
    }
}

} // verus!
