//! Strings.

use vstd::prelude::*;
use vstd::string::*;
use vstd::utf8::encode_utf8;
use crate::caf_fill::{CafFill, fill_or};
use crate::escape::{escaped, format_escaped_str_contents};
use crate::json::{JsonModel, JsonValue};

verus! {

/// A string in a document: its fill, then the contents between double
/// quotes, with the special characters escaped.
#[derive(Debug, Clone, PartialEq)]
pub struct CafString {
    pub fill: CafFill,
    pub string: String,
}

/// A [`CafString`] as a mathematical value.
pub struct StringModel {
    pub fill: Seq<char>,
    pub string: Seq<char>,
}

impl StringModel {
    /// The text of the string at a position whose default spacing is
    /// `space`.
    pub open spec fn text(self, space: Seq<u8>) -> Seq<u8> {
        fill_or(self.fill, space) + "\"".spec_bytes() + escaped(encode_utf8(self.string))
            + "\"".spec_bytes()
    }

    /// The string after it took the fill of `other`.
    pub open spec fn recovered(self, other: StringModel) -> StringModel {
        StringModel { fill: other.fill, string: self.string }
    }

    /// The string with its fill taken away.
    pub open spec fn without_fill(self) -> StringModel {
        StringModel { fill: Seq::empty(), string: self.string }
    }

    /// The string as JSON.
    pub open spec fn to_json(self) -> JsonModel {
        JsonModel::String(self.string)
    }
}

impl View for CafString {
    type V = StringModel;

    open spec fn view(&self) -> StringModel {
        StringModel { fill: self.fill@, string: self.string@ }
    }
}

impl CafString {
    /// Writes the string with no default spacing.
    pub fn write_to(&self, writer: &mut Vec<u8>)
        ensures
            final(writer)@ == old(writer)@ + self@.text(Seq::empty()),
    {
        proof {
            reveal_strlit("");
        }
        self.write_to_with_space(writer, "")
    }

    /// Writes the fill, or `space` where there is none, then the quoted
    /// contents.
    pub fn write_to_with_space(&self, writer: &mut Vec<u8>, space: &str)
        ensures
            final(writer)@ == old(writer)@ + self@.text(space.spec_bytes()),
    {
        self.fill.write_to_or_else(writer, space);
        writer.extend_from_slice("\"".as_bytes());
        format_escaped_str_contents(writer, self.string.as_str());
        writer.extend_from_slice("\"".as_bytes());
    }

    /// Takes the fill of `other` and keeps the contents.
    pub fn recover_fill(&mut self, other: &CafString)
        ensures
            final(self)@ == old(self)@.recovered(other@),
    {
        self.fill.recover(&other.fill);
    }

    /// The string as JSON.
    pub fn to_json(&self) -> (json: JsonValue)
        ensures
            json@ == self@.to_json(),
    {
        JsonValue::String(self.string.clone())
    }
}

impl From<&str> for CafString {
    /// The string `string` with no fill.
    fn from(string: &str) -> (node: CafString)
        ensures
            node@ == (StringModel { fill: Seq::empty(), string: string@ }),
    {
        CafString { fill: CafFill::default(), string: string.to_owned() }
    }
}

impl vstd::std_specs::convert::FromSpecImpl<&str> for CafString {
    /// What `from` returns is stated over its view.
    open spec fn obeys_from_spec() -> bool {
        false
    }

    open spec fn from_spec(string: &str) -> CafString {
        arbitrary()
    }
}

} // verus!
