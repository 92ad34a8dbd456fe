//! Fill: the insignificant text (whitespace and comments) in front of a
//! syntactic element.

use vstd::prelude::*;
use vstd::string::*;
use vstd::utf8::encode_utf8;

verus! {

/// The text that precedes a syntactic element and carries no meaning.
///
/// An empty fill stands for "no fill": where a position has a default
/// spacing, that spacing is written in its place.
#[derive(Debug, Clone, PartialEq)]
pub struct CafFill {
    pub string: String,
}

impl View for CafFill {
    type V = Seq<char>;

    open spec fn view(&self) -> Seq<char> {
        self.string@
    }
}

/// What a fill with the text `fill` puts out at a position whose default
/// spacing is `default`: the fill itself if there is any, else the default.
pub open spec fn fill_or(fill: Seq<char>, default: Seq<u8>) -> Seq<u8> {
    if fill.len() == 0 {
        default
    } else {
        encode_utf8(fill)
    }
}

impl CafFill {
    /// Makes a fill that holds `string`.
    pub fn new(string: &str) -> (fill: CafFill)
        ensures
            fill@ == string@,
    {
        CafFill { string: string.to_owned() }
    }

    /// The length of the fill's text in bytes.
    pub fn len(&self) -> (len: usize)
        ensures
            len == encode_utf8(self@).len(),
    {
        self.string.as_str().as_bytes().len()
    }

    /// Whether there is no fill.
    pub fn is_empty(&self) -> (empty: bool)
        ensures
            empty == (self@.len() == 0),
    {
        self.string.as_str().is_empty()
    }

    /// Writes the fill verbatim; an empty fill writes nothing.
    pub fn write_to(&self, writer: &mut Vec<u8>)
        ensures
            final(writer)@ == old(writer)@ + encode_utf8(self@),
    {
        writer.extend_from_slice(self.string.as_str().as_bytes());
    }

    /// Writes the fill if there is any, else `default`.
    pub fn write_to_or_else(&self, writer: &mut Vec<u8>, default: &str)
        ensures
            final(writer)@ == old(writer)@ + fill_or(self@, default.spec_bytes()),
    {
        if self.is_empty() {
            writer.extend_from_slice(default.as_bytes());
        } else {
            self.write_to(writer);
        }
    }

    /// Replaces this fill with a copy of `other`, whatever it held.
    pub fn recover(&mut self, other: &CafFill)
        ensures
            final(self)@ == other@,
    {
        self.string = other.string.clone();
    }

    /// A copy of the fill.
    pub fn duplicate(&self) -> (copy: CafFill)
        ensures
            copy@ == self@,
    {
        CafFill { string: self.string.clone() }
    }
}

impl Default for CafFill {
    /// No fill.
    fn default() -> (fill: CafFill)
        ensures
            fill@ == Seq::<char>::empty(),
    {
        CafFill { string: String::new() }
    }
}

} // verus!
