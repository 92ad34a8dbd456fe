//! Arrays.

use vstd::prelude::*;
use vstd::string::*;
use vstd::utf8::encode_utf8;
use crate::caf_fill::{CafFill, fill_or};
use crate::caf_value::{CafValue, ValueModel};
use crate::error::{CafError, ErrorModel, Expected, result_view};
use crate::json::{JsonModel, JsonValue, json_models, lemma_array_model, lemma_item_decreases};
use crate::schema::{TypeInfo, TypeRegistry};

verus! {

/// An array in a document: its entries between square brackets.
#[derive(Debug, PartialEq)]
pub struct CafArray {
    /// Fill before opening `[`.
    pub start_fill: CafFill,
    pub entries: Vec<CafValue>,
    /// Fill before ending `]`.
    pub end_fill: CafFill,
}

/// A [`CafArray`] as a mathematical value.
pub struct ArrayModel {
    pub start_fill: Seq<char>,
    pub entries: Seq<ValueModel>,
    pub end_fill: Seq<char>,
}

/// The text of the entries of an array: the first with no default spacing,
/// each later one with a single space as its default spacing.
pub open spec fn entries_text(entries: Seq<ValueModel>) -> Seq<u8>
    decreases entries,
{
    if entries.len() == 0 {
        Seq::empty()
    } else if entries.len() == 1 {
        entries[0].text(Seq::empty())
    } else {
        entries_text(entries.drop_last()) + entries.last().text(" ".spec_bytes())
    }
}

/// The entries as JSON values, in order; the error of the first entry that
/// has none.
pub open spec fn entries_to_json(entries: Seq<ValueModel>) -> Result<Seq<JsonModel>, ErrorModel>
    decreases entries,
{
    if entries.len() == 0 {
        Ok(Seq::empty())
    } else {
        match entries_to_json(entries.drop_last()) {
            Err(error) => Err(error),
            Ok(items) => match entries.last().to_json() {
                Err(error) => Err(error),
                Ok(item) => Ok(items.push(item)),
            },
        }
    }
}

/// The values that the JSON values `items` stand for as values of the type
/// `info`, in order; the error of the first item that stands for none.
pub open spec fn entries_from_json(
    items: Seq<JsonModel>,
    info: TypeInfo,
    registry: TypeRegistry,
) -> Result<Seq<ValueModel>, ErrorModel>
    decreases items, 0nat,
{
    if items.len() == 0 {
        Ok(Seq::empty())
    } else {
        match entries_from_json(items.drop_last(), info, registry) {
            Err(error) => Err(error),
            Ok(entries) => match ValueModel::from_json(items.last(), info, registry) {
                Err(error) => Err(error),
                Ok(entry) => Ok(entries.push(entry)),
            },
        }
    }
}

impl ArrayModel {
    /// The array as JSON: a JSON array of its entries, in order. Fails if an
    /// entry fails, with the error of the first that does.
    pub open spec fn to_json(self) -> Result<JsonModel, ErrorModel>
        decreases self,
    {
        match entries_to_json(self.entries) {
            Err(error) => Err(error),
            Ok(items) => Ok(JsonModel::Array(items)),
        }
    }

    /// The array that `json` stands for as a value of the type `info`.
    ///
    /// `json` must be an array and `info` a list or an array. Each item is
    /// then converted as a value of the item type. The result has no fill.
    pub open spec fn from_json(json: JsonModel, info: TypeInfo, registry: TypeRegistry) -> Result<
        ArrayModel,
        ErrorModel,
    >
        decreases json, 0nat,
    {
        match json {
            JsonModel::Array(items) => match info.kind.item_type() {
                Some(item) => match entries_from_json(
                    items,
                    registry.types[item as int],
                    registry,
                ) {
                    Err(error) => Err(error),
                    Ok(entries) => Ok(
                        ArrayModel { start_fill: Seq::empty(), entries, end_fill: Seq::empty() },
                    ),
                },
                None => Err(
                    ErrorModel::ShapeMismatch {
                        type_path: info.type_path@,
                        json,
                        expected: Expected::ListOrArray,
                    },
                ),
            },
            _ => Err(
                ErrorModel::ShapeMismatch {
                    type_path: info.type_path@,
                    json,
                    expected: Expected::JsonArray,
                },
            ),
        }
    }

    /// The text of the array at a position whose default spacing is
    /// `space`.
    pub open spec fn text(self, space: Seq<u8>) -> Seq<u8>
        decreases self,
    {
        fill_or(self.start_fill, space) + "[".spec_bytes() + entries_text(self.entries)
            + encode_utf8(self.end_fill) + "]".spec_bytes()
    }

    /// The array with all its fill taken away, that of its entries too.
    pub open spec fn without_fill(self) -> ArrayModel
        decreases self,
    {
        ArrayModel {
            start_fill: Seq::empty(),
            entries: Seq::new(
                self.entries.len(),
                |i: int|
                    if 0 <= i < self.entries.len() {
                        self.entries[i].without_fill()
                    } else {
                        self.entries[i]
                    },
            ),
            end_fill: Seq::empty(),
        }
    }

    /// The array after it took the fill of `other`: the start and end fill
    /// of `other`, and each entry recovered from the entry of `other` at the
    /// same place. An entry beyond the end of `other` stays as it is.
    pub open spec fn recovered(self, other: ArrayModel) -> ArrayModel
        decreases self,
    {
        ArrayModel {
            start_fill: other.start_fill,
            entries: Seq::new(
                self.entries.len(),
                |i: int|
                    if 0 <= i < self.entries.len() && i < other.entries.len() {
                        self.entries[i].recovered(other.entries[i])
                    } else {
                        self.entries[i]
                    },
            ),
            end_fill: other.end_fill,
        }
    }
}

impl From<Vec<CafValue>> for CafArray {
    /// The array of `entries`, with no fill of its own.
    fn from(entries: Vec<CafValue>) -> (array: CafArray)
        ensures
            array@ == (ArrayModel {
                start_fill: Seq::empty(),
                entries: value_models(entries@),
                end_fill: Seq::empty(),
            }),
    {
        let array = CafArray { start_fill: CafFill::default(), entries, end_fill: CafFill::default() };
        assert(array@.entries =~= value_models(array.entries@));
        array
    }
}

impl vstd::std_specs::convert::FromSpecImpl<Vec<CafValue>> for CafArray {
    /// What `from` returns is stated over its view.
    open spec fn obeys_from_spec() -> bool {
        false
    }

    open spec fn from_spec(entries: Vec<CafValue>) -> CafArray {
        arbitrary()
    }
}

impl View for CafArray {
    type V = ArrayModel;

    open spec fn view(&self) -> ArrayModel {
        ArrayModel {
            start_fill: self.start_fill@,
            entries: Seq::new(self.entries.len() as nat, |i: int| self.entries[i]@),
            end_fill: self.end_fill@,
        }
    }
}

/// The text of the entries grows by the text of one entry at a time.
pub proof fn lemma_entries_text_step(entries: Seq<ValueModel>, n: int)
    requires
        0 <= n < entries.len(),
    ensures
        entries_text(entries.take(n + 1)) == entries_text(entries.take(n)) + entries[n].text(
            if n == 0 {
                Seq::empty()
            } else {
                " ".spec_bytes()
            },
        ),
{
    let longer = entries.take(n + 1);
    assert(longer.drop_last() =~= entries.take(n));
    assert(longer.last() == entries[n]);
    if n == 0 {
        assert(entries_text(entries.take(0)) =~= Seq::<u8>::empty());
        assert(longer[0] == entries[0]);
        assert(Seq::<u8>::empty() + entries[0].text(Seq::empty()) =~= entries[0].text(
            Seq::empty(),
        ));
    }
}

/// The models of `values`, in order.
pub open spec fn value_models(values: Seq<CafValue>) -> Seq<ValueModel> {
    Seq::new(values.len(), |i: int| values[i]@)
}

/// Once the first `n` entries have no JSON form, the entries have none, for
/// the same reason.
pub proof fn lemma_entries_to_json_error(entries: Seq<ValueModel>, n: int)
    requires
        0 <= n <= entries.len(),
        entries_to_json(entries.take(n)) is Err,
    ensures
        entries_to_json(entries) == entries_to_json(entries.take(n)),
    decreases entries.len(),
{
    if n == entries.len() {
        assert(entries.take(n) =~= entries);
    } else {
        assert(entries.drop_last().take(n) =~= entries.take(n));
        lemma_entries_to_json_error(entries.drop_last(), n);
    }
}

/// Once the first `n` items stand for no values, the items stand for none,
/// for the same reason.
pub proof fn lemma_entries_from_json_error(
    items: Seq<JsonModel>,
    info: TypeInfo,
    registry: TypeRegistry,
    n: int,
)
    requires
        0 <= n <= items.len(),
        entries_from_json(items.take(n), info, registry) is Err,
    ensures
        entries_from_json(items, info, registry) == entries_from_json(
            items.take(n),
            info,
            registry,
        ),
    decreases items.len(),
{
    if n == items.len() {
        assert(items.take(n) =~= items);
    } else {
        assert(items.drop_last().take(n) =~= items.take(n));
        lemma_entries_from_json_error(items.drop_last(), info, registry, n);
    }
}

/// An entry of an array is a smaller value than the array.
pub proof fn lemma_entry_decreases(array: CafArray, i: int)
    requires
        0 <= i < array.entries.len(),
    ensures
        decreases_to!(array => array.entries[i]),
{
    assert(decreases_to!(array => array.entries));
    assert(decreases_to!(array.entries => array.entries[i]));
}

impl CafArray {
    /// Writes the array with no default spacing.
    pub fn write_to(&self, writer: &mut Vec<u8>)
        ensures
            final(writer)@ == old(writer)@ + self@.text(Seq::empty()),
    {
        proof {
            reveal_strlit("");
        }
        self.write_to_with_space(writer, "")
    }

    /// Writes the start fill, or `space` where there is none, then the
    /// entries between brackets, with the end fill before the closing one.
    ///
    /// The first entry follows the opening bracket directly, each later one
    /// follows a space, unless its own fill says otherwise.
    pub fn write_to_with_space(&self, writer: &mut Vec<u8>, space: &str)
        ensures
            final(writer)@ == old(writer)@ + self@.text(space.spec_bytes()),
        decreases self, 0nat,
    {
        let ghost before = writer@;
        let ghost opening = fill_or(self.start_fill@, space.spec_bytes()) + "[".spec_bytes();
        self.start_fill.write_to_or_else(writer, space);
        writer.extend_from_slice("[".as_bytes());
        let mut idx: usize = 0;
        while idx < self.entries.len()
            invariant
                idx <= self.entries.len(),
                writer@ == before + opening + entries_text(self@.entries.take(idx as int)),
            decreases self.entries.len() - idx,
        {
            let entry = &self.entries[idx];
            proof {
                lemma_entry_decreases(*self, idx as int);
                lemma_entries_text_step(self@.entries, idx as int);
                reveal_strlit("");
            }
            if idx == 0 {
                entry.write_to(writer);
            } else {
                entry.write_to_with_space(writer, " ");
            }
            idx += 1;
        }
        assert(self@.entries.take(idx as int) =~= self@.entries);
        self.end_fill.write_to(writer);
        writer.extend_from_slice("]".as_bytes());
    }

    /// The array as JSON: a JSON array of its entries, in order. Fails if an
    /// entry fails, with the error of the first that does.
    pub fn to_json(&self) -> (res: Result<JsonValue, CafError>)
        ensures
            result_view(res) == self@.to_json(),
        decreases self,
    {
        let mut array: Vec<JsonValue> = Vec::with_capacity(self.entries.len());
        let mut idx: usize = 0;
        proof {
            assert(self@.entries.take(0) =~= Seq::<ValueModel>::empty());
            assert(json_models(array@) =~= Seq::<JsonModel>::empty());
        }
        while idx < self.entries.len()
            invariant
                idx <= self.entries.len(),
                entries_to_json(self@.entries.take(idx as int)) == Ok::<_, ErrorModel>(
                    json_models(array@),
                ),
            decreases self.entries.len() - idx,
        {
            let ghost items = json_models(array@);
            proof {
                lemma_entry_decreases(*self, idx as int);
                assert(self@.entries.take(idx + 1).drop_last() =~= self@.entries.take(idx as int));
            }
            match self.entries[idx].to_json() {
                Ok(item) => {
                    array.push(item);
                    assert(json_models(array@) =~= items.push(item@));
                },
                Err(error) => {
                    proof {
                        lemma_entries_to_json_error(self@.entries, idx + 1);
                    }
                    return Err(error);
                },
            }
            idx += 1;
        }
        proof {
            assert(self@.entries.take(idx as int) =~= self@.entries);
            lemma_array_model(array);
        }
        Ok(JsonValue::Array(array))
    }

    /// The array that `val` stands for as a value of the type `type_info`.
    ///
    /// `val` must be an array and `type_info` a list or an array; else the
    /// conversion fails with a shape mismatch that names the path of the
    /// type, the JSON value and what was expected. Each item is converted as
    /// a value of the item type, which the registry must hold. The first
    /// item that fails, fails the array. The result has no fill.
    pub fn from_json(val: &JsonValue, type_info: &TypeInfo, registry: &TypeRegistry) -> (res:
        Result<CafArray, CafError>)
        requires
            registry.is_complete(),
            registry.resolves(type_info),
        ensures
            result_view(res) == ArrayModel::from_json(val@, *type_info, *registry),
        decreases val, 0nat,
    {
        let JsonValue::Array(json_vec) = val else {
            return Err(
                CafError::ShapeMismatch {
                    type_path: type_info.type_path.clone(),
                    json: val.duplicate(),
                    expected: Expected::JsonArray,
                },
            );
        };
        proof {
            lemma_array_model(*json_vec);
        }

        let Some(item) = type_info.item_type() else {
            return Err(
                CafError::ShapeMismatch {
                    type_path: type_info.type_path.clone(),
                    json: val.duplicate(),
                    expected: Expected::ListOrArray,
                },
            );
        };
        let Some(item_info) = registry.get(item) else {
            vstd::pervasive::unreached()
        };
        let mut entries: Vec<CafValue> = Vec::with_capacity(json_vec.len());
        let mut idx: usize = 0;
        proof {
            assert(json_models(json_vec@).take(0) =~= Seq::<JsonModel>::empty());
            assert(value_models(entries@) =~= Seq::<ValueModel>::empty());
        }
        while idx < json_vec.len()
            invariant
                idx <= json_vec.len(),
                registry.is_complete(),
                registry.resolves(item_info),
                val == JsonValue::Array(*json_vec),
                val@ == JsonModel::Array(json_models(json_vec@)),
                type_info.kind.item_type() == Some(item),
                *item_info == registry.types[item as int],
                entries_from_json(json_models(json_vec@).take(idx as int), *item_info, *registry)
                    == Ok::<_, ErrorModel>(value_models(entries@)),
            decreases json_vec.len() - idx,
        {
            let ghost converted = value_models(entries@);
            proof {
                lemma_item_decreases(*val, idx as int);
                assert(json_models(json_vec@).take(idx + 1).drop_last() =~= json_models(
                    json_vec@,
                ).take(idx as int));
            }
            match CafValue::from_json(&json_vec[idx], item_info, registry) {
                Ok(entry) => {
                    entries.push(entry);
                    assert(value_models(entries@) =~= converted.push(entry@));
                },
                Err(error) => {
                    proof {
                        lemma_entries_from_json_error(
                            json_models(json_vec@),
                            *item_info,
                            *registry,
                            idx + 1,
                        );
                    }
                    return Err(error);
                },
            }
            idx += 1;
        }
        assert(json_models(json_vec@).take(idx as int) =~= json_models(json_vec@));
        let array = CafArray { start_fill: CafFill::default(), entries, end_fill: CafFill::default() };
        assert(array@.entries =~= value_models(array.entries@));
        Ok(array)
    }

    /// Takes the fill of `other`: its start fill, for each entry the fill of
    /// the entry of `other` at the same place, and its end fill.
    pub fn recover_fill(&mut self, other: &CafArray)
        ensures
            final(self)@ == old(self)@.recovered(other@),
        decreases *old(self),
    {
        self.start_fill.recover(&other.start_fill);
        let mut idx: usize = 0;
        while idx < self.entries.len() && idx < other.entries.len()
            invariant
                self.entries.len() == old(self).entries.len(),
                idx <= self.entries.len(),
                idx <= other.entries.len(),
                forall|k: int|
                    0 <= k < idx ==> self.entries[k]@ == old(self).entries[k]@.recovered(
                        other.entries[k]@,
                    ),
                forall|k: int| idx <= k < self.entries.len() ==> self.entries[k] == old(self).entries[k],
                self.start_fill@ == other.start_fill@,
                self.end_fill == old(self).end_fill,
            decreases self.entries.len() - idx,
        {
            proof {
                lemma_entry_decreases(*old(self), idx as int);
            }
            self.entries[idx].recover_fill(&other.entries[idx]);
            idx += 1;
        }
        self.end_fill.recover(&other.end_fill);
        assert(self@.entries =~= old(self)@.recovered(other@).entries);
    }
}

} // verus!
