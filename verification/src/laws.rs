//! Laws that relate the operations on values to one another.

use vstd::prelude::*;
use vstd::string::*;
use vstd::utf8::encode_utf8;
use crate::caf_array::{entries_from_json, entries_to_json, ArrayModel};
use crate::caf_fill::fill_or;
use crate::caf_manifest::{manifest_tag, section_spacing, ManifestModel, ManifestParse};
use crate::caf_number::NumberModel;
use crate::caf_value::ValueModel;
use crate::error::{ErrorModel, Expected};
use crate::escape::{escaped, escaped_byte};
use crate::json::JsonModel;
use crate::schema::{TypeInfo, TypeRegistry};

verus! {

/// Recovering fill from an identical value changes nothing.
pub proof fn lemma_recover_from_same(value: ValueModel)
    ensures
        value.recovered(value) == value,
    decreases value,
{
    match value {
        ValueModel::Array(array) => {
            assert forall|i: int| 0 <= i < array.entries.len() implies array.entries[i].recovered(
                array.entries[i],
            ) == array.entries[i] by {
                lemma_recover_from_same(array.entries[i]);
            }
            assert(array.recovered(array).entries =~= array.entries);
        },
        _ => {},
    }
}

/// Recovering fill replaces fill and does not merge it: from a value that
/// differs from this one in nothing but fill, recovering gives that value.
pub proof fn lemma_recover_replaces(value: ValueModel, other: ValueModel)
    requires
        value.without_fill() == other.without_fill(),
    ensures
        value.recovered(other) == other,
    decreases value,
{
    match (value, other) {
        (ValueModel::Array(array), ValueModel::Array(o)) => {
            assert(array.without_fill().entries.len() == o.without_fill().entries.len());
            assert forall|i: int| 0 <= i < array.entries.len() implies array.entries[i].recovered(
                o.entries[i],
            ) == o.entries[i] by {
                assert(array.without_fill().entries[i] == o.without_fill().entries[i]);
                lemma_recover_replaces(array.entries[i], o.entries[i]);
            }
            assert(array.recovered(o).entries =~= o.entries);
        },
        _ => {},
    }
}

/// Recovering fill changes nothing but fill.
pub proof fn lemma_recover_keeps_payload(value: ValueModel, other: ValueModel)
    ensures
        value.recovered(other).without_fill() == value.without_fill(),
    decreases value,
{
    match (value, other) {
        (ValueModel::Array(array), ValueModel::Array(o)) => {
            let recovered = array.recovered(o);
            assert forall|i: int| 0 <= i < array.entries.len() implies recovered.entries[i]
                .without_fill() == array.entries[i].without_fill() by {
                if i < o.entries.len() {
                    lemma_recover_keeps_payload(array.entries[i], o.entries[i]);
                }
            }
            assert(recovered.without_fill().entries =~= array.without_fill().entries);
        },
        _ => {},
    }
}

/// Recovering fill from the same value a second time changes nothing.
pub proof fn lemma_recover_twice(value: ValueModel, other: ValueModel)
    ensures
        value.recovered(other).recovered(other) == value.recovered(other),
    decreases value,
{
    match (value, other) {
        (ValueModel::Array(array), ValueModel::Array(o)) => {
            let once = array.recovered(o);
            assert forall|i: int| 0 <= i < array.entries.len() && i < o.entries.len() implies once
                .entries[i].recovered(o.entries[i]) == once.entries[i] by {
                lemma_recover_twice(array.entries[i], o.entries[i]);
            }
            assert(once.recovered(o).entries =~= once.entries);
        },
        _ => {},
    }
}

/// What a value is as JSON does not depend on its fill.
pub proof fn lemma_to_json_ignores_fill(value: ValueModel)
    ensures
        value.without_fill().to_json() == value.to_json(),
    decreases value, 1nat,
{
    match value {
        ValueModel::Array(array) => {
            lemma_entries_to_json_ignores_fill(array.entries);
            assert(array.without_fill().entries =~= Seq::new(
                array.entries.len(),
                |i: int| array.entries[i].without_fill(),
            ));
        },
        _ => {},
    }
}

/// What the entries of an array are as JSON does not depend on their fill.
pub proof fn lemma_entries_to_json_ignores_fill(entries: Seq<ValueModel>)
    ensures
        entries_to_json(Seq::new(entries.len(), |i: int| entries[i].without_fill()))
            == entries_to_json(entries),
    decreases entries, 0nat,
{
    let bare = Seq::new(entries.len(), |i: int| entries[i].without_fill());
    if entries.len() > 0 {
        let front = entries.drop_last();
        lemma_entries_to_json_ignores_fill(front);
        lemma_to_json_ignores_fill(entries.last());
        assert(bare.drop_last() =~= Seq::new(front.len(), |i: int| front[i].without_fill()));
    }
}

/// Recovering fill does not change what a value is as JSON.
pub proof fn lemma_recover_keeps_json(value: ValueModel, other: ValueModel)
    ensures
        value.recovered(other).to_json() == value.to_json(),
{
    lemma_recover_keeps_payload(value, other);
    lemma_to_json_ignores_fill(value);
    lemma_to_json_ignores_fill(value.recovered(other));
}

/// A value made from JSON gives back that JSON, and has no fill.
pub proof fn lemma_json_round_trip(json: JsonModel, info: TypeInfo, registry: TypeRegistry)
    requires
        ValueModel::from_json(json, info, registry) is Ok,
    ensures
        ValueModel::from_json(json, info, registry)->Ok_0.to_json() == Ok::<_, ErrorModel>(json),
        ValueModel::from_json(json, info, registry)->Ok_0.without_fill() == ValueModel::from_json(
            json,
            info,
            registry,
        )->Ok_0,
    decreases json, 1nat,
{
    match json {
        JsonModel::Array(items) => {
            let item_info = registry.types[info.kind.item_type()->Some_0 as int];
            lemma_entries_round_trip(items, item_info, registry);
            let array = ArrayModel::from_json(json, info, registry)->Ok_0;
            assert(array.without_fill().entries =~= array.entries);
        },
        _ => {},
    }
}

/// Values made from JSON items give back those items, and have no fill.
pub proof fn lemma_entries_round_trip(items: Seq<JsonModel>, info: TypeInfo, registry: TypeRegistry)
    requires
        entries_from_json(items, info, registry) is Ok,
    ensures
        entries_to_json(entries_from_json(items, info, registry)->Ok_0) == Ok::<_, ErrorModel>(
            items,
        ),
        entries_from_json(items, info, registry)->Ok_0.len() == items.len(),
        forall|i: int|
            0 <= i < items.len() ==> (#[trigger] entries_from_json(
                items,
                info,
                registry,
            )->Ok_0[i]).without_fill() == entries_from_json(items, info, registry)->Ok_0[i],
    decreases items, 0nat,
{
    if items.len() > 0 {
        let front = items.drop_last();
        lemma_entries_round_trip(front, info, registry);
        lemma_json_round_trip(items.last(), info, registry);
        let entries = entries_from_json(items, info, registry)->Ok_0;
        let front_entries = entries_from_json(front, info, registry)->Ok_0;
        assert(entries.drop_last() =~= front_entries);
        assert(items =~= front.push(items.last()));
    } else {
        assert(items =~= Seq::<JsonModel>::empty());
    }
}

/// A JSON value that is no array stands for no array, whatever the type: the
/// conversion fails with a shape mismatch that names the type, the value and
/// that an array was expected.
pub proof fn lemma_array_needs_json_array(json: JsonModel, info: TypeInfo, registry: TypeRegistry)
    requires
        !(json is Array),
    ensures
        ArrayModel::from_json(json, info, registry) == Err::<ArrayModel, _>(
            ErrorModel::ShapeMismatch {
                type_path: info.type_path@,
                json,
                expected: Expected::JsonArray,
            },
        ),
{
}

/// A type that is neither a list nor an array has no arrays: the conversion
/// of a JSON array fails with a shape mismatch that names the type, the
/// value and that a list or an array was expected.
pub proof fn lemma_array_needs_list_or_array(json: JsonModel, info: TypeInfo, registry: TypeRegistry)
    requires
        json is Array,
        info.kind.item_type() is None,
    ensures
        ArrayModel::from_json(json, info, registry) == Err::<ArrayModel, _>(
            ErrorModel::ShapeMismatch {
                type_path: info.type_path@,
                json,
                expected: Expected::ListOrArray,
            },
        ),
{
}

/// A string of the single byte `byte` is written as the escape sequence of
/// `byte`, where it has one, and as `byte` itself otherwise. It has one
/// exactly if it is a control character, a double quote or a backslash.
pub proof fn lemma_escaped_single(byte: u8)
    ensures
        escaped(seq![byte]) == escaped_byte(byte),
        byte >= 0x20 && byte != 0x22 && byte != 0x5C ==> escaped(seq![byte]) == seq![byte],
        byte < 0x20 || byte == 0x22 || byte == 0x5C ==> escaped(seq![byte]).len() >= 2 && escaped(
            seq![byte],
        )[0] == 0x5C,
{
    reveal_with_fuel(escaped, 2);
    assert(seq![byte].drop_last() =~= Seq::<u8>::empty());
    assert(Seq::<u8>::empty() + escaped_byte(byte) =~= escaped_byte(byte));
}

/// Parsing a manifest and writing it back, followed by what parsing left,
/// gives the text that was parsed: the fill and the content after it. Where
/// the fill is empty, the default spacing of the section stands for it, which
/// is empty too in front of the first section.
pub proof fn lemma_manifest_round_trip(content: Seq<u8>, fill: Seq<char>, first_section: bool)
    requires
        ManifestModel::parse(content, fill).manifest is Some,
    ensures
        ({
            let parsed = ManifestModel::parse(content, fill);
            parsed.manifest->Some_0.text(first_section) + encode_utf8(parsed.fill)
                + parsed.remaining
        }) == fill_or(fill, section_spacing(first_section)) + content,
        fill.len() > 0 || first_section ==> ({
            let parsed = ManifestModel::parse(content, fill);
            parsed.manifest->Some_0.text(first_section) + encode_utf8(parsed.fill)
                + parsed.remaining
        }) == encode_utf8(fill) + content,
{
    let parsed = ManifestModel::parse(content, fill);
    let tag = manifest_tag();
    let written = parsed.manifest->Some_0.text(first_section) + encode_utf8(parsed.fill)
        + parsed.remaining;
    assert(content =~= tag + content.skip(tag.len() as int));
    assert(written =~= fill_or(fill, section_spacing(first_section)) + content);
    if fill.len() == 0 && first_section {
        reveal_strlit("");
        assert(fill =~= Seq::<char>::empty());
        assert(fill_or(fill, section_spacing(first_section)) =~= encode_utf8(fill));
    }
}

/// Where the content does not start with the tag of the manifest, parsing
/// finds no manifest and leaves the fill and the content as they were.
pub proof fn lemma_no_manifest_consumes_nothing(content: Seq<u8>, fill: Seq<char>)
    requires
        !manifest_tag().is_prefix_of(content),
    ensures
        ManifestModel::parse(content, fill) == (ManifestParse {
            manifest: None,
            fill,
            remaining: content,
        }),
{
}

} // verus!
