//! JSON values, the interchange form of a document's values.

use vstd::prelude::*;
use crate::caf_number::{CafNumberValue, NumberValueModel};

verus! {

/// A JSON value.
///
/// A number keeps its kind (float, unsigned or signed) and the literal that
/// spells it, so that nothing of it is lost on the way through JSON.
#[derive(Debug, PartialEq)]
pub enum JsonValue {
    Null,
    Bool(bool),
    Number(CafNumberValue),
    String(String),
    Array(Vec<JsonValue>),
    Object(Vec<JsonMember>),
}

/// A member of a JSON object.
#[derive(Debug, PartialEq)]
pub struct JsonMember {
    pub key: String,
    pub value: JsonValue,
}

/// A [`JsonValue`] as a mathematical value.
pub enum JsonModel {
    Null,
    Bool(bool),
    Number(NumberValueModel),
    String(Seq<char>),
    Array(Seq<JsonModel>),
    Object(Seq<(Seq<char>, JsonModel)>),
}

impl JsonValue {
    /// The value as a mathematical value.
    pub open spec fn model(&self) -> JsonModel
        decreases self,
    {
        match self {
            JsonValue::Null => JsonModel::Null,
            JsonValue::Bool(value) => JsonModel::Bool(*value),
            JsonValue::Number(number) => JsonModel::Number(number@),
            JsonValue::String(string) => JsonModel::String(string@),
            JsonValue::Array(items) => JsonModel::Array(
                Seq::new(
                    items.len() as nat,
                    |i: int|
                        if 0 <= i < items.len() {
                            items[i].model()
                        } else {
                            JsonModel::Null
                        },
                ),
            ),
            JsonValue::Object(members) => JsonModel::Object(
                Seq::new(
                    members.len() as nat,
                    |i: int|
                        if 0 <= i < members.len() {
                            (members[i].key@, members[i].value.model())
                        } else {
                            (Seq::empty(), JsonModel::Null)
                        },
                ),
            ),
        }
    }
}

impl View for JsonValue {
    type V = JsonModel;

    open spec fn view(&self) -> JsonModel {
        self.model()
    }
}

/// The models of `items`, in order.
pub open spec fn json_models(items: Seq<JsonValue>) -> Seq<JsonModel> {
    Seq::new(items.len(), |i: int| items[i]@)
}

/// The keys and the models of `members`, in order.
pub open spec fn member_models(members: Seq<JsonMember>) -> Seq<(Seq<char>, JsonModel)> {
    Seq::new(members.len(), |i: int| (members[i].key@, members[i].value@))
}

/// The model of an array is the models of its items.
pub proof fn lemma_array_model(items: Vec<JsonValue>)
    ensures
        JsonValue::Array(items)@ == JsonModel::Array(json_models(items@)),
{
    assert(JsonValue::Array(items).model()->Array_0 =~= json_models(items@));
}

/// The model of an object is the keys and models of its members.
pub proof fn lemma_object_model(members: Vec<JsonMember>)
    ensures
        JsonValue::Object(members)@ == JsonModel::Object(member_models(members@)),
{
    assert(JsonValue::Object(members).model()->Object_0 =~= member_models(members@));
}

/// An item of an array is a smaller value than the array.
pub proof fn lemma_item_decreases(value: JsonValue, i: int)
    requires
        value is Array,
        0 <= i < value->Array_0.len(),
    ensures
        decreases_to!(value => value->Array_0[i]),
{
    assert(decreases_to!(value => value->Array_0));
    assert(decreases_to!(value->Array_0 => value->Array_0[i]));
}

/// The value of a member of an object is a smaller value than the object.
pub proof fn lemma_member_decreases(value: JsonValue, i: int)
    requires
        value is Object,
        0 <= i < value->Object_0.len(),
    ensures
        decreases_to!(value => value->Object_0[i].value),
{
    assert(decreases_to!(value => value->Object_0));
    assert(decreases_to!(value->Object_0 => value->Object_0[i]));
    assert(decreases_to!(value->Object_0[i] => value->Object_0[i].value));
}

impl JsonValue {
    /// A copy of the value.
    pub fn duplicate(&self) -> (copy: JsonValue)
        ensures
            copy@ == self@,
        decreases self,
    {
        match self {
            JsonValue::Null => JsonValue::Null,
            JsonValue::Bool(value) => JsonValue::Bool(*value),
            JsonValue::Number(number) => JsonValue::Number(number.duplicate()),
            JsonValue::String(string) => JsonValue::String(string.clone()),
            JsonValue::Array(items) => {
                let mut copies: Vec<JsonValue> = Vec::new();
                let mut i: usize = 0;
                while i < items.len()
                    invariant
                        i <= items.len(),
                        copies.len() == i,
                        forall|k: int| 0 <= k < i ==> copies[k]@ == items[k]@,
                        self == JsonValue::Array(*items),
                    decreases items.len() - i,
                {
                    proof {
                        lemma_item_decreases(*self, i as int);
                    }
                    copies.push(items[i].duplicate());
                    i += 1;
                }
                proof {
                    lemma_array_model(*items);
                    lemma_array_model(copies);
                    assert(json_models(copies@) =~= json_models(items@));
                }
                JsonValue::Array(copies)
            },
            JsonValue::Object(members) => {
                let mut copies: Vec<JsonMember> = Vec::new();
                let mut i: usize = 0;
                while i < members.len()
                    invariant
                        i <= members.len(),
                        copies.len() == i,
                        forall|k: int|
                            0 <= k < i ==> copies[k].key@ == members[k].key@ && copies[k].value@
                                == members[k].value@,
                        self == JsonValue::Object(*members),
                    decreases members.len() - i,
                {
                    let member = &members[i];
                    proof {
                        lemma_member_decreases(*self, i as int);
                    }
                    copies.push(
                        JsonMember { key: member.key.clone(), value: member.value.duplicate() },
                    );
                    i += 1;
                }
                proof {
                    lemma_object_model(*members);
                    lemma_object_model(copies);
                    assert(member_models(copies@) =~= member_models(members@));
                }
                JsonValue::Object(copies)
            },
        }
    }
}

} // verus!
