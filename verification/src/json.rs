//! JSON values, as far as rendering reads them.
use vstd::prelude::*;

verus! {

/// A JSON value. A number is kept as its text.
#[derive(Debug, PartialEq, Eq)]
pub enum JsonValue {
    Null,
    Bool(bool),
    Number(String),
    String(String),
    Array(Vec<JsonValue>),
    Object(Vec<JsonEntry>),
}

/// One member of a JSON object.
#[derive(Debug, PartialEq, Eq)]
pub struct JsonEntry {
    pub key: String,
    pub value: JsonValue,
}

/// A `JsonValue` as a mathematical value.
pub enum JsonView {
    Null,
    Bool(bool),
    Number(Seq<char>),
    String(Seq<char>),
    Array(Seq<JsonView>),
    Object(Seq<JsonEntryView>),
}

/// A `JsonEntry` as a mathematical value.
pub struct JsonEntryView {
    pub key: Seq<char>,
    pub value: JsonView,
}

impl View for JsonValue {
    type V = JsonView;

    open spec fn view(&self) -> JsonView
        decreases self,
    {
        match self {
            JsonValue::Null => JsonView::Null,
            JsonValue::Bool(b) => JsonView::Bool(*b),
            JsonValue::Number(text) => JsonView::Number(text@),
            JsonValue::String(text) => JsonView::String(text@),
            JsonValue::Array(items) => JsonView::Array(
                Seq::new(
                    items@.len(),
                    |i: int|
                        if 0 <= i < items@.len() {
                            items@[i].view()
                        } else {
                            JsonView::Null
                        },
                ),
            ),
            JsonValue::Object(entries) => JsonView::Object(
                Seq::new(
                    entries@.len(),
                    |i: int|
                        JsonEntryView {
                            key: entries@[i].key@,
                            value: if 0 <= i < entries@.len() {
                                entries@[i].value.view()
                            } else {
                                JsonView::Null
                            },
                        },
                ),
            ),
        }
    }
}

impl View for JsonEntry {
    type V = JsonEntryView;

    open spec fn view(&self) -> JsonEntryView {
        JsonEntryView { key: self.key@, value: self.value@ }
    }
}

/// The views of the values of `items`, in order.
pub open spec fn json_views(items: Seq<JsonValue>) -> Seq<JsonView> {
    items.map_values(|v: JsonValue| v@)
}

/// The views of the members of `entries`, in order.
pub open spec fn entry_views(entries: Seq<JsonEntry>) -> Seq<JsonEntryView> {
    entries.map_values(|e: JsonEntry| e@)
}

/// The view of an array is the sequence of the views of its items.
pub proof fn lemma_array_view(items: Vec<JsonValue>)
    ensures
        JsonValue::Array(items)@ == JsonView::Array(json_views(items@)),
{
    assert(JsonValue::Array(items)@->Array_0 =~= json_views(items@));
}

/// The view of an object is the sequence of the views of its members.
pub proof fn lemma_object_view(entries: Vec<JsonEntry>)
    ensures
        JsonValue::Object(entries)@ == JsonView::Object(entry_views(entries@)),
{
    assert(JsonValue::Object(entries)@->Object_0 =~= entry_views(entries@));
}

impl Clone for JsonValue {
    #[verifier::loop_isolation(false)]
    fn clone(&self) -> (r: Self)
        ensures
            r@ == self@,
        decreases self,
    {
        match self {
            JsonValue::Null => JsonValue::Null,
            JsonValue::Bool(b) => JsonValue::Bool(*b),
            JsonValue::Number(text) => JsonValue::Number(text.clone()),
            JsonValue::String(text) => JsonValue::String(text.clone()),
            JsonValue::Array(items) => {
                let mut copy: Vec<JsonValue> = Vec::new();
                let mut i: usize = 0;
                while i < items.len()
                    invariant
                        i <= items.len(),
                        copy.len() == i,
                        forall|k: int| 0 <= k < i ==> copy@[k]@ == items@[k]@,
                    decreases items.len() - i,
                {
                    proof {
                        broadcast use vstd::std_specs::vec::axiom_vec_index_decreases;

                        assert(decreases_to!(items => items[i as int]));
                    }
                    copy.push(items[i].clone());
                    i += 1;
                }
                proof {
                    lemma_array_view(copy);
                    lemma_array_view(*items);
                    assert(json_views(copy@) =~= json_views(items@));
                }
                JsonValue::Array(copy)
            },
            JsonValue::Object(entries) => {
                let mut copy: Vec<JsonEntry> = Vec::new();
                let mut i: usize = 0;
                while i < entries.len()
                    invariant
                        i <= entries.len(),
                        copy.len() == i,
                        forall|k: int| 0 <= k < i ==> copy@[k]@ == entries@[k]@,
                    decreases entries.len() - i,
                {
                    proof {
                        broadcast use vstd::std_specs::vec::axiom_vec_index_decreases;

                        assert(decreases_to!(entries => entries[i as int]));
                    }
                    let entry = &entries[i];
                    copy.push(JsonEntry { key: entry.key.clone(), value: entry.value.clone() });
                    i += 1;
                }
                proof {
                    lemma_object_view(copy);
                    lemma_object_view(*entries);
                    assert(entry_views(copy@) =~= entry_views(entries@));
                }
                JsonValue::Object(copy)
            },
        }
    }
}

impl Clone for JsonEntry {
    fn clone(&self) -> (r: Self)
        ensures
            r@ == self@,
    {
        JsonEntry { key: self.key.clone(), value: self.value.clone() }
    }
}

/// A copy of `entries`.
pub fn clone_entries(entries: &Vec<JsonEntry>) -> (copy: Vec<JsonEntry>)
    ensures
        entry_views(copy@) == entry_views(entries@),
{
    let mut copy: Vec<JsonEntry> = Vec::new();
    let mut i: usize = 0;
    while i < entries.len()
        invariant
            i <= entries.len(),
            copy.len() == i,
            forall|k: int| 0 <= k < i ==> copy@[k]@ == entries@[k]@,
        decreases entries.len() - i,
    {
        copy.push(entries[i].clone());
        i += 1;
    }
    assert(entry_views(copy@) =~= entry_views(entries@));
    copy
}

} // verus!
