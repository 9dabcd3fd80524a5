//! The JSON node type and its mathematical model.

use vstd::prelude::*;

verus! {

broadcast use vstd::std_specs::vec::group_vec_axioms;

/// A floating-point JSON number, held as its IEEE-754 bit pattern together
/// with its canonical JSON text (the text a serializer would print for it).
/// The crate never computes with the number itself; it stores it, compares
/// it by bits, and renders it by its text.
#[derive(Debug, Clone, PartialEq)]
pub struct FloatBits {
    pub bits: u64,
    pub text: String,
}

/// A JSON object: string keys mapped to nodes, kept in insertion order.
/// Lookup finds the first entry with a matching key; writing replaces the
/// first matching entry in place, so keys written through
/// [`crate::object::JsonMap`] stay unique.
#[derive(Debug, PartialEq)]
pub struct Object {
    pub entries: Vec<(String, Json)>,
}

/// One JSON document fragment: a tagged union over null, booleans, numbers
/// (signed, unsigned, or floating), strings, arrays and objects.
#[derive(Debug, PartialEq)]
pub enum Json {
    Null,
    Boolean(bool),
    I64(i64),
    U64(u64),
    Float(FloatBits),
    Text(String),
    Array(Vec<Json>),
    Object(Object),
}

/// The mathematical model of a JSON node: the same tree over `Seq` and
/// primitive values. Contracts throughout the crate speak of this model.
#[verifier::ext_equal]
pub ghost enum JsonModel {
    Null,
    Boolean(bool),
    I64(i64),
    U64(u64),
    Float(u64, Seq<char>),
    Text(Seq<char>),
    Array(Seq<JsonModel>),
    Object(Seq<(Seq<char>, JsonModel)>),
}

impl DeepView for FloatBits {
    type V = (u64, Seq<char>);

    open spec fn deep_view(&self) -> (u64, Seq<char>) {
        (self.bits, self.text@)
    }
}

/// The model of a JSON node.
pub open spec fn view_json(j: Json) -> JsonModel
    decreases j,
{
    match j {
        Json::Null => JsonModel::Null,
        Json::Boolean(b) => JsonModel::Boolean(b),
        Json::I64(n) => JsonModel::I64(n),
        Json::U64(n) => JsonModel::U64(n),
        Json::Float(f) => JsonModel::Float(f.bits, f.text@),
        Json::Text(s) => JsonModel::Text(s@),
        Json::Array(items) => JsonModel::Array(view_json_seq(items@)),
        Json::Object(o) => JsonModel::Object(view_entry_seq(o.entries@)),
    }
}

/// The models of the elements of an array, in order.
pub open spec fn view_json_seq(s: Seq<Json>) -> Seq<JsonModel>
    decreases s,
{
    if s.len() == 0 {
        Seq::empty()
    } else {
        view_json_seq(s.drop_last()).push(view_json(s.last()))
    }
}

/// The models of the entries of an object, in order.
pub open spec fn view_entry_seq(s: Seq<(String, Json)>) -> Seq<(Seq<char>, JsonModel)>
    decreases s,
{
    if s.len() == 0 {
        Seq::empty()
    } else {
        view_entry_seq(s.drop_last()).push((s.last().0@, view_json(s.last().1)))
    }
}

/// An array's element models are exactly as many as its elements.
pub broadcast proof fn lemma_view_json_seq_len(s: Seq<Json>)
    ensures
        (#[trigger] view_json_seq(s)).len() == s.len(),
    decreases s,
{
    if s.len() > 0 {
        lemma_view_json_seq_len(s.drop_last());
    }
}

/// An array's element models are the models of its elements, in order.
pub broadcast proof fn lemma_view_json_seq_index(s: Seq<Json>, i: int)
    requires
        0 <= i < s.len(),
    ensures
        #[trigger] view_json_seq(s)[i] == view_json(s[i]),
    decreases s,
{
    lemma_view_json_seq_len(s.drop_last());
    if i < s.len() - 1 {
        lemma_view_json_seq_index(s.drop_last(), i);
        assert(s.drop_last()[i] == s[i]);
    }
}

/// An object's entry models are exactly as many as its entries.
pub broadcast proof fn lemma_view_entry_seq_len(s: Seq<(String, Json)>)
    ensures
        (#[trigger] view_entry_seq(s)).len() == s.len(),
    decreases s,
{
    if s.len() > 0 {
        lemma_view_entry_seq_len(s.drop_last());
    }
}

/// An object's entry models are the models of its entries, in order.
pub broadcast proof fn lemma_view_entry_seq_index(s: Seq<(String, Json)>, i: int)
    requires
        0 <= i < s.len(),
    ensures
        #[trigger] view_entry_seq(s)[i] == (s[i].0@, view_json(s[i].1)),
    decreases s,
{
    lemma_view_entry_seq_len(s.drop_last());
    if i < s.len() - 1 {
        lemma_view_entry_seq_index(s.drop_last(), i);
        assert(s.drop_last()[i] == s[i]);
    }
}

impl View for Json {
    type V = JsonModel;

    open spec fn view(&self) -> JsonModel {
        view_json(*self)
    }
}

impl DeepView for Json {
    type V = JsonModel;

    open spec fn deep_view(&self) -> JsonModel {
        view_json(*self)
    }
}

impl DeepView for Object {
    type V = Seq<(Seq<char>, JsonModel)>;

    open spec fn deep_view(&self) -> Seq<(Seq<char>, JsonModel)> {
        view_entry_seq(self.entries@)
    }
}

impl View for Object {
    type V = Seq<(Seq<char>, JsonModel)>;

    open spec fn view(&self) -> Seq<(Seq<char>, JsonModel)> {
        view_entry_seq(self.entries@)
    }
}

} // verus!
