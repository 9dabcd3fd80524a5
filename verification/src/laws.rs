//! The laws the library obeys, stated over the models that the contracts
//! use and proved once and for all.

use vstd::prelude::*;
use crate::value::{JsonModel, FloatBits};
use crate::error::ErrorModel;
use crate::render::{spec_render, spec_render_int};
use crate::decode::{FromJson, ToJson, spec_decode_seq};
use crate::object::{spec_lookup, spec_write};

verus! {

/// Round trip: decoding the encoding of a signed number yields it back.
pub proof fn lemma_round_trip_i64(v: i64)
    ensures
        <i64 as FromJson>::spec_from_json(<i64 as ToJson>::spec_to_json(v)) == Ok::<
            i64,
            ErrorModel,
        >(v),
{
}

/// Round trip: decoding the encoding of an unsigned number yields it back.
pub proof fn lemma_round_trip_u64(v: u64)
    ensures
        <u64 as FromJson>::spec_from_json(<u64 as ToJson>::spec_to_json(v)) == Ok::<
            u64,
            ErrorModel,
        >(v),
{
}

/// Round trip: decoding the encoding of a boolean yields it back.
pub proof fn lemma_round_trip_bool(v: bool)
    ensures
        <bool as FromJson>::spec_from_json(<bool as ToJson>::spec_to_json(v)) == Ok::<
            bool,
            ErrorModel,
        >(v),
{
}

/// Round trip: decoding the encoding of a string yields it back.
pub proof fn lemma_round_trip_string(s: Seq<char>)
    ensures
        <String as FromJson>::spec_from_json(<String as ToJson>::spec_to_json(s)) == Ok::<
            Seq<char>,
            ErrorModel,
        >(s),
{
}

/// Round trip: decoding the encoding of a floating number yields it back.
pub proof fn lemma_round_trip_float(v: (u64, Seq<char>))
    ensures
        <FloatBits as FromJson>::spec_from_json(<FloatBits as ToJson>::spec_to_json(v)) == Ok::<
            (u64, Seq<char>),
            ErrorModel,
        >(v),
{
}

/// Decoding an array whose elements are the encodings of `xs` yields `xs`,
/// element by element, in order.
proof fn lemma_decode_encoded_seq<T: FromJson + ToJson>(xs: Seq<T::V>, ms: Seq<JsonModel>)
    requires
        forall|x: T::V| #[trigger] T::spec_from_json(T::spec_to_json(x)) == Ok::<T::V, ErrorModel>(
            x,
        ),
        ms.len() == xs.len(),
        forall|k: int| 0 <= k < xs.len() ==> ms[k] == T::spec_to_json(xs[k]),
    ensures
        spec_decode_seq::<T>(ms) == Ok::<Seq<T::V>, ErrorModel>(xs),
    decreases ms,
{
    if ms.len() == 0 {
        assert(xs =~= Seq::<T::V>::empty());
    } else {
        assert(forall|k: int|
            0 <= k < xs.drop_first().len() ==> xs.drop_first()[k] == xs[k + 1]);
        assert(forall|k: int|
            0 <= k < ms.drop_first().len() ==> ms.drop_first()[k] == ms[k + 1]);
        lemma_decode_encoded_seq::<T>(xs.drop_first(), ms.drop_first());
        assert(seq![xs.first()] + xs.drop_first() =~= xs);
    }
}

/// Round trip for sequences: when the element type round-trips, decoding
/// the encoding of any sequence yields the sequence unchanged, with
/// identical order and length.
pub proof fn lemma_round_trip_seq<T: FromJson + ToJson>(xs: Seq<T::V>)
    requires
        forall|x: T::V| #[trigger] T::spec_from_json(T::spec_to_json(x)) == Ok::<T::V, ErrorModel>(
            x,
        ),
    ensures
        <Vec<T> as FromJson>::spec_from_json(<Vec<T> as ToJson>::spec_to_json(xs)) == Ok::<
            Seq<T::V>,
            ErrorModel,
        >(xs),
{
    let ms = Seq::new(xs.len(), |k: int| T::spec_to_json(xs[k]));
    lemma_decode_encoded_seq::<T>(xs, ms);
}

/// Round trip for optionals: when the element type round-trips and never
/// encodes to the null node, decoding the encoding of an optional value
/// yields it back. ("No value" encodes as null, so an element encoding
/// that were itself null could not be told apart from it.)
pub proof fn lemma_round_trip_option<T: FromJson + ToJson>(x: Option<T::V>)
    requires
        forall|y: T::V| #[trigger] T::spec_from_json(T::spec_to_json(y)) == Ok::<T::V, ErrorModel>(
            y,
        ),
        forall|y: T::V| !(#[trigger] T::spec_to_json(y) is Null),
    ensures
        <Option<T> as FromJson>::spec_from_json(<Option<T> as ToJson>::spec_to_json(x)) == Ok::<
            Option<T::V>,
            ErrorModel,
        >(x),
{
}

/// Decoding the null node as any required scalar type fails with a type
/// mismatch naming the requested type and rendering the node as `null`.
pub proof fn lemma_null_scalar_mismatch()
    ensures
        <i64 as FromJson>::spec_from_json(JsonModel::Null) == Err::<i64, ErrorModel>(
            ErrorModel::Expected("i64"@, "null"@),
        ),
        <u64 as FromJson>::spec_from_json(JsonModel::Null) == Err::<u64, ErrorModel>(
            ErrorModel::Expected("u64"@, "null"@),
        ),
        <bool as FromJson>::spec_from_json(JsonModel::Null) == Err::<bool, ErrorModel>(
            ErrorModel::Expected("bool"@, "null"@),
        ),
        <String as FromJson>::spec_from_json(JsonModel::Null) == Err::<Seq<char>, ErrorModel>(
            ErrorModel::Expected("String"@, "null"@),
        ),
        <FloatBits as FromJson>::spec_from_json(JsonModel::Null) == Err::<
            (u64, Seq<char>),
            ErrorModel,
        >(ErrorModel::Expected("f64"@, "null"@)),
{
    reveal_strlit("null");
    assert(spec_render(JsonModel::Null) =~= "null"@);
    assert(ErrorModel::Expected("i64"@, spec_render(JsonModel::Null)) =~= ErrorModel::Expected(
        "i64"@,
        "null"@,
    ));
    assert(ErrorModel::Expected("u64"@, spec_render(JsonModel::Null)) =~= ErrorModel::Expected(
        "u64"@,
        "null"@,
    ));
    assert(ErrorModel::Expected("bool"@, spec_render(JsonModel::Null)) =~= ErrorModel::Expected(
        "bool"@,
        "null"@,
    ));
    assert(ErrorModel::Expected("String"@, spec_render(JsonModel::Null)) =~= ErrorModel::Expected(
        "String"@,
        "null"@,
    ));
    assert(ErrorModel::Expected("f64"@, spec_render(JsonModel::Null)) =~= ErrorModel::Expected(
        "f64"@,
        "null"@,
    ));
}

/// Decoding a negative number node as unsigned fails with a type mismatch
/// carrying the decimal rendering of the negative value: the numeric domain
/// is checked, not just the node's kind.
pub proof fn lemma_negative_as_unsigned(n: i64)
    requires
        n < 0,
    ensures
        <u64 as FromJson>::spec_from_json(JsonModel::I64(n)) == Err::<u64, ErrorModel>(
            ErrorModel::Expected("u64"@, spec_render_int(n as int)),
        ),
{
}

/// Decoding a non-array node as a sequence fails with a type mismatch
/// naming `Array` and rendering the node that was found.
pub proof fn lemma_non_array_as_seq<T: FromJson>(m: JsonModel)
    requires
        !(m is Array),
    ensures
        <Vec<T> as FromJson>::spec_from_json(m) == Err::<Seq<T::V>, ErrorModel>(
            ErrorModel::Expected("Array"@, spec_render(m)),
        ),
{
}

/// After writing a value under a key, looking that key up finds the value.
pub proof fn lemma_write_then_lookup(
    es: Seq<(Seq<char>, JsonModel)>,
    key: Seq<char>,
    v: JsonModel,
)
    ensures
        spec_lookup(spec_write(es, key, v), key) == Some(v),
    decreases es,
{
    if es.len() == 0 {
    } else if es.first().0 == key {
        assert((seq![(key, v)] + es.drop_first()).first() == (key, v));
    } else {
        lemma_write_then_lookup(es.drop_first(), key, v);
        let w = seq![es.first()] + spec_write(es.drop_first(), key, v);
        assert(w.first() == es.first());
        assert(w.drop_first() =~= spec_write(es.drop_first(), key, v));
    }
}

/// Writing an item under a key and decoding what a lookup of that key finds
/// yields the item back, for any type that round-trips.
pub proof fn lemma_write_then_read<T: FromJson + ToJson>(
    es: Seq<(Seq<char>, JsonModel)>,
    key: Seq<char>,
    x: T::V,
)
    requires
        forall|y: T::V| #[trigger] T::spec_from_json(T::spec_to_json(y)) == Ok::<T::V, ErrorModel>(
            y,
        ),
    ensures
        spec_lookup(spec_write(es, key, T::spec_to_json(x)), key) is Some,
        T::spec_from_json(spec_lookup(spec_write(es, key, T::spec_to_json(x)), key).unwrap())
            == Ok::<T::V, ErrorModel>(x),
{
    lemma_write_then_lookup(es, key, T::spec_to_json(x));
}

} // verus!
