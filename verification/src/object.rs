//! The object accessor: locating, decoding and writing fields of an
//! object-shaped node, and building fresh object nodes.

use vstd::prelude::*;
use vstd::string::StringExecFns;
use crate::value::{Json, JsonModel, Object};
use crate::value::{lemma_view_entry_seq_len, lemma_view_entry_seq_index};
use crate::error::{DecoderError, ErrorModel, expected};
use crate::render::spec_render;
use crate::decode::{FromJson, ToJson, decode_matches};

verus! {

broadcast use
    vstd::std_specs::vec::group_vec_axioms,
    lemma_view_entry_seq_len,
    lemma_view_entry_seq_index,
;

/// The value mapped to `key`: the first entry with a matching key, if any.
pub open spec fn spec_lookup(
    entries: Seq<(Seq<char>, JsonModel)>,
    key: Seq<char>,
) -> Option<JsonModel>
    decreases entries,
{
    if entries.len() == 0 {
        None
    } else if entries.first().0 == key {
        Some(entries.first().1)
    } else {
        spec_lookup(entries.drop_first(), key)
    }
}

/// The entries after writing `v` under `key`: the first entry with a
/// matching key is replaced in place; with no such entry, a new one is
/// appended.
pub open spec fn spec_write(
    entries: Seq<(Seq<char>, JsonModel)>,
    key: Seq<char>,
    v: JsonModel,
) -> Seq<(Seq<char>, JsonModel)>
    decreases entries,
{
    if entries.len() == 0 {
        seq![(key, v)]
    } else if entries.first().0 == key {
        seq![(key, v)] + entries.drop_first()
    } else {
        seq![entries.first()] + spec_write(entries.drop_first(), key, v)
    }
}

/// Writing where the first matching key stands at `i` replaces that entry.
proof fn lemma_spec_write_found(
    es: Seq<(Seq<char>, JsonModel)>,
    key: Seq<char>,
    v: JsonModel,
    i: int,
)
    requires
        0 <= i < es.len(),
        es[i].0 == key,
        forall|k: int| 0 <= k < i ==> es[k].0 != key,
    ensures
        spec_write(es, key, v) == es.update(i, (key, v)),
    decreases i,
{
    if i == 0 {
        assert(seq![(key, v)] + es.drop_first() =~= es.update(0, (key, v)));
    } else {
        assert(forall|k: int| 0 <= k < i - 1 ==> es.drop_first()[k] == es[k + 1]);
        lemma_spec_write_found(es.drop_first(), key, v, i - 1);
        assert(seq![es.first()] + es.drop_first().update(i - 1, (key, v)) =~= es.update(
            i,
            (key, v),
        ));
    }
}

/// Writing a key that no entry holds appends a new entry.
proof fn lemma_spec_write_absent(es: Seq<(Seq<char>, JsonModel)>, key: Seq<char>, v: JsonModel)
    requires
        forall|k: int| 0 <= k < es.len() ==> es[k].0 != key,
    ensures
        spec_write(es, key, v) == es.push((key, v)),
    decreases es,
{
    if es.len() == 0 {
        assert(seq![(key, v)] =~= es.push((key, v)));
    } else {
        assert(forall|k: int| 0 <= k < es.drop_first().len() ==> es.drop_first()[k] == es[k + 1]);
        lemma_spec_write_absent(es.drop_first(), key, v);
        assert(seq![es.first()] + es.drop_first().push((key, v)) =~= es.push((key, v)));
    }
}

impl Object {
    /// A fresh, empty object.
    pub fn new() -> (o: Object)
        ensures
            o@ == Seq::<(Seq<char>, JsonModel)>::empty(),
    {
        Object { entries: Vec::new() }
    }

    /// The position of the first entry whose key is `key`, if any.
    #[verifier::loop_isolation(false)]
    fn index_of(&self, key: &String) -> (r: Option<usize>)
        ensures
            match r {
                Some(i) => {
                    &&& i < self.entries.len()
                    &&& self@[i as int].0 == key@
                    &&& forall|k: int| 0 <= k < i ==> self@[k].0 != key@
                    &&& spec_lookup(self@, key@) == Some(self@[i as int].1)
                },
                None => {
                    &&& forall|k: int| 0 <= k < self@.len() ==> self@[k].0 != key@
                    &&& spec_lookup(self@, key@) is None
                },
            },
    {
        let n = self.entries.len();
        let mut i: usize = 0;
        assert(self@.skip(0) =~= self@);
        while i < n
            invariant
                i <= n,
                spec_lookup(self@.skip(i as int), key@) == spec_lookup(self@, key@),
                forall|k: int| 0 <= k < i ==> self@[k].0 != key@,
            decreases n - i,
        {
            proof {
                assert(self@.skip(i as int).first() == self@[i as int]);
                assert(self@.skip(i as int).drop_first() =~= self@.skip(i as int + 1));
            }
            if self.entries[i].0 == *key {
                return Some(i);
            }
            i = i + 1;
        }
        assert(self@.skip(n as int) =~= Seq::<(Seq<char>, JsonModel)>::empty());
        None
    }

    /// The node stored under `key`, if any.
    pub fn get<'a>(&'a self, key: &str) -> (r: Option<&'a Json>)
        ensures
            match r {
                Some(j) => spec_lookup(self@, key@) == Some(j@),
                None => spec_lookup(self@, key@) is None,
            },
    {
        let k = String::from_str(key);
        match self.index_of(&k) {
            Some(i) => Some(&self.entries[i].1),
            None => None,
        }
    }

    /// Store `value` under `key`: the first entry with that key is replaced
    /// in place, and with no such entry the pair is appended.
    pub fn insert(&mut self, key: String, value: Json)
        ensures
            final(self)@ == spec_write(old(self)@, key@, value@),
    {
        match self.index_of(&key) {
            Some(i) => {
                proof {
                    lemma_spec_write_found(self@, key@, value@, i as int);
                }
                self.entries[i] = (key, value);
                assert(self@ =~= spec_write(old(self)@, key@, value@));
            }
            None => {
                proof {
                    lemma_spec_write_absent(self@, key@, value@);
                }
                self.entries.push((key, value));
                assert(self@ =~= spec_write(old(self)@, key@, value@));
            }
        }
    }
}

/// A success of `action` wrapped as an optional success.
pub open spec fn wrap_optional<R>(r: Result<R, DecoderError>) -> Result<
    Option<R>,
    DecoderError,
> {
    match r {
        Ok(v) => Ok(Some(v)),
        Err(e) => Err(e),
    }
}

/// Whether an optional decode outcome agrees with the model of a decode
/// that found a present, non-null node.
pub open spec fn opt_decode_matches<T: DeepView>(
    r: Result<Option<T>, DecoderError>,
    s: Result<T::V, ErrorModel>,
) -> bool {
    match r {
        Ok(o) => o matches Some(v) && s matches Ok(m) && v.deep_view() == m,
        Err(e) => s matches Err(em) && e@ == em,
    }
}

/// An abstraction over an object map: locate a field and run a decoding
/// action on it, treat absence-or-null as "no value", read and write typed
/// items by key.
pub trait JsonMap: View<V = Seq<(Seq<char>, JsonModel)>> + Sized {
    /// Read the node under `key` and run `action` on it without copying.
    /// An absent key is a missing-field error; what `action` returns,
    /// success or failure, is handed back unchanged.
    fn with_key<R, F: Fn(&Json) -> Result<R, DecoderError>>(
        &self,
        key: &str,
        action: F,
    ) -> (r: Result<R, DecoderError>)
        requires
            forall|j: &Json| spec_lookup(self@, key@) == Some(j@) ==> call_requires(action, (j,)),
        ensures
            spec_lookup(self@, key@) is None ==> (r matches Err(e) && e@
                == ErrorModel::MissingField(key@)),
            spec_lookup(self@, key@) is Some ==> exists|j: &Json|
                spec_lookup(self@, key@) == Some(j@) && call_ensures(action, (j,), r),
    ;

    /// Read the node under `key` and run `action` on it; a key that is
    /// absent or maps to the null node yields "no value" without error,
    /// and an `action` failure propagates unchanged.
    fn with_optional_key<R, F: Fn(&Json) -> Result<R, DecoderError>>(
        &self,
        key: &str,
        action: F,
    ) -> (r: Result<Option<R>, DecoderError>)
        requires
            forall|j: &Json|
                (spec_lookup(self@, key@) == Some(j@) && !(j@ is Null)) ==> call_requires(
                    action,
                    (j,),
                ),
        ensures
            (spec_lookup(self@, key@) is None || spec_lookup(self@, key@) == Some(
                JsonModel::Null,
            )) ==> r == Ok::<Option<R>, DecoderError>(None::<R>),
            spec_lookup(self@, key@) is Some && !(spec_lookup(self@, key@).unwrap() is Null)
                ==> exists|j: &Json, r0: Result<R, DecoderError>|
                j@ == spec_lookup(self@, key@).unwrap() && call_ensures(action, (j,), r0) && r
                    == wrap_optional(r0),
    ;

    /// Read the item under `key` at the type's decoder.
    fn read_item<T: FromJson>(&self, key: &str) -> (r: Result<T, DecoderError>)
        ensures
            spec_lookup(self@, key@) is None ==> (r matches Err(e) && e@
                == ErrorModel::MissingField(key@)),
            spec_lookup(self@, key@) matches Some(m) ==> decode_matches::<T>(
                r,
                T::spec_from_json(m),
            ),
    ;

    /// Read the item under `key` at the type's decoder, treating an absent
    /// key and a null node alike as "no value".
    fn read_optional_item<T: FromJson>(&self, key: &str) -> (r: Result<Option<T>, DecoderError>)
        ensures
            (spec_lookup(self@, key@) is None || spec_lookup(self@, key@) == Some(
                JsonModel::Null,
            )) ==> r == Ok::<Option<T>, DecoderError>(None::<T>),
            spec_lookup(self@, key@) is Some && !(spec_lookup(self@, key@).unwrap() is Null)
                ==> opt_decode_matches::<T>(r, T::spec_from_json(spec_lookup(self@, key@).unwrap())),
    ;

    /// Encode `item` and store it under `key`, overwriting any prior entry.
    fn write_item<T: ToJson>(&mut self, key: &str, item: T)
        ensures
            final(self)@ == spec_write(old(self)@, key@, T::spec_to_json(item.deep_view())),
    ;
}

impl JsonMap for Object {
    fn with_key<R, F: Fn(&Json) -> Result<R, DecoderError>>(
        &self,
        key: &str,
        action: F,
    ) -> (r: Result<R, DecoderError>) {
        match self.get(key) {
            None => Err(DecoderError::MissingFieldError(String::from_str(key))),
            Some(j) => action(j),
        }
    }

    fn with_optional_key<R, F: Fn(&Json) -> Result<R, DecoderError>>(
        &self,
        key: &str,
        action: F,
    ) -> (r: Result<Option<R>, DecoderError>) {
        match self.get(key) {
            None => Ok(None),
            Some(j) => match j {
                Json::Null => Ok(None),
                _ => match action(j) {
                    Ok(v) => Ok(Some(v)),
                    Err(e) => Err(e),
                },
            },
        }
    }

    fn read_item<T: FromJson>(&self, key: &str) -> (r: Result<T, DecoderError>) {
        match self.get(key) {
            None => Err(DecoderError::MissingFieldError(String::from_str(key))),
            Some(j) => T::from_json(j),
        }
    }

    fn read_optional_item<T: FromJson>(&self, key: &str) -> (r: Result<Option<T>, DecoderError>) {
        match self.get(key) {
            None => Ok(None),
            Some(j) => match j {
                Json::Null => Ok(None),
                _ => match T::from_json(j) {
                    Ok(v) => Ok(Some(v)),
                    Err(e) => Err(e),
                },
            },
        }
    }

    fn write_item<T: ToJson>(&mut self, key: &str, item: T) {
        let node = item.to_json();
        self.insert(String::from_str(key), node);
    }
}

/// Build a fresh object: `builder` receives an empty map, writes zero or
/// more entries, and what it hands back is wrapped as an object node.
pub fn create_object<F: FnOnce(Object) -> Object>(builder: F) -> (j: Json)
    requires
        forall|o: Object|
            o@ == Seq::<(Seq<char>, JsonModel)>::empty() ==> call_requires(builder, (o,)),
    ensures
        exists|o: Object, out: Object|
            o@ == Seq::<(Seq<char>, JsonModel)>::empty() && call_ensures(builder, (o,), out) && j@
                == JsonModel::Object(out@),
{
    let start = Object::new();
    let result = builder(start);
    Json::Object(result)
}

/// Run `builder` on the underlying map when the node is object-shaped;
/// otherwise fail with a type mismatch naming `Object`. This decodes nested
/// objects without asking every nested type to implement the full decoder
/// protocol.
pub fn as_object<R, F: Fn(&Object) -> Result<R, DecoderError>>(json: &Json, builder: F) -> (r:
    Result<R, DecoderError>)
    requires
        forall|o: &Object| json@ == JsonModel::Object(o@) ==> call_requires(builder, (o,)),
    ensures
        !(json@ is Object) ==> (r matches Err(e) && e@ == ErrorModel::Expected(
            "Object"@,
            spec_render(json@),
        )),
        json@ is Object ==> exists|o: &Object|
            json@ == JsonModel::Object(o@) && call_ensures(builder, (o,), r),
{
    match json {
        Json::Object(map) => {
            proof {
                assert(json@ == JsonModel::Object(map@));
            }
            let r = builder(map);
            proof {
                assert(json@ == JsonModel::Object(map@) && call_ensures(builder, (map,), r));
            }
            r
        }
        _ => Err(expected("Object", json)),
    }
}

} // verus!
