//! The typed decoder protocol and its mirror encoding capability.
//!
//! Each target type carries a static association to a decoding function
//! ([`FromJson`]) and an encoding function ([`ToJson`]); containers
//! (`Vec<T>`, `Option<T>`) reuse the element's capability generically.

use vstd::prelude::*;
use vstd::string::StringExecFns;
use crate::value::{Json, JsonModel, FloatBits, view_json_seq};
use crate::value::{lemma_view_json_seq_len, lemma_view_json_seq_index};
use crate::error::{DecoderError, ErrorModel, expected};
use crate::render::{spec_render, spec_render_int, push_i64, chars_to_string};

verus! {

broadcast use
    vstd::std_specs::vec::group_vec_axioms,
    lemma_view_json_seq_len,
    lemma_view_json_seq_index,
;

/// Whether a decode outcome agrees with its model: a success carries a value
/// whose model is the modelled value, a failure carries the modelled error.
pub open spec fn decode_matches<T: DeepView>(
    r: Result<T, DecoderError>,
    s: Result<T::V, ErrorModel>,
) -> bool {
    match r {
        Ok(v) => s matches Ok(m) && v.deep_view() == m,
        Err(e) => s matches Err(em) && e@ == em,
    }
}

/// The typed decoder protocol: a per-type capability that attempts to
/// construct a value of the target type from a generic JSON node.
pub trait FromJson: DeepView + Sized {
    /// What decoding yields on each node model: either the model of the
    /// decoded value, or the error describing the failure.
    spec fn spec_from_json(m: JsonModel) -> Result<Self::V, ErrorModel>;

    /// Construct a new instance of `Self` from a JSON node.
    fn from_json(json: &Json) -> (r: Result<Self, DecoderError>)
        ensures
            decode_matches::<Self>(r, Self::spec_from_json(json@)),
    ;
}

/// The mirror encoding capability: how a value of `Self` is written as a
/// JSON node.
pub trait ToJson: DeepView {
    /// The node model that encoding yields for each value model.
    spec fn spec_to_json(v: Self::V) -> JsonModel;

    /// Encode `self` as a JSON node.
    fn to_json(&self) -> (j: Json)
        ensures
            j@ == Self::spec_to_json(self.deep_view()),
    ;
}

impl FromJson for i64 {
    open spec fn spec_from_json(m: JsonModel) -> Result<i64, ErrorModel> {
        match m {
            JsonModel::I64(n) => Ok(n),
            JsonModel::U64(n) => if n <= i64::MAX as u64 {
                Ok(n as i64)
            } else {
                Err(ErrorModel::Expected("i64"@, spec_render(m)))
            },
            _ => Err(ErrorModel::Expected("i64"@, spec_render(m))),
        }
    }

    fn from_json(json: &Json) -> (r: Result<i64, DecoderError>) {
        match json {
            Json::I64(n) => Ok(*n),
            Json::U64(n) => if *n <= i64::MAX as u64 {
                Ok(*n as i64)
            } else {
                Err(expected("i64", json))
            },
            _ => Err(expected("i64", json)),
        }
    }
}

impl FromJson for u64 {
    open spec fn spec_from_json(m: JsonModel) -> Result<u64, ErrorModel> {
        match m {
            JsonModel::U64(n) => Ok(n),
            JsonModel::I64(n) => if n >= 0 {
                Ok(n as u64)
            } else {
                Err(ErrorModel::Expected("u64"@, spec_render(m)))
            },
            _ => Err(ErrorModel::Expected("u64"@, spec_render(m))),
        }
    }

    fn from_json(json: &Json) -> (r: Result<u64, DecoderError>) {
        match json {
            Json::U64(n) => Ok(*n),
            Json::I64(n) => if *n >= 0 {
                Ok(*n as u64)
            } else {
                Err(expected("u64", json))
            },
            _ => Err(expected("u64", json)),
        }
    }
}

/// The IEEE-754 bit pattern of the double `m * 2^(e - 1075)`, for a
/// positive mantissa that is doubled until it fills the 53-bit significand
/// (one hidden bit and a 52-bit fraction field).
pub open spec fn spec_pos_bits(m: int, e: int) -> int
    decreases 0x20000000000000 - m,
{
    if m <= 0 {
        0
    } else if m < 0x10000000000000 {
        spec_pos_bits(m * 2, e - 1)
    } else {
        e * 0x10000000000000 + m - 0x10000000000000
    }
}

/// The bit pattern of the double equal to the positive magnitude `m`, for
/// `m` at most 2^53 (the range the double format represents exactly).
pub open spec fn spec_mag_bits(m: int) -> int {
    if m == 0x20000000000000 {
        0x4340000000000000
    } else {
        spec_pos_bits(m, 1075)
    }
}

/// The bit pattern of the double equal to the integer `n`, for a magnitude
/// at most 2^53.
pub open spec fn spec_f64_bits_of_int(n: int) -> int {
    if n == 0 {
        0
    } else if n < 0 {
        0x8000000000000000 + spec_mag_bits(-n)
    } else {
        spec_mag_bits(n)
    }
}

/// The canonical text of the double equal to the integer `n`: its decimal
/// digits with a forced fraction point, as the serializer prints it.
pub open spec fn spec_float_text_of_int(n: int) -> Seq<char> {
    spec_render_int(n) + seq!['.', '0']
}

/// The bit pattern of the double equal to the positive magnitude `m`,
/// computed by integer doublings alone.
fn mag_bits(m: u64) -> (bits: u64)
    requires
        1 <= m <= 0x20000000000000,
    ensures
        bits as int == spec_mag_bits(m as int),
        bits < 0x8000000000000000,
    {
    if m == 0x20000000000000 {
        1076u64 * 0x10000000000000u64
    } else {
        let mut mm: u64 = m;
        let mut e: u64 = 1075;
        proof {
            vstd::arithmetic::power2::lemma2_to64();
        }
        while mm < 0x10000000000000
            invariant
                1 <= mm < 0x20000000000000,
                1023 <= e <= 1075,
                vstd::arithmetic::power2::pow2((1075 - e) as nat) <= mm as int,
                spec_pos_bits(mm as int, e as int) == spec_pos_bits(m as int, 1075),
            decreases e,
        {
            proof {
                vstd::arithmetic::power2::lemma2_to64();
                vstd::arithmetic::power2::lemma2_to64_rest();
                if e == 1023 {
                    assert(vstd::arithmetic::power2::pow2(52) <= mm as int);
                    assert(false);
                }
                vstd::arithmetic::power2::lemma_pow2_unfold((1075 - (e - 1)) as nat);
            }
            mm = mm * 2;
            e = e - 1;
        }
        e * 0x10000000000000 + (mm - 0x10000000000000)
    }
}

/// The float representation of an exactly representable integer: its bit
/// pattern and its canonical text.
fn float_of_int(n: i64) -> (f: FloatBits)
    requires
        -0x20000000000000 <= n <= 0x20000000000000,
    ensures
        f.bits as int == spec_f64_bits_of_int(n as int),
        f.text@ == spec_float_text_of_int(n as int),
{
    let bits: u64 = if n == 0 {
        0
    } else if n < 0 {
        9223372036854775808u64 + mag_bits((-n) as u64)
    } else {
        mag_bits(n as u64)
    };
    let mut out: Vec<char> = Vec::new();
    push_i64(n, &mut out);
    out.push('.');
    out.push('0');
    assert(out@ =~= spec_render_int(n as int) + seq!['.', '0']);
    let text = chars_to_string(out);
    FloatBits { bits, text }
}

impl FromJson for FloatBits {
    open spec fn spec_from_json(m: JsonModel) -> Result<(u64, Seq<char>), ErrorModel> {
        match m {
            JsonModel::Float(bits, text) => Ok((bits, text)),
            JsonModel::I64(n) => if -0x20000000000000 <= n as int <= 0x20000000000000 {
                Ok((spec_f64_bits_of_int(n as int) as u64, spec_float_text_of_int(n as int)))
            } else {
                Err(ErrorModel::Expected("f64"@, spec_render(m)))
            },
            JsonModel::U64(n) => if n as int <= 0x20000000000000 {
                Ok((spec_f64_bits_of_int(n as int) as u64, spec_float_text_of_int(n as int)))
            } else {
                Err(ErrorModel::Expected("f64"@, spec_render(m)))
            },
            _ => Err(ErrorModel::Expected("f64"@, spec_render(m))),
        }
    }

    /// A float node is taken as it stands; an integer number node converts
    /// when its value is exactly representable as a double (magnitude at
    /// most 2^53). Beyond that the conversion would have to round, which
    /// the crate cannot state exactly, so it reports a mismatch instead.
    fn from_json(json: &Json) -> (r: Result<FloatBits, DecoderError>) {
        match json {
            Json::Float(f) => Ok(FloatBits { bits: f.bits, text: f.text.clone() }),
            Json::I64(n) => if -0x20000000000000i64 <= *n && *n <= 0x20000000000000i64 {
                Ok(float_of_int(*n))
            } else {
                Err(expected("f64", json))
            },
            Json::U64(n) => if *n <= 0x20000000000000u64 {
                Ok(float_of_int(*n as i64))
            } else {
                Err(expected("f64", json))
            },
            _ => Err(expected("f64", json)),
        }
    }
}

impl FromJson for bool {
    open spec fn spec_from_json(m: JsonModel) -> Result<bool, ErrorModel> {
        match m {
            JsonModel::Boolean(b) => Ok(b),
            _ => Err(ErrorModel::Expected("bool"@, spec_render(m))),
        }
    }

    fn from_json(json: &Json) -> (r: Result<bool, DecoderError>) {
        match json {
            Json::Boolean(b) => Ok(*b),
            _ => Err(expected("bool", json)),
        }
    }
}

impl FromJson for String {
    open spec fn spec_from_json(m: JsonModel) -> Result<Seq<char>, ErrorModel> {
        match m {
            JsonModel::Text(s) => Ok(s),
            _ => Err(ErrorModel::Expected("String"@, spec_render(m))),
        }
    }

    fn from_json(json: &Json) -> (r: Result<String, DecoderError>) {
        match json {
            Json::Text(s) => Ok(s.clone()),
            _ => Err(expected("String", json)),
        }
    }
}

/// What decoding every element of an array yields: the models of the decoded
/// elements in input order, or the first element error in input order.
pub open spec fn spec_decode_seq<T: FromJson>(items: Seq<JsonModel>) -> Result<Seq<T::V>, ErrorModel>
    decreases items,
{
    if items.len() == 0 {
        Ok(Seq::empty())
    } else {
        match T::spec_from_json(items.first()) {
            Err(e) => Err(e),
            Ok(v) => match spec_decode_seq::<T>(items.drop_first()) {
                Err(e) => Err(e),
                Ok(rest) => Ok(seq![v] + rest),
            },
        }
    }
}

impl<T: FromJson> FromJson for Vec<T> {
    open spec fn spec_from_json(m: JsonModel) -> Result<Seq<T::V>, ErrorModel> {
        match m {
            JsonModel::Array(items) => spec_decode_seq::<T>(items),
            _ => Err(ErrorModel::Expected("Array"@, spec_render(m))),
        }
    }

    #[verifier::loop_isolation(false)]
    fn from_json(json: &Json) -> (r: Result<Vec<T>, DecoderError>) {
        match json {
            Json::Array(items) => {
                let ghost models = view_json_seq(items@);
                let mut output: Vec<T> = Vec::new();
                let n = items.len();
                let mut i: usize = 0;
                assert(models.skip(0) =~= models);
                assert(output.deep_view() =~= Seq::<T::V>::empty());
                while i < n
                    invariant
                        i <= n,
                        output.deep_view().len() == i,
                        spec_decode_seq::<T>(models) == (match spec_decode_seq::<T>(
                            models.skip(i as int),
                        ) {
                            Ok(rest) => Ok::<Seq<T::V>, ErrorModel>(output.deep_view() + rest),
                            Err(e) => Err(e),
                        }),
                    decreases n - i,
                {
                    let ghost prev = output.deep_view();
                    match T::from_json(&items[i]) {
                        Ok(v) => {
                            output.push(v);
                            proof {
                                assert(models.skip(i as int).first() == models[i as int]);
                                assert(models.skip(i as int).drop_first() =~= models.skip(
                                    i as int + 1,
                                ));
                                assert(output.deep_view() =~= prev.push(v.deep_view()));
                                let r2 = spec_decode_seq::<T>(models.skip(i as int + 1));
                                if r2 is Ok {
                                    let rest = r2->Ok_0;
                                    assert(prev + (seq![v.deep_view()] + rest) =~= output.deep_view()
                                        + rest);
                                }
                            }
                        }
                        Err(e) => {
                            proof {
                                assert(models.skip(i as int).first() == models[i as int]);
                            }
                            return Err(e);
                        }
                    }
                    i = i + 1;
                }
                assert(models.skip(n as int) =~= Seq::<JsonModel>::empty());
                assert(output.deep_view() + Seq::<T::V>::empty() =~= output.deep_view());
                Ok(output)
            }
            _ => Err(expected("Array", json)),
        }
    }
}

impl<T: FromJson> FromJson for Option<T> {
    open spec fn spec_from_json(m: JsonModel) -> Result<Option<T::V>, ErrorModel> {
        if m is Null {
            Ok(None)
        } else {
            match T::spec_from_json(m) {
                Ok(v) => Ok(Some(v)),
                Err(e) => Err(e),
            }
        }
    }

    fn from_json(json: &Json) -> (r: Result<Option<T>, DecoderError>) {
        match json {
            Json::Null => Ok(None),
            _ => match T::from_json(json) {
                Ok(v) => Ok(Some(v)),
                Err(e) => Err(e),
            },
        }
    }
}

impl ToJson for i64 {
    open spec fn spec_to_json(v: i64) -> JsonModel {
        JsonModel::I64(v)
    }

    fn to_json(&self) -> (j: Json) {
        Json::I64(*self)
    }
}

impl ToJson for u64 {
    open spec fn spec_to_json(v: u64) -> JsonModel {
        JsonModel::U64(v)
    }

    fn to_json(&self) -> (j: Json) {
        Json::U64(*self)
    }
}

impl ToJson for bool {
    open spec fn spec_to_json(v: bool) -> JsonModel {
        JsonModel::Boolean(v)
    }

    fn to_json(&self) -> (j: Json) {
        Json::Boolean(*self)
    }
}

impl ToJson for String {
    open spec fn spec_to_json(v: Seq<char>) -> JsonModel {
        JsonModel::Text(v)
    }

    fn to_json(&self) -> (j: Json) {
        Json::Text(self.clone())
    }
}

impl ToJson for FloatBits {
    open spec fn spec_to_json(v: (u64, Seq<char>)) -> JsonModel {
        JsonModel::Float(v.0, v.1)
    }

    fn to_json(&self) -> (j: Json) {
        Json::Float(FloatBits { bits: self.bits, text: self.text.clone() })
    }
}

impl<T: ToJson> ToJson for Vec<T> {
    open spec fn spec_to_json(v: Seq<T::V>) -> JsonModel {
        JsonModel::Array(Seq::new(v.len(), |k: int| T::spec_to_json(v[k])))
    }

    #[verifier::loop_isolation(false)]
    fn to_json(&self) -> (j: Json) {
        let ghost target = Seq::new(
            self.deep_view().len(),
            |k: int| T::spec_to_json(self.deep_view()[k]),
        );
        let mut items: Vec<Json> = Vec::new();
        let n = self.len();
        let mut i: usize = 0;
        while i < n
            invariant
                i <= n,
                items@.len() == i,
                forall|k: int| 0 <= k < i ==> view_json_seq(items@)[k] == target[k],
            decreases n - i,
        {
            let item = self[i].to_json();
            items.push(item);
            i = i + 1;
        }
        let j = Json::Array(items);
        proof {
            assert(view_json_seq(j->Array_0@) =~= target);
            assert(j@ =~= Self::spec_to_json(self.deep_view()));
        }
        j
    }
}

impl<T: ToJson> ToJson for Option<T> {
    open spec fn spec_to_json(v: Option<T::V>) -> JsonModel {
        match v {
            None => JsonModel::Null,
            Some(x) => T::spec_to_json(x),
        }
    }

    fn to_json(&self) -> (j: Json) {
        match self {
            None => Json::Null,
            Some(x) => x.to_json(),
        }
    }
}

impl<T: ToJson> ToJson for &T {
    open spec fn spec_to_json(v: T::V) -> JsonModel {
        T::spec_to_json(v)
    }

    fn to_json(&self) -> (j: Json) {
        (*self).to_json()
    }
}

} // verus!
