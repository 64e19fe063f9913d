//! The runtime value algebra: dynamically typed, immutable once built.
//!
//! A `Value` is a string, an integer, an IEEE 754 double (held as its bit
//! pattern), a boolean, an ordered array, or an insertion-ordered
//! string-keyed object. Arrays and objects are reference counted, so
//! cloning one is a cheap shared copy. In specifications a value is seen
//! through its deep view `ValueV`.

use vstd::prelude::*;
use vstd::string::*;
use std::sync::Arc;
use crate::strmap::{StrMap, strmap_entries, strmap_insert, strmap_new};
use crate::diag::{SpreadSheetError, SpreadSheetResult};
use crate::floats::{
    fadd_bits, fsub_bits, fmul_bits, fdiv_bits, float_of_i64, float_of_text, text_of_float,
    f64_add, f64_sub, f64_mul, f64_div, f64_neg, f64_of_i64, f64_parse, f64_to_text,
    F64_SIGN_MASK,
};
use crate::text::{int_text, i64_to_dec, dec_digits};

verus! {

/// A dynamically typed runtime value.
#[derive(Debug)]
pub enum Value {
    String(String),
    Integer(i64),
    /// The bit pattern of an IEEE 754 binary64 number.
    Float(u64),
    Boolean(bool),
    /// An ordered sequence of values, shared by reference count.
    Array(Arc<Vec<Value>>),
    /// An insertion-ordered mapping from string keys to values, keys
    /// unique, shared by reference count.
    Object(Arc<StrMap>),
}

/// The mathematical shape of a `Value`: strings become character
/// sequences, arrays become sequences of views, objects become their
/// ordered entry sequences.
pub enum ValueV {
    String(Seq<char>),
    Integer(int),
    Float(u64),
    Boolean(bool),
    Array(Seq<ValueV>),
    Object(Seq<(Seq<char>, ValueV)>),
}

/// The views of the values in `s`, in order.
pub open spec fn seq_views(s: Seq<Value>) -> Seq<ValueV>
    decreases s,
{
    if s.len() == 0 {
        Seq::empty()
    } else {
        seq_views(s.drop_last()).push(s.last()@)
    }
}

impl View for Value {
    type V = ValueV;

    open spec fn view(&self) -> ValueV
        decreases self,
    {
        match self {
            Value::String(s) => ValueV::String(s@),
            Value::Integer(i) => ValueV::Integer(*i as int),
            Value::Float(b) => ValueV::Float(*b),
            Value::Boolean(b) => ValueV::Boolean(*b),
            Value::Array(a) => ValueV::Array(seq_views(a@)),
            Value::Object(m) => ValueV::Object(strmap_entries(**m)),
        }
    }
}

/// Each array element's view is the view sequence's element.
pub proof fn lemma_seq_views_index(s: Seq<Value>)
    ensures
        seq_views(s).len() == s.len(),
        forall|i: int| 0 <= i < s.len() ==> seq_views(s)[i] == s[i]@,
    decreases s,
{
    if s.len() > 0 {
        lemma_seq_views_index(s.drop_last());
        assert(seq_views(s) == seq_views(s.drop_last()).push(s.last()@));
        assert forall|i: int| 0 <= i < s.len() implies seq_views(s)[i] == s[i]@ by {
            if i < s.len() - 1 {
                assert(s.drop_last()[i] == s[i]);
            } else {
                assert(seq_views(s)[i] == s.last()@);
            }
        }
    }
}

/// Relies on `Arc::clone`: a new shared handle to the same allocation.
#[verifier::external_body]
fn arc_clone_array(a: &Arc<Vec<Value>>) -> (r: Arc<Vec<Value>>)
    ensures
        r == *a,
{
    Arc::clone(a)
}

/// Relies on `Arc::clone`: a new shared handle to the same allocation.
#[verifier::external_body]
fn arc_clone_object(a: &Arc<StrMap>) -> (r: Arc<StrMap>)
    ensures
        r == *a,
{
    Arc::clone(a)
}

impl Clone for Value {
    /// Cloning keeps the value's view; an array or object clone is a cheap
    /// shared copy, not a deep copy.
    fn clone(&self) -> (r: Self)
        ensures
            r@ == self@,
    {
        match self {
            Value::String(s) => Value::String(s.clone()),
            Value::Integer(i) => Value::Integer(*i),
            Value::Float(b) => Value::Float(*b),
            Value::Boolean(b) => Value::Boolean(*b),
            Value::Array(a) => Value::Array(arc_clone_array(a)),
            Value::Object(m) => Value::Object(arc_clone_object(m)),
        }
    }
}

/// The display-time text of a value: a string is itself, an integer or
/// float renders in decimal, and every other kind renders empty.
pub open spec fn spec_as_str(v: ValueV) -> Seq<char> {
    match v {
        ValueV::String(s) => s,
        ValueV::Float(f) => text_of_float(f),
        ValueV::Integer(i) => int_text(i as i64 as int),
        _ => Seq::empty(),
    }
}

/// The display-time numeric coercion of a value, as IEEE 754 bits: a float
/// is itself, an integer converts, a string is parsed (zero where it is
/// not a float literal), and every other kind is zero.
pub open spec fn spec_as_float_bits(v: ValueV) -> u64 {
    match v {
        ValueV::Float(f) => f,
        ValueV::Integer(i) => float_of_i64(i as i64),
        ValueV::String(s) => match float_of_text(s) {
            Some(b) => b,
            None => 0,
        },
        _ => 0,
    }
}

impl Value {
    /// The display-time text of this value, by `spec_as_str`.
    pub fn as_str(&self) -> (r: String)
        ensures
            r@ == spec_as_str(self@),
    {
        match self {
            Value::String(s) => s.clone(),
            Value::Float(f) => f64_to_text(*f),
            Value::Integer(i) => i64_to_dec(*i),
            _ => String::new(),
        }
    }

    /// The display-time numeric coercion of this value, as IEEE 754 bits,
    /// by `spec_as_float_bits`.
    pub fn as_float_bits(&self) -> (r: u64)
        ensures
            r == spec_as_float_bits(self@),
    {
        match self {
            Value::Float(f) => *f,
            Value::Integer(i) => f64_of_i64(*i),
            Value::String(s) => match f64_parse(s.as_str()) {
                Some(b) => b,
                None => 0,
            },
            _ => 0,
        }
    }

    /// Builds an array value from its elements.
    pub fn new_array(items: Vec<Value>) -> (r: Value)
        ensures
            r@ == ValueV::Array(seq_views(items@)),
    {
        Value::Array(Arc::new(items))
    }

    /// Builds an object value from key/value pairs, binding them in order:
    /// a repeated key keeps its first position and takes the later value.
    pub fn new_object(pairs: Vec<(String, Value)>) -> (r: Value)
        ensures
            r@ == ValueV::Object(entries_of_pairs(pairs@)),
    {
        let mut m = strmap_new();
        let n = pairs.len();
        for k in 0..n
            invariant
                n == pairs@.len(),
                strmap_entries(m) == entries_of_pairs_prefix(pairs@, k as int),
        {
            let (key, v) = pairs_take(&pairs, k);
            strmap_insert(&mut m, key, v);
        }
        Value::Object(Arc::new(m))
    }
}

/// Clones the pair at index `k` out of the vector.
fn pairs_take(pairs: &Vec<(String, Value)>, k: usize) -> (r: (String, Value))
    requires
        k < pairs@.len(),
    ensures
        r.0@ == pairs@[k as int].0@,
        r.1@ == pairs@[k as int].1@,
{
    let p = &pairs[k];
    (p.0.clone(), p.1.clone())
}

/// The entry sequence reached by binding the first `k` pairs in order.
pub open spec fn entries_of_pairs_prefix(pairs: Seq<(String, Value)>, k: int) -> Seq<
    (Seq<char>, ValueV),
>
    decreases k,
{
    if k <= 0 {
        Seq::empty()
    } else {
        crate::strmap::entries_insert(
            entries_of_pairs_prefix(pairs, k - 1),
            pairs[k - 1].0@,
            pairs[k - 1].1@,
        )
    }
}

/// The entry sequence reached by binding all pairs in order.
pub open spec fn entries_of_pairs(pairs: Seq<(String, Value)>) -> Seq<(Seq<char>, ValueV)> {
    entries_of_pairs_prefix(pairs, pairs.len() as int)
}

/// Turning something into a value.
pub trait IntoValue {
    /// The value this turns into.
    fn into_value(self) -> Value;
}

impl IntoValue for i64 {
    /// An integer becomes the integer value.
    fn into_value(self) -> (v: Value)
        ensures
            v@ == ValueV::Integer(self as int),
    {
        Value::Integer(self)
    }
}

impl IntoValue for bool {
    /// A boolean becomes the boolean value.
    fn into_value(self) -> (v: Value)
        ensures
            v@ == ValueV::Boolean(self),
    {
        Value::Boolean(self)
    }
}

impl IntoValue for String {
    /// A string becomes the string value.
    fn into_value(self) -> (v: Value)
        ensures
            v@ == ValueV::String(self@),
    {
        Value::String(self)
    }
}

/// Addition of two integer values is commutative.
pub proof fn lemma_add_commutes_integers(a: ValueV, b: ValueV)
    requires
        a is Integer,
        b is Integer,
    ensures
        spec_add(a, b) == spec_add(b, a),
{
}

/// Subtraction of two distinct integer values whose difference fits the
/// 64-bit signed range is not commutative.
pub proof fn lemma_sub_not_commutative(a: int, b: int)
    requires
        i64::MIN <= a <= i64::MAX,
        i64::MIN <= b <= i64::MAX,
        a != b,
        i64::MIN < a - b < 0x8000_0000_0000_0000,
    ensures
        spec_sub(ValueV::Integer(a), ValueV::Integer(b)) != spec_sub(
            ValueV::Integer(b),
            ValueV::Integer(a),
        ),
{
}

/// Division, whenever it succeeds, yields a float — even between two
/// integers.
pub proof fn lemma_div_yields_float(a: ValueV, b: ValueV)
    ensures
        spec_div(a, b) matches Ok(v) ==> v is Float,
{
}

/// Negating twice returns the original value: an integer twice
/// sign-flipped, a float twice sign-bit-flipped, and a boolean twice
/// inverted are themselves.
pub proof fn lemma_double_negation(v: ValueV)
    requires
        (v is Integer) || (v is Float) || (v is Boolean),
        v matches ValueV::Integer(x) ==> i64::MIN <= x <= i64::MAX,
    ensures
        match spec_neg(v) {
            Ok(w) => spec_neg(w) == Ok::<ValueV, Seq<char>>(v),
            Err(_) => false,
        },
{
    match v {
        ValueV::Float(f) => {
            assert(f ^ F64_SIGN_MASK ^ F64_SIGN_MASK == f) by (bit_vector);
        },
        _ => {},
    }
}

/// Adding an object to anything, or anything to an object, always fails
/// with an invalid-operation error.
pub proof fn lemma_object_add_errs(a: ValueV, b: ValueV)
    requires
        (a is Object) || (b is Object),
    ensures
        spec_add(a, b) is Err,
{
}

/// Adding two arrays always succeeds and yields their concatenation: the
/// left elements first, then the right ones, the length being the sum.
pub proof fn lemma_array_concat(s: Seq<ValueV>, t: Seq<ValueV>)
    ensures
        spec_add(ValueV::Array(s), ValueV::Array(t)) == Ok::<ValueV, Seq<char>>(
            ValueV::Array(s + t),
        ),
        (s + t).len() == s.len() + t.len(),
        forall|i: int| 0 <= i < s.len() ==> (s + t)[i] == s[i],
        forall|i: int| 0 <= i < t.len() ==> (s + t)[s.len() + i] == t[i],
{
}

/// The result of an arithmetic step, seen mathematically: the value's view
/// on success, the error message on failure.
pub open spec fn arith_view(r: SpreadSheetResult<Value>) -> Result<ValueV, Seq<char>> {
    match r {
        Ok(v) => Ok(v@),
        Err(e) => Err(e.msg()),
    }
}

/// An array's element count as a signed 64-bit integer, wrapping in the
/// unreachable case of a count beyond `i64::MAX`.
pub open spec fn i64_of_len(n: nat) -> i64 {
    if n <= i64::MAX {
        n as i64
    } else {
        ((n as int) - 0x1_0000_0000_0000_0000) as i64
    }
}

/// Addition, by the kinds of the two operands. Integers and floats mix and
/// promote to float; a string on either side concatenates the other
/// operand's canonical text; an array acts as its length beside a number
/// and concatenates beside another array; everything else is an error.
pub open spec fn spec_add(a: ValueV, b: ValueV) -> Result<ValueV, Seq<char>> {
    match a {
        ValueV::Integer(x) => match b {
            ValueV::Integer(y) => Ok(
                ValueV::Integer(
                    vstd::wrapping::i64_specs::wrapping_add(x as i64, y as i64) as int,
                ),
            ),
            ValueV::Float(g) => Ok(ValueV::Float(fadd_bits(float_of_i64(x as i64), g))),
            ValueV::String(t) => Ok(ValueV::String(int_text(x as i64 as int) + t)),
            ValueV::Array(s) => Ok(
                ValueV::Integer(
                    vstd::wrapping::i64_specs::wrapping_add(x as i64, i64_of_len(s.len())) as int,
                ),
            ),
            ValueV::Object(_) => Err("invalid operation: integer + object"@),
            ValueV::Boolean(_) => Err("invalid operation: integer + boolean"@),
        },
        ValueV::Float(f) => match b {
            ValueV::Integer(y) => Ok(ValueV::Float(fadd_bits(f, float_of_i64(y as i64)))),
            ValueV::Float(g) => Ok(ValueV::Float(fadd_bits(f, g))),
            ValueV::String(t) => Ok(ValueV::String(text_of_float(f) + t)),
            ValueV::Array(s) => Ok(ValueV::Float(fadd_bits(f, float_of_i64(i64_of_len(s.len()))))),
            ValueV::Object(_) => Err("invalid operation: float + object"@),
            ValueV::Boolean(_) => Err("invalid operation: float + boolean"@),
        },
        ValueV::String(s) => match b {
            ValueV::Integer(y) => Ok(ValueV::String(s + int_text(y as i64 as int))),
            ValueV::Float(g) => Ok(ValueV::String(s + text_of_float(g))),
            ValueV::String(t) => Ok(ValueV::String(s + t)),
            ValueV::Array(_) => Err("invalid operation: string + array"@),
            ValueV::Object(_) => Err("invalid operation: string + object"@),
            ValueV::Boolean(_) => Err("invalid operation: string + boolean"@),
        },
        ValueV::Array(s) => match b {
            ValueV::Integer(y) => Ok(
                ValueV::Integer(
                    vstd::wrapping::i64_specs::wrapping_add(i64_of_len(s.len()), y as i64) as int,
                ),
            ),
            ValueV::Float(g) => Ok(ValueV::Float(fadd_bits(float_of_i64(i64_of_len(s.len())), g))),
            ValueV::Array(t) => Ok(ValueV::Array(s + t)),
            ValueV::Object(_) => Err("invalid operation: array + object"@),
            ValueV::Boolean(_) => Err("invalid operation: array + boolean"@),
            ValueV::String(_) => Err("invalid operation: array + string"@),
        },
        ValueV::Boolean(_) => Err("invalid operation: boolean + _"@),
        ValueV::Object(_) => Err("invalid operation: object + _"@),
    }
}

/// Subtraction, defined between integers and floats only; an integer and a
/// float mix and promote to float. Unlike addition, an array beside a
/// number is an error here — the asymmetry is deliberate.
pub open spec fn spec_sub(a: ValueV, b: ValueV) -> Result<ValueV, Seq<char>> {
    match a {
        ValueV::Integer(x) => match b {
            ValueV::Integer(y) => Ok(
                ValueV::Integer(
                    vstd::wrapping::i64_specs::wrapping_sub(x as i64, y as i64) as int,
                ),
            ),
            ValueV::Float(g) => Ok(ValueV::Float(fsub_bits(float_of_i64(x as i64), g))),
            ValueV::String(_) => Err("invalid operation: integer - string"@),
            ValueV::Array(_) => Err("invalid operation: integer - array"@),
            ValueV::Object(_) => Err("invalid operation: integer - object"@),
            ValueV::Boolean(_) => Err("invalid operation: integer - boolean"@),
        },
        ValueV::Float(f) => match b {
            ValueV::Integer(y) => Ok(ValueV::Float(fsub_bits(f, float_of_i64(y as i64)))),
            ValueV::Float(g) => Ok(ValueV::Float(fsub_bits(f, g))),
            ValueV::String(_) => Err("invalid operation: float - string"@),
            ValueV::Array(_) => Err("invalid operation: float - array"@),
            ValueV::Object(_) => Err("invalid operation: float - object"@),
            ValueV::Boolean(_) => Err("invalid operation: float - boolean"@),
        },
        ValueV::String(_) => Err("invalid operation: string - _"@),
        ValueV::Boolean(_) => Err("invalid operation: boolean - _"@),
        ValueV::Object(_) => Err("invalid operation: object - _"@),
        ValueV::Array(_) => Err("invalid operation: array - _"@),
    }
}

/// Multiplication, defined between integers and floats only; an integer
/// and a float mix and promote to float.
pub open spec fn spec_mul(a: ValueV, b: ValueV) -> Result<ValueV, Seq<char>> {
    match a {
        ValueV::Integer(x) => match b {
            ValueV::Integer(y) => Ok(
                ValueV::Integer(
                    vstd::wrapping::i64_specs::wrapping_mul(x as i64, y as i64) as int,
                ),
            ),
            ValueV::Float(g) => Ok(ValueV::Float(fmul_bits(float_of_i64(x as i64), g))),
            ValueV::String(_) => Err("invalid operation: integer * string"@),
            ValueV::Boolean(_) => Err("invalid operation: integer * boolean"@),
            ValueV::Array(_) => Err("invalid operation: integer * array"@),
            ValueV::Object(_) => Err("invalid operation: integer * object"@),
        },
        ValueV::Float(f) => match b {
            ValueV::Integer(y) => Ok(ValueV::Float(fmul_bits(f, float_of_i64(y as i64)))),
            ValueV::Float(g) => Ok(ValueV::Float(fmul_bits(f, g))),
            ValueV::String(_) => Err("invalid operation: float * string"@),
            ValueV::Boolean(_) => Err("invalid operation: float * boolean"@),
            ValueV::Array(_) => Err("invalid operation: float * array"@),
            ValueV::Object(_) => Err("invalid operation: float * object"@),
        },
        ValueV::String(_) => Err("invalid operation: string * _"@),
        ValueV::Boolean(_) => Err("invalid operation: boolean * _"@),
        ValueV::Array(_) => Err("invalid operation: array * _"@),
        ValueV::Object(_) => Err("invalid operation: object * _"@),
    }
}

/// Division, defined between integers and floats only. The result is
/// always a float, even between two integers: there is no integer
/// division in this language.
pub open spec fn spec_div(a: ValueV, b: ValueV) -> Result<ValueV, Seq<char>> {
    match a {
        ValueV::Integer(x) => match b {
            ValueV::Integer(y) => Ok(
                ValueV::Float(fdiv_bits(float_of_i64(x as i64), float_of_i64(y as i64))),
            ),
            ValueV::Float(g) => Ok(ValueV::Float(fdiv_bits(float_of_i64(x as i64), g))),
            ValueV::String(_) => Err("invalid operation: integer / string"@),
            ValueV::Boolean(_) => Err("invalid operation: integer / boolean"@),
            ValueV::Array(_) => Err("invalid operation: integer / array"@),
            ValueV::Object(_) => Err("invalid operation: integer / object"@),
        },
        ValueV::Float(f) => match b {
            ValueV::Integer(y) => Ok(ValueV::Float(fdiv_bits(f, float_of_i64(y as i64)))),
            ValueV::Float(g) => Ok(ValueV::Float(fdiv_bits(f, g))),
            ValueV::String(_) => Err("invalid operation: float / string"@),
            ValueV::Boolean(_) => Err("invalid operation: float / boolean"@),
            ValueV::Array(_) => Err("invalid operation: float / array"@),
            ValueV::Object(_) => Err("invalid operation: float / object"@),
        },
        ValueV::String(_) => Err("invalid operation: string / _"@),
        ValueV::Boolean(_) => Err("invalid operation: boolean / _"@),
        ValueV::Array(_) => Err("invalid operation: array / _"@),
        ValueV::Object(_) => Err("invalid operation: object / _"@),
    }
}

/// Negation: an integer or float flips sign, a boolean inverts, and
/// everything else is an error.
pub open spec fn spec_neg(a: ValueV) -> Result<ValueV, Seq<char>> {
    match a {
        ValueV::Integer(x) => Ok(
            ValueV::Integer(vstd::wrapping::i64_specs::wrapping_sub(0i64, x as i64) as int),
        ),
        ValueV::Float(f) => Ok(ValueV::Float(f ^ F64_SIGN_MASK)),
        ValueV::Boolean(b) => Ok(ValueV::Boolean(!b)),
        ValueV::String(_) => Err("invalid operation: -string"@),
        ValueV::Array(_) => Err("invalid operation: -array"@),
        ValueV::Object(_) => Err("invalid operation: -object"@),
    }
}

/// A fresh error with the given constant message.
fn err_of(m: &str) -> (e: SpreadSheetError)
    ensures
        e.msg() == m@,
{
    SpreadSheetError::new(String::from_str(m))
}

/// An array's length, read through its shared handle.
fn arr_len(a: &Arc<Vec<Value>>) -> (n: usize)
    ensures
        n as nat == seq_views(a@).len(),
{
    proof {
        lemma_seq_views_index(a@);
    }
    let v: &Vec<Value> = &*(*a);
    v.len()
}

/// An array's length as a signed 64-bit count.
pub fn len_to_i64(n: usize) -> (r: i64)
    ensures
        r == i64_of_len(n as nat),
{
    if (n as u64) <= (i64::MAX as u64) {
        n as i64
    } else {
        let t = (n as u64) - 0x8000_0000_0000_0000u64;
        (t as i64).wrapping_add(i64::MIN)
    }
}

impl Value {
    /// Adds `rhs` to this value, by the rules of `spec_add`.
    pub fn add(&self, rhs: &Value) -> (r: SpreadSheetResult<Value>)
        ensures
            arith_view(r) == spec_add(self@, rhs@),
    {
        match self {
            Value::Integer(x) => match rhs {
                Value::Integer(y) => Ok(Value::Integer(x.wrapping_add(*y))),
                Value::Float(g) => Ok(Value::Float(f64_add(f64_of_i64(*x), *g))),
                Value::String(t) => {
                    let mut s = i64_to_dec(*x);
                    s.append(t.as_str());
                    Ok(Value::String(s))
                },
                Value::Array(arr) => {
                    let n = len_to_i64(arr_len(arr));
                    Ok(Value::Integer(x.wrapping_add(n)))
                },
                Value::Object(_) => Err(err_of("invalid operation: integer + object")),
                Value::Boolean(_) => Err(err_of("invalid operation: integer + boolean")),
            },
            Value::Float(f) => match rhs {
                Value::Integer(y) => Ok(Value::Float(f64_add(*f, f64_of_i64(*y)))),
                Value::Float(g) => Ok(Value::Float(f64_add(*f, *g))),
                Value::String(t) => {
                    let mut s = f64_to_text(*f);
                    s.append(t.as_str());
                    Ok(Value::String(s))
                },
                Value::Array(arr) => {
                    let n = len_to_i64(arr_len(arr));
                    Ok(Value::Float(f64_add(*f, f64_of_i64(n))))
                },
                Value::Object(_) => Err(err_of("invalid operation: float + object")),
                Value::Boolean(_) => Err(err_of("invalid operation: float + boolean")),
            },
            Value::String(s) => match rhs {
                Value::Integer(y) => {
                    let mut out = s.clone();
                    let tail = i64_to_dec(*y);
                    out.append(tail.as_str());
                    Ok(Value::String(out))
                },
                Value::Float(g) => {
                    let mut out = s.clone();
                    let tail = f64_to_text(*g);
                    out.append(tail.as_str());
                    Ok(Value::String(out))
                },
                Value::String(t) => {
                    let mut out = s.clone();
                    out.append(t.as_str());
                    Ok(Value::String(out))
                },
                Value::Array(_) => Err(err_of("invalid operation: string + array")),
                Value::Object(_) => Err(err_of("invalid operation: string + object")),
                Value::Boolean(_) => Err(err_of("invalid operation: string + boolean")),
            },
            Value::Array(arr) => match rhs {
                Value::Integer(y) => {
                    let n = len_to_i64(arr_len(arr));
                    Ok(Value::Integer(n.wrapping_add(*y)))
                },
                Value::Float(g) => {
                    let n = len_to_i64(arr_len(arr));
                    Ok(Value::Float(f64_add(f64_of_i64(n), *g)))
                },
                Value::Array(brr) => Ok(concat_arrays(arr, brr)),
                Value::Object(_) => Err(err_of("invalid operation: array + object")),
                Value::Boolean(_) => Err(err_of("invalid operation: array + boolean")),
                Value::String(_) => Err(err_of("invalid operation: array + string")),
            },
            Value::Boolean(_) => Err(err_of("invalid operation: boolean + _")),
            Value::Object(_) => Err(err_of("invalid operation: object + _")),
        }
    }

    /// Subtracts `rhs` from this value, by the rules of `spec_sub`.
    pub fn sub(&self, rhs: &Value) -> (r: SpreadSheetResult<Value>)
        ensures
            arith_view(r) == spec_sub(self@, rhs@),
    {
        match self {
            Value::Integer(x) => match rhs {
                Value::Integer(y) => Ok(Value::Integer((*x).wrapping_sub(*y))),
                Value::Float(g) => Ok(Value::Float(f64_sub(f64_of_i64(*x), *g))),
                Value::String(_) => Err(err_of("invalid operation: integer - string")),
                Value::Array(_) => Err(err_of("invalid operation: integer - array")),
                Value::Object(_) => Err(err_of("invalid operation: integer - object")),
                Value::Boolean(_) => Err(err_of("invalid operation: integer - boolean")),
            },
            Value::Float(f) => match rhs {
                Value::Integer(y) => Ok(Value::Float(f64_sub(*f, f64_of_i64(*y)))),
                Value::Float(g) => Ok(Value::Float(f64_sub(*f, *g))),
                Value::String(_) => Err(err_of("invalid operation: float - string")),
                Value::Array(_) => Err(err_of("invalid operation: float - array")),
                Value::Object(_) => Err(err_of("invalid operation: float - object")),
                Value::Boolean(_) => Err(err_of("invalid operation: float - boolean")),
            },
            Value::String(_) => Err(err_of("invalid operation: string - _")),
            Value::Boolean(_) => Err(err_of("invalid operation: boolean - _")),
            Value::Object(_) => Err(err_of("invalid operation: object - _")),
            Value::Array(_) => Err(err_of("invalid operation: array - _")),
        }
    }

    /// Multiplies this value by `rhs`, by the rules of `spec_mul`.
    pub fn mul(&self, rhs: &Value) -> (r: SpreadSheetResult<Value>)
        ensures
            arith_view(r) == spec_mul(self@, rhs@),
    {
        match self {
            Value::Integer(x) => match rhs {
                Value::Integer(y) => Ok(Value::Integer((*x).wrapping_mul(*y))),
                Value::Float(g) => Ok(Value::Float(f64_mul(f64_of_i64(*x), *g))),
                Value::String(_) => Err(err_of("invalid operation: integer * string")),
                Value::Boolean(_) => Err(err_of("invalid operation: integer * boolean")),
                Value::Array(_) => Err(err_of("invalid operation: integer * array")),
                Value::Object(_) => Err(err_of("invalid operation: integer * object")),
            },
            Value::Float(f) => match rhs {
                Value::Integer(y) => Ok(Value::Float(f64_mul(*f, f64_of_i64(*y)))),
                Value::Float(g) => Ok(Value::Float(f64_mul(*f, *g))),
                Value::String(_) => Err(err_of("invalid operation: float * string")),
                Value::Boolean(_) => Err(err_of("invalid operation: float * boolean")),
                Value::Array(_) => Err(err_of("invalid operation: float * array")),
                Value::Object(_) => Err(err_of("invalid operation: float * object")),
            },
            Value::String(_) => Err(err_of("invalid operation: string * _")),
            Value::Boolean(_) => Err(err_of("invalid operation: boolean * _")),
            Value::Array(_) => Err(err_of("invalid operation: array * _")),
            Value::Object(_) => Err(err_of("invalid operation: object * _")),
        }
    }

    /// Divides this value by `rhs`, by the rules of `spec_div`. The result
    /// is always a float.
    pub fn div(&self, rhs: &Value) -> (r: SpreadSheetResult<Value>)
        ensures
            arith_view(r) == spec_div(self@, rhs@),
    {
        match self {
            Value::Integer(x) => match rhs {
                Value::Integer(y) => Ok(Value::Float(f64_div(f64_of_i64(*x), f64_of_i64(*y)))),
                Value::Float(g) => Ok(Value::Float(f64_div(f64_of_i64(*x), *g))),
                Value::String(_) => Err(err_of("invalid operation: integer / string")),
                Value::Boolean(_) => Err(err_of("invalid operation: integer / boolean")),
                Value::Array(_) => Err(err_of("invalid operation: integer / array")),
                Value::Object(_) => Err(err_of("invalid operation: integer / object")),
            },
            Value::Float(f) => match rhs {
                Value::Integer(y) => Ok(Value::Float(f64_div(*f, f64_of_i64(*y)))),
                Value::Float(g) => Ok(Value::Float(f64_div(*f, *g))),
                Value::String(_) => Err(err_of("invalid operation: float / string")),
                Value::Boolean(_) => Err(err_of("invalid operation: float / boolean")),
                Value::Array(_) => Err(err_of("invalid operation: float / array")),
                Value::Object(_) => Err(err_of("invalid operation: float / object")),
            },
            Value::String(_) => Err(err_of("invalid operation: string / _")),
            Value::Boolean(_) => Err(err_of("invalid operation: boolean / _")),
            Value::Array(_) => Err(err_of("invalid operation: array / _")),
            Value::Object(_) => Err(err_of("invalid operation: object / _")),
        }
    }

    /// Negates this value, by the rules of `spec_neg`.
    pub fn neg(&self) -> (r: SpreadSheetResult<Value>)
        ensures
            arith_view(r) == spec_neg(self@),
    {
        match self {
            Value::Integer(i) => Ok(Value::Integer(0i64.wrapping_sub(*i))),
            Value::Float(f) => Ok(Value::Float(f64_neg(*f))),
            Value::Boolean(b) => Ok(Value::Boolean(!*b)),
            Value::String(_) => Err(err_of("invalid operation: -string")),
            Value::Array(_) => Err(err_of("invalid operation: -array")),
            Value::Object(_) => Err(err_of("invalid operation: -object")),
        }
    }
}

/// The concatenation of two arrays: the left elements, then the right
/// elements, in a fresh array.
fn concat_arrays(a: &Arc<Vec<Value>>, b: &Arc<Vec<Value>>) -> (r: Value)
    ensures
        r@ == ValueV::Array(seq_views(a@) + seq_views(b@)),
{
    let mut items: Vec<Value> = Vec::new();
    let av: &Vec<Value> = &*(*a);
    let bv: &Vec<Value> = &*(*b);
    let na = av.len();
    let nb = bv.len();
    for i in 0..na
        invariant
            na == av@.len(),
            items@.len() == i,
            forall|j: int| 0 <= j < i ==> items@[j]@ == av@[j]@,
    {
        items.push(av[i].clone());
    }
    for i in 0..nb
        invariant
            na == av@.len(),
            nb == bv@.len(),
            items@.len() == na + i,
            forall|j: int| 0 <= j < na ==> items@[j]@ == av@[j]@,
            forall|j: int| 0 <= j < i ==> items@[na + j]@ == bv@[j]@,
    {
        items.push(bv[i].clone());
    }
    proof {
        lemma_seq_views_index(a@);
        lemma_seq_views_index(b@);
        lemma_seq_views_index(items@);
        assert(seq_views(items@) =~= seq_views(a@) + seq_views(b@));
    }
    Value::new_array(items)
}

} // verus!
