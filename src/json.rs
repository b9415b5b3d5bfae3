//! JSON values as the protocol carries them, with structural equality.

use vstd::prelude::*;
use vstd::string::StringExecFns;

verus! {

broadcast use vstd::std_specs::vec::axiom_vec_index_decreases;

/// A JSON number, kept in the form the decoder produced it in.
#[derive(Clone, Copy, Debug, PartialEq, Eq, Structural)]
pub enum JsonNumber {
    /// A non-negative integer.
    PosInt(u64),
    /// A negative integer.
    NegInt(i64),
    /// A finite floating-point number, as its IEEE-754 bit pattern
    /// (negative zero is held as zero).
    Float(u64),
}

/// A structured JSON value. The library never interprets it beyond
/// comparing two values for structural equality and carrying it along.
#[derive(Debug)]
pub enum JsonValue {
    Null,
    Bool(bool),
    Number(JsonNumber),
    Str(String),
    Array(Vec<JsonValue>),
    /// Members in the order the decoder yields them (ascending key order),
    /// each key once.
    Object(Vec<(String, JsonValue)>),
}

/// A mapping of field names to values, as a list of entries.
pub type Fields = Vec<(String, JsonValue)>;

/// Deep structural equality: same shape, same scalars, equal members in the
/// same positions. No coercion: the number zero is not the string "0".
pub open spec fn json_eq(a: JsonValue, b: JsonValue) -> bool
    decreases a,
{
    match a {
        JsonValue::Null => b is Null,
        JsonValue::Bool(x) => b is Bool && b->Bool_0 == x,
        JsonValue::Number(x) => b is Number && b->Number_0 == x,
        JsonValue::Str(x) => b is Str && b->Str_0@ == x@,
        JsonValue::Array(xs) => b is Array && {
            let ys = b->Array_0;
            &&& xs.len() == ys.len()
            &&& forall|i: int| 0 <= i < xs.len() ==> json_eq(#[trigger] xs[i], ys[i])
        },
        JsonValue::Object(xs) => b is Object && {
            let ys = b->Object_0;
            &&& xs.len() == ys.len()
            &&& forall|i: int|
                #![trigger xs[i]]
                0 <= i < xs.len() ==> xs[i].0@ == ys[i].0@ && json_eq(xs[i].1, ys[i].1)
        },
    }
}

impl JsonValue {
    /// Compares two values structurally.
    pub fn equals(&self, other: &JsonValue) -> (r: bool)
        ensures
            r == json_eq(*self, *other),
        decreases self,
    {
        match self {
            JsonValue::Null => match other {
                JsonValue::Null => true,
                _ => false,
            },
            JsonValue::Bool(x) => match other {
                JsonValue::Bool(y) => *x == *y,
                _ => false,
            },
            JsonValue::Number(x) => match other {
                JsonValue::Number(y) => *x == *y,
                _ => false,
            },
            JsonValue::Str(x) => match other {
                JsonValue::Str(y) => *x == *y,
                _ => false,
            },
            JsonValue::Array(xs) => match other {
                JsonValue::Array(ys) => items_equal(xs, ys),
                _ => false,
            },
            JsonValue::Object(xs) => match other {
                JsonValue::Object(ys) => members_equal(xs, ys),
                _ => false,
            },
        }
    }

    /// Makes a structurally equal copy of the value.
    pub fn duplicate(&self) -> (r: JsonValue)
        ensures
            json_eq(r, *self),
        decreases self,
    {
        match self {
            JsonValue::Null => JsonValue::Null,
            JsonValue::Bool(x) => JsonValue::Bool(*x),
            JsonValue::Number(x) => JsonValue::Number(*x),
            JsonValue::Str(x) => JsonValue::Str(x.clone()),
            JsonValue::Array(xs) => JsonValue::Array(copy_items(xs)),
            JsonValue::Object(xs) => JsonValue::Object(copy_fields(xs)),
        }
    }
}

/// Two item lists have the same length and structurally equal items.
pub open spec fn items_eq(a: Seq<JsonValue>, b: Seq<JsonValue>) -> bool {
    &&& a.len() == b.len()
    &&& forall|i: int| 0 <= i < a.len() ==> json_eq(#[trigger] a[i], b[i])
}

/// Two field lists hold the same keys, in the same order, with structurally
/// equal values.
pub open spec fn fields_eq(a: Seq<(String, JsonValue)>, b: Seq<(String, JsonValue)>) -> bool {
    &&& a.len() == b.len()
    &&& forall|i: int|
        #![trigger a[i]]
        0 <= i < a.len() ==> a[i].0@ == b[i].0@ && json_eq(a[i].1, b[i].1)
}

fn items_equal(xs: &Vec<JsonValue>, ys: &Vec<JsonValue>) -> (r: bool)
    ensures
        r == items_eq(xs@, ys@),
    decreases xs,
{
    if xs.len() != ys.len() {
        return false;
    }
    let mut i: usize = 0;
    while i < xs.len()
        invariant
            xs.len() == ys.len(),
            i <= xs.len(),
            forall|j: int| 0 <= j < i ==> json_eq(#[trigger] xs[j], ys[j]),
        decreases xs.len() - i,
    {
        proof {
            assert(decreases_to!(*xs => xs[i as int]));
        }
        if !xs[i].equals(&ys[i]) {
            return false;
        }
        i = i + 1;
    }
    true
}

fn members_equal(xs: &Fields, ys: &Fields) -> (r: bool)
    ensures
        r == fields_eq(xs@, ys@),
    decreases xs,
{
    if xs.len() != ys.len() {
        return false;
    }
    let mut i: usize = 0;
    while i < xs.len()
        invariant
            xs.len() == ys.len(),
            i <= xs.len(),
            forall|j: int|
                #![trigger xs[j]]
                0 <= j < i ==> xs[j].0@ == ys[j].0@ && json_eq(xs[j].1, ys[j].1),
        decreases xs.len() - i,
    {
        proof {
            assert(decreases_to!(*xs => xs[i as int]));
        }
        if xs[i].0 != ys[i].0 || !xs[i].1.equals(&ys[i].1) {
            return false;
        }
        i = i + 1;
    }
    true
}

fn copy_items(xs: &Vec<JsonValue>) -> (r: Vec<JsonValue>)
    ensures
        items_eq(r@, xs@),
    decreases xs,
{
    let mut out: Vec<JsonValue> = Vec::new();
    let mut i: usize = 0;
    while i < xs.len()
        invariant
            i <= xs.len(),
            out.len() == i,
            forall|j: int| 0 <= j < i ==> json_eq(#[trigger] out[j], xs[j]),
        decreases xs.len() - i,
    {
        proof {
            assert(decreases_to!(*xs => xs[i as int]));
        }
        out.push(xs[i].duplicate());
        i = i + 1;
    }
    out
}

/// Makes a copy of a field list whose entries are equal to the original's.
pub fn copy_fields(xs: &Fields) -> (r: Fields)
    ensures
        fields_eq(r@, xs@),
    decreases xs,
{
    let mut out: Fields = Vec::new();
    let mut i: usize = 0;
    while i < xs.len()
        invariant
            i <= xs.len(),
            out.len() == i,
            forall|j: int|
                #![trigger out[j]]
                0 <= j < i ==> out[j].0@ == xs[j].0@ && json_eq(out[j].1, xs[j].1),
        decreases xs.len() - i,
    {
        proof {
            assert(decreases_to!(*xs => xs[i as int]));
        }
        out.push((xs[i].0.clone(), xs[i].1.duplicate()));
        i = i + 1;
    }
    out
}

/// `i` is the position of the first entry of `fields` whose key is `key`.
pub open spec fn first_key_at(fields: Seq<(String, JsonValue)>, key: Seq<char>, i: int) -> bool {
    &&& 0 <= i < fields.len()
    &&& fields[i].0@ == key
    &&& forall|j: int| 0 <= j < i ==> (#[trigger] fields[j]).0@ != key
}

/// No entry of `fields` has the key `key`.
pub open spec fn lacks_key(fields: Seq<(String, JsonValue)>, key: Seq<char>) -> bool {
    forall|j: int| 0 <= j < fields.len() ==> (#[trigger] fields[j]).0@ != key
}

/// The value that `fields` holds under `key` is structurally equal to `v`.
pub open spec fn field_is(fields: Seq<(String, JsonValue)>, key: Seq<char>, v: JsonValue) -> bool {
    exists|i: int| #[trigger] first_key_at(fields, key, i) && json_eq(fields[i].1, v)
}

/// Finds the first entry whose key is `key`.
pub fn find_field(fields: &Fields, key: &String) -> (r: Option<usize>)
    ensures
        match r {
            Some(i) => first_key_at(fields@, key@, i as int),
            None => lacks_key(fields@, key@),
        },
{
    let mut i: usize = 0;
    while i < fields.len()
        invariant
            i <= fields.len(),
            forall|j: int| 0 <= j < i ==> (#[trigger] fields@[j]).0@ != key@,
        decreases fields.len() - i,
    {
        if fields[i].0 == *key {
            return Some(i);
        }
        i = i + 1;
    }
    None
}

/// Finds the first entry whose key is the text `key`.
pub fn find_named(fields: &Fields, key: &str) -> (r: Option<usize>)
    ensures
        match r {
            Some(i) => first_key_at(fields@, key@, i as int),
            None => lacks_key(fields@, key@),
        },
{
    let k = String::from_str(key);
    find_field(fields, &k)
}

/// There is only one first position for a key.
pub proof fn lemma_first_key_unique(fields: Seq<(String, JsonValue)>, key: Seq<char>, i: int, j: int)
    requires
        first_key_at(fields, key, i),
        first_key_at(fields, key, j),
    ensures
        i == j,
{
    if i < j {
        assert(fields[i].0@ != key);
    } else if j < i {
        assert(fields[j].0@ != key);
    }
}

/// The value held under `key`: that of the first entry with that key.
pub open spec fn member(fields: Seq<(String, JsonValue)>, key: Seq<char>) -> Option<JsonValue> {
    if exists|i: int| first_key_at(fields, key, i) {
        Some(fields[choose|i: int| first_key_at(fields, key, i)].1)
    } else {
        None
    }
}

/// The text held under `key`, if the value there is a string.
pub open spec fn str_member(fields: Seq<(String, JsonValue)>, key: Seq<char>) -> Option<Seq<char>> {
    match member(fields, key) {
        Some(JsonValue::Str(s)) => Some(s@),
        _ => None,
    }
}

/// The value held under `key` by an object; `None` for any other value.
pub open spec fn object_member(v: JsonValue, key: Seq<char>) -> Option<JsonValue> {
    match v {
        JsonValue::Object(f) => member(f@, key),
        _ => None,
    }
}

/// The text held under `key` by an object, if it is a string.
pub open spec fn object_str(v: JsonValue, key: Seq<char>) -> Option<Seq<char>> {
    match v {
        JsonValue::Object(f) => str_member(f@, key),
        _ => None,
    }
}

/// The value held under the text `key`.
pub fn get_member<'a>(fields: &'a Fields, key: &str) -> (r: Option<&'a JsonValue>)
    ensures
        match r {
            Some(v) => member(fields@, key@) == Some(*v),
            None => member(fields@, key@) is None,
        },
{
    let k = String::from_str(key);
    match find_field(fields, &k) {
        Some(i) => {
            proof {
                let j = choose|j: int| first_key_at(fields@, key@, j);
                lemma_first_key_unique(fields@, key@, i as int, j);
            }
            Some(&fields[i].1)
        },
        None => {
            proof {
                assert forall|i: int| !first_key_at(fields@, key@, i) by {
                    if 0 <= i < fields@.len() {
                        assert(fields@[i].0@ != key@);
                    }
                }
            }
            None
        },
    }
}

/// The text held under `key` by an object, if it is a string.
pub fn get_str<'a>(v: &'a JsonValue, key: &str) -> (r: Option<&'a String>)
    ensures
        match r {
            Some(s) => object_str(*v, key@) == Some(s@),
            None => object_str(*v, key@) is None,
        },
{
    match v {
        JsonValue::Object(f) => match get_member(f, key) {
            Some(JsonValue::Str(s)) => Some(s),
            _ => None,
        },
        _ => None,
    }
}

/// The value held under `key` by an object.
pub fn get_object_member<'a>(v: &'a JsonValue, key: &str) -> (r: Option<&'a JsonValue>)
    ensures
        match r {
            Some(m) => object_member(*v, key@) == Some(*m),
            None => object_member(*v, key@) is None,
        },
{
    match v {
        JsonValue::Object(f) => get_member(f, key),
        _ => None,
    }
}

} // verus!
