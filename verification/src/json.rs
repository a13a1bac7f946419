//! JSON values.

use vstd::prelude::*;

verus! {

/// A JSON number, kept as serde_json keeps it.
#[derive(Debug, Clone, PartialEq)]
pub enum JsonNumber {
    /// A non-negative integer.
    PosInt(u64),
    /// A negative integer.
    NegInt(i64),
    /// A floating-point number, by its decimal text.
    Float(String),
}

/// A JSON value.
#[derive(Debug, PartialEq)]
pub enum JsonValue {
    Null,
    Bool(bool),
    Number(JsonNumber),
    String(String),
    Array(Vec<JsonValue>),
    Object(Vec<(String, JsonValue)>),
}

/// Mathematical model of a JSON number.
pub ghost enum NumModel {
    Int(int),
    Float(Seq<char>),
}

/// Mathematical model of a JSON value.
pub ghost enum Json {
    Null,
    Bool(bool),
    Num(NumModel),
    Str(Seq<char>),
    Arr(Seq<Json>),
    Obj(Seq<(Seq<char>, Json)>),
}

impl JsonNumber {
    pub open spec fn model(&self) -> NumModel {
        match self {
            JsonNumber::PosInt(u) => NumModel::Int(*u as int),
            JsonNumber::NegInt(i) => NumModel::Int(*i as int),
            JsonNumber::Float(s) => NumModel::Float(s@),
        }
    }
}

impl JsonValue {
    pub open spec fn model(&self) -> Json
        decreases self,
    {
        match self {
            JsonValue::Null => Json::Null,
            JsonValue::Bool(b) => Json::Bool(*b),
            JsonValue::Number(n) => Json::Num(n.model()),
            JsonValue::String(s) => Json::Str(s@),
            JsonValue::Array(v) => Json::Arr(
                Seq::new(
                    v@.len(),
                    |i: int|
                        if 0 <= i < v@.len() {
                            proof {
                                vstd::std_specs::vec::axiom_vec_index_decreases(*v, i);
                            }
                            v[i].model()
                        } else {
                            Json::Null
                        },
                ),
            ),
            JsonValue::Object(v) => Json::Obj(
                Seq::new(
                    v@.len(),
                    |i: int|
                        if 0 <= i < v@.len() {
                            proof {
                                vstd::std_specs::vec::axiom_vec_index_decreases(*v, i);
                            }
                            (v[i].0@, v[i].1.model())
                        } else {
                            (Seq::empty(), Json::Null)
                        },
                ),
            ),
        }
    }
}

impl JsonNumber {
    /// A copy of the number.
    pub fn copy(&self) -> (r: JsonNumber)
        ensures
            r.model() == self.model(),
    {
        match self {
            JsonNumber::PosInt(u) => JsonNumber::PosInt(*u),
            JsonNumber::NegInt(i) => JsonNumber::NegInt(*i),
            JsonNumber::Float(s) => JsonNumber::Float(s.clone()),
        }
    }

    /// Whether the number is held as a float (`serde_json::Number::is_f64`).
    pub fn is_float(&self) -> (b: bool)
        ensures
            b == (self.model() is Float),
    {
        match self {
            JsonNumber::Float(_) => true,
            _ => false,
        }
    }
}

impl JsonValue {
    /// A copy of the value, equal to it as JSON.
    pub fn deep_copy(&self) -> (r: JsonValue)
        ensures
            r.model() == self.model(),
        decreases self,
    {
        match self {
            JsonValue::Null => JsonValue::Null,
            JsonValue::Bool(b) => JsonValue::Bool(*b),
            JsonValue::Number(n) => JsonValue::Number(n.copy()),
            JsonValue::String(s) => JsonValue::String(s.clone()),
            JsonValue::Array(v) => {
                let mut w: Vec<JsonValue> = Vec::new();
                let mut i: usize = 0;
                while i < v.len()
                    invariant
                        i <= v.len(),
                        w@.len() == i,
                        *self == JsonValue::Array(*v),
                        forall|j: int| 0 <= j < i ==> (#[trigger] w@[j]).model() == v@[j].model(),
                    decreases v.len() - i,
                {
                    proof {
                        vstd::std_specs::vec::axiom_vec_index_decreases(*v, i as int);
                        assert(decreases_to!(*self => (*self)->Array_0));
                        assert(decreases_to!(*v => v[i as int]));
                        assert(decreases_to!(*self => v[i as int]));
                    }
                    let c = v[i].deep_copy();
                    w.push(c);
                    i += 1;
                }
                let r = JsonValue::Array(w);
                proof {
                    assert(r.model() == self.model()) by {
                        if let Json::Arr(a) = r.model() {
                            if let Json::Arr(b) = self.model() {
                                assert(a =~= b);
                            }
                        }
                    }
                }
                r
            },
            JsonValue::Object(v) => {
                let mut w: Vec<(String, JsonValue)> = Vec::new();
                let mut i: usize = 0;
                while i < v.len()
                    invariant
                        i <= v.len(),
                        w@.len() == i,
                        *self == JsonValue::Object(*v),
                        forall|j: int|
                            0 <= j < i ==> (#[trigger] w@[j]).0@ == v@[j].0@ && w@[j].1.model()
                                == v@[j].1.model(),
                    decreases v.len() - i,
                {
                    proof {
                        vstd::std_specs::vec::axiom_vec_index_decreases(*v, i as int);
                        assert(decreases_to!(*self => (*self)->Object_0));
                        assert(decreases_to!(*v => v[i as int]));
                        assert(decreases_to!(v[i as int] => v[i as int].1));
                        assert(decreases_to!(*self => v[i as int].1));
                    }
                    let c = v[i].1.deep_copy();
                    let k = v[i].0.clone();
                    w.push((k, c));
                    i += 1;
                }
                let r = JsonValue::Object(w);
                proof {
                    assert(r.model() == self.model()) by {
                        if let Json::Obj(a) = r.model() {
                            if let Json::Obj(b) = self.model() {
                                assert(a =~= b);
                            }
                        }
                    }
                }
                r
            },
        }
    }
}

/// Whether `serde_json::from_str::<serde_json::Value>` accepts a text as
/// one JSON value (RFC 8259, as serde_json reads it).
pub uninterp spec fn is_json_text(s: Seq<char>) -> bool;

/// Calls `serde_json::from_str::<serde_json::Value>` and reports whether it
/// succeeded; the outcome depends on the text alone.
#[verifier::external_body]
pub(crate) fn parses_as_json(s: &str) -> (b: bool)
    ensures
        b == is_json_text(s@),
{
    serde_json::from_str::<serde_json::Value>(s).is_ok()
}

/// The value of the first field named `k` (`serde_json::Map::get`).
pub open spec fn field_of(fs: Seq<(Seq<char>, Json)>, k: Seq<char>) -> Option<Json>
    decreases fs.len(),
{
    if fs.len() == 0 {
        None
    } else if fs[0].0 == k {
        Some(fs[0].1)
    } else {
        field_of(fs.drop_first(), k)
    }
}

/// The model of an object's fields.
pub open spec fn obj_fields(fields: Seq<(String, JsonValue)>) -> Seq<(Seq<char>, Json)> {
    Seq::new(fields.len(), |i: int| (fields[i].0@, fields[i].1.model()))
}

/// The value of the first field named `k` of an object's fields.
pub fn get_field<'a>(fields: &'a Vec<(String, JsonValue)>, k: &str) -> (r: Option<&'a JsonValue>)
    ensures
        match r {
            Some(v) => field_of(obj_fields(fields@), k@) == Some(v.model()),
            None => field_of(obj_fields(fields@), k@) is None,
        },
{
    let mut i: usize = 0;
    assert(obj_fields(fields@).skip(0) =~= obj_fields(fields@));
    while i < fields.len()
        invariant
            i <= fields.len(),
            field_of(obj_fields(fields@), k@) == field_of(obj_fields(fields@).skip(i as int), k@),
        decreases fields.len() - i,
    {
        proof {
            assert(obj_fields(fields@).skip(i as int).drop_first() =~= obj_fields(fields@).skip(
                i + 1,
            ));
        }
        if crate::text::str_eq(fields[i].0.as_str(), k) {
            return Some(&fields[i].1);
        }
        i += 1;
    }
    None
}

/// The member `k` of an object (`value[k]` when it is not null).
pub open spec fn json_get(j: Json, k: Seq<char>) -> Option<Json> {
    match j {
        Json::Obj(fs) => field_of(fs, k),
        _ => None,
    }
}

/// The element `i` of an array.
pub open spec fn json_at(j: Json, i: int) -> Option<Json> {
    match j {
        Json::Arr(a) => if 0 <= i < a.len() {
            Some(a[i])
        } else {
            None
        },
        _ => None,
    }
}

/// The text of a string value.
pub open spec fn json_str(j: Option<Json>) -> Option<Seq<char>> {
    match j {
        Some(Json::Str(s)) => Some(s),
        _ => None,
    }
}

impl JsonValue {
    /// The member `k` of an object.
    pub fn get(&self, k: &str) -> (r: Option<&JsonValue>)
        ensures
            match r {
                Some(v) => json_get(self.model(), k@) == Some(v.model()),
                None => json_get(self.model(), k@) is None,
            },
    {
        match self {
            JsonValue::Object(fields) => {
                assert(self.model()->Obj_0 =~= obj_fields(fields@));
                get_field(fields, k)
            },
            _ => None,
        }
    }

    /// The element `i` of an array.
    pub fn at(&self, i: usize) -> (r: Option<&JsonValue>)
        ensures
            match r {
                Some(v) => json_at(self.model(), i as int) == Some(v.model()),
                None => json_at(self.model(), i as int) is None,
            },
    {
        match self {
            JsonValue::Array(items) => {
                if i < items.len() {
                    Some(&items[i])
                } else {
                    None
                }
            },
            _ => None,
        }
    }

    /// The text of a string value.
    pub fn as_str(&self) -> (r: Option<&str>)
        ensures
            match r {
                Some(s) => json_str(Some(self.model())) == Some(s@),
                None => json_str(Some(self.model())) is None,
            },
    {
        match self {
            JsonValue::String(s) => Some(s.as_str()),
            _ => None,
        }
    }
}

/// The model of an object is the model of its fields.
pub proof fn lemma_object_model(fields: Vec<(String, JsonValue)>)
    ensures
        JsonValue::Object(fields).model() == Json::Obj(obj_fields(fields@)),
{
    assert(JsonValue::Object(fields).model()->Obj_0 =~= obj_fields(fields@));
}

/// The model of an array is the models of its items.
pub proof fn lemma_array_model(items: Vec<JsonValue>)
    ensures
        JsonValue::Array(items).model() == Json::Arr(
            Seq::new(items@.len(), |i: int| items@[i].model()),
        ),
{
    assert(JsonValue::Array(items).model()->Arr_0 =~= Seq::new(
        items@.len(),
        |i: int| items@[i].model(),
    ));
}

} // verus!
