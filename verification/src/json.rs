use vstd::prelude::*;

verus! {

/// The mathematical model of a JSON value: what a `JsonValue` holds.
pub enum Jv {
    I64(i64),
    U64(u64),
    /// A floating-point number, held by the bits of its `f64` encoding.
    F64Bits(u64),
    Str(Seq<char>),
    Boolean(bool),
    Arr(Seq<Jv>),
    Obj(Seq<(Seq<char>, Jv)>),
    Null,
}

/// A JSON value. Objects keep their entries in insertion order; a key
/// looked up in an object finds its last entry, as when the entries are
/// inserted one by one into a map.
pub enum JsonValue {
    I64(i64),
    U64(u64),
    F64Bits(u64),
    String(String),
    Boolean(bool),
    Array(Vec<JsonValue>),
    Object(Vec<(String, JsonValue)>),
    Null,
}

pub open spec fn models(s: Seq<JsonValue>) -> Seq<Jv>
    decreases s,
{
    Seq::new(s.len(), |i: int| if 0 <= i < s.len() { s[i].model() } else { Jv::Null })
}

pub open spec fn entry_models(s: Seq<(String, JsonValue)>) -> Seq<(Seq<char>, Jv)>
    decreases s,
{
    Seq::new(
        s.len(),
        |i: int| if 0 <= i < s.len() { (s[i].0@, s[i].1.model()) } else { (Seq::empty(), Jv::Null) },
    )
}

impl JsonValue {
    pub open spec fn model(self) -> Jv
        decreases self,
    {
        match self {
            JsonValue::I64(n) => Jv::I64(n),
            JsonValue::U64(n) => Jv::U64(n),
            JsonValue::F64Bits(n) => Jv::F64Bits(n),
            JsonValue::String(s) => Jv::Str(s@),
            JsonValue::Boolean(b) => Jv::Boolean(b),
            JsonValue::Array(v) => Jv::Arr(
                Seq::new(v@.len(), |i: int| if 0 <= i < v@.len() { v@[i].model() } else { Jv::Null }),
            ),
            JsonValue::Object(v) => Jv::Obj(
                Seq::new(
                    v@.len(),
                    |i: int|
                        if 0 <= i < v@.len() {
                            (v@[i].0@, v@[i].1.model())
                        } else {
                            (Seq::empty(), Jv::Null)
                        },
                ),
            ),
            JsonValue::Null => Jv::Null,
        }
    }
}

impl View for JsonValue {
    type V = Jv;

    open spec fn view(&self) -> Jv {
        self.model()
    }
}

/// The number a JSON value holds as a `u64`, where it holds one.
pub open spec fn jv_as_u64(j: Jv) -> Option<u64> {
    match j {
        Jv::I64(n) => if n >= 0 { Some(n as u64) } else { None },
        Jv::U64(n) => Some(n),
        _ => None,
    }
}

/// The value of the last entry of `entries` under `key`.
pub open spec fn jv_obj_get(entries: Seq<(Seq<char>, Jv)>, key: Seq<char>) -> Option<Jv>
    decreases entries.len(),
{
    if entries.len() == 0 {
        None
    } else if entries.last().0 == key {
        Some(entries.last().1)
    } else {
        jv_obj_get(entries.drop_last(), key)
    }
}

/// The value under `key` when `j` is an object.
pub open spec fn jv_get(j: Jv, key: Seq<char>) -> Option<Jv> {
    match j {
        Jv::Obj(entries) => jv_obj_get(entries, key),
        _ => None,
    }
}

pub proof fn lemma_array_model(v: Vec<JsonValue>)
    ensures
        JsonValue::Array(v)@ == Jv::Arr(models(v@)),
        models(v@).len() == v@.len(),
{
    assert(JsonValue::Array(v)@->Arr_0 =~= models(v@));
}

pub proof fn lemma_object_model(v: Vec<(String, JsonValue)>)
    ensures
        JsonValue::Object(v)@ == Jv::Obj(entry_models(v@)),
        entry_models(v@).len() == v@.len(),
{
    assert(JsonValue::Object(v)@->Obj_0 =~= entry_models(v@));
}

pub proof fn lemma_models_push(s: Seq<JsonValue>, x: JsonValue)
    ensures
        models(s.push(x)) == models(s).push(x@),
{
    assert(models(s.push(x)) =~= models(s).push(x@));
}

pub proof fn lemma_entry_models_push(s: Seq<(String, JsonValue)>, x: (String, JsonValue))
    ensures
        entry_models(s.push(x)) == entry_models(s).push((x.0@, x.1@)),
{
    assert(entry_models(s.push(x)) =~= entry_models(s).push((x.0@, x.1@)));
}

/// Builds a JSON array from its elements.
pub fn json_array(v: Vec<JsonValue>) -> (r: JsonValue)
    ensures
        r@ == Jv::Arr(models(v@)),
{
    proof {
        lemma_array_model(v);
    }
    JsonValue::Array(v)
}

/// Builds a JSON object from its entries.
pub fn json_object(v: Vec<(String, JsonValue)>) -> (r: JsonValue)
    ensures
        r@ == Jv::Obj(entry_models(v@)),
{
    proof {
        lemma_object_model(v);
    }
    JsonValue::Object(v)
}

/// Builds a JSON string from a string slice.
pub fn json_str(s: &str) -> (r: JsonValue)
    ensures
        r@ == Jv::Str(s@),
{
    JsonValue::String(s.to_owned())
}

/// Builds an object entry from a key and a value.
pub fn json_entry(key: &str, value: JsonValue) -> (r: (String, JsonValue))
    ensures
        r.0@ == key@,
        r.1 == value,
{
    (key.to_owned(), value)
}

/// Whether two strings hold the same characters.
pub fn str_eq(a: &str, b: &str) -> (r: bool)
    ensures
        r == (a@ == b@),
{
    let sa = a.to_owned();
    let sb = b.to_owned();
    sa == sb
}

impl JsonValue {
    /// The number this value holds as a `u64`: a `U64`, or an `I64` that is not negative.
    pub fn as_u64(&self) -> (r: Option<u64>)
        ensures
            r == jv_as_u64(self@),
    {
        match self {
            JsonValue::I64(n) => if *n >= 0 {
                Some(*n as u64)
            } else {
                None
            },
            JsonValue::U64(n) => Some(*n),
            _ => None,
        }
    }

    pub fn is_object(&self) -> (r: bool)
        ensures
            r == (self@ is Obj),
    {
        match self {
            JsonValue::Object(_) => true,
            _ => false,
        }
    }

    /// The elements of this value when it is an array.
    pub fn as_array(&self) -> (r: Option<&Vec<JsonValue>>)
        ensures
            self@ is Arr <==> r is Some,
            r matches Some(v) ==> self@ == Jv::Arr(models(v@)),
    {
        match self {
            JsonValue::Array(v) => {
                proof {
                    lemma_array_model(*v);
                }
                Some(v)
            },
            _ => None,
        }
    }

    /// The entries of this value when it is an object.
    pub fn as_object(&self) -> (r: Option<&Vec<(String, JsonValue)>>)
        ensures
            self@ is Obj <==> r is Some,
            r matches Some(v) ==> self@ == Jv::Obj(entry_models(v@)),
    {
        match self {
            JsonValue::Object(v) => {
                proof {
                    lemma_object_model(*v);
                }
                Some(v)
            },
            _ => None,
        }
    }

    /// The characters of this value when it is a string.
    pub fn as_string(&self) -> (r: Option<&String>)
        ensures
            self@ is Str <==> r is Some,
            r matches Some(s) ==> self@ == Jv::Str(s@),
    {
        match self {
            JsonValue::String(s) => Some(s),
            _ => None,
        }
    }

    /// The value under `key` when this value is an object: the last entry with that key.
    pub fn get(&self, key: &str) -> (r: Option<&JsonValue>)
        ensures
            match jv_get(self@, key@) {
                Some(j) => r is Some && r->0@ == j,
                None => r is None,
            },
    {
        match self {
            JsonValue::Object(entries) => {
                proof {
                    lemma_object_model(*entries);
                }
                let ghost em = entry_models(entries@);
                let mut i = entries.len();
                assert(em.take(i as int) =~= em);
                while i > 0
                    invariant
                        i <= entries@.len(),
                        em == entry_models(entries@),
                        self@ == Jv::Obj(em),
                        jv_obj_get(em, key@) == jv_obj_get(em.take(i as int), key@),
                    decreases i,
                {
                    let ghost pre = em.take(i as int);
                    assert(pre.drop_last() =~= em.take(i - 1));
                    assert(pre.last() == em[i - 1]);
                    if str_eq(entries[i - 1].0.as_str(), key) {
                        return Some(&entries[i - 1].1);
                    }
                    i = i - 1;
                }
                None
            },
            _ => None,
        }
    }
}

} // verus!
