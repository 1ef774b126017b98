//! The library's model of the loosely-typed JSON payloads the providers
//! send: a decoded value tree with lenient accessors ("string or empty",
//! "number-as-string or zero") used uniformly by the adapters, and the
//! trusted decoding step through serde_json.

use vstd::prelude::*;
use crate::text::chars_parse_u64;
use crate::text::spec_parse_u64;
use crate::text::str_eq;

verus! {

/// A decoded JSON document. Numbers are narrowed to what the adapters
/// read: the value when it fits an unsigned 64-bit integer, nothing
/// otherwise.
#[derive(Debug)]
pub enum JsonValue {
    Null,
    Bool(bool),
    Num(Option<u64>),
    Str(String),
    Arr(Vec<JsonValue>),
    Obj(Vec<JsonField>),
}

/// One field of a JSON object.
#[derive(Debug)]
pub struct JsonField {
    pub name: String,
    pub value: JsonValue,
}

/// The index of the first object field with the given name, if any.
pub open spec fn assoc_find(fields: Seq<JsonField>, key: Seq<char>) -> Option<int>
    decreases fields.len(),
{
    if fields.len() == 0 {
        None
    } else if fields[0].name@ == key {
        Some(0)
    } else {
        match assoc_find(fields.drop_first(), key) {
            None => None,
            Some(i) => Some(i + 1),
        }
    }
}

/// What `assoc_find` returns: the first field with that name, or nothing.
pub proof fn lemma_assoc_find(fields: Seq<JsonField>, key: Seq<char>)
    ensures
        match assoc_find(fields, key) {
            None => forall|i: int| 0 <= i < fields.len() ==> fields[i].name@ != key,
            Some(i) => 0 <= i < fields.len() && fields[i].name@ == key && forall|k: int|
                0 <= k < i ==> fields[k].name@ != key,
        },
    decreases fields.len(),
{
    if fields.len() == 0 {
    } else if fields[0].name@ == key {
    } else {
        lemma_assoc_find(fields.drop_first(), key);
        match assoc_find(fields.drop_first(), key) {
            None => {
                assert forall|i: int| 0 <= i < fields.len() implies fields[i].name@ != key by {
                    if i > 0 {
                        assert(fields.drop_first()[i - 1] == fields[i]);
                    }
                }
            },
            Some(j) => {
                assert(fields.drop_first()[j] == fields[j + 1]);
                assert forall|k: int| 0 <= k < j + 1 implies fields[k].name@ != key by {
                    if k > 0 {
                        assert(fields.drop_first()[k - 1] == fields[k]);
                    }
                }
            },
        }
    }
}

impl JsonValue {
    /// Object-field lookup: the first field with that name, on objects
    /// only.
    pub open spec fn spec_get(self, key: Seq<char>) -> Option<JsonValue> {
        match self {
            JsonValue::Obj(fields) => match assoc_find(fields@, key) {
                None => None,
                Some(i) => Some(fields@[i].value),
            },
            _ => None,
        }
    }

    pub open spec fn spec_str(self) -> Option<Seq<char>> {
        match self {
            JsonValue::Str(s) => Some(s@),
            _ => None,
        }
    }

    /// `as_str().unwrap_or_default()`: the string's characters, or empty.
    pub open spec fn spec_str_or_empty(self) -> Seq<char> {
        match self {
            JsonValue::Str(s) => s@,
            _ => Seq::empty(),
        }
    }

    /// `as_u64()`: the numeric value when the field is a number that fits.
    pub open spec fn spec_u64(self) -> Option<u64> {
        match self {
            JsonValue::Num(n) => n,
            _ => None,
        }
    }

    /// `as_u64().unwrap_or_default()`.
    pub open spec fn spec_u64_or_zero(self) -> u64 {
        match self.spec_u64() {
            Some(v) => v,
            None => 0,
        }
    }

    /// The "numeric field encoded as a string" policy: parse the string
    /// as a decimal number, and default to zero for anything else.
    pub open spec fn spec_str_u64_or_zero(self) -> u64 {
        match spec_parse_u64(self.spec_str_or_empty()) {
            Some(v) => v,
            None => 0,
        }
    }

    pub open spec fn spec_arr(self) -> Option<Seq<JsonValue>> {
        match self {
            JsonValue::Arr(items) => Some(items@),
            _ => None,
        }
    }

    pub open spec fn spec_is_obj(self) -> bool {
        self is Obj
    }

    /// Looks up an object field by name; `None` on non-objects and
    /// missing fields.
    #[verifier::rlimit(50)]
    #[verifier::loop_isolation(false)]
    pub fn get<'a>(&'a self, key: &str) -> (r: Option<&'a JsonValue>)
        ensures
            match r {
                Some(v) => self.spec_get(key@) == Some(*v),
                None => self.spec_get(key@) is None,
            },
    {
        match self {
            JsonValue::Obj(fields) => {
                proof {
                    lemma_assoc_find(fields@, key@);
                }
                let mut i: usize = 0;
                while i < fields.len()
                    invariant
                        i <= fields@.len(),
                        forall|k: int| 0 <= k < i ==> fields@[k].name@ != key@,
                    decreases fields@.len() - i,
                {
                    if str_eq(fields[i].name.as_str(), key) {
                        proof {
                            lemma_assoc_find(fields@, key@);
                            match assoc_find(fields@, key@) {
                                None => {
                                    assert(fields@[i as int].name@ == key@);
                                },
                                Some(j) => {
                                    if j < i {
                                        assert(fields@[j].name@ != key@);
                                    }
                                    if j > i {
                                        assert(fields@[i as int].name@ != key@);
                                    }
                                },
                            }
                        }
                        assert(self.spec_get(key@) == Some(fields@[i as int].value));
                        return Some(&fields[i].value);
                    }
                    i = i + 1;
                }
                proof {
                    lemma_assoc_find(fields@, key@);
                    if assoc_find(fields@, key@) is Some {
                        let j = assoc_find(fields@, key@)->0;
                        assert(fields@[j].name@ != key@);
                    }
                    assert(self.spec_get(key@) is None);
                }
                None
            },
            _ => None,
        }
    }

    /// The string's characters, or an empty string for anything else.
    pub fn str_or_empty(&self) -> (r: String)
        ensures
            r@ == self.spec_str_or_empty(),
    {
        match self {
            JsonValue::Str(s) => {
                let r = s.clone();
                r
            },
            _ => String::new(),
        }
    }

    /// The string value itself, if this is a string.
    pub fn as_str(&self) -> (r: Option<&String>)
        ensures
            match r {
                Some(s) => self.spec_str() == Some(s@),
                None => self.spec_str() is None,
            },
    {
        match self {
            JsonValue::Str(s) => Some(s),
            _ => None,
        }
    }

    /// The number, when this is a number that fits 64 unsigned bits.
    pub fn as_u64(&self) -> (r: Option<u64>)
        ensures
            r == self.spec_u64(),
    {
        match self {
            JsonValue::Num(n) => *n,
            _ => None,
        }
    }

    pub fn u64_or_zero(&self) -> (r: u64)
        ensures
            r == self.spec_u64_or_zero(),
    {
        match self.as_u64() {
            Some(v) => v,
            None => 0,
        }
    }

    /// A numeric field encoded as a string: best effort, zero on absence
    /// or malformation.
    pub fn str_u64_or_zero(&self) -> (r: u64)
        ensures
            r == self.spec_str_u64_or_zero(),
    {
        match self {
            JsonValue::Str(s) => {
                let cs = crate::text::str_chars(s.as_str());
                match chars_parse_u64(&cs) {
                    Some(v) => v,
                    None => 0,
                }
            },
            _ => {
                proof {
                    assert(self.spec_str_or_empty() =~= Seq::<char>::empty());
                    assert(spec_parse_u64(Seq::<char>::empty()) is None);
                }
                0
            },
        }
    }

    /// The element list, if this is an array.
    pub fn as_arr(&self) -> (r: Option<&Vec<JsonValue>>)
        ensures
            match r {
                Some(items) => self.spec_arr() == Some(items@),
                None => self.spec_arr() is None,
            },
    {
        match self {
            JsonValue::Arr(items) => Some(items),
            _ => None,
        }
    }

    /// Whether this value is a JSON object.
    pub fn is_obj(&self) -> (r: bool)
        ensures
            r == self.spec_is_obj(),
    {
        match self {
            JsonValue::Obj(_) => true,
            _ => false,
        }
    }
}

/// `json["key"]` -style indexing: the field's value, or `Null` when the
/// value is no object or has no such field.
pub open spec fn jget(v: JsonValue, key: Seq<char>) -> JsonValue {
    match v.spec_get(key) {
        Some(x) => x,
        None => JsonValue::Null,
    }
}

/// Two levels of `json["a"]["b"]` indexing.
pub open spec fn jget2(v: JsonValue, k1: Seq<char>, k2: Seq<char>) -> JsonValue {
    jget(jget(v, k1), k2)
}

/// `json[key]` as a string, or empty: the uniform lenient text accessor.
pub fn get_str_or_empty(v: &JsonValue, key: &str) -> (r: String)
    ensures
        r@ == jget(*v, key@).spec_str_or_empty(),
{
    match v.get(key) {
        Some(x) => x.str_or_empty(),
        None => String::new(),
    }
}

/// `json[key]` as a string when it is a non-absent string field.
pub fn get_opt_str(v: &JsonValue, key: &str) -> (r: Option<String>)
    ensures
        r.deep_view() == jget(*v, key@).spec_str(),
{
    match v.get(key) {
        Some(x) => match x.as_str() {
            Some(s) => Some(s.clone()),
            None => None,
        },
        None => None,
    }
}

/// `json[key]` as a string-encoded number, zero on absence or garbage.
pub fn get_str_u64_or_zero(v: &JsonValue, key: &str) -> (r: u64)
    ensures
        r == jget(*v, key@).spec_str_u64_or_zero(),
{
    match v.get(key) {
        Some(x) => x.str_u64_or_zero(),
        None => {
            proof {
                assert(JsonValue::Null.spec_str_or_empty() =~= Seq::<char>::empty());
                assert(spec_parse_u64(Seq::<char>::empty()) is None);
            }
            0
        },
    }
}

/// `json[key]` as a number, zero when absent or not a number that fits.
pub fn get_u64_or_zero(v: &JsonValue, key: &str) -> (r: u64)
    ensures
        r == jget(*v, key@).spec_u64_or_zero(),
{
    match v.get(key) {
        Some(x) => x.u64_or_zero(),
        None => 0,
    }
}

/// `json[key]` as a number when present and representable.
pub fn get_opt_u64(v: &JsonValue, key: &str) -> (r: Option<u64>)
    ensures
        r == jget(*v, key@).spec_u64(),
{
    match v.get(key) {
        Some(x) => x.as_u64(),
        None => None,
    }
}

/// What decoding a JSON text yields: a function of the text alone.
pub uninterp spec fn json_of(text: Seq<char>) -> Option<JsonValue>;

#[verifier::external_type_specification]
#[verifier::external_body]
pub struct ExSerdeValue(serde_json::Value);

/// Relies on serde_json::from_str::<serde_json::Value>: decoding a JSON
/// document is deterministic in the text, so its result carries the name
/// `json_of`; a text that is not valid JSON decodes to nothing.
#[verifier::external_body]
pub(crate) fn decode_json(text: &str) -> (r: Option<JsonValue>)
    ensures
        r == json_of(text@),
{
    match serde_json::from_str::<serde_json::Value>(text) {
        Ok(v) => Some(value_to_model(&v)),
        Err(_) => None,
    }
}

/// Relies on serde_json::Value and serde_json::Number::as_u64: carries
/// each variant of the decoded tree over into the library's model, one
/// arm per variant, keeping a number's value when it has a u64 one. Only
/// `decode_json` calls this; its contract covers both.
#[verifier::external_body]
fn value_to_model(v: &serde_json::Value) -> JsonValue {
    match v {
        serde_json::Value::Null => JsonValue::Null,
        serde_json::Value::Bool(b) => JsonValue::Bool(*b),
        serde_json::Value::Number(n) => JsonValue::Num(n.as_u64()),
        serde_json::Value::String(s) => JsonValue::Str(s.clone()),
        serde_json::Value::Array(a) => JsonValue::Arr(a.iter().map(value_to_model).collect()),
        serde_json::Value::Object(o) => JsonValue::Obj(
            o.iter().map(
                |p| JsonField { name: p.0.clone(), value: value_to_model(p.1) },
            ).collect(),
        ),
    }
}

} // verus!
