//! JSON documents as the library reads them: the values that `serde_json`
//! decodes, held as plain data, and lookups in them.
use vstd::prelude::*;

verus! {

/// A JSON number as `serde_json` keeps it: a non-negative integer, a
/// negative integer, or a floating-point number (whose value the library
/// never reads).
#[derive(Debug, Clone, Copy, PartialEq, Eq, Structural)]
pub enum JsonNumber {
    PosInt(u64),
    NegInt(i64),
    Float,
}

/// A JSON value. An object keeps its members in `serde_json`'s order
/// (sorted by key, each key once).
#[derive(Debug)]
pub enum Json {
    Null,
    Bool(bool),
    Number(JsonNumber),
    Str(String),
    Array(Vec<Json>),
    Object(Vec<(String, Json)>),
}

#[verifier::external_type_specification]
#[verifier::external_body]
pub struct ExJsonValue(serde_json::Value);

/// The value that `serde_json::from_str::<serde_json::Value>` decodes from a
/// text, or `None` where it reports an error.
pub uninterp spec fn json_decoded(text: Seq<char>) -> Option<Json>;

/// `serde_json::from_str::<serde_json::Value>`: the contract names the
/// decoded value, and says nothing of the JSON grammar.
#[verifier::external_body]
pub(crate) fn parse_json(text: &str) -> (r: Option<Json>)
    ensures
        r == json_decoded(text@),
{
    match serde_json::from_str::<serde_json::Value>(text) {
        Ok(v) => Some(json_from_value(v)),
        Err(_) => None,
    }
}

/// Moves a `serde_json::Value` into a `Json`, variant by variant (numbers by
/// `as_u64`/`as_i64`, which tell serde_json's three kinds of number apart).
#[verifier::external_body]
fn json_from_value(v: serde_json::Value) -> Json {
    match v {
        serde_json::Value::Null => Json::Null,
        serde_json::Value::Bool(b) => Json::Bool(b),
        serde_json::Value::Number(n) => Json::Number(match (n.as_u64(), n.as_i64()) {
            (Some(u), _) => JsonNumber::PosInt(u),
            (None, Some(i)) => JsonNumber::NegInt(i),
            (None, None) => JsonNumber::Float,
        }),
        serde_json::Value::String(s) => Json::Str(s),
        serde_json::Value::Array(a) => Json::Array(a.into_iter().map(json_from_value).collect()),
        serde_json::Value::Object(m) => Json::Object(m.into_iter().map(|(k, x)| (k, json_from_value(x))).collect()),
    }
}

/// The value of the first member named `key`.
pub open spec fn member_of(es: Seq<(String, Json)>, key: Seq<char>) -> Option<Json>
    decreases es.len(),
{
    if es.len() == 0 {
        None
    } else if es[0].0@ == key {
        Some(es[0].1)
    } else {
        member_of(es.drop_first(), key)
    }
}

/// Looking a key up among two runs of members: the first run's member when
/// it has one, else the second's; a run without the key yields nothing.
pub proof fn member_lookup_takes_the_first(a: Seq<(String, Json)>, b: Seq<(String, Json)>, key: Seq<char>)
    ensures
        member_of(a + b, key) == match member_of(a, key) {
            Some(v) => Some(v),
            None => member_of(b, key),
        },
        (forall|i: int| 0 <= i < a.len() ==> (#[trigger] a[i]).0@ != key) ==> member_of(a, key)
            is None,
    decreases a.len(),
{
    if a.len() == 0 {
        assert(a + b =~= b);
    } else {
        assert((a + b)[0] == a[0]);
        assert((a + b).drop_first() =~= a.drop_first() + b);
        member_lookup_takes_the_first(a.drop_first(), b, key);
        if forall|i: int| 0 <= i < a.len() ==> (#[trigger] a[i]).0@ != key {
            assert(a[0].0@ != key);
            assert forall|i: int| 0 <= i < a.drop_first().len() implies (
            #[trigger] a.drop_first()[i]).0@ != key by {
                assert(a.drop_first()[i] == a[i + 1]);
            }
        }
    }
}

/// `Value::get` with a string key: the member of an object, else `None`.
pub open spec fn json_get(v: Json, key: Seq<char>) -> Option<Json> {
    match v {
        Json::Object(es) => member_of(es@, key),
        _ => None,
    }
}

/// `Value::as_str`, on a looked-up value.
pub open spec fn json_as_str(v: Option<Json>) -> Option<Seq<char>> {
    match v {
        Some(Json::Str(s)) => Some(s@),
        _ => None,
    }
}

/// `Value::as_u64`, on a looked-up value.
pub open spec fn json_as_u64(v: Option<Json>) -> Option<u64> {
    match v {
        Some(Json::Number(JsonNumber::PosInt(n))) => Some(n),
        _ => None,
    }
}

impl Json {
    /// The member named `key`, when this is an object that has one.
    pub fn get(&self, key: &str) -> (r: Option<&Json>)
        ensures
            match r {
                Some(x) => json_get(*self, key@) == Some(*x),
                None => json_get(*self, key@) is None,
            },
    {
        match self {
            Json::Object(es) => {
                let k = String::from_str(key);
                let mut i: usize = 0;
                assert(es@.skip(0) =~= es@);
                while i < es.len()
                    invariant
                        i <= es.len(),
                        k@ == key@,
                        json_get(*self, key@) == member_of(es@, key@),
                        member_of(es@, key@) == member_of(es@.skip(i as int), key@),
                    decreases es.len() - i,
                {
                    assert(es@.skip(i as int)[0] == es@[i as int]);
                    assert(es@.skip(i as int).drop_first() =~= es@.skip(i + 1));
                    if es[i].0 == k {
                        return Some(&es[i].1);
                    }
                    i = i + 1;
                }
                None
            },
            _ => None,
        }
    }

    /// The text, when this is a string.
    pub fn as_str(&self) -> (r: Option<&str>)
        ensures
            match r {
                Some(s) => json_as_str(Some(*self)) == Some(s@),
                None => json_as_str(Some(*self)) is None,
            },
    {
        match self {
            Json::Str(s) => Some(s.as_str()),
            _ => None,
        }
    }

    /// The number, when this is a non-negative integer.
    pub fn as_u64(&self) -> (r: Option<u64>)
        ensures
            r == json_as_u64(Some(*self)),
    {
        match self {
            Json::Number(JsonNumber::PosInt(n)) => Some(*n),
            _ => None,
        }
    }
}

} // verus!
