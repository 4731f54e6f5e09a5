//! The crate's own JSON document type, and the trusted boundary that
//! produces it.
//!
//! Parsing is delegated to serde_json; everything the decoders then do —
//! field lookup, shape checks, number conversion — is verified code over
//! [`JsonValue`].  Numbers are kept as their decimal text so that values
//! the data model does not interpret are carried through verbatim.

use vstd::prelude::*;

verus! {

/// A decoded JSON document.
///
/// Object fields keep their original order; numbers keep their decimal
/// rendering as text.
#[derive(Debug)]
pub enum JsonValue {
    Null,
    Bool(bool),
    /// A number, as decimal text.
    Num(String),
    Str(String),
    Arr(Vec<JsonValue>),
    /// An object: ordered key/value pairs, keys unique.
    Obj(Vec<(String, JsonValue)>),
}

/// The document that a given text parses to, if it parses at all.
///
/// This names the combined result of serde_json's parser and the fixed
/// translation into [`JsonValue`]; it is a function of the text alone.
pub uninterp spec fn json_parse(s: Seq<char>) -> Option<JsonValue>;

/// Declares serde_json's document type so that the translation below may
/// take it as an argument; the library never looks inside such a value.
#[verifier::external_type_specification]
#[verifier::external_body]
pub struct ExSerdeValue(serde_json::Value);

/// Translates serde_json's document tree into the crate's own; relied on
/// only as part of [`json_parse`], through the parsing wrapper below.
#[verifier::external_body]
fn to_library_value(v: serde_json::Value) -> JsonValue {
    match v {
        serde_json::Value::Null => JsonValue::Null,
        serde_json::Value::Bool(b) => JsonValue::Bool(b),
        serde_json::Value::Number(n) => JsonValue::Num(n.to_string()),
        serde_json::Value::String(s) => JsonValue::Str(s),
        serde_json::Value::Array(xs) => JsonValue::Arr(
            xs.into_iter().map(to_library_value).collect(),
        ),
        serde_json::Value::Object(m) => JsonValue::Obj(
            m.into_iter().map(|(k, x)| (k, to_library_value(x))).collect(),
        ),
    }
}

/// Relies on `serde_json::from_str`: whether a text parses as JSON, and to
/// which document, is a function of the text alone.
#[verifier::external_body]
fn parse_json_str(s: &str) -> (r: Option<JsonValue>)
    ensures
        r == json_parse(s@),
{
    match serde_json::from_str::<serde_json::Value>(s) {
        Ok(v) => Option::Some(to_library_value(v)),
        Err(_) => Option::None,
    }
}

impl JsonValue {
    /// Parse a JSON text into a document.
    pub fn parse(s: &str) -> (r: Option<JsonValue>)
        ensures
            r == json_parse(s@),
    {
        parse_json_str(s)
    }
}

/// The value of the first field named `key`, if any.
pub open spec fn obj_get(fields: Seq<(String, JsonValue)>, key: Seq<char>) -> Option<JsonValue>
    decreases fields.len(),
{
    if fields.len() == 0 {
        None
    } else if fields[0].0@ == key {
        Some(fields[0].1)
    } else {
        obj_get(fields.drop_first(), key)
    }
}

/// `fields` with the first field named `key` removed, if there is one.
pub open spec fn remove_key(fields: Seq<(String, JsonValue)>, key: Seq<char>) -> Seq<
    (String, JsonValue),
>
    decreases fields.len(),
{
    if fields.len() == 0 {
        fields
    } else if fields[0].0@ == key {
        fields.drop_first()
    } else {
        seq![fields[0]] + remove_key(fields.drop_first(), key)
    }
}

proof fn lemma_obj_get_at(fields: Seq<(String, JsonValue)>, key: Seq<char>, i: int)
    requires
        0 <= i < fields.len(),
        fields[i].0@ == key,
        forall|j: int| 0 <= j < i ==> (#[trigger] fields[j]).0@ != key,
    ensures
        obj_get(fields, key) == Some(fields[i].1),
    decreases i,
{
    if i > 0 {
        lemma_obj_get_at(fields.drop_first(), key, i - 1);
    }
}

proof fn lemma_remove_key_at(fields: Seq<(String, JsonValue)>, key: Seq<char>, i: int)
    requires
        0 <= i < fields.len(),
        fields[i].0@ == key,
        forall|j: int| 0 <= j < i ==> (#[trigger] fields[j]).0@ != key,
    ensures
        remove_key(fields, key) =~= fields.remove(i),
    decreases i,
{
    if i > 0 {
        lemma_remove_key_at(fields.drop_first(), key, i - 1);
        assert(remove_key(fields, key) =~= seq![fields[0]] + fields.drop_first().remove(i - 1));
        assert(fields.remove(i) =~= seq![fields[0]] + fields.drop_first().remove(i - 1));
    } else {
        assert(fields.remove(0) =~= fields.drop_first());
    }
}

/// Removing one key leaves lookups of any other key unchanged.
pub proof fn lemma_obj_get_after_remove(
    fields: Seq<(String, JsonValue)>,
    k1: Seq<char>,
    k2: Seq<char>,
)
    requires
        k1 != k2,
    ensures
        obj_get(remove_key(fields, k1), k2) == obj_get(fields, k2),
    decreases fields.len(),
{
    if fields.len() > 0 {
        lemma_obj_get_after_remove(fields.drop_first(), k1, k2);
        if fields[0].0@ == k1 {
        } else {
            let rest = seq![fields[0]] + remove_key(fields.drop_first(), k1);
            assert(rest.drop_first() =~= remove_key(fields.drop_first(), k1));
        }
    }
}

proof fn lemma_obj_get_absent(fields: Seq<(String, JsonValue)>, key: Seq<char>)
    requires
        forall|j: int| 0 <= j < fields.len() ==> (#[trigger] fields[j]).0@ != key,
    ensures
        obj_get(fields, key) is None,
    decreases fields.len(),
{
    if fields.len() > 0 {
        lemma_obj_get_absent(fields.drop_first(), key);
    }
}

/// Index of the first field named `key`.
pub fn obj_find(fields: &Vec<(String, JsonValue)>, key: &String) -> (r: Option<usize>)
    ensures
        match r {
            Some(i) => i < fields@.len() && fields@[i as int].0@ == key@ && obj_get(
                fields@,
                key@,
            ) == Some(fields@[i as int].1) && remove_key(fields@, key@) == fields@.remove(
                i as int,
            ),
            None => obj_get(fields@, key@) is None,
        },
{
    let n = fields.len();
    let mut i: usize = 0;
    while i < n
        invariant
            n == fields@.len(),
            i <= n,
            forall|j: int| 0 <= j < i ==> (#[trigger] fields@[j]).0@ != key@,
        decreases n - i,
    {
        if fields[i].0.eq(key) {
            proof {
                lemma_obj_get_at(fields@, key@, i as int);
                lemma_remove_key_at(fields@, key@, i as int);
            }
            return Some(i);
        }
        i = i + 1;
    }
    proof {
        lemma_obj_get_absent(fields@, key@);
    }
    None
}

/// The characters of the string field `key`, if present with that type.
pub open spec fn str_field(fields: Seq<(String, JsonValue)>, key: Seq<char>) -> Option<Seq<char>> {
    match obj_get(fields, key) {
        Some(JsonValue::Str(s)) => Some(s@),
        _ => None,
    }
}

/// An optional string field: `Some(None)` when absent or null,
/// `Some(Some(..))` when a string, `None` when present with another type.
pub open spec fn opt_str_field(fields: Seq<(String, JsonValue)>, key: Seq<char>) -> Option<
    Option<Seq<char>>,
> {
    match obj_get(fields, key) {
        Some(JsonValue::Str(s)) => Some(Some(s@)),
        Some(JsonValue::Null) => Some(None),
        Some(_) => None,
        None => Some(None),
    }
}

/// The decimal text of the number field `key`, if present with that type.
pub open spec fn num_field(fields: Seq<(String, JsonValue)>, key: Seq<char>) -> Option<Seq<char>> {
    match obj_get(fields, key) {
        Some(JsonValue::Num(t)) => Some(t@),
        _ => None,
    }
}

/// The value of the unsigned integer field `key`: present, a number, all
/// digits, and in range of `u64`.
pub open spec fn u64_field(fields: Seq<(String, JsonValue)>, key: Seq<char>) -> Option<u64> {
    match num_field(fields, key) {
        Some(t) => if crate::text::u64_num_text(t) {
            Some(crate::text::dec_val(t) as u64)
        } else {
            None
        },
        None => None,
    }
}

/// The value of the boolean field `key`, if present with that type.
pub open spec fn bool_field(fields: Seq<(String, JsonValue)>, key: Seq<char>) -> Option<bool> {
    match obj_get(fields, key) {
        Some(JsonValue::Bool(b)) => Some(b),
        _ => None,
    }
}

/// Look up a string field and copy it out.
pub fn get_str(fields: &Vec<(String, JsonValue)>, key: &String) -> (r: Option<String>)
    ensures
        match r {
            Some(s) => str_field(fields@, key@) == Some(s@),
            None => str_field(fields@, key@) is None,
        },
{
    match obj_find(fields, key) {
        Some(i) => match &fields[i].1 {
            JsonValue::Str(s) => Some(s.clone()),
            _ => None,
        },
        None => None,
    }
}

/// Look up an optional string field; `Err(())` when it is present with a
/// type other than string or null.
pub fn get_opt_str(fields: &Vec<(String, JsonValue)>, key: &String) -> (r: Result<
    Option<String>,
    (),
>)
    ensures
        match r {
            Ok(Some(s)) => opt_str_field(fields@, key@) == Some(Some(s@)),
            Ok(None) => opt_str_field(fields@, key@) == Some(Option::<Seq<char>>::None),
            Err(_) => opt_str_field(fields@, key@) is None,
        },
{
    match obj_find(fields, key) {
        Some(i) => match &fields[i].1 {
            JsonValue::Str(s) => Ok(Some(s.clone())),
            JsonValue::Null => Ok(None),
            _ => Err(()),
        },
        None => Ok(None),
    }
}

/// Look up a number field and copy its decimal text out.
pub fn get_num_text(fields: &Vec<(String, JsonValue)>, key: &String) -> (r: Option<String>)
    ensures
        match r {
            Some(t) => num_field(fields@, key@) == Some(t@),
            None => num_field(fields@, key@) is None,
        },
{
    match obj_find(fields, key) {
        Some(i) => match &fields[i].1 {
            JsonValue::Num(t) => Some(t.clone()),
            _ => None,
        },
        None => None,
    }
}

/// Look up an unsigned integer field.
pub fn get_u64(fields: &Vec<(String, JsonValue)>, key: &String) -> (r: Option<u64>)
    ensures
        r == u64_field(fields@, key@),
{
    match get_num_text(fields, key) {
        Some(t) => {
            let cs = crate::text::chars_vec(t.as_str());
            proof {
                assert(cs@.subrange(0, cs@.len() as int) =~= t@);
            }
            crate::text::parse_u64(&cs, 0, cs.len())
        },
        None => None,
    }
}

/// Look up a boolean field.
pub fn get_bool(fields: &Vec<(String, JsonValue)>, key: &String) -> (r: Option<bool>)
    ensures
        r == bool_field(fields@, key@),
{
    match obj_find(fields, key) {
        Some(i) => match &fields[i].1 {
            JsonValue::Bool(b) => Some(*b),
            _ => None,
        },
        None => None,
    }
}

} // verus!

