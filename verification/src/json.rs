//! A JSON document model, a byte-exact pretty printer with tab indentation,
//! and trusted parsers for JSON and JSON-with-comments input.

use vstd::pervasive::VecAdditionalExecFns;
use vstd::prelude::*;
use vstd::utf8::encode_utf8;

verus! {

/// A parsed JSON document. Numbers keep their decimal lexeme so that no
/// floating-point value ever enters the model; objects keep their fields in
/// the order the parser produced them.
#[derive(Debug)]
pub enum JsonValue {
    Null,
    Bool(bool),
    /// A number, as its decimal lexeme.
    Num(String),
    Str(String),
    Arr(Vec<JsonValue>),
    Obj(Vec<(String, JsonValue)>),
}

/// The mathematical shape of a JSON document, the view of [`JsonValue`].
#[verifier::ext_equal]
pub ghost enum JsonVal {
    Null,
    Bool(bool),
    Num(Seq<char>),
    Str(Seq<char>),
    Arr(Seq<JsonVal>),
    Obj(Seq<(Seq<char>, JsonVal)>),
}

impl View for JsonValue {
    type V = JsonVal;

    open spec fn view(&self) -> JsonVal
        decreases self,
    {
        match self {
            JsonValue::Null => JsonVal::Null,
            JsonValue::Bool(b) => JsonVal::Bool(*b),
            JsonValue::Num(s) => JsonVal::Num(s@),
            JsonValue::Str(s) => JsonVal::Str(s@),
            JsonValue::Arr(items) => JsonVal::Arr(arr_view(items@)),
            JsonValue::Obj(fields) => JsonVal::Obj(fields_view(fields@)),
        }
    }
}

/// The views of an array's items.
pub open spec fn arr_view(s: Seq<JsonValue>) -> Seq<JsonVal>
    decreases s,
{
    if s.len() == 0 {
        Seq::empty()
    } else {
        arr_view(s.drop_last()).push(s.last()@)
    }
}

/// The views of an object's fields.
pub open spec fn fields_view(s: Seq<(String, JsonValue)>) -> Seq<(Seq<char>, JsonVal)>
    decreases s,
{
    if s.len() == 0 {
        Seq::empty()
    } else {
        fields_view(s.drop_last()).push((s.last().0@, s.last().1@))
    }
}

pub proof fn lemma_arr_view_elems(s: Seq<JsonValue>)
    ensures
        arr_view(s).len() == s.len(),
        forall|i: int| 0 <= i < s.len() ==> arr_view(s)[i] == s[i]@,
    decreases s.len(),
{
    if s.len() > 0 {
        lemma_arr_view_elems(s.drop_last());
        assert(arr_view(s) == arr_view(s.drop_last()).push(s.last()@));
        assert forall|i: int| 0 <= i < s.len() implies arr_view(s)[i] == s[i]@ by {
            if i < s.len() - 1 {
                assert(arr_view(s)[i] == arr_view(s.drop_last())[i]);
                assert(s.drop_last()[i] == s[i]);
            } else {
                assert(arr_view(s)[i] == s.last()@);
            }
        }
    }
}

pub proof fn lemma_fields_view_elems(s: Seq<(String, JsonValue)>)
    ensures
        fields_view(s).len() == s.len(),
        forall|i: int| 0 <= i < s.len() ==> fields_view(s)[i] == (s[i].0@, s[i].1@),
    decreases s.len(),
{
    if s.len() > 0 {
        lemma_fields_view_elems(s.drop_last());
        assert(fields_view(s) == fields_view(s.drop_last()).push((s.last().0@, s.last().1@)));
        assert forall|i: int| 0 <= i < s.len() implies fields_view(s)[i] == (s[i].0@, s[i].1@) by {
            if i < s.len() - 1 {
                assert(fields_view(s)[i] == fields_view(s.drop_last())[i]);
                assert(s.drop_last()[i] == s[i]);
            } else {
                assert(fields_view(s)[i] == (s.last().0@, s.last().1@));
            }
        }
    }
}

/// The document that parsing the given bytes as JSON yields, if any.
pub uninterp spec fn json_doc_of(s: Seq<u8>) -> Option<JsonVal>;

/// The document that parsing the given bytes as JSON tolerant of `//` and
/// `/* */` comments yields, if any.
pub uninterp spec fn jsonc_doc_of(s: Seq<u8>) -> Option<JsonVal>;

/// `serde_json`'s document type, opaque here; it only passes through the
/// parsing wrappers below.
#[verifier::external_type_specification]
#[verifier::external_body]
pub struct ExSerdeValue(serde_json::Value);

/// Moves a `serde_json` value into the library's model, variant by variant;
/// numbers become their display lexeme.
#[verifier::external_body]
fn from_serde_value(v: serde_json::Value) -> JsonValue {
    match v {
        serde_json::Value::Null => JsonValue::Null,
        serde_json::Value::Bool(b) => JsonValue::Bool(b),
        serde_json::Value::Number(n) => JsonValue::Num(n.to_string()),
        serde_json::Value::String(s) => JsonValue::Str(s),
        serde_json::Value::Array(a) => JsonValue::Arr(a.into_iter().map(from_serde_value).collect()),
        serde_json::Value::Object(o) => JsonValue::Obj(
            o.into_iter().map(|(k, x)| (k, from_serde_value(x))).collect(),
        ),
    }
}

/// Relies on `serde_json::from_slice`: the parsed document is a function of
/// the input bytes alone.
#[verifier::external_body]
pub fn parse_json_bytes(b: &[u8]) -> (r: Option<JsonValue>)
    ensures
        match r {
            Some(v) => json_doc_of(b@) == Some(v@),
            None => json_doc_of(b@) is None,
        },
{
    match serde_json::from_slice::<serde_json::Value>(b) {
        Ok(v) => Some(from_serde_value(v)),
        Err(_) => None,
    }
}

/// Relies on `serde_jsonc::from_slice`: the parsed document is a function of
/// the input bytes alone, with comments treated as whitespace.
#[verifier::external_body]
pub fn parse_jsonc_bytes(b: &[u8]) -> (r: Option<JsonValue>)
    ensures
        match r {
            Some(v) => jsonc_doc_of(b@) == Some(v@),
            None => jsonc_doc_of(b@) is None,
        },
{
    match serde_jsonc::from_slice::<serde_json::Value>(b) {
        Ok(v) => Some(from_serde_value(v)),
        Err(_) => None,
    }
}

/// First field of the object with the given key, if any.
pub open spec fn spec_obj_get(fields: Seq<(Seq<char>, JsonVal)>, key: Seq<char>) -> Option<JsonVal>
    decreases fields.len(),
{
    if fields.len() == 0 {
        None
    } else if fields[0].0 == key {
        Some(fields[0].1)
    } else {
        spec_obj_get(fields.drop_first(), key)
    }
}

pub fn obj_get<'a>(fields: &'a Vec<(String, JsonValue)>, key: &str) -> (r: Option<&'a JsonValue>)
    ensures
        match r {
            Some(v) => spec_obj_get(fields_view(fields@), key@) == Some(v@),
            None => spec_obj_get(fields_view(fields@), key@) is None,
        },
{
    proof {
        lemma_fields_view_elems(fields@);
    }
    let ghost fv = fields_view(fields@);
    assert(fv.skip(0) =~= fv);
    let mut i: usize = 0;
    while i < fields.len()
        invariant
            i <= fv.len(),
            fv == fields_view(fields@),
            fv.len() == fields@.len(),
            forall|j: int| 0 <= j < fields@.len() ==> fv[j] == (fields@[j].0@, fields@[j].1@),
            spec_obj_get(fv, key@) == spec_obj_get(fv.skip(i as int), key@),
        decreases fields@.len() - i,
    {
        assert(fv.skip(i as int).drop_first() =~= fv.skip(i + 1));
        assert(fv.skip(i as int)[0] == fv[i as int]);
        if str_eq(fields[i].0.as_str(), key) {
            return Some(&fields[i].1);
        }
        i = i + 1;
    }
    None
}

/// The object with the first field named `key` replaced by `(key, val)`, or
/// with `(key, val)` appended when no field has that name.
pub open spec fn spec_obj_set(
    fields: Seq<(Seq<char>, JsonVal)>,
    key: Seq<char>,
    val: JsonVal,
) -> Seq<(Seq<char>, JsonVal)>
    decreases fields.len(),
{
    if fields.len() == 0 {
        seq![(key, val)]
    } else if fields[0].0 == key {
        seq![(key, val)] + fields.drop_first()
    } else {
        seq![fields[0]] + spec_obj_set(fields.drop_first(), key, val)
    }
}

pub fn obj_set(fields: &mut Vec<(String, JsonValue)>, key: String, val: JsonValue)
    ensures
        fields_view(final(fields)@) == spec_obj_set(fields_view(old(fields)@), key@, val@),
{
    proof {
        lemma_fields_view_elems(old(fields)@);
    }
    let ghost orig = fields_view(old(fields)@);
    let ghost kv = key@;
    let ghost vv = val@;
    let mut i: usize = 0;
    while i < fields.len()
        invariant
            i <= orig.len(),
            orig == fields_view(fields@),
            fields@ == old(fields)@,
            orig.len() == fields@.len(),
            forall|j: int| 0 <= j < fields@.len() ==> orig[j] == (fields@[j].0@, fields@[j].1@),
            forall|j: int| 0 <= j < i ==> orig[j].0 != kv,
            key@ == kv,
            val@ == vv,
        decreases fields@.len() - i,
    {
        if str_eq(fields[i].0.as_str(), key.as_str()) {
            assert(orig[i as int].0 == kv);
            fields.set(i, (key, val));
            proof {
                lemma_obj_set_at(orig, kv, vv, i as int);
                lemma_fields_view_elems(fields@);
                assert(fields_view(fields@) =~= orig.update(i as int, (kv, vv)));
            }
            return ;
        }
        i = i + 1;
    }
    fields.push((key, val));
    proof {
        lemma_obj_set_missing(orig, kv, vv);
        lemma_fields_view_elems(fields@);
        assert(fields_view(fields@) =~= orig.push((kv, vv)));
    }
}

proof fn lemma_obj_set_at(
    fields: Seq<(Seq<char>, JsonVal)>,
    key: Seq<char>,
    val: JsonVal,
    i: int,
)
    requires
        0 <= i < fields.len(),
        fields[i].0 == key,
        forall|j: int| 0 <= j < i ==> fields[j].0 != key,
    ensures
        spec_obj_set(fields, key, val) =~= fields.update(i, (key, val)),
    decreases i,
{
    if i == 0 {
    } else {
        lemma_obj_set_at(fields.drop_first(), key, val, i - 1);
        assert(fields.drop_first().update(i - 1, (key, val)) =~= fields.update(
            i,
            (key, val),
        ).drop_first());
    }
}

proof fn lemma_obj_set_missing(fields: Seq<(Seq<char>, JsonVal)>, key: Seq<char>, val: JsonVal)
    requires
        forall|j: int| 0 <= j < fields.len() ==> fields[j].0 != key,
    ensures
        spec_obj_set(fields, key, val) =~= fields.push((key, val)),
    decreases fields.len(),
{
    if fields.len() > 0 {
        lemma_obj_set_missing(fields.drop_first(), key, val);
        assert(fields.drop_first().push((key, val)) =~= fields.push((key, val)).drop_first());
    }
}

/// A deep copy; the copy has the same view.
#[verifier::loop_isolation(false)]
pub fn clone_json(v: &JsonValue) -> (r: JsonValue)
    ensures
        r@ == v@,
    decreases *v,
{
    match v {
        JsonValue::Null => JsonValue::Null,
        JsonValue::Bool(b) => JsonValue::Bool(*b),
        JsonValue::Num(s) => JsonValue::Num(s.clone()),
        JsonValue::Str(s) => JsonValue::Str(s.clone()),
        JsonValue::Arr(items) => {
            let mut out: Vec<JsonValue> = Vec::new();
            let mut i: usize = 0;
            while i < items.len()
                invariant
                    i <= items@.len(),
                    out@.len() == i,
                    forall|j: int| 0 <= j < i ==> out@[j]@ == items@[j]@,
                decreases items@.len() - i,
            {
                proof {
                    assert((*v)->Arr_0 == *items);
                    assert(decreases_to!(*v => (*v)->Arr_0));
                    assert(decreases_to!(*items => items@));
                    assert(decreases_to!(items@ => items@[i as int]));
                }
                out.push(clone_json(&items[i]));
                i = i + 1;
            }
            let r = JsonValue::Arr(out);
            proof {
                lemma_arr_view_elems(out@);
                lemma_arr_view_elems(items@);
                assert(arr_view(out@) =~= arr_view(items@));
            }
            r
        },
        JsonValue::Obj(fields) => {
            let mut out: Vec<(String, JsonValue)> = Vec::new();
            let mut i: usize = 0;
            while i < fields.len()
                invariant
                    i <= fields@.len(),
                    out@.len() == i,
                    forall|j: int|
                        0 <= j < i ==> out@[j].0@ == fields@[j].0@ && out@[j].1@ == fields@[j].1@,
                decreases fields@.len() - i,
            {
                proof {
                    assert((*v)->Obj_0 == *fields);
                    assert(decreases_to!(*v => (*v)->Obj_0));
                    assert(decreases_to!(*fields => fields@));
                    assert(decreases_to!(fields@ => fields@[i as int]));
                    assert(decreases_to!(fields@[i as int] => fields@[i as int].1));
                }
                let k = fields[i].0.clone();
                let val = clone_json(&fields[i].1);
                out.push((k, val));
                i = i + 1;
            }
            let r = JsonValue::Obj(out);
            proof {
                lemma_fields_view_elems(out@);
                lemma_fields_view_elems(fields@);
                assert(fields_view(out@) =~= fields_view(fields@));
            }
            r
        },
    }
}

/// How one byte of a string is written inside a JSON string literal: quote,
/// backslash and control characters are escaped, everything else passes
/// through.
pub open spec fn spec_escape_byte(b: u8) -> Seq<u8> {
    if b == 0x22 {
        seq![0x5cu8, 0x22u8]
    } else if b == 0x5c {
        seq![0x5cu8, 0x5cu8]
    } else if b == 0x08 {
        seq![0x5cu8, 0x62u8]
    } else if b == 0x09 {
        seq![0x5cu8, 0x74u8]
    } else if b == 0x0a {
        seq![0x5cu8, 0x6eu8]
    } else if b == 0x0c {
        seq![0x5cu8, 0x66u8]
    } else if b == 0x0d {
        seq![0x5cu8, 0x72u8]
    } else if b < 0x20 {
        seq![0x5cu8, 0x75u8, 0x30u8, 0x30u8, spec_hex_digit(b / 16), spec_hex_digit(b % 16)]
    } else {
        seq![b]
    }
}

pub open spec fn spec_hex_digit(n: u8) -> u8 {
    if n < 10 {
        (0x30u8 + n) as u8
    } else {
        (0x61u8 + (n - 10)) as u8
    }
}

pub open spec fn spec_escape(s: Seq<u8>) -> Seq<u8>
    decreases s.len(),
{
    if s.len() == 0 {
        Seq::empty()
    } else {
        spec_escape_byte(s[0]) + spec_escape(s.drop_first())
    }
}

pub proof fn lemma_escape_push(s: Seq<u8>, b: u8)
    ensures
        spec_escape(s.push(b)) == spec_escape(s) + spec_escape_byte(b),
    decreases s.len(),
{
    if s.len() == 0 {
        assert(s.push(b).drop_first() =~= Seq::<u8>::empty());
        assert(s.push(b)[0] == b);
        assert(spec_escape(s.push(b)) == spec_escape_byte(b) + spec_escape(Seq::<u8>::empty()));
        assert(spec_escape(s.push(b)) =~= spec_escape(s) + spec_escape_byte(b));
    } else {
        lemma_escape_push(s.drop_first(), b);
        assert(s.push(b).drop_first() =~= s.drop_first().push(b));
        assert(s.push(b)[0] == s[0]);
        assert(spec_escape(s.push(b)) == spec_escape_byte(s[0]) + spec_escape(
            s.drop_first().push(b),
        ));
        assert(spec_escape(s.push(b)) =~= spec_escape(s) + spec_escape_byte(b));
    }
}

/// The pretty-printed bytes of a document: tab indentation, `": "` after
/// object keys, elements one per line, empty containers printed inline.
/// `pre` is the indentation in force outside the value.
pub open spec fn spec_json_bytes(v: JsonVal, pre: Seq<u8>) -> Seq<u8>
    decreases v, 0nat,
{
    match v {
        JsonVal::Null => seq![0x6eu8, 0x75u8, 0x6cu8, 0x6cu8],
        JsonVal::Bool(b) => if b {
            seq![0x74u8, 0x72u8, 0x75u8, 0x65u8]
        } else {
            seq![0x66u8, 0x61u8, 0x6cu8, 0x73u8, 0x65u8]
        },
        JsonVal::Num(s) => encode_utf8(s),
        JsonVal::Str(s) => seq![0x22u8] + spec_escape(encode_utf8(s)) + seq![0x22u8],
        JsonVal::Arr(items) => if items.len() == 0 {
            seq![0x5bu8, 0x5du8]
        } else {
            seq![0x5bu8] + spec_arr_body(items, 0, pre + seq![0x09u8]) + seq![0x0au8] + pre + seq![0x5du8]
        },
        JsonVal::Obj(fields) => if fields.len() == 0 {
            seq![0x7bu8, 0x7du8]
        } else {
            seq![0x7bu8] + spec_obj_body(fields, 0, pre + seq![0x09u8]) + seq![0x0au8] + pre
                + seq![0x7du8]
        },
    }
}

/// Array elements from index `i` on: each on its own line at indentation
/// `ind`, separated by commas.
pub open spec fn spec_arr_body(items: Seq<JsonVal>, i: int, ind: Seq<u8>) -> Seq<u8>
    decreases items, items.len() - i,
{
    if i < 0 || i >= items.len() {
        Seq::empty()
    } else {
        seq![0x0au8] + ind + spec_json_bytes(items[i], ind) + (if i + 1 < items.len() {
            seq![0x2cu8]
        } else {
            Seq::empty()
        }) + spec_arr_body(items, i + 1, ind)
    }
}

/// Object fields from index `i` on.
pub open spec fn spec_obj_body(fields: Seq<(Seq<char>, JsonVal)>, i: int, ind: Seq<u8>) -> Seq<u8>
    decreases fields, fields.len() - i,
{
    if i < 0 || i >= fields.len() {
        Seq::empty()
    } else {
        seq![0x0au8] + ind + seq![0x22u8] + spec_escape(encode_utf8(fields[i].0)) + seq![0x22u8, 0x3au8, 0x20u8]
            + spec_json_bytes(fields[i].1, ind) + (if i + 1 < fields.len() {
            seq![0x2cu8]
        } else {
            Seq::empty()
        }) + spec_obj_body(fields, i + 1, ind)
    }
}

/// Appends a byte slice.
#[verifier::loop_isolation(false)]
pub fn push_bytes(out: &mut Vec<u8>, b: &[u8])
    ensures
        final(out)@ == old(out)@ + b@,
{
    let mut j: usize = 0;
    while j < b.len()
        invariant
            j <= b@.len(),
            out@ == old(out)@ + b@.take(j as int),
        decreases b@.len() - j,
    {
        out.push(b[j]);
        assert(b@.take(j + 1) =~= b@.take(j as int).push(b@[j as int]));
        assert(out@ =~= old(out)@ + b@.take(j + 1));
        j = j + 1;
    }
    assert(b@.take(b@.len() as int) =~= b@);
}

fn hex_digit(n: u8) -> (r: u8)
    requires
        n < 16,
    ensures
        r == spec_hex_digit(n),
{
    if n < 10 {
        0x30u8 + n
    } else {
        0x61u8 + (n - 10)
    }
}

/// Appends the bytes of a string literal's body, escaped.
#[verifier::loop_isolation(false)]
fn push_escaped(out: &mut Vec<u8>, b: &[u8])
    ensures
        final(out)@ == old(out)@ + spec_escape(b@),
{
    assert(spec_escape(b@.take(0)) =~= Seq::<u8>::empty());
    let mut j: usize = 0;
    while j < b.len()
        invariant
            j <= b@.len(),
            out@ == old(out)@ + spec_escape(b@.take(j as int)),
        decreases b@.len() - j,
    {
        let ghost o0 = out@;
        let c = b[j];
        if c == 0x22 {
            out.push(0x5cu8);
            out.push(0x22u8);
        } else if c == 0x5c {
            out.push(0x5cu8);
            out.push(0x5cu8);
        } else if c == 0x08 {
            out.push(0x5cu8);
            out.push(0x62u8);
        } else if c == 0x09 {
            out.push(0x5cu8);
            out.push(0x74u8);
        } else if c == 0x0a {
            out.push(0x5cu8);
            out.push(0x6eu8);
        } else if c == 0x0c {
            out.push(0x5cu8);
            out.push(0x66u8);
        } else if c == 0x0d {
            out.push(0x5cu8);
            out.push(0x72u8);
        } else if c < 0x20 {
            out.push(0x5cu8);
            out.push(0x75u8);
            out.push(0x30u8);
            out.push(0x30u8);
            out.push(hex_digit(c / 16));
            out.push(hex_digit(c % 16));
        } else {
            out.push(c);
        }
        proof {
            assert(out@ =~= o0 + spec_escape_byte(b@[j as int]));
            lemma_escape_push(b@.take(j as int), b@[j as int]);
            assert(b@.take(j + 1) =~= b@.take(j as int).push(b@[j as int]));
            assert(out@ =~= old(out)@ + spec_escape(b@.take(j + 1)));
        }
        j = j + 1;
    }
    assert(b@.take(b@.len() as int) =~= b@);
}

/// Writes the pretty-printed bytes of `v` at the indentation held in `pre`,
/// which is left as it was.
#[verifier::loop_isolation(false)]
#[verifier::rlimit(100)]
pub fn write_json(v: &JsonValue, pre: &mut Vec<u8>, out: &mut Vec<u8>)
    ensures
        final(pre)@ == old(pre)@,
        final(out)@ == old(out)@ + spec_json_bytes(v@, old(pre)@),
    decreases *v,
{
    match v {
        JsonValue::Null => {
            out.push(0x6eu8);
            out.push(0x75u8);
            out.push(0x6cu8);
            out.push(0x6cu8);
            assert(out@ =~= old(out)@ + spec_json_bytes(v@, old(pre)@));
        },
        JsonValue::Bool(b) => {
            if *b {
                out.push(0x74u8);
                out.push(0x72u8);
                out.push(0x75u8);
                out.push(0x65u8);
            } else {
                out.push(0x66u8);
                out.push(0x61u8);
                out.push(0x6cu8);
                out.push(0x73u8);
                out.push(0x65u8);
            }
            assert(out@ =~= old(out)@ + spec_json_bytes(v@, old(pre)@));
        },
        JsonValue::Num(s) => {
            push_bytes(out, s.as_str().as_bytes());
        },
        JsonValue::Str(s) => {
            out.push(0x22u8);
            push_escaped(out, s.as_str().as_bytes());
            out.push(0x22u8);
            assert(out@ =~= old(out)@ + spec_json_bytes(v@, old(pre)@));
        },
        JsonValue::Arr(items) => {
            proof {
                lemma_arr_view_elems(items@);
            }
            let ghost sitems = arr_view(items@);
            if items.len() == 0 {
                out.push(0x5bu8);
                out.push(0x5du8);
                assert(out@ =~= old(out)@ + spec_json_bytes(v@, old(pre)@));
            } else {
                out.push(0x5bu8);
                pre.push(0x09u8);
                let ghost ind = pre@;
                assert(ind =~= old(pre)@ + seq![0x09u8]);
                let ghost start = out@;
                let mut i: usize = 0;
                while i < items.len()
                    invariant
                        i <= items@.len(),
                        pre@ == ind,
                        start + spec_arr_body(sitems, 0, ind) == out@ + spec_arr_body(
                            sitems,
                            i as int,
                            ind,
                        ),
                    decreases items@.len() - i,
                {
                    let ghost o0 = out@;
                    out.push(0x0au8);
                    let ghost tmp = pre@;
                    push_bytes_from(out, pre);
                    proof {
                        assert(decreases_to!(*v => (*v)->Arr_0));
                        assert(decreases_to!(*items => items@));
                        assert(decreases_to!(items@ => items@[i as int]));
                    }
                    write_json(&items[i], pre, out);
                    if i + 1 < items.len() {
                        out.push(0x2cu8);
                    }
                    proof {
                        assert(sitems[i as int] == items@[i as int]@);
                        assert(out@ =~= o0 + (seq![0x0au8] + ind + spec_json_bytes(
                            sitems[i as int],
                            ind,
                        ) + (if i + 1 < sitems.len() {
                            seq![0x2cu8]
                        } else {
                            Seq::<u8>::empty()
                        })));
                        assert(start + spec_arr_body(sitems, 0, ind) =~= out@ + spec_arr_body(
                            sitems,
                            i + 1,
                            ind,
                        ));
                    }
                    i = i + 1;
                }
                pre.pop();
                assert(pre@ =~= old(pre)@);
                out.push(0x0au8);
                push_bytes_from(out, pre);
                out.push(0x5du8);
                assert(out@ =~= old(out)@ + spec_json_bytes(v@, old(pre)@));
            }
        },
        JsonValue::Obj(fields) => {
            proof {
                lemma_fields_view_elems(fields@);
            }
            let ghost sfields = fields_view(fields@);
            if fields.len() == 0 {
                out.push(0x7bu8);
                out.push(0x7du8);
                assert(out@ =~= old(out)@ + spec_json_bytes(v@, old(pre)@));
            } else {
                out.push(0x7bu8);
                pre.push(0x09u8);
                let ghost ind = pre@;
                assert(ind =~= old(pre)@ + seq![0x09u8]);
                let ghost start = out@;
                let mut i: usize = 0;
                while i < fields.len()
                    invariant
                        i <= fields@.len(),
                        pre@ == ind,
                        start + spec_obj_body(sfields, 0, ind) == out@ + spec_obj_body(
                            sfields,
                            i as int,
                            ind,
                        ),
                    decreases fields@.len() - i,
                {
                    let ghost o0 = out@;
                    out.push(0x0au8);
                    push_bytes_from(out, pre);
                    out.push(0x22u8);
                    push_escaped(out, fields[i].0.as_str().as_bytes());
                    out.push(0x22u8);
                    out.push(0x3au8);
                    out.push(0x20u8);
                    proof {
                        assert(decreases_to!(*v => (*v)->Obj_0));
                        assert(decreases_to!(*fields => fields@));
                        assert(decreases_to!(fields@ => fields@[i as int]));
                        assert(decreases_to!(fields@[i as int] => fields@[i as int].1));
                    }
                    write_json(&fields[i].1, pre, out);
                    if i + 1 < fields.len() {
                        out.push(0x2cu8);
                    }
                    proof {
                        assert(sfields[i as int] == (fields@[i as int].0@, fields@[i as int].1@));
                        assert(out@ =~= o0 + (seq![0x0au8] + ind + seq![0x22u8] + spec_escape(
                            encode_utf8(sfields[i as int].0),
                        ) + seq![0x22u8, 0x3au8, 0x20u8] + spec_json_bytes(sfields[i as int].1, ind) + (
                        if i + 1 < sfields.len() {
                            seq![0x2cu8]
                        } else {
                            Seq::<u8>::empty()
                        })));
                        assert(start + spec_obj_body(sfields, 0, ind) =~= out@ + spec_obj_body(
                            sfields,
                            i + 1,
                            ind,
                        ));
                    }
                    i = i + 1;
                }
                pre.pop();
                assert(pre@ =~= old(pre)@);
                out.push(0x0au8);
                push_bytes_from(out, pre);
                out.push(0x7du8);
                assert(out@ =~= old(out)@ + spec_json_bytes(v@, old(pre)@));
            }
        },
    }
}

/// Appends the contents of `b` to `out`; `b` itself is untouched.
fn push_bytes_from(out: &mut Vec<u8>, b: &Vec<u8>)
    ensures
        final(out)@ == old(out)@ + b@,
{
    push_bytes(out, b.as_slice());
}

/// The whole document, pretty-printed with tab indentation.
pub fn to_json_bytes_with_tabs(v: &JsonValue) -> (r: Vec<u8>)
    ensures
        r@ == spec_json_bytes(v@, Seq::empty()),
{
    let mut pre: Vec<u8> = Vec::new();
    let mut out: Vec<u8> = Vec::new();
    write_json(v, &mut pre, &mut out);
    out
}

impl Clone for JsonValue {
    /// A deep copy with the same view.
    fn clone(&self) -> (res: Self)
        ensures
            res@ == self@,
    {
        clone_json(self)
    }
}

/// Byte equality of two string slices decides view equality, since UTF-8
/// encoding is injective.
pub fn str_eq(a: &str, b: &str) -> (r: bool)
    ensures
        r == (a@ == b@),
{
    let ab = a.as_bytes();
    let bb = b.as_bytes();
    let r = bytes_eq(ab, bb);
    proof {
        if ab@ == bb@ {
            vstd::utf8::encode_utf8_decode_utf8(a@);
            vstd::utf8::encode_utf8_decode_utf8(b@);
        }
    }
    r
}

pub fn bytes_eq(a: &[u8], b: &[u8]) -> (r: bool)
    ensures
        r == (a@ == b@),
{
    if a.len() != b.len() {
        assert(a@ != b@) by {
            assert(a@.len() != b@.len());
        }
        return false;
    }
    let mut i: usize = 0;
    while i < a.len()
        invariant
            i <= a@.len(),
            a@.len() == b@.len(),
            forall|j: int| 0 <= j < i ==> a@[j] == b@[j],
        decreases a@.len() - i,
    {
        if a[i] != b[i] {
            return false;
        }
        i = i + 1;
    }
    assert(a@ =~= b@);
    true
}

} // verus!
