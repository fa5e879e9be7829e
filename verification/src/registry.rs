//! The typed model of the devcontainer community index: options, features,
//! templates, collections, and the index itself, together with the tolerant
//! decoders that build them from parsed JSON documents.

use vstd::prelude::*;

use crate::json::{json_doc_of, obj_get, spec_obj_get, str_eq, JsonVal, JsonValue};

verus! {

/// The `default` of a boolean option: the schema allows both a string and a
/// real boolean in that position.
#[derive(Debug)]
pub enum BooleanDefaultType {
    String(String),
    Boolean(bool),
}

#[verifier::ext_equal]
pub ghost enum BooleanDefaultV {
    Str(Seq<char>),
    Bool(bool),
}

impl View for BooleanDefaultType {
    type V = BooleanDefaultV;

    open spec fn view(&self) -> BooleanDefaultV {
        match self {
            BooleanDefaultType::String(s) => BooleanDefaultV::Str(s@),
            BooleanDefaultType::Boolean(b) => BooleanDefaultV::Bool(*b),
        }
    }
}

/// A string-typed option: either a closed enumeration or a free field with
/// proposals. The two shapes are told apart by which fields are present,
/// the enumeration shape first, since only it requires an `enum` field.
#[derive(Debug)]
pub enum StringDevOption {
    EnumValues {
        default: String,
        description: Option<String>,
        enum_values: Vec<String>,
    },
    Proposals {
        /// Required by the published schema, but absent in some third-party
        /// entries, which still have to load.
        default: Option<String>,
        description: Option<String>,
        proposals: Option<Vec<String>>,
    },
}

#[verifier::ext_equal]
pub ghost enum StringDevOptionV {
    EnumValues { default: Seq<char>, description: Option<Seq<char>>, enum_values: Seq<Seq<char>> },
    Proposals {
        default: Option<Seq<char>>,
        description: Option<Seq<char>>,
        proposals: Option<Seq<Seq<char>>>,
    },
}

pub open spec fn strings_view(s: Seq<String>) -> Seq<Seq<char>> {
    Seq::new(s.len(), |i: int| s[i]@)
}

pub open spec fn opt_str_view(o: Option<String>) -> Option<Seq<char>> {
    match o {
        Some(s) => Some(s@),
        None => None,
    }
}

pub open spec fn opt_strings_view(o: Option<Vec<String>>) -> Option<Seq<Seq<char>>> {
    match o {
        Some(v) => Some(strings_view(v@)),
        None => None,
    }
}

impl View for StringDevOption {
    type V = StringDevOptionV;

    open spec fn view(&self) -> StringDevOptionV {
        match self {
            StringDevOption::EnumValues { default, description, enum_values } => {
                StringDevOptionV::EnumValues {
                    default: default@,
                    description: opt_str_view(*description),
                    enum_values: strings_view(enum_values@),
                }
            },
            StringDevOption::Proposals { default, description, proposals } => {
                StringDevOptionV::Proposals {
                    default: opt_str_view(*default),
                    description: opt_str_view(*description),
                    proposals: opt_strings_view(*proposals),
                }
            },
        }
    }
}

/// One configurable option of a feature or template.
#[derive(Debug)]
pub enum DevOption {
    Boolean { default: BooleanDefaultType, description: Option<String> },
    String(StringDevOption),
}

#[verifier::ext_equal]
pub ghost enum DevOptionV {
    Boolean { default: BooleanDefaultV, description: Option<Seq<char>> },
    String(StringDevOptionV),
}

impl View for DevOption {
    type V = DevOptionV;

    open spec fn view(&self) -> DevOptionV {
        match self {
            DevOption::Boolean { default, description } => DevOptionV::Boolean {
                default: default@,
                description: opt_str_view(*description),
            },
            DevOption::String(s) => DevOptionV::String(s@),
        }
    }
}

/// A copy of a string list with the same elements.
#[verifier::loop_isolation(false)]
pub fn clone_strings(v: &Vec<String>) -> (r: Vec<String>)
    ensures
        r@ == v@,
{
    let mut out: Vec<String> = Vec::new();
    let mut i: usize = 0;
    while i < v.len()
        invariant
            i <= v@.len(),
            out@.len() == i,
            forall|j: int| 0 <= j < i ==> out@[j] == v@[j],
        decreases v@.len() - i,
    {
        out.push(v[i].clone());
        i = i + 1;
    }
    assert(out@ =~= v@);
    out
}

pub fn clone_opt_string(o: &Option<String>) -> (r: Option<String>)
    ensures
        r == *o,
{
    match o {
        Some(s) => Some(s.clone()),
        None => None,
    }
}

pub fn clone_opt_strings(o: &Option<Vec<String>>) -> (r: Option<Vec<String>>)
    ensures
        opt_strings_view(r) == opt_strings_view(*o),
{
    match o {
        Some(v) => {
            let c = clone_strings(v);
            Some(c)
        },
        None => None,
    }
}

impl Clone for BooleanDefaultType {
    /// A copy with the same view.
    fn clone(&self) -> (res: Self)
        ensures
            res@ == self@,
    {
        match self {
            BooleanDefaultType::String(s) => BooleanDefaultType::String(s.clone()),
            BooleanDefaultType::Boolean(b) => BooleanDefaultType::Boolean(*b),
        }
    }
}

impl Clone for StringDevOption {
    /// A copy with the same view.
    fn clone(&self) -> (res: Self)
        ensures
            res@ == self@,
    {
        match self {
            StringDevOption::EnumValues { default, description, enum_values } => {
                StringDevOption::EnumValues {
                    default: default.clone(),
                    description: clone_opt_string(description),
                    enum_values: clone_strings(enum_values),
                }
            },
            StringDevOption::Proposals { default, description, proposals } => {
                StringDevOption::Proposals {
                    default: clone_opt_string(default),
                    description: clone_opt_string(description),
                    proposals: clone_opt_strings(proposals),
                }
            },
        }
    }
}

impl Clone for DevOption {
    /// A copy with the same view.
    fn clone(&self) -> (res: Self)
        ensures
            res@ == self@,
    {
        match self {
            DevOption::Boolean { default, description } => DevOption::Boolean {
                default: default.clone(),
                description: clone_opt_string(description),
            },
            DevOption::String(s) => DevOption::String(s.clone()),
        }
    }
}

/// The string every option falls back to when nothing else is chosen:
/// booleans render as `"true"`/`"false"`, a proposals option without a
/// default falls back to its first proposal, then to the empty string.
pub open spec fn spec_configured_default(o: DevOptionV) -> Seq<char> {
    match o {
        DevOptionV::Boolean { default: BooleanDefaultV::Str(s), .. } => s,
        DevOptionV::Boolean { default: BooleanDefaultV::Bool(b), .. } => spec_bool_string(b),
        DevOptionV::String(StringDevOptionV::EnumValues { default, .. }) => default,
        DevOptionV::String(StringDevOptionV::Proposals { default, proposals, .. }) => {
            match default {
                Some(d) => d,
                None => match proposals {
                    Some(p) => if p.len() > 0 {
                        p[0]
                    } else {
                        Seq::<char>::empty()
                    },
                    None => Seq::<char>::empty(),
                },
            }
        },
    }
}

pub open spec fn spec_bool_string(b: bool) -> Seq<char> {
    if b {
        "true"@
    } else {
        "false"@
    }
}

/// `"true"` or `"false"`, as `bool` values print.
pub fn bool_string(b: bool) -> (r: String)
    ensures
        r@ == spec_bool_string(b),
{
    if b {
        "true".to_owned()
    } else {
        "false".to_owned()
    }
}

impl DevOption {
    /// The configured default value, always as a string.
    pub fn configured_default(&self) -> (r: String)
        ensures
            r@ == spec_configured_default(self@),
    {
        match self {
            DevOption::Boolean { default: BooleanDefaultType::String(s), .. } => s.clone(),
            DevOption::Boolean { default: BooleanDefaultType::Boolean(b), .. } => bool_string(*b),
            DevOption::String(StringDevOption::EnumValues { default, .. }) => default.clone(),
            DevOption::String(StringDevOption::Proposals { default, proposals, .. }) => {
                match default {
                    Some(d) => d.clone(),
                    None => match proposals {
                        Some(p) => {
                            if p.len() > 0 {
                                let r = p[0].clone();
                                assert(r@ == strings_view(p@)[0]);
                                r
                            } else {
                                String::new()
                            }
                        },
                        None => String::new(),
                    },
                }
            },
        }
    }
}

/// The fields of a JSON object, viewed.
pub type JFields = Seq<(Seq<char>, JsonVal)>;

/// A required string field: present and a string, or the decode fails.
pub open spec fn spec_req_str(f: JFields, key: Seq<char>) -> Option<Seq<char>> {
    match spec_obj_get(f, key) {
        Some(JsonVal::Str(s)) => Some(s),
        _ => None,
    }
}

/// An optional string field: absent or null decodes to nothing, a string to
/// itself, any other shape fails.
pub open spec fn spec_opt_str(f: JFields, key: Seq<char>) -> Option<Option<Seq<char>>> {
    match spec_obj_get(f, key) {
        None => Some(None),
        Some(JsonVal::Null) => Some(None),
        Some(JsonVal::Str(s)) => Some(Some(s)),
        Some(_) => None,
    }
}

/// An optional boolean field.
pub open spec fn spec_opt_bool(f: JFields, key: Seq<char>) -> Option<Option<bool>> {
    match spec_obj_get(f, key) {
        None => Some(None),
        Some(JsonVal::Null) => Some(None),
        Some(JsonVal::Bool(b)) => Some(Some(b)),
        Some(_) => None,
    }
}

/// An array whose items must all be strings.
pub open spec fn spec_strings_of(items: Seq<JsonVal>) -> Option<Seq<Seq<char>>>
    decreases items.len(),
{
    if items.len() == 0 {
        Some(Seq::empty())
    } else {
        match items[0] {
            JsonVal::Str(s) => match spec_strings_of(items.drop_first()) {
                Some(r) => Some(seq![s] + r),
                None => None,
            },
            _ => None,
        }
    }
}

/// An optional field holding an array of strings.
pub open spec fn spec_opt_str_arr(f: JFields, key: Seq<char>) -> Option<
    Option<Seq<Seq<char>>>,
> {
    match spec_obj_get(f, key) {
        None => Some(None),
        Some(JsonVal::Null) => Some(None),
        Some(JsonVal::Arr(items)) => match spec_strings_of(items) {
            Some(ss) => Some(Some(ss)),
            None => None,
        },
        Some(_) => None,
    }
}

/// An object whose values must all be strings, kept in field order.
pub open spec fn spec_env_of(fields: JFields) -> Option<Seq<(Seq<char>, Seq<char>)>>
    decreases fields.len(),
{
    if fields.len() == 0 {
        Some(Seq::empty())
    } else {
        match fields[0].1 {
            JsonVal::Str(s) => match spec_env_of(fields.drop_first()) {
                Some(r) => Some(seq![(fields[0].0, s)] + r),
                None => None,
            },
            _ => None,
        }
    }
}

/// An optional field holding an object of string values.
pub open spec fn spec_opt_env(f: JFields, key: Seq<char>) -> Option<
    Option<Seq<(Seq<char>, Seq<char>)>>,
> {
    match spec_obj_get(f, key) {
        None => Some(None),
        Some(JsonVal::Null) => Some(None),
        Some(JsonVal::Obj(fields)) => match spec_env_of(fields) {
            Some(env) => Some(Some(env)),
            None => None,
        },
        Some(_) => None,
    }
}

/// The boolean option shape: a required `default` that is a string or a
/// boolean, and an optional description.
pub open spec fn spec_boolean_shape(f: JFields) -> Option<DevOptionV> {
    match spec_opt_str(f, "description"@) {
        Some(desc) => match spec_obj_get(f, "default"@) {
            Some(JsonVal::Str(s)) => Some(
                DevOptionV::Boolean { default: BooleanDefaultV::Str(s), description: desc },
            ),
            Some(JsonVal::Bool(b)) => Some(
                DevOptionV::Boolean { default: BooleanDefaultV::Bool(b), description: desc },
            ),
            _ => None,
        },
        None => None,
    }
}

/// The enumeration shape of a string option: requires `default` and an
/// `enum` array of strings.
pub open spec fn spec_enum_shape(f: JFields) -> Option<StringDevOptionV> {
    match (spec_req_str(f, "default"@), spec_obj_get(f, "enum"@), spec_opt_str(
        f,
        "description"@,
    )) {
        (Some(d), Some(JsonVal::Arr(items)), Some(desc)) => match spec_strings_of(items) {
            Some(ev) => Some(
                StringDevOptionV::EnumValues { default: d, description: desc, enum_values: ev },
            ),
            None => None,
        },
        _ => None,
    }
}

/// The proposals shape of a string option: everything optional.
pub open spec fn spec_proposals_shape(f: JFields) -> Option<StringDevOptionV> {
    match (spec_opt_str(f, "default"@), spec_opt_str_arr(f, "proposals"@), spec_opt_str(
        f,
        "description"@,
    )) {
        (Some(d), Some(p), Some(desc)) => Some(
            StringDevOptionV::Proposals { default: d, description: desc, proposals: p },
        ),
        _ => None,
    }
}

/// One option, decoded from its JSON schema: the `type` tag picks the shape;
/// for string options the enumeration shape is tried before the proposals
/// shape, since only the former has a required `enum` field.
pub open spec fn spec_parse_dev_option(v: JsonVal) -> Option<DevOptionV> {
    match v {
        JsonVal::Obj(f) => match spec_req_str(f, "type"@) {
            Some(t) => if t == "boolean"@ {
                spec_boolean_shape(f)
            } else if t == "string"@ {
                match spec_enum_shape(f) {
                    Some(e) => Some(DevOptionV::String(e)),
                    None => match spec_proposals_shape(f) {
                        Some(p) => Some(DevOptionV::String(p)),
                        None => None,
                    },
                }
            } else {
                None
            },
            None => None,
        },
        _ => None,
    }
}

impl Default for DevOption {
    /// A boolean option whose default is the string `"true"`.
    fn default() -> (r: Self)
        ensures
            r@ == (DevOptionV::Boolean {
                default: BooleanDefaultV::Str("true"@),
                description: None,
            }),
    {
        DevOption::Boolean {
            default: BooleanDefaultType::String("true".to_owned()),
            description: None,
        }
    }
}

fn get_req_str(fields: &Vec<(String, JsonValue)>, key: &str) -> (r: Option<String>)
    ensures
        match r {
            Some(s) => spec_req_str(crate::json::fields_view(fields@), key@) == Some(s@),
            None => spec_req_str(crate::json::fields_view(fields@), key@) is None,
        },
{
    match obj_get(fields, key) {
        Some(v) => match v {
            JsonValue::Str(s) => Some(s.clone()),
            _ => None,
        },
        None => None,
    }
}

fn get_opt_str(fields: &Vec<(String, JsonValue)>, key: &str) -> (r: Option<Option<String>>)
    ensures
        match r {
            Some(o) => spec_opt_str(crate::json::fields_view(fields@), key@) == Some(
                opt_str_view(o),
            ),
            None => spec_opt_str(crate::json::fields_view(fields@), key@) is None,
        },
{
    match obj_get(fields, key) {
        None => Some(None),
        Some(v) => match v {
            JsonValue::Null => Some(None),
            JsonValue::Str(s) => Some(Some(s.clone())),
            _ => None,
        },
    }
}

fn get_opt_bool(fields: &Vec<(String, JsonValue)>, key: &str) -> (r: Option<Option<bool>>)
    ensures
        match r {
            Some(o) => spec_opt_bool(crate::json::fields_view(fields@), key@) == Some(o),
            None => spec_opt_bool(crate::json::fields_view(fields@), key@) is None,
        },
{
    match obj_get(fields, key) {
        None => Some(None),
        Some(v) => match v {
            JsonValue::Null => Some(None),
            JsonValue::Bool(b) => Some(Some(*b)),
            _ => None,
        },
    }
}

/// All items of the array as strings, or nothing when one is not a string.
#[verifier::loop_isolation(false)]
fn strings_of(items: &Vec<JsonValue>) -> (r: Option<Vec<String>>)
    ensures
        match r {
            Some(v) => spec_strings_of(crate::json::arr_view(items@)) == Some(strings_view(v@)),
            None => spec_strings_of(crate::json::arr_view(items@)) is None,
        },
{
    proof {
        crate::json::lemma_arr_view_elems(items@);
    }
    let ghost av = crate::json::arr_view(items@);
    let mut out: Vec<String> = Vec::new();
    assert(av.skip(0) =~= av);
    let mut i: usize = 0;
    while i < items.len()
        invariant
            i <= av.len(),
            out@.len() == i,
            spec_strings_of(av) == (match spec_strings_of(av.skip(i as int)) {
                Some(rest) => Some(strings_view(out@) + rest),
                None => None::<Seq<Seq<char>>>,
            }),
        decreases av.len() - i,
    {
        assert(av.skip(i as int).drop_first() =~= av.skip(i + 1));
        assert(av.skip(i as int)[0] == av[i as int]);
        match &items[i] {
            JsonValue::Str(s) => {
                let ghost out0 = strings_view(out@);
                out.push(s.clone());
                proof {
                    assert(strings_view(out@) =~= out0.push(s@));
                    if spec_strings_of(av.skip(i + 1)) is Some {
                        let rest = spec_strings_of(av.skip(i + 1)).unwrap();
                        assert(out0 + (seq![s@] + rest) =~= strings_view(out@) + rest);
                    }
                }
            },
            _ => {
                assert(spec_strings_of(av.skip(i as int)) is None);
                return None;
            },
        }
        i = i + 1;
    }
    proof {
        assert(av.skip(av.len() as int) =~= Seq::<JsonVal>::empty());
        assert(strings_view(out@) + Seq::<Seq<char>>::empty() =~= strings_view(out@));
    }
    Some(out)
}

fn get_opt_str_arr(fields: &Vec<(String, JsonValue)>, key: &str) -> (r: Option<
    Option<Vec<String>>,
>)
    ensures
        match r {
            Some(o) => spec_opt_str_arr(crate::json::fields_view(fields@), key@) == Some(
                opt_strings_view(o),
            ),
            None => spec_opt_str_arr(crate::json::fields_view(fields@), key@) is None,
        },
{
    match obj_get(fields, key) {
        None => Some(None),
        Some(v) => match v {
            JsonValue::Null => Some(None),
            JsonValue::Arr(items) => match strings_of(items) {
                Some(ss) => Some(Some(ss)),
                None => None,
            },
            _ => None,
        },
    }
}

pub open spec fn env_view(s: Seq<(String, String)>) -> Seq<(Seq<char>, Seq<char>)> {
    Seq::new(s.len(), |i: int| (s[i].0@, s[i].1@))
}

pub open spec fn opt_env_view(o: Option<Vec<(String, String)>>) -> Option<
    Seq<(Seq<char>, Seq<char>)>,
> {
    match o {
        Some(v) => Some(env_view(v@)),
        None => None,
    }
}

/// All values of the object as strings, keyed as in the object.
#[verifier::loop_isolation(false)]
fn env_of(fields: &Vec<(String, JsonValue)>) -> (r: Option<Vec<(String, String)>>)
    ensures
        match r {
            Some(v) => spec_env_of(crate::json::fields_view(fields@)) == Some(env_view(v@)),
            None => spec_env_of(crate::json::fields_view(fields@)) is None,
        },
{
    proof {
        crate::json::lemma_fields_view_elems(fields@);
    }
    let ghost fv = crate::json::fields_view(fields@);
    let mut out: Vec<(String, String)> = Vec::new();
    assert(fv.skip(0) =~= fv);
    let mut i: usize = 0;
    while i < fields.len()
        invariant
            i <= fv.len(),
            out@.len() == i,
            spec_env_of(fv) == (match spec_env_of(fv.skip(i as int)) {
                Some(rest) => Some(env_view(out@) + rest),
                None => None::<Seq<(Seq<char>, Seq<char>)>>,
            }),
        decreases fv.len() - i,
    {
        assert(fv.skip(i as int).drop_first() =~= fv.skip(i + 1));
        assert(fv.skip(i as int)[0] == fv[i as int]);
        match &fields[i].1 {
            JsonValue::Str(s) => {
                let ghost out0 = env_view(out@);
                let k = fields[i].0.clone();
                out.push((k, s.clone()));
                proof {
                    assert(env_view(out@) =~= out0.push((fields@[i as int].0@, s@)));
                    if spec_env_of(fv.skip(i + 1)) is Some {
                        let rest = spec_env_of(fv.skip(i + 1)).unwrap();
                        assert(out0 + (seq![(fields@[i as int].0@, s@)] + rest) =~= env_view(out@)
                            + rest);
                    }
                }
            },
            _ => {
                assert(spec_env_of(fv.skip(i as int)) is None);
                return None;
            },
        }
        i = i + 1;
    }
    proof {
        assert(fv.skip(fv.len() as int) =~= Seq::<(Seq<char>, JsonVal)>::empty());
        assert(env_view(out@) + Seq::<(Seq<char>, Seq<char>)>::empty() =~= env_view(out@));
    }
    Some(out)
}

fn get_opt_env(fields: &Vec<(String, JsonValue)>, key: &str) -> (r: Option<
    Option<Vec<(String, String)>>,
>)
    ensures
        match r {
            Some(o) => spec_opt_env(crate::json::fields_view(fields@), key@) == Some(
                opt_env_view(o),
            ),
            None => spec_opt_env(crate::json::fields_view(fields@), key@) is None,
        },
{
    match obj_get(fields, key) {
        None => Some(None),
        Some(v) => match v {
            JsonValue::Null => Some(None),
            JsonValue::Obj(inner) => match env_of(inner) {
                Some(env) => Some(Some(env)),
                None => None,
            },
            _ => None,
        },
    }
}

/// Every character is a decimal digit.
pub open spec fn spec_all_digits(s: Seq<char>) -> bool {
    forall|i: int| 0 <= i < s.len() ==> 0x30 <= #[trigger] (s[i] as u32) <= 0x39
}

/// The number the digit string denotes.
pub open spec fn spec_digits_val(s: Seq<char>) -> int
    decreases s.len(),
{
    if s.len() == 0 {
        0
    } else {
        spec_digits_val(s.drop_last()) * 10 + (s.last() as u32 - 0x30)
    }
}

/// The integer a decimal lexeme denotes: an optional minus sign followed by
/// digits only — a fraction or exponent disqualifies it.
pub open spec fn spec_parse_int(s: Seq<char>) -> Option<int> {
    if s.len() == 0 {
        None
    } else if s[0] as u32 == 0x2d {
        if s.len() > 1 && spec_all_digits(s.drop_first()) {
            Some(-spec_digits_val(s.drop_first()))
        } else {
            None
        }
    } else if spec_all_digits(s) {
        Some(spec_digits_val(s))
    } else {
        None
    }
}

/// The lexeme as an `i32`, when it is an integer in range.
pub open spec fn spec_parse_i32(s: Seq<char>) -> Option<i32> {
    match spec_parse_int(s) {
        Some(n) => if -0x8000_0000 <= n <= 0x7fff_ffff {
            Some(n as i32)
        } else {
            None
        },
        None => None,
    }
}

/// Reads a decimal lexeme as an `i32`; any value out of range, and any
/// lexeme that is not an optionally signed digit string, reads as nothing.
#[verifier::loop_isolation(false)]
pub fn parse_i32_lexeme(s: &str) -> (r: Option<i32>)
    ensures
        r == spec_parse_i32(s@),
{
    let n = s.unicode_len();
    if n == 0 {
        return None;
    }
    let first = s.get_char(0);
    let neg = first as u32 == 0x2d;
    let start: usize = if neg { 1 } else { 0 };
    if n == start {
        return None;
    }
    let mut acc: u64 = 0;
    let mut i = start;
    proof {
        assert(s@.subrange(start as int, start as int) =~= Seq::<char>::empty());
    }
    while i < n
        invariant
            start <= i <= n,
            acc <= 0x1_0000_0000u64,
            forall|j: int| start <= j < i ==> 0x30 <= #[trigger] (s@[j] as u32) <= 0x39,
            spec_digits_val(s@.subrange(start as int, i as int)) >= 0,
            spec_digits_val(s@.subrange(start as int, i as int)) <= 0x8000_0000 ==> acc
                == spec_digits_val(s@.subrange(start as int, i as int)),
            spec_digits_val(s@.subrange(start as int, i as int)) > 0x8000_0000 ==> acc
                == 0x1_0000_0000u64,
        decreases n - i,
    {
        let c = s.get_char(i);
        let cu = c as u32;
        if cu < 0x30 || cu > 0x39 {
            assert(spec_parse_i32(s@) is None) by {
                if neg {
                    assert(!spec_all_digits(s@.drop_first())) by {
                        assert(s@.drop_first()[i - 1] as u32 == cu);
                    }
                } else {
                    assert(!spec_all_digits(s@)) by {
                        assert(s@[i as int] as u32 == cu);
                    }
                }
            }
            return None;
        }
        let d = (cu - 0x30) as u64;
        let ghost pv = spec_digits_val(s@.subrange(start as int, i as int));
        proof {
            assert(s@.subrange(start as int, i + 1).drop_last() =~= s@.subrange(
                start as int,
                i as int,
            ));
            assert(s@.subrange(start as int, i + 1).last() == s@[i as int]);
            assert(spec_digits_val(s@.subrange(start as int, i + 1)) == pv * 10 + d);
        }
        if acc >= 0x1_0000_0000u64 {
            proof {
                assert(pv > 0x8000_0000);
                assert(pv * 10 + d > 0x8000_0000) by (nonlinear_arith)
                    requires
                        pv > 0x8000_0000,
                        d >= 0,
                ;
            }
        } else {
            let next = acc * 10 + d;
            if next > 0x8000_0000u64 {
                acc = 0x1_0000_0000u64;
            } else {
                acc = next;
            }
        }
        i = i + 1;
    }
    let ghost whole = s@.subrange(start as int, n as int);
    proof {
        if neg {
            assert(s@.drop_first() =~= whole);
        } else {
            assert(s@ =~= whole);
            assert(0x30 <= s@[0] as u32 <= 0x39);
        }
    }
    if neg {
        if acc <= 0x8000_0000u64 {
            if acc == 0x8000_0000u64 {
                Some(-0x8000_0000i32)
            } else {
                Some(-(acc as i32))
            }
        } else {
            None
        }
    } else {
        if acc <= 0x7fff_ffffu64 {
            Some(acc as i32)
        } else {
            None
        }
    }
}

/// An optional field holding an integer that fits an `i32`.
pub open spec fn spec_opt_i32(f: JFields, key: Seq<char>) -> Option<Option<i32>> {
    match spec_obj_get(f, key) {
        None => Some(None),
        Some(JsonVal::Null) => Some(None),
        Some(JsonVal::Num(lex)) => match spec_parse_i32(lex) {
            Some(n) => Some(Some(n)),
            None => None,
        },
        Some(_) => None,
    }
}

fn get_opt_i32(fields: &Vec<(String, JsonValue)>, key: &str) -> (r: Option<Option<i32>>)
    ensures
        match r {
            Some(o) => spec_opt_i32(crate::json::fields_view(fields@), key@) == Some(o),
            None => spec_opt_i32(crate::json::fields_view(fields@), key@) is None,
        },
{
    match obj_get(fields, key) {
        None => Some(None),
        Some(v) => match v {
            JsonValue::Null => Some(None),
            JsonValue::Num(lex) => match parse_i32_lexeme(lex.as_str()) {
                Some(n) => Some(Some(n)),
                None => None,
            },
            _ => None,
        },
    }
}

/// One option, decoded as [`spec_parse_dev_option`] says.
pub fn parse_dev_option(v: &JsonValue) -> (r: Option<DevOption>)
    ensures
        match r {
            Some(o) => spec_parse_dev_option(v@) == Some(o@),
            None => spec_parse_dev_option(v@) is None,
        },
{
    match v {
        JsonValue::Obj(f) => {
            let t = match get_req_str(f, "type") {
                Some(t) => t,
                None => {
                    return None;
                },
            };
            if str_eq(t.as_str(), "boolean") {
                let desc = match get_opt_str(f, "description") {
                    Some(d) => d,
                    None => {
                        return None;
                    },
                };
                match obj_get(f, "default") {
                    Some(JsonValue::Str(s)) => Some(
                        DevOption::Boolean {
                            default: BooleanDefaultType::String(s.clone()),
                            description: desc,
                        },
                    ),
                    Some(JsonValue::Bool(b)) => Some(
                        DevOption::Boolean {
                            default: BooleanDefaultType::Boolean(*b),
                            description: desc,
                        },
                    ),
                    _ => None,
                }
            } else if str_eq(t.as_str(), "string") {
                let desc = match get_opt_str(f, "description") {
                    Some(d) => d,
                    None => {
                        return None;
                    },
                };
                let enum_arr: Option<Vec<String>> = match obj_get(f, "enum") {
                    Some(JsonValue::Arr(items)) => strings_of(items),
                    _ => None,
                };
                match (get_req_str(f, "default"), enum_arr) {
                    (Some(d), Some(ev)) => {
                        return Some(
                            DevOption::String(
                                StringDevOption::EnumValues {
                                    default: d,
                                    description: desc,
                                    enum_values: ev,
                                },
                            ),
                        );
                    },
                    _ => {},
                }
                assert(spec_enum_shape((v@)->Obj_0) is None);
                let d = match get_opt_str(f, "default") {
                    Some(d) => d,
                    None => {
                        return None;
                    },
                };
                let p = match get_opt_str_arr(f, "proposals") {
                    Some(p) => p,
                    None => {
                        return None;
                    },
                };
                Some(
                    DevOption::String(
                        StringDevOption::Proposals {
                            default: d,
                            description: desc,
                            proposals: p,
                        },
                    ),
                )
            } else {
                None
            }
        },
        _ => None,
    }
}

/// Who published a collection, and where it lives.
#[derive(Debug, Clone)]
pub struct SourceInformation {
    pub name: String,
    pub maintainer: String,
    pub contact: String,
    pub repository: String,
    pub oci_reference: String,
}

#[verifier::ext_equal]
pub ghost struct SourceInformationV {
    pub name: Seq<char>,
    pub maintainer: Seq<char>,
    pub contact: Seq<char>,
    pub repository: Seq<char>,
    pub oci_reference: Seq<char>,
}

impl View for SourceInformation {
    type V = SourceInformationV;

    open spec fn view(&self) -> SourceInformationV {
        SourceInformationV {
            name: self.name@,
            maintainer: self.maintainer@,
            contact: self.contact@,
            repository: self.repository@,
            oci_reference: self.oci_reference@,
        }
    }
}

/// A collection's source block: five required strings.
pub open spec fn spec_parse_source(v: JsonVal) -> Option<SourceInformationV> {
    match v {
        JsonVal::Obj(f) => match (spec_req_str(f, "name"@), spec_req_str(f, "maintainer"@),
        spec_req_str(f, "contact"@), spec_req_str(f, "repository"@), spec_req_str(
            f,
            "ociReference"@,
        )) {
            (Some(name), Some(maintainer), Some(contact), Some(repository), Some(oci_reference)) =>
                Some(
                SourceInformationV { name, maintainer, contact, repository, oci_reference },
            ),
            _ => None,
        },
        _ => None,
    }
}

pub fn parse_source(v: &JsonValue) -> (r: Option<SourceInformation>)
    ensures
        match r {
            Some(s) => spec_parse_source(v@) == Some(s@),
            None => spec_parse_source(v@) is None,
        },
{
    match v {
        JsonValue::Obj(f) => {
            match (get_req_str(f, "name"), get_req_str(f, "maintainer"), get_req_str(f, "contact"),
            get_req_str(f, "repository"), get_req_str(f, "ociReference")) {
                (
                    Some(name),
                    Some(maintainer),
                    Some(contact),
                    Some(repository),
                    Some(oci_reference),
                ) => Some(
                    SourceInformation { name, maintainer, contact, repository, oci_reference },
                ),
                _ => None,
            }
        },
        _ => None,
    }
}

/// The free-form `customizations` bag of a feature, kept as an opaque JSON
/// value with named accessors for the known paths.
#[derive(Debug, Clone)]
pub struct Customizations(pub JsonValue);

impl View for Customizations {
    type V = JsonVal;

    open spec fn view(&self) -> JsonVal {
        self.0@
    }
}

/// The strings among the given items; other items are passed over.
pub open spec fn spec_str_items(items: Seq<JsonVal>) -> Seq<Seq<char>>
    decreases items.len(),
{
    if items.len() == 0 {
        Seq::empty()
    } else {
        match items[0] {
            JsonVal::Str(s) => seq![s] + spec_str_items(items.drop_first()),
            _ => spec_str_items(items.drop_first()),
        }
    }
}

/// The editor extension list under `customizations.vscode.extensions`,
/// when that path holds an array; its string items, in order.
pub open spec fn spec_vscode_extensions(v: JsonVal) -> Option<Seq<Seq<char>>> {
    match v {
        JsonVal::Obj(f) => match spec_obj_get(f, "vscode"@) {
            Some(JsonVal::Obj(vf)) => match spec_obj_get(vf, "extensions"@) {
                Some(JsonVal::Arr(items)) => Some(spec_str_items(items)),
                _ => None,
            },
            _ => None,
        },
        _ => None,
    }
}

impl Customizations {
    /// The editor extension identifiers, when declared.
    #[verifier::loop_isolation(false)]
    pub fn vscode_extensions(&self) -> (r: Option<Vec<String>>)
        ensures
            match r {
                Some(ids) => spec_vscode_extensions(self@) == Some(strings_view(ids@)),
                None => spec_vscode_extensions(self@) is None,
            },
    {
        let vf = match &self.0 {
            JsonValue::Obj(f) => match obj_get(f, "vscode") {
                Some(JsonValue::Obj(vf)) => vf,
                _ => {
                    return None;
                },
            },
            _ => {
                return None;
            },
        };
        let items = match obj_get(vf, "extensions") {
            Some(JsonValue::Arr(items)) => items,
            _ => {
                return None;
            },
        };
        proof {
            crate::json::lemma_arr_view_elems(items@);
        }
        let ghost av = crate::json::arr_view(items@);
        let mut out: Vec<String> = Vec::new();
        assert(av.skip(0) =~= av);
        let mut i: usize = 0;
        while i < items.len()
            invariant
                i <= av.len(),
                spec_str_items(av) == strings_view(out@) + spec_str_items(av.skip(i as int)),
            decreases av.len() - i,
        {
            assert(av.skip(i as int).drop_first() =~= av.skip(i + 1));
            assert(av.skip(i as int)[0] == av[i as int]);
            match &items[i] {
                JsonValue::Str(s) => {
                    let ghost out0 = strings_view(out@);
                    out.push(s.clone());
                    proof {
                        assert(strings_view(out@) =~= out0.push(s@));
                        assert(out0 + (seq![s@] + spec_str_items(av.skip(i + 1))) =~= strings_view(
                            out@,
                        ) + spec_str_items(av.skip(i + 1)));
                    }
                },
                _ => {},
            }
            i = i + 1;
        }
        proof {
            assert(av.skip(av.len() as int) =~= Seq::<JsonVal>::empty());
            assert(strings_view(out@) + spec_str_items(av.skip(av.len() as int)) =~= strings_view(
                out@,
            ));
        }
        Some(out)
    }
}

/// How a template expects to be realised.
#[derive(Debug, Clone, Copy, PartialEq, Eq, Structural)]
pub enum TemplateType {
    Image,
    Dockerfile,
    DockerCompose,
}

/// An optional `type` field of a template.
pub open spec fn spec_opt_template_type(f: JFields, key: Seq<char>) -> Option<
    Option<TemplateType>,
> {
    match spec_obj_get(f, key) {
        None => Some(None),
        Some(JsonVal::Null) => Some(None),
        Some(JsonVal::Str(s)) => if s == "image"@ {
            Some(Some(TemplateType::Image))
        } else if s == "dockerfile"@ {
            Some(Some(TemplateType::Dockerfile))
        } else if s == "dockerCompose"@ {
            Some(Some(TemplateType::DockerCompose))
        } else {
            None
        },
        Some(_) => None,
    }
}

fn get_opt_template_type(fields: &Vec<(String, JsonValue)>, key: &str) -> (r: Option<
    Option<TemplateType>,
>)
    ensures
        match r {
            Some(o) => spec_opt_template_type(crate::json::fields_view(fields@), key@) == Some(o),
            None => spec_opt_template_type(crate::json::fields_view(fields@), key@) is None,
        },
{
    match obj_get(fields, key) {
        None => Some(None),
        Some(v) => match v {
            JsonValue::Null => Some(None),
            JsonValue::Str(s) => {
                if str_eq(s.as_str(), "image") {
                    Some(Some(TemplateType::Image))
                } else if str_eq(s.as_str(), "dockerfile") {
                    Some(Some(TemplateType::Dockerfile))
                } else if str_eq(s.as_str(), "dockerCompose") {
                    Some(Some(TemplateType::DockerCompose))
                } else {
                    None
                }
            },
            _ => None,
        },
    }
}

/// The views of a declared option list.
pub open spec fn options_view(s: Seq<(String, DevOption)>) -> Seq<(Seq<char>, DevOptionV)> {
    Seq::new(s.len(), |i: int| (s[i].0@, s[i].1@))
}

pub open spec fn opt_options_view(o: Option<Vec<(String, DevOption)>>) -> Option<
    Seq<(Seq<char>, DevOptionV)>,
> {
    match o {
        Some(v) => Some(options_view(v@)),
        None => None,
    }
}

/// All values of the object as options, keyed as in the object.
pub open spec fn spec_options_of(fields: JFields) -> Option<Seq<(Seq<char>, DevOptionV)>>
    decreases fields.len(),
{
    if fields.len() == 0 {
        Some(Seq::empty())
    } else {
        match spec_parse_dev_option(fields[0].1) {
            Some(o) => match spec_options_of(fields.drop_first()) {
                Some(r) => Some(seq![(fields[0].0, o)] + r),
                None => None,
            },
            None => None,
        }
    }
}

/// An optional field holding an object of option declarations.
pub open spec fn spec_opt_options(f: JFields, key: Seq<char>) -> Option<
    Option<Seq<(Seq<char>, DevOptionV)>>,
> {
    match spec_obj_get(f, key) {
        None => Some(None),
        Some(JsonVal::Null) => Some(None),
        Some(JsonVal::Obj(fields)) => match spec_options_of(fields) {
            Some(opts) => Some(Some(opts)),
            None => None,
        },
        Some(_) => None,
    }
}

#[verifier::loop_isolation(false)]
fn options_of(fields: &Vec<(String, JsonValue)>) -> (r: Option<Vec<(String, DevOption)>>)
    ensures
        match r {
            Some(v) => spec_options_of(crate::json::fields_view(fields@)) == Some(
                options_view(v@),
            ),
            None => spec_options_of(crate::json::fields_view(fields@)) is None,
        },
{
    proof {
        crate::json::lemma_fields_view_elems(fields@);
    }
    let ghost fv = crate::json::fields_view(fields@);
    let mut out: Vec<(String, DevOption)> = Vec::new();
    assert(fv.skip(0) =~= fv);
    let mut i: usize = 0;
    while i < fields.len()
        invariant
            i <= fv.len(),
            out@.len() == i,
            spec_options_of(fv) == (match spec_options_of(fv.skip(i as int)) {
                Some(rest) => Some(options_view(out@) + rest),
                None => None::<Seq<(Seq<char>, DevOptionV)>>,
            }),
        decreases fv.len() - i,
    {
        assert(fv.skip(i as int).drop_first() =~= fv.skip(i + 1));
        assert(fv.skip(i as int)[0] == fv[i as int]);
        match parse_dev_option(&fields[i].1) {
            Some(o) => {
                let ghost out0 = options_view(out@);
                let ghost ov = o@;
                let k = fields[i].0.clone();
                out.push((k, o));
                proof {
                    assert(options_view(out@) =~= out0.push((fields@[i as int].0@, ov)));
                    if spec_options_of(fv.skip(i + 1)) is Some {
                        let rest = spec_options_of(fv.skip(i + 1)).unwrap();
                        assert(out0 + (seq![(fields@[i as int].0@, ov)] + rest) =~= options_view(
                            out@,
                        ) + rest);
                    }
                }
            },
            None => {
                assert(spec_options_of(fv.skip(i as int)) is None);
                return None;
            },
        }
        i = i + 1;
    }
    proof {
        assert(fv.skip(fv.len() as int) =~= Seq::<(Seq<char>, JsonVal)>::empty());
        assert(options_view(out@) + Seq::<(Seq<char>, DevOptionV)>::empty() =~= options_view(
            out@,
        ));
    }
    Some(out)
}

fn get_opt_options(fields: &Vec<(String, JsonValue)>, key: &str) -> (r: Option<
    Option<Vec<(String, DevOption)>>,
>)
    ensures
        match r {
            Some(o) => spec_opt_options(crate::json::fields_view(fields@), key@) == Some(
                opt_options_view(o),
            ),
            None => spec_opt_options(crate::json::fields_view(fields@), key@) is None,
        },
{
    match obj_get(fields, key) {
        None => Some(None),
        Some(v) => match v {
            JsonValue::Null => Some(None),
            JsonValue::Obj(inner) => match options_of(inner) {
                Some(opts) => Some(Some(opts)),
                None => None,
            },
            _ => None,
        },
    }
}

/// An optional free-form field, kept whole; `null` reads as absent.
pub open spec fn spec_opt_custom(f: JFields, key: Seq<char>) -> Option<JsonVal> {
    match spec_obj_get(f, key) {
        None => None,
        Some(JsonVal::Null) => None,
        Some(x) => Some(x),
    }
}

pub open spec fn opt_custom_view(o: Option<Customizations>) -> Option<JsonVal> {
    match o {
        Some(c) => Some(c@),
        None => None,
    }
}

fn get_opt_custom(fields: &Vec<(String, JsonValue)>, key: &str) -> (r: Option<Customizations>)
    ensures
        opt_custom_view(r) == spec_opt_custom(crate::json::fields_view(fields@), key@),
{
    match obj_get(fields, key) {
        None => None,
        Some(v) => match v {
            JsonValue::Null => None,
            _ => Some(Customizations(crate::json::clone_json(v))),
        },
    }
}

/// A reusable add-on installable into a container, addressed by id and
/// major version.
#[derive(Debug, Clone)]
pub struct Feature {
    pub id: String,
    pub version: String,
    pub name: String,
    pub description: Option<String>,
    pub documentation_url: Option<String>,
    pub license_url: Option<String>,
    pub keywords: Option<Vec<String>>,
    pub options: Option<Vec<(String, DevOption)>>,
    pub container_env: Option<Vec<(String, String)>>,
    pub privileged: Option<bool>,
    pub init: Option<bool>,
    pub cap_add: Option<Vec<String>>,
    pub security_opt: Option<Vec<String>>,
    pub entrypoint: Option<String>,
    pub customizations: Option<Customizations>,
    pub installs_after: Option<Vec<String>>,
    pub lecagy_ids: Option<Vec<String>>,
    pub deprecated: Option<bool>,
    pub owner: String,
    pub major_version: String,
}

#[verifier::ext_equal]
pub ghost struct FeatureV {
    pub id: Seq<char>,
    pub version: Seq<char>,
    pub name: Seq<char>,
    pub description: Option<Seq<char>>,
    pub documentation_url: Option<Seq<char>>,
    pub license_url: Option<Seq<char>>,
    pub keywords: Option<Seq<Seq<char>>>,
    pub options: Option<Seq<(Seq<char>, DevOptionV)>>,
    pub container_env: Option<Seq<(Seq<char>, Seq<char>)>>,
    pub privileged: Option<bool>,
    pub init: Option<bool>,
    pub cap_add: Option<Seq<Seq<char>>>,
    pub security_opt: Option<Seq<Seq<char>>>,
    pub entrypoint: Option<Seq<char>>,
    pub customizations: Option<JsonVal>,
    pub installs_after: Option<Seq<Seq<char>>>,
    pub lecagy_ids: Option<Seq<Seq<char>>>,
    pub deprecated: Option<bool>,
    pub owner: Seq<char>,
    pub major_version: Seq<char>,
}

impl View for Feature {
    type V = FeatureV;

    open spec fn view(&self) -> FeatureV {
        FeatureV {
            id: self.id@,
            version: self.version@,
            name: self.name@,
            description: opt_str_view(self.description),
            documentation_url: opt_str_view(self.documentation_url),
            license_url: opt_str_view(self.license_url),
            keywords: opt_strings_view(self.keywords),
            options: opt_options_view(self.options),
            container_env: opt_env_view(self.container_env),
            privileged: self.privileged,
            init: self.init,
            cap_add: opt_strings_view(self.cap_add),
            security_opt: opt_strings_view(self.security_opt),
            entrypoint: opt_str_view(self.entrypoint),
            customizations: opt_custom_view(self.customizations),
            installs_after: opt_strings_view(self.installs_after),
            lecagy_ids: opt_strings_view(self.lecagy_ids),
            deprecated: self.deprecated,
            owner: self.owner@,
            major_version: self.major_version@,
        }
    }
}

/// One feature entry of the index. Its required strings and its typed
/// optional fields must decode, or the entry as a whole is rejected.
pub open spec fn spec_parse_feature(v: JsonVal) -> Option<FeatureV> {
    match v {
        JsonVal::Obj(f) => match (spec_req_str(f, "id"@), spec_req_str(f, "version"@),
        spec_req_str(f, "name"@), spec_req_str(f, "owner"@), spec_req_str(f, "majorVersion"@)) {
            (Some(id), Some(version), Some(name), Some(owner), Some(major_version)) => match (
                spec_opt_str(f, "description"@),
                spec_opt_str(f, "documentationURL"@),
                spec_opt_str(f, "licenseURL"@),
                spec_opt_str(f, "entrypoint"@),
            ) {
                (Some(description), Some(documentation_url), Some(license_url), Some(entrypoint))
                    => match (spec_opt_bool(f, "privileged"@), spec_opt_bool(f, "init"@),
                spec_opt_bool(f, "deprecated"@)) {
                    (Some(privileged), Some(init), Some(deprecated)) => match (
                        spec_opt_str_arr(f, "keywords"@),
                        spec_opt_str_arr(f, "capAdd"@),
                        spec_opt_str_arr(f, "securityOpt"@),
                        spec_opt_str_arr(f, "installsAfter"@),
                        spec_opt_str_arr(f, "lecagyIds"@),
                    ) {
                        (
                            Some(keywords),
                            Some(cap_add),
                            Some(security_opt),
                            Some(installs_after),
                            Some(lecagy_ids),
                        ) => match (spec_opt_options(f, "options"@), spec_opt_env(
                            f,
                            "containerEnv"@,
                        )) {
                            (Some(options), Some(container_env)) => Some(
                                FeatureV {
                                    id,
                                    version,
                                    name,
                                    description,
                                    documentation_url,
                                    license_url,
                                    keywords,
                                    options,
                                    container_env,
                                    privileged,
                                    init,
                                    cap_add,
                                    security_opt,
                                    entrypoint,
                                    customizations: spec_opt_custom(f, "customizations"@),
                                    installs_after,
                                    lecagy_ids,
                                    deprecated,
                                    owner,
                                    major_version,
                                },
                            ),
                            _ => None,
                        },
                        _ => None,
                    },
                    _ => None,
                },
                _ => None,
            },
            _ => None,
        },
        _ => None,
    }
}

/// One feature, decoded as [`spec_parse_feature`] says.
pub fn parse_feature(v: &JsonValue) -> (r: Option<Feature>)
    ensures
        match r {
            Some(x) => spec_parse_feature(v@) == Some(x@),
            None => spec_parse_feature(v@) is None,
        },
{
    let f = match v {
        JsonValue::Obj(f) => f,
        _ => {
            return None;
        },
    };
    let id = match get_req_str(f, "id") {
        Some(x) => x,
        None => {
            return None;
        },
    };
    let version = match get_req_str(f, "version") {
        Some(x) => x,
        None => {
            return None;
        },
    };
    let name = match get_req_str(f, "name") {
        Some(x) => x,
        None => {
            return None;
        },
    };
    let owner = match get_req_str(f, "owner") {
        Some(x) => x,
        None => {
            return None;
        },
    };
    let major_version = match get_req_str(f, "majorVersion") {
        Some(x) => x,
        None => {
            return None;
        },
    };
    let description = match get_opt_str(f, "description") {
        Some(x) => x,
        None => {
            return None;
        },
    };
    let documentation_url = match get_opt_str(f, "documentationURL") {
        Some(x) => x,
        None => {
            return None;
        },
    };
    let license_url = match get_opt_str(f, "licenseURL") {
        Some(x) => x,
        None => {
            return None;
        },
    };
    let entrypoint = match get_opt_str(f, "entrypoint") {
        Some(x) => x,
        None => {
            return None;
        },
    };
    let privileged = match get_opt_bool(f, "privileged") {
        Some(x) => x,
        None => {
            return None;
        },
    };
    let init = match get_opt_bool(f, "init") {
        Some(x) => x,
        None => {
            return None;
        },
    };
    let deprecated = match get_opt_bool(f, "deprecated") {
        Some(x) => x,
        None => {
            return None;
        },
    };
    let keywords = match get_opt_str_arr(f, "keywords") {
        Some(x) => x,
        None => {
            return None;
        },
    };
    let cap_add = match get_opt_str_arr(f, "capAdd") {
        Some(x) => x,
        None => {
            return None;
        },
    };
    let security_opt = match get_opt_str_arr(f, "securityOpt") {
        Some(x) => x,
        None => {
            return None;
        },
    };
    let installs_after = match get_opt_str_arr(f, "installsAfter") {
        Some(x) => x,
        None => {
            return None;
        },
    };
    let lecagy_ids = match get_opt_str_arr(f, "lecagyIds") {
        Some(x) => x,
        None => {
            return None;
        },
    };
    let options = match get_opt_options(f, "options") {
        Some(x) => x,
        None => {
            return None;
        },
    };
    let container_env = match get_opt_env(f, "containerEnv") {
        Some(x) => x,
        None => {
            return None;
        },
    };
    let customizations = get_opt_custom(f, "customizations");
    Some(
        Feature {
            id,
            version,
            name,
            description,
            documentation_url,
            license_url,
            keywords,
            options,
            container_env,
            privileged,
            init,
            cap_add,
            security_opt,
            entrypoint,
            customizations,
            installs_after,
            lecagy_ids,
            deprecated,
            owner,
            major_version,
        },
    )
}

/// A devcontainer scaffold archive, addressed by id.
#[derive(Debug, Clone)]
pub struct Template {
    pub id: String,
    pub version: String,
    pub name: String,
    pub description: Option<String>,
    pub documentation_url: Option<String>,
    pub license_url: Option<String>,
    pub options: Option<Vec<(String, DevOption)>>,
    pub platforms: Option<Vec<String>>,
    pub publisher: Option<String>,
    pub keywords: Option<Vec<String>>,
    pub template_type: Option<TemplateType>,
    pub file_count: Option<i32>,
    pub feature_ids: Option<Vec<String>>,
    pub owner: String,
}

#[verifier::ext_equal]
pub ghost struct TemplateV {
    pub id: Seq<char>,
    pub version: Seq<char>,
    pub name: Seq<char>,
    pub description: Option<Seq<char>>,
    pub documentation_url: Option<Seq<char>>,
    pub license_url: Option<Seq<char>>,
    pub options: Option<Seq<(Seq<char>, DevOptionV)>>,
    pub platforms: Option<Seq<Seq<char>>>,
    pub publisher: Option<Seq<char>>,
    pub keywords: Option<Seq<Seq<char>>>,
    pub template_type: Option<TemplateType>,
    pub file_count: Option<i32>,
    pub feature_ids: Option<Seq<Seq<char>>>,
    pub owner: Seq<char>,
}

impl View for Template {
    type V = TemplateV;

    open spec fn view(&self) -> TemplateV {
        TemplateV {
            id: self.id@,
            version: self.version@,
            name: self.name@,
            description: opt_str_view(self.description),
            documentation_url: opt_str_view(self.documentation_url),
            license_url: opt_str_view(self.license_url),
            options: opt_options_view(self.options),
            platforms: opt_strings_view(self.platforms),
            publisher: opt_str_view(self.publisher),
            keywords: opt_strings_view(self.keywords),
            template_type: self.template_type,
            file_count: self.file_count,
            feature_ids: opt_strings_view(self.feature_ids),
            owner: self.owner@,
        }
    }
}

/// One template entry of the index.
pub open spec fn spec_parse_template(v: JsonVal) -> Option<TemplateV> {
    match v {
        JsonVal::Obj(f) => match (spec_req_str(f, "id"@), spec_req_str(f, "version"@),
        spec_req_str(f, "name"@), spec_req_str(f, "owner"@)) {
            (Some(id), Some(version), Some(name), Some(owner)) => match (
                spec_opt_str(f, "description"@),
                spec_opt_str(f, "documentationURL"@),
                spec_opt_str(f, "licenseURL"@),
                spec_opt_str(f, "publisher"@),
            ) {
                (Some(description), Some(documentation_url), Some(license_url), Some(publisher))
                    => match (spec_opt_str_arr(f, "platforms"@), spec_opt_str_arr(f, "keywords"@),
                spec_opt_str_arr(f, "featureIds"@)) {
                    (Some(platforms), Some(keywords), Some(feature_ids)) => match (
                        spec_opt_options(f, "options"@),
                        spec_opt_template_type(f, "type"@),
                        spec_opt_i32(f, "fileCount"@),
                    ) {
                        (Some(options), Some(template_type), Some(file_count)) => Some(
                            TemplateV {
                                id,
                                version,
                                name,
                                description,
                                documentation_url,
                                license_url,
                                options,
                                platforms,
                                publisher,
                                keywords,
                                template_type,
                                file_count,
                                feature_ids,
                                owner,
                            },
                        ),
                        _ => None,
                    },
                    _ => None,
                },
                _ => None,
            },
            _ => None,
        },
        _ => None,
    }
}

/// One template, decoded as [`spec_parse_template`] says.
pub fn parse_template(v: &JsonValue) -> (r: Option<Template>)
    ensures
        match r {
            Some(x) => spec_parse_template(v@) == Some(x@),
            None => spec_parse_template(v@) is None,
        },
{
    let f = match v {
        JsonValue::Obj(f) => f,
        _ => {
            return None;
        },
    };
    let id = match get_req_str(f, "id") {
        Some(x) => x,
        None => {
            return None;
        },
    };
    let version = match get_req_str(f, "version") {
        Some(x) => x,
        None => {
            return None;
        },
    };
    let name = match get_req_str(f, "name") {
        Some(x) => x,
        None => {
            return None;
        },
    };
    let owner = match get_req_str(f, "owner") {
        Some(x) => x,
        None => {
            return None;
        },
    };
    let description = match get_opt_str(f, "description") {
        Some(x) => x,
        None => {
            return None;
        },
    };
    let documentation_url = match get_opt_str(f, "documentationURL") {
        Some(x) => x,
        None => {
            return None;
        },
    };
    let license_url = match get_opt_str(f, "licenseURL") {
        Some(x) => x,
        None => {
            return None;
        },
    };
    let publisher = match get_opt_str(f, "publisher") {
        Some(x) => x,
        None => {
            return None;
        },
    };
    let platforms = match get_opt_str_arr(f, "platforms") {
        Some(x) => x,
        None => {
            return None;
        },
    };
    let keywords = match get_opt_str_arr(f, "keywords") {
        Some(x) => x,
        None => {
            return None;
        },
    };
    let feature_ids = match get_opt_str_arr(f, "featureIds") {
        Some(x) => x,
        None => {
            return None;
        },
    };
    let options = match get_opt_options(f, "options") {
        Some(x) => x,
        None => {
            return None;
        },
    };
    let template_type = match get_opt_template_type(f, "type") {
        Some(x) => x,
        None => {
            return None;
        },
    };
    let file_count = match get_opt_i32(f, "fileCount") {
        Some(x) => x,
        None => {
            return None;
        },
    };
    Some(
        Template {
            id,
            version,
            name,
            description,
            documentation_url,
            license_url,
            options,
            platforms,
            publisher,
            keywords,
            template_type,
            file_count,
            feature_ids,
            owner,
        },
    )
}

/// A publisher-owned bundle of features and templates sharing one source.
#[derive(Debug, Clone)]
pub struct Collection {
    pub source_information: SourceInformation,
    pub features: Vec<Feature>,
    pub templates: Vec<Template>,
}

#[verifier::ext_equal]
pub ghost struct CollectionV {
    pub source_information: SourceInformationV,
    pub features: Seq<FeatureV>,
    pub templates: Seq<TemplateV>,
}

pub open spec fn feats_view(s: Seq<Feature>) -> Seq<FeatureV> {
    Seq::new(s.len(), |i: int| s[i]@)
}

pub open spec fn templs_view(s: Seq<Template>) -> Seq<TemplateV> {
    Seq::new(s.len(), |i: int| s[i]@)
}

pub open spec fn cols_view(s: Seq<Collection>) -> Seq<CollectionV> {
    Seq::new(s.len(), |i: int| s[i]@)
}

impl View for Collection {
    type V = CollectionV;

    open spec fn view(&self) -> CollectionV {
        CollectionV {
            source_information: self.source_information@,
            features: feats_view(self.features@),
            templates: templs_view(self.templates@),
        }
    }
}

/// The features that decode, in order; a malformed element is skipped alone.
pub open spec fn spec_features_of(items: Seq<JsonVal>) -> Seq<FeatureV>
    decreases items.len(),
{
    if items.len() == 0 {
        Seq::empty()
    } else {
        match spec_parse_feature(items[0]) {
            Some(x) => seq![x] + spec_features_of(items.drop_first()),
            None => spec_features_of(items.drop_first()),
        }
    }
}

/// The templates that decode, in order.
pub open spec fn spec_templates_of(items: Seq<JsonVal>) -> Seq<TemplateV>
    decreases items.len(),
{
    if items.len() == 0 {
        Seq::empty()
    } else {
        match spec_parse_template(items[0]) {
            Some(x) => seq![x] + spec_templates_of(items.drop_first()),
            None => spec_templates_of(items.drop_first()),
        }
    }
}

/// One collection entry: its source block must decode and its `features` and
/// `templates` fields must be arrays, or the whole collection is skipped;
/// inside those arrays, each element is decoded on its own.
pub open spec fn spec_parse_collection(v: JsonVal) -> Option<CollectionV> {
    match v {
        JsonVal::Obj(f) => match spec_obj_get(f, "sourceInformation"@) {
            Some(sv) => match spec_parse_source(sv) {
                Some(source_information) => match (spec_obj_get(f, "features"@), spec_obj_get(
                    f,
                    "templates"@,
                )) {
                    (Some(JsonVal::Arr(fitems)), Some(JsonVal::Arr(titems))) => Some(
                        CollectionV {
                            source_information,
                            features: spec_features_of(fitems),
                            templates: spec_templates_of(titems),
                        },
                    ),
                    _ => None,
                },
                None => None,
            },
            None => None,
        },
        _ => None,
    }
}

/// How many feature elements a kept collection element discards.
pub open spec fn spec_feat_skips(v: JsonVal) -> int {
    if spec_parse_collection(v) is Some {
        match v {
            JsonVal::Obj(f) => match spec_obj_get(f, "features"@) {
                Some(JsonVal::Arr(items)) => items.len() - spec_features_of(items).len(),
                _ => 0,
            },
            _ => 0,
        }
    } else {
        0
    }
}

/// How many template elements a kept collection element discards.
pub open spec fn spec_templ_skips(v: JsonVal) -> int {
    if spec_parse_collection(v) is Some {
        match v {
            JsonVal::Obj(f) => match spec_obj_get(f, "templates"@) {
                Some(JsonVal::Arr(items)) => items.len() - spec_templates_of(items).len(),
                _ => 0,
            },
            _ => 0,
        }
    } else {
        0
    }
}

proof fn lemma_features_of_len(items: Seq<JsonVal>)
    ensures
        spec_features_of(items).len() <= items.len(),
    decreases items.len(),
{
    if items.len() > 0 {
        lemma_features_of_len(items.drop_first());
    }
}

proof fn lemma_templates_of_len(items: Seq<JsonVal>)
    ensures
        spec_templates_of(items).len() <= items.len(),
    decreases items.len(),
{
    if items.len() > 0 {
        lemma_templates_of_len(items.drop_first());
    }
}

/// One collection, decoded as [`spec_parse_collection`] says; beside it, how
/// many feature and template elements were discarded.
#[verifier::loop_isolation(false)]
pub fn parse_collection(v: &JsonValue) -> (r: Option<(Collection, usize, usize)>)
    ensures
        match r {
            Some((c, fs, ts)) => spec_parse_collection(v@) == Some(c@) && fs == spec_feat_skips(v@)
                && ts == spec_templ_skips(v@),
            None => spec_parse_collection(v@) is None,
        },
{
    let f = match v {
        JsonValue::Obj(f) => f,
        _ => {
            return None;
        },
    };
    let source_information = match obj_get(f, "sourceInformation") {
        Some(sv) => match parse_source(sv) {
            Some(s) => s,
            None => {
                return None;
            },
        },
        None => {
            return None;
        },
    };
    let fitems = match obj_get(f, "features") {
        Some(JsonValue::Arr(items)) => items,
        _ => {
            return None;
        },
    };
    let titems = match obj_get(f, "templates") {
        Some(JsonValue::Arr(items)) => items,
        _ => {
            return None;
        },
    };
    proof {
        crate::json::lemma_arr_view_elems(fitems@);
        crate::json::lemma_arr_view_elems(titems@);
    }
    let ghost fav = crate::json::arr_view(fitems@);
    let ghost tav = crate::json::arr_view(titems@);
    let mut features: Vec<Feature> = Vec::new();
    assert(fav.skip(0) =~= fav);
    let mut i: usize = 0;
    while i < fitems.len()
        invariant
            i <= fav.len(),
            features@.len() <= i,
            spec_features_of(fav) == feats_view(features@) + spec_features_of(
                fav.skip(i as int),
            ),
        decreases fav.len() - i,
    {
        assert(fav.skip(i as int).drop_first() =~= fav.skip(i + 1));
        assert(fav.skip(i as int)[0] == fav[i as int]);
        match parse_feature(&fitems[i]) {
            Some(x) => {
                let ghost f0 = feats_view(features@);
                let ghost xv = x@;
                features.push(x);
                proof {
                    assert(feats_view(features@) =~= f0.push(xv));
                    assert(f0 + (seq![xv] + spec_features_of(fav.skip(i + 1))) =~= feats_view(
                        features@,
                    ) + spec_features_of(fav.skip(i + 1)));
                }
            },
            None => {},
        }
        i = i + 1;
    }
    proof {
        assert(fav.skip(fav.len() as int) =~= Seq::<JsonVal>::empty());
        assert(feats_view(features@) + spec_features_of(fav.skip(fav.len() as int)) =~= feats_view(
            features@,
        ));
    }
    let mut templates: Vec<Template> = Vec::new();
    assert(tav.skip(0) =~= tav);
    let mut j: usize = 0;
    while j < titems.len()
        invariant
            j <= tav.len(),
            templates@.len() <= j,
            spec_templates_of(tav) == templs_view(templates@) + spec_templates_of(
                tav.skip(j as int),
            ),
        decreases tav.len() - j,
    {
        assert(tav.skip(j as int).drop_first() =~= tav.skip(j + 1));
        assert(tav.skip(j as int)[0] == tav[j as int]);
        match parse_template(&titems[j]) {
            Some(x) => {
                let ghost t0 = templs_view(templates@);
                let ghost xv = x@;
                templates.push(x);
                proof {
                    assert(templs_view(templates@) =~= t0.push(xv));
                    assert(t0 + (seq![xv] + spec_templates_of(tav.skip(j + 1))) =~= templs_view(
                        templates@,
                    ) + spec_templates_of(tav.skip(j + 1)));
                }
            },
            None => {},
        }
        j = j + 1;
    }
    proof {
        assert(tav.skip(tav.len() as int) =~= Seq::<JsonVal>::empty());
        assert(templs_view(templates@) + spec_templates_of(tav.skip(tav.len() as int))
            =~= templs_view(templates@));
    }
    let fs = fitems.len() - features.len();
    let ts = titems.len() - templates.len();
    let c = Collection { source_information, features, templates };
    assert(c@ =~= spec_parse_collection(v@).unwrap());
    Some((c, fs, ts))
}

/// The aggregated catalog: an ordered list of collections, built once per
/// invocation and immutable afterwards.
#[derive(Debug, Clone)]
pub struct DevcontainerIndex {
    collections: Vec<Collection>,
}

impl View for DevcontainerIndex {
    type V = Seq<CollectionV>;

    closed spec fn view(&self) -> Seq<CollectionV> {
        cols_view(self.collections@)
    }
}

/// The collection elements that decode, in order.
pub open spec fn spec_collections_of(arr: Seq<JsonVal>) -> Seq<CollectionV>
    decreases arr.len(),
{
    if arr.len() == 0 {
        Seq::empty()
    } else {
        match spec_parse_collection(arr[0]) {
            Some(c) => seq![c] + spec_collections_of(arr.drop_first()),
            None => spec_collections_of(arr.drop_first()),
        }
    }
}

/// The `collections` array of the index document, when the document is an
/// object that has one.
pub open spec fn spec_index_arr(doc: JsonVal) -> Option<Seq<JsonVal>> {
    match doc {
        JsonVal::Obj(f) => match spec_obj_get(f, "collections"@) {
            Some(JsonVal::Arr(arr)) => Some(arr),
            _ => None,
        },
        _ => None,
    }
}

/// Sum of a sequence of numbers.
pub open spec fn spec_sum(s: Seq<int>) -> int
    decreases s.len(),
{
    if s.len() == 0 {
        0
    } else {
        spec_sum(s.drop_last()) + s.last()
    }
}

proof fn lemma_sum_bounds(s: Seq<int>)
    requires
        forall|i: int| 0 <= i < s.len() ==> #[trigger] s[i] >= 0,
    ensures
        spec_sum(s) >= 0,
        forall|i: int| 0 <= i <= s.len() ==> #[trigger] spec_sum(s.take(i)) <= spec_sum(s),
    decreases s.len(),
{
    if s.len() == 0 {
        assert forall|i: int| 0 <= i <= s.len() implies #[trigger] spec_sum(s.take(i)) <= spec_sum(
            s,
        ) by {
            assert(s.take(i) =~= s);
        }
    } else {
        assert(forall|i: int| 0 <= i < s.drop_last().len() ==> #[trigger] s.drop_last()[i] >= 0);
        lemma_sum_bounds(s.drop_last());
        assert forall|i: int| 0 <= i <= s.len() implies #[trigger] spec_sum(s.take(i)) <= spec_sum(
            s,
        ) by {
            if i <= s.len() - 1 {
                assert(s.take(i) =~= s.drop_last().take(i));
            } else {
                assert(s.take(i) =~= s);
            }
        }
    }
}

/// The number of features a kept collection element contributes.
pub open spec fn spec_col_feat_count(v: JsonVal) -> int {
    match spec_parse_collection(v) {
        Some(c) => c.features.len() as int,
        None => 0,
    }
}

/// The number of templates a kept collection element contributes.
pub open spec fn spec_col_templ_count(v: JsonVal) -> int {
    match spec_parse_collection(v) {
        Some(c) => c.templates.len() as int,
        None => 0,
    }
}

/// Why reading an index document failed.
#[derive(Debug, Clone, Copy, PartialEq, Eq, Structural)]
pub enum IndexError {
    /// The bytes are not a JSON document.
    InvalidJson,
    /// The document has no `collections` array.
    InvalidFormat,
}

/// A loaded index with its load diagnostics: how much was kept, and how
/// much was skipped at each of the two tolerant levels.
#[derive(Debug)]
pub struct IndexLoad {
    pub index: DevcontainerIndex,
    pub features_count: usize,
    pub templates_count: usize,
    pub skipped_collections: usize,
    pub skipped_features: usize,
    pub skipped_templates: usize,
}

fn sat_add_usize(a: usize, b: usize) -> (r: usize)
    ensures
        a + b <= usize::MAX ==> r == a + b,
        a + b > usize::MAX ==> r == usize::MAX,
{
    if a > usize::MAX - b {
        usize::MAX
    } else {
        a + b
    }
}

/// Parses a persisted index document. The top level must be an object with a
/// `collections` array — anything else is fatal. Each collection element is
/// then decoded on its own, and inside a kept collection each feature and
/// template element is decoded on its own: a malformed element is skipped
/// alone, siblings and the rest of the catalog are retained. The counts say
/// how much was kept and skipped (saturating when a total cannot be held).
#[verifier::loop_isolation(false)]
#[verifier::rlimit(40)]
pub fn parse_devcontainer_index(bytes: &[u8]) -> (r: Result<IndexLoad, IndexError>)
    ensures
        match json_doc_of(bytes@) {
            None => r matches Err(IndexError::InvalidJson),
            Some(doc) => match spec_index_arr(doc) {
                None => r matches Err(IndexError::InvalidFormat),
                Some(arr) => r matches Ok(load) && {
                    &&& load.index@ == spec_collections_of(arr)
                    &&& load.skipped_collections == arr.len() - spec_collections_of(arr).len()
                    &&& {
                        let ftotal = spec_sum(arr.map_values(|e: JsonVal| spec_col_feat_count(e)));
                        ftotal <= usize::MAX ==> load.features_count == ftotal
                    }
                    &&& {
                        let ttotal = spec_sum(
                            arr.map_values(|e: JsonVal| spec_col_templ_count(e)),
                        );
                        ttotal <= usize::MAX ==> load.templates_count == ttotal
                    }
                    &&& {
                        let fskips = spec_sum(arr.map_values(|e: JsonVal| spec_feat_skips(e)));
                        fskips <= usize::MAX ==> load.skipped_features == fskips
                    }
                    &&& {
                        let tskips = spec_sum(arr.map_values(|e: JsonVal| spec_templ_skips(e)));
                        tskips <= usize::MAX ==> load.skipped_templates == tskips
                    }
                },
            },
        },
{
    let doc = match crate::json::parse_json_bytes(bytes) {
        Some(doc) => doc,
        None => {
            return Err(IndexError::InvalidJson);
        },
    };
    let f = match &doc {
        JsonValue::Obj(f) => f,
        _ => {
            return Err(IndexError::InvalidFormat);
        },
    };
    let items = match obj_get(f, "collections") {
        Some(JsonValue::Arr(items)) => items,
        _ => {
            return Err(IndexError::InvalidFormat);
        },
    };
    proof {
        crate::json::lemma_arr_view_elems(items@);
    }
    let ghost arr = crate::json::arr_view(items@);
    let ghost fcounts = arr.map_values(|e: JsonVal| spec_col_feat_count(e));
    let ghost tcounts = arr.map_values(|e: JsonVal| spec_col_templ_count(e));
    let ghost fskips = arr.map_values(|e: JsonVal| spec_feat_skips(e));
    let ghost tskips = arr.map_values(|e: JsonVal| spec_templ_skips(e));
    proof {
        assert(forall|i: int| 0 <= i < fcounts.len() ==> #[trigger] fcounts[i] >= 0);
        assert(forall|i: int| 0 <= i < tcounts.len() ==> #[trigger] tcounts[i] >= 0) by {
            assert forall|i: int| 0 <= i < tcounts.len() implies #[trigger] tcounts[i] >= 0 by {
                assert(tcounts[i] == spec_col_templ_count(arr[i]));
            }
        }
        assert(forall|i: int| 0 <= i < fskips.len() ==> #[trigger] fskips[i] >= 0) by {
            assert forall|i: int| 0 <= i < fskips.len() implies #[trigger] fskips[i] >= 0 by {
                assert(fskips[i] == spec_feat_skips(arr[i]));
                if spec_parse_collection(arr[i]) is Some {
                    match arr[i] {
                        JsonVal::Obj(cf) => {
                            match spec_obj_get(cf, "features"@) {
                                Some(JsonVal::Arr(fi)) => {
                                    lemma_features_of_len(fi);
                                },
                                _ => {},
                            }
                        },
                        _ => {},
                    }
                }
            }
        }
        assert(forall|i: int| 0 <= i < tskips.len() ==> #[trigger] tskips[i] >= 0) by {
            assert forall|i: int| 0 <= i < tskips.len() implies #[trigger] tskips[i] >= 0 by {
                assert(tskips[i] == spec_templ_skips(arr[i]));
                if spec_parse_collection(arr[i]) is Some {
                    match arr[i] {
                        JsonVal::Obj(cf) => {
                            match spec_obj_get(cf, "templates"@) {
                                Some(JsonVal::Arr(ti)) => {
                                    lemma_templates_of_len(ti);
                                },
                                _ => {},
                            }
                        },
                        _ => {},
                    }
                }
            }
        }
        lemma_sum_bounds(fcounts);
        lemma_sum_bounds(tcounts);
        lemma_sum_bounds(fskips);
        lemma_sum_bounds(tskips);
    }
    let mut collections: Vec<Collection> = Vec::new();
    let mut features_count: usize = 0;
    let mut templates_count: usize = 0;
    let mut skipped_features: usize = 0;
    let mut skipped_templates: usize = 0;
    assert(arr.skip(0) =~= arr);
    assert(fcounts.take(0) =~= Seq::<int>::empty());
    assert(tcounts.take(0) =~= Seq::<int>::empty());
    assert(fskips.take(0) =~= Seq::<int>::empty());
    assert(tskips.take(0) =~= Seq::<int>::empty());
    let mut i: usize = 0;
    while i < items.len()
        invariant
            i <= arr.len(),
            collections@.len() <= i,
            spec_collections_of(arr) == cols_view(collections@) + spec_collections_of(
                arr.skip(i as int),
            ),
            spec_sum(fcounts.take(i as int)) <= usize::MAX ==> features_count == spec_sum(
                fcounts.take(i as int),
            ),
            spec_sum(fcounts.take(i as int)) > usize::MAX ==> features_count == usize::MAX,
            spec_sum(tcounts.take(i as int)) <= usize::MAX ==> templates_count == spec_sum(
                tcounts.take(i as int),
            ),
            spec_sum(tcounts.take(i as int)) > usize::MAX ==> templates_count == usize::MAX,
            spec_sum(fskips.take(i as int)) <= usize::MAX ==> skipped_features == spec_sum(
                fskips.take(i as int),
            ),
            spec_sum(fskips.take(i as int)) > usize::MAX ==> skipped_features == usize::MAX,
            spec_sum(tskips.take(i as int)) <= usize::MAX ==> skipped_templates == spec_sum(
                tskips.take(i as int),
            ),
            spec_sum(tskips.take(i as int)) > usize::MAX ==> skipped_templates == usize::MAX,
            spec_sum(fcounts.take(i as int)) >= 0,
            spec_sum(tcounts.take(i as int)) >= 0,
            spec_sum(fskips.take(i as int)) >= 0,
            spec_sum(tskips.take(i as int)) >= 0,
        decreases arr.len() - i,
    {
        assert(arr.skip(i as int).drop_first() =~= arr.skip(i + 1));
        assert(arr.skip(i as int)[0] == arr[i as int]);
        proof {
            assert(fcounts.take(i + 1).drop_last() =~= fcounts.take(i as int));
            assert(tcounts.take(i + 1).drop_last() =~= tcounts.take(i as int));
            assert(fskips.take(i + 1).drop_last() =~= fskips.take(i as int));
            assert(tskips.take(i + 1).drop_last() =~= tskips.take(i as int));
        }
        match parse_collection(&items[i]) {
            Some((c, fsk, tsk)) => {
                let ghost c0 = cols_view(collections@);
                let ghost cv = c@;
                features_count = sat_add_usize(features_count, c.features.len());
                templates_count = sat_add_usize(templates_count, c.templates.len());
                skipped_features = sat_add_usize(skipped_features, fsk);
                skipped_templates = sat_add_usize(skipped_templates, tsk);
                collections.push(c);
                proof {
                    assert(cols_view(collections@) =~= c0.push(cv));
                    assert(c0 + (seq![cv] + spec_collections_of(arr.skip(i + 1))) =~= cols_view(
                        collections@,
                    ) + spec_collections_of(arr.skip(i + 1)));
                }
            },
            None => {},
        }
        i = i + 1;
    }
    proof {
        assert(arr.skip(arr.len() as int) =~= Seq::<JsonVal>::empty());
        assert(cols_view(collections@) + spec_collections_of(arr.skip(arr.len() as int))
            =~= cols_view(collections@));
        assert(fcounts.take(arr.len() as int) =~= fcounts);
        assert(tcounts.take(arr.len() as int) =~= tcounts);
        assert(fskips.take(arr.len() as int) =~= fskips);
        assert(tskips.take(arr.len() as int) =~= tskips);
    }
    let skipped_collections = items.len() - collections.len();
    let index = DevcontainerIndex { collections };
    Ok(
        IndexLoad {
            index,
            features_count,
            templates_count,
            skipped_collections,
            skipped_features,
            skipped_templates,
        },
    )
}

/// Tolerant decode, feature level: a malformed feature element is skipped
/// alone — removing it from its array changes nothing about what the
/// siblings yield.
pub proof fn lemma_features_skip_malformed(items: Seq<JsonVal>, j: int)
    requires
        0 <= j < items.len(),
        spec_parse_feature(items[j]) is None,
    ensures
        spec_features_of(items) == spec_features_of(items.remove(j)),
    decreases j,
{
    if j == 0 {
        assert(items.remove(0) =~= items.drop_first());
    } else {
        lemma_features_skip_malformed(items.drop_first(), j - 1);
        assert(items.remove(j).drop_first() =~= items.drop_first().remove(j - 1));
    }
}

/// Tolerant decode, feature level: an array of well-formed feature elements
/// is kept whole, each element in place.
pub proof fn lemma_features_all_kept(items: Seq<JsonVal>)
    requires
        forall|i: int| 0 <= i < items.len() ==> (#[trigger] spec_parse_feature(items[i])) is Some,
    ensures
        spec_features_of(items).len() == items.len(),
        forall|i: int|
            0 <= i < items.len() ==> spec_features_of(items)[i] == spec_parse_feature(
                items[i],
            ).unwrap(),
    decreases items.len(),
{
    if items.len() > 0 {
        assert(forall|i: int|
            0 <= i < items.drop_first().len() ==> (#[trigger] spec_parse_feature(
                items.drop_first()[i],
            )) is Some) by {
            assert(forall|i: int|
                0 <= i < items.drop_first().len() ==> items.drop_first()[i] == items[i + 1]);
        }
        lemma_features_all_kept(items.drop_first());
        assert forall|i: int|
            0 <= i < items.len() implies spec_features_of(items)[i] == spec_parse_feature(
            items[i],
        ).unwrap() by {
            if i > 0 {
                assert(spec_features_of(items)[i] == spec_features_of(items.drop_first())[i - 1]);
                assert(items.drop_first()[i - 1] == items[i]);
            }
        }
    }
}

/// Tolerant decode, template level: a malformed template element is skipped
/// alone.
pub proof fn lemma_templates_skip_malformed(items: Seq<JsonVal>, j: int)
    requires
        0 <= j < items.len(),
        spec_parse_template(items[j]) is None,
    ensures
        spec_templates_of(items) == spec_templates_of(items.remove(j)),
    decreases j,
{
    if j == 0 {
        assert(items.remove(0) =~= items.drop_first());
    } else {
        lemma_templates_skip_malformed(items.drop_first(), j - 1);
        assert(items.remove(j).drop_first() =~= items.drop_first().remove(j - 1));
    }
}

/// Tolerant decode, template level: well-formed template elements are all
/// kept, each in place.
pub proof fn lemma_templates_all_kept(items: Seq<JsonVal>)
    requires
        forall|i: int| 0 <= i < items.len() ==> (#[trigger] spec_parse_template(items[i])) is Some,
    ensures
        spec_templates_of(items).len() == items.len(),
        forall|i: int|
            0 <= i < items.len() ==> spec_templates_of(items)[i] == spec_parse_template(
                items[i],
            ).unwrap(),
    decreases items.len(),
{
    if items.len() > 0 {
        assert(forall|i: int|
            0 <= i < items.drop_first().len() ==> (#[trigger] spec_parse_template(
                items.drop_first()[i],
            )) is Some) by {
            assert(forall|i: int|
                0 <= i < items.drop_first().len() ==> items.drop_first()[i] == items[i + 1]);
        }
        lemma_templates_all_kept(items.drop_first());
        assert forall|i: int|
            0 <= i < items.len() implies spec_templates_of(items)[i] == spec_parse_template(
            items[i],
        ).unwrap() by {
            if i > 0 {
                assert(spec_templates_of(items)[i] == spec_templates_of(items.drop_first())[i
                    - 1]);
                assert(items.drop_first()[i - 1] == items[i]);
            }
        }
    }
}

/// Tolerant decode, collection level: a collection element whose source
/// block or entry arrays are malformed is skipped alone.
pub proof fn lemma_collections_skip_malformed(arr: Seq<JsonVal>, j: int)
    requires
        0 <= j < arr.len(),
        spec_parse_collection(arr[j]) is None,
    ensures
        spec_collections_of(arr) == spec_collections_of(arr.remove(j)),
    decreases j,
{
    if j == 0 {
        assert(arr.remove(0) =~= arr.drop_first());
    } else {
        lemma_collections_skip_malformed(arr.drop_first(), j - 1);
        assert(arr.remove(j).drop_first() =~= arr.drop_first().remove(j - 1));
    }
}

/// Parsing an index whose collection elements are all well formed yields
/// exactly those collections, in place: with the per-element tolerance
/// above, an index with some malformed feature or template elements
/// scattered through otherwise well-formed collections yields every
/// collection, each missing only its own malformed entries.
pub proof fn lemma_collections_all_kept(arr: Seq<JsonVal>)
    requires
        forall|i: int| 0 <= i < arr.len() ==> (#[trigger] spec_parse_collection(arr[i])) is Some,
    ensures
        spec_collections_of(arr).len() == arr.len(),
        forall|i: int|
            0 <= i < arr.len() ==> spec_collections_of(arr)[i] == spec_parse_collection(
                arr[i],
            ).unwrap(),
    decreases arr.len(),
{
    if arr.len() > 0 {
        assert(forall|i: int|
            0 <= i < arr.drop_first().len() ==> (#[trigger] spec_parse_collection(
                arr.drop_first()[i],
            )) is Some) by {
            assert(forall|i: int|
                0 <= i < arr.drop_first().len() ==> arr.drop_first()[i] == arr[i + 1]);
        }
        lemma_collections_all_kept(arr.drop_first());
        assert forall|i: int|
            0 <= i < arr.len() implies spec_collections_of(arr)[i] == spec_parse_collection(
            arr[i],
        ).unwrap() by {
            if i > 0 {
                assert(spec_collections_of(arr)[i] == spec_collections_of(arr.drop_first())[i
                    - 1]);
                assert(arr.drop_first()[i - 1] == arr[i]);
            }
        }
    }
}

/// A feature is kept by the display filter unless it is marked deprecated.
pub open spec fn spec_filter_features(fs: Seq<FeatureV>, include_deprecated: bool) -> Seq<FeatureV>
    decreases fs.len(),
{
    if fs.len() == 0 {
        Seq::empty()
    } else {
        (if include_deprecated || fs[0].deprecated != Some(true) {
            seq![fs[0]]
        } else {
            Seq::empty()
        }) + spec_filter_features(fs.drop_first(), include_deprecated)
    }
}

/// All collections' features, flattened, each filtered by its own
/// `deprecated` flag.
pub open spec fn spec_iter_features(cols: Seq<CollectionV>, include_deprecated: bool) -> Seq<
    FeatureV,
>
    decreases cols.len(),
{
    if cols.len() == 0 {
        Seq::empty()
    } else {
        spec_filter_features(cols[0].features, include_deprecated) + spec_iter_features(
            cols.drop_first(),
            include_deprecated,
        )
    }
}

/// The deprecation heuristic for a whole collection: its maintainer field,
/// lowercased, contains the word `deprecated`. Template filtering works at
/// this granularity, unlike feature filtering — the asymmetry is the
/// catalog's own.
pub open spec fn spec_col_deprecated(c: CollectionV) -> bool {
    crate::textmatch::spec_contains_sub(
        crate::textmatch::lower_of(c.source_information.maintainer),
        "deprecated"@,
    )
}

/// All collections' templates, flattened; a collection judged deprecated is
/// left out wholesale unless deprecated entries were asked for.
pub open spec fn spec_iter_templates(cols: Seq<CollectionV>, include_deprecated: bool) -> Seq<
    TemplateV,
>
    decreases cols.len(),
{
    if cols.len() == 0 {
        Seq::empty()
    } else {
        (if include_deprecated || !spec_col_deprecated(cols[0]) {
            cols[0].templates
        } else {
            Seq::empty()
        }) + spec_iter_templates(cols.drop_first(), include_deprecated)
    }
}

/// First feature with the given id.
pub open spec fn spec_find_feature(fs: Seq<FeatureV>, id: Seq<char>) -> Option<FeatureV>
    decreases fs.len(),
{
    if fs.len() == 0 {
        None
    } else if fs[0].id == id {
        Some(fs[0])
    } else {
        spec_find_feature(fs.drop_first(), id)
    }
}

/// First template with the given id.
pub open spec fn spec_find_template(ts: Seq<TemplateV>, id: Seq<char>) -> Option<TemplateV>
    decreases ts.len(),
{
    if ts.len() == 0 {
        None
    } else if ts[0].id == id {
        Some(ts[0])
    } else {
        spec_find_template(ts.drop_first(), id)
    }
}

/// First collection whose source is the given registry reference.
pub open spec fn spec_find_collection(cols: Seq<CollectionV>, oci_reference: Seq<char>) -> Option<
    CollectionV,
>
    decreases cols.len(),
{
    if cols.len() == 0 {
        None
    } else if cols[0].source_information.oci_reference == oci_reference {
        Some(cols[0])
    } else {
        spec_find_collection(cols.drop_first(), oci_reference)
    }
}

/// The views of a list of borrowed features.
pub open spec fn ref_feats_view(s: Seq<&Feature>) -> Seq<FeatureV> {
    Seq::new(s.len(), |i: int| s[i]@)
}

/// The views of a list of borrowed templates.
pub open spec fn ref_templs_view(s: Seq<&Template>) -> Seq<TemplateV> {
    Seq::new(s.len(), |i: int| s[i]@)
}

impl DevcontainerIndex {
    /// The whole catalog, in index order.
    pub fn collections(&self) -> (r: &Vec<Collection>)
        ensures
            cols_view(r@) == self@,
    {
        &self.collections
    }

    /// First collection published under the given registry reference.
    #[verifier::loop_isolation(false)]
    pub fn get_collection<'a>(&'a self, oci_reference: &str) -> (r: Option<&'a Collection>)
        ensures
            match r {
                Some(c) => spec_find_collection(self@, oci_reference@) == Some(c@),
                None => spec_find_collection(self@, oci_reference@) is None,
            },
    {
        let ghost cols = self@;
        assert(cols.skip(0) =~= cols);
        let mut i: usize = 0;
        while i < self.collections.len()
            invariant
                i <= cols.len(),
                cols == self@,
                cols.len() == self.collections@.len(),
                spec_find_collection(cols, oci_reference@) == spec_find_collection(
                    cols.skip(i as int),
                    oci_reference@,
                ),
            decreases cols.len() - i,
        {
            assert(cols.skip(i as int).drop_first() =~= cols.skip(i + 1));
            assert(cols.skip(i as int)[0] == cols[i as int]);
            if str_eq(
                self.collections[i].source_information.oci_reference.as_str(),
                oci_reference,
            ) {
                return Some(&self.collections[i]);
            }
            i = i + 1;
        }
        None
    }

    /// All features of the catalog, in order; without `include_deprecated`,
    /// features marked deprecated are left out.
    #[verifier::loop_isolation(false)]
    pub fn iter_features<'a>(&'a self, include_deprecated: bool) -> (r: Vec<&'a Feature>)
        ensures
            ref_feats_view(r@) == spec_iter_features(self@, include_deprecated),
    {
        let ghost cols = self@;
        let mut out: Vec<&'a Feature> = Vec::new();
        proof {
            assert(cols.skip(0) =~= cols);
            assert(ref_feats_view(out@) + spec_iter_features(cols, include_deprecated)
                =~= spec_iter_features(cols, include_deprecated));
        }
        let mut i: usize = 0;
        while i < self.collections.len()
            invariant
                i <= cols.len(),
                cols == self@,
                cols.len() == self.collections@.len(),
                spec_iter_features(cols, include_deprecated) == ref_feats_view(out@)
                    + spec_iter_features(cols.skip(i as int), include_deprecated),
            decreases cols.len() - i,
        {
            assert(cols.skip(i as int).drop_first() =~= cols.skip(i + 1));
            assert(cols.skip(i as int)[0] == cols[i as int]);
            let feats = &self.collections[i].features;
            let ghost fs = cols[i as int].features;
            proof {
                assert(fs.skip(0) =~= fs);
            }
            let mut j: usize = 0;
            while j < feats.len()
                invariant
                    j <= fs.len(),
                    fs == cols[i as int].features,
                    fs.len() == feats@.len(),
                    forall|t: int| 0 <= t < fs.len() ==> fs[t] == #[trigger] feats@[t]@,
                    spec_iter_features(cols, include_deprecated) == ref_feats_view(out@)
                        + spec_filter_features(fs.skip(j as int), include_deprecated)
                        + spec_iter_features(cols.skip(i + 1), include_deprecated),
                decreases fs.len() - j,
            {
                assert(fs.skip(j as int).drop_first() =~= fs.skip(j + 1));
                assert(fs.skip(j as int)[0] == fs[j as int]);
                let keep = if include_deprecated {
                    true
                } else {
                    match feats[j].deprecated {
                        Some(true) => false,
                        _ => true,
                    }
                };
                let ghost o0 = ref_feats_view(out@);
                if keep {
                    out.push(&feats[j]);
                    proof {
                        assert(ref_feats_view(out@) =~= o0.push(fs[j as int]));
                    }
                }
                proof {
                    assert(ref_feats_view(out@) + spec_filter_features(
                        fs.skip(j + 1),
                        include_deprecated,
                    ) =~= o0 + spec_filter_features(fs.skip(j as int), include_deprecated));
                }
                j = j + 1;
            }
            proof {
                assert(fs.skip(fs.len() as int) =~= Seq::<FeatureV>::empty());
                assert(ref_feats_view(out@) + Seq::<FeatureV>::empty() + spec_iter_features(
                    cols.skip(i + 1),
                    include_deprecated,
                ) =~= ref_feats_view(out@) + spec_iter_features(cols.skip(i + 1),
                include_deprecated));
            }
            i = i + 1;
        }
        proof {
            assert(cols.skip(cols.len() as int) =~= Seq::<CollectionV>::empty());
            assert(ref_feats_view(out@) + spec_iter_features(
                cols.skip(cols.len() as int),
                include_deprecated,
            ) =~= ref_feats_view(out@));
        }
        out
    }

    /// First feature with the given id, deprecated ones included.
    #[verifier::loop_isolation(false)]
    pub fn get_feature<'a>(&'a self, feature_id: &str) -> (r: Option<&'a Feature>)
        ensures
            match r {
                Some(x) => spec_find_feature(spec_iter_features(self@, true), feature_id@) == Some(
                    x@,
                ),
                None => spec_find_feature(spec_iter_features(self@, true), feature_id@) is None,
            },
    {
        let all = self.iter_features(true);
        let ghost fs = spec_iter_features(self@, true);
        assert(fs.skip(0) =~= fs);
        let mut i: usize = 0;
        while i < all.len()
            invariant
                i <= fs.len(),
                fs == spec_iter_features(self@, true),
                fs.len() == all@.len(),
                forall|t: int| 0 <= t < fs.len() ==> fs[t] == #[trigger] all@[t]@,
                spec_find_feature(fs, feature_id@) == spec_find_feature(
                    fs.skip(i as int),
                    feature_id@,
                ),
            decreases fs.len() - i,
        {
            assert(fs.skip(i as int).drop_first() =~= fs.skip(i + 1));
            assert(fs.skip(i as int)[0] == fs[i as int]);
            if str_eq(all[i].id.as_str(), feature_id) {
                return Some(all[i]);
            }
            i = i + 1;
        }
        None
    }

    /// All templates of the catalog, in order; without `include_deprecated`,
    /// every template of a collection judged deprecated is left out.
    #[verifier::loop_isolation(false)]
    pub fn iter_templates<'a>(&'a self, include_deprecated: bool) -> (r: Vec<&'a Template>)
        ensures
            ref_templs_view(r@) == spec_iter_templates(self@, include_deprecated),
    {
        let ghost cols = self@;
        let mut out: Vec<&'a Template> = Vec::new();
        proof {
            assert(cols.skip(0) =~= cols);
            assert(ref_templs_view(out@) + spec_iter_templates(cols, include_deprecated)
                =~= spec_iter_templates(cols, include_deprecated));
        }
        let mut i: usize = 0;
        while i < self.collections.len()
            invariant
                i <= cols.len(),
                cols == self@,
                cols.len() == self.collections@.len(),
                spec_iter_templates(cols, include_deprecated) == ref_templs_view(out@)
                    + spec_iter_templates(cols.skip(i as int), include_deprecated),
            decreases cols.len() - i,
        {
            assert(cols.skip(i as int).drop_first() =~= cols.skip(i + 1));
            assert(cols.skip(i as int)[0] == cols[i as int]);
            let keep = if include_deprecated {
                true
            } else {
                let lower = crate::textmatch::lowercase(
                    self.collections[i].source_information.maintainer.as_str(),
                );
                !crate::textmatch::contains_sub(lower.as_str(), "deprecated")
            };
            if keep {
                let templs = &self.collections[i].templates;
                let ghost ts = cols[i as int].templates;
                proof {
                    assert(ts.skip(0) =~= ts);
                }
                let mut j: usize = 0;
                while j < templs.len()
                    invariant
                        j <= ts.len(),
                        ts == cols[i as int].templates,
                        ts.len() == templs@.len(),
                        forall|t: int| 0 <= t < ts.len() ==> ts[t] == #[trigger] templs@[t]@,
                        spec_iter_templates(cols, include_deprecated) == ref_templs_view(out@)
                            + ts.skip(j as int) + spec_iter_templates(
                            cols.skip(i + 1),
                            include_deprecated,
                        ),
                    decreases ts.len() - j,
                {
                    assert(ts.skip(j as int) =~= seq![ts[j as int]] + ts.skip(j + 1));
                    let ghost o0 = ref_templs_view(out@);
                    out.push(&templs[j]);
                    proof {
                        assert(ref_templs_view(out@) =~= o0.push(ts[j as int]));
                        assert(ref_templs_view(out@) + ts.skip(j + 1) =~= o0 + ts.skip(j as int));
                    }
                    j = j + 1;
                }
                proof {
                    assert(ts.skip(ts.len() as int) =~= Seq::<TemplateV>::empty());
                    assert(ref_templs_view(out@) + Seq::<TemplateV>::empty() + spec_iter_templates(
                        cols.skip(i + 1),
                        include_deprecated,
                    ) =~= ref_templs_view(out@) + spec_iter_templates(cols.skip(i + 1),
                    include_deprecated));
                }
            } else {
                proof {
                    assert(ref_templs_view(out@) + Seq::<TemplateV>::empty() + spec_iter_templates(
                        cols.skip(i + 1),
                        include_deprecated,
                    ) =~= ref_templs_view(out@) + spec_iter_templates(cols.skip(i + 1),
                    include_deprecated));
                }
            }
            i = i + 1;
        }
        proof {
            assert(cols.skip(cols.len() as int) =~= Seq::<CollectionV>::empty());
            assert(ref_templs_view(out@) + spec_iter_templates(
                cols.skip(cols.len() as int),
                include_deprecated,
            ) =~= ref_templs_view(out@));
        }
        out
    }

    /// First template with the given id, deprecated collections included.
    #[verifier::loop_isolation(false)]
    pub fn get_template<'a>(&'a self, template_id: &str) -> (r: Option<&'a Template>)
        ensures
            match r {
                Some(x) => spec_find_template(spec_iter_templates(self@, true), template_id@)
                    == Some(x@),
                None => spec_find_template(spec_iter_templates(self@, true), template_id@) is None,
            },
    {
        let all = self.iter_templates(true);
        let ghost ts = spec_iter_templates(self@, true);
        assert(ts.skip(0) =~= ts);
        let mut i: usize = 0;
        while i < all.len()
            invariant
                i <= ts.len(),
                ts == spec_iter_templates(self@, true),
                ts.len() == all@.len(),
                forall|t: int| 0 <= t < ts.len() ==> ts[t] == #[trigger] all@[t]@,
                spec_find_template(ts, template_id@) == spec_find_template(
                    ts.skip(i as int),
                    template_id@,
                ),
            decreases ts.len() - i,
        {
            assert(ts.skip(i as int).drop_first() =~= ts.skip(i + 1));
            assert(ts.skip(i as int)[0] == ts[i as int]);
            if str_eq(all[i].id.as_str(), template_id) {
                return Some(all[i]);
            }
            i = i + 1;
        }
        None
    }
}

} // verus!
