//! Scaffolding a new configuration: accumulating resolved option values,
//! accumulating feature entries, and the materialization pipeline that turns
//! a template archive plus those accumulators into planned workspace files.

use vstd::prelude::*;
use vstd::string::StrSliceExecFns;
use vstd::utf8::encode_utf8;

use crate::json::{
    clone_json, fields_view, json_doc_of, jsonc_doc_of, obj_set, spec_obj_set, str_eq,
    to_json_bytes_with_tabs, JsonVal, JsonValue,
};
use crate::registry::{
    bool_string, spec_bool_string, spec_configured_default, spec_parse_feature,
    spec_parse_template, strings_view, DevOption, DevOptionV, Feature, FeatureV, Template,
    TemplateType, TemplateV,
};
use crate::subst::{spec_substitute, substitute, TemplateContext};
use crate::tarball::{
    read_tar_entries, spec_padded, spec_tar_header, spec_zeros, tar_entries_of, TarEntry,
};
use crate::textmatch::matches_at;

verus! {

/// What can end a materialization: a manifest missing from an archive, a
/// corrupt archive, a configuration document that cannot be read, or an
/// operation that needs a configuration no one supplied.
#[derive(Debug, Clone, Copy, PartialEq, Eq, Structural)]
pub enum InitError {
    NotFound,
    MalformedArchive,
    InvalidData,
    MissingConfig,
}

/// A value an option resolved to: what a prompt or a default produced.
#[derive(Debug, Clone)]
pub enum DevOptionPromptValue {
    String(String),
    Boolean(bool),
}

#[verifier::ext_equal]
pub ghost enum PromptValueV {
    Str(Seq<char>),
    Bool(bool),
}

impl View for DevOptionPromptValue {
    type V = PromptValueV;

    open spec fn view(&self) -> PromptValueV {
        match self {
            DevOptionPromptValue::String(s) => PromptValueV::Str(s@),
            DevOptionPromptValue::Boolean(b) => PromptValueV::Bool(*b),
        }
    }
}

/// How a resolved value prints: booleans as `true`/`false`, strings as
/// themselves.
pub open spec fn spec_render_prompt_value(v: PromptValueV) -> Seq<char> {
    match v {
        PromptValueV::Str(s) => s,
        PromptValueV::Bool(b) => spec_bool_string(b),
    }
}

/// The JSON value a resolved option is persisted as.
pub open spec fn spec_prompt_value_json(v: PromptValueV) -> JsonVal {
    match v {
        PromptValueV::Str(s) => JsonVal::Str(s),
        PromptValueV::Bool(b) => JsonVal::Bool(b),
    }
}

impl DevOptionPromptValue {
    /// The value as the string it prints as.
    pub fn render(&self) -> (r: String)
        ensures
            r@ == spec_render_prompt_value(self@),
    {
        match self {
            DevOptionPromptValue::String(s) => s.clone(),
            DevOptionPromptValue::Boolean(b) => bool_string(*b),
        }
    }

    /// The value as JSON.
    pub fn to_json(&self) -> (r: JsonValue)
        ensures
            r@ == spec_prompt_value_json(self@),
    {
        match self {
            DevOptionPromptValue::String(s) => JsonValue::Str(s.clone()),
            DevOptionPromptValue::Boolean(b) => JsonValue::Bool(*b),
        }
    }
}

/// The merge key of a feature: `id:majorVersion`.
pub open spec fn spec_feature_key(f: FeatureV) -> Seq<char> {
    f.id + ":"@ + f.major_version
}

/// The view of a list of resolved values, keyed by option name.
pub open spec fn resolved_view(s: Seq<(String, DevOptionPromptValue)>) -> Seq<
    (Seq<char>, PromptValueV),
> {
    Seq::new(s.len(), |i: int| (s[i].0@, s[i].1@))
}

/// First resolved value with the given name.
pub open spec fn spec_resolved_lookup(s: Seq<(Seq<char>, PromptValueV)>, name: Seq<char>) -> Option<
    PromptValueV,
>
    decreases s.len(),
{
    if s.len() == 0 {
        None
    } else if s[0].0 == name {
        Some(s[0].1)
    } else {
        spec_resolved_lookup(s.drop_first(), name)
    }
}

/// The object persisted for one feature: for each declared option, in
/// declaration order, its resolved value — unless that value prints the same
/// as the option's configured default, in which case it is left out, keeping
/// the generated configuration minimal. An option nobody resolved is treated
/// as left at its default.
pub open spec fn spec_entry_values(
    opts: Seq<(Seq<char>, DevOptionV)>,
    resolved: Seq<(Seq<char>, PromptValueV)>,
) -> Seq<(Seq<char>, JsonVal)>
    decreases opts.len(),
{
    if opts.len() == 0 {
        Seq::empty()
    } else {
        (match spec_resolved_lookup(resolved, opts[0].0) {
            Some(v) => if spec_render_prompt_value(v) == spec_configured_default(opts[0].1) {
                Seq::empty()
            } else {
                seq![(opts[0].0, spec_prompt_value_json(v))]
            },
            None => Seq::empty(),
        }) + spec_entry_values(opts.drop_first(), resolved)
    }
}

/// Accumulates, per feature, the object of its non-default option values,
/// keyed `id:majorVersion`; merged into the configuration file at most once.
#[derive(Debug)]
pub struct FeatureEntryBuilder {
    features: Vec<(String, JsonValue)>,
}

impl View for FeatureEntryBuilder {
    type V = Seq<(Seq<char>, JsonVal)>;

    closed spec fn view(&self) -> Seq<(Seq<char>, JsonVal)> {
        fields_view(self.features@)
    }
}

impl FeatureEntryBuilder {
    pub fn new() -> (r: FeatureEntryBuilder)
        ensures
            r@ == Seq::<(Seq<char>, JsonVal)>::empty(),
    {
        let r = FeatureEntryBuilder { features: Vec::new() };
        proof {
            crate::json::lemma_fields_view_elems(r.features@);
            assert(r@ =~= Seq::<(Seq<char>, JsonVal)>::empty());
        }
        r
    }

    /// The accumulated entries, in insertion order.
    pub fn entries(&self) -> (r: &Vec<(String, JsonValue)>)
        ensures
            fields_view(r@) == self@,
    {
        &self.features
    }

    /// Stores an entry as given, replacing an entry of the same key.
    pub fn insert_entry(&mut self, key: String, value: JsonValue)
        ensures
            final(self)@ == spec_obj_set(old(self)@, key@, value@),
    {
        obj_set(&mut self.features, key, value);
    }

    /// Records a feature taken with all its defaults: an empty object under
    /// its key.
    pub fn use_default_values(&mut self, feature: &Feature)
        ensures
            final(self)@ == spec_obj_set(
                old(self)@,
                spec_feature_key(feature@),
                JsonVal::Obj(Seq::empty()),
            ),
    {
        let key = feature.id.clone().concat(":").concat(feature.major_version.as_str());
        let value = JsonValue::Obj(Vec::new());
        proof {
            crate::json::lemma_fields_view_elems(Seq::<(String, JsonValue)>::empty());
            assert(value@ =~= JsonVal::Obj(Seq::empty()));
        }
        self.insert_entry(key, value);
    }

    /// Records a feature with the given resolved values: only values that
    /// differ from the option's configured default are persisted.
    #[verifier::loop_isolation(false)]
    pub fn use_resolved_values(
        &mut self,
        feature: &Feature,
        resolved: &Vec<(String, DevOptionPromptValue)>,
    )
        ensures
            final(self)@ == spec_obj_set(
                old(self)@,
                spec_feature_key(feature@),
                JsonVal::Obj(
                    match feature@.options {
                        Some(opts) => spec_entry_values(opts, resolved_view(resolved@)),
                        None => Seq::empty(),
                    },
                ),
            ),
    {
        let key = feature.id.clone().concat(":").concat(feature.major_version.as_str());
        let mut inner: Vec<(String, JsonValue)> = Vec::new();
        proof {
            crate::json::lemma_fields_view_elems(inner@);
        }
        match &feature.options {
            Some(opts) => {
                let ghost ov = crate::registry::options_view(opts@);
                let ghost rv = resolved_view(resolved@);
                proof {
                    assert(ov.skip(0) =~= ov);
                    assert(fields_view(inner@) + spec_entry_values(ov, rv) =~= spec_entry_values(
                        ov,
                        rv,
                    ));
                }
                let mut i: usize = 0;
                while i < opts.len()
                    invariant
                        i <= ov.len(),
                        ov.len() == opts@.len(),
                        forall|t: int|
                            0 <= t < ov.len() ==> ov[t] == (#[trigger] opts@[t].0@, opts@[t].1@),
                        spec_entry_values(ov, rv) == fields_view(inner@) + spec_entry_values(
                            ov.skip(i as int),
                            rv,
                        ),
                    decreases ov.len() - i,
                {
                    assert(ov.skip(i as int).drop_first() =~= ov.skip(i + 1));
                    assert(ov.skip(i as int)[0] == ov[i as int]);
                    match lookup_resolved(resolved, opts[i].0.as_str()) {
                        Some(v) => {
                            let rendered = v.render();
                            let dflt = opts[i].1.configured_default();
                            if !str_eq(rendered.as_str(), dflt.as_str()) {
                                let ghost f0 = fields_view(inner@);
                                proof {
                                    crate::json::lemma_fields_view_elems(inner@);
                                }
                                let k = opts[i].0.clone();
                                let jv = v.to_json();
                                let ghost jvv = jv@;
                                inner.push((k, jv));
                                proof {
                                    crate::json::lemma_fields_view_elems(inner@);
                                    assert(fields_view(inner@) =~= f0.push(
                                        (opts@[i as int].0@, jvv),
                                    ));
                                    assert(f0 + (seq![(opts@[i as int].0@, jvv)]
                                        + spec_entry_values(ov.skip(i + 1), rv)) =~= fields_view(
                                        inner@,
                                    ) + spec_entry_values(ov.skip(i + 1), rv));
                                }
                            }
                        },
                        None => {},
                    }
                    i = i + 1;
                }
                proof {
                    assert(ov.skip(ov.len() as int) =~= Seq::<(Seq<char>, DevOptionV)>::empty());
                    assert(fields_view(inner@) + spec_entry_values(
                        ov.skip(ov.len() as int),
                        rv,
                    ) =~= fields_view(inner@));
                }
            },
            None => {
                proof {
                    assert(fields_view(inner@) =~= Seq::<(Seq<char>, JsonVal)>::empty());
                }
            },
        }
        let value = JsonValue::Obj(inner);
        self.insert_entry(key, value);
    }

    /// The whole accumulator as a JSON object.
    #[verifier::loop_isolation(false)]
    pub fn as_value(&self) -> (r: JsonValue)
        ensures
            r@ == JsonVal::Obj(self@),
    {
        let mut out: Vec<(String, JsonValue)> = Vec::new();
        proof {
            crate::json::lemma_fields_view_elems(self.features@);
        }
        let mut i: usize = 0;
        while i < self.features.len()
            invariant
                i <= self.features@.len(),
                out@.len() == i,
                forall|j: int|
                    0 <= j < i ==> (#[trigger] out@[j]).0@ == self.features@[j].0@ && out@[j].1@
                        == self.features@[j].1@,
            decreases self.features@.len() - i,
        {
            let k = self.features[i].0.clone();
            let v = clone_json(&self.features[i].1);
            out.push((k, v));
            i = i + 1;
        }
        let r = JsonValue::Obj(out);
        proof {
            crate::json::lemma_fields_view_elems(out@);
            assert(fields_view(out@) =~= fields_view(self.features@));
        }
        r
    }

    /// How many features have been accumulated.
    pub fn len(&self) -> (r: usize)
        ensures
            r == self@.len(),
    {
        proof {
            crate::json::lemma_fields_view_elems(self.features@);
        }
        self.features.len()
    }
}

/// One option paired with its declared name, ready to be put to the
/// resolver during scaffolding.
#[derive(Debug, Clone)]
pub struct DevOptionPrompt {
    pub name: String,
    pub inner: DevOption,
}

impl DevOptionPrompt {
    pub fn new(name: &str, dev_option: &DevOption) -> (r: DevOptionPrompt)
        ensures
            r.name@ == name@,
            r.inner@ == dev_option@,
    {
        DevOptionPrompt { name: name.to_owned(), inner: dev_option.clone() }
    }
}

/// Completes free text against a proposals option during scaffolding.
#[derive(Debug, Clone)]
pub struct DevOptionProposalsAutocomplete {
    inner: crate::configuration::ProposalsAutocomplete,
}

impl View for DevOptionProposalsAutocomplete {
    type V = Seq<Seq<char>>;

    closed spec fn view(&self) -> Seq<Seq<char>> {
        self.inner@
    }
}

impl DevOptionProposalsAutocomplete {
    pub fn new(default_value: &String, values: &Vec<String>) -> (r: DevOptionProposalsAutocomplete)
        ensures
            r@ == crate::configuration::spec_autocomplete_values(
                strings_view(values@),
                default_value@,
            ),
    {
        DevOptionProposalsAutocomplete {
            inner: crate::configuration::ProposalsAutocomplete::new(default_value, values),
        }
    }

    pub fn get_suggestions(&self, input: &str) -> (r: Vec<String>)
        ensures
            strings_view(r@) == crate::configuration::spec_suggestions(self@, input@),
    {
        self.inner.get_suggestions(input)
    }

    pub fn get_completion(&self, input: &str, highlighted_suggestion: Option<String>) -> (r:
        Option<String>)
        ensures
            match highlighted_suggestion {
                Some(h) => r == Some(h),
                None => {
                    let sug = crate::configuration::spec_suggestions(self@, input@);
                    if sug.len() == 1 {
                        r matches Some(s) && s@ == sug[0]
                    } else {
                        r is None
                    }
                },
            },
    {
        self.inner.get_completion(input, highlighted_suggestion)
    }
}

/// The ids of the given features, in order.
pub open spec fn spec_feature_ids(fs: Seq<FeatureV>) -> Seq<Seq<char>> {
    Seq::new(fs.len(), |i: int| fs[i].id)
}

/// The ids that contain the typed text.
pub open spec fn spec_id_suggestions(ids: Seq<Seq<char>>, input: Seq<char>) -> Seq<Seq<char>>
    decreases ids.len(),
{
    if ids.len() == 0 {
        Seq::empty()
    } else {
        (if crate::textmatch::spec_contains_sub(ids[0], input) {
            seq![ids[0]]
        } else {
            Seq::<Seq<char>>::empty()
        }) + spec_id_suggestions(ids.drop_first(), input)
    }
}

/// Completes typed text against the ids of the catalog's features.
#[derive(Debug, Clone)]
pub struct FeaturesAutocomplete {
    ids: Vec<String>,
}

impl View for FeaturesAutocomplete {
    type V = Seq<Seq<char>>;

    closed spec fn view(&self) -> Seq<Seq<char>> {
        strings_view(self.ids@)
    }
}

impl FeaturesAutocomplete {
    /// Holds the ids of the features the display filter admits.
    #[verifier::loop_isolation(false)]
    pub fn new(index: &crate::registry::DevcontainerIndex, include_deprecated: bool) -> (r:
        FeaturesAutocomplete)
        ensures
            r@ == spec_feature_ids(
                crate::registry::spec_iter_features(index@, include_deprecated),
            ),
    {
        let feats = index.iter_features(include_deprecated);
        let ghost fs = crate::registry::spec_iter_features(index@, include_deprecated);
        let mut ids: Vec<String> = Vec::new();
        let mut i: usize = 0;
        while i < feats.len()
            invariant
                i <= fs.len(),
                fs.len() == feats@.len(),
                forall|t: int| 0 <= t < fs.len() ==> fs[t] == #[trigger] feats@[t]@,
                ids@.len() == i,
                forall|t: int| 0 <= t < i ==> ids@[t]@ == fs[t].id,
            decreases fs.len() - i,
        {
            ids.push(feats[i].id.clone());
            i = i + 1;
        }
        let r = FeaturesAutocomplete { ids };
        proof {
            assert(r@ =~= spec_feature_ids(fs));
        }
        r
    }

    /// The ids that contain the typed text.
    #[verifier::loop_isolation(false)]
    pub fn get_suggestions(&self, input: &str) -> (r: Vec<String>)
        ensures
            strings_view(r@) == spec_id_suggestions(self@, input@),
    {
        let ghost ids = self@;
        let mut out: Vec<String> = Vec::new();
        proof {
            assert(ids.skip(0) =~= ids);
            assert(strings_view(out@) + spec_id_suggestions(ids, input@) =~= spec_id_suggestions(
                ids,
                input@,
            ));
        }
        let mut i: usize = 0;
        while i < self.ids.len()
            invariant
                i <= ids.len(),
                ids.len() == self.ids@.len(),
                forall|t: int| 0 <= t < ids.len() ==> ids[t] == #[trigger] self.ids@[t]@,
                spec_id_suggestions(ids, input@) == strings_view(out@) + spec_id_suggestions(
                    ids.skip(i as int),
                    input@,
                ),
            decreases ids.len() - i,
        {
            proof {
                assert(ids.skip(i as int).drop_first() =~= ids.skip(i + 1));
                assert(ids.skip(i as int)[0] == ids[i as int]);
            }
            let ghost o0 = strings_view(out@);
            if crate::textmatch::contains_sub(self.ids[i].as_str(), input) {
                out.push(self.ids[i].clone());
                proof {
                    assert(strings_view(out@) =~= o0.push(ids[i as int]));
                    assert(o0 + (seq![ids[i as int]] + spec_id_suggestions(
                        ids.skip(i + 1),
                        input@,
                    )) =~= strings_view(out@) + spec_id_suggestions(ids.skip(i + 1), input@));
                }
            } else {
                proof {
                    assert(o0 + (Seq::<Seq<char>>::empty() + spec_id_suggestions(
                        ids.skip(i + 1),
                        input@,
                    )) =~= o0 + spec_id_suggestions(ids.skip(i + 1), input@));
                }
            }
            i = i + 1;
        }
        proof {
            assert(ids.skip(ids.len() as int) =~= Seq::<Seq<char>>::empty());
            assert(strings_view(out@) + spec_id_suggestions(ids.skip(ids.len() as int), input@)
                =~= strings_view(out@));
        }
        out
    }

    /// What the prompt completes to: the highlighted suggestion when there
    /// is one, else the single matching id when the match is unique.
    pub fn get_completion(&self, input: &str, highlighted_suggestion: Option<String>) -> (r:
        Option<String>)
        ensures
            match highlighted_suggestion {
                Some(h) => r == Some(h),
                None => {
                    let sug = spec_id_suggestions(self@, input@);
                    if sug.len() == 1 {
                        r matches Some(s) && s@ == sug[0]
                    } else {
                        r is None
                    }
                },
            },
    {
        match highlighted_suggestion {
            Some(h) => Some(h),
            None => {
                let suggestions = self.get_suggestions(input);
                if suggestions.len() == 1 {
                    let s = suggestions[0].clone();
                    assert(s@ == strings_view(suggestions@)[0]);
                    Some(s)
                } else {
                    None
                }
            },
        }
    }
}

/// First position at or after `i` that holds a slash, or the end.
pub open spec fn spec_seg_end(p: Seq<char>, i: int) -> int
    decreases p.len() - i,
{
    if 0 <= i < p.len() && p[i] as u32 != 0x2f {
        spec_seg_end(p, i + 1)
    } else {
        i
    }
}

pub proof fn lemma_seg_end_bounds(p: Seq<char>, i: int)
    requires
        0 <= i <= p.len(),
    ensures
        i <= spec_seg_end(p, i) <= p.len(),
    decreases p.len() - i,
{
    if i < p.len() && p[i] as u32 != 0x2f {
        lemma_seg_end_bounds(p, i + 1);
    }
}

/// The path components from position `i` on: the non-empty segments between
/// slashes, leaving out bare `.` segments, as `Path::components` normalizes.
pub open spec fn spec_split_from(p: Seq<char>, i: int) -> Seq<Seq<char>>
    decreases p.len() - i,
    via spec_split_from_decreases
{
    if !(0 <= i < p.len()) {
        Seq::empty()
    } else if p[i] as u32 == 0x2f {
        spec_split_from(p, i + 1)
    } else {
        let e = spec_seg_end(p, i);
        let seg = p.subrange(i, e);
        (if seg == "."@ {
            Seq::<Seq<char>>::empty()
        } else {
            seq![seg]
        }) + spec_split_from(p, e)
    }
}

#[via_fn]
proof fn spec_split_from_decreases(p: Seq<char>, i: int) {
    if 0 <= i < p.len() && p[i] as u32 != 0x2f {
        lemma_seg_end_bounds(p, i + 1);
    }
}

/// A path's components.
pub open spec fn spec_components(p: Seq<char>) -> Seq<Seq<char>> {
    spec_split_from(p, 0)
}

/// The path's components end with the given component suffix — how the
/// standard library's path `ends_with` judges it.
pub open spec fn spec_path_ends_with(p: Seq<char>, suffix: Seq<Seq<char>>) -> bool {
    let c = spec_components(p);
    c.len() >= suffix.len() && c.skip(c.len() - suffix.len()) == suffix
}

/// The path's components.
#[verifier::loop_isolation(false)]
pub fn split_path(p: &str) -> (r: Vec<String>)
    ensures
        strings_view(r@) == spec_components(p@),
{
    let n = p.unicode_len();
    let mut out: Vec<String> = Vec::new();
    let mut i: usize = 0;
    proof {
        assert(strings_view(out@) + spec_split_from(p@, 0) =~= spec_split_from(p@, 0));
    }
    while i < n
        invariant
            i <= n,
            n == p@.len(),
            spec_components(p@) == strings_view(out@) + spec_split_from(p@, i as int),
        decreases n - i,
    {
        let c = p.get_char(i);
        if c as u32 == 0x2f {
            i = i + 1;
        } else {
            let mut e = i;
            while e < n && p.get_char(e) as u32 != 0x2f
                invariant
                    i <= e <= n,
                    spec_seg_end(p@, i as int) == spec_seg_end(p@, e as int),
                decreases n - e,
            {
                e = e + 1;
            }
            assert(e == spec_seg_end(p@, i as int));
            let seg = p.substring_char(i, e).to_owned();
            let ghost o0 = strings_view(out@);
            if !str_eq(seg.as_str(), ".") {
                out.push(seg);
                proof {
                    assert(strings_view(out@) =~= o0.push(p@.subrange(i as int, e as int)));
                    assert(o0 + (seq![p@.subrange(i as int, e as int)] + spec_split_from(
                        p@,
                        e as int,
                    )) =~= strings_view(out@) + spec_split_from(p@, e as int));
                }
            } else {
                proof {
                    assert(o0 + (Seq::<Seq<char>>::empty() + spec_split_from(p@, e as int)) =~= o0
                        + spec_split_from(p@, e as int));
                }
            }
            i = e;
        }
    }
    out
}

/// Whether the path's last component is `name`.
pub fn path_ends_with_1(p: &str, name: &str) -> (r: bool)
    ensures
        r == spec_path_ends_with(p@, seq![name@]),
{
    let comps = split_path(p);
    let ghost c = spec_components(p@);
    let n = comps.len();
    if n == 0 {
        return false;
    }
    let r = str_eq(comps[n - 1].as_str(), name);
    proof {
        assert(c.skip(c.len() - 1) =~= seq![c[c.len() - 1]]);
        if c[c.len() - 1] == name@ {
            assert(c.skip(c.len() - 1) =~= seq![name@]);
        } else {
            assert(c.skip(c.len() - 1) != seq![name@]) by {
                assert(c.skip(c.len() - 1)[0] == c[c.len() - 1]);
                assert(seq![name@][0] == name@);
            }
        }
    }
    r
}

/// Whether the path's last two components are `a` then `b`.
pub fn path_ends_with_2(p: &str, a: &str, b: &str) -> (r: bool)
    ensures
        r == spec_path_ends_with(p@, seq![a@, b@]),
{
    let comps = split_path(p);
    let ghost c = spec_components(p@);
    let n = comps.len();
    if n < 2 {
        return false;
    }
    let r = str_eq(comps[n - 2].as_str(), a) && str_eq(comps[n - 1].as_str(), b);
    proof {
        assert(c.skip(c.len() - 2) =~= seq![c[c.len() - 2], c[c.len() - 1]]);
        if c[c.len() - 2] == a@ && c[c.len() - 1] == b@ {
            assert(c.skip(c.len() - 2) =~= seq![a@, b@]);
        } else {
            assert(c.skip(c.len() - 2) != seq![a@, b@]) by {
                assert(c.skip(c.len() - 2)[0] == c[c.len() - 2]);
                assert(c.skip(c.len() - 2)[1] == c[c.len() - 1]);
                assert(seq![a@, b@][0] == a@ && seq![a@, b@][1] == b@);
            }
        }
    }
    r
}

/// `a` ends with `b`, as plain text.
pub open spec fn spec_str_ends_with(a: Seq<char>, b: Seq<char>) -> bool {
    b.len() <= a.len() && a.subrange(a.len() - b.len(), a.len() as int) == b
}

pub fn str_ends_with(a: &str, b: &str) -> (r: bool)
    ensures
        r == spec_str_ends_with(a@, b@),
{
    let alen = a.unicode_len();
    let blen = b.unicode_len();
    if blen > alen {
        return false;
    }
    matches_at(a, alen, b, blen, alen - blen)
}

/// First resolved value with the given name.
#[verifier::loop_isolation(false)]
fn lookup_resolved<'a>(
    resolved: &'a Vec<(String, DevOptionPromptValue)>,
    name: &str,
) -> (r: Option<&'a DevOptionPromptValue>)
    ensures
        match r {
            Some(v) => spec_resolved_lookup(resolved_view(resolved@), name@) == Some(v@),
            None => spec_resolved_lookup(resolved_view(resolved@), name@) is None,
        },
{
    let ghost rv = resolved_view(resolved@);
    assert(rv.skip(0) =~= rv);
    let mut i: usize = 0;
    while i < resolved.len()
        invariant
            i <= rv.len(),
            rv.len() == resolved@.len(),
            spec_resolved_lookup(rv, name@) == spec_resolved_lookup(rv.skip(i as int), name@),
        decreases rv.len() - i,
    {
        assert(rv.skip(i as int).drop_first() =~= rv.skip(i + 1));
        assert(rv.skip(i as int)[0] == rv[i as int]);
        if str_eq(resolved[i].0.as_str(), name) {
            return Some(&resolved[i].1);
        }
        i = i + 1;
    }
    None
}

/// The view of an optional configuration.
pub open spec fn spec_config_view(c: Option<Template>) -> Option<TemplateV> {
    match c {
        Some(t) => Some(t@),
        None => None,
    }
}

/// Whether the configuration can be written as a single `.devcontainer.json`
/// file: never for templates with a Dockerfile or a compose file; for image
/// templates, unless a known file count says the template carries more than
/// the configuration file and its accompanying documents.
pub open spec fn spec_single_file_eligible(config: Option<TemplateV>) -> bool {
    match config {
        Some(t) => match t.template_type {
            Some(TemplateType::Image) => match t.file_count {
                Some(c) => !(c > 4),
                None => true,
            },
            Some(TemplateType::Dockerfile) => false,
            Some(TemplateType::DockerCompose) => false,
            None => false,
        },
        None => false,
    }
}

/// Contents of the first entry whose path ends with the given text.
pub open spec fn spec_find_suffix_entry(
    es: Seq<(Seq<char>, u8, Seq<u8>)>,
    suffix: Seq<char>,
) -> Option<Seq<u8>>
    decreases es.len(),
{
    if es.len() == 0 {
        None
    } else if spec_str_ends_with(es[0].0, suffix) {
        Some(es[0].2)
    } else {
        spec_find_suffix_entry(es.drop_first(), suffix)
    }
}

/// Contents of the first entry whose path ends with `suffix`, from a parsed
/// archive.
#[verifier::loop_isolation(false)]
fn find_suffix_entry<'a>(entries: &'a Vec<TarEntry>, suffix: &str) -> (r: Option<&'a Vec<u8>>)
    ensures
        match r {
            Some(d) => spec_find_suffix_entry(
                crate::tarball::tar_entries_view(entries@),
                suffix@,
            ) == Some(d@),
            None => spec_find_suffix_entry(
                crate::tarball::tar_entries_view(entries@),
                suffix@,
            ) is None,
        },
{
    let ghost ev = crate::tarball::tar_entries_view(entries@);
    assert(ev.skip(0) =~= ev);
    let mut i: usize = 0;
    while i < entries.len()
        invariant
            i <= ev.len(),
            ev.len() == entries@.len(),
            forall|t: int|
                0 <= t < ev.len() ==> ev[t] == (
                    #[trigger] entries@[t].path@,
                    entries@[t].type_flag,
                    entries@[t].data@,
                ),
            spec_find_suffix_entry(ev, suffix@) == spec_find_suffix_entry(
                ev.skip(i as int),
                suffix@,
            ),
        decreases ev.len() - i,
    {
        assert(ev.skip(i as int).drop_first() =~= ev.skip(i + 1));
        assert(ev.skip(i as int)[0] == ev[i as int]);
        if str_ends_with(entries[i].path.as_str(), suffix) {
            return Some(&entries[i].data);
        }
        i = i + 1;
    }
    None
}

/// The feature manifest inside a pulled archive: the first entry named
/// `devcontainer-feature.json`, read as strict JSON and decoded.
pub fn feature_from_archive(bytes: &[u8]) -> (r: Result<Feature, InitError>)
    ensures
        match tar_entries_of(bytes@) {
            None => r matches Err(InitError::MalformedArchive),
            Some(es) => match spec_find_suffix_entry(es, "devcontainer-feature.json"@) {
                None => r matches Err(InitError::NotFound),
                Some(data) => match json_doc_of(data) {
                    None => r matches Err(InitError::InvalidData),
                    Some(doc) => match spec_parse_feature(doc) {
                        None => r matches Err(InitError::InvalidData),
                        Some(fv) => r matches Ok(f) && f@ == fv,
                    },
                },
            },
        },
{
    let entries = match read_tar_entries(bytes) {
        Some(es) => es,
        None => {
            return Err(InitError::MalformedArchive);
        },
    };
    let data = match find_suffix_entry(&entries, "devcontainer-feature.json") {
        Some(d) => d,
        None => {
            return Err(InitError::NotFound);
        },
    };
    let doc = match crate::json::parse_json_bytes(data.as_slice()) {
        Some(doc) => doc,
        None => {
            return Err(InitError::InvalidData);
        },
    };
    match crate::registry::parse_feature(&doc) {
        Some(f) => Ok(f),
        None => Err(InitError::InvalidData),
    }
}

/// The context that holds every declared option at its configured default.
pub open spec fn spec_ctx_defaults(opts: Seq<(Seq<char>, DevOptionV)>) -> Seq<(Seq<u8>, Seq<u8>)>
    decreases opts.len(),
{
    if opts.len() == 0 {
        Seq::empty()
    } else {
        crate::subst::spec_ctx_set(
            spec_ctx_defaults(opts.drop_last()),
            encode_utf8(opts.last().0),
            encode_utf8(spec_configured_default(opts.last().1)),
        )
    }
}

/// The context that holds the given resolved values, inserted in order.
pub open spec fn spec_ctx_values(values: Seq<(Seq<char>, Seq<char>)>) -> Seq<(Seq<u8>, Seq<u8>)>
    decreases values.len(),
{
    if values.len() == 0 {
        Seq::empty()
    } else {
        crate::subst::spec_ctx_set(
            spec_ctx_values(values.drop_last()),
            encode_utf8(values.last().0),
            encode_utf8(values.last().1),
        )
    }
}

/// The view of a list of name/value strings.
pub open spec fn pairs_view(s: Seq<(String, String)>) -> Seq<(Seq<char>, Seq<char>)> {
    Seq::new(s.len(), |i: int| (s[i].0@, s[i].1@))
}

/// One planned change to the workspace.
#[derive(Debug)]
pub enum FileAction {
    /// Create this directory, parents included, idempotently.
    Dir(String),
    /// Create or truncate this file with these bytes.
    Write(String, Vec<u8>),
}

#[verifier::ext_equal]
pub ghost enum ActionV {
    Dir(Seq<char>),
    Write(Seq<char>, Seq<u8>),
}

impl View for FileAction {
    type V = ActionV;

    open spec fn view(&self) -> ActionV {
        match self {
            FileAction::Dir(p) => ActionV::Dir(p@),
            FileAction::Write(p, d) => ActionV::Write(p@, d@),
        }
    }
}

pub open spec fn acts_view(s: Seq<FileAction>) -> Seq<ActionV> {
    Seq::new(s.len(), |i: int| s[i]@)
}

/// What materialization decided to do, before anything touches the disk:
/// the file actions in archive order, the placeholder names that had no
/// value (the warning signal of substitution), and whether a wish for a
/// single-file configuration had to be declined.
#[derive(Debug)]
pub struct MaterializePlan {
    pub actions: Vec<FileAction>,
    pub missing: Vec<Vec<u8>>,
    pub single_file_declined: bool,
}

/// An existing `features` object extended with the accumulated entries, the
/// accumulated entries winning on key collision.
pub open spec fn spec_extend_fields(
    existing: Seq<(Seq<char>, JsonVal)>,
    feats: Seq<(Seq<char>, JsonVal)>,
) -> Seq<(Seq<char>, JsonVal)>
    decreases feats.len(),
{
    if feats.len() == 0 {
        existing
    } else {
        spec_extend_fields(
            spec_obj_set(existing, feats[0].0, feats[0].1),
            feats.drop_first(),
        )
    }
}

/// The configuration object with the accumulated feature entries merged in:
/// an existing `features` object is extended; anything else — the key
/// absent, or holding some other shape — is replaced by a fresh object of
/// the accumulated entries.
pub open spec fn spec_merge_features(
    fields: Seq<(Seq<char>, JsonVal)>,
    feats: Seq<(Seq<char>, JsonVal)>,
) -> Seq<(Seq<char>, JsonVal)> {
    match crate::json::spec_obj_get(fields, "features"@) {
        Some(JsonVal::Obj(existing)) => spec_obj_set(
            fields,
            "features"@,
            JsonVal::Obj(spec_extend_fields(existing, feats)),
        ),
        _ => spec_obj_set(fields, "features"@, JsonVal::Obj(feats)),
    }
}

/// Whether a raw tar type flag denotes file contents (a regular or
/// continuous entry); directories are `'5'`, anything else is ignored.
pub open spec fn spec_is_file_flag(flag: u8) -> bool {
    flag == 0x30 || flag == 0 || flag == 0x37
}

/// The skip list: documentation and the template's own manifest never reach
/// the workspace.
pub open spec fn spec_skip_entry(path: Seq<char>) -> bool {
    spec_path_ends_with(path, seq!["NOTES.md"@]) || spec_path_ends_with(path, seq!["README.md"@])
        || spec_path_ends_with(path, seq!["devcontainer-template.json"@])
}

/// Whether the entry lands on the primary configuration file.
pub open spec fn spec_is_config_path(path: Seq<char>) -> bool {
    spec_path_ends_with(path, seq![".devcontainer"@, "devcontainer.json"@]) || spec_path_ends_with(
        path,
        seq![".devcontainer.json"@],
    )
}

/// What one archive entry contributes to the plan: its actions and the
/// placeholder names it could not resolve — or the one failure the pipeline
/// does not survive, a configuration file that will not parse on the
/// feature-merge path.
pub open spec fn spec_entry_plan(
    e: (Seq<char>, u8, Seq<u8>),
    ctx: Seq<(Seq<u8>, Seq<u8>)>,
    feats: Seq<(Seq<char>, JsonVal)>,
    retarget: bool,
) -> Result<(Seq<ActionV>, Seq<Seq<u8>>), ()> {
    if spec_skip_entry(e.0) {
        Ok((Seq::empty(), Seq::empty()))
    } else if e.1 == 0x35 {
        Ok((seq![ActionV::Dir(e.0)], Seq::empty()))
    } else if spec_is_file_flag(e.1) {
        let sub = spec_substitute(e.2, ctx, 0);
        if spec_is_config_path(e.0) {
            let outp = if retarget {
                ".devcontainer.json"@
            } else {
                e.0
            };
            if feats.len() > 0 {
                match jsonc_doc_of(sub.0) {
                    Some(JsonVal::Obj(fields)) => Ok(
                        (
                            seq![
                                ActionV::Write(
                                    outp,
                                    crate::json::spec_json_bytes(
                                        JsonVal::Obj(spec_merge_features(fields, feats)),
                                        Seq::empty(),
                                    ),
                                ),
                            ],
                            sub.1,
                        ),
                    ),
                    _ => Err(()),
                }
            } else {
                Ok((seq![ActionV::Write(outp, sub.0)], sub.1))
            }
        } else {
            Ok((seq![ActionV::Write(e.0, sub.0)], sub.1))
        }
    } else {
        Ok((Seq::empty(), Seq::empty()))
    }
}

/// The whole plan: entry contributions in archive order; any entry failure
/// fails the operation.
pub open spec fn spec_plan_entries(
    es: Seq<(Seq<char>, u8, Seq<u8>)>,
    ctx: Seq<(Seq<u8>, Seq<u8>)>,
    feats: Seq<(Seq<char>, JsonVal)>,
    retarget: bool,
) -> Result<(Seq<ActionV>, Seq<Seq<u8>>), ()>
    decreases es.len(),
{
    if es.len() == 0 {
        Ok((Seq::empty(), Seq::empty()))
    } else {
        match (spec_entry_plan(es[0], ctx, feats, retarget), spec_plan_entries(
            es.drop_first(),
            ctx,
            feats,
            retarget,
        )) {
            (Ok((a1, m1)), Ok((a2, m2))) => Ok((a1 + a2, m1 + m2)),
            _ => Err(()),
        }
    }
}

/// Feature-merge idempotence, first half: with an empty accumulator a file
/// entry is written byte-identical apart from placeholder substitution —
/// the configuration file included, which is then neither parsed nor
/// re-printed.
pub proof fn lemma_empty_accumulator_preserves_bytes(
    e: (Seq<char>, u8, Seq<u8>),
    ctx: Seq<(Seq<u8>, Seq<u8>)>,
    retarget: bool,
)
    requires
        !spec_skip_entry(e.0),
        spec_is_file_flag(e.1),
    ensures
        spec_entry_plan(e, ctx, Seq::empty(), retarget) matches Ok(p) && p.0 == seq![
            ActionV::Write(
                if spec_is_config_path(e.0) && retarget {
                    ".devcontainer.json"@
                } else {
                    e.0
                },
                spec_substitute(e.2, ctx, 0).0,
            ),
        ],
{
}

/// Feature-merge idempotence, second half: merging one accumulated entry
/// into a configuration that declares no `features` key yields a `features`
/// object holding exactly that entry.
pub proof fn lemma_single_feature_merge(
    fields: Seq<(Seq<char>, JsonVal)>,
    key: Seq<char>,
    value: JsonVal,
)
    requires
        crate::json::spec_obj_get(fields, "features"@) is None,
    ensures
        crate::json::spec_obj_get(
            spec_merge_features(fields, seq![(key, value)]),
            "features"@,
        ) == Some(JsonVal::Obj(seq![(key, value)])),
{
    lemma_obj_set_get(fields, "features"@, JsonVal::Obj(seq![(key, value)]));
}

/// What the merged configuration is written as depends on the parsed
/// document alone: two sources of the same path whose substituted bytes
/// parse to the same document — whatever their comments or indentation —
/// plan the same write.
pub proof fn lemma_merge_ignores_formatting(
    e1: (Seq<char>, u8, Seq<u8>),
    e2: (Seq<char>, u8, Seq<u8>),
    ctx: Seq<(Seq<u8>, Seq<u8>)>,
    feats: Seq<(Seq<char>, JsonVal)>,
    retarget: bool,
)
    requires
        e1.0 == e2.0,
        e1.1 == e2.1,
        spec_is_file_flag(e1.1),
        spec_is_config_path(e1.0),
        !spec_skip_entry(e1.0),
        feats.len() > 0,
        jsonc_doc_of(spec_substitute(e1.2, ctx, 0).0) == jsonc_doc_of(
            spec_substitute(e2.2, ctx, 0).0,
        ),
        spec_substitute(e1.2, ctx, 0).1 == spec_substitute(e2.2, ctx, 0).1,
    ensures
        spec_entry_plan(e1, ctx, feats, retarget) == spec_entry_plan(e2, ctx, feats, retarget),
{
}

/// Setting a key and reading it back gives the set value.
proof fn lemma_obj_set_get(fields: Seq<(Seq<char>, JsonVal)>, key: Seq<char>, value: JsonVal)
    ensures
        crate::json::spec_obj_get(spec_obj_set(fields, key, value), key) == Some(value),
    decreases fields.len(),
{
    if fields.len() == 0 {
        assert(spec_obj_set(fields, key, value) =~= seq![(key, value)]);
        assert(crate::json::spec_obj_get(seq![(key, value)], key) == Some(value));
    } else if fields[0].0 == key {
        assert(spec_obj_set(fields, key, value)[0] == (key, value));
    } else {
        lemma_obj_set_get(fields.drop_first(), key, value);
        assert(spec_obj_set(fields, key, value)[0] == fields[0]);
        assert(spec_obj_set(fields, key, value).drop_first() =~= spec_obj_set(
            fields.drop_first(),
            key,
            value,
        ));
    }
}

/// Where a planned action may point: a directory action carries the path of
/// a directory entry off the skip list; a write carries the path of a file
/// entry off the skip list, or the single-file target `.devcontainer.json`.
pub open spec fn spec_action_from_entries(a: ActionV, es: Seq<(Seq<char>, u8, Seq<u8>)>) -> bool {
    match a {
        ActionV::Dir(p) => exists|j: int|
            0 <= j < es.len() && (#[trigger] es[j]).0 == p && !spec_skip_entry(p) && es[j].1
                == 0x35,
        ActionV::Write(p, d) => (exists|j: int|
            0 <= j < es.len() && (#[trigger] es[j]).0 == p && !spec_skip_entry(p)) || p
            == ".devcontainer.json"@,
    }
}

proof fn lemma_entry_plan_actions(
    e: (Seq<char>, u8, Seq<u8>),
    ctx: Seq<(Seq<u8>, Seq<u8>)>,
    feats: Seq<(Seq<char>, JsonVal)>,
    retarget: bool,
)
    requires
        spec_entry_plan(e, ctx, feats, retarget) is Ok,
    ensures
        ({
            let acts = spec_entry_plan(e, ctx, feats, retarget).unwrap().0;
            forall|k: int|
                0 <= k < acts.len() ==> match #[trigger] acts[k] {
                    ActionV::Dir(p) => p == e.0 && !spec_skip_entry(e.0) && e.1 == 0x35,
                    ActionV::Write(p, d) => (p == e.0 && !spec_skip_entry(e.0)) || p
                        == ".devcontainer.json"@,
                }
        }),
{
}

/// The materializer never invents a path: in any successful plan, every
/// directory is created at a directory entry's own relative path, and every
/// file is written at a file entry's own relative path or — when the
/// configuration is retargeted — at `.devcontainer.json`; paths on the skip
/// list are never planned at all.
pub proof fn lemma_plan_paths_from_entries(
    es: Seq<(Seq<char>, u8, Seq<u8>)>,
    ctx: Seq<(Seq<u8>, Seq<u8>)>,
    feats: Seq<(Seq<char>, JsonVal)>,
    retarget: bool,
)
    requires
        spec_plan_entries(es, ctx, feats, retarget) is Ok,
    ensures
        ({
            let acts = spec_plan_entries(es, ctx, feats, retarget).unwrap().0;
            forall|k: int| 0 <= k < acts.len() ==> spec_action_from_entries(#[trigger] acts[k], es)
        }),
    decreases es.len(),
{
    if es.len() > 0 {
        let head = spec_entry_plan(es[0], ctx, feats, retarget);
        let rest = spec_plan_entries(es.drop_first(), ctx, feats, retarget);
        lemma_entry_plan_actions(es[0], ctx, feats, retarget);
        lemma_plan_paths_from_entries(es.drop_first(), ctx, feats, retarget);
        let acts = spec_plan_entries(es, ctx, feats, retarget).unwrap().0;
        let a1 = head.unwrap().0;
        let a2 = rest.unwrap().0;
        assert(acts == a1 + a2);
        assert forall|k: int|
            0 <= k < acts.len() implies spec_action_from_entries(acts[k], es) by {
            if k < a1.len() {
                assert(acts[k] == a1[k]);
                match acts[k] {
                    ActionV::Dir(p) => {
                        assert((es[0]).0 == p && !spec_skip_entry(p) && es[0].1 == 0x35);
                    },
                    ActionV::Write(p, d) => {
                        if p != ".devcontainer.json"@ {
                            assert((es[0]).0 == p && !spec_skip_entry(p));
                        }
                    },
                }
            } else {
                let k2 = k - a1.len();
                assert(acts[k] == a2[k2]);
                assert(spec_action_from_entries(a2[k2], es.drop_first()));
                match acts[k] {
                    ActionV::Dir(p) => {
                        let j = choose|j: int|
                            0 <= j < es.drop_first().len() && (#[trigger] es.drop_first()[j]).0
                                == p && !spec_skip_entry(p) && es.drop_first()[j].1 == 0x35;
                        assert((es[j + 1]).0 == p && es[j + 1].1 == 0x35);
                    },
                    ActionV::Write(p, d) => {
                        if p != ".devcontainer.json"@ {
                            let j = choose|j: int|
                                0 <= j < es.drop_first().len() && (#[trigger] es.drop_first()[j]).0
                                    == p && !spec_skip_entry(p);
                            assert((es[j + 1]).0 == p);
                        }
                    },
                }
            }
        }
    }
}

/// Builds one template's materialization: the archive bytes, the template's
/// configuration when it is known, the resolved option values, and the
/// accumulated feature entries.
#[derive(Debug)]
pub struct TemplateBuilder {
    pub config: Option<Template>,
    pub context: TemplateContext,
    pub features: FeatureEntryBuilder,
    pub archive_bytes: Vec<u8>,
}

impl TemplateBuilder {
    /// A builder over pulled archive bytes, with whatever configuration the
    /// index already knew.
    pub fn new(config: Option<Template>, archive_bytes: Vec<u8>) -> (r: TemplateBuilder)
        ensures
            spec_config_view(r.config) == spec_config_view(config),
            r.context@ == Seq::<(Seq<u8>, Seq<u8>)>::empty(),
            r.features@ == Seq::<(Seq<char>, JsonVal)>::empty(),
            r.archive_bytes@ == archive_bytes@,
    {
        TemplateBuilder {
            config,
            context: TemplateContext::new(),
            features: FeatureEntryBuilder::new(),
            archive_bytes,
        }
    }

    /// Reads the configuration out of the archive itself: the first entry
    /// named `devcontainer-template.json`, as strict JSON.
    pub fn replace_config(&mut self) -> (r: Result<(), InitError>)
        ensures
            final(self).context@ == old(self).context@,
            final(self).features@ == old(self).features@,
            final(self).archive_bytes@ == old(self).archive_bytes@,
            match tar_entries_of(old(self).archive_bytes@) {
                None => r matches Err(InitError::MalformedArchive) && final(self).config == old(
                    self,
                ).config,
                Some(es) => match spec_find_suffix_entry(es, "devcontainer-template.json"@) {
                    None => r matches Err(InitError::NotFound) && final(self).config == old(
                        self,
                    ).config,
                    Some(data) => match json_doc_of(data) {
                        None => r matches Err(InitError::InvalidData) && final(self).config == old(
                            self,
                        ).config,
                        Some(doc) => match spec_parse_template(doc) {
                            None => r matches Err(InitError::InvalidData) && final(self).config
                                == old(self).config,
                            Some(tv) => r matches Ok(u) && spec_config_view(final(self).config)
                                == Some(tv),
                        },
                    },
                },
            },
    {
        let entries = match read_tar_entries(self.archive_bytes.as_slice()) {
            Some(es) => es,
            None => {
                return Err(InitError::MalformedArchive);
            },
        };
        let data = match find_suffix_entry(&entries, "devcontainer-template.json") {
            Some(d) => d,
            None => {
                return Err(InitError::NotFound);
            },
        };
        let doc = match crate::json::parse_json_bytes(data.as_slice()) {
            Some(doc) => doc,
            None => {
                return Err(InitError::InvalidData);
            },
        };
        match crate::registry::parse_template(&doc) {
            Some(t) => {
                self.config = Some(t);
                Ok(())
            },
            None => Err(InitError::InvalidData),
        }
    }

    /// Fills the context with every declared option's configured default; a
    /// configuration without declared options leaves the context as it was.
    #[verifier::loop_isolation(false)]
    pub fn use_default_values(&mut self) -> (r: Result<(), InitError>)
        ensures
            final(self).config == old(self).config,
            final(self).features@ == old(self).features@,
            final(self).archive_bytes@ == old(self).archive_bytes@,
            match spec_config_view(old(self).config) {
                None => r matches Err(InitError::MissingConfig) && final(self).context@ == old(
                    self,
                ).context@,
                Some(t) => r matches Ok(u) && final(self).context@ == (match t.options {
                    Some(opts) => spec_ctx_defaults(opts),
                    None => old(self).context@,
                }),
            },
    {
        let config = match &self.config {
            Some(c) => c,
            None => {
                return Err(InitError::MissingConfig);
            },
        };
        match &config.options {
            Some(opts) => {
                let ghost ov = crate::registry::options_view(opts@);
                self.context.clear();
                proof {
                    assert(ov.take(0) =~= Seq::<(Seq<char>, DevOptionV)>::empty());
                }
                let mut i: usize = 0;
                while i < opts.len()
                    invariant
                        i <= ov.len(),
                        ov.len() == opts@.len(),
                        forall|t: int|
                            0 <= t < ov.len() ==> ov[t] == (#[trigger] opts@[t].0@, opts@[t].1@),
                        self.context@ == spec_ctx_defaults(ov.take(i as int)),
                        self.config == old(self).config,
                        self.features@ == old(self).features@,
                        self.archive_bytes@ == old(self).archive_bytes@,
                    decreases ov.len() - i,
                {
                    let dflt = opts[i].1.configured_default();
                    self.context.insert(opts[i].0.as_str(), dflt.as_str());
                    proof {
                        assert(ov.take(i + 1).drop_last() =~= ov.take(i as int));
                        assert(ov.take(i + 1).last() == ov[i as int]);
                    }
                    i = i + 1;
                }
                proof {
                    assert(ov.take(ov.len() as int) =~= ov);
                }
                Ok(())
            },
            None => Ok(()),
        }
    }

    /// Installs the values the resolver produced, one per declared option;
    /// a configuration without declared options leaves the context as it
    /// was.
    #[verifier::loop_isolation(false)]
    pub fn use_resolved_values(&mut self, values: &Vec<(String, String)>) -> (r: Result<
        (),
        InitError,
    >)
        ensures
            final(self).config == old(self).config,
            final(self).features@ == old(self).features@,
            final(self).archive_bytes@ == old(self).archive_bytes@,
            match spec_config_view(old(self).config) {
                None => r matches Err(InitError::MissingConfig) && final(self).context@ == old(
                    self,
                ).context@,
                Some(t) => r matches Ok(u) && final(self).context@ == (match t.options {
                    Some(opts) => spec_ctx_values(pairs_view(values@)),
                    None => old(self).context@,
                }),
            },
    {
        let config = match &self.config {
            Some(c) => c,
            None => {
                return Err(InitError::MissingConfig);
            },
        };
        match &config.options {
            Some(opts) => {
                let ghost pv = pairs_view(values@);
                self.context.clear();
                proof {
                    assert(pv.take(0) =~= Seq::<(Seq<char>, Seq<char>)>::empty());
                }
                let mut i: usize = 0;
                while i < values.len()
                    invariant
                        i <= pv.len(),
                        pv.len() == values@.len(),
                        forall|t: int|
                            0 <= t < pv.len() ==> pv[t] == (#[trigger] values@[t].0@, values@[t].1@),
                        self.context@ == spec_ctx_values(pv.take(i as int)),
                        self.config == old(self).config,
                        self.features@ == old(self).features@,
                        self.archive_bytes@ == old(self).archive_bytes@,
                    decreases pv.len() - i,
                {
                    self.context.insert(values[i].0.as_str(), values[i].1.as_str());
                    proof {
                        assert(pv.take(i + 1).drop_last() =~= pv.take(i as int));
                        assert(pv.take(i + 1).last() == pv[i as int]);
                    }
                    i = i + 1;
                }
                proof {
                    assert(pv.take(pv.len() as int) =~= pv);
                }
                Ok(())
            },
            None => Ok(()),
        }
    }

    /// Whether this template may be written as a single configuration file.
    pub fn is_single_file_eligible(&self) -> (r: bool)
        ensures
            r == spec_single_file_eligible(spec_config_view(self.config)),
    {
        match &self.config {
            Some(t) => match t.template_type {
                Some(TemplateType::Image) => match t.file_count {
                    Some(c) => !(c > 4),
                    None => true,
                },
                Some(_) => false,
                None => false,
            },
            None => false,
        }
    }

    /// Walks the archive and plans the workspace: entries on the skip list
    /// contribute nothing; directories become directories; file contents get
    /// their placeholders substituted; the configuration file may be
    /// retargeted to a single file and, when features were accumulated, has
    /// them merged in and is re-printed with tab indentation; any other
    /// entry kind is ignored. Nothing is written here — the plan says what
    /// to write.
    #[verifier::loop_isolation(false)]
    #[verifier::rlimit(60)]
    pub fn apply_context_and_features(&self, attempt_single_file: bool) -> (r: Result<
        MaterializePlan,
        InitError,
    >)
        ensures
            match tar_entries_of(self.archive_bytes@) {
                None => r matches Err(InitError::MalformedArchive),
                Some(es) => {
                    let retarget = attempt_single_file && spec_single_file_eligible(
                        spec_config_view(self.config),
                    );
                    match spec_plan_entries(es, self.context@, self.features@, retarget) {
                        Err(u) => r matches Err(InitError::InvalidData),
                        Ok((acts, miss)) => r matches Ok(plan) && acts_view(plan.actions@) == acts
                            && plan.missing.deep_view() == miss && plan.single_file_declined == (
                        attempt_single_file && !spec_single_file_eligible(
                            spec_config_view(self.config),
                        )),
                    }
                },
            },
    {
        let entries = match read_tar_entries(self.archive_bytes.as_slice()) {
            Some(es) => es,
            None => {
                return Err(InitError::MalformedArchive);
            },
        };
        let eligible = self.is_single_file_eligible();
        let retarget = attempt_single_file && eligible;
        let ghost es = crate::tarball::tar_entries_view(entries@);
        let ghost ctxv = self.context@;
        let ghost featsv = self.features@;
        let mut actions: Vec<FileAction> = Vec::new();
        let mut missing: Vec<Vec<u8>> = Vec::new();
        proof {
            assert(es.skip(0) =~= es);
            assert(acts_view(actions@) =~= Seq::<ActionV>::empty());
            assert(missing.deep_view() =~= Seq::<Seq<u8>>::empty());
        }
        let mut i: usize = 0;
        while i < entries.len()
            invariant
                i <= es.len(),
                es.len() == entries@.len(),
                forall|t: int|
                    0 <= t < es.len() ==> es[t] == (
                        #[trigger] entries@[t].path@,
                        entries@[t].type_flag,
                        entries@[t].data@,
                    ),
                spec_plan_entries(es, ctxv, featsv, retarget) == (match spec_plan_entries(
                    es.skip(i as int),
                    ctxv,
                    featsv,
                    retarget,
                ) {
                    Ok(rest) => Ok::<_, ()>(
                        (
                            acts_view(actions@) + rest.0,
                            missing.deep_view() + rest.1,
                        ),
                    ),
                    Err(u) => Err(u),
                }),
            decreases es.len() - i,
        {
            proof {
                assert(es.skip(i as int).drop_first() =~= es.skip(i + 1));
                assert(es.skip(i as int)[0] == es[i as int]);
            }
            let ghost a0 = acts_view(actions@);
            let ghost m0 = missing.deep_view();
            let ghost entry_part = spec_entry_plan(es[i as int], ctxv, featsv, retarget);
            let entry = &entries[i];
            let skip_it = path_ends_with_1(entry.path.as_str(), "NOTES.md") || path_ends_with_1(
                entry.path.as_str(),
                "README.md",
            ) || path_ends_with_1(entry.path.as_str(), "devcontainer-template.json");
            if skip_it {
                // Nothing to do for documentation or the manifest.
            } else if entry.type_flag == 0x35 {
                actions.push(FileAction::Dir(entry.path.clone()));
                proof {
                    assert(acts_view(actions@) =~= a0.push(ActionV::Dir(es[i as int].0)));
                }
            } else if entry.type_flag == 0x30 || entry.type_flag == 0 || entry.type_flag == 0x37 {
                let (sub, mut miss_names) = substitute(&entry.data, &self.context);
                let ghost subv = spec_substitute(es[i as int].2, ctxv, 0);
                let is_config = path_ends_with_2(
                    entry.path.as_str(),
                    ".devcontainer",
                    "devcontainer.json",
                ) || path_ends_with_1(entry.path.as_str(), ".devcontainer.json");
                let outpath = if is_config && retarget {
                    ".devcontainer.json".to_owned()
                } else {
                    entry.path.clone()
                };
                if is_config && self.features.len() > 0 {
                    let parsed = match crate::json::parse_jsonc_bytes(sub.as_slice()) {
                        Some(doc) => doc,
                        None => {
                            return Err(InitError::InvalidData);
                        },
                    };
                    let mut fields = match parsed {
                        JsonValue::Obj(fields) => fields,
                        _ => {
                            return Err(InitError::InvalidData);
                        },
                    };
                    let ghost fields0 = fields_view(fields@);
                    let merged = merge_feature_entries(fields, self.features.entries());
                    let content = to_json_bytes_with_tabs(&merged);
                    actions.push(FileAction::Write(outpath, content));
                    proof {
                        assert(merged@ == JsonVal::Obj(spec_merge_features(fields0, featsv)));
                        assert(acts_view(actions@) =~= a0.push(
                            ActionV::Write(
                                if retarget {
                                    ".devcontainer.json"@
                                } else {
                                    es[i as int].0
                                },
                                crate::json::spec_json_bytes(
                                    JsonVal::Obj(spec_merge_features(fields0, featsv)),
                                    Seq::empty(),
                                ),
                            ),
                        ));
                    }
                } else {
                    actions.push(FileAction::Write(outpath, sub));
                    proof {
                        assert(acts_view(actions@) =~= a0.push(
                            ActionV::Write(
                                if is_config && retarget {
                                    ".devcontainer.json"@
                                } else {
                                    es[i as int].0
                                },
                                subv.0,
                            ),
                        ));
                    }
                }
                let ghost mnames = miss_names.deep_view();
                missing.append(&mut miss_names);
                proof {
                    assert(missing.deep_view() =~= m0 + mnames);
                }
            } else {
                // Links and other entry kinds are ignored.
            }
            proof {
                assert(entry_part is Ok);
                let c = entry_part.unwrap();
                assert(acts_view(actions@) =~= a0 + c.0);
                assert(missing.deep_view() =~= m0 + c.1);
                if spec_plan_entries(es.skip(i + 1), ctxv, featsv, retarget) is Ok {
                    let rest = spec_plan_entries(es.skip(i + 1), ctxv, featsv, retarget).unwrap();
                    assert(a0 + (c.0 + rest.0) =~= acts_view(actions@) + rest.0);
                    assert(m0 + (c.1 + rest.1) =~= missing.deep_view() + rest.1);
                }
            }
            i = i + 1;
        }
        proof {
            assert(es.skip(es.len() as int) =~= Seq::<(Seq<char>, u8, Seq<u8>)>::empty());
            assert(acts_view(actions@) + Seq::<ActionV>::empty() =~= acts_view(actions@));
            assert(missing.deep_view() + Seq::<Seq<u8>>::empty() =~= missing.deep_view());
        }
        Ok(
            MaterializePlan {
                actions,
                missing,
                single_file_declined: attempt_single_file && !eligible,
            },
        )
    }
}

/// The configuration fields with the accumulated feature entries merged in.
#[verifier::loop_isolation(false)]
fn merge_feature_entries(
    fields: Vec<(String, JsonValue)>,
    feats: &Vec<(String, JsonValue)>,
) -> (r: JsonValue)
    ensures
        r@ == JsonVal::Obj(spec_merge_features(fields_view(fields@), fields_view(feats@))),
{
    let ghost fields0 = fields_view(fields@);
    let ghost featsv = fields_view(feats@);
    proof {
        crate::json::lemma_fields_view_elems(feats@);
    }
    // The target of the features key: either the existing object extended,
    // or a fresh object of the accumulated entries.
    let target: Vec<(String, JsonValue)> = match crate::json::obj_get(&fields, "features") {
        Some(JsonValue::Obj(existing)) => {
            let mut target = clone_fields(existing);
            let ghost existing0 = fields_view(target@);
            proof {
                assert(featsv.skip(0) =~= featsv);
            }
            let mut j: usize = 0;
            while j < feats.len()
                invariant
                    j <= featsv.len(),
                    featsv.len() == feats@.len(),
                    forall|t: int|
                        0 <= t < featsv.len() ==> featsv[t] == (
                            #[trigger] feats@[t].0@,
                            feats@[t].1@,
                        ),
                    spec_extend_fields(existing0, featsv) == spec_extend_fields(
                        fields_view(target@),
                        featsv.skip(j as int),
                    ),
                decreases featsv.len() - j,
            {
                proof {
                    assert(featsv.skip(j as int).drop_first() =~= featsv.skip(j + 1));
                    assert(featsv.skip(j as int)[0] == featsv[j as int]);
                }
                let k = feats[j].0.clone();
                let v = clone_json(&feats[j].1);
                obj_set(&mut target, k, v);
                j = j + 1;
            }
            proof {
                assert(featsv.skip(featsv.len() as int) =~= Seq::<(Seq<char>, JsonVal)>::empty());
            }
            target
        },
        _ => clone_fields(feats),
    };
    let mut out = fields;
    obj_set(&mut out, "features".to_owned(), JsonValue::Obj(target));
    JsonValue::Obj(out)
}

/// The one option of the synthetic start point: a string option with a
/// default of `jammy` and four proposed image variants.
pub open spec fn spec_start_option() -> DevOptionV {
    DevOptionV::String(
        crate::registry::StringDevOptionV::Proposals {
            default: Some("jammy"@),
            description: None,
            proposals: Some(seq!["bookworm"@, "bullseye"@, "jammy"@, "focal"@]),
        },
    )
}

/// The synthetic template's configuration.
pub open spec fn spec_start_template() -> TemplateV {
    TemplateV {
        id: "tyedev-base-template"@,
        version: "1.0.0"@,
        name: "Base Template (tyedev)"@,
        description: None,
        documentation_url: None,
        license_url: None,
        options: Some(seq![("imageVariant"@, spec_start_option())]),
        platforms: None,
        publisher: None,
        keywords: None,
        template_type: Some(TemplateType::Image),
        file_count: Some(2),
        feature_ids: None,
        owner: "CodeMan99"@,
    }
}

/// The synthetic `devcontainer-template.json` document.
pub open spec fn spec_start_template_doc() -> JsonVal {
    JsonVal::Obj(
        seq![
            ("id"@, JsonVal::Str("tyedev-base-template"@)),
            ("version"@, JsonVal::Str("1.0.0"@)),
            ("name"@, JsonVal::Str("Base Template (tyedev)"@)),
            (
                "options"@,
                JsonVal::Obj(
                    seq![
                        (
                            "imageVariant"@,
                            JsonVal::Obj(
                                seq![
                                    ("type"@, JsonVal::Str("string"@)),
                                    ("default"@, JsonVal::Str("jammy"@)),
                                    (
                                        "proposals"@,
                                        JsonVal::Arr(
                                            seq![
                                                JsonVal::Str("bookworm"@),
                                                JsonVal::Str("bullseye"@),
                                                JsonVal::Str("jammy"@),
                                                JsonVal::Str("focal"@),
                                            ],
                                        ),
                                    ),
                                ],
                            ),
                        ),
                    ],
                ),
            ),
            ("type"@, JsonVal::Str("image"@)),
            ("fileCount"@, JsonVal::Num("2"@)),
            ("owner"@, JsonVal::Str("CodeMan99"@)),
        ],
    )
}

/// The synthetic configuration file's body: a minimal image-based
/// configuration with one placeholder.
pub open spec fn spec_start_devcontainer_bytes() -> Seq<u8> {
    encode_utf8(
        "{\n\t\"name\": \"tyedev default\",\n\t\"image\": \"mcr.microsoft.com/devcontainers/base:${templateOption:imageVariant}\"\n}\n"@,
    )
}

/// The synthetic archive, byte for byte: one directory entry, the
/// configuration file, the template manifest, and the two terminating zero
/// blocks.
pub open spec fn spec_empty_start_archive(mtime: int) -> Seq<u8> {
    let content1 = spec_start_devcontainer_bytes();
    let content2 = crate::json::spec_json_bytes(spec_start_template_doc(), Seq::empty());
    spec_tar_header(encode_utf8(".devcontainer/"@), 0o775, 1000, 1000, 0, mtime, 0x35)
        + spec_tar_header(
        encode_utf8(".devcontainer/devcontainer.json"@),
        0o664,
        1000,
        1000,
        content1.len() as int,
        mtime,
        0x30,
    ) + spec_padded(content1) + spec_tar_header(
        encode_utf8("devcontainer-template.json"@),
        0o664,
        1000,
        1000,
        content2.len() as int,
        mtime,
        0x30,
    ) + spec_padded(content2) + spec_zeros(1024)
}

impl TemplateBuilder {
    /// A start point synthesized in memory when no existing template is
    /// chosen: a byte-valid archive that walks through the same decode path
    /// as a registry-sourced one, already paired with its configuration.
    #[verifier::loop_isolation(false)]
    #[verifier::rlimit(60)]
    pub fn create_empty_start_point(mtime: u64) -> (r: TemplateBuilder)
        ensures
            spec_config_view(r.config) == Some(spec_start_template()),
            r.context@ == Seq::<(Seq<u8>, Seq<u8>)>::empty(),
            r.features@ == Seq::<(Seq<char>, JsonVal)>::empty(),
            r.archive_bytes@ == spec_empty_start_archive(mtime as int),
    {
        proof {
            reveal_strlit(".devcontainer/");
            reveal_strlit(".devcontainer/devcontainer.json");
            reveal_strlit("devcontainer-template.json");
            assert(vstd::utf8::is_ascii_chars(".devcontainer/"@));
            assert(vstd::utf8::is_ascii_chars(".devcontainer/devcontainer.json"@));
            assert(vstd::utf8::is_ascii_chars("devcontainer-template.json"@));
            vstd::utf8::is_ascii_chars_encode_utf8(".devcontainer/"@);
            vstd::utf8::is_ascii_chars_encode_utf8(".devcontainer/devcontainer.json"@);
            vstd::utf8::is_ascii_chars_encode_utf8("devcontainer-template.json"@);
        }
        let mut bytes: Vec<u8> = Vec::new();
        crate::tarball::push_tar_header(
            &mut bytes,
            ".devcontainer/".as_bytes(),
            0o775,
            1000,
            1000,
            0,
            mtime,
            0x35,
        );
        let content1 =
            "{\n\t\"name\": \"tyedev default\",\n\t\"image\": \"mcr.microsoft.com/devcontainers/base:${templateOption:imageVariant}\"\n}\n".as_bytes_vec();
        crate::tarball::push_tar_header(
            &mut bytes,
            ".devcontainer/devcontainer.json".as_bytes(),
            0o664,
            1000,
            1000,
            content1.len() as u64,
            mtime,
            0x30,
        );
        crate::json::push_bytes(&mut bytes, content1.as_slice());
        crate::tarball::push_zeros(&mut bytes, (512 - content1.len() % 512) % 512);
        let config_doc = start_template_doc();
        let content2 = to_json_bytes_with_tabs(&config_doc);
        crate::tarball::push_tar_header(
            &mut bytes,
            "devcontainer-template.json".as_bytes(),
            0o664,
            1000,
            1000,
            content2.len() as u64,
            mtime,
            0x30,
        );
        crate::json::push_bytes(&mut bytes, content2.as_slice());
        crate::tarball::push_zeros(&mut bytes, (512 - content2.len() % 512) % 512);
        crate::tarball::push_zeros(&mut bytes, 1024);
        proof {
            assert(bytes@ =~= spec_empty_start_archive(mtime as int));
        }
        let config = start_template_config();
        TemplateBuilder {
            config: Some(config),
            context: TemplateContext::new(),
            features: FeatureEntryBuilder::new(),
            archive_bytes: bytes,
        }
    }
}

/// The synthetic template manifest as a document.
fn start_template_doc() -> (r: JsonValue)
    ensures
        r@ == spec_start_template_doc(),
{
    let mut items: Vec<JsonValue> = Vec::new();
    items.push(JsonValue::Str("bookworm".to_owned()));
    items.push(JsonValue::Str("bullseye".to_owned()));
    items.push(JsonValue::Str("jammy".to_owned()));
    items.push(JsonValue::Str("focal".to_owned()));
    let ghost itemsv = items@;
    let proposals = JsonValue::Arr(items);
    proof {
        crate::json::lemma_arr_view_elems(itemsv);
        assert(crate::json::arr_view(itemsv) =~= seq![
            JsonVal::Str("bookworm"@),
            JsonVal::Str("bullseye"@),
            JsonVal::Str("jammy"@),
            JsonVal::Str("focal"@),
        ]);
    }
    let ghost proposalsv = proposals@;
    let mut vfields: Vec<(String, JsonValue)> = Vec::new();
    vfields.push(("type".to_owned(), JsonValue::Str("string".to_owned())));
    vfields.push(("default".to_owned(), JsonValue::Str("jammy".to_owned())));
    vfields.push(("proposals".to_owned(), proposals));
    let ghost vfieldsv = vfields@;
    let variant = JsonValue::Obj(vfields);
    proof {
        crate::json::lemma_fields_view_elems(vfieldsv);
        assert(fields_view(vfieldsv) =~= seq![
            ("type"@, JsonVal::Str("string"@)),
            ("default"@, JsonVal::Str("jammy"@)),
            ("proposals"@, proposalsv),
        ]);
    }
    let ghost variantv = variant@;
    let mut ofields: Vec<(String, JsonValue)> = Vec::new();
    ofields.push(("imageVariant".to_owned(), variant));
    let ghost ofieldsv = ofields@;
    let options = JsonValue::Obj(ofields);
    proof {
        crate::json::lemma_fields_view_elems(ofieldsv);
        assert(fields_view(ofieldsv) =~= seq![("imageVariant"@, variantv)]);
    }
    let ghost optionsv = options@;
    let mut dfields: Vec<(String, JsonValue)> = Vec::new();
    dfields.push(("id".to_owned(), JsonValue::Str("tyedev-base-template".to_owned())));
    dfields.push(("version".to_owned(), JsonValue::Str("1.0.0".to_owned())));
    dfields.push(("name".to_owned(), JsonValue::Str("Base Template (tyedev)".to_owned())));
    dfields.push(("options".to_owned(), options));
    dfields.push(("type".to_owned(), JsonValue::Str("image".to_owned())));
    dfields.push(("fileCount".to_owned(), JsonValue::Num("2".to_owned())));
    dfields.push(("owner".to_owned(), JsonValue::Str("CodeMan99".to_owned())));
    let ghost dfieldsv = dfields@;
    let doc = JsonValue::Obj(dfields);
    proof {
        crate::json::lemma_fields_view_elems(dfieldsv);
        assert(fields_view(dfieldsv) =~= seq![
            ("id"@, JsonVal::Str("tyedev-base-template"@)),
            ("version"@, JsonVal::Str("1.0.0"@)),
            ("name"@, JsonVal::Str("Base Template (tyedev)"@)),
            ("options"@, optionsv),
            ("type"@, JsonVal::Str("image"@)),
            ("fileCount"@, JsonVal::Num("2"@)),
            ("owner"@, JsonVal::Str("CodeMan99"@)),
        ]);
        assert(doc@ == spec_start_template_doc());
    }
    doc
}

/// The synthetic template's configuration as the typed model.
fn start_template_config() -> (r: Template)
    ensures
        r@ == spec_start_template(),
{
    let option = DevOption::String(
        crate::registry::StringDevOption::Proposals {
            default: Some("jammy".to_owned()),
            description: None,
            proposals: Some(
                vec![
                    "bookworm".to_owned(),
                    "bullseye".to_owned(),
                    "jammy".to_owned(),
                    "focal".to_owned(),
                ],
            ),
        },
    );
    let r = Template {
        id: "tyedev-base-template".to_owned(),
        version: "1.0.0".to_owned(),
        name: "Base Template (tyedev)".to_owned(),
        description: None,
        documentation_url: None,
        license_url: None,
        options: Some(vec![("imageVariant".to_owned(), option)]),
        platforms: None,
        publisher: None,
        keywords: None,
        template_type: Some(TemplateType::Image),
        file_count: Some(2),
        feature_ids: None,
        owner: "CodeMan99".to_owned(),
    };
    proof {
        assert(r@ =~~= spec_start_template());
    }
    r
}

/// A copy of an object's fields with the same views.
#[verifier::loop_isolation(false)]
fn clone_fields(fields: &Vec<(String, JsonValue)>) -> (r: Vec<(String, JsonValue)>)
    ensures
        fields_view(r@) == fields_view(fields@),
{
    let mut out: Vec<(String, JsonValue)> = Vec::new();
    let mut i: usize = 0;
    while i < fields.len()
        invariant
            i <= fields@.len(),
            out@.len() == i,
            forall|j: int|
                0 <= j < i ==> (#[trigger] out@[j]).0@ == fields@[j].0@ && out@[j].1@
                    == fields@[j].1@,
        decreases fields@.len() - i,
    {
        let k = fields[i].0.clone();
        let v = clone_json(&fields[i].1);
        out.push((k, v));
        i = i + 1;
    }
    proof {
        crate::json::lemma_fields_view_elems(out@);
        crate::json::lemma_fields_view_elems(fields@);
        assert(fields_view(out@) =~= fields_view(fields@));
    }
    out
}

} // verus!
