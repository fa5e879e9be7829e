//! Text search over the catalog: case-insensitive matching of templates and
//! features on their id, name, description and keyword fields.

use vstd::prelude::*;

use crate::configuration::spec_contains_value;
use crate::registry::{
    clone_opt_string, clone_opt_strings, opt_strings_view, spec_iter_features,
    spec_iter_templates, DevcontainerIndex, Feature, FeatureV, Template, TemplateV,
};
use crate::textmatch::{lower_of, lowercase_contains, spec_contains_sub};

verus! {

/// Which section of the index a search walks, or a result came from.
#[derive(Debug, Clone, Copy, PartialEq, Eq, Structural)]
pub enum CollectionCategory {
    Templates,
    Features,
}

/// The fields a match may be sought in.
#[derive(Debug, Clone, Copy, PartialEq, Eq, Structural)]
pub enum SearchFields {
    Id,
    Name,
    Description,
    Keywords,
}

/// How search results are rendered; the rendering itself is outside the
/// library.
#[derive(Debug, Clone, Copy, PartialEq, Eq, Structural)]
pub enum SearchDisplay {
    Table,
    Json,
}

/// One search hit, shorn down to the fields the displays need.
#[derive(Debug, Clone)]
pub struct SearchResult {
    pub collection: CollectionCategory,
    pub id: String,
    pub version: String,
    pub name: String,
    pub description: Option<String>,
    pub keywords: Option<Vec<String>>,
}

#[verifier::ext_equal]
pub ghost struct SearchResultV {
    pub collection: CollectionCategory,
    pub id: Seq<char>,
    pub version: Seq<char>,
    pub name: Seq<char>,
    pub description: Option<Seq<char>>,
    pub keywords: Option<Seq<Seq<char>>>,
}

impl View for SearchResult {
    type V = SearchResultV;

    open spec fn view(&self) -> SearchResultV {
        SearchResultV {
            collection: self.collection,
            id: self.id@,
            version: self.version@,
            name: self.name@,
            description: crate::registry::opt_str_view(self.description),
            keywords: opt_strings_view(self.keywords),
        }
    }
}

/// The search-result shape of a feature.
pub open spec fn spec_feature_result(f: FeatureV) -> SearchResultV {
    SearchResultV {
        collection: CollectionCategory::Features,
        id: f.id,
        version: f.version,
        name: f.name,
        description: f.description,
        keywords: f.keywords,
    }
}

/// The search-result shape of a template.
pub open spec fn spec_template_result(t: TemplateV) -> SearchResultV {
    SearchResultV {
        collection: CollectionCategory::Templates,
        id: t.id,
        version: t.version,
        name: t.name,
        description: t.description,
        keywords: t.keywords,
    }
}

impl SearchResult {
    pub fn from_feature(f: &Feature) -> (r: SearchResult)
        ensures
            r@ == spec_feature_result(f@),
    {
        let r = SearchResult {
            collection: CollectionCategory::Features,
            id: f.id.clone(),
            version: f.version.clone(),
            name: f.name.clone(),
            description: clone_opt_string(&f.description),
            keywords: clone_opt_strings(&f.keywords),
        };
        assert(r@ =~= spec_feature_result(f@));
        r
    }

    pub fn from_template(t: &Template) -> (r: SearchResult)
        ensures
            r@ == spec_template_result(t@),
    {
        let r = SearchResult {
            collection: CollectionCategory::Templates,
            id: t.id.clone(),
            version: t.version.clone(),
            name: t.name.clone(),
            description: clone_opt_string(&t.description),
            keywords: clone_opt_strings(&t.keywords),
        };
        assert(r@ =~= spec_template_result(t@));
        r
    }
}

/// The arguments of a search invocation.
#[derive(Debug, Clone)]
pub struct SearchArgs {
    pub value: String,
    pub collection: CollectionCategory,
    pub display_as: SearchDisplay,
    pub fields: Option<Vec<SearchFields>>,
    pub include_deprecated: bool,
}

/// Whether a feature matches the text in the given field: id, name and
/// description match case-insensitively as substrings, keywords only by
/// exact membership.
pub open spec fn spec_feature_is_match(f: FeatureV, field: SearchFields, value: Seq<char>) -> bool {
    match field {
        SearchFields::Id => spec_contains_sub(lower_of(f.id), lower_of(value)),
        SearchFields::Name => spec_contains_sub(lower_of(f.name), lower_of(value)),
        SearchFields::Description => match f.description {
            Some(d) => spec_contains_sub(lower_of(d), lower_of(value)),
            None => false,
        },
        SearchFields::Keywords => match f.keywords {
            Some(ks) => spec_contains_value(ks, value),
            None => false,
        },
    }
}

/// Whether a template matches the text in the given field.
pub open spec fn spec_template_is_match(
    t: TemplateV,
    field: SearchFields,
    value: Seq<char>,
) -> bool {
    match field {
        SearchFields::Id => spec_contains_sub(lower_of(t.id), lower_of(value)),
        SearchFields::Name => spec_contains_sub(lower_of(t.name), lower_of(value)),
        SearchFields::Description => match t.description {
            Some(d) => spec_contains_sub(lower_of(d), lower_of(value)),
            None => false,
        },
        SearchFields::Keywords => match t.keywords {
            Some(ks) => spec_contains_value(ks, value),
            None => false,
        },
    }
}

/// What a searchable entry promises of its field matcher.
pub trait SearchMatcher {
    spec fn spec_is_match(&self, field: SearchFields, value: Seq<char>) -> bool;

    fn is_match(&self, field: &SearchFields, value: &str) -> (r: bool)
        ensures
            r == self.spec_is_match(*field, value@),
    ;
}

impl SearchMatcher for Feature {
    open spec fn spec_is_match(&self, field: SearchFields, value: Seq<char>) -> bool {
        spec_feature_is_match(self@, field, value)
    }

    fn is_match(&self, field: &SearchFields, value: &str) -> (r: bool) {
        match field {
            SearchFields::Id => lowercase_contains(value, self.id.as_str()),
            SearchFields::Name => lowercase_contains(value, self.name.as_str()),
            SearchFields::Description => match &self.description {
                Some(d) => lowercase_contains(value, d.as_str()),
                None => false,
            },
            SearchFields::Keywords => match &self.keywords {
                Some(ks) => crate::configuration::contains_string(ks, value),
                None => false,
            },
        }
    }
}

impl SearchMatcher for Template {
    open spec fn spec_is_match(&self, field: SearchFields, value: Seq<char>) -> bool {
        spec_template_is_match(self@, field, value)
    }

    fn is_match(&self, field: &SearchFields, value: &str) -> (r: bool) {
        match field {
            SearchFields::Id => lowercase_contains(value, self.id.as_str()),
            SearchFields::Name => lowercase_contains(value, self.name.as_str()),
            SearchFields::Description => match &self.description {
                Some(d) => lowercase_contains(value, d.as_str()),
                None => false,
            },
            SearchFields::Keywords => match &self.keywords {
                Some(ks) => crate::configuration::contains_string(ks, value),
                None => false,
            },
        }
    }
}

/// Whether the entry matches the text in any of the given fields.
#[verifier::loop_isolation(false)]
pub fn search_match<T: SearchMatcher>(value: &T, text: &str, search_fields: &[SearchFields]) -> (r:
    bool)
    ensures
        r == exists|i: int|
            0 <= i < search_fields@.len() && value.spec_is_match(
                #[trigger] search_fields@[i],
                text@,
            ),
{
    let mut i: usize = 0;
    while i < search_fields.len()
        invariant
            i <= search_fields@.len(),
            forall|j: int|
                0 <= j < i ==> !value.spec_is_match(#[trigger] search_fields@[j], text@),
        decreases search_fields@.len() - i,
    {
        if value.is_match(&search_fields[i], text) {
            return true;
        }
        i = i + 1;
    }
    false
}

/// Whether a feature view matches in any of the given fields.
pub open spec fn spec_feature_any_match(
    f: FeatureV,
    text: Seq<char>,
    fields: Seq<SearchFields>,
) -> bool {
    exists|i: int| 0 <= i < fields.len() && spec_feature_is_match(f, #[trigger] fields[i], text)
}

/// Whether a template view matches in any of the given fields.
pub open spec fn spec_template_any_match(
    t: TemplateV,
    text: Seq<char>,
    fields: Seq<SearchFields>,
) -> bool {
    exists|i: int| 0 <= i < fields.len() && spec_template_is_match(t, #[trigger] fields[i], text)
}

/// The features that match, as results, in catalog order.
pub open spec fn spec_search_features(
    fs: Seq<FeatureV>,
    text: Seq<char>,
    fields: Seq<SearchFields>,
) -> Seq<SearchResultV>
    decreases fs.len(),
{
    if fs.len() == 0 {
        Seq::empty()
    } else {
        (if spec_feature_any_match(fs[0], text, fields) {
            seq![spec_feature_result(fs[0])]
        } else {
            Seq::<SearchResultV>::empty()
        }) + spec_search_features(fs.drop_first(), text, fields)
    }
}

/// The templates that match, as results, in catalog order.
pub open spec fn spec_search_templates(
    ts: Seq<TemplateV>,
    text: Seq<char>,
    fields: Seq<SearchFields>,
) -> Seq<SearchResultV>
    decreases ts.len(),
{
    if ts.len() == 0 {
        Seq::empty()
    } else {
        (if spec_template_any_match(ts[0], text, fields) {
            seq![spec_template_result(ts[0])]
        } else {
            Seq::<SearchResultV>::empty()
        }) + spec_search_templates(ts.drop_first(), text, fields)
    }
}

/// The fields searched when none are named: id, name and description.
pub open spec fn spec_default_fields() -> Seq<SearchFields> {
    seq![SearchFields::Id, SearchFields::Name, SearchFields::Description]
}

pub open spec fn results_view(s: Seq<SearchResult>) -> Seq<SearchResultV> {
    Seq::new(s.len(), |i: int| s[i]@)
}

/// The hits of one search: the chosen section of the catalog, filtered by
/// the display filter, matched in the named fields — or in id, name and
/// description when none are named.
#[verifier::loop_isolation(false)]
#[verifier::rlimit(30)]
pub fn search_index(
    index: &DevcontainerIndex,
    collection: &CollectionCategory,
    text: &str,
    fields: &Option<Vec<SearchFields>>,
    include_deprecated: bool,
) -> (r: Vec<SearchResult>)
    ensures
        ({
            let fv = match fields {
                Some(fs) => fs@,
                None => spec_default_fields(),
            };
            match collection {
                CollectionCategory::Features => results_view(r@) == spec_search_features(
                    spec_iter_features(index@, include_deprecated),
                    text@,
                    fv,
                ),
                CollectionCategory::Templates => results_view(r@) == spec_search_templates(
                    spec_iter_templates(index@, include_deprecated),
                    text@,
                    fv,
                ),
            }
        }),
{
    let search_fields: Vec<SearchFields> = match fields {
        Some(fs) => {
            let mut c: Vec<SearchFields> = Vec::new();
            let mut k: usize = 0;
            while k < fs.len()
                invariant
                    k <= fs@.len(),
                    c@ == fs@.take(k as int),
                decreases fs@.len() - k,
            {
                c.push(fs[k]);
                assert(c@ =~= fs@.take(k + 1));
                k = k + 1;
            }
            assert(fs@.take(fs@.len() as int) =~= fs@);
            c
        },
        None => {
            let mut c: Vec<SearchFields> = Vec::new();
            c.push(SearchFields::Id);
            c.push(SearchFields::Name);
            c.push(SearchFields::Description);
            assert(c@ =~= spec_default_fields());
            c
        },
    };
    let ghost fv = search_fields@;
    let mut out: Vec<SearchResult> = Vec::new();
    match collection {
        CollectionCategory::Features => {
            let all = index.iter_features(include_deprecated);
            let ghost fsv = spec_iter_features(index@, include_deprecated);
            proof {
                assert(fsv.skip(0) =~= fsv);
                assert(results_view(out@) + spec_search_features(fsv, text@, fv)
                    =~= spec_search_features(fsv, text@, fv));
            }
            let mut i: usize = 0;
            while i < all.len()
                invariant
                    i <= fsv.len(),
                    fsv.len() == all@.len(),
                    forall|t: int| 0 <= t < fsv.len() ==> fsv[t] == #[trigger] all@[t]@,
                    spec_search_features(fsv, text@, fv) == results_view(out@)
                        + spec_search_features(fsv.skip(i as int), text@, fv),
                decreases fsv.len() - i,
            {
                proof {
                    assert(fsv.skip(i as int).drop_first() =~= fsv.skip(i + 1));
                    assert(fsv.skip(i as int)[0] == fsv[i as int]);
                }
                let ghost o0 = results_view(out@);
                if search_match(all[i], text, search_fields.as_slice()) {
                    out.push(SearchResult::from_feature(all[i]));
                    proof {
                        assert(results_view(out@) =~= o0.push(spec_feature_result(fsv[i as int])));
                        assert(o0 + (seq![spec_feature_result(fsv[i as int])]
                            + spec_search_features(fsv.skip(i + 1), text@, fv)) =~= results_view(
                            out@,
                        ) + spec_search_features(fsv.skip(i + 1), text@, fv));
                    }
                } else {
                    proof {
                        assert(o0 + (Seq::<SearchResultV>::empty() + spec_search_features(
                            fsv.skip(i + 1),
                            text@,
                            fv,
                        )) =~= o0 + spec_search_features(fsv.skip(i + 1), text@, fv));
                    }
                }
                i = i + 1;
            }
            proof {
                assert(fsv.skip(fsv.len() as int) =~= Seq::<FeatureV>::empty());
                assert(results_view(out@) + spec_search_features(
                    fsv.skip(fsv.len() as int),
                    text@,
                    fv,
                ) =~= results_view(out@));
            }
        },
        CollectionCategory::Templates => {
            let all = index.iter_templates(include_deprecated);
            let ghost tsv = spec_iter_templates(index@, include_deprecated);
            proof {
                assert(tsv.skip(0) =~= tsv);
                assert(results_view(out@) + spec_search_templates(tsv, text@, fv)
                    =~= spec_search_templates(tsv, text@, fv));
            }
            let mut i: usize = 0;
            while i < all.len()
                invariant
                    i <= tsv.len(),
                    tsv.len() == all@.len(),
                    forall|t: int| 0 <= t < tsv.len() ==> tsv[t] == #[trigger] all@[t]@,
                    spec_search_templates(tsv, text@, fv) == results_view(out@)
                        + spec_search_templates(tsv.skip(i as int), text@, fv),
                decreases tsv.len() - i,
            {
                proof {
                    assert(tsv.skip(i as int).drop_first() =~= tsv.skip(i + 1));
                    assert(tsv.skip(i as int)[0] == tsv[i as int]);
                }
                let ghost o0 = results_view(out@);
                if search_match(all[i], text, search_fields.as_slice()) {
                    out.push(SearchResult::from_template(all[i]));
                    proof {
                        assert(results_view(out@) =~= o0.push(
                            spec_template_result(tsv[i as int]),
                        ));
                        assert(o0 + (seq![spec_template_result(tsv[i as int])]
                            + spec_search_templates(tsv.skip(i + 1), text@, fv)) =~= results_view(
                            out@,
                        ) + spec_search_templates(tsv.skip(i + 1), text@, fv));
                    }
                } else {
                    proof {
                        assert(o0 + (Seq::<SearchResultV>::empty() + spec_search_templates(
                            tsv.skip(i + 1),
                            text@,
                            fv,
                        )) =~= o0 + spec_search_templates(tsv.skip(i + 1), text@, fv));
                    }
                }
                i = i + 1;
            }
            proof {
                assert(tsv.skip(tsv.len() as int) =~= Seq::<TemplateV>::empty());
                assert(results_view(out@) + spec_search_templates(
                    tsv.skip(tsv.len() as int),
                    text@,
                    fv,
                ) =~= results_view(out@));
            }
        },
    }
    out
}

} // verus!
