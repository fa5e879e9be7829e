//! Resolving one option to a value: the pieces of the prompt round that are
//! plain computation — the default the prompt starts from, the cursor into
//! an enumeration, and the suggestion list of a proposals option. The
//! rendering of prompts themselves is a collaborator outside the library.

use vstd::prelude::*;

use crate::init::PromptValueV;
use crate::json::str_eq;
use crate::registry::{bool_string, clone_strings, strings_view, DevOption};
use crate::textmatch::{lower_of, lowercase, spec_starts_with, starts_with};

verus! {

/// A value an option resolved to; the twin of the one the scaffolding
/// module consumes.
#[derive(Debug, Clone)]
pub enum DevOptionPromptValue {
    String(String),
    Boolean(bool),
}

impl View for DevOptionPromptValue {
    type V = PromptValueV;

    open spec fn view(&self) -> PromptValueV {
        match self {
            DevOptionPromptValue::String(s) => PromptValueV::Str(s@),
            DevOptionPromptValue::Boolean(b) => PromptValueV::Bool(*b),
        }
    }
}

impl DevOptionPromptValue {
    /// The value as the string it prints as.
    pub fn render(&self) -> (r: String)
        ensures
            r@ == crate::init::spec_render_prompt_value(self@),
    {
        match self {
            DevOptionPromptValue::String(s) => s.clone(),
            DevOptionPromptValue::Boolean(b) => bool_string(*b),
        }
    }
}

/// One option paired with its declared name, ready to be put to the
/// resolver.
#[derive(Debug, Clone)]
pub struct DevOptionPrompt {
    pub name: String,
    pub inner: DevOption,
}

impl DevOptionPrompt {
    pub fn new(name: &str, dev_option: &DevOption) -> (r: DevOptionPrompt)
        ensures
            r.name@ == name@,
            r.inner@ == dev_option@,
    {
        DevOptionPrompt { name: name.to_owned(), inner: dev_option.clone() }
    }
}

/// `"true"` and `"false"` read back as booleans; nothing else does.
pub open spec fn spec_parse_bool(s: Seq<char>) -> Option<bool> {
    if s == "true"@ {
        Some(true)
    } else if s == "false"@ {
        Some(false)
    } else {
        None
    }
}

/// Reads a boolean default, as `bool::from_str` would.
pub fn parse_bool_str(s: &str) -> (r: Option<bool>)
    ensures
        r == spec_parse_bool(s@),
{
    if str_eq(s, "true") {
        Some(true)
    } else if str_eq(s, "false") {
        Some(false)
    } else {
        None
    }
}

/// Whether a value occurs in a list.
pub open spec fn spec_contains_value(values: Seq<Seq<char>>, x: Seq<char>) -> bool {
    exists|i: int| 0 <= i < values.len() && values[i] == x
}

/// The position of the configured default among the enumeration's values,
/// or the first position when it is absent.
#[verifier::loop_isolation(false)]
pub fn enum_start_cursor(values: &Vec<String>, default: &str) -> (r: usize)
    ensures
        spec_contains_value(strings_view(values@), default@) ==> r < values@.len()
            && strings_view(values@)[r as int] == default@ && (forall|j: int|
            0 <= j < r ==> strings_view(values@)[j] != default@),
        !spec_contains_value(strings_view(values@), default@) ==> r == 0,
{
    let ghost vs = strings_view(values@);
    let mut i: usize = 0;
    while i < values.len()
        invariant
            i <= vs.len(),
            vs.len() == values@.len(),
            forall|j: int| 0 <= j < i ==> vs[j] != default@,
        decreases vs.len() - i,
    {
        if str_eq(values[i].as_str(), default) {
            assert(vs[i as int] == default@);
            assert(spec_contains_value(vs, default@));
            return i;
        }
        i = i + 1;
    }
    0
}

/// The suggestions a proposals option offers for the text typed so far: the
/// proposals whose lowercase form starts with the input's lowercase form.
pub open spec fn spec_suggestions(proposals: Seq<Seq<char>>, input: Seq<char>) -> Seq<Seq<char>>
    decreases proposals.len(),
{
    if proposals.len() == 0 {
        Seq::empty()
    } else {
        (if spec_starts_with(lower_of(proposals[0]), lower_of(input)) {
            seq![proposals[0]]
        } else {
            Seq::<Seq<char>>::empty()
        }) + spec_suggestions(proposals.drop_first(), input)
    }
}

/// The suggestion list of a proposals prompt: the configured default is
/// prepended when it is neither empty nor already among the proposals, so
/// that a stored default stays reachable.
pub open spec fn spec_autocomplete_values(
    values: Seq<Seq<char>>,
    default: Seq<char>,
) -> Seq<Seq<char>> {
    if default.len() == 0 || spec_contains_value(values, default) {
        values
    } else {
        seq![default] + values
    }
}

/// Completes free text against a proposals option.
#[derive(Debug, Clone)]
pub struct ProposalsAutocomplete {
    values: Vec<String>,
}

impl View for ProposalsAutocomplete {
    type V = Seq<Seq<char>>;

    closed spec fn view(&self) -> Seq<Seq<char>> {
        strings_view(self.values@)
    }
}

impl ProposalsAutocomplete {
    /// Holds the proposals, with the default made reachable.
    #[verifier::loop_isolation(false)]
    pub fn new(default_value: &String, values: &Vec<String>) -> (r: ProposalsAutocomplete)
        ensures
            r@ == spec_autocomplete_values(strings_view(values@), default_value@),
    {
        let ghost vs = strings_view(values@);
        if default_value.as_str().is_empty() || contains_string(values, default_value.as_str()) {
            let r = ProposalsAutocomplete { values: clone_strings(values) };
            return r;
        }
        let mut all_values = clone_strings(values);
        all_values.insert(0, default_value.clone());
        let r = ProposalsAutocomplete { values: all_values };
        proof {
            assert(r@ =~= seq![default_value@] + vs);
        }
        r
    }

    /// The proposals whose lowercase form starts with the input's lowercase
    /// form.
    #[verifier::loop_isolation(false)]
    pub fn get_suggestions(&self, input: &str) -> (r: Vec<String>)
        ensures
            strings_view(r@) == spec_suggestions(self@, input@),
    {
        let input_lower = lowercase(input);
        let ghost ps = self@;
        let mut out: Vec<String> = Vec::new();
        proof {
            assert(ps.skip(0) =~= ps);
            assert(strings_view(out@) + spec_suggestions(ps, input@) =~= spec_suggestions(
                ps,
                input@,
            ));
        }
        let mut i: usize = 0;
        while i < self.values.len()
            invariant
                i <= ps.len(),
                ps.len() == self.values@.len(),
                forall|t: int| 0 <= t < ps.len() ==> ps[t] == #[trigger] self.values@[t]@,
                input_lower@ == lower_of(input@),
                spec_suggestions(ps, input@) == strings_view(out@) + spec_suggestions(
                    ps.skip(i as int),
                    input@,
                ),
            decreases ps.len() - i,
        {
            proof {
                assert(ps.skip(i as int).drop_first() =~= ps.skip(i + 1));
                assert(ps.skip(i as int)[0] == ps[i as int]);
            }
            let s_lower = lowercase(self.values[i].as_str());
            let ghost o0 = strings_view(out@);
            if starts_with(s_lower.as_str(), input_lower.as_str()) {
                out.push(self.values[i].clone());
                proof {
                    assert(strings_view(out@) =~= o0.push(ps[i as int]));
                    assert(o0 + (seq![ps[i as int]] + spec_suggestions(ps.skip(i + 1), input@))
                        =~= strings_view(out@) + spec_suggestions(ps.skip(i + 1), input@));
                }
            } else {
                proof {
                    assert(o0 + (Seq::<Seq<char>>::empty() + spec_suggestions(
                        ps.skip(i + 1),
                        input@,
                    )) =~= o0 + spec_suggestions(ps.skip(i + 1), input@));
                }
            }
            i = i + 1;
        }
        proof {
            assert(ps.skip(ps.len() as int) =~= Seq::<Seq<char>>::empty());
            assert(strings_view(out@) + spec_suggestions(ps.skip(ps.len() as int), input@)
                =~= strings_view(out@));
        }
        out
    }

    /// What the prompt completes to: the highlighted suggestion when there
    /// is one, else the single matching proposal when the match is unique.
    pub fn get_completion(&self, input: &str, highlighted_suggestion: Option<String>) -> (r:
        Option<String>)
        ensures
            match highlighted_suggestion {
                Some(h) => r == Some(h),
                None => {
                    let sug = spec_suggestions(self@, input@);
                    if sug.len() == 1 {
                        r matches Some(s) && s@ == sug[0]
                    } else {
                        r is None
                    }
                },
            },
    {
        match highlighted_suggestion {
            Some(h) => Some(h),
            None => {
                let suggestions = self.get_suggestions(input);
                if suggestions.len() == 1 {
                    let s = suggestions[0].clone();
                    assert(s@ == strings_view(suggestions@)[0]);
                    Some(s)
                } else {
                    None
                }
            },
        }
    }
}

/// Whether the list holds the given text.
#[verifier::loop_isolation(false)]
pub fn contains_string(values: &Vec<String>, x: &str) -> (r: bool)
    ensures
        r == spec_contains_value(strings_view(values@), x@),
{
    let ghost vs = strings_view(values@);
    let mut i: usize = 0;
    while i < values.len()
        invariant
            i <= vs.len(),
            vs.len() == values@.len(),
            forall|j: int| 0 <= j < i ==> vs[j] != x@,
        decreases vs.len() - i,
    {
        if str_eq(values[i].as_str(), x) {
            assert(vs[i as int] == x@);
            return true;
        }
        i = i + 1;
    }
    false
}

} // verus!
