//! Byte-level placeholder substitution: `${templateOption:` , optional
//! whitespace, a word, optional whitespace, `}` is replaced by the resolved
//! value of that option, or by nothing — with a warning signal — when the
//! name has no value. Input need not be valid UTF-8. The word and
//! whitespace classes are the ASCII ones: option names are ASCII
//! identifiers, so a byte outside ASCII simply ends no placeholder and
//! passes through.

use vstd::prelude::*;
use vstd::string::StrSliceExecFns;

use crate::json::{bytes_eq, push_bytes};

verus! {

/// The resolved option values of one invocation, keyed by option name;
/// both sides are held as UTF-8 bytes.
#[derive(Debug)]
pub struct TemplateContext {
    entries: Vec<(Vec<u8>, Vec<u8>)>,
}

impl View for TemplateContext {
    type V = Seq<(Seq<u8>, Seq<u8>)>;

    closed spec fn view(&self) -> Seq<(Seq<u8>, Seq<u8>)> {
        Seq::new(self.entries@.len(), |i: int| (self.entries@[i].0@, self.entries@[i].1@))
    }
}

/// Value of the first entry with the given name, if any.
pub open spec fn spec_ctx_lookup(ctx: Seq<(Seq<u8>, Seq<u8>)>, name: Seq<u8>) -> Option<Seq<u8>>
    decreases ctx.len(),
{
    if ctx.len() == 0 {
        None
    } else if ctx[0].0 == name {
        Some(ctx[0].1)
    } else {
        spec_ctx_lookup(ctx.drop_first(), name)
    }
}

/// The context with the first entry named `name` replaced, or a new entry
/// appended when the name is absent.
pub open spec fn spec_ctx_set(
    ctx: Seq<(Seq<u8>, Seq<u8>)>,
    name: Seq<u8>,
    value: Seq<u8>,
) -> Seq<(Seq<u8>, Seq<u8>)>
    decreases ctx.len(),
{
    if ctx.len() == 0 {
        seq![(name, value)]
    } else if ctx[0].0 == name {
        seq![(name, value)] + ctx.drop_first()
    } else {
        seq![ctx[0]] + spec_ctx_set(ctx.drop_first(), name, value)
    }
}

proof fn lemma_ctx_set_at(ctx: Seq<(Seq<u8>, Seq<u8>)>, name: Seq<u8>, value: Seq<u8>, i: int)
    requires
        0 <= i < ctx.len(),
        ctx[i].0 == name,
        forall|j: int| 0 <= j < i ==> ctx[j].0 != name,
    ensures
        spec_ctx_set(ctx, name, value) =~= ctx.update(i, (name, value)),
    decreases i,
{
    if i == 0 {
    } else {
        lemma_ctx_set_at(ctx.drop_first(), name, value, i - 1);
        assert(ctx.drop_first().update(i - 1, (name, value)) =~= ctx.update(
            i,
            (name, value),
        ).drop_first());
    }
}

proof fn lemma_ctx_set_missing(ctx: Seq<(Seq<u8>, Seq<u8>)>, name: Seq<u8>, value: Seq<u8>)
    requires
        forall|j: int| 0 <= j < ctx.len() ==> ctx[j].0 != name,
    ensures
        spec_ctx_set(ctx, name, value) =~= ctx.push((name, value)),
    decreases ctx.len(),
{
    if ctx.len() > 0 {
        lemma_ctx_set_missing(ctx.drop_first(), name, value);
        assert(ctx.drop_first().push((name, value)) =~= ctx.push((name, value)).drop_first());
    }
}

impl TemplateContext {
    pub fn new() -> (r: TemplateContext)
        ensures
            r@ == Seq::<(Seq<u8>, Seq<u8>)>::empty(),
    {
        let r = TemplateContext { entries: Vec::new() };
        assert(r@ =~= Seq::<(Seq<u8>, Seq<u8>)>::empty());
        r
    }

    pub fn clear(&mut self)
        ensures
            final(self)@ == Seq::<(Seq<u8>, Seq<u8>)>::empty(),
    {
        self.entries.clear();
        assert(self@ =~= Seq::<(Seq<u8>, Seq<u8>)>::empty());
    }

    /// Stores the value resolved for an option, replacing an earlier value
    /// of the same name.
    #[verifier::loop_isolation(false)]
    pub fn insert(&mut self, name: &str, value: &str)
        ensures
            final(self)@ == spec_ctx_set(
                old(self)@,
                vstd::utf8::encode_utf8(name@),
                vstd::utf8::encode_utf8(value@),
            ),
    {
        let nb = name.as_bytes_vec();
        let vb = value.as_bytes_vec();
        let ghost orig = self@;
        let ghost nv = nb@;
        let ghost vv = vb@;
        let mut i: usize = 0;
        while i < self.entries.len()
            invariant
                i <= orig.len(),
                orig == self@,
                orig.len() == self.entries@.len(),
                nb@ == nv,
                vb@ == vv,
                forall|j: int| 0 <= j < i ==> orig[j].0 != nv,
            decreases self.entries@.len() - i,
        {
            if bytes_eq(self.entries[i].0.as_slice(), nb.as_slice()) {
                assert(orig[i as int].0 == nv);
                self.entries.set(i, (nb, vb));
                proof {
                    lemma_ctx_set_at(orig, nv, vv, i as int);
                    assert(self@ =~= orig.update(i as int, (nv, vv)));
                }
                return ;
            }
            i = i + 1;
        }
        self.entries.push((nb, vb));
        proof {
            lemma_ctx_set_missing(orig, nv, vv);
            assert(self@ =~= orig.push((nv, vv)));
        }
    }

    /// The stored value of the given name, if any.
    #[verifier::loop_isolation(false)]
    pub fn get<'a>(&'a self, name: &[u8]) -> (r: Option<&'a Vec<u8>>)
        ensures
            match r {
                Some(v) => spec_ctx_lookup(self@, name@) == Some(v@),
                None => spec_ctx_lookup(self@, name@) is None,
            },
    {
        let ghost cv = self@;
        assert(cv.skip(0) =~= cv);
        let mut i: usize = 0;
        while i < self.entries.len()
            invariant
                i <= cv.len(),
                cv == self@,
                cv.len() == self.entries@.len(),
                spec_ctx_lookup(cv, name@) == spec_ctx_lookup(cv.skip(i as int), name@),
            decreases self.entries@.len() - i,
        {
            assert(cv.skip(i as int).drop_first() =~= cv.skip(i + 1));
            assert(cv.skip(i as int)[0] == cv[i as int]);
            if bytes_eq(self.entries[i].0.as_slice(), name) {
                return Some(&self.entries[i].1);
            }
            i = i + 1;
        }
        None
    }

    pub fn len(&self) -> (r: usize)
        ensures
            r == self@.len(),
    {
        self.entries.len()
    }
}

/// The whitespace class the placeholder grammar admits around the name:
/// the ASCII whitespace bytes.
pub open spec fn spec_is_ws(b: u8) -> bool {
    b == 0x20 || b == 0x09 || b == 0x0a || b == 0x0d || b == 0x0c || b == 0x0b
}

/// A word byte of a placeholder name: an ASCII letter, digit or
/// underscore.
pub open spec fn spec_is_word(b: u8) -> bool {
    (0x30 <= b <= 0x39) || (0x41 <= b <= 0x5a) || (0x61 <= b <= 0x7a) || b == 0x5f
}

/// Byte `j` of the opening delimiter `${templateOption:`.
pub open spec fn spec_pat_byte(j: int) -> u8 {
    if j == 0 {
        0x24u8
    } else if j == 1 {
        0x7bu8
    } else if j == 2 {
        0x74u8
    } else if j == 3 {
        0x65u8
    } else if j == 4 {
        0x6du8
    } else if j == 5 {
        0x70u8
    } else if j == 6 {
        0x6cu8
    } else if j == 7 {
        0x61u8
    } else if j == 8 {
        0x74u8
    } else if j == 9 {
        0x65u8
    } else if j == 10 {
        0x4fu8
    } else if j == 11 {
        0x70u8
    } else if j == 12 {
        0x74u8
    } else if j == 13 {
        0x69u8
    } else if j == 14 {
        0x6fu8
    } else if j == 15 {
        0x6eu8
    } else {
        0x3au8
    }
}

/// Length of the opening delimiter.
pub open spec fn pat_len() -> int {
    17
}

/// First position at or after `i` that does not hold whitespace.
pub open spec fn spec_skip_ws(s: Seq<u8>, i: int) -> int
    decreases s.len() - i,
{
    if 0 <= i < s.len() && spec_is_ws(s[i]) {
        spec_skip_ws(s, i + 1)
    } else {
        i
    }
}

/// First position at or after `i` that does not hold a word byte.
pub open spec fn spec_word_end(s: Seq<u8>, i: int) -> int
    decreases s.len() - i,
{
    if 0 <= i < s.len() && spec_is_word(s[i]) {
        spec_word_end(s, i + 1)
    } else {
        i
    }
}

pub proof fn lemma_scan_bounds(s: Seq<u8>, i: int)
    requires
        0 <= i <= s.len(),
    ensures
        i <= spec_skip_ws(s, i) <= s.len(),
        i <= spec_word_end(s, i) <= s.len(),
    decreases s.len() - i,
{
    if i < s.len() {
        lemma_scan_bounds(s, i + 1);
    }
}

/// The placeholder that starts at position `i`, as its name and the position
/// just past the closing brace — if the grammar matches there.
pub open spec fn spec_placeholder_at(s: Seq<u8>, i: int) -> Option<(Seq<u8>, int)> {
    if 0 <= i && i + pat_len() <= s.len() && (forall|j: int|
        0 <= j < pat_len() ==> s[i + j] == spec_pat_byte(j)) {
        let a = i + pat_len();
        let nstart = spec_skip_ws(s, a);
        let nend = spec_word_end(s, nstart);
        if nend > nstart {
            let m = spec_skip_ws(s, nend);
            if m < s.len() && s[m] == 0x7du8 {
                Some((s.subrange(nstart, nend), m + 1))
            } else {
                None
            }
        } else {
            None
        }
    } else {
        None
    }
}

pub proof fn lemma_placeholder_end(s: Seq<u8>, i: int)
    requires
        0 <= i <= s.len(),
        spec_placeholder_at(s, i) is Some,
    ensures
        i < spec_placeholder_at(s, i).unwrap().1 <= s.len(),
{
    lemma_scan_bounds(s, i + pat_len());
    let nstart = spec_skip_ws(s, i + pat_len());
    lemma_scan_bounds(s, nstart);
    let nend = spec_word_end(s, nstart);
    lemma_scan_bounds(s, nend);
}

/// The substituted output from position `i` on, together with the names that
/// had no value, in order of appearance.
pub open spec fn spec_substitute(s: Seq<u8>, ctx: Seq<(Seq<u8>, Seq<u8>)>, i: int) -> (
    Seq<u8>,
    Seq<Seq<u8>>,
)
    decreases s.len() - i,
    via spec_substitute_decreases
{
    if !(0 <= i < s.len()) {
        (Seq::empty(), Seq::empty())
    } else {
        match spec_placeholder_at(s, i) {
            Some((name, end)) => {
                let rest = spec_substitute(s, ctx, end);
                match spec_ctx_lookup(ctx, name) {
                    Some(v) => (v + rest.0, rest.1),
                    None => (rest.0, seq![name] + rest.1),
                }
            },
            None => {
                let rest = spec_substitute(s, ctx, i + 1);
                (seq![s[i]] + rest.0, rest.1)
            },
        }
    }
}

#[via_fn]
proof fn spec_substitute_decreases(s: Seq<u8>, ctx: Seq<(Seq<u8>, Seq<u8>)>, i: int) {
    if 0 <= i < s.len() && spec_placeholder_at(s, i) is Some {
        lemma_placeholder_end(s, i);
    }
}

fn pat_byte(j: usize) -> (r: u8)
    requires
        j < 17,
    ensures
        r == spec_pat_byte(j as int),
{
    if j == 0 {
        0x24
    } else if j == 1 {
        0x7b
    } else if j == 2 {
        0x74
    } else if j == 3 {
        0x65
    } else if j == 4 {
        0x6d
    } else if j == 5 {
        0x70
    } else if j == 6 {
        0x6c
    } else if j == 7 {
        0x61
    } else if j == 8 {
        0x74
    } else if j == 9 {
        0x65
    } else if j == 10 {
        0x4f
    } else if j == 11 {
        0x70
    } else if j == 12 {
        0x74
    } else if j == 13 {
        0x69
    } else if j == 14 {
        0x6f
    } else if j == 15 {
        0x6e
    } else {
        0x3a
    }
}

fn is_ws(b: u8) -> (r: bool)
    ensures
        r == spec_is_ws(b),
{
    b == 0x20 || b == 0x09 || b == 0x0a || b == 0x0d || b == 0x0c || b == 0x0b
}

fn is_word(b: u8) -> (r: bool)
    ensures
        r == spec_is_word(b),
{
    (0x30 <= b && b <= 0x39) || (0x41 <= b && b <= 0x5a) || (0x61 <= b && b <= 0x7a) || b == 0x5f
}

#[verifier::loop_isolation(false)]
fn skip_ws(s: &Vec<u8>, i: usize) -> (r: usize)
    requires
        i <= s@.len(),
    ensures
        r == spec_skip_ws(s@, i as int),
        i <= r <= s@.len(),
{
    let mut k = i;
    while k < s.len() && is_ws(s[k])
        invariant
            i <= k <= s@.len(),
            spec_skip_ws(s@, i as int) == spec_skip_ws(s@, k as int),
        decreases s@.len() - k,
    {
        k = k + 1;
    }
    k
}

#[verifier::loop_isolation(false)]
fn word_end(s: &Vec<u8>, i: usize) -> (r: usize)
    requires
        i <= s@.len(),
    ensures
        r == spec_word_end(s@, i as int),
        i <= r <= s@.len(),
{
    let mut k = i;
    while k < s.len() && is_word(s[k])
        invariant
            i <= k <= s@.len(),
            spec_word_end(s@, i as int) == spec_word_end(s@, k as int),
        decreases s@.len() - k,
    {
        k = k + 1;
    }
    k
}

/// The name's start and end and the position past the closing brace, when a
/// placeholder starts at `i`.
#[verifier::loop_isolation(false)]
fn placeholder_at(s: &Vec<u8>, i: usize) -> (r: Option<(usize, usize, usize)>)
    requires
        i < s@.len(),
    ensures
        match r {
            Some((nstart, nend, end)) => spec_placeholder_at(s@, i as int) == Some(
                (s@.subrange(nstart as int, nend as int), end as int),
            ) && i < end <= s@.len() && nstart <= nend <= s@.len(),
            None => spec_placeholder_at(s@, i as int) is None,
        },
{
    if s.len() - i < 17 {
        assert(spec_placeholder_at(s@, i as int) is None) by {
            if i + pat_len() <= s@.len() {
                assert(false);
            }
        }
        return None;
    }
    let mut j: usize = 0;
    while j < 17
        invariant
            j <= 17,
            i + 17 <= s@.len(),
            forall|t: int| 0 <= t < j ==> s@[i + t] == spec_pat_byte(t),
        decreases 17 - j,
    {
        if s[i + j] != pat_byte(j) {
            assert(spec_placeholder_at(s@, i as int) is None);
            return None;
        }
        j = j + 1;
    }
    let nstart = skip_ws(s, i + 17);
    let nend = word_end(s, nstart);
    if nend == nstart {
        return None;
    }
    let m = skip_ws(s, nend);
    if m < s.len() && s[m] == 0x7d {
        Some((nstart, nend, m + 1))
    } else {
        None
    }
}

/// A copy of `s[a .. b]`.
#[verifier::loop_isolation(false)]
pub fn copy_range(s: &Vec<u8>, a: usize, b: usize) -> (r: Vec<u8>)
    requires
        a <= b <= s@.len(),
    ensures
        r@ == s@.subrange(a as int, b as int),
{
    let mut out: Vec<u8> = Vec::new();
    let mut k = a;
    while k < b
        invariant
            a <= k <= b,
            out@ == s@.subrange(a as int, k as int),
        decreases b - k,
    {
        out.push(s[k]);
        assert(out@ =~= s@.subrange(a as int, k + 1));
        k = k + 1;
    }
    out
}

proof fn lemma_substitute_copies_from(s: Seq<u8>, ctx: Seq<(Seq<u8>, Seq<u8>)>, i: int)
    requires
        0 <= i <= s.len(),
        forall|j: int| 0 <= j < s.len() ==> (#[trigger] spec_placeholder_at(s, j)) is None,
    ensures
        spec_substitute(s, ctx, i).0 == s.skip(i),
        spec_substitute(s, ctx, i).1 == Seq::<Seq<u8>>::empty(),
    decreases s.len() - i,
{
    if i < s.len() {
        lemma_substitute_copies_from(s, ctx, i + 1);
        assert(seq![s[i]] + s.skip(i + 1) =~= s.skip(i));
    } else {
        assert(s.skip(i) =~= Seq::<u8>::empty());
    }
}

/// Content without placeholders passes through substitution untouched, with
/// no warning: substitution changes nothing but the placeholders.
pub proof fn lemma_substitute_without_placeholders(s: Seq<u8>, ctx: Seq<(Seq<u8>, Seq<u8>)>)
    requires
        forall|j: int| 0 <= j < s.len() ==> (#[trigger] spec_placeholder_at(s, j)) is None,
    ensures
        spec_substitute(s, ctx, 0) == (s, Seq::<Seq<u8>>::empty()),
{
    lemma_substitute_copies_from(s, ctx, 0);
    assert(s.skip(0) =~= s);
}

/// Replaces every placeholder in `s` by its value from `ctx`; a name without
/// a value is replaced by nothing and reported in the second component, the
/// warning signal of the operation.
#[verifier::loop_isolation(false)]
pub fn substitute(s: &Vec<u8>, ctx: &TemplateContext) -> (r: (Vec<u8>, Vec<Vec<u8>>))
    ensures
        r.0@ == spec_substitute(s@, ctx@, 0).0,
        r.1.deep_view() == spec_substitute(s@, ctx@, 0).1,
{
    let mut out: Vec<u8> = Vec::new();
    let mut missing: Vec<Vec<u8>> = Vec::new();
    let mut i: usize = 0;
    proof {
        assert(out@ + spec_substitute(s@, ctx@, 0).0 =~= spec_substitute(s@, ctx@, 0).0);
        assert(missing.deep_view() + spec_substitute(s@, ctx@, 0).1 =~= spec_substitute(
            s@,
            ctx@,
            0,
        ).1);
    }
    while i < s.len()
        invariant
            i <= s@.len(),
            out@ + spec_substitute(s@, ctx@, i as int).0 == spec_substitute(s@, ctx@, 0).0,
            missing.deep_view() + spec_substitute(s@, ctx@, i as int).1 == spec_substitute(
                s@,
                ctx@,
                0,
            ).1,
        decreases s@.len() - i,
    {
        let ghost o0 = out@;
        let ghost m0 = missing.deep_view();
        match placeholder_at(s, i) {
            Some((nstart, nend, end)) => {
                let ghost name = s@.subrange(nstart as int, nend as int);
                let ghost rest = spec_substitute(s@, ctx@, end as int);
                let nb = copy_range(s, nstart, nend);
                match ctx.get(nb.as_slice()) {
                    Some(v) => {
                        push_bytes(&mut out, v.as_slice());
                        proof {
                            assert(spec_ctx_lookup(ctx@, name) == Some(v@));
                            assert(out@ =~= o0 + v@);
                            assert(o0 + (v@ + rest.0) =~= out@ + rest.0);
                        }
                    },
                    None => {
                        proof {
                            assert(nb.deep_view() =~= nb@);
                        }
                        missing.push(nb);
                        proof {
                            assert(spec_ctx_lookup(ctx@, name) is None);
                            assert(missing@.last().deep_view() =~= name);
                            assert(missing.deep_view() =~= m0.push(name));
                            assert(m0 + (seq![name] + rest.1) =~= missing.deep_view() + rest.1);
                        }
                    },
                }
                i = end;
            },
            None => {
                out.push(s[i]);
                proof {
                    let rest = spec_substitute(s@, ctx@, i + 1);
                    assert(out@ =~= o0 + seq![s@[i as int]]);
                    assert(o0 + (seq![s@[i as int]] + rest.0) =~= out@ + rest.0);
                }
                i = i + 1;
            },
        }
    }
    proof {
        assert(out@ + spec_substitute(s@, ctx@, i as int).0 =~= out@);
        assert(missing.deep_view() + spec_substitute(s@, ctx@, i as int).1 =~= missing.deep_view());
    }
    (out, missing)
}

} // verus!
