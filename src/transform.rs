//! The transformer pipeline: text transforms applied in order to an
//! extracted value.
use vstd::prelude::*;
use vstd::string::*;

use crate::config::Transformer;
use crate::text::chars_of;

verus! {

#[verifier::external_type_specification]
#[verifier::external_body]
pub struct ExRegex(regex::Regex);

#[verifier::external_type_specification]
#[verifier::external_body]
pub struct ExRegexError(regex::Error);

/// Whether `regex::Regex::new` accepts a pattern.
pub uninterp spec fn regex_compiles(pattern: Seq<char>) -> bool;

/// The capture groups (group 0 being the whole match) of the first match of a
/// pattern in a text, as `regex::Regex::captures` finds them; `None` when the
/// pattern does not match.
pub uninterp spec fn regex_captures(pattern: Seq<char>, haystack: Seq<char>) -> Option<
    Seq<Option<Seq<char>>>,
>;

#[derive(Clone, Copy, Debug, PartialEq, Eq)]
pub enum TransformError {
    /// The pattern of a regex transform does not compile.
    InvalidPattern,
    /// The pattern of a regex transform does not match the value.
    NoMatch,
}

/// A compiled regular expression, with the pattern it was compiled from.
pub struct Pattern {
    re: regex::Regex,
    source: Ghost<Seq<char>>,
}

impl Pattern {
    pub closed spec fn source(&self) -> Seq<char> {
        self.source@
    }
}

/// Relies on `regex::Regex::new`: it compiles a pattern, and whether it
/// succeeds depends on the pattern alone.
#[verifier::external_body]
fn compile_regex(pattern: &str) -> (r: Result<Pattern, regex::Error>)
    ensures
        r is Ok == regex_compiles(pattern@),
        r matches Ok(p) ==> p.source() == pattern@,
{
    match regex::Regex::new(pattern) {
        Ok(re) => Ok(Pattern { re, source: Ghost(pattern@) }),
        Err(e) => Err(e),
    }
}

pub open spec fn groups_view(gs: Seq<Option<String>>) -> Seq<Option<Seq<char>>> {
    gs.map_values(
        |g: Option<String>|
            match g {
                Some(s) => Some(s@),
                None => None,
            },
    )
}

pub open spec fn captures_view(c: Option<Vec<Option<String>>>) -> Option<Seq<Option<Seq<char>>>> {
    match c {
        Some(v) => Some(groups_view(v@)),
        None => None,
    }
}

/// Relies on `regex::Regex::captures`: the groups of the first match, each
/// group's text or `None` where the group took no part in the match.
#[verifier::external_body]
fn captures(p: &Pattern, haystack: &str) -> (r: Option<Vec<Option<String>>>)
    ensures
        captures_view(r) == regex_captures(p.source(), haystack@),
{
    p.re.captures(haystack).map(
        |c| c.iter().map(|m| m.map(|m| m.as_str().to_string())).collect(),
    )
}

/// The concatenation, in order, of the groups that took part in a match.
pub open spec fn concat_present(gs: Seq<Option<Seq<char>>>) -> Seq<char>
    decreases gs.len(),
{
    if gs.len() == 0 {
        Seq::empty()
    } else {
        concat_present(gs.drop_last()) + match gs.last() {
            Some(t) => t,
            None => Seq::empty(),
        }
    }
}

/// What a regex transform keeps of a match: every capture group after the
/// whole match, concatenated.
pub open spec fn captured_text(gs: Seq<Option<Seq<char>>>) -> Seq<char> {
    if gs.len() == 0 {
        Seq::empty()
    } else {
        concat_present(gs.subrange(1, gs.len() as int))
    }
}

/// `s` with every occurrence of `from` replaced by `to`, scanning from the
/// left and never overlapping; an empty `from` leaves `s` as it is.
pub open spec fn replaced(s: Seq<char>, from: Seq<char>, to: Seq<char>) -> Seq<char>
    decreases s.len(),
{
    if from.len() == 0 || s.len() < from.len() {
        s
    } else if s.subrange(0, from.len() as int) == from {
        to + replaced(s.subrange(from.len() as int, s.len() as int), from, to)
    } else {
        seq![s[0]] + replaced(s.drop_first(), from, to)
    }
}

/// The outcome of one transformer on a value.
pub open spec fn transform_spec(value: Seq<char>, t: Transformer) -> Result<Seq<char>, TransformError> {
    match t {
        Transformer::RegexExtract { regex } => if !regex_compiles(regex@) {
            Err(TransformError::InvalidPattern)
        } else {
            match regex_captures(regex@, value) {
                Some(gs) => Ok(captured_text(gs)),
                None => Err(TransformError::NoMatch),
            }
        },
        Transformer::Replace { from, to } => Ok(replaced(value, from@, to@)),
    }
}

/// The outcome of a list of transformers, applied in order, on a value.
pub open spec fn pipeline_spec(value: Seq<char>, ts: Seq<Transformer>) -> Result<
    Seq<char>,
    TransformError,
>
    decreases ts.len(),
{
    if ts.len() == 0 {
        Ok(value)
    } else {
        match pipeline_spec(value, ts.drop_last()) {
            Ok(v) => transform_spec(v, ts.last()),
            Err(e) => Err(e),
        }
    }
}

/// Whether `pat` occurs in `cs` at position `i`.
fn occurs_at(cs: &Vec<char>, i: usize, pat: &Vec<char>) -> (r: bool)
    requires
        i <= cs@.len(),
    ensures
        r == (i + pat@.len() <= cs@.len() && cs@.subrange(i as int, i + pat@.len()) == pat@),
{
    if pat.len() > cs.len() - i {
        return false;
    }
    let mut j: usize = 0;
    while j < pat.len()
        invariant
            i + pat@.len() <= cs@.len() <= usize::MAX,
            j <= pat@.len(),
            forall|t: int| 0 <= t < j ==> cs@[i + t] == pat@[t],
        decreases pat@.len() - j,
    {
        if cs[i + j] != pat[j] {
            assert(cs@.subrange(i as int, i + pat@.len())[j as int] != pat@[j as int]);
            return false;
        }
        j = j + 1;
    }
    assert(cs@.subrange(i as int, i + pat@.len()) =~= pat@);
    true
}

/// `value` with every occurrence of `from` replaced by `to` (see `replaced`).
pub fn replace_all(value: &str, from: &str, to: &str) -> (r: String)
    ensures
        r@ == replaced(value@, from@, to@),
{
    let cs = chars_of(value);
    let pat = chars_of(from);
    let n = cs.len();
    let mut out = String::new();
    if pat.len() == 0 {
        out.append(value);
        return out;
    }
    assert(value@.subrange(0, n as int) =~= value@);
    assert(out@ + value@ =~= value@);
    let mut i: usize = 0;
    while i < n
        invariant
            n == cs@.len(),
            cs@ == value@,
            pat@ == from@,
            pat@.len() > 0,
            i <= n,
            replaced(value@, from@, to@) == out@ + replaced(
                value@.subrange(i as int, n as int),
                from@,
                to@,
            ),
        decreases n - i,
    {
        let ghost rest = value@.subrange(i as int, n as int);
        if occurs_at(&cs, i, &pat) {
            proof {
                assert(rest.subrange(0, from@.len() as int) =~= cs@.subrange(
                    i as int,
                    i + pat@.len(),
                ));
                assert(rest.subrange(from@.len() as int, rest.len() as int) =~= value@.subrange(
                    i + pat@.len(),
                    n as int,
                ));
            }
            out.append(to);
            i = i + pat.len();
        } else {
            proof {
                if rest.len() >= from@.len() {
                    assert(rest.subrange(0, from@.len() as int) =~= cs@.subrange(
                        i as int,
                        i + pat@.len(),
                    ));
                }
                assert(rest.drop_first() =~= value@.subrange(i + 1, n as int));
            }
            let one = value.substring_char(i, i + 1);
            proof {
                assert(one@ =~= seq![rest[0]]);
            }
            out.append(one);
            i = i + 1;
        }
    }
    proof {
        assert(value@.subrange(n as int, n as int) =~= Seq::<char>::empty());
        assert(out@ + Seq::<char>::empty() =~= out@);
    }
    out
}

/// What a regex transform makes of the capture groups of a match, or of no
/// match at all.
pub fn extract_from_captures(caps: Option<Vec<Option<String>>>) -> (r: Result<
    String,
    TransformError,
>)
    ensures
        match captures_view(caps) {
            Some(gs) => r matches Ok(s) && s@ == captured_text(gs),
            None => r == Err::<String, TransformError>(TransformError::NoMatch),
        },
{
    let groups = match caps {
        Some(g) => g,
        None => {
            return Err(TransformError::NoMatch);
        },
    };
    let ghost gs = groups_view(groups@);
    let mut out = String::new();
    if groups.len() == 0 {
        return Ok(out);
    }
    let mut i: usize = 1;
    while i < groups.len()
        invariant
            gs == groups_view(groups@),
            1 <= i <= groups@.len(),
            out@ == concat_present(gs.subrange(1, i as int)),
        decreases groups@.len() - i,
    {
        proof {
            assert(gs.subrange(1, i + 1).drop_last() =~= gs.subrange(1, i as int));
        }
        match &groups[i] {
            Some(t) => {
                out.append(t.as_str());
            },
            None => {
                assert(out@ + Seq::<char>::empty() =~= out@);
            },
        }
        i = i + 1;
    }
    Ok(out)
}

/// Applies one transformer to a value.
pub fn apply_transformer(value: String, transformer: &Transformer) -> (r: Result<
    String,
    TransformError,
>)
    ensures
        match transform_spec(value@, *transformer) {
            Ok(v) => r matches Ok(s) && s@ == v,
            Err(e) => r == Err::<String, TransformError>(e),
        },
{
    match transformer {
        Transformer::RegexExtract { regex } => {
            let p = match compile_regex(regex.as_str()) {
                Ok(p) => p,
                Err(_) => {
                    return Err(TransformError::InvalidPattern);
                },
            };
            extract_from_captures(captures(&p, value.as_str()))
        },
        Transformer::Replace { from, to } => Ok(
            replace_all(value.as_str(), from.as_str(), to.as_str()),
        ),
    }
}

/// Applies the transformers in order, each to the output of the one before;
/// the first failure fails the whole pipeline.
pub fn apply_transformers(value: String, transformers: &Vec<Transformer>) -> (r: Result<
    String,
    TransformError,
>)
    ensures
        match pipeline_spec(value@, transformers@) {
            Ok(v) => r matches Ok(s) && s@ == v,
            Err(e) => r == Err::<String, TransformError>(e),
        },
{
    let ghost input = value@;
    let mut current = value;
    let mut i: usize = 0;
    while i < transformers.len()
        invariant
            input == value@,
            i <= transformers@.len(),
            pipeline_spec(input, transformers@.subrange(0, i as int)) == Ok::<
                Seq<char>,
                TransformError,
            >(current@),
        decreases transformers@.len() - i,
    {
        proof {
            let ts = transformers@.subrange(0, i + 1);
            assert(ts.drop_last() =~= transformers@.subrange(0, i as int));
            assert(ts.last() == transformers@[i as int]);
            assert(pipeline_spec(input, ts) == transform_spec(current@, transformers@[i as int]));
        }
        let ghost before = current@;
        current = match apply_transformer(current, &transformers[i]) {
            Ok(v) => v,
            Err(e) => {
                proof {
                    assert(transform_spec(before, transformers@[i as int]) == Err::<
                        Seq<char>,
                        TransformError,
                    >(e));
                    assert(pipeline_spec(input, transformers@.subrange(0, i + 1)) == Err::<
                        Seq<char>,
                        TransformError,
                    >(e));
                    lemma_pipeline_failure_persists(input, transformers@, i + 1);
                }
                return Err(e);
            },
        };
        i = i + 1;
    }
    assert(transformers@.subrange(0, transformers@.len() as int) =~= transformers@);
    Ok(current)
}

/// Once a prefix of the pipeline fails, the whole pipeline fails the same way.
proof fn lemma_pipeline_failure_persists(value: Seq<char>, ts: Seq<Transformer>, k: int)
    requires
        0 <= k <= ts.len(),
        pipeline_spec(value, ts.subrange(0, k)) is Err,
    ensures
        pipeline_spec(value, ts) == pipeline_spec(value, ts.subrange(0, k)),
    decreases ts.len() - k,
{
    if k < ts.len() {
        assert(ts.subrange(0, k + 1).drop_last() =~= ts.subrange(0, k));
        lemma_pipeline_failure_persists(value, ts, k + 1);
    } else {
        assert(ts.subrange(0, k) =~= ts);
    }
}

/// An empty list of transformers leaves every value as it is.
pub proof fn empty_pipeline_is_identity(value: Seq<char>)
    ensures
        pipeline_spec(value, Seq::<Transformer>::empty()) == Ok::<Seq<char>, TransformError>(
            value,
        ),
{
}

} // verus!
