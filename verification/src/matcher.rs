use vstd::prelude::*;

use crate::Conformance;
use crate::error::Error;
use crate::template::assemble_pattern;
use crate::template::pattern_of;
use crate::template::scan_template;
use crate::template::to_char_vec;

verus! {

#[verifier::external_type_specification]
#[verifier::external_body]
pub struct ExRegex(regex::Regex);

/// Whether the pattern engine accepts `pattern` as a well-formed pattern.
/// Names the success of `regex::Regex::new`, which depends on the pattern
/// text alone.
pub uninterp spec fn regex_compiles(pattern: Seq<char>) -> bool;

/// Whether `pattern` occurs anywhere in `content`.  Names the result of
/// `regex::Regex::is_match`, which depends on the pattern text and the
/// content alone.
pub uninterp spec fn regex_matches(pattern: Seq<char>, content: Seq<char>) -> bool;

/// A compiled matcher: the executable form of one template.  Immutable once
/// built, so one matcher may serve any number of conformance checks, from
/// any number of callers, with no shared mutable state.
pub struct Matcher {
    re: regex::Regex,
    pattern: String,
}

impl Matcher {
    /// The pattern text this matcher was compiled from.
    pub closed spec fn pattern(&self) -> Seq<char> {
        self.pattern@
    }

    /// The pattern text this matcher was compiled from.
    pub fn pattern_str(&self) -> (r: &str)
        ensures
            r@ == self.pattern(),
    {
        self.pattern.as_str()
    }
}

/// Relies on `regex::Regex::new`: it accepts or refuses a pattern as a
/// function of the pattern text alone, and on success returns the compiled
/// form of exactly that pattern; on failure its error describes the refusal.
/// The matcher records the pattern text it was built from.
#[verifier::external_body]
fn compile_pattern(pattern: &Vec<char>) -> (r: Result<Matcher, String>)
    ensures
        r is Ok <==> regex_compiles(pattern@),
        r matches Ok(m) ==> m.pattern() == pattern@,
{
    let text: String = pattern.iter().collect();
    match regex::Regex::new(&text) {
        Ok(re) => Ok(Matcher { re, pattern: text }),
        Err(e) => Err(e.to_string()),
    }
}

/// Relies on `regex::Regex::is_match`: true exactly when the pattern occurs
/// anywhere in the content, a function of the pattern text and the content
/// alone; it takes the matcher and the content by shared reference and
/// mutates nothing.
#[verifier::external_body]
fn pattern_found(matcher: &Matcher, content: &str) -> (b: bool)
    ensures
        b == regex_matches(matcher.pattern(), content@),
{
    matcher.re.is_match(content)
}

/// The verdict the matcher compiled from `pattern` gives on `content`.
pub open spec fn conformance_of(pattern: Seq<char>, content: Seq<char>) -> Conformance {
    if regex_matches(pattern, content) {
        Conformance::Conform
    } else {
        Conformance::Conflict
    }
}

/// Compiles template text into a matcher.
///
/// On success the matcher is built from exactly the pattern text that
/// `pattern_of` assigns to the template: each `{{year}}` token replaced by
/// the year sub-pattern, every other character escaped, in order.  The call
/// fails, with a `PatternCompile` error, exactly when the pattern engine
/// refuses that pattern text.
pub fn compile_template(text: &str) -> (r: Result<Matcher, Error>)
    ensures
        r is Ok <==> regex_compiles(pattern_of(text@)),
        r matches Ok(m) ==> m.pattern() == pattern_of(text@),
        r matches Err(e) ==> e matches Error::PatternCompile(_),
{
    let chars = to_char_vec(text);
    let segments = scan_template(&chars);
    let pattern = assemble_pattern(&segments);
    match compile_pattern(&pattern) {
        Ok(m) => Ok(m),
        Err(msg) => Err(Error::PatternCompile(msg)),
    }
}

/// Decides whether `content` carries the license header the matcher was
/// compiled for: `Conform` when the matcher's pattern occurs anywhere in the
/// content, `Conflict` otherwise.  Total over well-formed text, free of side
/// effects, and a pure function of the matcher's pattern and the content.
pub fn check(matcher: &Matcher, content: &str) -> (r: Conformance)
    ensures
        r == conformance_of(matcher.pattern(), content@),
{
    if pattern_found(matcher, content) {
        Conformance::Conform
    } else {
        Conformance::Conflict
    }
}

/// Determinism: the verdict on a file is a function of the template text and
/// the file content alone, so any two checks of the same template against
/// the same content — in whatever order, from whatever caller — agree.
pub proof fn lemma_check_deterministic(
    t: Seq<char>,
    c: Seq<char>,
    r1: Conformance,
    r2: Conformance,
)
    requires
        r1 == conformance_of(pattern_of(t), c),
        r2 == conformance_of(pattern_of(t), c),
    ensures
        r1 == r2,
{
}

} // verus!
