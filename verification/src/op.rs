//! The content filter: a compiled pattern applied to the rendered message
//! body of a record, independent of level and target.
//!
//! Compilation and matching are done by the `regex` crate; what they
//! return is named by the uninterpreted functions below, so that contracts
//! further up can speak of "the pattern matches the message" exactly.

use vstd::prelude::*;

verus! {

#[verifier::external_type_specification]
#[verifier::external_body]
pub struct ExRegex(regex::Regex);

/// Whether compiling `pattern` succeeds; `regex::Regex::new` on a given
/// pattern either always succeeds or always fails.
pub uninterp spec fn regex_ok(pattern: Seq<char>) -> bool;

/// The pattern a compiled `regex::Regex` was built from, as
/// `regex::Regex::as_str` returns it.
pub uninterp spec fn regex_pattern(re: &regex::Regex) -> Seq<char>;

/// The message of the error that compiling `pattern` reports; a function
/// of the pattern alone.
pub uninterp spec fn regex_err_of(pattern: Seq<char>) -> Seq<char>;

/// Whether `pattern` matches anywhere in `text`; a function of the two
/// texts alone.
pub uninterp spec fn regex_match(pattern: Seq<char>, text: Seq<char>) -> bool;

/// Relies on `regex::Regex::new`: success depends on the pattern alone, a
/// compiled value keeps its pattern (`Regex::as_str` returns the original
/// string), and the error's rendering is a function of the pattern.
#[verifier::external_body]
fn compile_pattern(pattern: &str) -> (r: Result<regex::Regex, String>)
    ensures
        r is Ok <==> regex_ok(pattern@),
        r matches Ok(re) ==> regex_pattern(&re) == pattern@,
        r matches Err(e) ==> e@ == regex_err_of(pattern@),
{
    regex::Regex::new(pattern).map_err(|e| e.to_string())
}

/// Relies on `regex::Regex::is_match`: true iff the compiled pattern
/// matches anywhere in the haystack — a function of pattern and haystack.
#[verifier::external_body]
fn regex_is_match(re: &regex::Regex, text: &str) -> (r: bool)
    ensures
        r == regex_match(regex_pattern(re), text@),
{
    re.is_match(text)
}

/// A compiled content filter. Its view is the pattern it was compiled
/// from; matching is exactly `regex_match` of that pattern.
#[derive(Debug)]
pub struct FilterOp {
    op: regex::Regex,
    pattern: String,
}

impl View for FilterOp {
    type V = Seq<char>;

    closed spec fn view(&self) -> Seq<char> {
        self.pattern@
    }
}

impl FilterOp {
    #[verifier::type_invariant]
    closed spec fn inv(self) -> bool {
        regex_ok(self.pattern@) && regex_pattern(&self.op) == self.pattern@
    }

    /// Compile a content filter from `pattern`. Succeeds exactly when the
    /// pattern is a valid one; on failure the compiler's error message is
    /// returned.
    pub fn new(pattern: &str) -> (r: Result<FilterOp, String>)
        ensures
            r is Ok <==> regex_ok(pattern@),
            r matches Ok(f) ==> f@ == pattern@,
            r matches Err(e) ==> e@ == regex_err_of(pattern@),
    {
        match compile_pattern(pattern) {
            Ok(op) => Ok(FilterOp { op, pattern: pattern.to_owned() }),
            Err(e) => Err(e),
        }
    }

    /// Does the filter's pattern match anywhere in `text`?
    pub fn is_match(&self, text: &str) -> (r: bool)
        ensures
            r == regex_match(self@, text@),
    {
        proof {
            use_type_invariant(self);
        }
        regex_is_match(&self.op, text)
    }

    /// The pattern this filter was compiled from.
    pub fn as_str(&self) -> (r: &str)
        ensures
            r@ == self@,
    {
        self.pattern.as_str()
    }
}

} // verus!
