//! Glob matching of container paths, by the `glob` crate.
use vstd::prelude::*;

use crate::text::has_prefix;

verus! {

#[verifier::external_type_specification]
#[verifier::external_body]
pub struct ExPattern(glob::Pattern);

/// `glob::Pattern::new` accepts the pattern.
pub uninterp spec fn glob_pattern_valid(pattern: Seq<char>) -> bool;

/// The message of the error `glob::Pattern::new` returns for a pattern it
/// refuses, written with `to_string()`.
pub uninterp spec fn glob_error_text(pattern: Seq<char>) -> Seq<char>;

/// `glob::Pattern::matches`, with the default match options, accepts `path`
/// for the pattern compiled from `pattern`.
pub uninterp spec fn glob_matches(pattern: Seq<char>, path: Seq<char>) -> bool;

/// A compiled glob pattern together with the text it was compiled from.
/// Only `compile_glob` builds one, so the two always agree.
pub struct GlobPattern {
    source: String,
    pattern: glob::Pattern,
}

impl GlobPattern {
    /// The text the pattern was compiled from.
    pub closed spec fn spec_source(&self) -> Seq<char> {
        self.source@
    }
}

/// Compiles a glob pattern with `glob::Pattern::new`. States when it
/// succeeds (a name for the crate's grammar) and that the result remembers
/// its text; on failure, the crate's `PatternError` written with
/// `to_string()`, which begins with `Pattern syntax error near position `
/// and is named by `glob_error_text`.
#[verifier::external_body]
pub(crate) fn compile_glob(pattern: &str) -> (r: Result<GlobPattern, String>)
    ensures
        r is Ok <==> glob_pattern_valid(pattern@),
        r matches Ok(g) ==> g.spec_source() == pattern@,
        r matches Err(e) ==> e@ == glob_error_text(pattern@) && has_prefix(
            e@,
            "Pattern syntax error near position "@,
        ),
{
    match glob::Pattern::new(pattern) {
        Ok(p) => Ok(GlobPattern { source: pattern.to_string(), pattern: p }),
        Err(e) => Err(e.to_string()),
    }
}

/// Whether `path` matches the compiled pattern: `glob::Pattern::matches`,
/// whose result is named by `glob_matches` over the pattern's text.
#[verifier::external_body]
pub(crate) fn glob_accepts(g: &GlobPattern, path: &str) -> (r: bool)
    ensures
        r == glob_matches(g.spec_source(), path@),
{
    g.pattern.matches(path)
}

} // verus!
