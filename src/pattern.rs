//! Shell-style glob matching through the `glob` crate.
use vstd::prelude::*;

verus! {

#[verifier::external_type_specification]
#[verifier::external_body]
pub struct ExPattern(glob::Pattern);

/// Whether `glob::Pattern::new` accepts `pattern`.
pub uninterp spec fn glob_pattern_valid(pattern: Seq<char>) -> bool;

/// Whether the pattern compiled from `pattern` matches `target` under
/// `glob::Pattern::matches` (default match options).
pub uninterp spec fn glob_pattern_matches(pattern: Seq<char>, target: Seq<char>) -> bool;

/// A compiled pattern, kept with the text it was compiled from.
pub struct GlobPattern {
    source: String,
    compiled: glob::Pattern,
}

/// Relies on `glob::Pattern::new`: it accepts or refuses a pattern by its
/// text alone.
#[verifier::external_body]
fn compile_glob(pattern: &str) -> (r: Option<GlobPattern>)
    ensures
        r is Some == glob_pattern_valid(pattern@),
        r matches Some(g) ==> g.source@ == pattern@,
{
    match glob::Pattern::new(pattern) {
        Ok(compiled) => Some(GlobPattern { source: pattern.to_string(), compiled }),
        Err(_) => None,
    }
}

/// Relies on `glob::Pattern::matches`: whether the compiled pattern matches
/// `target` depends on the two texts alone.
#[verifier::external_body]
fn glob_pattern_match(g: &GlobPattern, target: &str) -> (r: bool)
    ensures
        r == glob_pattern_matches(g.source@, target@),
{
    g.compiled.matches(target)
}

/// Whether `target` matches the glob `pattern`; an invalid pattern matches
/// nothing.
pub fn glob(pattern: &str, target: &str) -> (r: bool)
    ensures
        r == (glob_pattern_valid(pattern@) && glob_pattern_matches(pattern@, target@)),
{
    match compile_glob(pattern) {
        Some(g) => glob_pattern_match(&g, target),
        None => false,
    }
}

} // verus!
