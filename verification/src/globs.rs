//! Trusted interface to the `globset` crate: glob parsing, set building and
//! path matching.
//!
//! The abstract content of a glob value is the pattern text it was parsed
//! from; a set's content is the sequence of its patterns.  Whether a set
//! matches a path is named `globset_match`, a function of the patterns and
//! the path alone.

use vstd::prelude::*;

verus! {

#[verifier::external_type_specification]
#[verifier::external_body]
pub struct ExGlob(globset::Glob);

#[verifier::external_type_specification]
#[verifier::external_body]
pub struct ExGlobSet(globset::GlobSet);

#[verifier::external_type_specification]
#[verifier::external_body]
pub struct ExGlobSetBuilder(globset::GlobSetBuilder);

#[verifier::external_type_specification]
#[verifier::external_body]
pub struct ExGlobError(globset::Error);

/// The pattern text a glob was parsed from.
pub uninterp spec fn glob_pattern(g: globset::Glob) -> Seq<char>;

/// Whether the given pattern text is a valid glob.
pub uninterp spec fn glob_compiles(pattern: Seq<char>) -> bool;

/// Whether a set can be built from the given patterns.
pub uninterp spec fn globset_builds(globs: Seq<Seq<char>>) -> bool;

/// The patterns added to a builder so far, in order.
pub uninterp spec fn builder_globs(b: globset::GlobSetBuilder) -> Seq<Seq<char>>;

/// The patterns a built set holds, in order.
pub uninterp spec fn globset_globs(s: globset::GlobSet) -> Seq<Seq<char>>;

/// Whether a set with the given patterns matches the given path.
pub uninterp spec fn globset_match(globs: Seq<Seq<char>>, path: Seq<char>) -> bool;

/// Relies on globset::Glob::new: parses one glob pattern; whether parsing
/// succeeds, and the parsed value itself, are functions of the pattern text
/// alone.
#[verifier::external_body]
pub fn glob_new(pattern: &str) -> (r: Result<globset::Glob, globset::Error>)
    ensures
        (r is Ok) == glob_compiles(pattern@),
        r matches Ok(g) ==> glob_pattern(g) == pattern@,
{
    globset::Glob::new(pattern)
}

/// Relies on globset::GlobSetBuilder::new: starts an empty builder.
#[verifier::external_body]
pub fn globset_builder_new() -> (r: globset::GlobSetBuilder)
    ensures
        builder_globs(r) == Seq::<Seq<char>>::empty(),
{
    globset::GlobSetBuilder::new()
}

/// Relies on globset::GlobSetBuilder::add: appends one glob to the builder.
#[verifier::external_body]
pub fn globset_builder_add(b: &mut globset::GlobSetBuilder, g: globset::Glob)
    ensures
        builder_globs(*final(b)) == builder_globs(*old(b)).push(glob_pattern(g)),
{
    b.add(g);
}

/// Relies on globset::GlobSetBuilder::build: compiles the added globs into
/// a set holding exactly those patterns; whether the build succeeds is a
/// function of the patterns alone.
#[verifier::external_body]
pub fn globset_build(b: &globset::GlobSetBuilder) -> (r: Result<
    globset::GlobSet,
    globset::Error,
>)
    ensures
        (r is Ok) == globset_builds(builder_globs(*b)),
        r matches Ok(s) ==> globset_globs(s) == builder_globs(*b),
{
    b.build()
}

/// Relies on globset::GlobSet::is_match: whether any glob in the set
/// matches the path; a set without globs matches nothing.
#[verifier::external_body]
pub fn globset_is_match(s: &globset::GlobSet, path: &str) -> (r: bool)
    ensures
        r == globset_match(globset_globs(*s), path@),
        globset_globs(*s).len() == 0 ==> r == false,
{
    s.is_match(path)
}

} // verus!
