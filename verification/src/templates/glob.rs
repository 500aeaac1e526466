//! Sets of glob patterns, built and asked through `globset`. In every pattern a `*` stays
//! within one directory.

use globset::{GlobSet, GlobSetBuilder};
use vstd::prelude::*;

verus! {

/// `globset::GlobSet`: nothing of it is seen but through the functions below.
#[verifier::external_type_specification]
#[verifier::external_body]
pub struct ExGlobSet(GlobSet);

/// `globset::GlobSetBuilder`: nothing of it is seen but through the functions below.
#[verifier::external_type_specification]
#[verifier::external_body]
pub struct ExGlobSetBuilder(GlobSetBuilder);

/// `globset::Error`: why a pattern or a set was refused. It is handed on and never looked
/// into.
#[verifier::external_type_specification]
#[verifier::external_body]
pub struct ExGlobError(globset::Error);

/// The patterns that were added to a builder, in their order.
pub uninterp spec fn builder_patterns(builder: GlobSetBuilder) -> Seq<Seq<char>>;

/// The patterns that a set was built from, in their order.
pub uninterp spec fn set_patterns(set: GlobSet) -> Seq<Seq<char>>;

/// Whether `pattern` is a glob, as `globset` tells with separators taken literally.
pub uninterp spec fn glob_compiles(pattern: Seq<char>) -> bool;

/// Whether a set can be built from `patterns`, each of them a glob.
pub uninterp spec fn glob_set_builds(patterns: Seq<Seq<char>>) -> bool;

/// Whether the glob `pattern` matches `path`, as `globset` tells with separators taken
/// literally.
pub uninterp spec fn glob_matches(pattern: Seq<char>, path: Seq<char>) -> bool;

/// Whether one of `patterns` matches `path`.
pub open spec fn any_matches(patterns: Seq<Seq<char>>, path: Seq<char>) -> bool {
    exists|i: int| 0 <= i < patterns.len() && glob_matches(#[trigger] patterns[i], path)
}

/// `GlobSetBuilder::new`: a builder without patterns.
#[verifier::external_body]
pub(crate) fn new_builder() -> (builder: GlobSetBuilder)
    ensures
        builder_patterns(builder) == Seq::<Seq<char>>::empty(),
{
    GlobSetBuilder::new()
}

/// `GlobBuilder::build` with `literal_separator(true)`, and `GlobSetBuilder::add`: a pattern
/// that is a glob goes to the end of the builder; for any other the error of `build` comes
/// back and the builder stays as it is.
#[verifier::external_body]
pub(crate) fn add_pattern(builder: &mut GlobSetBuilder, pattern: &str) -> (result: Result<
    (),
    globset::Error,
>)
    ensures
        result.is_ok() == glob_compiles(pattern@),
        builder_patterns(*final(builder)) == if result.is_ok() {
            builder_patterns(*old(builder)).push(pattern@)
        } else {
            builder_patterns(*old(builder))
        },
{
    let glob = globset::GlobBuilder::new(pattern).literal_separator(true).build()?;
    builder.add(glob);
    Ok(())
}

/// `GlobSetBuilder::build`: the set of the patterns that were added. A builder without
/// patterns always gives a set, the empty one.
#[verifier::external_body]
pub(crate) fn build_set(builder: &GlobSetBuilder) -> (result: Result<GlobSet, globset::Error>)
    ensures
        result.is_ok() == glob_set_builds(builder_patterns(*builder)),
        result matches Ok(set) ==> set_patterns(set) == builder_patterns(*builder),
        builder_patterns(*builder).len() == 0 ==> result.is_ok(),
{
    builder.build()
}

/// `GlobSet::is_match`: whether any glob of the set matches the path.
#[verifier::external_body]
pub(crate) fn set_matches(set: &GlobSet, path: &str) -> (found: bool)
    ensures
        found == (exists|i: int|
            0 <= i < set_patterns(*set).len() && glob_matches(
                #[trigger] set_patterns(*set)[i],
                path@,
            )),
{
    set.is_match(path)
}

} // verus!
