//! Main templating handling, which involves finding files, filtering them and finally
//! rendering them to a target directory.
//!
//! Rendering means that a file is processed through the template engine, in case it is
//! considered a template.

use crate::settings::repo::condition::{
    condition_template, decided, evaluate, template_of, ConditionError,
};
use crate::settings::repo::{FileIgnore, IgnoreScope};
use crate::text::{chars_of, spells, texts};
use globset::{GlobSet, GlobSetBuilder};
use vstd::prelude::*;

pub mod glob;
pub mod render;

use self::glob::{
    add_pattern, any_matches, build_set, builder_patterns, glob_compiles, glob_set_builds,
    new_builder, set_matches, set_patterns,
};

verus! {

/// What is done with a file of a template.
#[derive(Clone, Copy, Debug, PartialEq, Eq, Structural)]
pub enum Classification {
    /// The file is a template: it is rendered.
    Render,
    /// The file is copied as it is.
    CopyVerbatim,
    /// The file is left out.
    Skip,
}

/// A single file from a template repository, that shall be rendered into a target directory.
#[derive(Debug)]
pub struct RepoFile {
    /// Full path to the file for reading.
    path: String,
    /// Relative path in regards to the directory it came from.
    name: String,
    /// What is done with the file.
    classification: Classification,
}

/// The media type that `mime_guess` gives for a path by its extension, `text/plain` where it
/// has none: the type and the subtype.
pub uninterp spec fn guessed_mime(path: Seq<char>) -> (Seq<char>, Seq<char>);

/// `mime_guess::from_path` with `first_or_text_plain`: the type and the subtype of the
/// media type guessed for the path.
#[verifier::external_body]
fn guess_mime(path: &str) -> (mime: (String, String))
    ensures
        (mime.0@, mime.1@) == guessed_mime(path@),
{
    let mime = mime_guess::from_path(path).first_or_text_plain();
    (mime.type_().as_str().to_owned(), mime.subtype().as_str().to_owned())
}

/// Whether a media type stands for content that is no text: audio, fonts, images and video,
/// and of the applications raw bytes and PDF.
pub open spec fn binary_mime(mime: (Seq<char>, Seq<char>)) -> bool {
    ||| mime.0 == "audio"@
    ||| mime.0 == "font"@
    ||| mime.0 == "image"@
    ||| mime.0 == "video"@
    ||| (mime.0 == "application"@ && (mime.1 == "octet-stream"@ || mime.1 == "pdf"@))
}

/// What is done with a file when no rule says otherwise: it is copied where its name tells
/// of content that is no text, and rendered else.
pub open spec fn sniffed(name: Seq<char>) -> Classification {
    if binary_mime(guessed_mime(name)) {
        Classification::CopyVerbatim
    } else {
        Classification::Render
    }
}

/// Whether a file or directory of this name is never part of a template: the directory of
/// Git, and the two files that configure the template itself.
pub open spec fn builtin_filter(file_name: Seq<char>) -> bool {
    file_name == ".git"@ || file_name == ".hatch.toml"@ || file_name == ".hatchignore"@
}

/// Determine, whether the given path is considered a binary file, that should not be treated
/// as template in further processing.
pub fn is_binary(path: &str) -> (binary: bool)
    ensures
        binary == binary_mime(guessed_mime(path@)),
{
    let (kind, subtype) = guess_mime(path);
    let kind = chars_of(kind.as_str());
    let subtype = chars_of(subtype.as_str());
    let media = spells(&kind, "audio") || spells(&kind, "font") || spells(&kind, "image")
        || spells(&kind, "video");
    let bytes = spells(&kind, "application") && (spells(&subtype, "octet-stream") || spells(
        &subtype,
        "pdf",
    ));
    media || bytes
}

/// Whether the walk through a template goes into a directory, or takes a file, of this name.
pub fn keeps_entry(file_name: &str) -> (keep: bool)
    ensures
        keep == !builtin_filter(file_name@),
{
    let name = chars_of(file_name);
    !(spells(&name, ".git") || spells(&name, ".hatch.toml") || spells(&name, ".hatchignore"))
}

impl RepoFile {
    /// Full path to the file for reading.
    pub closed spec fn spec_path(self) -> Seq<char> {
        self.path@
    }

    /// Path of the file, relative to the directory it was loaded from.
    pub closed spec fn spec_name(self) -> Seq<char> {
        self.name@
    }

    /// What is done with the file.
    pub closed spec fn spec_classification(self) -> Classification {
        self.classification
    }

    /// The file with `classification` in place of what is done with it.
    pub closed spec fn reclassified_as(self, classification: Classification) -> RepoFile {
        RepoFile { path: self.path, name: self.name, classification }
    }

    /// A file that is classified anew keeps its paths; classified as it was, it is the same
    /// file.
    pub proof fn lemma_reclassified_as(self, classification: Classification)
        ensures
            self.reclassified_as(classification).spec_path() == self.spec_path(),
            self.reclassified_as(classification).spec_name() == self.spec_name(),
            self.reclassified_as(classification).spec_classification() == classification,
            self.reclassified_as(self.spec_classification()) == self,
    {
    }

    /// A file as the walk through a template found it, classified by its name.
    pub fn new(path: String, name: String) -> (file: Self)
        ensures
            file.spec_path() == path@,
            file.spec_name() == name@,
            file.spec_classification() == sniffed(name@),
    {
        let classification = if is_binary(name.as_str()) {
            Classification::CopyVerbatim
        } else {
            Classification::Render
        };
        RepoFile { path, name, classification }
    }

    /// Full path to the file for reading.
    pub fn path(&self) -> (path: &str)
        ensures
            path@ == self.spec_path(),
    {
        self.path.as_str()
    }

    /// Path of this file, relative to the directory it was loaded from.
    pub fn name(&self) -> (name: &str)
        ensures
            name@ == self.spec_name(),
    {
        self.name.as_str()
    }

    /// What is done with the file.
    pub fn classification(&self) -> (classification: Classification)
        ensures
            classification == self.spec_classification(),
    {
        self.classification
    }
}

/// Whether `files` holds what was found, in the same order: each file with its full path
/// and its path within the template, classified by its name.
pub open spec fn collected(files: Seq<RepoFile>, found: Seq<(String, String)>) -> bool {
    &&& files.len() == found.len()
    &&& forall|i: int|
        0 <= i < found.len() ==> {
            &&& (#[trigger] files[i]).spec_path() == found[i].0@
            &&& files[i].spec_name() == found[i].1@
            &&& files[i].spec_classification() == sniffed(found[i].1@)
        }
}

/// The files of a template as the walk through it found them, each with its full path and
/// its path within the template: in the same order, each classified by its name.
pub fn collect_files(found: Vec<(String, String)>) -> (files: Vec<RepoFile>)
    ensures
        collected(files@, found@),
{
    let ghost all = found@;
    let mut files: Vec<RepoFile> = Vec::new();
    for entry in it: found
        invariant
            it.seq() == all,
            files@.len() == it.index(),
            forall|i: int|
                0 <= i < files@.len() ==> {
                    &&& (#[trigger] files@[i]).spec_path() == all[i].0@
                    &&& files@[i].spec_name() == all[i].1@
                    &&& files@[i].spec_classification() == sniffed(all[i].1@)
                },
    {
        let (path, name) = entry;
        files.push(RepoFile::new(path, name));
    }
    files
}

/// Why the ignore rules could not be applied.
pub enum IgnoreError {
    /// The condition of the rule at this place could not be decided.
    Condition { rule: usize, cause: ConditionError },
    /// A rule holds this pattern, which is no glob.
    Glob { pattern: String, error: globset::Error },
    /// The patterns of a stage could not be put together.
    GlobSet(globset::Error),
}

/// The patterns that a rule adds to a stage: its own, where it is active and of that stage.
pub open spec fn added(rule: FileIgnore, active: bool, scope: IgnoreScope) -> Seq<Seq<char>> {
    if active && rule.scope == scope {
        texts(rule.paths@)
    } else {
        Seq::empty()
    }
}

/// The patterns of the rules of one stage that are active, in the order of the rules.
pub open spec fn scope_patterns(rules: Seq<FileIgnore>, active: Seq<bool>, scope: IgnoreScope) -> Seq<
    Seq<char>,
>
    decreases rules.len(),
{
    if rules.len() == 0 {
        Seq::empty()
    } else {
        scope_patterns(rules.drop_last(), active, scope) + added(
            rules.last(),
            active[rules.len() - 1],
            scope,
        )
    }
}

/// The patterns of the rules that are active, of whatever stage, in the order of the rules.
pub open spec fn active_patterns(rules: Seq<FileIgnore>, active: Seq<bool>) -> Seq<Seq<char>>
    decreases rules.len(),
{
    if rules.len() == 0 {
        Seq::empty()
    } else {
        active_patterns(rules.drop_last(), active) + added(
            rules.last(),
            active[rules.len() - 1],
            rules.last().scope,
        )
    }
}

/// Whether the pattern at `index` is the first that is no glob.
pub open spec fn first_failing(patterns: Seq<Seq<char>>, index: int) -> bool {
    &&& 0 <= index < patterns.len()
    &&& !glob_compiles(patterns[index])
    &&& forall|j: int| 0 <= j < index ==> glob_compiles(#[trigger] patterns[j])
}

/// Whether every pattern is a glob.
pub open spec fn all_compile(patterns: Seq<Seq<char>>) -> bool {
    forall|j: int| 0 <= j < patterns.len() ==> glob_compiles(#[trigger] patterns[j])
}

/// The order in which the sets of the stages are built.
pub open spec fn comes_before(earlier: IgnoreScope, later: IgnoreScope) -> bool {
    match (earlier, later) {
        (IgnoreScope::AllStages, IgnoreScope::TemplateOnly) => true,
        (IgnoreScope::AllStages, IgnoreScope::RenderOnly) => true,
        (IgnoreScope::TemplateOnly, IgnoreScope::RenderOnly) => true,
        _ => false,
    }
}

/// Whether the patterns of the active rules can be held against files: each of them is a
/// glob, and those of each stage can be put together.
pub open spec fn compiles(rules: Seq<FileIgnore>, active: Seq<bool>) -> bool {
    &&& all_compile(active_patterns(rules, active))
    &&& forall|scope: IgnoreScope|
        all_compile(#[trigger] scope_patterns(rules, active, scope)) && glob_set_builds(
            scope_patterns(rules, active, scope),
        )
}

/// Whether `scope` is the first stage whose patterns cannot be put together.
pub open spec fn first_unbuilt(rules: Seq<FileIgnore>, active: Seq<bool>, scope: IgnoreScope) -> bool {
    &&& !glob_set_builds(scope_patterns(rules, active, scope))
    &&& forall|earlier: IgnoreScope|
        comes_before(earlier, scope) ==> glob_set_builds(
            #[trigger] scope_patterns(rules, active, earlier),
        )
}

/// Whether the patterns of the active rules fail with `error`: with the first pattern, in
/// the order of the rules, that is no glob; where each is one, with the first stage whose
/// patterns cannot be put together.
pub open spec fn fails_with(error: IgnoreError, rules: Seq<FileIgnore>, active: Seq<bool>) -> bool {
    match error {
        IgnoreError::Glob { pattern, .. } => exists|k: int| #[trigger]
            first_failing(active_patterns(rules, active), k) && pattern@ == active_patterns(
                rules,
                active,
            )[k],
        IgnoreError::GlobSet(_) => all_compile(active_patterns(rules, active)) && exists|
            scope: IgnoreScope,
        | #[trigger] first_unbuilt(rules, active, scope),
        IgnoreError::Condition { .. } => false,
    }
}

/// Patterns each of which is a glob are globs when put one after the other.
proof fn lemma_all_compile_joined(first: Seq<Seq<char>>, second: Seq<Seq<char>>)
    requires
        all_compile(first),
        all_compile(second),
    ensures
        all_compile(first + second),
{
    assert forall|j: int| 0 <= j < (first + second).len() implies glob_compiles(
        #[trigger] (first + second)[j],
    ) by {
        if j < first.len() {
            assert((first + second)[j] == first[j]);
        } else {
            assert((first + second)[j] == second[j - first.len()]);
        }
    }
}

/// One rule more adds its patterns behind those of the rules before it.
proof fn lemma_patterns_step(rules: Seq<FileIgnore>, active: Seq<bool>, index: int)
    requires
        0 <= index < rules.len(),
    ensures
        forall|scope: IgnoreScope| #[trigger]
            scope_patterns(rules.take(index + 1), active, scope) == scope_patterns(
                rules.take(index),
                active,
                scope,
            ) + added(rules[index], active[index], scope),
        active_patterns(rules.take(index + 1), active) == active_patterns(
            rules.take(index),
            active,
        ) + added(rules[index], active[index], rules[index].scope),
{
    let longer = rules.take(index + 1);
    assert(longer.drop_last() =~= rules.take(index));
    assert(longer.last() == rules[index]);
}

/// The patterns of the first rules are the first patterns of all the rules.
proof fn lemma_active_patterns_prefix(rules: Seq<FileIgnore>, active: Seq<bool>, count: int)
    requires
        0 <= count <= rules.len(),
    ensures
        active_patterns(rules.take(count), active).len() <= active_patterns(rules, active).len(),
        active_patterns(rules, active).take(
            active_patterns(rules.take(count), active).len() as int,
        ) == active_patterns(rules.take(count), active),
    decreases rules.len(),
{
    let all = active_patterns(rules, active);
    if count == rules.len() {
        assert(rules.take(count) =~= rules);
        assert(all.take(all.len() as int) =~= all);
    } else {
        let shorter = rules.drop_last();
        lemma_active_patterns_prefix(shorter, active, count);
        assert(shorter.take(count) =~= rules.take(count));
        let part = active_patterns(rules.take(count), active);
        let most = active_patterns(shorter, active);
        assert(most.take(part.len() as int) == part);
        assert(all.take(part.len() as int) =~= most.take(part.len() as int));
    }
}

/// The patterns of a stage are among the patterns of all stages.
proof fn lemma_scope_within_active(rules: Seq<FileIgnore>, active: Seq<bool>, scope: IgnoreScope)
    ensures
        scope_patterns(rules, active, scope).len() <= active_patterns(rules, active).len(),
    decreases rules.len(),
{
    if rules.len() > 0 {
        lemma_scope_within_active(rules.drop_last(), active, scope);
    }
}

/// The patterns of the rules that are active, gathered stage by stage before the sets are
/// built from them.
pub struct Patterns {
    all_stages: GlobSetBuilder,
    template_only: GlobSetBuilder,
    render_only: GlobSetBuilder,
}

/// The three sets of patterns that the active rules make, one for each stage.
pub struct Matchers {
    all_stages: GlobSet,
    template_only: GlobSet,
    render_only: GlobSet,
}

/// Whether `after` holds what `before` held and, behind it in the stage `scope`, the
/// patterns `part`.
pub open spec fn grows(before: Patterns, after: Patterns, scope: IgnoreScope, part: Seq<Seq<char>>) -> bool {
    forall|stage: IgnoreScope| #[trigger]
        after.of(stage) == before.of(stage) + if stage == scope {
            part
        } else {
            Seq::empty()
        }
}

/// Whether `patterns` holds what the first `count` rules give, each pattern a glob.
pub open spec fn gathered(
    patterns: Patterns,
    rules: Seq<FileIgnore>,
    active: Seq<bool>,
    count: int,
) -> bool {
    &&& all_compile(active_patterns(rules.take(count), active))
    &&& forall|scope: IgnoreScope| #[trigger]
        patterns.of(scope) == scope_patterns(rules.take(count), active, scope) && all_compile(
            patterns.of(scope),
        )
}

/// A rule that was added makes what was gathered what one rule more gives.
proof fn lemma_gathered_step(
    before: Patterns,
    after: Patterns,
    rules: Seq<FileIgnore>,
    active: Seq<bool>,
    index: int,
)
    requires
        0 <= index < rules.len(),
        gathered(before, rules, active, index),
        grows(
            before,
            after,
            rules[index].scope,
            added(rules[index], active[index], rules[index].scope),
        ),
        active[index] ==> all_compile(texts(rules[index].paths@)),
    ensures
        gathered(after, rules, active, index + 1),
{
    let rule = rules[index];
    let part = added(rule, active[index], rule.scope);
    lemma_patterns_step(rules, active, index);
    assert(all_compile(part));
    lemma_all_compile_joined(active_patterns(rules.take(index), active), part);
    assert forall|scope: IgnoreScope| #[trigger]
        after.of(scope) == scope_patterns(rules.take(index + 1), active, scope) && all_compile(
            after.of(scope),
        ) by {
        assert(before.of(scope) == scope_patterns(rules.take(index), active, scope));
        assert(added(rule, active[index], scope) == if scope == rule.scope {
            part
        } else {
            Seq::<Seq<char>>::empty()
        });
        lemma_all_compile_joined(before.of(scope), added(rule, active[index], scope));
    }
}

/// A pattern of an active rule that is the first of its rule to be no glob is the first of
/// all the patterns to be none, where those of the rules before it are globs.
proof fn lemma_gathered_fails(rules: Seq<FileIgnore>, active: Seq<bool>, index: int, k: int)
    requires
        0 <= index < rules.len(),
        all_compile(active_patterns(rules.take(index), active)),
        active[index],
        first_failing(texts(rules[index].paths@), k),
    ensures
        first_failing(
            active_patterns(rules, active),
            active_patterns(rules.take(index), active).len() + k,
        ),
        active_patterns(rules, active)[active_patterns(rules.take(index), active).len() + k]
            == texts(rules[index].paths@)[k],
{
    let before = active_patterns(rules.take(index), active);
    let own = texts(rules[index].paths@);
    let all = active_patterns(rules, active);
    lemma_patterns_step(rules, active, index);
    lemma_active_patterns_prefix(rules, active, index + 1);
    let whole = before + own;
    assert(all.take(whole.len() as int) == whole);
    let place = before.len() + k;
    assert(all.take(whole.len() as int)[place] == all[place]);
    assert(whole[place] == own[k]);
    assert forall|m: int| 0 <= m < place implies glob_compiles(#[trigger] all[m]) by {
        assert(all.take(whole.len() as int)[m] == all[m]);
        if m < before.len() {
            assert(whole[m] == before[m]);
        } else {
            assert(whole[m] == own[m - before.len()]);
        }
    }
}

/// Adds the patterns to the builder, in their order, and stops at the first that is no glob.
fn add_patterns(builder: &mut GlobSetBuilder, paths: &Vec<String>) -> (result: Result<
    (),
    IgnoreError,
>)
    ensures
        match result {
            Ok(()) => all_compile(texts(paths@)) && builder_patterns(*final(builder))
                == builder_patterns(*old(builder)) + texts(paths@),
            Err(IgnoreError::Glob { pattern, .. }) => exists|k: int| #[trigger]
                first_failing(texts(paths@), k) && pattern@ == texts(paths@)[k]
                    && builder_patterns(*final(builder)) == builder_patterns(*old(builder))
                    + texts(paths@).take(k),
            Err(_) => false,
        },
{
    let ghost before = builder_patterns(*builder);
    let mut j: usize = 0;
    assert(before + texts(paths@).take(0) =~= before);
    while j < paths.len()
        invariant
            j <= paths.len(),
            before == builder_patterns(*old(builder)),
            builder_patterns(*builder) == before + texts(paths@).take(j as int),
            forall|m: int| 0 <= m < j ==> glob_compiles(#[trigger] texts(paths@)[m]),
        decreases paths.len() - j,
    {
        match add_pattern(builder, paths[j].as_str()) {
            Ok(()) => {
                assert(builder_patterns(*builder) =~= before + texts(paths@).take(j + 1));
            },
            Err(error) => {
                let pattern = paths[j].clone();
                assert(first_failing(texts(paths@), j as int) && pattern@ == texts(paths@)[j as int]
                    && builder_patterns(*builder) == before + texts(paths@).take(j as int));
                return Err(IgnoreError::Glob { pattern, error });
            },
        }
        j = j + 1;
    }
    assert(texts(paths@).take(paths@.len() as int) =~= texts(paths@));
    Ok(())
}

impl Patterns {
    /// The patterns gathered for one stage, in their order.
    pub closed spec fn of(self, scope: IgnoreScope) -> Seq<Seq<char>> {
        match scope {
            IgnoreScope::AllStages => builder_patterns(self.all_stages),
            IgnoreScope::TemplateOnly => builder_patterns(self.template_only),
            IgnoreScope::RenderOnly => builder_patterns(self.render_only),
        }
    }

    /// No patterns.
    pub fn new() -> (patterns: Self)
        ensures
            forall|scope: IgnoreScope| #[trigger] patterns.of(scope) == Seq::<Seq<char>>::empty(),
    {
        Patterns {
            all_stages: new_builder(),
            template_only: new_builder(),
            render_only: new_builder(),
        }
    }

    /// Takes one rule in, once it is decided whether the rule is active. A rule that is not
    /// active adds nothing. The patterns of one that is go behind those of its stage, in
    /// their order; the first of them that is no glob is the error, and those before it
    /// have gone in.
    pub fn add_rule(&mut self, rule: &FileIgnore, active: bool) -> (result: Result<(), IgnoreError>)
        ensures
            match result {
                Ok(()) => grows(*old(self), *final(self), rule.scope, added(*rule, active, rule.scope))
                    && (active ==> all_compile(texts(rule.paths@))),
                Err(IgnoreError::Glob { pattern, .. }) => active && exists|k: int| #[trigger]
                    first_failing(texts(rule.paths@), k) && pattern@ == texts(rule.paths@)[k]
                        && grows(*old(self), *final(self), rule.scope, texts(rule.paths@).take(k)),
                Err(_) => false,
            },
    {
        let ghost before = *self;
        if !active {
            assert forall|stage: IgnoreScope| #[trigger]
                self.of(stage) == before.of(stage) + if stage == rule.scope {
                    Seq::<Seq<char>>::empty()
                } else {
                    Seq::<Seq<char>>::empty()
                } by {
                assert(before.of(stage) + Seq::<Seq<char>>::empty() =~= before.of(stage));
            }
            return Ok(());
        }
        let result = match rule.scope {
            IgnoreScope::AllStages => add_patterns(&mut self.all_stages, &rule.paths),
            IgnoreScope::TemplateOnly => add_patterns(&mut self.template_only, &rule.paths),
            IgnoreScope::RenderOnly => add_patterns(&mut self.render_only, &rule.paths),
        };
        proof {
            let after = *self;
            assert forall|stage: IgnoreScope| stage != rule.scope implies #[trigger] after.of(stage)
                == before.of(stage) + Seq::<Seq<char>>::empty() by {
                assert(before.of(stage) + Seq::<Seq<char>>::empty() =~= before.of(stage));
            }
        }
        result
    }

    /// Builds the set of each stage: first the one that leaves files out, then the one that
    /// keeps them from being templates, then the one that keeps them from being copied. The
    /// first stage whose patterns cannot be put together is the error. Stages without
    /// patterns always build.
    pub fn build(&self) -> (result: Result<Matchers, IgnoreError>)
        ensures
            match result {
                Ok(matchers) => forall|scope: IgnoreScope| #[trigger]
                    matchers.patterns(scope) == self.of(scope) && glob_set_builds(self.of(scope)),
                Err(IgnoreError::GlobSet(_)) => exists|scope: IgnoreScope|
                    !glob_set_builds(#[trigger] self.of(scope)) && forall|earlier: IgnoreScope|
                        comes_before(earlier, scope) ==> glob_set_builds(
                            #[trigger] self.of(earlier),
                        ),
                Err(_) => false,
            },
            (forall|scope: IgnoreScope| (#[trigger] self.of(scope)).len() == 0) ==> result.is_ok(),
    {
        let all_stages = match build_set(&self.all_stages) {
            Ok(set) => set,
            Err(error) => {
                assert(!glob_set_builds(self.of(IgnoreScope::AllStages)));
                assert(self.of(IgnoreScope::AllStages).len() != 0);
                return Err(IgnoreError::GlobSet(error));
            },
        };
        let template_only = match build_set(&self.template_only) {
            Ok(set) => set,
            Err(error) => {
                assert(!glob_set_builds(self.of(IgnoreScope::TemplateOnly)));
                assert(glob_set_builds(self.of(IgnoreScope::AllStages)));
                assert(self.of(IgnoreScope::TemplateOnly).len() != 0);
                return Err(IgnoreError::GlobSet(error));
            },
        };
        let render_only = match build_set(&self.render_only) {
            Ok(set) => set,
            Err(error) => {
                assert(!glob_set_builds(self.of(IgnoreScope::RenderOnly)));
                assert(glob_set_builds(self.of(IgnoreScope::AllStages)));
                assert(glob_set_builds(self.of(IgnoreScope::TemplateOnly)));
                assert(self.of(IgnoreScope::RenderOnly).len() != 0);
                return Err(IgnoreError::GlobSet(error));
            },
        };
        let matchers = Matchers { all_stages, template_only, render_only };
        assert forall|scope: IgnoreScope| #[trigger]
            matchers.patterns(scope) == self.of(scope) && glob_set_builds(self.of(scope)) by {}
        Ok(matchers)
    }
}

/// What is done with a file once the rules have been held against it: a file that a rule
/// leaves out altogether is skipped, whatever the other rules say; else a file that a rule
/// keeps from being a template is copied; else a file that a rule keeps from being copied
/// is rendered; and a file that no rule matches stays as it was.
pub open spec fn reclassified(
    current: Classification,
    left_out: bool,
    not_template: bool,
    not_copied: bool,
) -> Classification {
    if left_out {
        Classification::Skip
    } else if not_template {
        Classification::CopyVerbatim
    } else if not_copied {
        Classification::Render
    } else {
        current
    }
}

/// Decides what is done with a file from what it was classified as and from the stages that
/// the rules take it out of.
pub fn reclassify(current: Classification, left_out: bool, not_template: bool, not_copied: bool) -> (result:
    Classification)
    ensures
        result == reclassified(current, left_out, not_template, not_copied),
        left_out ==> result == Classification::Skip,
{
    if left_out {
        Classification::Skip
    } else if not_template {
        Classification::CopyVerbatim
    } else if not_copied {
        Classification::Render
    } else {
        current
    }
}

/// What is done with a file of this name that was classified as `current`, once the rules
/// that are active have been held against it.
pub open spec fn ruled(
    rules: Seq<FileIgnore>,
    active: Seq<bool>,
    current: Classification,
    name: Seq<char>,
) -> Classification {
    reclassified(
        current,
        any_matches(scope_patterns(rules, active, IgnoreScope::AllStages), name),
        any_matches(scope_patterns(rules, active, IgnoreScope::TemplateOnly), name),
        any_matches(scope_patterns(rules, active, IgnoreScope::RenderOnly), name),
    )
}

/// Whether `out` holds `files` in their order, each with what the active rules make of it
/// and else as it was.
pub open spec fn files_ruled(
    out: Seq<RepoFile>,
    files: Seq<RepoFile>,
    rules: Seq<FileIgnore>,
    active: Seq<bool>,
) -> bool {
    &&& out.len() == files.len()
    &&& forall|i: int|
        0 <= i < files.len() ==> (#[trigger] out[i]) == files[i].reclassified_as(
            ruled(rules, active, files[i].spec_classification(), files[i].spec_name()),
        )
}

impl Matchers {
    /// The patterns of one stage.
    pub closed spec fn patterns(self, scope: IgnoreScope) -> Seq<Seq<char>> {
        match scope {
            IgnoreScope::AllStages => set_patterns(self.all_stages),
            IgnoreScope::TemplateOnly => set_patterns(self.template_only),
            IgnoreScope::RenderOnly => set_patterns(self.render_only),
        }
    }

    /// Whether a pattern of the stage matches the path.
    pub open spec fn matches(self, scope: IgnoreScope, path: Seq<char>) -> bool {
        any_matches(self.patterns(scope), path)
    }

    /// What is done with a file of this name that was classified as `current`.
    pub open spec fn decides(self, current: Classification, name: Seq<char>) -> Classification {
        reclassified(
            current,
            self.matches(IgnoreScope::AllStages, name),
            self.matches(IgnoreScope::TemplateOnly, name),
            self.matches(IgnoreScope::RenderOnly, name),
        )
    }

    /// Whether the matchers hold the patterns of the active rules, stage by stage.
    pub open spec fn built_from(self, rules: Seq<FileIgnore>, active: Seq<bool>) -> bool {
        forall|scope: IgnoreScope| #[trigger]
            self.patterns(scope) == scope_patterns(rules, active, scope)
    }

    /// The sets of the patterns of the rules that are active. The rules are taken in their
    /// order, and the first pattern that is no glob is the error; then the sets are built,
    /// stage by stage, and the first that cannot be built is the error. Without any pattern
    /// of an active rule there is no error.
    pub fn new(rules: &Vec<FileIgnore>, active: &Vec<bool>) -> (result: Result<Matchers, IgnoreError>)
        requires
            active@.len() == rules@.len(),
        ensures
            match result {
                Ok(matchers) => matchers.built_from(rules@, active@) && compiles(rules@, active@),
                Err(error) => fails_with(error, rules@, active@),
            },
            active_patterns(rules@, active@).len() == 0 ==> result.is_ok(),
    {
        let mut patterns = Patterns::new();
        let mut i: usize = 0;
        assert(rules@.take(0) =~= Seq::<FileIgnore>::empty());
        while i < rules.len()
            invariant
                i <= rules.len(),
                active@.len() == rules@.len(),
                gathered(patterns, rules@, active@, i as int),
            decreases rules.len() - i,
        {
            let ghost before = patterns;
            match patterns.add_rule(&rules[i], active[i]) {
                Ok(()) => {
                    proof {
                        lemma_gathered_step(before, patterns, rules@, active@, i as int);
                    }
                },
                Err(error) => {
                    proof {
                        let k = choose|k: int| #[trigger]
                            first_failing(texts(rules@[i as int].paths@), k) && error->pattern@
                                == texts(rules@[i as int].paths@)[k];
                        lemma_gathered_fails(rules@, active@, i as int, k);
                    }
                    return Err(error);
                },
            }
            i = i + 1;
        }
        assert(rules@.take(rules@.len() as int) =~= rules@);
        let result = patterns.build();
        proof {
            lemma_built(patterns, result, rules@, active@);
        }
        result
    }

    /// Holds the rules against a file and says what is done with it.
    pub fn classify(&self, file: &RepoFile) -> (result: Classification)
        ensures
            result == self.decides(file.spec_classification(), file.spec_name()),
            self.matches(IgnoreScope::AllStages, file.spec_name()) ==> result
                == Classification::Skip,
    {
        let name = file.name.as_str();
        reclassify(
            file.classification,
            set_matches(&self.all_stages, name),
            set_matches(&self.template_only, name),
            set_matches(&self.render_only, name),
        )
    }

    /// Holds the rules against each file: the files come back in their order, each with
    /// what the rules make of it.
    pub fn classify_all(&self, files: Vec<RepoFile>) -> (out: Vec<RepoFile>)
        ensures
            out@.len() == files@.len(),
            forall|i: int|
                0 <= i < files@.len() ==> (#[trigger] out@[i]) == files@[i].reclassified_as(
                    self.decides(files@[i].spec_classification(), files@[i].spec_name()),
                ),
    {
        let ghost all = files@;
        let mut out: Vec<RepoFile> = Vec::new();
        for file in it: files
            invariant
                it.seq() == all,
                out@.len() == it.index(),
                forall|i: int|
                    0 <= i < out@.len() ==> (#[trigger] out@[i]) == all[i].reclassified_as(
                        self.decides(all[i].spec_classification(), all[i].spec_name()),
                    ),
        {
            let classification = self.classify(&file);
            let RepoFile { path, name, classification: _ } = file;
            out.push(RepoFile { path, name, classification });
        }
        out
    }
}

/// What building the sets of what was gathered from all the rules says of the rules.
proof fn lemma_built(
    patterns: Patterns,
    result: Result<Matchers, IgnoreError>,
    rules: Seq<FileIgnore>,
    active: Seq<bool>,
)
    requires
        gathered(patterns, rules, active, rules.len() as int),
        match result {
            Ok(matchers) => forall|scope: IgnoreScope| #[trigger]
                matchers.patterns(scope) == patterns.of(scope) && glob_set_builds(
                    patterns.of(scope),
                ),
            Err(IgnoreError::GlobSet(_)) => exists|scope: IgnoreScope|
                !glob_set_builds(#[trigger] patterns.of(scope)) && forall|earlier: IgnoreScope|
                    comes_before(earlier, scope) ==> glob_set_builds(
                        #[trigger] patterns.of(earlier),
                    ),
            Err(_) => false,
        },
        (forall|scope: IgnoreScope| (#[trigger] patterns.of(scope)).len() == 0)
            ==> result.is_ok(),
    ensures
        match result {
            Ok(matchers) => matchers.built_from(rules, active) && compiles(rules, active),
            Err(error) => fails_with(error, rules, active),
        },
        active_patterns(rules, active).len() == 0 ==> result.is_ok(),
{
    assert(rules.take(rules.len() as int) =~= rules);
    assert forall|scope: IgnoreScope| #[trigger]
        patterns.of(scope) == scope_patterns(rules, active, scope) by {}
    match result {
        Ok(matchers) => {
            assert forall|scope: IgnoreScope|
                all_compile(#[trigger] scope_patterns(rules, active, scope)) && glob_set_builds(
                    scope_patterns(rules, active, scope),
                ) by {
                assert(patterns.of(scope) == scope_patterns(rules, active, scope));
                assert(matchers.patterns(scope) == patterns.of(scope));
            }
            assert forall|scope: IgnoreScope| #[trigger]
                matchers.patterns(scope) == scope_patterns(rules, active, scope) by {
                assert(patterns.of(scope) == scope_patterns(rules, active, scope));
            }
        },
        Err(error) => {
            let scope = choose|scope: IgnoreScope|
                !glob_set_builds(#[trigger] patterns.of(scope)) && forall|earlier: IgnoreScope|
                    comes_before(earlier, scope) ==> glob_set_builds(
                        #[trigger] patterns.of(earlier),
                    );
            assert forall|earlier: IgnoreScope| comes_before(earlier, scope) implies glob_set_builds(
                #[trigger] scope_patterns(rules, active, earlier),
            ) by {
                assert(patterns.of(earlier) == scope_patterns(rules, active, earlier));
            }
            assert(patterns.of(scope) == scope_patterns(rules, active, scope));
            assert(first_unbuilt(rules, active, scope));
        },
    }
    if active_patterns(rules, active).len() == 0 {
        assert forall|scope: IgnoreScope| (#[trigger] patterns.of(scope)).len() == 0 by {
            lemma_scope_within_active(rules, active, scope);
            assert(patterns.of(scope) == scope_patterns(rules, active, scope));
        }
    }
}

/// Without any pattern of an active rule each file stays as it was.
pub proof fn lemma_no_patterns_change_nothing(
    out: Seq<RepoFile>,
    files: Seq<RepoFile>,
    rules: Seq<FileIgnore>,
    active: Seq<bool>,
)
    requires
        active_patterns(rules, active).len() == 0,
        files_ruled(out, files, rules, active),
    ensures
        out == files,
{
    lemma_scope_within_active(rules, active, IgnoreScope::AllStages);
    lemma_scope_within_active(rules, active, IgnoreScope::TemplateOnly);
    lemma_scope_within_active(rules, active, IgnoreScope::RenderOnly);
    assert forall|i: int| 0 <= i < files.len() implies out[i] == files[i] by {
        files[i].lemma_reclassified_as(files[i].spec_classification());
    }
    assert(out =~= files);
}

/// Holds the rules against the files, once it is decided which of the rules are active. The
/// files come back in their order, each with what the active rules make of it, where every
/// pattern of an active rule is a glob and the patterns of each stage can be put together;
/// else the first thing that went wrong is the error. Without any pattern of an active rule
/// the files come back as they were.
pub fn apply_rules(files: Vec<RepoFile>, rules: &Vec<FileIgnore>, active: &Vec<bool>) -> (result:
    Result<Vec<RepoFile>, IgnoreError>)
    requires
        active@.len() == rules@.len(),
    ensures
        match result {
            Ok(out) => files_ruled(out@, files@, rules@, active@) && compiles(rules@, active@),
            Err(error) => fails_with(error, rules@, active@),
        },
        active_patterns(rules@, active@).len() == 0 ==> (result matches Ok(out) && out@ == files@),
{
    let matchers = match Matchers::new(rules, active) {
        Ok(matchers) => matchers,
        Err(error) => {
            return Err(error);
        },
    };
    let out = matchers.classify_all(files);
    proof {
        lemma_ruled_by(matchers, out@, files@, rules@, active@);
        if active_patterns(rules@, active@).len() == 0 {
            lemma_no_patterns_change_nothing(out@, files@, rules@, active@);
        }
    }
    Ok(out)
}

/// Files that the matchers of the active rules have classified are ruled by these rules.
proof fn lemma_ruled_by(
    matchers: Matchers,
    out: Seq<RepoFile>,
    files: Seq<RepoFile>,
    rules: Seq<FileIgnore>,
    active: Seq<bool>,
)
    requires
        matchers.built_from(rules, active),
        out.len() == files.len(),
        forall|i: int|
            0 <= i < files.len() ==> (#[trigger] out[i]) == files[i].reclassified_as(
                matchers.decides(files[i].spec_classification(), files[i].spec_name()),
            ),
    ensures
        files_ruled(out, files, rules, active),
{
    assert(matchers.patterns(IgnoreScope::AllStages) == scope_patterns(
        rules,
        active,
        IgnoreScope::AllStages,
    ));
    assert(matchers.patterns(IgnoreScope::TemplateOnly) == scope_patterns(
        rules,
        active,
        IgnoreScope::TemplateOnly,
    ));
    assert(matchers.patterns(IgnoreScope::RenderOnly) == scope_patterns(
        rules,
        active,
        IgnoreScope::RenderOnly,
    ));
}

/// Whether `rendered` holds, rule by rule, what the template engine made of the template of
/// the condition of each rule that has one.
pub open spec fn rendered_for(
    rules: Seq<FileIgnore>,
    rendered: Seq<Option<Result<String, tera::Error>>>,
) -> bool {
    &&& rendered.len() == rules.len()
    &&& forall|i: int|
        0 <= i < rules.len() && (#[trigger] rules[i]).condition.is_some() ==> rendered[i].is_some()
}

/// Whether a rule is active, given what the template engine made of the template of its
/// condition. A rule without a condition is.
pub open spec fn rule_flag(rule: FileIgnore, rendered: Option<Result<String, tera::Error>>) -> Result<
    bool,
    ConditionError,
> {
    match (rule.condition, rendered) {
        (Some(_), Some(made)) => decided(made),
        _ => Ok(true),
    }
}

/// For each rule, whether it is active.
pub open spec fn rule_flags(
    rules: Seq<FileIgnore>,
    rendered: Seq<Option<Result<String, tera::Error>>>,
) -> Seq<bool> {
    Seq::new(
        rules.len(),
        |i: int| rule_flag(rules[i], rendered[i]) == Ok::<bool, ConditionError>(true),
    )
}

/// Whether the condition of each of the first `count` rules could be decided.
pub open spec fn decided_before(
    rules: Seq<FileIgnore>,
    rendered: Seq<Option<Result<String, tera::Error>>>,
    count: int,
) -> bool {
    forall|j: int| 0 <= j < count ==> rule_flag(#[trigger] rules[j], rendered[j]).is_ok()
}

/// Whether `result` is what the rules give for the files. The rules are taken in their
/// order. The first rule whose condition could not be decided is the error, where the
/// patterns of the active rules before it are globs; the first pattern of an active rule
/// that is no glob is the error, where the conditions up to its rule could be decided. Else
/// the sets are built, and the files come back with what the active rules make of them.
pub open spec fn filtered(
    result: Result<Vec<RepoFile>, IgnoreError>,
    files: Seq<RepoFile>,
    rules: Seq<FileIgnore>,
    rendered: Seq<Option<Result<String, tera::Error>>>,
) -> bool {
    let active = rule_flags(rules, rendered);
    match result {
        Ok(out) => {
            &&& decided_before(rules, rendered, rules.len() as int)
            &&& compiles(rules, active)
            &&& files_ruled(out@, files, rules, active)
        },
        Err(IgnoreError::Condition { rule, cause }) => {
            &&& rule < rules.len()
            &&& decided_before(rules, rendered, rule as int)
            &&& rule_flag(rules[rule as int], rendered[rule as int]) == Err::<
                bool,
                ConditionError,
            >(cause)
            &&& all_compile(active_patterns(rules.take(rule as int), active))
        },
        Err(IgnoreError::Glob { pattern, error }) => exists|count: int|
            0 <= count <= rules.len() && #[trigger] decided_before(rules, rendered, count)
                && fails_with(IgnoreError::Glob { pattern, error }, rules.take(count), active),
        Err(IgnoreError::GlobSet(error)) => {
            &&& decided_before(rules, rendered, rules.len() as int)
            &&& fails_with(IgnoreError::GlobSet(error), rules, active)
        },
    }
}

/// The templates that decide the conditions of the rules, rule by rule: `None` for a rule
/// without a condition.
pub fn condition_templates(ignore: &Vec<FileIgnore>) -> (templates: Vec<Option<String>>)
    ensures
        templates@.len() == ignore@.len(),
        forall|i: int|
            0 <= i < ignore@.len() ==> match #[trigger] templates@[i] {
                Some(template) => ignore@[i].condition.is_some() && template@ == template_of(
                    ignore@[i].condition->0@,
                ),
                None => ignore@[i].condition.is_none(),
            },
{
    let mut templates: Vec<Option<String>> = Vec::new();
    let mut i: usize = 0;
    while i < ignore.len()
        invariant
            i <= ignore.len(),
            templates@.len() == i,
            forall|j: int|
                0 <= j < i ==> match #[trigger] templates@[j] {
                    Some(template) => ignore@[j].condition.is_some() && template@ == template_of(
                        ignore@[j].condition->0@,
                    ),
                    None => ignore@[j].condition.is_none(),
                },
        decreases ignore.len() - i,
    {
        let template = match &ignore[i].condition {
            Some(condition) => Some(condition_template(condition.as_str())),
            None => None,
        };
        templates.push(template);
        i = i + 1;
    }
    templates
}

/// Filter the collected files from `collect_files` with the given ignore rules. `rendered`
/// holds, rule by rule, what the template engine made of the templates that
/// `condition_templates` gives, rendered against the context.
///
/// The rules are taken in their order: the condition of a rule is decided from what was
/// rendered for it, and the patterns of a rule that is active are taken in. The first
/// condition that cannot be decided, or pattern that is no glob, is the error. Then each
/// file is held against the patterns: a file that a rule leaves out altogether is marked as
/// skipped; else one that a rule keeps from being a template is copied; else one that a
/// rule keeps from being copied is rendered. Without rules the files come back as they
/// were.
pub fn filter_ignored(
    files: Vec<RepoFile>,
    rendered: Vec<Option<Result<String, tera::Error>>>,
    ignore: Vec<FileIgnore>,
) -> (result: Result<Vec<RepoFile>, IgnoreError>)
    requires
        rendered_for(ignore@, rendered@),
    ensures
        filtered(result, files@, ignore@, rendered@),
        ignore@.len() == 0 ==> (result matches Ok(out) && out@ == files@),
{
    let ghost rules = ignore@;
    let ghost made = rendered@;
    let ghost flags = rule_flags(rules, made);
    let mut patterns = Patterns::new();
    let mut i: usize = 0;
    assert(rules.take(0) =~= Seq::<FileIgnore>::empty());
    for outcome in it: rendered
        invariant
            it.seq() == made,
            i == it.index(),
            rules == ignore@,
            made.len() == rules.len(),
            flags == rule_flags(rules, made),
            decided_before(rules, made, i as int),
            gathered(patterns, rules, flags, i as int),
    {
        assert(i < ignore.len());
        let rule = &ignore[i];
        let active = match (&rule.condition, outcome) {
            (Some(_), Some(text)) => match evaluate(text) {
                Ok(active) => active,
                Err(cause) => {
                    return Err(IgnoreError::Condition { rule: i, cause });
                },
            },
            _ => true,
        };
        assert(rule_flag(rules[i as int], made[i as int]) == Ok::<bool, ConditionError>(active));
        assert(flags[i as int] == active);
        let ghost before = patterns;
        match patterns.add_rule(rule, active) {
            Ok(()) => {
                proof {
                    lemma_gathered_step(before, patterns, rules, flags, i as int);
                }
            },
            Err(error) => {
                proof {
                    let k = choose|k: int| #[trigger]
                        first_failing(texts(rules[i as int].paths@), k) && error->pattern@
                            == texts(rules[i as int].paths@)[k];
                    let taken = rules.take(i + 1);
                    assert(taken.take(i as int) =~= rules.take(i as int));
                    lemma_gathered_fails(taken, flags, i as int, k);
                    assert(decided_before(rules, made, i + 1));
                }
                return Err(error);
            },
        }
        i = i + 1;
    }
    assert(rules.take(rules.len() as int) =~= rules);
    let built = patterns.build();
    proof {
        lemma_built(patterns, built, rules, flags);
    }
    let matchers = match built {
        Ok(matchers) => matchers,
        Err(error) => {
            return Err(error);
        },
    };
    let out = matchers.classify_all(files);
    proof {
        lemma_ruled_by(matchers, out@, files@, rules, flags);
        if rules.len() == 0 {
            lemma_no_patterns_change_nothing(out@, files@, rules, flags);
        }
    }
    Ok(out)
}

/// The patterns of an active rule are among the patterns of its stage.
proof fn lemma_rule_in_scope(rules: Seq<FileIgnore>, active: Seq<bool>, rule: int, path: int)
    requires
        0 <= rule < rules.len() <= active.len(),
        active[rule],
        0 <= path < rules[rule].paths@.len(),
    ensures
        scope_patterns(rules, active, rules[rule].scope).contains(rules[rule].paths@[path]@),
    decreases rules.len(),
{
    let scope = rules[rule].scope;
    let before = scope_patterns(rules.drop_last(), active, scope);
    let all = scope_patterns(rules, active, scope);
    if rule == rules.len() - 1 {
        let own = texts(rules.last().paths@);
        assert(all == before + own);
        assert(all[before.len() + path] == own[path]);
    } else {
        lemma_rule_in_scope(rules.drop_last(), active, rule, path);
        let wanted = rules[rule].paths@[path]@;
        let k = choose|k: int| 0 <= k < before.len() && before[k] == wanted;
        assert(all[k] == wanted);
    }
}

/// A file that an active rule for all stages matches is skipped, whatever it was classified
/// as and whatever the rules of the other stages say of it.
pub proof fn lemma_all_stages_rule_skips(
    rules: Seq<FileIgnore>,
    active: Seq<bool>,
    rule: int,
    path: int,
    current: Classification,
    name: Seq<char>,
)
    requires
        0 <= rule < rules.len(),
        rules.len() == active.len(),
        active[rule],
        rules[rule].scope == IgnoreScope::AllStages,
        0 <= path < rules[rule].paths@.len(),
        glob::glob_matches(rules[rule].paths@[path]@, name),
    ensures
        ruled(rules, active, current, name) == Classification::Skip,
{
    lemma_rule_in_scope(rules, active, rule, path);
    let patterns = scope_patterns(rules, active, IgnoreScope::AllStages);
    let wanted = rules[rule].paths@[path]@;
    let k = choose|k: int| 0 <= k < patterns.len() && patterns[k] == wanted;
    assert(glob::glob_matches(patterns[k], name));
}

} // verus!
