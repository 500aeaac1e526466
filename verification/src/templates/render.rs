//! What rendering does, file by file: which files are loaded as templates, and the steps
//! that fill the target directory.

use super::{Classification, RepoFile};
use vstd::prelude::*;
use vstd::string::StringExecFns;

verus! {

/// The path without its final component, as `camino` tells; `None` for a path that ends in
/// a root, and for the empty one.
pub uninterp spec fn path_parent(path: Seq<char>) -> Option<Seq<char>>;

/// `Utf8Path::parent`: the path without its final component, if there is one.
#[verifier::external_body]
fn parent(path: &str) -> (parent: Option<String>)
    ensures
        match parent {
            Some(p) => path_parent(path@) == Some(p@),
            None => path_parent(path@).is_none(),
        },
{
    match camino::Utf8Path::new(path).parent() {
        Some(parent) => Some(parent.as_str().to_owned()),
        None => None,
    }
}

/// One step of filling the target directory. Every path is relative to that directory, but
/// the one that a file is copied from.
#[derive(Debug)]
pub enum RenderStep {
    /// Make sure that the directory exists, with the directories above it.
    CreateDir { path: String },
    /// Render the template of this name into the file of the same name.
    Render { name: String },
    /// Copy the file at `from` to the file of this name.
    Copy { from: String, name: String },
}

/// One step of filling the target directory, its paths as characters.
pub enum Step {
    CreateDir { path: Seq<char> },
    Render { name: Seq<char> },
    Copy { from: Seq<char>, name: Seq<char> },
}

impl View for RenderStep {
    type V = Step;

    open spec fn view(&self) -> Step {
        match *self {
            RenderStep::CreateDir { path } => Step::CreateDir { path: path@ },
            RenderStep::Render { name } => Step::Render { name: name@ },
            RenderStep::Copy { from, name } => Step::Copy { from: from@, name: name@ },
        }
    }
}

/// The steps, their paths as characters.
pub open spec fn steps_view(steps: Seq<RenderStep>) -> Seq<Step> {
    Seq::new(steps.len(), |i: int| steps[i]@)
}

/// The steps for one file. Nothing is done for a file that is skipped. For any other the
/// directory it lies in is made first, where its name has one; then the file is rendered
/// where it is a template, and copied where it is not.
pub open spec fn file_steps(file: RepoFile) -> Seq<Step> {
    let name = file.spec_name();
    let directory = match path_parent(name) {
        Some(path) => seq![Step::CreateDir { path }],
        None => Seq::empty(),
    };
    match file.spec_classification() {
        Classification::Skip => Seq::empty(),
        Classification::Render => directory.push(Step::Render { name }),
        Classification::CopyVerbatim => directory.push(
            Step::Copy { from: file.spec_path(), name },
        ),
    }
}

/// The steps for the files, in their order.
pub open spec fn plan_of(files: Seq<RepoFile>) -> Seq<Step>
    decreases files.len(),
{
    if files.len() == 0 {
        Seq::empty()
    } else {
        plan_of(files.drop_last()) + file_steps(files.last())
    }
}

/// The templates among the files, each with its full path and its name, in their order.
pub open spec fn templates_of(files: Seq<RepoFile>) -> Seq<(Seq<char>, Seq<char>)>
    decreases files.len(),
{
    if files.len() == 0 {
        Seq::empty()
    } else if files.last().spec_classification() == Classification::Render {
        templates_of(files.drop_last()).push((files.last().spec_path(), files.last().spec_name()))
    } else {
        templates_of(files.drop_last())
    }
}

/// Paths and names as characters.
pub open spec fn pairs_view(pairs: Seq<(String, String)>) -> Seq<(Seq<char>, Seq<char>)> {
    Seq::new(pairs.len(), |i: int| (pairs[i].0@, pairs[i].1@))
}

/// The files that the template engine has to load before anything is written: those that
/// are rendered, each with the path it is read from and the name it is known by.
pub fn template_files(files: &[RepoFile]) -> (templates: Vec<(String, String)>)
    ensures
        pairs_view(templates@) == templates_of(files@),
{
    let mut templates: Vec<(String, String)> = Vec::new();
    let mut i: usize = 0;
    assert(files@.take(0) =~= Seq::<RepoFile>::empty());
    assert(pairs_view(templates@) =~= templates_of(files@.take(0)));
    while i < files.len()
        invariant
            i <= files.len(),
            pairs_view(templates@) == templates_of(files@.take(i as int)),
        decreases files.len() - i,
    {
        proof {
            assert(files@.take(i + 1).drop_last() =~= files@.take(i as int));
            assert(files@.take(i + 1).last() == files@[i as int]);
        }
        let file = &files[i];
        match file.classification() {
            Classification::Render => {
                let ghost before = templates@;
                templates.push((String::from_str(file.path()), String::from_str(file.name())));
                assert(pairs_view(templates@) =~= pairs_view(before).push(
                    (file.spec_path(), file.spec_name()),
                ));
            },
            _ => {},
        }
        i = i + 1;
    }
    assert(files@.take(files@.len() as int) =~= files@);
    templates
}

/// The steps that fill the target directory with the files, in the order of the files.
pub fn render_steps(files: &[RepoFile]) -> (steps: Vec<RenderStep>)
    ensures
        steps_view(steps@) == plan_of(files@),
{
    let mut steps: Vec<RenderStep> = Vec::new();
    let mut i: usize = 0;
    assert(files@.take(0) =~= Seq::<RepoFile>::empty());
    assert(steps_view(steps@) =~= plan_of(files@.take(0)));
    while i < files.len()
        invariant
            i <= files.len(),
            steps_view(steps@) == plan_of(files@.take(i as int)),
        decreases files.len() - i,
    {
        proof {
            assert(files@.take(i + 1).drop_last() =~= files@.take(i as int));
            assert(files@.take(i + 1).last() == files@[i as int]);
        }
        let file = &files[i];
        let ghost before = steps@;
        let ghost name = file.spec_name();
        match file.classification() {
            Classification::Skip => {},
            classification => {
                let ghost mut directory = Seq::<Step>::empty();
                if let Some(path) = parent(file.name()) {
                    proof {
                        directory = seq![Step::CreateDir { path: path@ }];
                    }
                    steps.push(RenderStep::CreateDir { path });
                }
                assert(steps_view(steps@) =~= steps_view(before) + directory);
                match classification {
                    Classification::Render => {
                        steps.push(RenderStep::Render { name: String::from_str(file.name()) });
                        assert(steps_view(steps@) =~= steps_view(before) + directory.push(
                            Step::Render { name },
                        ));
                    },
                    _ => {
                        steps.push(
                            RenderStep::Copy {
                                from: String::from_str(file.path()),
                                name: String::from_str(file.name()),
                            },
                        );
                        assert(steps_view(steps@) =~= steps_view(before) + directory.push(
                            Step::Copy { from: file.spec_path(), name },
                        ));
                    },
                }
            },
        }
        i = i + 1;
    }
    assert(files@.take(files@.len() as int) =~= files@);
    steps
}

} // verus!
