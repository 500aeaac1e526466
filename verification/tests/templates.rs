use cargo_hatch::settings::repo::condition::ConditionError;
use cargo_hatch::settings::{FileIgnore, IgnoreScope};
use cargo_hatch::templates::render::{render_steps, template_files, RenderStep};
use cargo_hatch::templates::{
    apply_rules, collect_files, condition_templates, filter_ignored, is_binary, keeps_entry,
    reclassify, Classification, IgnoreError, Matchers, Patterns, RepoFile,
};

fn found(names: &[&str]) -> Vec<(String, String)> {
    names
        .iter()
        .map(|name| (format!("/template/{name}"), (*name).to_owned()))
        .collect()
}

fn rule(paths: &[&str], condition: Option<&str>, scope: IgnoreScope) -> FileIgnore {
    FileIgnore {
        paths: paths.iter().map(|p| (*p).to_owned()).collect(),
        condition: condition.map(str::to_owned),
        scope,
    }
}

fn context(crate_bin: bool) -> tera::Context {
    let mut context = tera::Context::new();
    context.insert("crate_bin", &crate_bin);
    context.insert("crate_lib", &!crate_bin);
    context.insert("project_name", "demo");
    context
}

fn filter(
    files: Vec<RepoFile>,
    context: &tera::Context,
    rules: Vec<FileIgnore>,
) -> Result<Vec<RepoFile>, IgnoreError> {
    let rendered = condition_templates(&rules)
        .into_iter()
        .map(|template| template.map(|template| tera::Tera::one_off(&template, context, false)))
        .collect();
    filter_ignored(files, rendered, rules)
}

fn classes(files: &[RepoFile]) -> Vec<(&str, Classification)> {
    files.iter().map(|f| (f.name(), f.classification())).collect()
}

fn ruled(names: &[&str], rules: Vec<FileIgnore>) -> Vec<(String, Classification)> {
    let files = filter(collect_files(found(names)), &context(true), rules)
        .ok()
        .unwrap();
    files
        .iter()
        .map(|f| (f.name().to_owned(), f.classification()))
        .collect()
}

fn class_of(name: &str, rules: Vec<FileIgnore>) -> Classification {
    ruled(&[name], rules)[0].1
}

fn steps(list: &[RenderStep]) -> Vec<String> {
    list.iter()
        .map(|step| match step {
            RenderStep::CreateDir { path } => format!("dir {path}"),
            RenderStep::Render { name } => format!("render {name}"),
            RenderStep::Copy { from, name } => format!("copy {from} {name}"),
        })
        .collect()
}

use Classification::{CopyVerbatim, Render, Skip};
use IgnoreScope::{AllStages, RenderOnly, TemplateOnly};

#[test]
fn files_are_classified_by_their_media_type() {
    for name in [
        "logo.png", "photo.JPG", "anim.gif", "icon.ico", "sound.mp3", "sound.ogg", "clip.mp4",
        "font.woff2", "font.ttf", "manual.pdf", "data.bin", "dir/deep/logo.svg",
    ] {
        assert!(is_binary(name), "{name}");
    }
    for name in [
        "Cargo.toml", "README.md", "src/main.rs", "index.html", "style.css", "data.json",
        "script.js", "LICENSE", ".gitignore", "noextension", "archive.zip", "strange.unknownext",
        "",
    ] {
        assert!(!is_binary(name), "{name}");
    }
}

#[test]
fn the_walk_leaves_out_what_configures_the_template() {
    assert!(!keeps_entry(".git"));
    assert!(!keeps_entry(".hatch.toml"));
    assert!(!keeps_entry(".hatchignore"));
    assert!(keeps_entry(".gitignore"));
    assert!(keeps_entry(".github"));
    assert!(keeps_entry("git"));
    assert!(keeps_entry(".hatch.toml.bak"));
    assert!(keeps_entry("src"));
    assert!(keeps_entry(""));
}

#[test]
fn collected_files_keep_their_order_and_paths() {
    let files = collect_files(found(&["Cargo.toml", "logo.png", "src/main.rs"]));
    assert_eq!(
        vec![("Cargo.toml", Render), ("logo.png", CopyVerbatim), ("src/main.rs", Render)],
        classes(&files)
    );
    assert_eq!("/template/logo.png", files[1].path());
    assert!(collect_files(Vec::new()).is_empty());
    let file = RepoFile::new("/somewhere/else.pdf".to_owned(), "else.pdf".to_owned());
    assert_eq!(("/somewhere/else.pdf", "else.pdf"), (file.path(), file.name()));
    assert_eq!(CopyVerbatim, file.classification());
}

#[test]
fn a_star_stays_within_one_directory() {
    let all = |pattern: &str| vec![rule(&[pattern], None, AllStages)];
    assert_eq!(Skip, class_of("src/main.rs", all("src/*.rs")));
    assert_eq!(Render, class_of("src/sub/main.rs", all("src/*.rs")));
    assert_eq!(Render, class_of("main.rs", all("src/*.rs")));
    assert_eq!(Render, class_of("src/main.rs", all("*.rs")));
    assert_eq!(Skip, class_of("main.rs", all("*.rs")));
    assert_eq!(Skip, class_of("src/sub/main.rs", all("**/*.rs")));
    assert_eq!(Skip, class_of("src/sub/main.rs", all("src/**")));
    assert_eq!(Skip, class_of("src/sub/main.rs", all("src/*/main.rs")));
    assert_eq!(Render, class_of("src/a/b/main.rs", all("src/*/main.rs")));
    assert_eq!(Skip, class_of("Cargo.toml", all("Cargo.toml")));
    assert_eq!(Render, class_of("cargo.toml", all("Cargo.toml")));
    assert_eq!(Skip, class_of("a.txt", all("?.txt")));
    assert_eq!(Render, class_of("/.txt", all("?.txt")));
    assert_eq!(Skip, class_of("b.txt", all("[a-c].txt")));
    assert_eq!(Skip, class_of("b.md", all("*.{txt,md}")));
    assert_eq!(Render, class_of("b.rs", all("*.{txt,md}")));
}

#[test]
fn the_rules_of_a_stage_decide_in_their_precedence() {
    assert_eq!(Skip, reclassify(Render, true, false, false));
    assert_eq!(Skip, reclassify(Render, true, true, false));
    assert_eq!(Skip, reclassify(CopyVerbatim, true, false, true));
    assert_eq!(Skip, reclassify(CopyVerbatim, true, true, true));
    assert_eq!(CopyVerbatim, reclassify(Render, false, true, false));
    assert_eq!(CopyVerbatim, reclassify(Render, false, true, true));
    assert_eq!(Render, reclassify(CopyVerbatim, false, false, true));
    assert_eq!(Render, reclassify(Render, false, false, true));
    assert_eq!(Render, reclassify(Render, false, false, false));
    assert_eq!(CopyVerbatim, reclassify(CopyVerbatim, false, false, false));
    assert_eq!(Skip, reclassify(Skip, false, false, false));
}

#[test]
fn a_file_that_is_left_out_is_never_copied() {
    let both = |first: IgnoreScope, second: IgnoreScope| {
        vec![rule(&["*.toml"], None, first), rule(&["Cargo.*"], None, second)]
    };
    assert_eq!(Skip, class_of("Cargo.toml", both(AllStages, TemplateOnly)));
    assert_eq!(Skip, class_of("Cargo.toml", both(TemplateOnly, AllStages)));
    assert_eq!(Skip, class_of("Cargo.toml", both(AllStages, RenderOnly)));
    assert_eq!(Skip, class_of("Cargo.toml", both(RenderOnly, AllStages)));
    assert_eq!(CopyVerbatim, class_of("Cargo.toml", both(TemplateOnly, RenderOnly)));
    assert_eq!(CopyVerbatim, class_of("Cargo.toml", both(RenderOnly, TemplateOnly)));
    assert_eq!(
        Skip,
        class_of(
            "logo.png",
            vec![
                rule(&["*.png"], None, RenderOnly),
                rule(&["*.png"], None, TemplateOnly),
                rule(&["unrelated", "logo.*"], None, AllStages),
            ]
        )
    );
}

#[test]
fn rules_override_what_the_name_tells() {
    assert_eq!(Render, class_of("logo.svg", vec![rule(&["*.svg"], None, RenderOnly)]));
    assert_eq!(CopyVerbatim, class_of("page.html", vec![rule(&["*.html"], None, TemplateOnly)]));
    assert_eq!(CopyVerbatim, class_of("logo.svg", vec![rule(&["*.html"], None, RenderOnly)]));
    assert_eq!(Render, class_of("page.html", vec![rule(&["*.svg"], None, TemplateOnly)]));
    assert_eq!(Render, class_of("page.html", Vec::new()));
    assert_eq!(Render, class_of("page.html", vec![rule(&[], None, AllStages)]));
}

#[test]
fn files_keep_their_order_under_the_rules() {
    let rules = vec![
        rule(&["src/bin/*"], None, AllStages),
        rule(&["*.md", "docs/*"], None, TemplateOnly),
        rule(&["assets/*.svg"], None, RenderOnly),
    ];
    assert_eq!(
        vec![
            ("Cargo.toml".to_owned(), Render),
            ("src/bin/tool.rs".to_owned(), Skip),
            ("README.md".to_owned(), CopyVerbatim),
            ("docs/guide.html".to_owned(), CopyVerbatim),
            ("assets/logo.svg".to_owned(), Render),
            ("assets/logo.png".to_owned(), CopyVerbatim),
            ("src/lib.rs".to_owned(), Render),
        ],
        ruled(
            &[
                "Cargo.toml",
                "src/bin/tool.rs",
                "README.md",
                "docs/guide.html",
                "assets/logo.svg",
                "assets/logo.png",
                "src/lib.rs",
            ],
            rules
        )
    );
}

#[test]
fn a_rule_holds_only_while_its_condition_does() {
    let rules = || {
        vec![
            rule(&["src/main.rs"], Some("crate_lib"), AllStages),
            rule(&["src/lib.rs"], Some("crate_bin"), AllStages),
            rule(&["*.md"], None, TemplateOnly),
        ]
    };
    let names = ["src/main.rs", "src/lib.rs", "README.md"];
    let files = filter(collect_files(found(&names)), &context(true), rules())
        .ok()
        .unwrap();
    assert_eq!(
        vec![("src/main.rs", Render), ("src/lib.rs", Skip), ("README.md", CopyVerbatim)],
        classes(&files)
    );
    let files = filter(collect_files(found(&names)), &context(false), rules())
        .ok()
        .unwrap();
    assert_eq!(
        vec![("src/main.rs", Skip), ("src/lib.rs", Render), ("README.md", CopyVerbatim)],
        classes(&files)
    );
    let files = apply_rules(collect_files(found(&names)), &rules(), &vec![false, true, true])
        .ok()
        .unwrap();
    assert_eq!(
        vec![("src/main.rs", Render), ("src/lib.rs", Skip), ("README.md", CopyVerbatim)],
        classes(&files)
    );
}

#[test]
fn a_condition_that_is_no_boolean_stops_the_filter() {
    let rules = vec![rule(&["*"], Some("project_name"), AllStages)];
    assert!(matches!(
        filter(collect_files(found(&["a"])), &context(true), rules),
        Err(IgnoreError::Condition { rule: 0, cause: ConditionError::NotBoolean(text) })
            if text == "demo"
    ));
    let rules = vec![
        rule(&["*"], None, AllStages),
        rule(&["*"], Some("crate_bin"), AllStages),
        rule(&["*"], Some("missing"), AllStages),
        rule(&["*"], Some("project_name"), AllStages),
    ];
    assert!(matches!(
        filter(collect_files(found(&["a"])), &context(true), rules),
        Err(IgnoreError::Condition { rule: 2, cause: ConditionError::Render(_) })
    ));
}

#[test]
fn a_pattern_that_is_no_glob_stops_the_filter() {
    let rules = vec![
        rule(&["fine/*", "bad[", "worse{"], None, TemplateOnly),
        rule(&["first{"], None, RenderOnly),
    ];
    assert!(matches!(
        filter(collect_files(found(&["a"])), &context(true), rules),
        Err(IgnoreError::Glob { pattern, .. }) if pattern == "bad["
    ));
    let rules = vec![
        rule(&["late{"], None, RenderOnly),
        rule(&["later["], None, TemplateOnly),
        rule(&["fine"], None, AllStages),
    ];
    assert!(matches!(
        apply_rules(collect_files(found(&["a"])), &rules, &vec![true, true, true]),
        Err(IgnoreError::Glob { pattern, .. }) if pattern == "late{"
    ));
    assert!(matches!(
        apply_rules(collect_files(found(&["a"])), &rules, &vec![false, true, true]),
        Err(IgnoreError::Glob { pattern, .. }) if pattern == "later["
    ));
    let files = apply_rules(collect_files(found(&["fine"])), &rules, &vec![false, false, true])
        .ok()
        .unwrap();
    assert_eq!(vec![("fine", Skip)], classes(&files));
    let rules = vec![rule(&["bad["], Some("crate_lib"), AllStages)];
    assert_eq!(Render, class_of("bad[", rules));
}

#[test]
fn a_pattern_that_is_no_glob_is_an_error_without_any_file() {
    let rules = vec![rule(&["src/["], None, AllStages)];
    assert!(matches!(
        filter(Vec::new(), &tera::Context::new(), rules),
        Err(IgnoreError::Glob { pattern, .. }) if pattern == "src/["
    ));
    let rules = vec![rule(&["src/["], None, AllStages)];
    assert!(matches!(
        apply_rules(Vec::new(), &rules, &vec![true]),
        Err(IgnoreError::Glob { pattern, .. }) if pattern == "src/["
    ));
    let rules = vec![rule(&["src/["], None, AllStages)];
    assert!(apply_rules(Vec::new(), &rules, &vec![false]).is_ok());
}

#[test]
fn without_rules_the_files_stay_as_they_are() {
    let names = ["Cargo.toml", "logo.png", "src/main.rs"];
    let before = collect_files(found(&names));
    let before: Vec<(String, String, Classification)> = before
        .iter()
        .map(|f| (f.path().to_owned(), f.name().to_owned(), f.classification()))
        .collect();
    let after = filter(collect_files(found(&names)), &context(true), Vec::new())
        .ok()
        .unwrap();
    let after: Vec<(String, String, Classification)> = after
        .iter()
        .map(|f| (f.path().to_owned(), f.name().to_owned(), f.classification()))
        .collect();
    assert_eq!(before, after);
    assert!(filter(Vec::new(), &tera::Context::new(), Vec::new())
        .ok()
        .unwrap()
        .is_empty());
    let rules = vec![rule(&[], None, AllStages), rule(&["*"], Some("crate_lib"), AllStages)];
    let after = filter(collect_files(found(&names)), &context(true), rules)
        .ok()
        .unwrap();
    assert_eq!(
        vec![("Cargo.toml", Render), ("logo.png", CopyVerbatim), ("src/main.rs", Render)],
        classes(&after)
    );
}

#[test]
fn the_first_rule_that_goes_wrong_is_the_error() {
    let rules = vec![
        rule(&["fine"], Some("crate_bin"), AllStages),
        rule(&["bad["], None, RenderOnly),
        rule(&["*"], Some("missing"), AllStages),
    ];
    assert!(matches!(
        filter(collect_files(found(&["a"])), &context(true), rules),
        Err(IgnoreError::Glob { pattern, .. }) if pattern == "bad["
    ));
    let rules = vec![
        rule(&["fine"], Some("crate_bin"), AllStages),
        rule(&["*"], Some("missing"), AllStages),
        rule(&["bad["], None, RenderOnly),
    ];
    assert!(matches!(
        filter(collect_files(found(&["a"])), &context(true), rules),
        Err(IgnoreError::Condition { rule: 1, cause: ConditionError::Render(_) })
    ));
    let rules = vec![
        rule(&["bad["], Some("crate_lib"), AllStages),
        rule(&["*"], Some("project_name"), AllStages),
    ];
    assert!(matches!(
        filter(collect_files(found(&["a"])), &context(true), rules),
        Err(IgnoreError::Condition { rule: 1, cause: ConditionError::NotBoolean(text) })
            if text == "demo"
    ));
}

#[test]
fn rules_are_taken_in_one_by_one() {
    let mut patterns = Patterns::new();
    assert!(patterns.add_rule(&rule(&["*.lock"], None, AllStages), true).is_ok());
    assert!(patterns.add_rule(&rule(&["*.md", "bad["], None, TemplateOnly), false).is_ok());
    assert!(patterns.add_rule(&rule(&["*.md"], None, TemplateOnly), true).is_ok());
    assert!(patterns.add_rule(&rule(&[], None, RenderOnly), true).is_ok());
    assert!(matches!(
        patterns.add_rule(&rule(&["*.svg", "bad[", "worse{"], None, RenderOnly), true),
        Err(IgnoreError::Glob { pattern, .. }) if pattern == "bad["
    ));
    let matchers = patterns.build().ok().unwrap();
    let class = |name: &str| matchers.classify(&RepoFile::new(name.to_owned(), name.to_owned()));
    assert_eq!(Skip, class("Cargo.lock"));
    assert_eq!(CopyVerbatim, class("README.md"));
    assert_eq!(Render, class("logo.svg"));
    assert_eq!(CopyVerbatim, class("logo.png"));
    let files = matchers.classify_all(collect_files(found(&["a.md", "b.lock", "c.rs"])));
    assert_eq!(
        vec![("a.md", CopyVerbatim), ("b.lock", Skip), ("c.rs", Render)],
        classes(&files)
    );
    assert_eq!("/template/b.lock", files[1].path());

    let empty = Patterns::new().build().ok().unwrap();
    assert_eq!(
        Render,
        empty.classify(&RepoFile::new("a.rs".to_owned(), "a.rs".to_owned()))
    );
    let mut patterns = Patterns::new();
    let long = format!("a?{}", "b".repeat(2_000_000));
    assert!(patterns.add_rule(&rule(&[&long], None, TemplateOnly), true).is_ok());
    assert!(matches!(patterns.build(), Err(IgnoreError::GlobSet(_))));
}

#[test]
fn patterns_that_are_too_much_together_stop_the_filter() {
    let long = format!("a?{}", "b".repeat(2_000_000));
    let rules = vec![rule(&[&long], None, AllStages)];
    assert!(matches!(
        filter(collect_files(found(&["a"])), &context(true), rules),
        Err(IgnoreError::GlobSet(_))
    ));
}

#[test]
fn matchers_classify_single_files() {
    let rules = vec![
        rule(&["*.lock"], None, AllStages),
        rule(&["*.md"], None, TemplateOnly),
        rule(&["*.svg"], None, RenderOnly),
    ];
    let matchers = Matchers::new(&rules, &vec![true, true, true]).ok().unwrap();
    let class = |name: &str| matchers.classify(&RepoFile::new(name.to_owned(), name.to_owned()));
    assert_eq!(Skip, class("Cargo.lock"));
    assert_eq!(CopyVerbatim, class("README.md"));
    assert_eq!(Render, class("logo.svg"));
    assert_eq!(CopyVerbatim, class("logo.png"));
    assert_eq!(Render, class("main.rs"));
    let matchers = Matchers::new(&rules, &vec![false, false, false]).ok().unwrap();
    let class = |name: &str| matchers.classify(&RepoFile::new(name.to_owned(), name.to_owned()));
    assert_eq!(Render, class("Cargo.lock"));
    assert_eq!(Render, class("README.md"));
    assert_eq!(CopyVerbatim, class("logo.svg"));
}

#[test]
fn rendering_goes_file_by_file() {
    let files = filter(
        collect_files(found(&["Cargo.toml", "logo.png", "src/bin/main.rs", "notes/todo.md"])),
        &context(true),
        vec![rule(&["notes/*"], None, AllStages)],
    )
    .ok()
    .unwrap();
    assert_eq!(
        vec![
            "dir ",
            "render Cargo.toml",
            "dir ",
            "copy /template/logo.png logo.png",
            "dir src/bin",
            "render src/bin/main.rs",
        ],
        steps(&render_steps(&files))
    );
    assert_eq!(
        vec![
            ("/template/Cargo.toml".to_owned(), "Cargo.toml".to_owned()),
            ("/template/src/bin/main.rs".to_owned(), "src/bin/main.rs".to_owned()),
        ],
        template_files(&files)
    );
    assert!(render_steps(&Vec::new()).is_empty());
    assert!(template_files(&Vec::new()).is_empty());
}

#[test]
fn a_file_without_a_directory_above_it_gets_none() {
    let files = vec![
        RepoFile::new("/x".to_owned(), "".to_owned()),
        RepoFile::new("/y".to_owned(), "/".to_owned()),
        RepoFile::new("/z".to_owned(), "/top.txt".to_owned()),
        RepoFile::new("/w".to_owned(), "a/b/../c.txt".to_owned()),
    ];
    assert_eq!(
        vec![
            "render ",
            "render /",
            "dir /",
            "render /top.txt",
            "dir a/b/..",
            "render a/b/../c.txt",
        ],
        steps(&render_steps(&files))
    );
}

#[test]
fn a_template_with_a_file_for_each_treatment_is_generated() {
    let files = collect_files(found(&["Cargo.toml", "logo.png"]));
    let files = filter(files, &context(true), Vec::new()).ok().unwrap();
    assert_eq!(vec![("Cargo.toml", Render), ("logo.png", CopyVerbatim)], classes(&files));
    assert_eq!(
        vec!["dir ", "render Cargo.toml", "dir ", "copy /template/logo.png logo.png"],
        steps(&render_steps(&files))
    );
    let mut engine = tera::Tera::default();
    for (_, name) in template_files(&files) {
        engine
            .add_raw_template(&name, "[package]\nname = \"{{ project_name }}\"\n")
            .unwrap();
    }
    assert_eq!(
        "[package]\nname = \"demo\"\n",
        engine.render("Cargo.toml", &context(true)).unwrap()
    );
}

#[test]
fn each_condition_has_its_template() {
    let rules = vec![
        rule(&["a"], Some("crate_bin"), AllStages),
        rule(&["b"], None, AllStages),
        rule(&[], Some("{% if x %}true{% else %}false{% endif %}"), RenderOnly),
    ];
    assert_eq!(
        vec![
            Some("{{ crate_bin }}".to_owned()),
            None,
            Some("{% if x %}true{% else %}false{% endif %}".to_owned()),
        ],
        condition_templates(&rules)
    );
    assert!(condition_templates(&Vec::new()).is_empty());
}

#[test]
fn rules_are_decided_from_what_was_rendered() {
    let rules = || {
        vec![
            rule(&["*.md"], Some("a"), AllStages),
            rule(&["*.rs"], None, TemplateOnly),
            rule(&["*.png"], Some("b"), RenderOnly),
        ]
    };
    let names = ["a.md", "b.rs", "c.png"];
    let files = filter_ignored(
        collect_files(found(&names)),
        vec![Some(Ok("true".to_owned())), None, Some(Ok(" false ".to_owned()))],
        rules(),
    )
    .ok()
    .unwrap();
    assert_eq!(
        vec![("a.md", Skip), ("b.rs", CopyVerbatim), ("c.png", CopyVerbatim)],
        classes(&files)
    );
    let files = filter_ignored(
        collect_files(found(&names)),
        vec![
            Some(Ok("false".to_owned())),
            Some(Ok("what is rendered for a rule without a condition means nothing".to_owned())),
            Some(Ok("true".to_owned())),
        ],
        rules(),
    )
    .ok()
    .unwrap();
    assert_eq!(
        vec![("a.md", Render), ("b.rs", CopyVerbatim), ("c.png", Render)],
        classes(&files)
    );
    assert!(matches!(
        filter_ignored(
            collect_files(found(&names)),
            vec![Some(Ok("true".to_owned())), None, Some(Ok("yes".to_owned()))],
            rules(),
        ),
        Err(IgnoreError::Condition { rule: 2, cause: ConditionError::NotBoolean(text) })
            if text == "yes"
    ));
}
