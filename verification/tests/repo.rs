use cargo_hatch::repo::{find_repo_name, is_remote_repository};

#[test]
fn parse_git_url() {
    for input in &[
        "git@github.com:rust-lang/git2-rs",
        "git@github.com:rust-lang/git2-rs.git",
        "http://github.com/rust-lang/git2-rs",
        "http://github.com/rust-lang/git2-rs.git",
        "https://github.com/rust-lang/git2-rs",
        "https://github.com/rust-lang/git2-rs.git",
    ] {
        assert_eq!(Some("rust-lang/git2-rs"), find_repo_name(input));
    }
}

#[test]
fn repo_name_needs_exactly_one_slash() {
    assert_eq!(None, find_repo_name("git@github.com:git2-rs.git"));
    assert_eq!(None, find_repo_name("https://github.com/a/b/c"));
    assert_eq!(None, find_repo_name("https://github.com"));
    assert_eq!(None, find_repo_name("git@github.com"));
    assert_eq!(None, find_repo_name("ftp://github.com/a/b"));
    assert_eq!(None, find_repo_name(""));
    assert_eq!(Some("a/b"), find_repo_name("git@host:a/b"));
    assert_eq!(Some("a/"), find_repo_name("http://host/a/.git"));
    assert_eq!(Some("ä/ö"), find_repo_name("https://host/ä/ö.git"));
}

#[test]
fn remote_repositories_are_told_by_their_prefix() {
    assert!(is_remote_repository("git@github.com:a/b"));
    assert!(is_remote_repository("http://github.com/a/b"));
    assert!(is_remote_repository("https://github.com/a/b"));
    assert!(!is_remote_repository("/home/me/templates"));
    assert!(!is_remote_repository("templates/http:"));
    assert!(!is_remote_repository(""));
}
