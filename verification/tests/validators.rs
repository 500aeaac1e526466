use cargo_hatch::settings::repo::validators::{
    Ident, Krate, Regex, Required, Semver, SemverReq, Validation,
};

#[allow(clippy::needless_pass_by_value)]
fn valid(result: Validation) -> bool {
    matches!(result, Validation::Valid)
}

#[allow(clippy::needless_pass_by_value)]
fn invalid(result: Validation) -> bool {
    matches!(result, Validation::Invalid(_))
}

fn reason(result: Validation) -> String {
    match result {
        Validation::Valid => panic!("the input was accepted"),
        Validation::Invalid(reason) => reason,
    }
}

#[test]
fn validate_required() {
    assert!(valid(Required.validate("a")));
    assert!(invalid(Required.validate("")));
}

#[test]
fn validate_krate() {
    assert!(valid(Krate.validate("anyhow")));
    assert!(valid(Krate.validate("tower-http")));
    assert!(valid(Krate.validate("tower_http")));
    assert!(invalid(Krate.validate("?")));
    assert!(invalid(Krate.validate("")));
}

#[test]
fn validate_ident() {
    assert!(valid(Ident.validate("test")));
    assert!(valid(Ident.validate("TEST")));
    assert!(valid(Ident.validate("teST")));
    assert!(valid(Ident.validate("Test")));
    assert!(valid(Ident.validate("_test")));
    assert!(valid(Ident.validate("_TEST")));
    assert!(invalid(Ident.validate("_")));
    assert!(invalid(Ident.validate("?")));
    assert!(invalid(Ident.validate("")));
}

#[test]
fn validate_semver() {
    assert!(valid(Semver.validate("1.0.0")));
    assert!(valid(Semver.validate("1.0.0-beta.1")));
    assert!(valid(Semver.validate("1.0.0+abc")));
    assert!(invalid(Semver.validate("1.0")));
    assert!(invalid(Semver.validate("1")));
    assert!(invalid(Semver.validate("")));
}

#[test]
fn validate_semver_req() {
    assert!(valid(SemverReq.validate("1.0.0")));
    assert!(valid(SemverReq.validate("1.0.0-beta.1")));
    assert!(valid(SemverReq.validate("1.0.0+abc")));
    assert!(valid(SemverReq.validate("1.0")));
    assert!(valid(SemverReq.validate("1")));
    assert!(invalid(SemverReq.validate("")));
}

#[test]
fn validate_regex() {
    assert!(valid(Regex("^[a-z]+$".parse().unwrap()).validate("test")));
    assert!(invalid(
        Regex("^[a-z]+$".parse().unwrap()).validate("test1")
    ));
    assert!(invalid(Regex("^[a-z]+$".parse().unwrap()).validate("1")));
    assert!(invalid(Regex("^[a-z]+$".parse().unwrap()).validate("")));
}

#[test]
fn required_says_why() {
    assert_eq!("A response is required.", reason(Required.validate("")));
    assert!(valid(Required.validate(" ")));
}

#[test]
fn crate_names_are_ascii_and_short() {
    assert_eq!(
        "value must be a valid crate name",
        reason(Krate.validate("1abc"))
    );
    assert!(invalid(Krate.validate("_abc")));
    assert!(invalid(Krate.validate("-abc")));
    assert!(invalid(Krate.validate("ab c")));
    assert!(invalid(Krate.validate("äbc")));
    assert!(invalid(Krate.validate("abç")));
    assert!(valid(Krate.validate("a")));
    assert!(valid(Krate.validate("Z9_-")));
    let longest = "a".repeat(64);
    assert!(valid(Krate.validate(&longest)));
    let too_long = "a".repeat(65);
    assert!(invalid(Krate.validate(&too_long)));
}

#[test]
fn identifiers_follow_unicode_and_keywords() {
    assert_eq!(
        "value must be a valid Rust identifier",
        reason(Ident.validate("match"))
    );
    assert!(invalid(Ident.validate("fn")));
    assert!(invalid(Ident.validate("self")));
    assert!(invalid(Ident.validate("async")));
    assert!(invalid(Ident.validate("1abc")));
    assert!(invalid(Ident.validate("a-b")));
    assert!(invalid(Ident.validate("a b")));
    assert!(invalid(Ident.validate("_?")));
    assert!(valid(Ident.validate("__")));
    assert!(valid(Ident.validate("_1")));
    assert!(valid(Ident.validate("a1")));
    assert!(valid(Ident.validate("größe")));
    assert!(valid(Ident.validate("matches")));
    assert!(valid(Ident.validate("union")));
}

#[test]
fn semver_reasons_carry_the_parser_words() {
    let text = reason(Semver.validate("1.0"));
    assert!(text.starts_with("value is not a valid sematic version: "));
    assert!(text.len() > "value is not a valid sematic version: ".len());
    let text = reason(SemverReq.validate("not a requirement"));
    assert!(text.starts_with("value is not a valid sematic version spec: "));
    assert!(text.len() > "value is not a valid sematic version spec: ".len());
    assert!(valid(SemverReq.validate(">=1.2, <2")));
    assert!(valid(SemverReq.validate("*")));
    assert!(invalid(Semver.validate("*")));
}

#[test]
fn regex_searches_anywhere_and_names_its_pattern() {
    assert!(valid(Regex("b+".to_owned()).validate("abba")));
    assert!(invalid(Regex("^b+$".to_owned()).validate("abba")));
    assert_eq!(
        "value must match regex pattern `^[a-z]+$`",
        reason(Regex("^[a-z]+$".to_owned()).validate("test1"))
    );
    assert_eq!(
        "value must match regex pattern `(`",
        reason(Regex("(".to_owned()).validate("("))
    );
}
