//! Validators that ensure additional restrictions on input data.

use crate::text::chars_of;
use check_keyword::CheckKeyword;
use vstd::prelude::*;
use vstd::string::StringExecFns;

verus! {

/// What a validator says of an input.
#[derive(Debug)]
pub enum Validation {
    Valid,
    /// The input is refused, for this reason.
    Invalid(String),
}

/// What a validator says of an input, the reason as characters.
pub enum Verdict {
    Valid,
    Invalid(Seq<char>),
}

impl View for Validation {
    type V = Verdict;

    open spec fn view(&self) -> Verdict {
        match *self {
            Validation::Valid => Verdict::Valid,
            Validation::Invalid(reason) => Verdict::Invalid(reason@),
        }
    }
}

/// Whether `c` can begin an identifier, as `unicode_ident::is_xid_start` tells.
pub uninterp spec fn xid_start(c: char) -> bool;

/// Whether `c` can continue an identifier, as `unicode_ident::is_xid_continue` tells.
pub uninterp spec fn xid_continue(c: char) -> bool;

/// Whether `word` is a strict or reserved keyword of Rust, as `check_keyword` tells.
pub uninterp spec fn rust_keyword(word: Seq<char>) -> bool;

/// Why `text` is no semantic version, in the words of `semver`; `None` where it is one.
pub uninterp spec fn version_error(text: Seq<char>) -> Option<Seq<char>>;

/// Why `text` is no requirement on semantic versions, in the words of `semver`; `None` where
/// it is one.
pub uninterp spec fn requirement_error(text: Seq<char>) -> Option<Seq<char>>;

/// Whether the regular expression `pattern` finds a match somewhere in `text`, as `regex`
/// tells; `None` where `regex` does not accept the pattern.
pub uninterp spec fn regex_search(pattern: Seq<char>, text: Seq<char>) -> Option<bool>;

/// `unicode_ident::is_xid_start`: whether the character has the Unicode property XID_Start.
pub assume_specification[ unicode_ident::is_xid_start ](ch: char) -> (b: bool)
    ensures
        b == xid_start(ch),
;

/// `unicode_ident::is_xid_continue`: whether the character has the Unicode property
/// XID_Continue.
pub assume_specification[ unicode_ident::is_xid_continue ](ch: char) -> (b: bool)
    ensures
        b == xid_continue(ch),
;

/// `CheckKeyword::is_keyword`: whether the text is a strict or reserved keyword.
#[verifier::external_body]
fn is_keyword(word: &str) -> (b: bool)
    ensures
        b == rust_keyword(word@),
{
    word.is_keyword()
}

/// `semver::Version::from_str`: the text of the error for a text that is no version.
#[verifier::external_body]
fn parse_version(text: &str) -> (error: Option<String>)
    ensures
        match error {
            Some(e) => version_error(text@) == Some(e@),
            None => version_error(text@).is_none(),
        },
{
    match text.parse::<semver::Version>() {
        Ok(_) => None,
        Err(e) => Some(e.to_string()),
    }
}

/// `semver::VersionReq::from_str`: the text of the error for a text that is no requirement.
#[verifier::external_body]
fn parse_requirement(text: &str) -> (error: Option<String>)
    ensures
        match error {
            Some(e) => requirement_error(text@) == Some(e@),
            None => requirement_error(text@).is_none(),
        },
{
    match text.parse::<semver::VersionReq>() {
        Ok(_) => None,
        Err(e) => Some(e.to_string()),
    }
}

/// `regex::Regex::new` and `Regex::is_match`: whether the pattern finds a match in the text,
/// `None` for a pattern that does not compile.
#[verifier::external_body]
fn search(pattern: &str, text: &str) -> (found: Option<bool>)
    ensures
        found == regex_search(pattern@, text@),
{
    match regex::Regex::new(pattern) {
        Ok(re) => Some(re.is_match(text)),
        Err(_) => None,
    }
}

/// Validate that a value is not empty.
#[derive(Clone, Copy)]
pub struct Required;

/// Validate that a value is a crate name, according to crates.io rules.
#[derive(Clone, Copy)]
pub struct Krate;

/// Validate that a value is a Rust identifier.
#[derive(Clone, Copy)]
pub struct Ident;

/// Validate that a value is a semantic version.
#[derive(Clone, Copy)]
pub struct Semver;

/// Validate that a value is a semantic version requirement specification.
#[derive(Clone, Copy)]
pub struct SemverReq;

/// Validate that a value matches against the given regular expression.
pub struct Regex(pub String);

/// The longest name that a crate can have.
pub const MAX_NAME_LENGTH: usize = 64;

/// Whether `c` is an ASCII letter.
pub open spec fn ascii_letter(c: char) -> bool {
    'a' <= c <= 'z' || 'A' <= c <= 'Z'
}

/// Whether `c` can stand in the name of a crate: an ASCII letter or digit, `_` or `-`.
pub open spec fn crate_name_char(c: char) -> bool {
    ascii_letter(c) || '0' <= c <= '9' || c == '_' || c == '-'
}

/// Whether `name` can be the name of a crate: at most 64 characters, of which the first is
/// a letter and each is an ASCII letter or digit, `_` or `-`.
pub open spec fn is_crate_name(name: Seq<char>) -> bool {
    &&& 0 < name.len() <= MAX_NAME_LENGTH
    &&& ascii_letter(name[0])
    &&& forall|i: int| 0 <= i < name.len() ==> crate_name_char(#[trigger] name[i])
}

/// Whether every character of `text` after the first can continue an identifier.
pub open spec fn continues(text: Seq<char>) -> bool {
    forall|i: int| 1 <= i < text.len() ==> xid_continue(#[trigger] text[i])
}

/// Whether `text` has the form of an identifier: a character that can begin one, or `_` and
/// at least one more character, and then only characters that can continue one.
pub open spec fn identifier_form(text: Seq<char>) -> bool {
    &&& text.len() > 0
    &&& xid_start(text[0]) || (text[0] == '_' && text.len() >= 2)
    &&& continues(text)
}

/// Whether `text` is an identifier of Rust: it has the form of one and is no keyword.
pub open spec fn is_identifier(text: Seq<char>) -> bool {
    identifier_form(text) && !rust_keyword(text)
}

impl Required {
    /// An input is valid where it holds a character at least.
    pub open spec fn verdict(input: Seq<char>) -> Verdict {
        if input.len() == 0 {
            Verdict::Invalid("A response is required."@)
        } else {
            Verdict::Valid
        }
    }

    /// Says whether the input holds anything.
    pub fn validate(&self, input: &str) -> (result: Validation)
        ensures
            result@ == Self::verdict(input@),
    {
        if input.unicode_len() == 0 {
            Validation::Invalid(String::from_str("A response is required."))
        } else {
            Validation::Valid
        }
    }
}

impl Krate {
    /// An input is valid where it can be the name of a crate.
    pub open spec fn verdict(input: Seq<char>) -> Verdict {
        if is_crate_name(input) {
            Verdict::Valid
        } else {
            Verdict::Invalid("value must be a valid crate name"@)
        }
    }

    /// Says whether the input can be the name of a crate.
    pub fn validate(&self, input: &str) -> (result: Validation)
        ensures
            result@ == Self::verdict(input@),
    {
        let chars = chars_of(input);
        if Self::accepts(&chars) {
            Validation::Valid
        } else {
            Validation::Invalid(String::from_str("value must be a valid crate name"))
        }
    }

    /// Whether the characters can be the name of a crate.
    fn accepts(name: &Vec<char>) -> (b: bool)
        ensures
            b == is_crate_name(name@),
    {
        if name.len() == 0 || name.len() > MAX_NAME_LENGTH {
            return false;
        }
        let first = name[0];
        if !(('a' <= first && first <= 'z') || ('A' <= first && first <= 'Z')) {
            return false;
        }
        let mut i: usize = 0;
        while i < name.len()
            invariant
                i <= name.len(),
                forall|j: int| 0 <= j < i ==> crate_name_char(#[trigger] name@[j]),
            decreases name.len() - i,
        {
            let c = name[i];
            if !(('a' <= c && c <= 'z') || ('A' <= c && c <= 'Z') || ('0' <= c && c <= '9') || c
                == '_' || c == '-') {
                assert(!crate_name_char(name@[i as int]));
                return false;
            }
            i = i + 1;
        }
        true
    }
}

impl Ident {
    /// An input is valid where it is an identifier of Rust.
    pub open spec fn verdict(input: Seq<char>) -> Verdict {
        if is_identifier(input) {
            Verdict::Valid
        } else {
            Verdict::Invalid("value must be a valid Rust identifier"@)
        }
    }

    /// Says whether the input is an identifier of Rust.
    pub fn validate(&self, input: &str) -> (result: Validation)
        ensures
            result@ == Self::verdict(input@),
    {
        let chars = chars_of(input);
        if Self::has_form(&chars) && !is_keyword(input) {
            Validation::Valid
        } else {
            Validation::Invalid(String::from_str("value must be a valid Rust identifier"))
        }
    }

    /// Whether the characters have the form of an identifier.
    fn has_form(text: &Vec<char>) -> (b: bool)
        ensures
            b == identifier_form(text@),
    {
        if text.len() == 0 {
            return false;
        }
        let first = text[0];
        if !(unicode_ident::is_xid_start(first) || (first == '_' && text.len() >= 2)) {
            return false;
        }
        let mut i: usize = 1;
        while i < text.len()
            invariant
                1 <= i <= text.len(),
                forall|j: int| 1 <= j < i ==> xid_continue(#[trigger] text@[j]),
            decreases text.len() - i,
        {
            if !unicode_ident::is_xid_continue(text[i]) {
                assert(!xid_continue(text@[i as int]));
                return false;
            }
            i = i + 1;
        }
        true
    }
}

impl Semver {
    /// An input is valid where it is a semantic version; the reason for any other ends in
    /// the words of the parser.
    pub open spec fn verdict(input: Seq<char>) -> Verdict {
        match version_error(input) {
            None => Verdict::Valid,
            Some(e) => Verdict::Invalid("value is not a valid sematic version: "@ + e),
        }
    }

    /// Says whether the input is a semantic version.
    pub fn validate(&self, input: &str) -> (result: Validation)
        ensures
            result@ == Self::verdict(input@),
    {
        match parse_version(input) {
            None => Validation::Valid,
            Some(e) => {
                let mut reason = String::from_str("value is not a valid sematic version: ");
                reason.append(e.as_str());
                Validation::Invalid(reason)
            },
        }
    }
}

impl SemverReq {
    /// An input is valid where it is a requirement on semantic versions; the reason for any
    /// other ends in the words of the parser.
    pub open spec fn verdict(input: Seq<char>) -> Verdict {
        match requirement_error(input) {
            None => Verdict::Valid,
            Some(e) => Verdict::Invalid("value is not a valid sematic version spec: "@ + e),
        }
    }

    /// Says whether the input is a requirement on semantic versions.
    pub fn validate(&self, input: &str) -> (result: Validation)
        ensures
            result@ == Self::verdict(input@),
    {
        match parse_requirement(input) {
            None => Validation::Valid,
            Some(e) => {
                let mut reason = String::from_str("value is not a valid sematic version spec: ");
                reason.append(e.as_str());
                Validation::Invalid(reason)
            },
        }
    }
}

impl Regex {
    /// An input is valid where the pattern finds a match in it. A pattern that is no regular
    /// expression finds none.
    pub open spec fn verdict(pattern: Seq<char>, input: Seq<char>) -> Verdict {
        if regex_search(pattern, input) == Some(true) {
            Verdict::Valid
        } else {
            Verdict::Invalid("value must match regex pattern `"@ + pattern + "`"@)
        }
    }

    /// Says whether the pattern finds a match in the input.
    pub fn validate(&self, input: &str) -> (result: Validation)
        ensures
            result@ == Self::verdict(self.0@, input@),
    {
        match search(self.0.as_str(), input) {
            Some(true) => Validation::Valid,
            _ => {
                let mut reason = String::from_str("value must match regex pattern `");
                reason.append(self.0.as_str());
                reason.append("`");
                Validation::Invalid(reason)
            },
        }
    }
}

} // verus!
