//! Names of template repositories, read off the URL they are fetched from.

use crate::text::{
    after_first, chars_of, count_between, ends_with, find_from, occurrences, slice, starts_with,
    without_suffix,
};
use vstd::prelude::*;

verus! {

/// What a Git URL holds behind its host: behind the first `:` of a `git@` URL, behind the
/// first `/` that follows `http://` or `https://`. `None` for any other text.
pub open spec fn repo_path(url: Seq<char>) -> Option<Seq<char>> {
    if "git@"@.is_prefix_of(url) {
        after_first(url, ':')
    } else if "http://"@.is_prefix_of(url) {
        after_first(url.skip("http://"@.len() as int), '/')
    } else if "https://"@.is_prefix_of(url) {
        after_first(url.skip("https://"@.len() as int), '/')
    } else {
        None
    }
}

/// The `<owner>/<name>` part of a Git URL: its path without a closing `.git`, where that
/// holds exactly one `/`.
pub open spec fn repo_name(url: Seq<char>) -> Option<Seq<char>> {
    match repo_path(url) {
        Some(path) => {
            let name = without_suffix(path, ".git"@);
            if occurrences(name, '/') == 1 {
                Some(name)
            } else {
                None
            }
        },
        None => None,
    }
}

/// Whether a bookmark's repository is fetched over the network: it begins with `git@`,
/// `http:` or `https:`. Anything else is taken for a directory of this machine.
pub open spec fn is_remote(repository: Seq<char>) -> bool {
    "git@"@.is_prefix_of(repository) || "http:"@.is_prefix_of(repository) || "https:"@.is_prefix_of(
        repository,
    )
}

/// The user that a fetch signs in as with a key of the SSH agent, or why it cannot sign in:
/// only SSH keys are used, and they need a user name.
pub open spec fn ssh_user(ssh_key_allowed: bool, username: Option<Seq<char>>) -> Result<
    Seq<char>,
    Seq<char>,
> {
    if !ssh_key_allowed {
        Err("only SSH authentication is supported"@)
    } else {
        match username {
            Some(name) => Ok(name),
            None => Err("need username for SSH authentication"@),
        }
    }
}

/// Decides how a fetch signs in, from the kinds of credentials that the remote allows and
/// the user name that the URL holds.
pub fn credential_user<'a>(ssh_key_allowed: bool, username: Option<&'a str>) -> (result: Result<
    &'a str,
    &'static str,
>)
    ensures
        match result {
            Ok(name) => username == Some(name) && ssh_user(
                ssh_key_allowed,
                Some(name@),
            ) == Ok::<Seq<char>, Seq<char>>(name@),
            Err(reason) => ssh_user(
                ssh_key_allowed,
                match username {
                    Some(name) => Some(name@),
                    None => None,
                },
            ) == Err::<Seq<char>, Seq<char>>(reason@),
        },
{
    if ssh_key_allowed {
        match username {
            Some(name) => Ok(name),
            None => Err("need username for SSH authentication"),
        }
    } else {
        Err("only SSH authentication is supported")
    }
}

/// The index in `url` at which its path begins.
fn path_start(url: &Vec<char>) -> (r: Option<usize>)
    ensures
        match r {
            Some(start) => start <= url.len() && repo_path(url@) == Some(url@.skip(start as int)),
            None => repo_path(url@).is_none(),
        },
{
    let git = chars_of("git@");
    let http = chars_of("http://");
    let https = chars_of("https://");
    let (from, separator) = if starts_with(url, &git) {
        (0, ':')
    } else if starts_with(url, &http) {
        (http.len(), '/')
    } else if starts_with(url, &https) {
        (https.len(), '/')
    } else {
        return None;
    };
    assert(url@.skip(0) =~= url@);
    match find_from(url, from, separator) {
        Some(i) => {
            assert(url@.skip(from as int).skip(i - from + 1) =~= url@.skip(i + 1));
            Some(i + 1)
        },
        None => None,
    }
}

/// Find the full name of a repository, its owner included, in a Git URL of one of the forms
/// `git@<host>:<owner>/<name>.git`, `https://<host>/<owner>/<name>.git` and
/// `http://<host>/<owner>/<name>.git`, the closing `.git` being optional.
pub fn find_repo_name(url: &str) -> (name: Option<&str>)
    ensures
        match name {
            Some(n) => repo_name(url@) == Some(n@),
            None => repo_name(url@).is_none(),
        },
{
    let chars = chars_of(url);
    let start = match path_start(&chars) {
        Some(start) => start,
        None => { return None; },
    };
    let suffix = chars_of(".git");
    let path = slice(&chars, start, chars.len());
    assert(path@ =~= chars@.skip(start as int));
    let end: usize = if ends_with(&path, &suffix) {
        chars.len() - suffix.len()
    } else {
        chars.len()
    };
    proof {
        let p = chars@.skip(start as int);
        assert(without_suffix(p, suffix@) =~= chars@.subrange(start as int, end as int));
    }
    if count_between(&chars, start, end, '/') == 1 {
        Some(url.substring_char(start, end))
    } else {
        None
    }
}

/// Whether a bookmark's repository has to be fetched before it can be used.
pub fn is_remote_repository(repository: &str) -> (b: bool)
    ensures
        b == is_remote(repository@),
{
    let chars = chars_of(repository);
    starts_with(&chars, &chars_of("git@")) || starts_with(&chars, &chars_of("http:")) || starts_with(
        &chars,
        &chars_of("https:"),
    )
}

} // verus!
