//! Reading a text from a line of input.

use super::validators::{Ident, Krate, Regex, Required, Semver, SemverReq, Validation, Verdict};
use super::{ReadError, Refusal, StringSetting, StringValidator};
use crate::text::{chars_of, trim_bounds, trimmed};
use vstd::prelude::*;
use vstd::string::StringExecFns;

verus! {

/// Reads the answer to a text setting from the line that the buffer holds.
pub struct StringReader<'a> {
    setting: StringSetting,
    buf: &'a mut String,
}

/// What the validator of a text setting says of an input. A setting without a validator
/// asks for some text at least.
pub open spec fn verdict(validator: Option<StringValidator>, input: Seq<char>) -> Verdict {
    match validator {
        None => Required::verdict(input),
        Some(StringValidator::Crate) => Krate::verdict(input),
        Some(StringValidator::Ident) => Ident::verdict(input),
        Some(StringValidator::Semver) => Semver::verdict(input),
        Some(StringValidator::SemverReq) => SemverReq::verdict(input),
        Some(StringValidator::Regex(pattern)) => Regex::verdict(pattern@, input),
    }
}

/// What a line of input answers to a text setting. White space around the answer is left
/// out. An empty line stands for the default; any other text is the answer where the
/// validator of the setting accepts it.
pub open spec fn string_answer(setting: StringSetting, line: Seq<char>) -> Result<
    Seq<char>,
    Refusal,
> {
    let text = trimmed(line);
    if text.len() == 0 {
        match setting.default {
            Some(value) => Ok(value@),
            None => Err(Refusal::InvalidInput("must provide a value"@)),
        }
    } else {
        match verdict(setting.validator, text) {
            Verdict::Valid => Ok(text),
            Verdict::Invalid(reason) => Err(Refusal::InvalidInput(reason)),
        }
    }
}

impl StringSetting {
    /// Holds an input against the validator of the setting.
    pub fn validate_input(&self, input: &str) -> (result: Validation)
        ensures
            result@ == verdict(self.validator, input@),
    {
        match &self.validator {
            None => Required.validate(input),
            Some(StringValidator::Crate) => Krate.validate(input),
            Some(StringValidator::Ident) => Ident.validate(input),
            Some(StringValidator::Semver) => Semver.validate(input),
            Some(StringValidator::SemverReq) => SemverReq.validate(input),
            Some(StringValidator::Regex(pattern)) => Regex(pattern.clone()).validate(input),
        }
    }
}

impl<'a> StringReader<'a> {
    /// The setting that is asked for.
    pub closed spec fn setting(self) -> StringSetting {
        self.setting
    }

    /// The line that the buffer holds.
    pub closed spec fn line(self) -> Seq<char> {
        self.buf@
    }

    /// A reader for the setting that reads from the line in `buf`.
    pub fn new(setting: StringSetting, buf: &'a mut String) -> (reader: Self)
        ensures
            reader.setting() == setting,
            reader.line() == old(buf)@,
    {
        Self { setting, buf }
    }

    /// Reads the answer from the line in the buffer.
    pub fn read(&mut self) -> (result: Result<String, ReadError>)
        ensures
            final(self).setting() == old(self).setting(),
            final(self).line() == old(self).line(),
            match result {
                Ok(value) => string_answer(old(self).setting(), old(self).line()) == Ok::<
                    Seq<char>,
                    Refusal,
                >(value@),
                Err(e) => string_answer(old(self).setting(), old(self).line()) == Err::<
                    Seq<char>,
                    Refusal,
                >(e@),
            },
    {
        let chars = chars_of(self.buf.as_str());
        let (from, to) = trim_bounds(&chars);
        if from == to {
            match &self.setting.default {
                Some(value) => Ok(value.clone()),
                None => Err(ReadError::InvalidInput(String::from_str("must provide a value"))),
            }
        } else {
            let text = self.buf.as_str().substring_char(from, to);
            match self.setting.validate_input(text) {
                Validation::Valid => Ok(String::from_str(text)),
                Validation::Invalid(reason) => Err(ReadError::InvalidInput(reason)),
            }
        }
    }
}

} // verus!
