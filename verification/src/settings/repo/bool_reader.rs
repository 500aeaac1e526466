//! Reading the answer to a yes-or-no question from a line of input.

use super::{BoolSetting, ReadError, Refusal};
use crate::text::{
    chars_of, lowered, make_ascii_lowercase, slice, spells, trim_bounds, trimmed,
};
use vstd::prelude::*;
use vstd::string::StringExecFns;

verus! {

/// Reads the answer to a boolean setting from the line that the buffer holds.
pub struct BoolReader<'a> {
    setting: BoolSetting,
    buf: &'a mut String,
}

/// What a line of input answers to a yes-or-no question whose default is `default`. Capital
/// letters count as small ones and white space around the answer is left out. An empty line
/// stands for the default; `y`, `yes` and `true` say yes; `n`, `no` and `false` say no.
pub open spec fn bool_answer(default: Option<bool>, line: Seq<char>) -> Result<bool, Refusal> {
    let word = trimmed(lowered(line));
    if word.len() == 0 {
        match default {
            Some(value) => Ok(value),
            None => Err(Refusal::InvalidInput("must provide a value"@)),
        }
    } else if word == "y"@ || word == "yes"@ || word == "true"@ {
        Ok(true)
    } else if word == "n"@ || word == "no"@ || word == "false"@ {
        Ok(false)
    } else {
        Err(Refusal::InvalidInput("unknown input"@))
    }
}

impl<'a> BoolReader<'a> {
    /// The setting that is asked for.
    pub closed spec fn setting(self) -> BoolSetting {
        self.setting
    }

    /// The line that the buffer holds.
    pub closed spec fn line(self) -> Seq<char> {
        self.buf@
    }

    /// A reader for the setting that reads from the line in `buf`.
    pub fn new(setting: BoolSetting, buf: &'a mut String) -> (reader: Self)
        ensures
            reader.setting() == setting,
            reader.line() == old(buf)@,
    {
        Self { setting, buf }
    }

    /// The letters that the question shows for yes and for no: the one that an empty line
    /// stands for is a capital.
    pub fn hint(&self) -> (letters: (&'static str, &'static str))
        ensures
            letters.0@ == if self.setting().default == Some(true) {
                "Y"@
            } else {
                "y"@
            },
            letters.1@ == if self.setting().default == Some(false) {
                "N"@
            } else {
                "n"@
            },
    {
        match self.setting.default {
            Some(true) => ("Y", "n"),
            Some(false) => ("y", "N"),
            None => ("y", "n"),
        }
    }

    /// Reads the answer from the line in the buffer, whose capital letters are made small on
    /// the way.
    pub fn read(&mut self) -> (result: Result<bool, ReadError>)
        ensures
            final(self).setting() == old(self).setting(),
            final(self).line() == lowered(old(self).line()),
            match result {
                Ok(value) => bool_answer(old(self).setting().default, old(self).line()) == Ok::<
                    bool,
                    Refusal,
                >(value),
                Err(e) => bool_answer(old(self).setting().default, old(self).line()) == Err::<
                    bool,
                    Refusal,
                >(e@),
            },
    {
        make_ascii_lowercase(self.buf);
        let chars = chars_of(self.buf.as_str());
        let (from, to) = trim_bounds(&chars);
        let word = slice(&chars, from, to);
        if word.len() == 0 {
            match self.setting.default {
                Some(value) => Ok(value),
                None => Err(ReadError::InvalidInput(String::from_str("must provide a value"))),
            }
        } else if spells(&word, "y") || spells(&word, "yes") || spells(&word, "true") {
            Ok(true)
        } else if spells(&word, "n") || spells(&word, "no") || spells(&word, "false") {
            Ok(false)
        } else {
            Err(ReadError::InvalidInput(String::from_str("unknown input")))
        }
    }
}

} // verus!
