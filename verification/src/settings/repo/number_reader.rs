//! Reading a number from a line of input.

use super::{NumberSetting, ReadError, Refusal};
use crate::number::{decimal, parse_decimal, precedes, Number};
use crate::text::{chars_of, lowered, make_ascii_lowercase, slice, trim_bounds, trimmed};
use vstd::prelude::*;
use vstd::string::StringExecFns;

verus! {

/// Reads the answer to a number setting from the line that the buffer holds.
pub struct NumberReader<'a, T: Number> {
    setting: NumberSetting<T>,
    buf: &'a mut String,
}

/// What a line of input holds for a number setting.
pub enum NumberInput<T> {
    /// Nothing but white space.
    Empty,
    /// Text that writes no number.
    Unreadable,
    /// The number that the text writes.
    Value(T),
}

/// What an input answers to a number setting. Nothing stands for the default. A number is
/// the answer where it lies between the minimum and the maximum, both included.
pub open spec fn number_answer<T: Number>(setting: NumberSetting<T>, input: NumberInput<T>) -> Result<
    T,
    Refusal,
> {
    match input {
        NumberInput::Empty => match setting.default {
            Some(value) => Ok(value),
            None => Err(Refusal::InvalidInput("must provide a value"@)),
        },
        NumberInput::Unreadable => Err(Refusal::InvalidInput("not a number"@)),
        NumberInput::Value(value) => if precedes(value.rank(), setting.min.rank()) {
            Err(Refusal::InvalidInput("value is below the minimum"@))
        } else if precedes(setting.max.rank(), value.rank()) {
            Err(Refusal::InvalidInput("value is above the maximum"@))
        } else if !setting.admits(value) {
            Err(Refusal::InvalidInput("not a number"@))
        } else {
            Ok(value)
        },
    }
}

/// What a line of input holds for a setting of whole numbers: capital letters count as small
/// ones, white space around the number is left out, and the number is written in decimal
/// digits.
pub open spec fn whole_number_input(line: Seq<char>) -> NumberInput<i64> {
    let word = trimmed(lowered(line));
    if word.len() == 0 {
        NumberInput::Empty
    } else {
        match decimal(word) {
            Some(value) => NumberInput::Value(value as i64),
            None => NumberInput::Unreadable,
        }
    }
}

impl<'a, T: Number> NumberReader<'a, T> {
    /// The setting that is asked for.
    pub closed spec fn setting(self) -> NumberSetting<T> {
        self.setting
    }

    /// The line that the buffer holds.
    pub closed spec fn line(self) -> Seq<char> {
        self.buf@
    }

    /// A reader for the setting that reads from the line in `buf`.
    pub fn new(setting: NumberSetting<T>, buf: &'a mut String) -> (reader: Self)
        ensures
            reader.setting() == setting,
            reader.line() == old(buf)@,
    {
        Self { setting, buf }
    }

    /// Decides what an input answers.
    pub fn interpret(&self, input: NumberInput<T>) -> (result: Result<T, ReadError>)
        ensures
            match result {
                Ok(value) => number_answer(self.setting(), input) == Ok::<T, Refusal>(value),
                Err(e) => number_answer(self.setting(), input) == Err::<T, Refusal>(e@),
            },
    {
        match input {
            NumberInput::Empty => match self.setting.default {
                Some(value) => Ok(value),
                None => Err(ReadError::InvalidInput(String::from_str("must provide a value"))),
            },
            NumberInput::Unreadable => Err(
                ReadError::InvalidInput(String::from_str("not a number")),
            ),
            NumberInput::Value(value) => {
                if value.below(self.setting.min) {
                    Err(ReadError::InvalidInput(String::from_str("value is below the minimum")))
                } else if self.setting.max.below(value) {
                    Err(ReadError::InvalidInput(String::from_str("value is above the maximum")))
                } else if !(self.setting.min.at_most(value) && value.at_most(self.setting.max)) {
                    Err(ReadError::InvalidInput(String::from_str("not a number")))
                } else {
                    Ok(value)
                }
            },
        }
    }
}

impl<'a> NumberReader<'a, i64> {
    /// Reads the answer from the line in the buffer, whose capital letters are made small on
    /// the way.
    pub fn read(&mut self) -> (result: Result<i64, ReadError>)
        ensures
            final(self).setting() == old(self).setting(),
            final(self).line() == lowered(old(self).line()),
            match result {
                Ok(value) => number_answer(
                    old(self).setting(),
                    whole_number_input(old(self).line()),
                ) == Ok::<i64, Refusal>(value),
                Err(e) => number_answer(old(self).setting(), whole_number_input(old(self).line()))
                    == Err::<i64, Refusal>(e@),
            },
    {
        make_ascii_lowercase(self.buf);
        let chars = chars_of(self.buf.as_str());
        let (from, to) = trim_bounds(&chars);
        let word = slice(&chars, from, to);
        let input = if word.len() == 0 {
            NumberInput::Empty
        } else {
            match parse_decimal(&word) {
                Some(value) => NumberInput::Value(value),
                None => NumberInput::Unreadable,
            }
        };
        self.interpret(input)
    }
}

} // verus!
