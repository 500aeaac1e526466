//! How an answer given in advance becomes the answer to a setting, or the default of a
//! question that is still asked.

use super::Setting;
use crate::number::Float;
use crate::settings::global::{DefaultSetting, DefaultValue};
use vstd::prelude::*;

verus! {

/// The kinds of setting.
#[derive(Clone, Copy, Debug, PartialEq, Eq, Structural)]
pub enum SettingKind {
    Bool,
    String,
    Number,
    Float,
    List,
    MultiList,
}

/// An answer given in advance that is not of the kind of the setting it was given for.
#[derive(Debug)]
pub struct InvalidDefault {
    /// The kind of the setting.
    pub expected: SettingKind,
    /// The answer that was given.
    pub value: DefaultValue,
}

/// What an answer given in advance holds for a boolean setting.
pub open spec fn bool_of(value: DefaultValue) -> Result<bool, InvalidDefault> {
    match value {
        DefaultValue::Bool(v) => Ok(v),
        other => Err(InvalidDefault { expected: SettingKind::Bool, value: other }),
    }
}

/// The answer of `default` for a boolean setting; an answer of another kind is an error.
pub fn get_bool(default: DefaultSetting) -> (result: Result<bool, InvalidDefault>)
    ensures
        result == bool_of(default.value),
{
    match default.value {
        DefaultValue::Bool(value) => Ok(value),
        value => Err(InvalidDefault { expected: SettingKind::Bool, value }),
    }
}

/// What an answer given in advance holds for a text setting.
pub open spec fn string_of(value: DefaultValue) -> Result<String, InvalidDefault> {
    match value {
        DefaultValue::String(v) => Ok(v),
        other => Err(InvalidDefault { expected: SettingKind::String, value: other }),
    }
}

/// The answer of `default` for a text setting; an answer of another kind is an error.
pub fn get_string(default: DefaultSetting) -> (result: Result<String, InvalidDefault>)
    ensures
        result == string_of(default.value),
{
    match default.value {
        DefaultValue::String(value) => Ok(value),
        value => Err(InvalidDefault { expected: SettingKind::String, value }),
    }
}

/// What an answer given in advance holds for a setting of whole numbers.
pub open spec fn number_of(value: DefaultValue) -> Result<i64, InvalidDefault> {
    match value {
        DefaultValue::Number(v) => Ok(v),
        other => Err(InvalidDefault { expected: SettingKind::Number, value: other }),
    }
}

/// The answer of `default` for a setting of whole numbers; an answer of another kind is an error.
pub fn get_number(default: DefaultSetting) -> (result: Result<i64, InvalidDefault>)
    ensures
        result == number_of(default.value),
{
    match default.value {
        DefaultValue::Number(value) => Ok(value),
        value => Err(InvalidDefault { expected: SettingKind::Number, value }),
    }
}

/// What an answer given in advance holds for a setting of floating-point numbers.
pub open spec fn float_of(value: DefaultValue) -> Result<Float, InvalidDefault> {
    match value {
        DefaultValue::Float(v) => Ok(v),
        other => Err(InvalidDefault { expected: SettingKind::Float, value: other }),
    }
}

/// The answer of `default` for a setting of floating-point numbers; an answer of another kind is an error.
pub fn get_float(default: DefaultSetting) -> (result: Result<Float, InvalidDefault>)
    ensures
        result == float_of(default.value),
{
    match default.value {
        DefaultValue::Float(value) => Ok(value),
        value => Err(InvalidDefault { expected: SettingKind::Float, value }),
    }
}

/// What an answer given in advance holds for a list setting.
pub open spec fn list_of(value: DefaultValue) -> Result<String, InvalidDefault> {
    match value {
        DefaultValue::List(v) => Ok(v),
        other => Err(InvalidDefault { expected: SettingKind::List, value: other }),
    }
}

/// The answer of `default` for a list setting; an answer of another kind is an error.
pub fn get_list(default: DefaultSetting) -> (result: Result<String, InvalidDefault>)
    ensures
        result == list_of(default.value),
{
    match default.value {
        DefaultValue::List(value) => Ok(value),
        value => Err(InvalidDefault { expected: SettingKind::List, value }),
    }
}

/// What an answer given in advance holds for a multi-list setting.
pub open spec fn multi_list_of(value: DefaultValue) -> Result<Vec<String>, InvalidDefault> {
    match value {
        DefaultValue::MultiList(v) => Ok(v),
        other => Err(InvalidDefault { expected: SettingKind::MultiList, value: other }),
    }
}

/// The answer of `default` for a multi-list setting; an answer of another kind is an error.
pub fn get_multi_list(default: DefaultSetting) -> (result: Result<Vec<String>, InvalidDefault>)
    ensures
        result == multi_list_of(default.value),
{
    match default.value {
        DefaultValue::MultiList(value) => Ok(value),
        value => Err(InvalidDefault { expected: SettingKind::MultiList, value }),
    }
}

/// What there is to do for a setting once the answers given in advance are known.
pub enum Resolved<S, R> {
    /// The answer is known: nothing is asked.
    Answer(R),
    /// The question is asked, with this setting.
    Ask(S),
}

/// What `run` makes of a setting once the answer given for it in advance has been read:
/// `skip` is whether that answer skips the prompt, `loaded` what was read out of it.
pub open spec fn resolution<S: Setting<R>, R>(
    setting: S,
    skip: bool,
    loaded: Result<R, InvalidDefault>,
) -> Result<Resolved<S, R>, InvalidDefault> {
    match loaded {
        Err(e) => Err(e),
        Ok(value) => if skip {
            Ok(Resolved::Answer(value))
        } else {
            Ok(Resolved::Ask(setting.with_default(value)))
        },
    }
}

/// Settles a setting as far as the answer given in advance allows. Without such an answer the
/// question is asked as the template declares it. With one that skips the prompt, what
/// `load` reads out of it is the answer and nothing is asked. With one that does not, the
/// question is asked with that value as its default. An answer that `load` refuses is an
/// error.
pub fn run<S: Setting<R>, R, L: Fn(DefaultSetting) -> Result<R, InvalidDefault>>(
    setting: S,
    default: Option<DefaultSetting>,
    load: L,
) -> (result: Result<Resolved<S, R>, InvalidDefault>)
    requires
        default matches Some(d) ==> call_requires(load, (d,)),
    ensures
        match default {
            None => result == Ok::<Resolved<S, R>, InvalidDefault>(Resolved::Ask(setting)),
            Some(d) => exists|loaded: Result<R, InvalidDefault>| #[trigger]
                call_ensures(load, (d,), loaded) && result == resolution(
                    setting,
                    d.skip_prompt,
                    loaded,
                ),
        },
{
    match default {
        Some(d) => {
            let skip = d.skip_prompt;
            let ghost given = d;
            let loaded = load(d);
            let ghost read = loaded;
            let result = match loaded {
                Ok(value) => {
                    if skip {
                        Ok(Resolved::Answer(value))
                    } else {
                        let mut setting = setting;
                        setting.set_default(value);
                        Ok(Resolved::Ask(setting))
                    }
                },
                Err(e) => Err(e),
            };
            assert(call_ensures(load, (given,), read) && result == resolution(
                setting,
                given.skip_prompt,
                read,
            ));
            result
        },
        None => Ok(Resolved::Ask(setting)),
    }
}

} // verus!
