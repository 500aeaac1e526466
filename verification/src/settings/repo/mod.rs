//! The settings that a template declares, and the rules that each of them has to meet.

use crate::number::{levels, precedes};
pub use crate::number::{Float, Number};
use crate::ordered::{index_map_entries, index_set_items, map_get, map_len, set_contains};
use crate::text::texts;
use indexmap::{IndexMap, IndexSet};
use vstd::prelude::*;

pub mod bool_reader;
pub mod condition;
pub mod context;
pub mod defaults;
pub mod list_reader;
pub mod multi_list_reader;
pub mod number_reader;
pub mod prompts;
pub mod string_reader;
pub mod validators;

verus! {

/// All that a template configures: the kind of crate it makes, the files it leaves out and
/// its settings by their names, in the order in which they are asked.
#[derive(Debug)]
pub struct RepoSettings {
    pub crate_type: Option<CrateType>,
    pub ignore: Vec<FileIgnore>,
    pub args: IndexMap<String, RepoSetting>,
}

/// The stage of processing that an ignore rule takes its files out of.
#[derive(Clone, Copy, Debug, PartialEq, Eq, Structural)]
pub enum IgnoreScope {
    /// The files are left out altogether.
    AllStages,
    /// The files are not treated as templates: they are copied as they are.
    TemplateOnly,
    /// The files are not copied as they are: they are rendered as templates.
    RenderOnly,
}

/// A rule that takes the files matching one of its patterns out of a stage, as long as its
/// condition holds.
#[derive(Clone, Debug)]
pub struct FileIgnore {
    pub paths: Vec<String>,
    pub condition: Option<String>,
    pub scope: IgnoreScope,
}

/// The kind of crate that a template makes.
#[derive(Clone, Copy, Debug, PartialEq, Eq, Structural)]
pub enum CrateType {
    Bin,
    Lib,
}

/// One question of a template.
#[derive(Debug)]
pub struct RepoSetting {
    pub description: String,
    /// The setting is asked for only where this expression holds of the answers so far.
    pub condition: Option<String>,
    pub ty: SettingType,
}

/// The kind of answer that a setting takes, with the bounds on it.
#[derive(Debug)]
pub enum SettingType {
    Bool(BoolSetting),
    String(StringSetting),
    Number(NumberSetting<i64>),
    Float(NumberSetting<Float>),
    List(ListSetting),
    MultiList(MultiListSetting),
}

/// Why reading an answer gave none.
#[derive(Debug)]
pub enum ReadError {
    /// The input is no answer to the question, for this reason: the question is asked again.
    InvalidInput(String),
    /// The user gave up: nothing more is asked.
    Cancelled,
}

/// Why reading an answer gave none, the reason as characters.
pub enum Refusal {
    InvalidInput(Seq<char>),
    Cancelled,
}

impl View for ReadError {
    type V = Refusal;

    open spec fn view(&self) -> Refusal {
        match *self {
            ReadError::InvalidInput(reason) => Refusal::InvalidInput(reason@),
            ReadError::Cancelled => Refusal::Cancelled,
        }
    }
}

/// What follows from reading an answer.
#[derive(Debug)]
pub enum Next<T> {
    /// The answer is there.
    Done(T),
    /// The input was no answer, for this reason: the reason is shown and the question is
    /// asked again.
    AskAgain(String),
    /// The user gave up: nothing more is asked, nothing is put into the context, and the
    /// run ends without a result.
    Abort,
}

/// What follows from what a reader made of an input.
pub open spec fn follows<T>(read: Result<T, ReadError>) -> Next<T> {
    match read {
        Ok(answer) => Next::Done(answer),
        Err(ReadError::InvalidInput(reason)) => Next::AskAgain(reason),
        Err(ReadError::Cancelled) => Next::Abort,
    }
}

/// Decides what follows from what a reader made of an input: an answer ends the question,
/// an input that was none has it asked again, and a user who gave up ends the run.
pub fn after_read<T>(read: Result<T, ReadError>) -> (next: Next<T>)
    ensures
        next == follows(read),
{
    match read {
        Ok(answer) => Next::Done(answer),
        Err(ReadError::InvalidInput(reason)) => Next::AskAgain(reason),
        Err(ReadError::Cancelled) => Next::Abort,
    }
}

/// A key that means something while a list is shown.
#[derive(Clone, Copy, Debug, PartialEq, Eq, Structural)]
pub enum Key {
    /// Give up.
    Cancel,
    /// Take what is chosen.
    Enter,
    /// One entry up; from the first to the last.
    Up,
    /// One entry down; from the last to the first.
    Down,
    /// Choose the entry at the cursor, or let it go.
    Toggle,
    /// Any other key.
    Other,
}

/// Where the cursor of a list of `len` entries stands after `key`.
pub open spec fn moved(cursor: int, key: Key, len: int) -> int {
    match key {
        Key::Up => if cursor == 0 {
            len - 1
        } else {
            cursor - 1
        },
        Key::Down => if cursor == len - 1 {
            0
        } else {
            cursor + 1
        },
        _ => cursor,
    }
}

/// What a reason for refusing a setting says, as characters.
pub open spec fn reason_text(reason: Option<&'static str>) -> Option<Seq<char>> {
    match reason {
        Some(text) => Some(text@),
        None => None,
    }
}

/// What the kinds of setting have in common: an answer can be filled in, and the setting can
/// be held against its own rules.
pub trait Setting<D>: Sized {
    /// The setting with `default` filled in.
    spec fn with_default(self, default: D) -> Self;

    /// What is wrong with the setting, if anything is.
    spec fn problem(self) -> Option<Seq<char>>;

    /// Fills `default` in, in place of the default that the setting had.
    fn set_default(&mut self, default: D)
        ensures
            *final(self) == old(self).with_default(default),
    ;

    /// Holds the setting against its rules: `None` where it meets them, else what is wrong
    /// with it.
    fn validate(&self) -> (reason: Option<&'static str>)
        ensures
            reason_text(reason) == self.problem(),
    ;
}

/// Yes or no.
#[derive(Clone, Copy, Debug)]
pub struct BoolSetting {
    pub default: Option<bool>,
}

impl Setting<bool> for BoolSetting {
    open spec fn with_default(self, default: bool) -> Self {
        BoolSetting { default: Some(default) }
    }

    open spec fn problem(self) -> Option<Seq<char>> {
        None
    }

    fn set_default(&mut self, default: bool) {
        self.default = Some(default);
    }

    fn validate(&self) -> (reason: Option<&'static str>) {
        None
    }
}

/// A text, which a validator may hold to a form.
#[derive(Clone, Debug)]
pub struct StringSetting {
    pub default: Option<String>,
    pub validator: Option<StringValidator>,
}

impl Setting<String> for StringSetting {
    open spec fn with_default(self, default: String) -> Self {
        StringSetting { default: Some(default), validator: self.validator }
    }

    open spec fn problem(self) -> Option<Seq<char>> {
        None
    }

    fn set_default(&mut self, default: String) {
        self.default = Some(default);
    }

    fn validate(&self) -> (reason: Option<&'static str>) {
        None
    }
}

/// What a text answer has to look like.
#[derive(Clone, Debug)]
pub enum StringValidator {
    /// The name of a crate.
    Crate,
    /// An identifier of Rust.
    Ident,
    /// A semantic version.
    Semver,
    /// A requirement on semantic versions.
    SemverReq,
    /// Text in which the regular expression finds a match.
    Regex(String),
}

/// A number between a minimum and a maximum.
#[derive(Clone, Copy, Debug)]
pub struct NumberSetting<T: Number> {
    pub min: T,
    pub max: T,
    pub default: Option<T>,
}

impl<T: Number> NumberSetting<T> {
    /// Whether `value` lies in the range that a default may come from: from the minimum on,
    /// and before the maximum.
    pub open spec fn admits_default(self, value: T) -> bool {
        levels(self.min.rank(), value.rank()) && precedes(value.rank(), self.max.rank())
    }

    /// Whether `value` lies in the range that an answer may come from: the minimum and the
    /// maximum included.
    pub open spec fn admits(self, value: T) -> bool {
        levels(self.min.rank(), value.rank()) && levels(value.rank(), self.max.rank())
    }
}

impl<T: Number> Setting<T> for NumberSetting<T> {
    open spec fn with_default(self, default: T) -> Self {
        NumberSetting { min: self.min, max: self.max, default: Some(default) }
    }

    open spec fn problem(self) -> Option<Seq<char>> {
        if levels(self.max.rank(), self.min.rank()) {
            Some("minimum is greater or equal the maximum value"@)
        } else if self.default matches Some(d) && !self.admits_default(d) {
            Some("default value is not within the min/max range"@)
        } else {
            None
        }
    }

    fn set_default(&mut self, default: T) {
        self.default = Some(default);
    }

    fn validate(&self) -> (reason: Option<&'static str>) {
        if self.max.at_most(self.min) {
            return Some("minimum is greater or equal the maximum value");
        }
        match self.default {
            Some(d) => {
                if self.min.at_most(d) && d.below(self.max) {
                    None
                } else {
                    Some("default value is not within the min/max range")
                }
            },
            None => None,
        }
    }
}

/// One of several values.
#[derive(Debug)]
pub struct ListSetting {
    pub values: IndexSet<String>,
    pub default: Option<String>,
}

impl ListSetting {
    /// The values on offer, in their order.
    pub open spec fn offered(self) -> Seq<Seq<char>> {
        index_set_items(self.values)
    }
}

impl Setting<String> for ListSetting {
    open spec fn with_default(self, default: String) -> Self {
        ListSetting { values: self.values, default: Some(default) }
    }

    open spec fn problem(self) -> Option<Seq<char>> {
        if self.default matches Some(d) && !self.offered().contains(d@) {
            Some("default value isn't part of the possible values"@)
        } else {
            None
        }
    }

    fn set_default(&mut self, default: String) {
        self.default = Some(default);
    }

    fn validate(&self) -> (reason: Option<&'static str>) {
        match &self.default {
            Some(d) => {
                if set_contains(&self.values, d.as_str()) {
                    None
                } else {
                    Some("default value isn't part of the possible values")
                }
            },
            None => None,
        }
    }
}

/// Any number of several values.
#[derive(Debug)]
pub struct MultiListSetting {
    pub values: IndexSet<String>,
    /// The values chosen in advance; their order and repetitions mean nothing.
    pub default: Option<Vec<String>>,
}

impl MultiListSetting {
    /// The values on offer, in their order.
    pub open spec fn offered(self) -> Seq<Seq<char>> {
        index_set_items(self.values)
    }

    /// Whether `value` is among the values chosen in advance.
    pub open spec fn preselected(self, value: Seq<char>) -> bool {
        match self.default {
            Some(d) => texts(d@).contains(value),
            None => false,
        }
    }

    /// Whether the default at `index` is none of the values on offer.
    pub open spec fn stray_default(self, index: int) -> bool {
        self.default matches Some(d) && 0 <= index < d@.len() && !self.offered().contains(
            d@[index]@,
        )
    }
}

impl Setting<Vec<String>> for MultiListSetting {
    open spec fn with_default(self, default: Vec<String>) -> Self {
        MultiListSetting { values: self.values, default: Some(default) }
    }

    open spec fn problem(self) -> Option<Seq<char>> {
        if exists|i: int| self.stray_default(i) {
            Some("one of the default values isn't part of the possible values"@)
        } else {
            None
        }
    }

    fn set_default(&mut self, default: Vec<String>) {
        self.default = Some(default);
    }

    fn validate(&self) -> (reason: Option<&'static str>) {
        match &self.default {
            Some(d) => {
                let mut i: usize = 0;
                while i < d.len()
                    invariant
                        i <= d.len(),
                        self.default == Some(*d),
                        forall|j: int| 0 <= j < i ==> !self.stray_default(j),
                    decreases d.len() - i,
                {
                    if !set_contains(&self.values, d[i].as_str()) {
                        assert(self.stray_default(i as int));
                        return Some("one of the default values isn't part of the possible values");
                    }
                    i = i + 1;
                }
                None
            },
            None => None,
        }
    }
}

impl SettingType {
    /// What is wrong with the setting, if anything is.
    pub open spec fn problem(self) -> Option<Seq<char>> {
        match self {
            SettingType::Bool(setting) => setting.problem(),
            SettingType::String(setting) => setting.problem(),
            SettingType::Number(setting) => setting.problem(),
            SettingType::Float(setting) => setting.problem(),
            SettingType::List(setting) => setting.problem(),
            SettingType::MultiList(setting) => setting.problem(),
        }
    }
}

impl RepoSetting {
    /// Check the setting for invalid values and return a message describing the problem if an
    /// invalid configuration was found.
    pub fn validate(&self) -> (reason: Option<&'static str>)
        ensures
            reason_text(reason) == self.ty.problem(),
    {
        match &self.ty {
            SettingType::Bool(setting) => setting.validate(),
            SettingType::String(setting) => setting.validate(),
            SettingType::Number(setting) => setting.validate(),
            SettingType::Float(setting) => setting.validate(),
            SettingType::List(setting) => setting.validate(),
            SettingType::MultiList(setting) => setting.validate(),
        }
    }
}

/// A setting that broke its own rules, by its name.
#[derive(Clone, Debug)]
pub struct InvalidSetting {
    pub name: String,
    pub reason: &'static str,
}

impl RepoSettings {
    /// The settings with their names, in the order in which they are asked.
    pub open spec fn settings(self) -> Seq<(Seq<char>, RepoSetting)> {
        index_map_entries(self.args)
    }

    /// Whether `index` is the place of the first setting that breaks its rules.
    pub open spec fn first_invalid(self, index: int) -> bool {
        &&& 0 <= index < self.settings().len()
        &&& self.settings()[index].1.ty.problem().is_some()
        &&& forall|j: int| 0 <= j < index ==> (#[trigger] self.settings()[j]).1.ty.problem().is_none()
    }

    /// Whether every setting meets its rules.
    pub open spec fn all_valid(self) -> bool {
        forall|j: int|
            0 <= j < self.settings().len() ==> (#[trigger] self.settings()[j]).1.ty.problem().is_none()
    }

    /// Whether `invalid` names the first setting that breaks its rules, with what is wrong
    /// with it.
    pub open spec fn reports(self, invalid: InvalidSetting) -> bool {
        exists|index: int|
            {
                &&& #[trigger] self.first_invalid(index)
                &&& invalid.name@ == self.settings()[index].0
                &&& Some(invalid.reason@) == self.settings()[index].1.ty.problem()
            }
    }

    /// Holds every setting against its rules, in their order, and stops at the first that
    /// breaks them.
    pub fn validate(&self) -> (result: Result<(), InvalidSetting>)
        ensures
            match result {
                Ok(()) => self.all_valid(),
                Err(invalid) => self.reports(invalid),
            },
    {
        let count = map_len(&self.args);
        let mut i: usize = 0;
        while i < count
            invariant
                i <= count,
                count == self.settings().len(),
                forall|j: int| 0 <= j < i ==> (#[trigger] self.settings()[j]).1.ty.problem().is_none(),
            decreases count - i,
        {
            match map_get(&self.args, i) {
                Some((name, setting)) => {
                    if let Some(reason) = setting.validate() {
                        assert(self.first_invalid(i as int));
                        return Err(InvalidSetting { name: name.clone(), reason });
                    }
                },
                None => {},
            }
            i = i + 1;
        }
        Ok(())
    }
}

/// A number setting is refused where its minimum is not below its maximum, and where its
/// default is its maximum.
pub proof fn lemma_number_setting_refused<T: Number>(setting: NumberSetting<T>)
    requires
        levels(setting.max.rank(), setting.min.rank()) || setting.default == Some(setting.max),
    ensures
        setting.problem().is_some(),
{
}

/// A number setting whose minimum is below its maximum is accepted with its minimum as the
/// default.
pub proof fn lemma_number_setting_accepted<T: Number>(setting: NumberSetting<T>)
    requires
        precedes(setting.min.rank(), setting.max.rank()),
        setting.default == Some(setting.min),
    ensures
        setting.problem().is_none(),
{
}

/// A list setting is refused where its default is none of its values.
pub proof fn lemma_list_default_refused(setting: ListSetting, default: String)
    requires
        setting.default == Some(default),
        !setting.offered().contains(default@),
    ensures
        setting.problem().is_some(),
{
}

/// A multi-list setting is refused where one of its defaults is none of its values.
pub proof fn lemma_multi_list_default_refused(
    setting: MultiListSetting,
    defaults: Vec<String>,
    index: int,
)
    requires
        setting.default == Some(defaults),
        0 <= index < defaults@.len(),
        !setting.offered().contains(defaults@[index]@),
    ensures
        setting.problem().is_some(),
{
    assert(setting.stray_default(index));
}

} // verus!
