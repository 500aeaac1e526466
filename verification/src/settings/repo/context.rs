//! The values that templates and conditions see: those that every template gets, and the
//! answers to its settings, settled one setting after the other.

use super::condition::{condition_template, decided, evaluate, template_of, ConditionError};
use super::defaults::{
    get_bool, get_float, get_list, get_multi_list, get_number, get_string, run, InvalidDefault,
    Resolved, SettingKind,
};
use super::{CrateType, ListSetting, RepoSetting, Setting, SettingType};
use crate::number::Float;
use crate::ordered::{index_map_entries, map_get, map_take_first, set_insert, set_new};
use crate::settings::global::{DefaultSetting, DefaultValue, Defaults};
use crate::text::{chars_of, spells, texts};
use indexmap::IndexMap;
use vstd::prelude::*;
use vstd::string::StringExecFns;

verus! {

/// A value of the context.
#[derive(Debug)]
pub enum Value {
    Bool(bool),
    String(String),
    Number(i64),
    Float(Float),
    /// The value chosen from a list.
    List(String),
    /// The values chosen from a multi-list.
    MultiList(Vec<String>),
}

/// A value of the context, its text as characters.
pub enum ValueView {
    Bool(bool),
    String(Seq<char>),
    Number(int),
    Float(Float),
    List(Seq<char>),
    MultiList(Seq<Seq<char>>),
}

impl View for Value {
    type V = ValueView;

    open spec fn view(&self) -> ValueView {
        match *self {
            Value::Bool(v) => ValueView::Bool(v),
            Value::String(v) => ValueView::String(v@),
            Value::Number(v) => ValueView::Number(v as int),
            Value::Float(v) => ValueView::Float(v),
            Value::List(v) => ValueView::List(v@),
            Value::MultiList(v) => ValueView::MultiList(texts(v@)),
        }
    }
}

impl CrateType {
    /// The name of the kind, as templates see it.
    pub open spec fn spec_name(self) -> Seq<char> {
        match self {
            CrateType::Bin => "bin"@,
            CrateType::Lib => "lib"@,
        }
    }

    /// The name of the kind, as templates see it.
    pub fn name(self) -> (name: &'static str)
        ensures
            name@ == self.spec_name(),
    {
        match self {
            CrateType::Bin => "bin",
            CrateType::Lib => "lib",
        }
    }

    /// The kind of that name.
    pub fn from_name(name: &str) -> (kind: Option<CrateType>)
        ensures
            match kind {
                Some(k) => name@ == k.spec_name(),
                None => name@ != "bin"@ && name@ != "lib"@,
            },
    {
        let chars = chars_of(name);
        if spells(&chars, "bin") {
            Some(CrateType::Bin)
        } else if spells(&chars, "lib") {
            Some(CrateType::Lib)
        } else {
            None
        }
    }
}

/// The question for the kind of crate, asked where the template does not fix it: `bin` or
/// `lib`, in this order and with no default.
pub fn crate_type_setting() -> (setting: ListSetting)
    ensures
        setting.offered() == seq!["bin"@, "lib"@],
        setting.default.is_none(),
{
    let mut values = set_new();
    set_insert(&mut values, String::from_str("bin"));
    set_insert(&mut values, String::from_str("lib"));
    proof {
        reveal_strlit("bin");
        reveal_strlit("lib");
        assert("bin"@ != "lib"@) by {
            assert("bin"@[0] != "lib"@[0]);
        }
        let empty = Seq::<Seq<char>>::empty();
        assert(!empty.contains("bin"@));
        assert(!empty.push("bin"@).contains("lib"@)) by {
            assert forall|i: int| 0 <= i < empty.push("bin"@).len() implies empty.push("bin"@)[i]
                != "lib"@ by {}
        }
        assert(empty.push("bin"@).push("lib"@) =~= seq!["bin"@, "lib"@]);
    }
    ListSetting { values, default: None }
}

/// The names and values that every template gets, in the order in which they are set.
pub open spec fn builtin_entries(
    project_name: Seq<char>,
    git_name: Seq<char>,
    git_email: Seq<char>,
    crate_type: CrateType,
) -> Seq<(Seq<char>, ValueView)> {
    seq![
        ("project_name"@, ValueView::String(project_name)),
        ("git_author"@, ValueView::String(git_name + " <"@ + git_email + ">"@)),
        ("git_name"@, ValueView::String(git_name)),
        ("git_email"@, ValueView::String(git_email)),
        ("crate_type"@, ValueView::String(crate_type.spec_name())),
        ("crate_bin"@, ValueView::Bool(crate_type == CrateType::Bin)),
        ("crate_lib"@, ValueView::Bool(crate_type == CrateType::Lib)),
    ]
}

/// Names and values as characters.
pub open spec fn entries_view(entries: Seq<(String, Value)>) -> Seq<(Seq<char>, ValueView)> {
    Seq::new(entries.len(), |i: int| (entries[i].0@, entries[i].1@))
}

/// The context that every template starts from: the name of the project, the author by name
/// and email and as `name <email>`, and the kind of crate, by its name and as one flag for
/// each kind.
pub fn new_context(project_name: &str, git_name: &str, git_email: &str, crate_type: CrateType) -> (entries:
    Vec<(String, Value)>)
    ensures
        entries_view(entries@) == builtin_entries(
            project_name@,
            git_name@,
            git_email@,
            crate_type,
        ),
{
    let mut author = String::from_str(git_name);
    author.append(" <");
    author.append(git_email);
    author.append(">");
    let mut entries: Vec<(String, Value)> = Vec::new();
    entries.push(
        (String::from_str("project_name"), Value::String(String::from_str(project_name))),
    );
    entries.push((String::from_str("git_author"), Value::String(author)));
    entries.push((String::from_str("git_name"), Value::String(String::from_str(git_name))));
    entries.push((String::from_str("git_email"), Value::String(String::from_str(git_email))));
    entries.push(
        (String::from_str("crate_type"), Value::String(String::from_str(crate_type.name()))),
    );
    entries.push(
        (String::from_str("crate_bin"), Value::Bool(matches!(crate_type, CrateType::Bin))),
    );
    entries.push(
        (String::from_str("crate_lib"), Value::Bool(matches!(crate_type, CrateType::Lib))),
    );
    assert(entries_view(entries@) =~= builtin_entries(
        project_name@,
        git_name@,
        git_email@,
        crate_type,
    ));
    entries
}

/// What is done for a setting that is active.
pub enum Plan {
    /// The answer is known and goes into the context.
    Insert(Value),
    /// The user is asked with this setting, and the answer goes into the context.
    Prompt(SettingType),
}

impl SettingType {
    /// The kind of the setting.
    pub open spec fn kind(self) -> SettingKind {
        match self {
            SettingType::Bool(_) => SettingKind::Bool,
            SettingType::String(_) => SettingKind::String,
            SettingType::Number(_) => SettingKind::Number,
            SettingType::Float(_) => SettingKind::Float,
            SettingType::List(_) => SettingKind::List,
            SettingType::MultiList(_) => SettingKind::MultiList,
        }
    }
}

/// What is done with an answer given in advance that is of the kind of its setting: it is
/// the answer where it skips the prompt, and the default of the question where it does not.
pub open spec fn answer_or_ask(skip_prompt: bool, answer: Value, seeded: SettingType) -> Plan {
    if skip_prompt {
        Plan::Insert(answer)
    } else {
        Plan::Prompt(seeded)
    }
}

/// What is done for an active setting with the answer given for it in advance. Without such
/// an answer the user is asked with the setting as it was declared; with one that skips the
/// prompt that answer goes into the context and nothing is asked; with one that does not,
/// the user is asked with that answer as the default. An answer of another kind than the
/// setting is an error.
pub open spec fn planned(setting: SettingType, default: Option<DefaultSetting>) -> Result<
    Plan,
    InvalidDefault,
> {
    match default {
        None => Ok(Plan::Prompt(setting)),
        Some(d) => match (setting, d.value) {
            (SettingType::Bool(s), DefaultValue::Bool(v)) => Ok(
                answer_or_ask(d.skip_prompt, Value::Bool(v), SettingType::Bool(s.with_default(v))),
            ),
            (SettingType::String(s), DefaultValue::String(v)) => Ok(
                answer_or_ask(
                    d.skip_prompt,
                    Value::String(v),
                    SettingType::String(s.with_default(v)),
                ),
            ),
            (SettingType::Number(s), DefaultValue::Number(v)) => Ok(
                answer_or_ask(
                    d.skip_prompt,
                    Value::Number(v),
                    SettingType::Number(s.with_default(v)),
                ),
            ),
            (SettingType::Float(s), DefaultValue::Float(v)) => Ok(
                answer_or_ask(d.skip_prompt, Value::Float(v), SettingType::Float(s.with_default(v))),
            ),
            (SettingType::List(s), DefaultValue::List(v)) => Ok(
                answer_or_ask(d.skip_prompt, Value::List(v), SettingType::List(s.with_default(v))),
            ),
            (SettingType::MultiList(s), DefaultValue::MultiList(v)) => Ok(
                answer_or_ask(
                    d.skip_prompt,
                    Value::MultiList(v),
                    SettingType::MultiList(s.with_default(v)),
                ),
            ),
            (_, other) => Err(InvalidDefault { expected: setting.kind(), value: other }),
        },
    }
}

/// An answer given in advance as a value of the context.
pub open spec fn answer_value(answer: DefaultValue) -> Value {
    match answer {
        DefaultValue::Bool(v) => Value::Bool(v),
        DefaultValue::String(v) => Value::String(v),
        DefaultValue::Number(v) => Value::Number(v),
        DefaultValue::Float(v) => Value::Float(v),
        DefaultValue::List(v) => Value::List(v),
        DefaultValue::MultiList(v) => Value::MultiList(v),
    }
}

/// The kind of an answer given in advance.
pub open spec fn answer_kind(answer: DefaultValue) -> SettingKind {
    match answer {
        DefaultValue::Bool(_) => SettingKind::Bool,
        DefaultValue::String(_) => SettingKind::String,
        DefaultValue::Number(_) => SettingKind::Number,
        DefaultValue::Float(_) => SettingKind::Float,
        DefaultValue::List(_) => SettingKind::List,
        DefaultValue::MultiList(_) => SettingKind::MultiList,
    }
}

impl SettingType {
    /// The default that a question for the setting starts from, as a value of the context.
    pub open spec fn default_value(self) -> Option<Value> {
        match self {
            SettingType::Bool(s) => match s.default {
                Some(v) => Some(Value::Bool(v)),
                None => None,
            },
            SettingType::String(s) => match s.default {
                Some(v) => Some(Value::String(v)),
                None => None,
            },
            SettingType::Number(s) => match s.default {
                Some(v) => Some(Value::Number(v)),
                None => None,
            },
            SettingType::Float(s) => match s.default {
                Some(v) => Some(Value::Float(v)),
                None => None,
            },
            SettingType::List(s) => match s.default {
                Some(v) => Some(Value::List(v)),
                None => None,
            },
            SettingType::MultiList(s) => match s.default {
                Some(v) => Some(Value::MultiList(v)),
                None => None,
            },
        }
    }
}

/// An answer given in advance that skips the prompt is the answer to its setting, and nothing
/// is asked.
pub proof fn lemma_skipped_prompt_takes_the_answer(setting: SettingType, default: DefaultSetting)
    requires
        default.skip_prompt,
        answer_kind(default.value) == setting.kind(),
    ensures
        planned(setting, Some(default)) == Ok::<Plan, InvalidDefault>(
            Plan::Insert(answer_value(default.value)),
        ),
{
}

/// An answer given in advance that does not skip the prompt is the default of the question
/// that is asked, whatever default the setting declared; the setting is asked for with its
/// kind.
pub proof fn lemma_kept_prompt_starts_from_the_answer(setting: SettingType, default: DefaultSetting)
    requires
        !default.skip_prompt,
        answer_kind(default.value) == setting.kind(),
    ensures
        planned(setting, Some(default)) matches Ok(Plan::Prompt(asked)) && asked.kind()
            == setting.kind() && asked.default_value() == Some(answer_value(default.value)),
{
}

/// An answer given in advance for a setting of another kind is an error, whether it skips
/// the prompt or not.
pub proof fn lemma_answer_of_another_kind_is_refused(setting: SettingType, default: DefaultSetting)
    requires
        answer_kind(default.value) != setting.kind(),
    ensures
        planned(setting, Some(default)) == Err::<Plan, InvalidDefault>(
            InvalidDefault { expected: setting.kind(), value: default.value },
        ),
{
}

/// Decides what is done for an active setting.
pub fn plan(setting: SettingType, default: Option<DefaultSetting>) -> (result: Result<
    Plan,
    InvalidDefault,
>)
    ensures
        result == planned(setting, default),
{
    match setting {
        SettingType::Bool(s) => match run(s, default, get_bool) {
            Ok(Resolved::Answer(v)) => Ok(Plan::Insert(Value::Bool(v))),
            Ok(Resolved::Ask(s)) => Ok(Plan::Prompt(SettingType::Bool(s))),
            Err(e) => Err(e),
        },
        SettingType::String(s) => match run(s, default, get_string) {
            Ok(Resolved::Answer(v)) => Ok(Plan::Insert(Value::String(v))),
            Ok(Resolved::Ask(s)) => Ok(Plan::Prompt(SettingType::String(s))),
            Err(e) => Err(e),
        },
        SettingType::Number(s) => match run(s, default, get_number) {
            Ok(Resolved::Answer(v)) => Ok(Plan::Insert(Value::Number(v))),
            Ok(Resolved::Ask(s)) => Ok(Plan::Prompt(SettingType::Number(s))),
            Err(e) => Err(e),
        },
        SettingType::Float(s) => match run(s, default, get_float) {
            Ok(Resolved::Answer(v)) => Ok(Plan::Insert(Value::Float(v))),
            Ok(Resolved::Ask(s)) => Ok(Plan::Prompt(SettingType::Float(s))),
            Err(e) => Err(e),
        },
        SettingType::List(s) => match run(s, default, get_list) {
            Ok(Resolved::Answer(v)) => Ok(Plan::Insert(Value::List(v))),
            Ok(Resolved::Ask(s)) => Ok(Plan::Prompt(SettingType::List(s))),
            Err(e) => Err(e),
        },
        SettingType::MultiList(s) => match run(s, default, get_multi_list) {
            Ok(Resolved::Answer(v)) => Ok(Plan::Insert(Value::MultiList(v))),
            Ok(Resolved::Ask(s)) => Ok(Plan::Prompt(SettingType::MultiList(s))),
            Err(e) => Err(e),
        },
    }
}

/// What the caller does next for the context.
pub enum Action {
    /// Render the template against the context, and hand what the template engine made of
    /// it to the next step: the condition of the next setting is decided by it.
    Evaluate { template: String },
    /// Put the value into the context under the name.
    Insert { name: String, value: Value },
    /// Ask the user with this setting, and put the answer into the context under the name.
    Prompt { name: String, description: String, setting: SettingType },
    /// Every setting is settled.
    Done,
}

/// Why the context could not be filled.
pub enum FillError {
    /// The condition of the setting of this name could not be decided.
    Condition { name: String, cause: ConditionError },
    /// The answer given in advance for the setting of this name is of another kind.
    Default { name: String, mismatch: InvalidDefault },
}

/// The answer that `defaults` holds for `name`.
pub open spec fn default_for(defaults: Map<Seq<char>, DefaultSetting>, name: Seq<char>) -> Option<
    DefaultSetting,
> {
    if defaults.contains_key(name) {
        Some(defaults[name])
    } else {
        None
    }
}

/// What is done for a setting once its condition has been decided. `outcome` is what the
/// condition came out as, `None` for a setting without one. A condition that could not be
/// decided is an error, and one that came out false passes the setting over: `Ok(None)`. A
/// setting that has no condition, or one that came out true, is active: what is planned for
/// it with the answer that `defaults` holds for its name is done under that name.
pub open spec fn action_for(
    name: String,
    setting: RepoSetting,
    outcome: Option<Result<bool, ConditionError>>,
    defaults: Map<Seq<char>, DefaultSetting>,
) -> Result<Option<Action>, FillError> {
    match outcome {
        Some(Err(cause)) => Err(FillError::Condition { name, cause }),
        Some(Ok(false)) => Ok(None),
        _ => match planned(setting.ty, default_for(defaults, name@)) {
            Ok(Plan::Insert(value)) => Ok(Some(Action::Insert { name, value })),
            Ok(Plan::Prompt(asked)) => Ok(
                Some(Action::Prompt { name, description: setting.description, setting: asked }),
            ),
            Err(mismatch) => Err(FillError::Default { name, mismatch }),
        },
    }
}

/// Whether a setting whose condition came out as `outcome` is active.
pub open spec fn is_active(outcome: Option<Result<bool, ConditionError>>) -> bool {
    match outcome {
        None => true,
        Some(Ok(active)) => active,
        Some(Err(_)) => false,
    }
}

/// The answers that are left once a setting of this name has been dealt with: the answer
/// for an active setting is taken, and no other.
pub open spec fn answers_left(
    name: Seq<char>,
    outcome: Option<Result<bool, ConditionError>>,
    defaults: Map<Seq<char>, DefaultSetting>,
) -> Map<Seq<char>, DefaultSetting> {
    if is_active(outcome) {
        defaults.remove(name)
    } else {
        defaults
    }
}

/// What a step that stops says, as the outcome of dealing with one setting.
pub open spec fn stopped(result: Result<Action, FillError>) -> Result<Option<Action>, FillError> {
    match result {
        Ok(action) => Ok(Some(action)),
        Err(error) => Err(error),
    }
}

/// What the condition of a setting came out as, given what the template engine made of its
/// template: `None` for a setting without a condition.
pub open spec fn outcome_of(
    condition: Option<String>,
    rendered: Option<Result<String, tera::Error>>,
) -> Option<Result<bool, ConditionError>> {
    match (condition, rendered) {
        (Some(_), Some(made)) => Some(decided(made)),
        _ => None,
    }
}

/// Whether `result` is what one step gives that starts with `settings` left and `defaults`
/// given, and leaves `settings_left` and `defaults_left`. `rendered` is what the template
/// engine made of the template that the step before asked for, if it asked for one.
///
/// - With no setting left the step says `Done`.
/// - Where the first setting has a condition and nothing was rendered for it, the step asks
///   for its template to be rendered, and everything stays as it is.
/// - Else the first setting is dealt with as `action_for` says, with what its condition
///   came out as, and leaves. Where it is passed over, the step goes on with the settings
///   behind it, for which nothing is rendered yet. Where it is not, the step stops with
///   what `action_for` gave, and the answer given for the setting has left `defaults` if it
///   was active.
pub open spec fn steps(
    result: Result<Action, FillError>,
    settings: Seq<(Seq<char>, RepoSetting)>,
    defaults: Map<Seq<char>, DefaultSetting>,
    rendered: Option<Result<String, tera::Error>>,
    settings_left: Seq<(Seq<char>, RepoSetting)>,
    defaults_left: Map<Seq<char>, DefaultSetting>,
) -> bool
    decreases settings.len(),
{
    if settings.len() == 0 {
        result matches Ok(Action::Done) && settings_left == settings && defaults_left == defaults
    } else {
        let setting = settings[0].1;
        let outcome = outcome_of(setting.condition, rendered);
        if setting.condition.is_some() && rendered.is_none() {
            &&& result matches Ok(Action::Evaluate { template })
            &&& template@ == template_of(setting.condition->0@)
            &&& settings_left == settings
            &&& defaults_left == defaults
        } else if outcome == Some(Ok::<bool, ConditionError>(false)) {
            steps(result, settings.drop_first(), defaults, None, settings_left, defaults_left)
        } else {
            &&& exists|name: String|
                name@ == settings[0].0 && #[trigger] action_for(name, setting, outcome, defaults)
                    == stopped(result)
            &&& settings_left == settings.drop_first()
            &&& defaults_left == answers_left(settings[0].0, outcome, defaults)
        }
    }
}

/// Deals with one setting once its condition has been decided: `outcome` is what the
/// condition came out as, `None` for a setting without one. A condition that could not be
/// decided is the error, and nothing is asked or put into the context. A setting whose
/// condition came out false is passed over: nothing is done for it, and the answer given for
/// it in advance stays where it is. For any other setting that answer is taken out of
/// `defaults`, and what is planned with it is to be done under the name of the setting.
pub fn next_action(
    name: String,
    setting: RepoSetting,
    outcome: Option<Result<bool, ConditionError>>,
    defaults: &mut Defaults,
) -> (result: Result<Option<Action>, FillError>)
    requires
        old(defaults).wf(),
    ensures
        final(defaults).wf(),
        result == action_for(name, setting, outcome, old(defaults)@),
        final(defaults)@ == answers_left(name@, outcome, old(defaults)@),
{
    match outcome {
        Some(Err(cause)) => Err(FillError::Condition { name, cause }),
        Some(Ok(false)) => Ok(None),
        _ => {
            let RepoSetting { description, condition: _, ty } = setting;
            let default = defaults.remove(name.as_str());
            match plan(ty, default) {
                Ok(Plan::Insert(value)) => Ok(Some(Action::Insert { name, value })),
                Ok(Plan::Prompt(setting)) => Ok(
                    Some(Action::Prompt { name, description, setting }),
                ),
                Err(mismatch) => Err(FillError::Default { name, mismatch }),
            }
        },
    }
}

/// One step of filling the context with the answers to the settings that are left in `args`,
/// in their order. `rendered` is what the template engine made of the template that the
/// step before asked for; the first step gets `None`.
///
/// A step stops in one of these ways. It asks for the template of a condition to be
/// rendered against the context: the caller renders it and hands the outcome to the next
/// step. It says what is to be done for a setting that is active: the caller does it, so
/// that later conditions see the answer, and goes on with `None`. It fails, because a
/// condition could not be decided or an answer given in advance is of another kind. Or it
/// says `Done`. A setting whose condition comes out false is passed over: nothing is done
/// for it and the answer given for it stays in `defaults`.
pub fn fill_context(
    args: &mut IndexMap<String, RepoSetting>,
    defaults: &mut Defaults,
    rendered: Option<Result<String, tera::Error>>,
) -> (result: Result<Action, FillError>)
    requires
        old(defaults).wf(),
    ensures
        final(defaults).wf(),
        steps(
            result,
            index_map_entries(*old(args)),
            old(defaults)@,
            rendered,
            index_map_entries(*final(args)),
            final(defaults)@,
        ),
    decreases index_map_entries(*old(args)).len(),
{
    let ghost settings = index_map_entries(*args);
    match map_get(args, 0) {
        None => {
            return Ok(Action::Done);
        },
        Some((_, setting)) => {
            if let Some(condition) = &setting.condition {
                if rendered.is_none() {
                    return Ok(Action::Evaluate { template: condition_template(condition.as_str()) });
                }
            }
        },
    }
    let (name, setting) = match map_take_first(args) {
        Some(entry) => entry,
        None => {
            return Ok(Action::Done);
        },
    };
    let outcome = match (&setting.condition, rendered) {
        (Some(_), Some(made)) => Some(evaluate(made)),
        _ => None,
    };
    let ghost named = name;
    match next_action(name, setting, outcome, defaults) {
        Ok(Some(action)) => {
            assert(action_for(named, settings[0].1, outcome, old(defaults)@) == stopped(
                Ok(action),
            ));
            Ok(action)
        },
        Ok(None) => fill_context(args, defaults, None),
        Err(error) => {
            assert(action_for(named, settings[0].1, outcome, old(defaults)@) == stopped(
                Err(error),
            ));
            Err(error)
        },
    }
}

} // verus!
