//! Conditions of settings and of ignore rules: expressions of the template engine, or whole
//! templates, that come out as `true` or `false`. The library says which template decides a
//! condition and reads what the engine made of it; rendering the template against the values
//! of the context is left to the caller.

use crate::text::{chars_of, slice, spells, trim_bounds, trimmed};
use vstd::prelude::*;
use vstd::string::StringExecFns;

verus! {

/// `tera::Error`: why the template engine gave up. It is handed on and never looked into.
#[verifier::external_type_specification]
#[verifier::external_body]
pub struct ExTeraError(tera::Error);

/// Why a condition could not be decided.
pub enum ConditionError {
    /// The template engine could not render the expression.
    Render(tera::Error),
    /// The expression came out as this text, which is neither `true` nor `false`.
    NotBoolean(String),
}

/// Whether a marker of the template engine begins at `index`: `{{` or `{%`.
pub open spec fn marker_at(text: Seq<char>, index: int) -> bool {
    &&& 0 <= index < text.len() - 1
    &&& text[index] == '{'
    &&& text[index + 1] == '{' || text[index + 1] == '%'
}

/// Whether a condition is written as a template: it holds a marker of the template engine.
pub open spec fn is_template(condition: Seq<char>) -> bool {
    exists|index: int| marker_at(condition, index)
}

/// The template that a condition is decided by: the condition itself where it is written as
/// a template, and else the template that prints its value as an expression.
pub open spec fn template_of(condition: Seq<char>) -> Seq<char> {
    if is_template(condition) {
        condition
    } else {
        "{{ "@ + condition + " }}"@
    }
}

/// What a rendered condition says: `true` or `false`, white space around it left out.
pub open spec fn condition_value(rendered: Seq<char>) -> Option<bool> {
    if trimmed(rendered) == "true"@ {
        Some(true)
    } else if trimmed(rendered) == "false"@ {
        Some(false)
    } else {
        None
    }
}

/// Whether the condition holds a marker of the template engine.
fn has_marker(condition: &Vec<char>) -> (found: bool)
    ensures
        found == is_template(condition@),
{
    let mut i: usize = 1;
    while i < condition.len()
        invariant
            1 <= i,
            forall|j: int| 0 <= j < i - 1 ==> !marker_at(condition@, j),
        decreases condition.len() - i,
    {
        if condition[i - 1] == '{' && (condition[i] == '{' || condition[i] == '%') {
            assert(marker_at(condition@, i - 1));
            return true;
        }
        i = i + 1;
    }
    false
}

/// The template that `condition` is decided by.
pub fn condition_template(condition: &str) -> (template: String)
    ensures
        template@ == template_of(condition@),
{
    if has_marker(&chars_of(condition)) {
        String::from_str(condition)
    } else {
        let mut template = String::from_str("{{ ");
        template.append(condition);
        template.append(" }}");
        template
    }
}

/// Reads a rendered condition: `true` or `false` with any white space around it. Any other
/// text is an error that holds the text.
pub fn parse_condition(rendered: String) -> (result: Result<bool, ConditionError>)
    ensures
        match result {
            Ok(active) => condition_value(rendered@) == Some(active),
            Err(ConditionError::NotBoolean(text)) => condition_value(rendered@).is_none() && text
                == rendered,
            Err(ConditionError::Render(_)) => false,
        },
{
    let chars = chars_of(rendered.as_str());
    let (from, to) = trim_bounds(&chars);
    let word = slice(&chars, from, to);
    if spells(&word, "true") {
        Ok(true)
    } else if spells(&word, "false") {
        proof {
            reveal_strlit("true");
            reveal_strlit("false");
            assert("true"@.len() != "false"@.len());
        }
        Ok(false)
    } else {
        Err(ConditionError::NotBoolean(rendered))
    }
}

/// What follows from what the template engine made of the template of a condition: the
/// text it rendered says whether the condition holds, and its error is handed on.
pub open spec fn decided(rendered: Result<String, tera::Error>) -> Result<bool, ConditionError> {
    match rendered {
        Ok(text) => match condition_value(text@) {
            Some(active) => Ok(active),
            None => Err(ConditionError::NotBoolean(text)),
        },
        Err(error) => Err(ConditionError::Render(error)),
    }
}

/// Decides a condition from what the template engine made of its template, which
/// `condition_template` gives: the text that came out is read by `parse_condition`, and an
/// error of the engine is why the condition could not be decided.
pub fn evaluate(rendered: Result<String, tera::Error>) -> (result: Result<bool, ConditionError>)
    ensures
        result == decided(rendered),
{
    match rendered {
        Ok(text) => parse_condition(text),
        Err(error) => Err(ConditionError::Render(error)),
    }
}

} // verus!
