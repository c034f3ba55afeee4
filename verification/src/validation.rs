//! Input checks shared by the contracts.

use vstd::prelude::*;
use vstd::string::StringExecFns;

use crate::host::{host_string_bytes, host_vec_len};

verus! {

/// Longest string, in bytes, that is accepted where nothing else is configured.
pub const DEFAULT_MAX_STRING_LEN: u32 = 256;

/// The rule that an input breaks.
#[derive(Clone, Copy, Debug, PartialEq, Eq, Structural)]
pub enum Rule {
    /// The input must not be empty.
    NonEmpty,
    /// The input must not exceed its maximum length.
    MaxLength,
    /// The input must be positive.
    Positive,
    /// The input must lie within its bounds.
    WithinBounds,
}

/// A refused input: the rule it breaks, and the name of the field it was given for.
#[derive(Debug)]
pub struct ValidationError {
    pub rule: Rule,
    pub field: String,
}

/// The words in which a broken rule is reported.
pub open spec fn rule_words(rule: Rule) -> Seq<char> {
    match rule {
        Rule::NonEmpty => "must not be empty"@,
        Rule::MaxLength => "exceeds maximum length"@,
        Rule::Positive => "must be positive"@,
        Rule::WithinBounds => "must be within bounds"@,
    }
}

/// `r` reports the broken rule, if there is one, for the field.
pub open spec fn reports(
    r: Result<(), ValidationError>,
    broken: Option<Rule>,
    field: Seq<char>,
) -> bool {
    match broken {
        Some(rule) => r matches Err(e) && e.rule == rule && e.field@ == field,
        None => r is Ok,
    }
}

/// The rule that an input of `len` items breaks where it must not be empty.
pub open spec fn emptiness_rule(len: nat) -> Option<Rule> {
    if len == 0 {
        Some(Rule::NonEmpty)
    } else {
        None
    }
}

/// The rule that a string of `len` bytes breaks where at most `max` are allowed.
pub open spec fn length_rule(len: nat, max: u32) -> Option<Rule> {
    if len == 0 {
        Some(Rule::NonEmpty)
    } else if len > max {
        Some(Rule::MaxLength)
    } else {
        None
    }
}

/// The text of a validation message.
fn message_text(field: &str, words: &str) -> (s: String)
    ensures
        s@ == "validation: "@ + field@ + " "@ + words@,
{
    let mut s: String = "validation: ".to_owned();
    s.append(field);
    s.append(" ");
    s.append(words);
    s
}

impl ValidationError {
    /// The message that reports this error.
    pub fn message(&self) -> (s: String)
        ensures
            s@ == "validation: "@ + self.field@ + " "@ + rule_words(self.rule),
    {
        match self.rule {
            Rule::NonEmpty => message_text(self.field.as_str(), "must not be empty"),
            Rule::MaxLength => message_text(self.field.as_str(), "exceeds maximum length"),
            Rule::Positive => message_text(self.field.as_str(), "must be positive"),
            Rule::WithinBounds => message_text(self.field.as_str(), "must be within bounds"),
        }
    }
}

/// `Ok` where the rule is kept, else the report that it is broken.
fn keep(kept: bool, rule: Rule, field: &str) -> (r: Result<(), ValidationError>)
    ensures
        reports(
            r,
            if kept {
                None
            } else {
                Some(rule)
            },
            field@,
        ),
{
    if kept {
        Ok(())
    } else {
        Err(ValidationError { rule, field: field.to_owned() })
    }
}

/// Refuses an input of which it is known whether it is empty.
pub fn require_non_empty(is_empty: bool, field: &str) -> (r: Result<(), ValidationError>)
    ensures
        reports(
            r,
            if is_empty {
                Some(Rule::NonEmpty)
            } else {
                None
            },
            field@,
        ),
{
    keep(!is_empty, Rule::NonEmpty, field)
}

/// Refuses a string of `len` bytes that is empty or longer than `max`.
pub fn require_length(len: usize, field: &str, max: u32) -> (r: Result<(), ValidationError>)
    ensures
        reports(r, length_rule(len as nat, max), field@),
{
    if len == 0 {
        keep(false, Rule::NonEmpty, field)
    } else {
        keep(len as u64 <= max as u64, Rule::MaxLength, field)
    }
}

/// Refuses an empty host string.
pub fn require_non_empty_string(value: &soroban_sdk::String, field: &str) -> (r: Result<
    (),
    ValidationError,
>)
    ensures
        reports(r, emptiness_rule(host_string_bytes(*value).len()), field@),
{
    require_non_empty(value.is_empty(), field)
}

/// Refuses a host string that is empty or holds more than `max` bytes.
pub fn require_string_length(value: &soroban_sdk::String, field: &str, max: u32) -> (r: Result<
    (),
    ValidationError,
>)
    ensures
        reports(r, length_rule(host_string_bytes(*value).len(), max), field@),
{
    require_length(value.len() as usize, field, max)
}

/// Refuses an empty host vector. Only emptiness is checked: what the items are is up to the caller.
pub fn require_non_empty_vec<T>(value: &soroban_sdk::Vec<T>, field: &str) -> (r: Result<
    (),
    ValidationError,
>)
    ensures
        reports(r, emptiness_rule(host_vec_len(*value) as nat), field@),
{
    require_non_empty(value.is_empty(), field)
}

/// Host vectors of the same length are judged alike, whatever their items are: for any answers
/// that [`require_non_empty_vec`] may give, the one is accepted exactly if the other is.
pub proof fn vectors_are_judged_by_their_length<T, U>(
    first: soroban_sdk::Vec<T>,
    second: soroban_sdk::Vec<U>,
    field: Seq<char>,
    first_result: Result<(), ValidationError>,
    second_result: Result<(), ValidationError>,
)
    requires
        host_vec_len(first) == host_vec_len(second),
        reports(first_result, emptiness_rule(host_vec_len(first) as nat), field),
        reports(second_result, emptiness_rule(host_vec_len(second) as nat), field),
    ensures
        first_result is Ok <==> second_result is Ok,
        first_result is Ok <==> host_vec_len(first) > 0,
{
}

/// A string is accepted exactly if it has at least one byte and no more than the maximum; else the
/// report says which of the two it is not, and for which field.
pub proof fn strings_are_judged_by_their_length(
    len: nat,
    max: u32,
    field: Seq<char>,
    r: Result<(), ValidationError>,
)
    requires
        reports(r, length_rule(len, max), field),
    ensures
        r is Ok <==> 1 <= len <= max,
        len == 0 ==> (r matches Err(e) && e.rule == Rule::NonEmpty && e.field@ == field),
        len > max && len > 0 ==> (r matches Err(e) && e.rule == Rule::MaxLength && e.field@
            == field),
{
}

/// Refuses zero.
pub fn require_positive_u64(value: u64, field: &str) -> (r: Result<(), ValidationError>)
    ensures
        reports(
            r,
            if value == 0 {
                Some(Rule::Positive)
            } else {
                None
            },
            field@,
        ),
{
    keep(value != 0, Rule::Positive, field)
}

/// Refuses zero.
pub fn require_positive_u32(value: u32, field: &str) -> (r: Result<(), ValidationError>)
    ensures
        reports(
            r,
            if value == 0 {
                Some(Rule::Positive)
            } else {
                None
            },
            field@,
        ),
{
    keep(value != 0, Rule::Positive, field)
}

/// Refuses a value outside `min..=max`.
pub fn require_within_bounds(value: u64, min: u64, max: u64, field: &str) -> (r: Result<
    (),
    ValidationError,
>)
    ensures
        reports(
            r,
            if min <= value <= max {
                None
            } else {
                Some(Rule::WithinBounds)
            },
            field@,
        ),
{
    keep(min <= value && value <= max, Rule::WithinBounds, field)
}

/// Accepts every host handle: a contract always runs with one.
pub fn require_env(_env: &soroban_sdk::Env) -> (r: Result<(), ValidationError>)
    ensures
        r is Ok,
{
    Ok(())
}

} // verus!
