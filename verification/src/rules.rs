//! The rule table: which rule fires between two adjacent characters.

use crate::charclass::{class_of, classify, CharClass};
use vstd::prelude::*;

verus! {

/// The rules of the table. Each one inserts a single ASCII space between the
/// two characters that trigger it.
#[derive(Clone, Copy, Debug, PartialEq, Eq, Structural)]
pub enum RuleId {
    /// A CJK character next to an ASCII letter.
    SpaceCjkLetter,
    /// A CJK character next to a digit.
    SpaceCjkDigit,
}

/// The identifier of a rule in reports.
pub open spec fn rule_name(rule: RuleId) -> Seq<char> {
    match rule {
        RuleId::SpaceCjkLetter => "space-cjk-letter"@,
        RuleId::SpaceCjkDigit => "space-cjk-digit"@,
    }
}

impl RuleId {
    /// The identifier of the rule in reports.
    pub fn name(&self) -> (name: &'static str)
        ensures
            name@ == rule_name(*self),
    {
        match self {
            RuleId::SpaceCjkLetter => "space-cjk-letter",
            RuleId::SpaceCjkDigit => "space-cjk-digit",
        }
    }
}

/// The rule that a boundary between a character of class `left` and one of
/// class `right` triggers, if any.
pub open spec fn rule_for(left: CharClass, right: CharClass) -> Option<RuleId> {
    match (left, right) {
        (CharClass::Cjk, CharClass::Letter) => Some(RuleId::SpaceCjkLetter),
        (CharClass::Letter, CharClass::Cjk) => Some(RuleId::SpaceCjkLetter),
        (CharClass::Cjk, CharClass::Digit) => Some(RuleId::SpaceCjkDigit),
        (CharClass::Digit, CharClass::Cjk) => Some(RuleId::SpaceCjkDigit),
        _ => None,
    }
}

/// The rule that fires between `a` and `b` when `b` directly follows `a`.
pub open spec fn rule_between(a: char, b: char) -> Option<RuleId> {
    rule_for(class_of(a), class_of(b))
}

/// A space is missing between `a` and `b`.
pub open spec fn needs_space(a: char, b: char) -> bool {
    rule_between(a, b) is Some
}

/// Looks a pair of classes up in the rule table.
pub fn lookup_rule(left: CharClass, right: CharClass) -> (rule: Option<RuleId>)
    ensures
        rule == rule_for(left, right),
{
    match (left, right) {
        (CharClass::Cjk, CharClass::Letter) => Some(RuleId::SpaceCjkLetter),
        (CharClass::Letter, CharClass::Cjk) => Some(RuleId::SpaceCjkLetter),
        (CharClass::Cjk, CharClass::Digit) => Some(RuleId::SpaceCjkDigit),
        (CharClass::Digit, CharClass::Cjk) => Some(RuleId::SpaceCjkDigit),
        _ => None,
    }
}

/// The rule that fires between two adjacent characters.
pub fn rule_at(a: char, b: char) -> (rule: Option<RuleId>)
    ensures
        rule == rule_between(a, b),
{
    lookup_rule(classify(a), classify(b))
}

/// No rule fires next to an ASCII space.
pub proof fn lemma_space_is_neutral(c: char)
    ensures
        !needs_space(c, ' '),
        !needs_space(' ', c),
{
}

} // verus!
