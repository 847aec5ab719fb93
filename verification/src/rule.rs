//! Match rules and the ordered rule table: which rule decides a pair of
//! identifiers, and the distance that it gives them.

use crate::langid::{LanguageId, LanguageIdView};
use crate::pattern::{LanguageIdentifierRule, TagPattern};
use crate::variables::{VariableMap, Variables};
use vstd::prelude::*;

verus! {

/// The bound of the distances that a rule may give: each is under it.
pub const DISTANCE_BOUND: u16 = 100;

/// A match rule as a mathematical value.
pub struct MatchRule {
    pub desired: TagPattern,
    pub supported: TagPattern,
    pub base_distance: int,
    pub one_way: bool,
}

impl MatchRule {
    /// Every variable that the two patterns name is in the table.
    pub open spec fn defined_in(self, vars: VariableMap) -> bool {
        self.desired.defined_in(vars) && self.supported.defined_in(vars)
    }

    /// The distance is one that a rule may give: under 100, so that ten
    /// times the distance is under the threshold of the choice, and not zero,
    /// so that the discount for a paradigm locale never leads below zero.
    pub open spec fn in_range(self) -> bool {
        1 <= self.base_distance < DISTANCE_BOUND
    }

    /// The rule matches as it is written: its desired pattern matches the
    /// desired identifier and its supported pattern the supported one.
    pub open spec fn matches_forward(
        self,
        desired: LanguageIdView,
        supported: LanguageIdView,
        vars: VariableMap,
    ) -> bool {
        self.desired.matches(desired, vars) && self.supported.matches(supported, vars)
    }

    /// The rule matches with its two patterns exchanged.
    pub open spec fn matches_backward(
        self,
        desired: LanguageIdView,
        supported: LanguageIdView,
        vars: VariableMap,
    ) -> bool {
        self.supported.matches(desired, vars) && self.desired.matches(supported, vars)
    }

    /// The rule applies to the pair: it matches as written, or it is not
    /// one-way and matches with its patterns exchanged.
    pub open spec fn applies(
        self,
        desired: LanguageIdView,
        supported: LanguageIdView,
        vars: VariableMap,
    ) -> bool {
        self.matches_forward(desired, supported, vars) || (!self.one_way && self.matches_backward(
            desired,
            supported,
            vars,
        ))
    }

    /// Both patterns are `*_*_*`: the rule applies to every pair.
    pub open spec fn is_fallback(self) -> bool {
        self.desired.is_wildcard() && self.supported.is_wildcard()
    }
}

/// A match rule.
#[derive(Debug, PartialEq)]
pub struct LanguageMatch {
    pub desired: LanguageIdentifierRule,
    pub supported: LanguageIdentifierRule,
    pub distance: u16,
    pub oneway: bool,
}

impl View for LanguageMatch {
    type V = MatchRule;

    open spec fn view(&self) -> MatchRule {
        MatchRule {
            desired: self.desired@,
            supported: self.supported@,
            base_distance: self.distance as int,
            one_way: self.oneway,
        }
    }
}

/// The views of a sequence of rules.
pub open spec fn rule_views(rules: Seq<LanguageMatch>) -> Seq<MatchRule> {
    rules.map_values(|r: LanguageMatch| r@)
}

impl LanguageMatch {
    /// A rule from the texts of its two patterns.
    pub fn new(desired: &str, supported: &str, distance: u16, oneway: bool) -> (rule: LanguageMatch)
        ensures
            rule@ == (MatchRule {
                desired: TagPattern::parse(desired@),
                supported: TagPattern::parse(supported@),
                base_distance: distance as int,
                one_way: oneway,
            }),
    {
        LanguageMatch {
            desired: LanguageIdentifierRule::parse(desired),
            supported: LanguageIdentifierRule::parse(supported),
            distance,
            oneway,
        }
    }

    /// Whether every variable that the rule names is in the table.
    pub fn is_defined_in(&self, vars: &Variables) -> (defined: bool)
        ensures
            defined == self@.defined_in(vars@),
    {
        self.desired.is_defined_in(vars) && self.supported.is_defined_in(vars)
    }

    /// Whether the distance is one that a rule may give.
    pub fn is_in_range(&self) -> (ok: bool)
        ensures
            ok == self@.in_range(),
    {
        1 <= self.distance && self.distance < DISTANCE_BOUND
    }

    /// Whether both patterns are `*_*_*`.
    pub fn is_fallback(&self) -> (fallback: bool)
        ensures
            fallback == self@.is_fallback(),
    {
        self.desired.is_wildcard() && self.supported.is_wildcard()
    }

    /// Whether the rule applies to the pair.
    pub fn applies(
        &self,
        desired: &LanguageId,
        supported: &LanguageId,
        vars: &Variables,
    ) -> (hit: bool)
        requires
            self@.defined_in(vars@),
        ensures
            hit == self@.applies(desired@, supported@, vars@),
    {
        let mut hit = self.desired.matches(desired, vars) && self.supported.matches(
            supported,
            vars,
        );
        if !self.oneway && !hit {
            hit = self.supported.matches(desired, vars) && self.desired.matches(supported, vars);
        }
        hit
    }
}

} // verus!
