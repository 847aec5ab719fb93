//! The matcher as a mathematical value, and the distance that it gives to
//! a pair of identifiers.

use crate::langid::LanguageIdView;
use crate::rule::MatchRule;
use crate::variables::VariableMap;
use vstd::prelude::*;

verus! {

/// The distance from which on a supported language is no match.
pub const NO_MATCH: u16 = 1000;

/// A matcher as a mathematical value: the rules in the order in which they
/// are tried, the variable table, and the set of the paradigm locales.
pub struct MatcherView {
    pub rules: Seq<MatchRule>,
    pub variables: VariableMap,
    pub paradigm: Set<LanguageIdView>,
}

impl MatcherView {
    /// What a matcher has to be for every pair to find its rule: each rule
    /// names only variables of the table and gives a distance from 1 to 99,
    /// and one of the rules is the fallback `*_*_*` to `*_*_*`.
    pub open spec fn valid(self) -> bool {
        &&& forall|i: int| 0 <= i < self.rules.len() ==> (#[trigger] self.rules[i]).in_range()
        &&& forall|i: int|
            0 <= i < self.rules.len() ==> (#[trigger] self.rules[i]).defined_in(self.variables)
        &&& exists|i: int| 0 <= i < self.rules.len() && (#[trigger] self.rules[i]).is_fallback()
    }

    /// The rule at `i` applies to the pair.
    pub open spec fn applies_at(self, i: int, desired: LanguageIdView, supported: LanguageIdView) -> bool {
        0 <= i < self.rules.len() && self.rules[i].applies(desired, supported, self.variables)
    }

    /// The rule at `i` decides the pair: it applies and none before it
    /// does.
    pub open spec fn decides(self, i: int, desired: LanguageIdView, supported: LanguageIdView) -> bool {
        &&& self.applies_at(i, desired, supported)
        &&& forall|j: int| 0 <= j < i ==> !self.applies_at(j, desired, supported)
    }

    /// The place of the rule that decides the pair.
    pub open spec fn deciding_rule(self, desired: LanguageIdView, supported: LanguageIdView) -> int {
        choose|i: int| self.decides(i, desired, supported)
    }

    /// Exactly one of the two identifiers is a paradigm locale.
    pub open spec fn one_is_paradigm(self, desired: LanguageIdView, supported: LanguageIdView) -> bool {
        self.paradigm.contains(desired) != self.paradigm.contains(supported)
    }

    /// The distance that the rule at `i` gives to the pair: ten times the
    /// distance of the rule, less one where exactly one of the two is a
    /// paradigm locale.
    pub open spec fn distance_at(self, i: int, desired: LanguageIdView, supported: LanguageIdView) -> int {
        self.rules[i].base_distance * 10 - if self.one_is_paradigm(desired, supported) {
            1int
        } else {
            0int
        }
    }

    /// The distance that the rule table gives to the pair, as the two
    /// identifiers stand.
    pub open spec fn lookup(self, desired: LanguageIdView, supported: LanguageIdView) -> int {
        self.distance_at(self.deciding_rule(desired, supported), desired, supported)
    }

    /// What the regions add to the distance.
    pub open spec fn region_part(self, desired: LanguageIdView, supported: LanguageIdView) -> int {
        if desired.region != supported.region {
            self.lookup(desired, supported)
        } else {
            0
        }
    }

    /// What the scripts add to the distance. The regions are erased first.
    pub open spec fn script_part(self, desired: LanguageIdView, supported: LanguageIdView) -> int {
        if desired.script != supported.script {
            self.lookup(desired.without_region(), supported.without_region())
        } else {
            0
        }
    }

    /// What the languages add to the distance. Regions and scripts are
    /// erased first.
    pub open spec fn language_part(self, desired: LanguageIdView, supported: LanguageIdView) -> int {
        if desired.language != supported.language {
            self.lookup(desired.language_only(), supported.language_only())
        } else {
            0
        }
    }

    /// The distance of two identifiers.
    pub open spec fn distance(self, desired: LanguageIdView, supported: LanguageIdView) -> int {
        self.region_part(desired, supported) + self.script_part(desired, supported)
            + self.language_part(desired, supported)
    }

    /// The distances of the desired identifier to each of the supported.
    pub open spec fn distances(self, desired: LanguageIdView, supported: Seq<LanguageIdView>) -> Seq<int> {
        Seq::new(supported.len(), |i: int| self.distance(desired, supported[i]))
    }
}

/// The place `i` holds the least of the scores, and no place before it
/// does.
pub open spec fn is_first_least(scores: Seq<int>, i: int) -> bool {
    &&& 0 <= i < scores.len()
    &&& forall|j: int| 0 <= j < scores.len() ==> scores[i] <= scores[j]
    &&& forall|j: int| 0 <= j < i ==> scores[i] < scores[j]
}

/// The first place that holds the least of the scores.
pub open spec fn first_least(scores: Seq<int>) -> int {
    choose|i: int| is_first_least(scores, i)
}

/// The place that the choice of the nearest language falls on: the first
/// with the least score, unless there is no score or the least is no match.
pub open spec fn best_place(scores: Seq<int>) -> Option<int> {
    if scores.len() > 0 && scores[first_least(scores)] < NO_MATCH {
        Some(first_least(scores))
    } else {
        None
    }
}

/// A valid matcher has a rule for every pair.
pub proof fn lemma_some_rule_decides(m: MatcherView, desired: LanguageIdView, supported: LanguageIdView)
    requires
        m.valid(),
    ensures
        m.decides(m.deciding_rule(desired, supported), desired, supported),
{
    let f = choose|i: int| 0 <= i < m.rules.len() && (#[trigger] m.rules[i]).is_fallback();
    assert(m.applies_at(f, desired, supported));
    lemma_first_applying(m, f, desired, supported);
}

/// Where a rule applies, a rule at or before it decides.
proof fn lemma_first_applying(m: MatcherView, k: int, desired: LanguageIdView, supported: LanguageIdView)
    requires
        m.applies_at(k, desired, supported),
    ensures
        exists|i: int| 0 <= i <= k && m.decides(i, desired, supported),
    decreases k,
{
    if exists|j: int| 0 <= j < k && m.applies_at(j, desired, supported) {
        let j = choose|j: int| 0 <= j < k && m.applies_at(j, desired, supported);
        lemma_first_applying(m, j, desired, supported);
    } else {
        assert(m.decides(k, desired, supported));
    }
}

/// Only one rule decides a pair.
pub proof fn lemma_deciding_rule_is(m: MatcherView, i: int, desired: LanguageIdView, supported: LanguageIdView)
    requires
        m.decides(i, desired, supported),
    ensures
        m.deciding_rule(desired, supported) == i,
{
    let c = m.deciding_rule(desired, supported);
    assert(m.decides(c, desired, supported));
    if c < i {
        assert(!m.applies_at(c, desired, supported));
    }
    if i < c {
        assert(!m.applies_at(i, desired, supported));
    }
}

/// What the rule table gives to a pair is not negative and under the
/// threshold of the choice.
pub proof fn lemma_lookup_range(m: MatcherView, desired: LanguageIdView, supported: LanguageIdView)
    requires
        m.valid(),
    ensures
        0 <= m.lookup(desired, supported) < NO_MATCH,
{
    lemma_some_rule_decides(m, desired, supported);
    let i = m.deciding_rule(desired, supported);
    assert(m.rules[i].in_range());
}

/// Only one place is the first with the least score.
pub proof fn lemma_first_least_is(scores: Seq<int>, i: int)
    requires
        is_first_least(scores, i),
    ensures
        first_least(scores) == i,
{
    let c = first_least(scores);
    assert(is_first_least(scores, c));
    assert(scores[c] <= scores[i] && scores[i] <= scores[c]);
}

} // verus!
