//! What holds of the distance of every matcher.

use crate::langid::LanguageIdView;
use crate::model::{
    best_place, first_least, is_first_least, lemma_deciding_rule_is, lemma_lookup_range,
    lemma_some_rule_decides, MatcherView, NO_MATCH,
};
use vstd::prelude::*;

verus! {

impl MatcherView {
    /// In both orders of the pair the rule that decides is not one-way.
    pub open spec fn decided_two_way(self, a: LanguageIdView, b: LanguageIdView) -> bool {
        !self.rules[self.deciding_rule(a, b)].one_way && !self.rules[self.deciding_rule(
            b,
            a,
        )].one_way
    }
}

/// The range: what the rule table gives to a pair is not negative and
/// under 1000, and so is each of the three parts of a distance; the
/// distance itself is under 3000.
pub proof fn law_distance_range(m: MatcherView, desired: LanguageIdView, supported: LanguageIdView)
    requires
        m.valid(),
    ensures
        0 <= m.lookup(desired, supported) < NO_MATCH,
        0 <= m.region_part(desired, supported) < NO_MATCH,
        0 <= m.script_part(desired, supported) < NO_MATCH,
        0 <= m.language_part(desired, supported) < NO_MATCH,
        0 <= m.distance(desired, supported) < 3 * NO_MATCH,
{
    lemma_lookup_range(m, desired, supported);
    lemma_lookup_range(m, desired.without_region(), supported.without_region());
    lemma_lookup_range(m, desired.language_only(), supported.language_only());
}

/// Identity: an identifier is at distance 0 from itself.
pub proof fn law_identity(m: MatcherView, a: LanguageIdView)
    ensures
        m.distance(a, a) == 0,
{
}

/// Symmetry of the rule table: where the rules that decide a pair in its
/// two orders are both not one-way, they are one and the same rule, and the
/// table gives the pair the same distance in both orders.
pub proof fn law_lookup_symmetric(m: MatcherView, a: LanguageIdView, b: LanguageIdView)
    requires
        m.valid(),
        m.decided_two_way(a, b),
    ensures
        m.deciding_rule(a, b) == m.deciding_rule(b, a),
        m.lookup(a, b) == m.lookup(b, a),
{
    lemma_some_rule_decides(m, a, b);
    lemma_some_rule_decides(m, b, a);
    let i = m.deciding_rule(a, b);
    let j = m.deciding_rule(b, a);
    assert(m.applies_at(i, b, a));
    assert(m.applies_at(j, a, b));
    if i < j {
        assert(!m.applies_at(i, b, a));
    }
    if j < i {
        assert(!m.applies_at(j, a, b));
    }
}

/// Symmetry: where, in each comparison that finds a difference, the rules
/// that decide the pair in its two orders are not one-way, the distance is
/// the same in both orders.
pub proof fn law_distance_symmetric(m: MatcherView, a: LanguageIdView, b: LanguageIdView)
    requires
        m.valid(),
        a.region != b.region ==> m.decided_two_way(a, b),
        a.script != b.script ==> m.decided_two_way(a.without_region(), b.without_region()),
        a.language != b.language ==> m.decided_two_way(a.language_only(), b.language_only()),
    ensures
        m.region_part(a, b) == m.region_part(b, a),
        m.script_part(a, b) == m.script_part(b, a),
        m.language_part(a, b) == m.language_part(b, a),
        m.distance(a, b) == m.distance(b, a),
{
    if a.region != b.region {
        law_lookup_symmetric(m, a, b);
    }
    if a.script != b.script {
        law_lookup_symmetric(m, a.without_region(), b.without_region());
    }
    if a.language != b.language {
        law_lookup_symmetric(m, a.language_only(), b.language_only());
    }
}

/// Symmetry of a table without one-way rules: the distance of every pair
/// is the same in both orders.
pub proof fn law_two_way_table_symmetric(m: MatcherView, a: LanguageIdView, b: LanguageIdView)
    requires
        m.valid(),
        forall|i: int| 0 <= i < m.rules.len() ==> !(#[trigger] m.rules[i]).one_way,
    ensures
        m.distance(a, b) == m.distance(b, a),
{
    lemma_some_rule_decides(m, a, b);
    lemma_some_rule_decides(m, b, a);
    lemma_some_rule_decides(m, a.without_region(), b.without_region());
    lemma_some_rule_decides(m, b.without_region(), a.without_region());
    lemma_some_rule_decides(m, a.language_only(), b.language_only());
    lemma_some_rule_decides(m, b.language_only(), a.language_only());
    law_distance_symmetric(m, a, b);
}

/// The distance is the sum of what the regions, the scripts and the
/// languages add, and only the first of the three depends on the regions:
/// between two supported identifiers of one language and one script, the
/// distances from a desired identifier differ by what the regions add.
pub proof fn law_region_changes_region_part_only(
    m: MatcherView,
    desired: LanguageIdView,
    supported: LanguageIdView,
    other: LanguageIdView,
)
    requires
        other.language == supported.language,
        other.script == supported.script,
    ensures
        m.distance(desired, supported) == m.region_part(desired, supported) + m.script_part(
            desired,
            supported,
        ) + m.language_part(desired, supported),
        m.script_part(desired, other) == m.script_part(desired, supported),
        m.language_part(desired, other) == m.language_part(desired, supported),
        m.distance(desired, other) - m.distance(desired, supported) == m.region_part(
            desired,
            other,
        ) - m.region_part(desired, supported),
{
    assert(other.without_region() == supported.without_region());
    assert(other.language_only() == supported.language_only());
}

/// The discount: what the table gives to a pair is ten times the distance
/// of the rule that decides it where both or neither of the two are
/// paradigm locales, and one less where exactly one of them is.
pub proof fn law_discount(m: MatcherView, desired: LanguageIdView, supported: LanguageIdView)
    ensures
        m.one_is_paradigm(desired, supported) ==> m.lookup(desired, supported) == 10
            * m.rules[m.deciding_rule(desired, supported)].base_distance - 1,
        !m.one_is_paradigm(desired, supported) ==> m.lookup(desired, supported) == 10
            * m.rules[m.deciding_rule(desired, supported)].base_distance,
{
}

/// The discount between two matchers of the same rules and variables: the
/// same rule decides a pair in both; where exactly one of the pair is a
/// paradigm locale of the first and both or neither are of the second, the
/// first gives the pair 1 less than the second, and where the two matchers
/// agree on that question they give the same.
pub proof fn law_paradigm_discount(
    m: MatcherView,
    other: MatcherView,
    desired: LanguageIdView,
    supported: LanguageIdView,
)
    requires
        m.valid(),
        other.rules == m.rules,
        other.variables == m.variables,
    ensures
        other.deciding_rule(desired, supported) == m.deciding_rule(desired, supported),
        m.one_is_paradigm(desired, supported) && !other.one_is_paradigm(desired, supported)
            ==> m.lookup(desired, supported) == other.lookup(desired, supported) - 1,
        m.one_is_paradigm(desired, supported) == other.one_is_paradigm(desired, supported)
            ==> m.lookup(desired, supported) == other.lookup(desired, supported),
{
    lemma_some_rule_decides(m, desired, supported);
    let i = m.deciding_rule(desired, supported);
    assert(other.applies_at(i, desired, supported));
    assert forall|j: int| 0 <= j < i implies !other.applies_at(j, desired, supported) by {
        assert(!m.applies_at(j, desired, supported));
    }
    lemma_deciding_rule_is(other, i, desired, supported);
}

/// The threshold: the place that the choice falls on holds a score under
/// 1000, no score is less and none before it is as little; and the choice
/// falls on no place exactly where no score is under 1000.
pub proof fn law_threshold(scores: Seq<int>)
    ensures
        best_place(scores) matches Some(k) ==> is_first_least(scores, k) && scores[k] < NO_MATCH,
        best_place(scores) is None <==> forall|i: int|
            0 <= i < scores.len() ==> #[trigger] scores[i] >= NO_MATCH,
{
    if scores.len() > 0 {
        lemma_some_first_least(scores, scores.len() as int);
        let k = first_least(scores);
        assert(scores.take(scores.len() as int) =~= scores);
        assert(is_first_least(scores, k));
        if scores[k] >= NO_MATCH {
            assert forall|i: int| 0 <= i < scores.len() implies #[trigger] scores[i]
                >= NO_MATCH by {
                assert(scores[k] <= scores[i]);
            }
        }
    }
}

/// Every prefix that is not empty has a first place with its least score.
proof fn lemma_some_first_least(scores: Seq<int>, n: int)
    requires
        0 < n <= scores.len(),
    ensures
        exists|i: int| is_first_least(scores.take(n), i),
    decreases n,
{
    let prefix = scores.take(n);
    if n == 1 {
        assert(is_first_least(prefix, 0));
    } else {
        lemma_some_first_least(scores, n - 1);
        let shorter = scores.take(n - 1);
        let k = choose|i: int| is_first_least(shorter, i);
        assert(forall|j: int| 0 <= j < n - 1 ==> prefix[j] == shorter[j]);
        if prefix[n - 1] < shorter[k] {
            assert(is_first_least(prefix, n - 1));
        } else {
            assert(is_first_least(prefix, k));
        }
    }
}

} // verus!
