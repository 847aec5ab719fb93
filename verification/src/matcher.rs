//! The language matcher: the distance of two language identifiers and the
//! choice of the nearest of several supported languages.

use crate::data::{
    def_views, paradigm_locale, paradigm_locales, table_fault, variable_name, variables_named,
    variables_of, DataError, MatchVariable, SupplementalData,
};
use crate::langid::{same_subtag, LanguageId, LanguageIdView};
use crate::model::{
    best_place, is_first_least, lemma_deciding_rule_is, lemma_first_least_is,
    lemma_some_rule_decides, MatcherView, NO_MATCH,
};
use crate::rule::{rule_views, LanguageMatch};
use crate::text::{split, split_str, texts};
use crate::variables::Variables;
use vstd::prelude::*;

verus! {

/// The views of a sequence of identifiers.
pub open spec fn id_views(ids: Seq<LanguageId>) -> Seq<LanguageIdView> {
    ids.map_values(|id: LanguageId| id@)
}

/// The set of the members of a sequence of identifiers.
pub open spec fn id_set(ids: Seq<LanguageIdView>) -> Set<LanguageIdView> {
    Set::new(|id: LanguageIdView| ids.contains(id))
}

/// The identifiers with their likely subtags added.
pub open spec fn resolved_all(ids: Seq<LanguageIdView>) -> Seq<LanguageIdView> {
    ids.map_values(|id: LanguageIdView| id.resolved())
}

/// The choice among the supported identifiers for a desired identifier
/// that has its likely subtags: the first of those at the least distance
/// from it, with that distance, unless the least distance is no match.
pub open spec fn nearest<'a>(
    m: MatcherView,
    desired: LanguageIdView,
    supported: &'a [LanguageId],
) -> Option<(&'a LanguageId, u16)> {
    match best_place(m.distances(desired, resolved_all(id_views(supported@)))) {
        Some(k) => Some((&supported@[k], m.distance(desired, supported@[k]@.resolved()) as u16)),
        None => None,
    }
}

/// Why a query has no answer.
#[derive(Clone, Copy, Debug, PartialEq, Eq)]
pub enum QueryError {
    /// Adding the likely subtags to the desired identifier leaves it without
    /// a script or a region.
    UnresolvedDesired,
    /// Adding the likely subtags to a supported identifier leaves it without
    /// a script or a region.
    UnresolvedSupported,
}

/// This is a language matcher. The distance of two languages is calculated
/// by the algorithm of CLDR, from an ordered table of rules. The value of a
/// distance is multiplied by 10, to leave room for the discount that a
/// paradigm locale gets.
pub struct LanguageMatcher {
    paradigm: Vec<LanguageId>,
    vars: Variables,
    rules: Vec<LanguageMatch>,
}

impl View for LanguageMatcher {
    type V = MatcherView;

    closed spec fn view(&self) -> MatcherView {
        MatcherView {
            rules: rule_views(self.rules@),
            variables: self.vars@,
            paradigm: id_set(id_views(self.paradigm@)),
        }
    }
}

/// Reads the list of paradigm locales and adds the likely subtags to each.
/// `None` where an entry is no language identifier.
fn read_paradigm_locales(locales: &str) -> (out: Option<Vec<LanguageId>>)
    ensures
        match out {
            Some(ids) => id_views(ids@) == paradigm_locales(split(locales@, ' ')) && forall|i: int|
                0 <= i < split(locales@, ' ').len() ==> paradigm_locale(
                    #[trigger] split(locales@, ' ')[i],
                ) is Some,
            None => exists|i: int|
                0 <= i < split(locales@, ' ').len() && paradigm_locale(
                    #[trigger] split(locales@, ' ')[i],
                ) is None,
        },
{
    let entries = split_str(locales, ' ');
    let ghost wanted = split(locales@, ' ');
    let mut ids: Vec<LanguageId> = Vec::new();
    for i in 0..entries.len()
        invariant
            texts(entries@) == wanted,
            wanted == split(locales@, ' '),
            ids@.len() == i,
            forall|k: int| 0 <= k < i ==> paradigm_locale(#[trigger] wanted[k]) == Some(ids@[k]@),
    {
        assert(wanted[i as int] == entries@[i as int]@);
        let id = match LanguageId::parse(entries[i].as_str()) {
            Some(id) => id,
            None => {
                assert(paradigm_locale(wanted[i as int]) is None);
                return None;
            },
        };
        let full = match id.maximize() {
            Some(full) => full,
            None => {
                assert(paradigm_locale(wanted[i as int]) is None);
                return None;
            },
        };
        ids.push(full);
    }
    assert(id_views(ids@) =~= paradigm_locales(wanted));
    Some(ids)
}

/// Builds the variable table. `None` where the id of a variable does not
/// start with `$`.
fn read_variables(defs: &Vec<MatchVariable>) -> (out: Option<Variables>)
    ensures
        match out {
            Some(vars) => vars@ == variables_of(def_views(defs@)) && forall|i: int|
                0 <= i < defs@.len() ==> variable_name((#[trigger] defs@[i])@.id) is Some,
            None => exists|i: int|
                0 <= i < defs@.len() && variable_name((#[trigger] defs@[i])@.id) is None,
        },
{
    let mut vars = Variables::new();
    for i in 0..defs.len()
        invariant
            vars@ == variables_of(def_views(defs@).take(i as int)),
            forall|k: int| 0 <= k < i ==> variable_name((#[trigger] defs@[k])@.id) is Some,
    {
        let def = &defs[i];
        let n = def.id.as_str().unicode_len();
        if n == 0 || def.id.as_str().get_char(0) != '$' {
            return None;
        }
        let name = def.id.as_str().substring_char(1, n).to_owned();
        let values = split_str(def.value.as_str(), '+');
        vars.define(name, &values);
        proof {
            let longer = def_views(defs@).take(i + 1);
            assert(longer.drop_last() =~= def_views(defs@).take(i as int));
            assert(longer.last() == def@);
            assert(def@.id.subrange(1, n as int) == def@.id.skip(1));
        }
    }
    assert(def_views(defs@).take(defs.len() as int) =~= def_views(defs@));
    Some(vars)
}

/// Whether every rule gives a distance between 1 and 99.
fn all_in_range(rules: &Vec<LanguageMatch>) -> (ok: bool)
    ensures
        ok == forall|i: int| 0 <= i < rules@.len() ==> (#[trigger] rule_views(rules@)[i]).in_range(),
{
    for i in 0..rules.len()
        invariant
            forall|k: int| 0 <= k < i ==> (#[trigger] rule_views(rules@)[k]).in_range(),
    {
        if !rules[i].is_in_range() {
            assert(!rule_views(rules@)[i as int].in_range());
            return false;
        }
    }
    true
}

/// Whether every rule names only variables of the table.
fn all_defined(rules: &Vec<LanguageMatch>, vars: &Variables) -> (ok: bool)
    ensures
        ok == forall|i: int|
            0 <= i < rules@.len() ==> (#[trigger] rule_views(rules@)[i]).defined_in(vars@),
{
    for i in 0..rules.len()
        invariant
            forall|k: int| 0 <= k < i ==> (#[trigger] rule_views(rules@)[k]).defined_in(vars@),
    {
        if !rules[i].is_defined_in(vars) {
            assert(!rule_views(rules@)[i as int].defined_in(vars@));
            return false;
        }
    }
    true
}

/// Whether one of the rules is the fallback.
fn has_fallback(rules: &Vec<LanguageMatch>) -> (found: bool)
    ensures
        found == exists|i: int|
            0 <= i < rules@.len() && (#[trigger] rule_views(rules@)[i]).is_fallback(),
{
    for i in 0..rules.len()
        invariant
            forall|k: int| 0 <= k < i ==> !(#[trigger] rule_views(rules@)[k]).is_fallback(),
    {
        if rules[i].is_fallback() {
            assert(rule_views(rules@)[i as int].is_fallback());
            return true;
        }
    }
    false
}

impl LanguageMatcher {
    /// The matcher is valid: it has a rule for every pair of identifiers,
    /// its rules name only variables that it has, and their distances are in
    /// range.
    pub open spec fn wf(&self) -> bool {
        self@.valid()
    }

    /// Creates an instance of [`LanguageMatcher`] from the language
    /// matching data. Data with a fault make no matcher.
    pub fn new(data: SupplementalData) -> (out: Result<LanguageMatcher, DataError>)
        ensures
            match data@.fault() {
                Some(fault) => out == Err::<LanguageMatcher, DataError>(fault),
                None => out matches Ok(matcher) && matcher@ == data@.matcher() && matcher.wf(),
            },
    {
        let matches = data.language_matching.language_matches;
        match read_paradigm_locales(matches.paradigm_locales.locales.as_str()) {
            Some(paradigm) => LanguageMatcher::from_parts(
                paradigm,
                &matches.match_variable,
                matches.language_match,
            ),
            None => Err(DataError::InvalidParadigmLocale),
        }
    }

    /// Creates a matcher from the paradigm locales as they are, the
    /// definitions of the variables and the rules. Variables and rules with
    /// a fault make no matcher.
    pub fn from_parts(
        paradigm: Vec<LanguageId>,
        variables: &Vec<MatchVariable>,
        rules: Vec<LanguageMatch>,
    ) -> (out: Result<LanguageMatcher, DataError>)
        ensures
            match table_fault(def_views(variables@), rule_views(rules@)) {
                Some(fault) => out == Err::<LanguageMatcher, DataError>(fault),
                None => out matches Ok(matcher) && matcher.wf() && matcher@ == (MatcherView {
                    rules: rule_views(rules@),
                    variables: variables_of(def_views(variables@)),
                    paradigm: id_set(id_views(paradigm@)),
                }),
            },
    {
        let ghost defs = def_views(variables@);
        let vars = match read_variables(variables) {
            Some(vars) => vars,
            None => {
                assert(!variables_named(defs)) by {
                    let i = choose|i: int|
                        0 <= i < variables@.len() && variable_name(
                            (#[trigger] variables@[i])@.id,
                        ) is None;
                    assert(defs[i] == variables@[i]@);
                }
                return Err(DataError::InvalidVariableId);
            },
        };
        assert(variables_named(defs)) by {
            assert forall|i: int| 0 <= i < defs.len() implies variable_name(
                (#[trigger] defs[i]).id,
            ) is Some by {
                assert(defs[i] == variables@[i]@);
            }
        }
        if !all_in_range(&rules) {
            return Err(DataError::DistanceOutOfRange);
        }
        if !all_defined(&rules, &vars) {
            return Err(DataError::UndefinedVariable);
        }
        if !has_fallback(&rules) {
            return Err(DataError::MissingFallback);
        }
        proof {
            crate::data::lemma_fault_free_is_valid(
                defs,
                rule_views(rules@),
                id_set(id_views(paradigm@)),
            );
        }
        Ok(LanguageMatcher { paradigm, vars, rules })
    }

    /// Whether the identifier, as it stands, is a paradigm locale.
    pub fn is_paradigm(&self, lang: &LanguageId) -> (found: bool)
        ensures
            found == self@.paradigm.contains(lang@),
    {
        let ghost ids = id_views(self.paradigm@);
        for i in 0..self.paradigm.len()
            invariant
                ids == id_views(self.paradigm@),
                forall|k: int| 0 <= k < i ==> ids[k] != lang@,
        {
            if self.paradigm[i].same_as(lang) {
                assert(ids[i as int] == lang@);
                return true;
            }
        }
        false
    }

    /// The distance that the rule table gives to the pair as the two
    /// identifiers stand: that of the first rule that applies, times ten,
    /// less one where exactly one of the two is a paradigm locale.
    pub fn distance_match(&self, desired: &LanguageId, supported: &LanguageId) -> (distance: u16)
        requires
            self.wf(),
        ensures
            distance == self@.lookup(desired@, supported@),
            self@.decides(self@.deciding_rule(desired@, supported@), desired@, supported@),
            distance < NO_MATCH,
    {
        proof {
            lemma_some_rule_decides(self@, desired@, supported@);
            crate::model::lemma_lookup_range(self@, desired@, supported@);
        }
        let mut i: usize = 0;
        while i < self.rules.len()
            invariant
                self.wf(),
                i <= self.rules.len(),
                forall|j: int| 0 <= j < i ==> !self@.applies_at(j, desired@, supported@),
            decreases self.rules.len() - i,
        {
            let rule = &self.rules[i];
            assert(self@.rules[i as int] == rule@);
            if rule.applies(desired, supported, &self.vars) {
                proof {
                    lemma_deciding_rule_is(self@, i as int, desired@, supported@);
                }
                let mut distance = rule.distance * 10;
                if self.is_paradigm(desired) != self.is_paradigm(supported) {
                    distance -= 1;
                }
                return distance;
            }
            i += 1;
        }
        vstd::pervasive::unreached()
    }

    /// The distance of two identifiers that have their script and their
    /// region. The regions are compared first, then the scripts without the
    /// regions, then the languages alone; each comparison that finds a
    /// difference adds what the rule table gives.
    pub fn distance_impl(&self, desired: LanguageId, supported: LanguageId) -> (distance: u16)
        requires
            self.wf(),
            desired@.is_maximized(),
            supported@.is_maximized(),
        ensures
            distance == self@.distance(desired@, supported@),
            distance < 3 * NO_MATCH,
    {
        let mut desired = desired;
        let mut supported = supported;
        let ghost d = desired@;
        let ghost s = supported@;
        proof {
            crate::model::lemma_lookup_range(self@, d, s);
            crate::model::lemma_lookup_range(self@, d.without_region(), s.without_region());
            crate::model::lemma_lookup_range(self@, d.language_only(), s.language_only());
        }
        let mut distance: u16 = 0;

        if !same_subtag(&desired.region, &supported.region) {
            distance += self.distance_match(&desired, &supported);
        }
        desired.region = None;
        supported.region = None;
        assert(desired@ == d.without_region() && supported@ == s.without_region());

        if !same_subtag(&desired.script, &supported.script) {
            distance += self.distance_match(&desired, &supported);
        }
        desired.script = None;
        supported.script = None;
        assert(desired@ == d.language_only() && supported@ == s.language_only());

        if desired.language != supported.language {
            distance += self.distance_match(&desired, &supported);
        }
        distance
    }

    /// Calculate the distance of the two languages, each with its likely
    /// subtags added. Some rules are one-way: mind the order of the
    /// parameters.
    ///
    /// The return value is multiplied by 10, and if only one is a paradigm
    /// locale, 1 is subtracted from the value.
    pub fn distance(&self, desired: LanguageId, supported: LanguageId) -> (distance: u16)
        requires
            self.wf(),
            desired@.resolvable(),
            supported@.resolvable(),
        ensures
            distance == self@.distance(desired@.resolved(), supported@.resolved()),
    {
        match (desired.resolve(), supported.resolve()) {
            (Some(d), Some(s)) => self.distance_impl(d, s),
            _ => vstd::pervasive::unreached(),
        }
    }

    /// The distance of the two languages, or which of the two has no script
    /// or no region once its likely subtags are added.
    pub fn try_distance(&self, desired: LanguageId, supported: LanguageId) -> (out: Result<u16, QueryError>)
        requires
            self.wf(),
        ensures
            out == if !desired@.resolvable() {
                Err::<u16, QueryError>(QueryError::UnresolvedDesired)
            } else if !supported@.resolvable() {
                Err(QueryError::UnresolvedSupported)
            } else {
                Ok(self@.distance(desired@.resolved(), supported@.resolved()) as u16)
            },
            out matches Ok(distance) ==> distance == self@.distance(
                desired@.resolved(),
                supported@.resolved(),
            ),
    {
        if desired.resolve().is_none() {
            return Err(QueryError::UnresolvedDesired);
        }
        if supported.resolve().is_none() {
            return Err(QueryError::UnresolvedSupported);
        }
        Ok(self.distance(desired, supported))
    }

    /// The choice among supported identifiers that have their script and
    /// their region, for a desired identifier that has them: the place of
    /// the first of those at the least distance, with that distance; `None`
    /// if there is no supported identifier or the least distance is 1000 or
    /// more.
    pub fn matches_impl(
        &self,
        desired: &LanguageId,
        supported: &[LanguageId],
    ) -> (best: Option<(usize, u16)>)
        requires
            self.wf(),
            desired@.is_maximized(),
            forall|i: int| 0 <= i < supported@.len() ==> (#[trigger] supported@[i])@.is_maximized(),
        ensures
            match best_place(self@.distances(desired@, id_views(supported@))) {
                Some(k) => best == Some(
                    (k as usize, self@.distance(desired@, supported@[k]@) as u16),
                ),
                None => best is None,
            },
            best matches Some((place, distance)) ==> place < supported@.len() && distance
                < NO_MATCH && distance == self@.distance(desired@, supported@[place as int]@),
    {
        let ghost scores = self@.distances(desired@, id_views(supported@));
        let mut best: Option<(usize, u16)> = None;
        for i in 0..supported.len()
            invariant
                self.wf(),
                desired@.is_maximized(),
                scores == self@.distances(desired@, id_views(supported@)),
                forall|k: int|
                    0 <= k < supported@.len() ==> (#[trigger] supported@[k])@.is_maximized(),
                i == 0 ==> best is None,
                i > 0 ==> (best matches Some((place, least)) && is_first_least(
                    scores.take(i as int),
                    place as int,
                ) && least == scores[place as int]),
        {
            let distance = self.distance_impl(desired.clone_id(), supported[i].clone_id());
            assert(scores[i as int] == distance);
            let nearer = match best {
                Some((_, least)) => distance < least,
                None => true,
            };
            proof {
                let shorter = scores.take(i as int);
                let longer = scores.take(i + 1);
                assert(forall|j: int| 0 <= j < i ==> longer[j] == shorter[j]);
                if nearer {
                    assert(is_first_least(longer, i as int));
                } else {
                    assert(is_first_least(longer, best.unwrap().0 as int));
                }
            }
            if nearer {
                best = Some((i, distance));
            }
        }
        proof {
            assert(scores.take(supported.len() as int) =~= scores);
            if supported.len() > 0 {
                lemma_first_least_is(scores, best.unwrap().0 as int);
            }
        }
        match best {
            Some((_, least)) => if least < NO_MATCH {
                best
            } else {
                None
            },
            None => None,
        }
    }

    /// Choose the nearest language of the desired language from the
    /// supported languages, each with its likely subtags added. Returns the
    /// chosen language as it was given and the distance; of several at the
    /// least distance the first is chosen.
    ///
    /// `None` will be returned if no language gives a distance less than
    /// 1000. That usually means no language matches the desired one.
    pub fn matches<'a>(
        &self,
        desired: LanguageId,
        supported: &'a [LanguageId],
    ) -> (best: Option<(&'a LanguageId, u16)>)
        requires
            self.wf(),
            desired@.resolvable(),
            forall|i: int| 0 <= i < supported@.len() ==> (#[trigger] supported@[i])@.resolvable(),
        ensures
            best == nearest(self@, desired@.resolved(), supported),
            best matches Some((chosen, distance)) ==> distance < NO_MATCH && distance
                == self@.distance(desired@.resolved(), chosen@.resolved()),
            (forall|i: int|
                0 <= i < supported@.len() ==> self@.distance(
                    desired@.resolved(),
                    (#[trigger] supported@[i])@.resolved(),
                ) >= NO_MATCH) ==> best is None,
    {
        let full = match desired.resolve() {
            Some(full) => full,
            None => vstd::pervasive::unreached(),
        };
        let ghost wanted = resolved_all(id_views(supported@));
        let mut fulls: Vec<LanguageId> = Vec::new();
        for i in 0..supported.len()
            invariant
                wanted == resolved_all(id_views(supported@)),
                forall|k: int|
                    0 <= k < supported@.len() ==> (#[trigger] supported@[k])@.resolvable(),
                fulls@.len() == i,
                forall|k: int| 0 <= k < i ==> (#[trigger] fulls@[k])@ == wanted[k],
        {
            assert(supported@[i as int]@.resolvable());
            match supported[i].resolve() {
                Some(c) => fulls.push(c),
                None => vstd::pervasive::unreached(),
            }
        }
        proof {
            assert(id_views(fulls@) =~= wanted);
            assert forall|k: int| 0 <= k < fulls@.len() implies (#[trigger] fulls@[k])@.is_maximized() by {
                assert(supported@[k]@.resolvable());
                assert(fulls@[k]@ == wanted[k]);
            }
            crate::laws::law_threshold(self@.distances(full@, wanted));
        }
        match self.matches_impl(&full, fulls.as_slice()) {
            Some((place, distance)) => Some((&supported[place], distance)),
            None => None,
        }
    }

    /// The nearest of the supported languages as `matches` gives it, or
    /// which identifier has no script or no region once its likely subtags
    /// are added.
    pub fn try_matches<'a>(
        &self,
        desired: LanguageId,
        supported: &'a [LanguageId],
    ) -> (out: Result<Option<(&'a LanguageId, u16)>, QueryError>)
        requires
            self.wf(),
        ensures
            out == if !desired@.resolvable() {
                Err::<Option<(&'a LanguageId, u16)>, QueryError>(QueryError::UnresolvedDesired)
            } else if exists|i: int|
                0 <= i < supported@.len() && !(#[trigger] supported@[i])@.resolvable() {
                Err(QueryError::UnresolvedSupported)
            } else {
                Ok(nearest(self@, desired@.resolved(), supported))
            },
    {
        if desired.resolve().is_none() {
            return Err(QueryError::UnresolvedDesired);
        }
        for i in 0..supported.len()
            invariant
                desired@.resolvable(),
                forall|k: int| 0 <= k < i ==> (#[trigger] supported@[k])@.resolvable(),
        {
            if supported[i].resolve().is_none() {
                assert(!supported@[i as int]@.resolvable());
                return Err(QueryError::UnresolvedSupported);
            }
        }
        Ok(self.matches(desired, supported))
    }
}

} // verus!
