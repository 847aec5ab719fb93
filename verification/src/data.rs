//! The language matching data of CLDR as it is written in the supplemental
//! data file, and what a matcher is made of it.

use crate::langid::{parsed, LanguageIdView};
use crate::model::MatcherView;
use crate::rule::{rule_views, LanguageMatch, MatchRule};
use crate::text::split;
use crate::variables::{text_set, VariableMap};
use vstd::prelude::*;

verus! {

/// The list of the paradigm locales, separated by spaces.
#[derive(Debug, PartialEq)]
pub struct ParadigmLocales {
    pub locales: String,
}

/// The definition of a variable: its name behind a `$`, and its values
/// separated by `+`.
#[derive(Debug, PartialEq)]
pub struct MatchVariable {
    pub id: String,
    pub value: String,
}

/// The paradigm locales, the variables and the rules, in their order.
#[derive(Debug, PartialEq)]
pub struct LanguageMatches {
    pub paradigm_locales: ParadigmLocales,
    pub match_variable: Vec<MatchVariable>,
    pub language_match: Vec<LanguageMatch>,
}

#[derive(Debug, PartialEq)]
pub struct LanguageMatching {
    pub language_matches: LanguageMatches,
}

/// The root of the supplemental data file.
#[derive(Debug, PartialEq)]
pub struct SupplementalData {
    pub language_matching: LanguageMatching,
}

/// Why the data make no matcher.
#[derive(Clone, Copy, Debug, PartialEq, Eq)]
pub enum DataError {
    /// An entry of the list of paradigm locales is no language identifier.
    InvalidParadigmLocale,
    /// The id of a variable does not start with `$`.
    InvalidVariableId,
    /// The distance of a rule is not between 1 and 99.
    DistanceOutOfRange,
    /// A rule names a variable that is not defined.
    UndefinedVariable,
    /// No rule is the fallback `*_*_*` to `*_*_*`.
    MissingFallback,
}

/// The definition of a variable as a mathematical value.
pub struct VariableDef {
    pub id: Seq<char>,
    pub value: Seq<char>,
}

impl View for MatchVariable {
    type V = VariableDef;

    open spec fn view(&self) -> VariableDef {
        VariableDef { id: self.id@, value: self.value@ }
    }
}

/// The views of a sequence of definitions.
pub open spec fn def_views(defs: Seq<MatchVariable>) -> Seq<VariableDef> {
    defs.map_values(|d: MatchVariable| d@)
}

/// The name of the variable with the given id: the id without its `$`.
pub open spec fn variable_name(id: Seq<char>) -> Option<Seq<char>> {
    if id.len() >= 1 && id[0] == '$' {
        Some(id.skip(1))
    } else {
        None
    }
}

/// The table that a sequence of definitions makes. Of two definitions of
/// one name the later stands.
pub open spec fn variables_of(defs: Seq<VariableDef>) -> VariableMap
    decreases defs.len(),
{
    if defs.len() == 0 {
        VariableMap::empty()
    } else {
        variables_of(defs.drop_last()).insert(
            variable_name(defs.last().id)->0,
            text_set(split(defs.last().value, '+')),
        )
    }
}

/// The paradigm locale that an entry of the list denotes: the identifier
/// that the entry reads as, with its likely subtags added.
pub open spec fn paradigm_locale(entry: Seq<char>) -> Option<LanguageIdView> {
    match parsed(entry) {
        Some(id) => id.maximized(),
        None => None,
    }
}

/// The paradigm locales that the entries denote.
pub open spec fn paradigm_locales(entries: Seq<Seq<char>>) -> Seq<LanguageIdView> {
    Seq::new(entries.len(), |i: int| paradigm_locale(entries[i])->0)
}

/// The language matching data as a mathematical value.
pub struct DataView {
    pub locales: Seq<char>,
    pub variables: Seq<VariableDef>,
    pub rules: Seq<MatchRule>,
}

impl View for SupplementalData {
    type V = DataView;

    open spec fn view(&self) -> DataView {
        DataView {
            locales: self.language_matching.language_matches.paradigm_locales.locales@,
            variables: def_views(self.language_matching.language_matches.match_variable@),
            rules: rule_views(self.language_matching.language_matches.language_match@),
        }
    }
}

/// Every variable has an id that starts with `$`.
pub open spec fn variables_named(variables: Seq<VariableDef>) -> bool {
    forall|i: int|
        0 <= i < variables.len() ==> variable_name((#[trigger] variables[i]).id) is Some
}

/// What is wrong with the variables and the rules, if anything is. Of
/// several faults the first in this order is named.
pub open spec fn table_fault(
    variables: Seq<VariableDef>,
    rules: Seq<MatchRule>,
) -> Option<DataError> {
    if !variables_named(variables) {
        Some(DataError::InvalidVariableId)
    } else if exists|i: int| 0 <= i < rules.len() && !(#[trigger] rules[i]).in_range() {
        Some(DataError::DistanceOutOfRange)
    } else if exists|i: int|
        0 <= i < rules.len() && !(#[trigger] rules[i]).defined_in(variables_of(variables)) {
        Some(DataError::UndefinedVariable)
    } else if !(exists|i: int| 0 <= i < rules.len() && (#[trigger] rules[i]).is_fallback()) {
        Some(DataError::MissingFallback)
    } else {
        None
    }
}

impl DataView {
    /// The entries of the list of paradigm locales.
    pub open spec fn paradigm_entries(self) -> Seq<Seq<char>> {
        split(self.locales, ' ')
    }

    /// Every entry of the list of paradigm locales denotes one.
    pub open spec fn paradigm_readable(self) -> bool {
        forall|i: int|
            0 <= i < self.paradigm_entries().len() ==> paradigm_locale(
                #[trigger] self.paradigm_entries()[i],
            ) is Some
    }

    /// The matcher that the data describe.
    pub open spec fn matcher(self) -> MatcherView {
        MatcherView {
            rules: self.rules,
            variables: variables_of(self.variables),
            paradigm: crate::matcher::id_set(paradigm_locales(self.paradigm_entries())),
        }
    }

    /// What is wrong with the data, if anything is: an entry of the list
    /// of paradigm locales that denotes none, or else what is wrong with the
    /// variables and the rules.
    pub open spec fn fault(self) -> Option<DataError> {
        if !self.paradigm_readable() {
            Some(DataError::InvalidParadigmLocale)
        } else {
            table_fault(self.variables, self.rules)
        }
    }
}

/// Variables and rules have no fault exactly where the ids of the variables
/// can be read and the matcher that they describe, with whatever paradigm
/// locales, is valid.
pub proof fn lemma_fault_free_is_valid(
    variables: Seq<VariableDef>,
    rules: Seq<MatchRule>,
    paradigm: Set<LanguageIdView>,
)
    ensures
        table_fault(variables, rules) is None <==> variables_named(variables) && (MatcherView {
            rules,
            variables: variables_of(variables),
            paradigm,
        }).valid(),
{
}

} // verus!
