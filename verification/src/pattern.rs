//! Patterns over the subtags of a language identifier, in the notation of
//! CLDR: `zh_Hant_$cnsar`, `en_*_$!enUS`, `*`.

use crate::langid::{LanguageId, LanguageIdView};
use crate::text::{split, split_str, texts};
use crate::variables::{VariableMap, Variables};
use vstd::prelude::*;

verus! {

/// A pattern for one subtag, as a mathematical value.
pub enum SubtagPattern {
    /// The subtag is this text.
    Literal(Seq<char>),
    /// The subtag is a value of this variable.
    VariableRef(Seq<char>),
    /// The subtag is no value of this variable.
    VariableExcludedRef(Seq<char>),
    /// Any subtag, or none.
    Any,
}

impl SubtagPattern {
    /// The pattern that a slot of a pattern text denotes: `*` is any
    /// subtag, `$!name` all but the values of a variable, `$name` the values
    /// of a variable, and any other text is the subtag itself.
    pub open spec fn parse(slot: Seq<char>) -> SubtagPattern {
        if slot == seq!['*'] {
            SubtagPattern::Any
        } else if slot.len() >= 2 && slot[0] == '$' && slot[1] == '!' {
            SubtagPattern::VariableExcludedRef(slot.skip(2))
        } else if slot.len() >= 1 && slot[0] == '$' {
            SubtagPattern::VariableRef(slot.skip(1))
        } else {
            SubtagPattern::Literal(slot)
        }
    }

    /// Every variable that the pattern names is in the table.
    pub open spec fn defined_in(self, vars: VariableMap) -> bool {
        match self {
            SubtagPattern::VariableRef(name) => vars.contains_key(name),
            SubtagPattern::VariableExcludedRef(name) => vars.contains_key(name),
            _ => true,
        }
    }

    /// Whether the pattern matches a subtag that is present.
    pub open spec fn matches(self, subtag: Seq<char>, vars: VariableMap) -> bool
        recommends
            self.defined_in(vars),
    {
        match self {
            SubtagPattern::Literal(text) => subtag == text,
            SubtagPattern::VariableRef(name) => vars[name].contains(subtag),
            SubtagPattern::VariableExcludedRef(name) => !vars[name].contains(subtag),
            SubtagPattern::Any => true,
        }
    }
}

/// Whether an optional pattern matches an optional subtag: no pattern
/// matches no subtag, `Any` matches with and without a subtag, and any other
/// pattern needs a subtag to match.
pub open spec fn slot_matches(
    pattern: Option<SubtagPattern>,
    subtag: Option<Seq<char>>,
    vars: VariableMap,
) -> bool {
    match (pattern, subtag) {
        (None, None) => true,
        (Some(SubtagPattern::Any), _) => true,
        (Some(p), Some(t)) => p.matches(t, vars),
        _ => false,
    }
}

/// Every variable that an optional pattern names is in the table.
pub open spec fn slot_defined_in(pattern: Option<SubtagPattern>, vars: VariableMap) -> bool {
    match pattern {
        Some(p) => p.defined_in(vars),
        None => true,
    }
}

/// A pattern for a language identifier, as a mathematical value.
pub struct TagPattern {
    pub language: SubtagPattern,
    pub script: Option<SubtagPattern>,
    pub region: Option<SubtagPattern>,
}

impl TagPattern {
    /// The pattern that a text denotes: its slots are the pieces between
    /// the `_`, the first for the language, the second, if there is one, for
    /// the script, the third for the region. Further pieces are not read.
    pub open spec fn parse(text: Seq<char>) -> TagPattern {
        let slots = split(text, '_');
        TagPattern {
            language: SubtagPattern::parse(slots[0]),
            script: if slots.len() > 1 {
                Some(SubtagPattern::parse(slots[1]))
            } else {
                None
            },
            region: if slots.len() > 2 {
                Some(SubtagPattern::parse(slots[2]))
            } else {
                None
            },
        }
    }

    /// Every variable that the pattern names is in the table.
    pub open spec fn defined_in(self, vars: VariableMap) -> bool {
        &&& self.language.defined_in(vars)
        &&& slot_defined_in(self.script, vars)
        &&& slot_defined_in(self.region, vars)
    }

    /// Whether the pattern matches an identifier: each of its three slots
    /// matches the subtag in its place.
    pub open spec fn matches(self, id: LanguageIdView, vars: VariableMap) -> bool
        recommends
            self.defined_in(vars),
    {
        &&& self.language.matches(id.language, vars)
        &&& slot_matches(self.script, id.script, vars)
        &&& slot_matches(self.region, id.region, vars)
    }

    /// The pattern `*_*_*`, which matches every identifier.
    pub open spec fn is_wildcard(self) -> bool {
        &&& self.language == SubtagPattern::Any
        &&& self.script == Some(SubtagPattern::Any)
        &&& self.region == Some(SubtagPattern::Any)
    }
}

/// A pattern for one subtag.
#[derive(Debug, PartialEq)]
pub enum SubTagRule {
    Str(String),
    Var(String),
    VarExclude(String),
    All,
}

impl View for SubTagRule {
    type V = SubtagPattern;

    open spec fn view(&self) -> SubtagPattern {
        match self {
            SubTagRule::Str(text) => SubtagPattern::Literal(text@),
            SubTagRule::Var(name) => SubtagPattern::VariableRef(name@),
            SubTagRule::VarExclude(name) => SubtagPattern::VariableExcludedRef(name@),
            SubTagRule::All => SubtagPattern::Any,
        }
    }
}

/// The view of an optional subtag pattern.
pub open spec fn option_pattern(rule: Option<SubTagRule>) -> Option<SubtagPattern> {
    match rule {
        Some(r) => Some(r@),
        None => None,
    }
}

impl SubTagRule {
    /// Reads the pattern of one slot.
    pub fn parse(slot: &str) -> (rule: SubTagRule)
        ensures
            rule@ == SubtagPattern::parse(slot@),
    {
        let n = slot.unicode_len();
        if n == 1 && slot.get_char(0) == '*' {
            assert(slot@ =~= seq!['*']);
            SubTagRule::All
        } else if n >= 2 && slot.get_char(0) == '$' && slot.get_char(1) == '!' {
            assert(slot@.subrange(2, n as int) == slot@.skip(2));
            SubTagRule::VarExclude(slot.substring_char(2, n).to_owned())
        } else if n >= 1 && slot.get_char(0) == '$' {
            assert(slot@.subrange(1, n as int) == slot@.skip(1));
            SubTagRule::Var(slot.substring_char(1, n).to_owned())
        } else {
            SubTagRule::Str(slot.to_owned())
        }
    }

    /// Whether every variable that the pattern names is in the table.
    pub fn is_defined_in(&self, vars: &Variables) -> (defined: bool)
        ensures
            defined == self@.defined_in(vars@),
    {
        match self {
            SubTagRule::Var(name) => vars.defines(name.as_str()),
            SubTagRule::VarExclude(name) => vars.defines(name.as_str()),
            _ => true,
        }
    }

    /// Whether the pattern matches the subtag.
    pub fn matches(&self, subtag: &String, vars: &Variables) -> (hit: bool)
        requires
            self@.defined_in(vars@),
        ensures
            hit == self@.matches(subtag@, vars@),
    {
        match self {
            SubTagRule::Str(text) => *text == *subtag,
            SubTagRule::Var(name) => vars.holds(name.as_str(), subtag.as_str()),
            SubTagRule::VarExclude(name) => !vars.holds(name.as_str(), subtag.as_str()),
            SubTagRule::All => true,
        }
    }
}

/// Whether an optional pattern matches an optional subtag.
pub fn matches_slot(
    pattern: &Option<SubTagRule>,
    subtag: &Option<String>,
    vars: &Variables,
) -> (hit: bool)
    requires
        slot_defined_in(option_pattern(*pattern), vars@),
    ensures
        hit == slot_matches(option_pattern(*pattern), crate::langid::option_text(*subtag), vars@),
{
    match (pattern, subtag) {
        (None, None) => true,
        (Some(SubTagRule::All), _) => true,
        (Some(p), Some(t)) => p.matches(t, vars),
        _ => false,
    }
}

/// A pattern for a language identifier.
#[derive(Debug, PartialEq)]
pub struct LanguageIdentifierRule {
    pub language: SubTagRule,
    pub script: Option<SubTagRule>,
    pub region: Option<SubTagRule>,
}

impl View for LanguageIdentifierRule {
    type V = TagPattern;

    open spec fn view(&self) -> TagPattern {
        TagPattern {
            language: self.language@,
            script: option_pattern(self.script),
            region: option_pattern(self.region),
        }
    }
}

impl LanguageIdentifierRule {
    /// Reads a pattern such as `zh_Hant_$cnsar`.
    pub fn parse(text: &str) -> (rule: LanguageIdentifierRule)
        ensures
            rule@ == TagPattern::parse(text@),
    {
        let slots = split_str(text, '_');
        proof {
            crate::text::lemma_split_len(text@, '_');
            assert(texts(slots@).len() == slots@.len());
        }
        let language = SubTagRule::parse(slots[0].as_str());
        let script = if slots.len() > 1 {
            Some(SubTagRule::parse(slots[1].as_str()))
        } else {
            None
        };
        let region = if slots.len() > 2 {
            Some(SubTagRule::parse(slots[2].as_str()))
        } else {
            None
        };
        LanguageIdentifierRule { language, script, region }
    }

    /// Whether every variable that the pattern names is in the table.
    pub fn is_defined_in(&self, vars: &Variables) -> (defined: bool)
        ensures
            defined == self@.defined_in(vars@),
    {
        self.language.is_defined_in(vars) && (match &self.script {
            Some(p) => p.is_defined_in(vars),
            None => true,
        }) && (match &self.region {
            Some(p) => p.is_defined_in(vars),
            None => true,
        })
    }

    /// Whether the pattern is `*_*_*`.
    pub fn is_wildcard(&self) -> (wild: bool)
        ensures
            wild == self@.is_wildcard(),
    {
        (match &self.language {
            SubTagRule::All => true,
            _ => false,
        }) && (match &self.script {
            Some(SubTagRule::All) => true,
            _ => false,
        }) && (match &self.region {
            Some(SubTagRule::All) => true,
            _ => false,
        })
    }

    /// Whether the pattern matches the identifier.
    pub fn matches(&self, id: &LanguageId, vars: &Variables) -> (hit: bool)
        requires
            self@.defined_in(vars@),
        ensures
            hit == self@.matches(id@, vars@),
    {
        self.language.matches(&id.language, vars) && matches_slot(&self.script, &id.script, vars)
            && matches_slot(&self.region, &id.region, vars)
    }
}

} // verus!
