//! Distances between language identifiers, and the choice of the nearest
//! supported language, after the enhanced language matching of CLDR.
//!
//! A [`LanguageMatcher`] is made of the language matching data of CLDR: an
//! ordered table of rules, the variables that the rules name, and the
//! paradigm locales. The distance of two identifiers is the sum of what the
//! first rule that applies gives to their regions, to their scripts and to
//! their languages.

pub mod data;
pub mod langid;
pub mod laws;
pub mod matcher;
pub mod model;
pub mod pattern;
pub mod rule;
pub mod text;
pub mod variables;

pub use data::{
    DataError, LanguageMatches, LanguageMatching, MatchVariable, ParadigmLocales, SupplementalData,
};
pub use langid::LanguageId;
pub use matcher::{LanguageMatcher, QueryError};
pub use pattern::{LanguageIdentifierRule, SubTagRule};
pub use rule::LanguageMatch;
pub use variables::Variables;
