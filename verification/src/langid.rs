//! Language identifiers: a language subtag with an optional script and an
//! optional region, and the two services that the ICU4X locale crates
//! provide for them: reading one from text and adding its likely subtags.

use icu_locale::subtags::{Language, Region, Script};
use icu_locale::{LanguageIdentifier, LocaleExpander, ParseError};
use vstd::prelude::*;

verus! {

/// The text of an optional subtag.
pub open spec fn option_text(subtag: Option<String>) -> Option<Seq<char>> {
    match subtag {
        Some(t) => Some(t@),
        None => None,
    }
}

/// A language identifier as a mathematical value.
pub struct LanguageIdView {
    pub language: Seq<char>,
    pub script: Option<Seq<char>>,
    pub region: Option<Seq<char>>,
}

/// The three subtags of an identifier, as the outside services name them.
pub type Subtags = (Seq<char>, Option<Seq<char>>, Option<Seq<char>>);

impl LanguageIdView {
    /// Script and region are both present.
    pub open spec fn is_maximized(self) -> bool {
        self.script is Some && self.region is Some
    }

    /// The identifier with its region erased.
    pub open spec fn without_region(self) -> LanguageIdView {
        LanguageIdView { language: self.language, script: self.script, region: None }
    }

    /// The identifier with its script and its region erased.
    pub open spec fn language_only(self) -> LanguageIdView {
        LanguageIdView { language: self.language, script: None, region: None }
    }

    /// The three subtags of the identifier.
    pub open spec fn subtags(self) -> Subtags {
        (self.language, self.script, self.region)
    }

    /// The identifier of three subtags.
    pub open spec fn of(subtags: Subtags) -> LanguageIdView {
        LanguageIdView { language: subtags.0, script: subtags.1, region: subtags.2 }
    }

    /// The identifier with its likely subtags added, where the expander
    /// accepts the subtags at all.
    pub open spec fn maximized(self) -> Option<LanguageIdView> {
        match likely_subtags(self.language, self.script, self.region) {
            Some(subtags) => Some(LanguageIdView::of(subtags)),
            None => None,
        }
    }

    /// Adding the likely subtags gives an identifier with script and region.
    pub open spec fn resolvable(self) -> bool {
        self.maximized() matches Some(full) && full.is_maximized()
    }

    /// The maximized identifier of a resolvable one.
    pub open spec fn resolved(self) -> LanguageIdView
        recommends
            self.resolvable(),
    {
        self.maximized()->0
    }
}

/// The identifier that a text denotes, where it denotes one.
pub open spec fn parsed(text: Seq<char>) -> Option<LanguageIdView> {
    match parsed_subtags(text) {
        Some(subtags) => Some(LanguageIdView::of(subtags)),
        None => None,
    }
}

/// A language identifier. Its subtags are held as text in the casing that
/// Unicode gives them (`zh`, `Hant`, `HK`).
#[derive(Clone, Debug, PartialEq, Eq)]
pub struct LanguageId {
    pub language: String,
    pub script: Option<String>,
    pub region: Option<String>,
}

impl View for LanguageId {
    type V = LanguageIdView;

    open spec fn view(&self) -> LanguageIdView {
        LanguageIdView {
            language: self.language@,
            script: option_text(self.script),
            region: option_text(self.region),
        }
    }
}

/// Whether two optional subtags hold the same text.
pub fn same_subtag(a: &Option<String>, b: &Option<String>) -> (same: bool)
    ensures
        same == (option_text(*a) == option_text(*b)),
{
    match (a, b) {
        (None, None) => true,
        (Some(x), Some(y)) => *x == *y,
        _ => false,
    }
}

fn copy_subtag(subtag: &Option<String>) -> (copy: Option<String>)
    ensures
        option_text(copy) == option_text(*subtag),
{
    match subtag {
        Some(t) => Some(t.clone()),
        None => None,
    }
}

impl LanguageId {
    /// An identifier of the given subtags.
    pub fn new(language: &str, script: Option<&str>, region: Option<&str>) -> (id: LanguageId)
        ensures
            id@.language == language@,
            id@.script == match script {
                Some(t) => Some(t@),
                None => None,
            },
            id@.region == match region {
                Some(t) => Some(t@),
                None => None,
            },
    {
        LanguageId {
            language: language.to_owned(),
            script: match script {
                Some(t) => Some(t.to_owned()),
                None => None,
            },
            region: match region {
                Some(t) => Some(t.to_owned()),
                None => None,
            },
        }
    }

    /// Script and region are both present.
    pub fn is_maximized(&self) -> (full: bool)
        ensures
            full == self@.is_maximized(),
    {
        self.script.is_some() && self.region.is_some()
    }

    /// Whether two identifiers have the same subtags.
    pub fn same_as(&self, other: &LanguageId) -> (same: bool)
        ensures
            same == (self@ == other@),
    {
        self.language == other.language && same_subtag(&self.script, &other.script) && same_subtag(
            &self.region,
            &other.region,
        )
    }

    /// A copy of the identifier.
    pub fn clone_id(&self) -> (id: LanguageId)
        ensures
            id@ == self@,
    {
        LanguageId {
            language: self.language.clone(),
            script: copy_subtag(&self.script),
            region: copy_subtag(&self.region),
        }
    }

    /// Reads an identifier from text such as `zh-Hant-HK`. Subtags after
    /// the region are read and dropped.
    pub fn parse(text: &str) -> (id: Option<LanguageId>)
        ensures
            match id {
                Some(id) => parsed(text@) == Some(id@),
                None => parsed(text@) is None,
            },
    {
        match parse_identifier(text) {
            Ok(id) => Some(id),
            Err(_) => None,
        }
    }

    /// Adds the likely subtags. `None` where a subtag is not one that the
    /// expander accepts.
    pub fn maximize(&self) -> (full: Option<LanguageId>)
        ensures
            match full {
                Some(full) => self@.maximized() == Some(full@),
                None => self@.maximized() is None,
            },
    {
        match add_likely_subtags(self) {
            Ok(full) => Some(full),
            Err(_) => None,
        }
    }

    /// Adds the likely subtags and keeps the result where it has a script
    /// and a region.
    pub fn resolve(&self) -> (full: Option<LanguageId>)
        ensures
            match full {
                Some(full) => self@.resolvable() && full@ == self@.resolved(),
                None => !self@.resolvable(),
            },
    {
        match self.maximize() {
            Some(full) => if full.is_maximized() {
                Some(full)
            } else {
                None
            },
            None => None,
        }
    }
}

/// `ParseError` of icu_locale, the error of its `try_from_str` functions.
/// Nothing is claimed of its values.
#[verifier::external_type_specification]
#[verifier::external_body]
pub struct ExParseError(ParseError);

/// The subtags that `LanguageIdentifier::try_from_str` of icu_locale reads
/// from a text, each as `as_str` gives it; `None` where it returns an error.
pub uninterp spec fn parsed_subtags(text: Seq<char>) -> Option<Subtags>;

/// The subtags that `LocaleExpander::maximize` of icu_locale, over the data
/// of `LocaleExpander::new_extended`, leaves in an identifier of the given
/// subtags, each as `as_str` gives it; `None` where `try_from_str` of
/// `Language`, `Script` or `Region` refuses the subtag handed to it.
pub uninterp spec fn likely_subtags(
    language: Seq<char>,
    script: Option<Seq<char>>,
    region: Option<Seq<char>>,
) -> Option<Subtags>;

/// Calls `LanguageIdentifier::try_from_str` of icu_locale and hands back the
/// language, the script and the region of what it read, without the
/// variants. The contract claims only that what comes back depends on the
/// text alone.
#[verifier::external_body]
fn parse_identifier(text: &str) -> (out: Result<LanguageId, ParseError>)
    ensures
        parsed_subtags(text@) == match out {
            Ok(id) => Some(id@.subtags()),
            Err(_) => None,
        },
{
    let langid = LanguageIdentifier::try_from_str(text)?;
    Ok(
        LanguageId {
            language: langid.language.as_str().to_owned(),
            script: langid.script.map(|s| s.as_str().to_owned()),
            region: langid.region.map(|r| r.as_str().to_owned()),
        },
    )
}

/// Calls `LocaleExpander::maximize` of icu_locale on the identifier of the
/// given subtags, with the expander of `LocaleExpander::new_extended`, whose
/// data are compiled in. The contract claims only that what comes back
/// depends on the three subtags alone; whether a script and a region are
/// there afterwards is for the caller to test.
#[verifier::external_body]
fn add_likely_subtags(id: &LanguageId) -> (out: Result<LanguageId, ParseError>)
    ensures
        likely_subtags(id.language@, option_text(id.script), option_text(id.region)) == match out {
            Ok(full) => Some(full@.subtags()),
            Err(_) => None,
        },
{
    let language = Language::try_from_str(&id.language)?;
    let script = id.script.as_deref().map(Script::try_from_str).transpose()?;
    let region = id.region.as_deref().map(Region::try_from_str).transpose()?;
    let mut langid = LanguageIdentifier::from((language, script, region));
    LocaleExpander::new_extended().maximize(&mut langid);
    Ok(
        LanguageId {
            language: langid.language.as_str().to_owned(),
            script: langid.script.map(|s| s.as_str().to_owned()),
            region: langid.region.map(|r| r.as_str().to_owned()),
        },
    )
}

} // verus!
