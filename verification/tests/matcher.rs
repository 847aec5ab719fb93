use language_matcher::data::{
    DataError, LanguageMatches, LanguageMatching, MatchVariable, ParadigmLocales, SupplementalData,
};
use language_matcher::langid::LanguageId;
use language_matcher::matcher::{LanguageMatcher, QueryError};
use language_matcher::rule::LanguageMatch;

fn rule(desired: &str, supported: &str, distance: u16) -> LanguageMatch {
    LanguageMatch::new(desired, supported, distance, false)
}

fn oneway(desired: &str, supported: &str, distance: u16) -> LanguageMatch {
    LanguageMatch::new(desired, supported, distance, true)
}

fn variable(id: &str, value: &str) -> MatchVariable {
    MatchVariable { id: id.to_string(), value: value.to_string() }
}

fn data(locales: &str, variables: Vec<MatchVariable>, rules: Vec<LanguageMatch>) -> SupplementalData {
    SupplementalData {
        language_matching: LanguageMatching {
            language_matches: LanguageMatches {
                paradigm_locales: ParadigmLocales { locales: locales.to_string() },
                match_variable: variables,
                language_match: rules,
            },
        },
    }
}

/// Language matching data after those of CLDR, abridged.
fn language_info() -> SupplementalData {
    data(
        "en en-GB es es-419 pt-BR pt-PT",
        vec![
            variable("$enUS", "AS+CA+GU+MH+MP+PH+PR+UM+US+VI"),
            variable("$cnsar", "HK+MO"),
            variable("$americas", "019"),
            variable("$maghreb", "MA+DZ+TN+LY+MR+EH"),
        ],
        vec![
            rule("no", "nb", 1),
            rule("hr", "bs", 4),
            rule("sh", "bs", 4),
            rule("sh", "hr", 4),
            rule("sh", "sr", 4),
            rule("ssy", "aa", 4),
            oneway("gsw", "de", 4),
            oneway("lb", "de", 4),
            rule("da", "no", 8),
            rule("da", "nb", 8),
            oneway("af", "nl", 20),
            oneway("be", "ru", 20),
            oneway("br", "fr", 20),
            oneway("cy", "en", 20),
            oneway("eu", "es", 20),
            oneway("gl", "es", 20),
            oneway("hy", "ru", 30),
            oneway("kk", "ru", 30),
            oneway("mr", "hi", 30),
            oneway("ms", "id", 30),
            rule("nn", "nb", 20),
            rule("nn", "no", 20),
            oneway("ug", "zh", 20),
            oneway("yue", "zh", 10),
            rule("*", "*", 80),
            oneway("az_Latn", "ru_Cyrl", 10),
            oneway("bn_Beng", "en_Latn", 10),
            oneway("hy_Armn", "ru_Cyrl", 10),
            oneway("ta_Taml", "en_Latn", 10),
            oneway("ja_Latn", "ja_Jpan", 5),
            oneway("ja_Hira", "ja_Jpan", 5),
            oneway("ja_Kana", "ja_Jpan", 5),
            oneway("ko_Hang", "ko_Kore", 5),
            rule("sr_Latn", "sr_Cyrl", 5),
            oneway("zh_Hans", "zh_Hant", 15),
            oneway("zh_Hant", "zh_Hans", 19),
            oneway("zh_Latn", "zh_Hans", 20),
            rule("*_*", "*_*", 50),
            rule("ar_*_$maghreb", "ar_*_$maghreb", 4),
            rule("ar_*_$!maghreb", "ar_*_$!maghreb", 4),
            rule("ar_*_*", "ar_*_*", 5),
            rule("en_*_$enUS", "en_*_$enUS", 4),
            rule("en_*_$!enUS", "en_*_GB", 3),
            rule("en_*_$!enUS", "en_*_$!enUS", 4),
            rule("en_*_*", "en_*_*", 5),
            rule("es_*_$americas", "es_*_$americas", 4),
            rule("es_*_$!americas", "es_*_$!americas", 4),
            rule("es_*_*", "es_*_*", 5),
            rule("pt_*_$americas", "pt_*_$americas", 4),
            rule("pt_*_$!americas", "pt_*_$!americas", 4),
            rule("pt_*_*", "pt_*_*", 5),
            rule("zh_Hant_$cnsar", "zh_Hant_$cnsar", 4),
            rule("zh_Hant_$!cnsar", "zh_Hant_$!cnsar", 4),
            rule("zh_Hant_*", "zh_Hant_*", 5),
            rule("*_*_*", "*_*_*", 4),
        ],
    )
}

fn matcher_of_language_info() -> LanguageMatcher {
    LanguageMatcher::new(language_info()).unwrap()
}

fn langid(tag: &str) -> LanguageId {
    LanguageId::parse(tag).unwrap()
}

fn full(language: &str, script: &str, region: &str) -> LanguageId {
    LanguageId::new(language, Some(script), Some(region))
}

#[test]
fn distance() {
    let matcher = matcher_of_language_info();

    assert_eq!(matcher.distance(langid("zh-CN"), langid("zh-Hans")), 0);
    assert_eq!(matcher.distance(langid("zh-TW"), langid("zh-Hant")), 0);
    assert_eq!(matcher.distance(langid("zh-HK"), langid("zh-MO")), 40);
    assert_eq!(matcher.distance(langid("zh-HK"), langid("zh-Hant")), 50);
}

#[test]
fn matcher() {
    let matcher = matcher_of_language_info();

    let accepts = [langid("en"), langid("ja"), langid("zh-Hans"), langid("zh-Hant")];
    assert_eq!(matcher.matches(langid("zh-CN"), &accepts), Some((&langid("zh-Hans"), 0)));
    assert_eq!(matcher.matches(langid("zh-TW"), &accepts), Some((&langid("zh-Hant"), 0)));
}

#[test]
fn distance_of_english_regions() {
    let matcher = matcher_of_language_info();

    assert_eq!(matcher.distance(langid("en-US"), langid("en-GB")), 50);
    assert_eq!(matcher.distance(langid("en-US"), langid("en-CA")), 39);
    assert_eq!(matcher.distance(langid("en-GB"), langid("en-AU")), 29);
    assert_eq!(matcher.distance(langid("en-AU"), langid("en-GB")), 29);
    assert_eq!(matcher.distance(langid("en-AU"), langid("en-NZ")), 40);
}

#[test]
fn distance_to_itself_is_zero() {
    let matcher = matcher_of_language_info();

    for tag in ["en", "en-GB", "zh-Hant-HK", "ja", "pt-BR", "sr-Latn"] {
        assert_eq!(matcher.distance(langid(tag), langid(tag)), 0);
        assert_eq!(matcher.try_distance(langid(tag), langid(tag)), Ok(0));
    }
    assert_eq!(matcher.distance_impl(full("xx", "Latn", "YY"), full("xx", "Latn", "YY")), 0);
}

#[test]
fn distance_adds_region_script_and_language() {
    let matcher = matcher_of_language_info();

    // region 40, script 150 or 190; the rules of the scripts are one-way
    assert_eq!(matcher.distance(langid("zh-Hans-CN"), langid("zh-Hant-TW")), 190);
    assert_eq!(matcher.distance(langid("zh-Hant-TW"), langid("zh-Hans-CN")), 230);
    // region 40 less 1 for the paradigm locale en-Latn-US, script 500, language 800
    assert_eq!(matcher.distance(langid("en"), langid("ja")), 1339);
    assert_eq!(matcher.distance(langid("ja"), langid("en")), 1339);
    // region 40, language 10 one way and 800 the other
    assert_eq!(matcher.distance(langid("yue-Hant-HK"), langid("zh-Hant-TW")), 140);
    assert_eq!(matcher.distance(langid("zh-Hant-TW"), langid("yue-Hant-HK")), 840);
}

#[test]
fn region_of_supported_changes_region_part_only() {
    let matcher = matcher_of_language_info();

    let desired = full("zh", "Hant", "HK");
    let near = matcher.distance_impl(desired.clone(), full("zh", "Hans", "MO"));
    let far = matcher.distance_impl(desired.clone(), full("zh", "Hans", "CN"));
    let script = matcher.distance_match(
        &LanguageId::new("zh", Some("Hant"), None),
        &LanguageId::new("zh", Some("Hans"), None),
    );
    assert_eq!(script, 190);
    assert_eq!(near - script, matcher.distance_match(&desired, &full("zh", "Hans", "MO")));
    assert_eq!(far - script, matcher.distance_match(&desired, &full("zh", "Hans", "CN")));
    assert_eq!(near, 230);
    assert_eq!(far, 230);
}

#[test]
fn distance_match_takes_first_rule() {
    let matcher = matcher_of_language_info();

    assert_eq!(matcher.distance_match(&full("zh", "Hant", "HK"), &full("zh", "Hant", "MO")), 40);
    assert_eq!(matcher.distance_match(&full("zh", "Hant", "TW"), &full("zh", "Hant", "MY")), 40);
    assert_eq!(matcher.distance_match(&full("zh", "Hant", "HK"), &full("zh", "Hant", "TW")), 50);
    assert_eq!(matcher.distance_match(&full("zh", "Hans", "CN"), &full("zh", "Hans", "SG")), 40);
    let no = LanguageId::new("no", None, None);
    let nb = LanguageId::new("nb", None, None);
    let da = LanguageId::new("da", None, None);
    let sv = LanguageId::new("sv", None, None);
    assert_eq!(matcher.distance_match(&no, &nb), 10);
    assert_eq!(matcher.distance_match(&nb, &no), 10);
    assert_eq!(matcher.distance_match(&nb, &da), 80);
    assert_eq!(matcher.distance_match(&sv, &da), 800);
}

#[test]
fn one_way_rule_is_not_turned_round() {
    let matcher = matcher_of_language_info();

    let gsw = LanguageId::new("gsw", None, None);
    let de = LanguageId::new("de", None, None);
    assert_eq!(matcher.distance_match(&gsw, &de), 40);
    assert_eq!(matcher.distance_match(&de, &gsw), 800);
}

#[test]
fn paradigm_locale_gets_discount() {
    let matcher = matcher_of_language_info();

    let us = full("en", "Latn", "US");
    let gb = full("en", "Latn", "GB");
    let ca = full("en", "Latn", "CA");
    let ph = full("en", "Latn", "PH");
    assert!(matcher.is_paradigm(&us));
    assert!(matcher.is_paradigm(&gb));
    assert!(!matcher.is_paradigm(&ca));
    assert!(!matcher.is_paradigm(&LanguageId::new("en", None, None)));
    // exactly one is a paradigm locale
    assert_eq!(matcher.distance_match(&us, &ca), 39);
    assert_eq!(matcher.distance_match(&ca, &us), 39);
    // neither
    assert_eq!(matcher.distance_match(&ca, &ph), 40);
    // both
    assert_eq!(matcher.distance_match(&us, &gb), 50);
}

#[test]
fn discount_is_one_against_same_rules_without_paradigm_locales() {
    let mut plain = language_info();
    plain.language_matching.language_matches.paradigm_locales.locales = "tlh".to_string();
    let plain = LanguageMatcher::new(plain).unwrap();
    let matcher = matcher_of_language_info();

    let pairs = [
        (full("en", "Latn", "US"), full("en", "Latn", "CA")),
        (full("es", "Latn", "ES"), full("es", "Latn", "MX")),
        (full("pt", "Latn", "BR"), full("pt", "Latn", "AO")),
    ];
    for (desired, supported) in pairs.iter() {
        assert_eq!(
            matcher.distance_match(desired, supported) + 1,
            plain.distance_match(desired, supported)
        );
    }
    let both = (full("en", "Latn", "US"), full("en", "Latn", "GB"));
    assert_eq!(matcher.distance_match(&both.0, &both.1), plain.distance_match(&both.0, &both.1));
}

#[test]
fn matches_nothing_among_no_candidates() {
    let matcher = matcher_of_language_info();

    let none: [LanguageId; 0] = [];
    assert_eq!(matcher.matches(langid("en"), &none), None);
    assert_eq!(matcher.try_matches(langid("en"), &none), Ok(None));
}

#[test]
fn matches_first_of_equally_near() {
    let matcher = matcher_of_language_info();

    let accepts = [langid("ja"), langid("zh-Hans"), langid("zh-CN"), langid("zh-Hans-CN")];
    let best = matcher.matches(langid("zh-CN"), &accepts);
    assert_eq!(best, Some((&langid("zh-Hans"), 0)));
    assert!(std::ptr::eq(best.unwrap().0, &accepts[1]));

    let accepts = [langid("en-AU"), langid("en-NZ"), langid("en-CA")];
    let best = matcher.matches(langid("en-IE"), &accepts);
    assert_eq!(best, Some((&langid("en-AU"), 40)));
    assert!(std::ptr::eq(best.unwrap().0, &accepts[0]));
}

#[test]
fn matches_none_from_distance_1000() {
    let matcher = matcher_of_language_info();

    let accepts = [langid("ja"), langid("ko")];
    assert_eq!(matcher.distance(langid("en"), langid("ja")), 1339);
    assert_eq!(matcher.distance(langid("en"), langid("ko")), 1339);
    assert_eq!(matcher.matches(langid("en"), &accepts), None);
    assert_eq!(matcher.try_matches(langid("en"), &accepts), Ok(None));

    let accepts = [langid("ja"), langid("ko"), langid("en-IN")];
    assert_eq!(matcher.matches(langid("en"), &accepts), Some((&langid("en-IN"), 49)));
}

#[test]
fn matches_returns_the_candidate_as_given() {
    let matcher = matcher_of_language_info();

    let accepts = [langid("de"), langid("pt")];
    let best = matcher.try_matches(langid("pt-PT"), &accepts).unwrap();
    // pt is pt-Latn-BR with its likely subtags: neither region is a value
    // of $americas, and both are paradigm locales
    assert_eq!(best, Some((&LanguageId::new("pt", None, None), 40)));
}

#[test]
fn query_without_script_or_region_is_refused() {
    let matcher = matcher_of_language_info();

    // no likely subtags are known for `mul`
    assert_eq!(
        matcher.try_distance(langid("mul"), langid("en")),
        Err(QueryError::UnresolvedDesired)
    );
    assert_eq!(
        matcher.try_distance(langid("en"), langid("mul")),
        Err(QueryError::UnresolvedSupported)
    );
    // `e` is no language subtag
    assert_eq!(
        matcher.try_distance(LanguageId::new("e", None, None), langid("mul")),
        Err(QueryError::UnresolvedDesired)
    );
    assert_eq!(matcher.try_distance(langid("en"), langid("fr")), Ok(839));

    let accepts = [langid("en"), langid("mul")];
    assert_eq!(matcher.try_matches(langid("en"), &accepts), Err(QueryError::UnresolvedSupported));
    assert_eq!(matcher.try_matches(langid("mul"), &accepts), Err(QueryError::UnresolvedDesired));
    assert_eq!(
        matcher.try_matches(langid("en-GB"), &accepts[..1]),
        Ok(Some((&langid("en"), 50)))
    );
}

#[test]
fn new_refuses_entry_that_is_no_identifier() {
    let rules = || vec![rule("*_*_*", "*_*_*", 4)];
    assert_eq!(
        LanguageMatcher::new(data("en en_GB", vec![], rules())).err(),
        Some(DataError::InvalidParadigmLocale)
    );
    assert_eq!(
        LanguageMatcher::new(data("", vec![], rules())).err(),
        Some(DataError::InvalidParadigmLocale)
    );
    assert_eq!(
        LanguageMatcher::new(data("en  fr", vec![], rules())).err(),
        Some(DataError::InvalidParadigmLocale)
    );
    assert!(LanguageMatcher::new(data("en fr", vec![], rules())).is_ok());
}

#[test]
fn new_refuses_variable_without_sigil() {
    let rules = || vec![rule("*_*_*", "*_*_*", 4)];
    assert_eq!(
        LanguageMatcher::new(data("en", vec![variable("cnsar", "HK+MO")], rules())).err(),
        Some(DataError::InvalidVariableId)
    );
    assert_eq!(
        LanguageMatcher::new(data("en", vec![variable("", "HK+MO")], rules())).err(),
        Some(DataError::InvalidVariableId)
    );
    assert!(LanguageMatcher::new(data("en", vec![variable("$cnsar", "HK+MO")], rules())).is_ok());
}

#[test]
fn new_refuses_distance_out_of_range() {
    let with = |distance: u16| {
        LanguageMatcher::new(data(
            "en",
            vec![],
            vec![rule("en", "fr", distance), rule("*_*_*", "*_*_*", 4)],
        ))
    };
    assert_eq!(with(0).err(), Some(DataError::DistanceOutOfRange));
    assert_eq!(with(100).err(), Some(DataError::DistanceOutOfRange));
    assert_eq!(with(u16::MAX).err(), Some(DataError::DistanceOutOfRange));
    assert!(with(1).is_ok());
    assert!(with(99).is_ok());
}

#[test]
fn new_refuses_undefined_variable() {
    let with = |pattern: &str| {
        LanguageMatcher::new(data(
            "en",
            vec![variable("$cnsar", "HK+MO")],
            vec![rule(pattern, "zh_Hant_*", 4), rule("*_*_*", "*_*_*", 4)],
        ))
    };
    assert_eq!(with("zh_Hant_$sar").err(), Some(DataError::UndefinedVariable));
    assert_eq!(with("zh_Hant_$!sar").err(), Some(DataError::UndefinedVariable));
    assert_eq!(with("zh_$cnsar!_*").err(), Some(DataError::UndefinedVariable));
    assert!(with("zh_Hant_$cnsar").is_ok());
    assert!(with("zh_Hant_$!cnsar").is_ok());
}

#[test]
fn new_refuses_table_without_fallback() {
    let with = |rules: Vec<LanguageMatch>| LanguageMatcher::new(data("en", vec![], rules));
    assert_eq!(with(vec![]).err(), Some(DataError::MissingFallback));
    assert_eq!(
        with(vec![rule("*", "*", 80), rule("*_*", "*_*", 50)]).err(),
        Some(DataError::MissingFallback)
    );
    assert_eq!(with(vec![rule("*_*_*", "*_*", 50)]).err(), Some(DataError::MissingFallback));
    assert!(with(vec![oneway("*_*_*", "*_*_*", 4)]).is_ok());
}

#[test]
fn new_names_first_fault() {
    let faulty = data("en_GB", vec![variable("x", "y")], vec![rule("$x", "*", 0)]);
    assert_eq!(LanguageMatcher::new(faulty).err(), Some(DataError::InvalidParadigmLocale));
    let faulty = data("en-GB", vec![variable("x", "y")], vec![rule("$x", "*", 0)]);
    assert_eq!(LanguageMatcher::new(faulty).err(), Some(DataError::InvalidVariableId));
    let faulty = data("en-GB", vec![variable("$y", "y")], vec![rule("$x", "*", 0)]);
    assert_eq!(LanguageMatcher::new(faulty).err(), Some(DataError::DistanceOutOfRange));
    let faulty = data("en-GB", vec![variable("$y", "y")], vec![rule("$x", "*", 1)]);
    assert_eq!(LanguageMatcher::new(faulty).err(), Some(DataError::UndefinedVariable));
    let faulty = data("en-GB", vec![variable("$x", "y")], vec![rule("$x", "*", 1)]);
    assert_eq!(LanguageMatcher::new(faulty).err(), Some(DataError::MissingFallback));
}

#[test]
fn later_definition_of_variable_stands() {
    let matcher = LanguageMatcher::new(data(
        "en",
        vec![variable("$sar", "HK"), variable("$sar", "MO+SG")],
        vec![rule("zh_*_$sar", "zh_*_$sar", 2), rule("*_*_*", "*_*_*", 7)],
    ))
    .unwrap();
    assert_eq!(matcher.distance_match(&full("zh", "Hans", "MO"), &full("zh", "Hans", "SG")), 20);
    assert_eq!(matcher.distance_match(&full("zh", "Hant", "HK"), &full("zh", "Hant", "MO")), 70);
}

#[test]
fn fallback_decides_every_shape_of_pair() {
    let matcher =
        LanguageMatcher::new(data("en", vec![], vec![rule("*_*_*", "*_*_*", 4)])).unwrap();
    let en = LanguageId::new("en", None, None);
    assert!(!matcher.is_paradigm(&en));
    assert!(matcher.is_paradigm(&full("en", "Latn", "US")));
    assert_eq!(matcher.distance_match(&en, &LanguageId::new("fr", None, None)), 40);
    assert_eq!(matcher.distance_match(&en, &full("fr", "Latn", "FR")), 40);
    assert_eq!(matcher.distance_match(&full("en", "Latn", "US"), &en), 39);
    assert_eq!(matcher.distance(langid("en"), langid("ja")), 39 + 40 + 40);
}

#[test]
fn from_parts_takes_paradigm_locales_as_they_are() {
    let rules = || vec![rule("en_*_$enUS", "en_*_$enUS", 4), rule("*_*_*", "*_*_*", 6)];
    let variables = vec![variable("$enUS", "US+CA+PR")];
    let us = full("en", "Latn", "US");
    let ca = full("en", "Latn", "CA");
    let pr = full("en", "Latn", "PR");

    let matcher =
        LanguageMatcher::from_parts(vec![ca.clone(), LanguageId::new("en", None, None)], &variables, rules())
            .unwrap();
    assert!(matcher.is_paradigm(&ca));
    assert!(matcher.is_paradigm(&LanguageId::new("en", None, None)));
    assert!(!matcher.is_paradigm(&us));
    assert_eq!(matcher.distance_match(&us, &ca), 39);
    assert_eq!(matcher.distance_match(&ca, &us), 39);
    assert_eq!(matcher.distance_match(&us, &pr), 40);
    assert_eq!(matcher.distance_match(&ca, &ca), 40);

    let plain = LanguageMatcher::from_parts(vec![], &variables, rules()).unwrap();
    assert!(!plain.is_paradigm(&ca));
    assert_eq!(plain.distance_match(&us, &ca), 40);
    assert_eq!(plain.distance_impl(us.clone(), full("fr", "Latn", "FR")), 60 + 60);
}

#[test]
fn from_parts_names_first_fault() {
    let build = |id: &str, pattern: &str, distance: u16| {
        LanguageMatcher::from_parts(
            vec![],
            &vec![variable(id, "HK+MO")],
            vec![rule(pattern, "*", distance)],
        )
        .err()
    };
    assert_eq!(build("sar", "$x", 0), Some(DataError::InvalidVariableId));
    assert_eq!(build("$sar", "$x", 0), Some(DataError::DistanceOutOfRange));
    assert_eq!(build("$sar", "$x", 5), Some(DataError::UndefinedVariable));
    assert_eq!(build("$sar", "$sar", 5), Some(DataError::MissingFallback));
    assert_eq!(build("$sar", "*_*_*", 5), Some(DataError::MissingFallback));
    assert!(LanguageMatcher::from_parts(vec![], &vec![], vec![rule("*_*_*", "*_*_*", 5)]).is_ok());
}

#[test]
fn matches_impl_gives_place_of_first_nearest() {
    let matcher = matcher_of_language_info();

    let desired = full("en", "Latn", "IE");
    let supported = [
        full("ja", "Jpan", "JP"),
        full("en", "Latn", "AU"),
        full("en", "Latn", "NZ"),
        full("en", "Latn", "GB"),
        full("en", "Latn", "IN"),
    ];
    assert_eq!(matcher.matches_impl(&desired, &supported), Some((3, 29)));
    assert_eq!(matcher.matches_impl(&desired, &supported[..3]), Some((1, 40)));
    assert_eq!(matcher.matches_impl(&desired, &supported[2..3]), Some((0, 40)));
    assert_eq!(matcher.matches_impl(&desired, &supported[..1]), None);
    assert_eq!(matcher.matches_impl(&desired, &supported[..0]), None);
    assert_eq!(matcher.matches_impl(&desired, &[desired.clone(), desired.clone()]), Some((0, 0)));
}

#[test]
fn matches_impl_keeps_under_the_threshold() {
    // region 90, script 990, language 10: 1090 in all
    let rules = vec![
        rule("en", "fr", 1),
        rule("*_*", "*_*", 99),
        rule("*_*_*", "*_*_*", 9),
    ];
    let matcher = LanguageMatcher::from_parts(vec![], &vec![], rules).unwrap();
    let en = full("en", "Latn", "US");
    let fr = full("fr", "Cyrl", "FR");
    let fr_latn = full("fr", "Latn", "FR");
    assert_eq!(matcher.distance_impl(en.clone(), fr.clone()), 1090);
    assert_eq!(matcher.distance_impl(en.clone(), fr_latn.clone()), 100);
    assert_eq!(matcher.matches_impl(&en, &[fr.clone()]), None);
    assert_eq!(matcher.matches_impl(&en, &[fr.clone(), fr_latn.clone()]), Some((1, 100)));
    // 999 is still a match
    let rules = vec![rule("en", "fr", 90), rule("*_*_*", "*_*_*", 99)];
    let matcher = LanguageMatcher::from_parts(vec![en.clone()], &vec![], rules).unwrap();
    let fr_us = full("fr", "Latn", "US");
    assert_eq!(matcher.distance_impl(en.clone(), fr_us.clone()), 900);
    assert_eq!(matcher.distance_impl(en.clone(), fr_latn.clone()), 989 + 900);
    assert_eq!(matcher.matches_impl(&en, &[fr_latn.clone(), fr_us.clone()]), Some((1, 900)));
    let near = full("en", "Latn", "GB");
    assert_eq!(matcher.matches_impl(&en, &[fr_latn, near]), Some((1, 989)));
}

#[test]
fn distance_is_the_same_both_ways_where_two_way_rules_decide() {
    let matcher = matcher_of_language_info();

    let pairs = [
        ("zh-HK", "zh-MO"),
        ("zh-HK", "zh-TW"),
        ("en-GB", "en-AU"),
        ("en-US", "en-CA"),
        ("es-ES", "es-MX"),
        ("pt-BR", "pt-PT"),
        ("ar-EG", "ar-MA"),
        ("sr-Latn", "sr-Cyrl"),
        ("no", "nb"),
        ("en", "ja"),
    ];
    for (a, b) in pairs {
        assert_eq!(
            matcher.distance(langid(a), langid(b)),
            matcher.distance(langid(b), langid(a)),
            "{a} and {b}"
        );
    }
    assert_eq!(matcher.distance(langid("sr-Latn"), langid("sr-Cyrl")), 50);
    assert_eq!(matcher.distance(langid("no"), langid("nb")), 10);
    // a one-way rule decides the scripts of this pair
    assert_ne!(
        matcher.distance(langid("zh-Hans"), langid("zh-Hant")),
        matcher.distance(langid("zh-Hant"), langid("zh-Hans"))
    );
}
