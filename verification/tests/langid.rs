use language_matcher::langid::{same_subtag, LanguageId};

#[test]
fn new_holds_the_subtags() {
    let id = LanguageId::new("zh", Some("Hant"), Some("HK"));
    assert_eq!(id.language, "zh");
    assert_eq!(id.script.as_deref(), Some("Hant"));
    assert_eq!(id.region.as_deref(), Some("HK"));
    let id = LanguageId::new("zh", None, None);
    assert_eq!(id, LanguageId { language: "zh".to_string(), script: None, region: None });
}

#[test]
fn parse_reads_the_subtags() {
    assert_eq!(LanguageId::parse("zh"), Some(LanguageId::new("zh", None, None)));
    assert_eq!(LanguageId::parse("zh-CN"), Some(LanguageId::new("zh", None, Some("CN"))));
    assert_eq!(LanguageId::parse("zh-Hant"), Some(LanguageId::new("zh", Some("Hant"), None)));
    assert_eq!(
        LanguageId::parse("zh-Hant-HK"),
        Some(LanguageId::new("zh", Some("Hant"), Some("HK")))
    );
    assert_eq!(LanguageId::parse("es-419"), Some(LanguageId::new("es", None, Some("419"))));
    assert_eq!(LanguageId::parse("und"), Some(LanguageId::new("und", None, None)));
}

#[test]
fn parse_gives_subtags_their_casing() {
    assert_eq!(
        LanguageId::parse("ZH-hANT-hk"),
        Some(LanguageId::new("zh", Some("Hant"), Some("HK")))
    );
}

#[test]
fn parse_drops_what_follows_the_region() {
    assert_eq!(
        LanguageId::parse("ca-ES-valencia"),
        Some(LanguageId::new("ca", None, Some("ES")))
    );
}

#[test]
fn parse_refuses_what_is_no_identifier() {
    assert_eq!(LanguageId::parse(""), None);
    assert_eq!(LanguageId::parse("e"), None);
    assert_eq!(LanguageId::parse("en_GB"), None);
    assert_eq!(LanguageId::parse("en-"), None);
    assert_eq!(LanguageId::parse("en-GB-"), None);
    assert_eq!(LanguageId::parse("en GB"), None);
    assert_eq!(LanguageId::parse("en-US-US"), None);
    assert_eq!(LanguageId::parse("日本"), None);
}

#[test]
fn maximize_adds_likely_subtags() {
    let zh_cn = LanguageId::new("zh", None, Some("CN"));
    assert_eq!(zh_cn.maximize(), Some(LanguageId::new("zh", Some("Hans"), Some("CN"))));
    let zh_tw = LanguageId::new("zh", None, Some("TW"));
    assert_eq!(zh_tw.maximize(), Some(LanguageId::new("zh", Some("Hant"), Some("TW"))));
    let zh_hant = LanguageId::new("zh", Some("Hant"), None);
    assert_eq!(zh_hant.maximize(), Some(LanguageId::new("zh", Some("Hant"), Some("TW"))));
    let en = LanguageId::new("en", None, None);
    assert_eq!(en.maximize(), Some(LanguageId::new("en", Some("Latn"), Some("US"))));
    let full = LanguageId::new("sr", Some("Latn"), Some("ME"));
    assert_eq!(full.maximize(), Some(full.clone()));
    // the caller's identifier is as it was
    assert_eq!(zh_cn, LanguageId::new("zh", None, Some("CN")));
}

#[test]
fn maximize_leaves_unknown_language_as_it_is() {
    let mul = LanguageId::new("mul", None, None);
    assert_eq!(mul.maximize(), Some(mul.clone()));
    assert_eq!(mul.resolve(), None);
}

#[test]
fn maximize_refuses_what_is_no_subtag() {
    assert_eq!(LanguageId::new("e", None, None).maximize(), None);
    assert_eq!(LanguageId::new("english", None, None).maximize(), None);
    assert_eq!(LanguageId::new("en", Some("Latin"), None).maximize(), None);
    assert_eq!(LanguageId::new("en", None, Some("USA")).maximize(), None);
    assert_eq!(LanguageId::new("en", None, Some("U")).resolve(), None);
    assert_eq!(LanguageId::new("", None, None).resolve(), None);
}

#[test]
fn resolve_keeps_only_identifiers_with_script_and_region() {
    assert_eq!(
        LanguageId::new("ja", None, None).resolve(),
        Some(LanguageId::new("ja", Some("Jpan"), Some("JP")))
    );
    assert_eq!(
        LanguageId::new("pt", None, Some("PT")).resolve(),
        Some(LanguageId::new("pt", Some("Latn"), Some("PT")))
    );
    assert_eq!(LanguageId::new("mul", Some("Latn"), None).resolve(), None);
}

#[test]
fn is_maximized_asks_for_script_and_region() {
    assert!(LanguageId::new("zh", Some("Hant"), Some("HK")).is_maximized());
    assert!(!LanguageId::new("zh", Some("Hant"), None).is_maximized());
    assert!(!LanguageId::new("zh", None, Some("HK")).is_maximized());
    assert!(!LanguageId::new("zh", None, None).is_maximized());
}

#[test]
fn same_as_compares_all_three_subtags() {
    let hk = LanguageId::new("zh", Some("Hant"), Some("HK"));
    assert!(hk.same_as(&LanguageId::new("zh", Some("Hant"), Some("HK"))));
    assert!(hk.same_as(&hk.clone_id()));
    assert!(!hk.same_as(&LanguageId::new("zh", Some("Hant"), Some("MO"))));
    assert!(!hk.same_as(&LanguageId::new("zh", Some("Hans"), Some("HK"))));
    assert!(!hk.same_as(&LanguageId::new("yue", Some("Hant"), Some("HK"))));
    assert!(!hk.same_as(&LanguageId::new("zh", Some("Hant"), None)));
    assert!(!hk.same_as(&LanguageId::new("zh", None, Some("HK"))));
    assert!(same_subtag(&None, &None));
    assert!(!same_subtag(&None, &Some("HK".to_string())));
    assert!(!same_subtag(&Some("HK".to_string()), &None));
    assert!(!same_subtag(&Some("HK".to_string()), &Some("hk".to_string())));
}

#[test]
fn clone_id_copies_all_three_subtags() {
    let hk = LanguageId::new("zh", Some("Hant"), Some("HK"));
    assert_eq!(hk.clone_id(), hk);
    assert_eq!(hk, LanguageId::new("zh", Some("Hant"), Some("HK")));
    let zh = LanguageId::new("zh", None, None);
    assert_eq!(zh.clone_id(), zh);
}
