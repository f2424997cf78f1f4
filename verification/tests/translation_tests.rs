use lindows_panel::translations::{json_lang_code, ParsedFile, Translations, DEFAULT_EN, DEFAULT_ZH};

fn files(list: &[(&str, &str)]) -> Vec<(String, String)> {
    list.iter().map(|(a, b)| (a.to_string(), b.to_string())).collect()
}

#[test]
fn loaded_file_translates() {
    let t = Translations::from_files(files(&[("en", r#"{"a": "A", "main_title": "Panel"}"#)]));
    assert_eq!(t.current_lang, "en");
    assert_eq!(t.available_langs(), &["en".to_string()]);
    assert_eq!(t.tr("a"), "A");
    assert_eq!(t.tr("main_title"), "Panel");
    assert_eq!(t.tr("missing"), "missing");
}

#[test]
fn chinese_preferred_when_loaded() {
    let t = Translations::from_files(files(&[("en", r#"{"k": "E"}"#), ("zh", r#"{"k": "Z"}"#)]));
    assert_eq!(t.current_lang, "zh");
    assert_eq!(t.available_langs(), &["en".to_string(), "zh".to_string()]);
    assert_eq!(t.tr("k"), "Z");
}

#[test]
fn first_language_when_no_chinese() {
    let t = Translations::from_files(files(&[("fr", r#"{"k": "F"}"#), ("de", r#"{"k": "D"}"#)]));
    assert_eq!(t.current_lang, "fr");
    assert_eq!(t.tr("k"), "F");
}

#[test]
fn broken_files_are_passed_over() {
    let t = Translations::from_files(files(&[("bad", "not json"), ("num", r#"{"k": 1}"#), ("en", r#"{"k": "E"}"#)]));
    assert_eq!(t.available_langs(), &["en".to_string()]);
    assert!(!t.has_language("bad"));
    assert!(!t.has_language("num"));
    assert!(t.has_language("en"));
}

#[test]
fn built_in_tables_when_nothing_loads() {
    let t = Translations::from_files(files(&[("xx", "{")]));
    assert_eq!(t.available_langs(), &["zh".to_string(), "en".to_string()]);
    assert_eq!(t.current_lang, "zh");
    assert_eq!(t.tr("main_title"), "Lindows 控制面板");
    assert_eq!(t.tr("settings_delete"), "删除");
    let empty = Translations::from_files(Vec::new());
    assert_eq!(empty.current_lang, "zh");
    assert_eq!(empty.tr("button_network"), "网络设置");
}

#[test]
fn built_in_tables_parse() {
    let zh: std::collections::HashMap<String, String> = serde_json::from_str(DEFAULT_ZH).unwrap();
    let en: std::collections::HashMap<String, String> = serde_json::from_str(DEFAULT_EN).unwrap();
    assert_eq!(zh.len(), en.len());
    let mut t = Translations::from_files(Vec::new());
    assert!(t.select_language("en"));
    for (k, v) in en.iter() {
        assert_eq!(&t.tr(k), v);
    }
}

#[test]
fn duplicate_keys_keep_last_value() {
    let t = Translations::from_files(files(&[("en", r#"{"k": "first", "k": "second"}"#)]));
    assert_eq!(t.tr("k"), "second");
}

#[test]
fn language_selection() {
    let mut t = Translations::from_files(files(&[("en", r#"{"k": "E"}"#), ("zh", r#"{"k": "Z"}"#)]));
    assert!(!t.select_language("zh"));
    assert!(!t.select_language("fr"));
    assert_eq!(t.current_lang, "zh");
    assert!(t.select_language("en"));
    assert_eq!(t.current_lang, "en");
    assert_eq!(t.tr("k"), "E");
}

#[test]
fn settling_configured_language() {
    let mut t = Translations::from_files(files(&[("en", r#"{"k": "E"}"#), ("zh", r#"{"k": "Z"}"#)]));
    t.settle_language("en");
    assert_eq!(t.current_lang, "en");
    t.settle_language("fr");
    assert_eq!(t.current_lang, "en");
    t.settle_language("zh");
    t.settle_language("klingon");
    assert_eq!(t.current_lang, "en");
}

#[test]
fn json_language_codes() {
    assert_eq!(json_lang_code("zh.json"), Some("zh".to_string()));
    assert_eq!(json_lang_code("a.b.json"), Some("a.b".to_string()));
    assert_eq!(json_lang_code(".json"), None);
    assert_eq!(json_lang_code("json"), None);
    assert_eq!(json_lang_code("zh.JSON"), None);
    assert_eq!(json_lang_code("zh.json.bak"), None);
    assert_eq!(json_lang_code(".zh.json"), Some(".zh".to_string()));
    assert_eq!(json_lang_code("x."), None);
    for name in ["zh.json", "a.b.json", ".json", "json", "x.jsonx", "..json", ".zh.json"] {
        let p = std::path::Path::new(name);
        let expected = if p.extension().and_then(|e| e.to_str()) == Some("json") {
            p.file_stem().and_then(|s| s.to_str()).map(|s| s.to_string())
        } else {
            None
        };
        assert_eq!(json_lang_code(name), expected, "name {}", name);
    }
}

#[test]
fn parsed_files_build_tables() {
    let parsed: Vec<ParsedFile> = vec![
        ("fr".to_string(), None),
        ("en".to_string(), Some(vec![("k".to_string(), "first".to_string()), ("k".to_string(), "second".to_string())])),
        ("de".to_string(), Some(vec![("k".to_string(), "D".to_string())])),
    ];
    let t = Translations::from_parsed(parsed);
    assert_eq!(t.available_langs(), &["en".to_string(), "de".to_string()]);
    assert_eq!(t.current_lang, "en");
    assert_eq!(t.tr("k"), "second");
    assert!(!t.has_language("fr"));
    let none = Translations::from_parsed(vec![("fr".to_string(), None)]);
    assert_eq!(none.available_langs(), &["zh".to_string(), "en".to_string()]);
    assert_eq!(none.tr("settings_close"), "关闭设置");
}

#[test]
fn repeated_codes_are_offered_twice() {
    let t = Translations::from_files(files(&[("en", r#"{"k": "1"}"#), ("en", r#"{"k": "2"}"#)]));
    assert_eq!(t.available_langs(), &["en".to_string(), "en".to_string()]);
    assert_eq!(t.tr("k"), "2");
    let distinct = Translations::from_files(files(&[("en", r#"{}"#), ("zh", r#"{}"#), ("fr", "x")]));
    assert_eq!(distinct.available_langs(), &["en".to_string(), "zh".to_string()]);
}
