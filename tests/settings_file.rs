use grid_engine::settings::{lookup_setting, parse_settings};

#[test]
fn reads_key_value_lines() {
    let contents = "BINANCE_API_KEY = abc\r\n# comment line\nBINANCE_SECRET_KEY=s=e=c\n\n  EMPTY=  \nKEY=first\nKEY=second";
    let settings = parse_settings(contents);
    let pairs: Vec<(String, String)> = settings.iter().map(|s| (s.key.clone(), s.value.clone())).collect();
    assert_eq!(
        pairs,
        vec![
            ("BINANCE_API_KEY".to_string(), "abc".to_string()),
            ("BINANCE_SECRET_KEY".to_string(), "s=e=c".to_string()),
            ("EMPTY".to_string(), "".to_string()),
            ("KEY".to_string(), "first".to_string()),
            ("KEY".to_string(), "second".to_string()),
        ]
    );
    assert_eq!(lookup_setting(&settings, "BINANCE_API_KEY"), Some("abc".to_string()));
    assert_eq!(lookup_setting(&settings, "KEY"), Some("second".to_string()));
    assert_eq!(lookup_setting(&settings, "MISSING"), None);
}

#[test]
fn empty_and_unicode_whitespace() {
    assert!(parse_settings("").is_empty());
    assert!(parse_settings("no separator here\n").is_empty());
    let s = parse_settings("\u{3000}name\u{a0}=\tvalue\u{2003}");
    assert_eq!(s.len(), 1);
    assert_eq!(s[0].key, "name");
    assert_eq!(s[0].value, "value");
}
