use ainukey::config::{Config, Input, InputMode, Orthography, Suggestions, TuStyle};

#[test]
fn defaults_are_sensible() {
    let c = Config::default();
    assert_eq!(c.input.default_mode, InputMode::Kana);
    assert!(!c.input.romaji_input_mode);
    assert_eq!(c.orthography.tu_style, TuStyle::To);
    assert!(c.suggestions.enabled);
    assert_eq!(c.suggestions.max_candidates, 9);
}

fn every_field_changed() -> Config {
    Config {
        input: Input {
            default_mode: InputMode::Latin,
            romaji_input_mode: true,
        },
        orthography: Orthography {
            tu_style: TuStyle::PlainTsu,
            use_small_i: true,
            use_small_u: true,
            use_small_n: true,
            use_wi: true,
            use_we: true,
            use_wo: true,
            show_equals_boundary: true,
        },
        suggestions: Suggestions {
            enabled: false,
            max_candidates: 4,
            context_aware: false,
        },
    }
}

fn field<'a>(v: &'a toml::Value, table: &str, key: &str) -> &'a toml::Value {
    v.get(table).and_then(|t| t.get(key)).unwrap_or_else(|| panic!("missing {table}.{key}"))
}

#[test]
fn documented_toml_is_documented_and_covers_every_field() {
    let c = every_field_changed();
    let doc = c.to_documented_toml();
    assert!(doc.contains("# ainuKey configuration"));
    assert!(doc.contains("plain_tsu = ツ"), "tu_style values listed: {doc}");
    assert!(doc.contains("(true | false)"));
    let v: toml::Value = toml::from_str(&doc).expect("documented TOML must parse");
    assert_eq!(field(&v, "input", "default_mode").as_str(), Some("latin"));
    assert_eq!(field(&v, "input", "romaji_input_mode").as_bool(), Some(true));
    assert_eq!(field(&v, "orthography", "tu_style").as_str(), Some("plain_tsu"));
    for k in ["use_small_i", "use_small_u", "use_small_n", "use_wi", "use_we", "use_wo", "show_equals_boundary"] {
        assert_eq!(field(&v, "orthography", k).as_bool(), Some(true), "{k}");
    }
    assert_eq!(field(&v, "suggestions", "enabled").as_bool(), Some(false));
    assert_eq!(field(&v, "suggestions", "max_candidates").as_integer(), Some(4));
    assert_eq!(field(&v, "suggestions", "context_aware").as_bool(), Some(false));
}

#[test]
fn documented_toml_of_defaults() {
    let doc = Config::default().to_documented_toml();
    let v: toml::Value = toml::from_str(&doc).expect("parse");
    assert_eq!(field(&v, "input", "default_mode").as_str(), Some("kana"));
    assert_eq!(field(&v, "orthography", "tu_style").as_str(), Some("to"));
    assert_eq!(field(&v, "suggestions", "max_candidates").as_integer(), Some(9));
    assert!(doc.starts_with("# ainuKey configuration  —  %APPDATA%\\ainuKey\\config.toml\n#\n"));
    assert!(doc.contains("default_mode = \"kana\"\n"));
    assert!(doc.contains("tu_style = \"to\"\n"));
    assert!(doc.ends_with("context_aware = true\n"));
}

#[test]
fn documented_toml_large_number() {
    let mut c = Config::default();
    c.suggestions.max_candidates = 120034;
    assert!(c.to_documented_toml().contains("\nmax_candidates = 120034\n"));
    c.suggestions.max_candidates = 0;
    assert!(c.to_documented_toml().contains("\nmax_candidates = 0\n"));
}

#[test]
fn decimal_digits() {
    assert_eq!(ainukey::config::decimal_chars(0), vec!['0']);
    assert_eq!(ainukey::config::decimal_chars(907), vec!['9', '0', '7']);
}
