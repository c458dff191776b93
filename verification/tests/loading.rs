use avro_phonetic::definition::{
    build_condition, build_pattern, parse_match_type, parse_scope, ConfigError, MatchDefinition,
    PatternDefinition, RuleDefinition, TableDefinition,
};
use avro_phonetic::document::{get_avro_phonetic, parse_definition, read_definition};
use avro_phonetic::rules::{MatchType, Scope, ScopeSet};
use avro_phonetic::table::AvroPhonetic;
use avro_phonetic::text::{chars_of, has_digit_runs_within, same_text, string_of};

const RULES: &str = r#"{
    "vowel": "aeiou",
    "consonant": "bcdfghjklmnpqrstvwxyz",
    "casesensitive": "oiudgjnrstyz",
    "patterns": [
        {"find": "kh", "replace": "খ"},
        {"find": "k", "replace": "ক"},
        {"find": "a", "replace": "া",
         "rules": [
            {"replace": "আ", "matches": [{"type": "prefix", "scope": "punctuation"}]},
            {"replace": "য়া", "matches": [{"type": "prefix", "scope": "!consonant"},
                                          {"type": "prefix", "scope": "!exact", "value": "a"}]}
         ]},
        {"find": "O", "replace": "ও"},
        {"find": "o", "replace": "",
         "rules": [{"replace": "অ", "matches": [{"type": "prefix", "scope": "!consonant"}]}]}
    ]
}"#;

#[test]
fn loads_a_rule_file() {
    let t = get_avro_phonetic(RULES).unwrap();
    assert_eq!(t.max_pattern_length(), 2);
    assert_eq!(t.convert("kha"), "খা");
    assert_eq!(t.convert("ka"), "কা");
    assert_eq!(t.convert("a"), "আ");
    assert_eq!(t.convert("ko"), "ক");
    assert_eq!(t.convert("o"), "অ");
    assert_eq!(t.convert("O"), "ও");
    assert_eq!(t.convert("kO"), "কও");
    assert_eq!(t.convert("KHA"), "খা");
    assert_eq!(t.convert("aa"), "আা");
    assert_eq!(t.convert("oa"), "অয়া");
}

#[test]
fn parsed_definition_holds_the_fields() {
    let def = parse_definition(RULES).unwrap();
    assert_eq!(def.vowel, "aeiou");
    assert_eq!(def.consonant, "bcdfghjklmnpqrstvwxyz");
    assert_eq!(def.casesensitive, "oiudgjnrstyz");
    assert_eq!(def.patterns.len(), 5);
    assert_eq!(def.patterns[0].find, "kh");
    assert_eq!(def.patterns[0].replace, "খ");
    assert!(def.patterns[0].rules.is_empty());
    assert_eq!(def.patterns[2].rules.len(), 2);
    assert_eq!(def.patterns[2].rules[1].replace, "য়া");
    assert_eq!(def.patterns[2].rules[1].matches.len(), 2);
    assert_eq!(def.patterns[2].rules[1].matches[1].kind, "prefix");
    assert_eq!(def.patterns[2].rules[1].matches[1].scope, "!exact");
    assert_eq!(def.patterns[2].rules[1].matches[1].value, Some("a".to_string()));
    assert_eq!(def.patterns[2].rules[0].matches[0].value, None);
}

#[test]
fn reads_a_document_built_by_hand() {
    let mut pattern = json::JsonValue::new_object();
    pattern.insert("find", "x").unwrap();
    pattern.insert("replace", "y").unwrap();
    let mut patterns = json::JsonValue::new_array();
    patterns.push(pattern).unwrap();
    let mut doc = json::JsonValue::new_object();
    doc.insert("vowel", "a").unwrap();
    doc.insert("consonant", "b").unwrap();
    doc.insert("casesensitive", "").unwrap();
    doc.insert("patterns", patterns).unwrap();
    let def = read_definition(&doc).unwrap();
    assert_eq!(def.vowel, "a");
    assert_eq!(def.patterns.len(), 1);
    assert_eq!(def.patterns[0].find, "x");
    assert_eq!(def.patterns[0].replace, "y");
}

fn error_of(text: &str) -> ConfigError {
    match get_avro_phonetic(text) {
        Ok(_) => panic!("accepted: {}", text),
        Err(e) => e,
    }
}

#[test]
fn rejects_text_that_is_no_document() {
    assert_eq!(error_of(""), ConfigError::InvalidDocument);
    assert_eq!(error_of("{"), ConfigError::InvalidDocument);
    assert_eq!(error_of("{\"vowel\": }"), ConfigError::InvalidDocument);
    assert_eq!(error_of("not json"), ConfigError::InvalidDocument);
}

#[test]
fn rejects_missing_fields() {
    assert_eq!(error_of("{}"), ConfigError::MissingField);
    assert_eq!(error_of("[]"), ConfigError::MissingField);
    assert_eq!(error_of("null"), ConfigError::MissingField);
    assert_eq!(
        error_of(r#"{"consonant": "b", "casesensitive": "", "patterns": []}"#),
        ConfigError::MissingField
    );
    assert_eq!(
        error_of(r#"{"vowel": "a", "casesensitive": "", "patterns": []}"#),
        ConfigError::MissingField
    );
    assert_eq!(
        error_of(r#"{"vowel": "a", "consonant": "b", "patterns": []}"#),
        ConfigError::MissingField
    );
    assert_eq!(
        error_of(r#"{"vowel": "a", "consonant": "b", "casesensitive": ""}"#),
        ConfigError::MissingField
    );
    assert_eq!(
        error_of(r#"{"vowel": 1, "consonant": "b", "casesensitive": "", "patterns": []}"#),
        ConfigError::MissingField
    );
    assert_eq!(
        error_of(r#"{"vowel": "a", "consonant": "b", "casesensitive": "", "patterns": {}}"#),
        ConfigError::MissingField
    );
}

fn with_patterns(patterns: &str) -> String {
    format!(
        r#"{{"vowel": "a", "consonant": "b", "casesensitive": "", "patterns": {}}}"#,
        patterns
    )
}

#[test]
fn rejects_incomplete_patterns() {
    assert_eq!(error_of(&with_patterns(r#"[{"replace": "x"}]"#)), ConfigError::MissingField);
    assert_eq!(error_of(&with_patterns(r#"[{"find": "x"}]"#)), ConfigError::MissingField);
    assert_eq!(error_of(&with_patterns(r#"["x"]"#)), ConfigError::MissingField);
    assert_eq!(
        error_of(&with_patterns(r#"[{"find": "x", "replace": "y", "rules": "r"}]"#)),
        ConfigError::MissingField
    );
    assert_eq!(
        error_of(&with_patterns(r#"[{"find": "x", "replace": "y", "rules": [{"replace": "z"}]}]"#)),
        ConfigError::MissingField
    );
    assert_eq!(
        error_of(&with_patterns(r#"[{"find": "x", "replace": "y", "rules": [{"matches": []}]}]"#)),
        ConfigError::MissingField
    );
    assert_eq!(
        error_of(&with_patterns(
            r#"[{"find": "x", "replace": "y", "rules": [{"replace": "z", "matches": [{"scope": "vowel"}]}]}]"#
        )),
        ConfigError::MissingField
    );
    assert_eq!(
        error_of(&with_patterns(
            r#"[{"find": "x", "replace": "y", "rules": [{"replace": "z", "matches": [{"type": "prefix"}]}]}]"#
        )),
        ConfigError::MissingField
    );
}

#[test]
fn rejects_unknown_tokens() {
    assert_eq!(
        error_of(&with_patterns(
            r#"[{"find": "x", "replace": "y", "rules": [{"replace": "z", "matches": [{"type": "infix", "scope": "vowel"}]}]}]"#
        )),
        ConfigError::InvalidMatchType
    );
    assert_eq!(
        error_of(&with_patterns(
            r#"[{"find": "x", "replace": "y", "rules": [{"replace": "z", "matches": [{"type": "prefix", "scope": "digit"}]}]}]"#
        )),
        ConfigError::InvalidScope
    );
    assert_eq!(
        error_of(&with_patterns(
            r#"[{"find": "x", "replace": "y", "rules": [{"replace": "z", "matches": [{"type": "infix", "scope": "digit"}]}]}]"#
        )),
        ConfigError::InvalidMatchType
    );
}

#[test]
fn accepts_patterns_without_rules_and_empty_lists() {
    let t = get_avro_phonetic(&with_patterns("[]")).unwrap();
    assert_eq!(t.max_pattern_length(), 0);
    assert_eq!(t.convert("Ab"), "ab");
    let t = get_avro_phonetic(&with_patterns(
        r#"[{"find": "x", "replace": "y", "rules": []}, {"find": "z", "replace": "w", "rules": null}]"#,
    ))
    .unwrap();
    assert_eq!(t.convert("xz"), "yw");
}

#[test]
fn rejected_definition_leaves_the_table_unchanged() {
    let mut t = get_avro_phonetic(RULES).unwrap();
    let bad = with_patterns(
        r#"[{"find": "q", "replace": "Q"},
            {"find": "x", "replace": "y", "rules": [{"replace": "z", "matches": [{"type": "prefix", "scope": "digit"}]}]}]"#,
    );
    assert_eq!(t.load_patterns_from_json(&bad), Err(ConfigError::InvalidScope));
    assert_eq!(t.convert("q"), "q");
    assert_eq!(t.convert("kha"), "খা");
    assert!(t.is_vowel(&'e'));
    assert_eq!(t.load_patterns_from_json("nonsense"), Err(ConfigError::InvalidDocument));
    assert_eq!(t.convert("ka"), "কা");
}

#[test]
fn second_load_appends_patterns_and_replaces_classes() {
    let mut t = get_avro_phonetic(RULES).unwrap();
    let more = r#"{"vowel": "k", "consonant": "", "casesensitive": "", "patterns": [{"find": "khx", "replace": "3"}, {"find": "k", "replace": "late"}]}"#;
    assert_eq!(t.load_patterns_from_json(more), Ok(()));
    assert_eq!(t.max_pattern_length(), 3);
    assert_eq!(t.convert("khx"), "3");
    assert_eq!(t.convert("kh"), "খ");
    assert_eq!(t.convert("k"), "ক");
    assert!(t.is_vowel(&'k'));
    assert!(!t.is_vowel(&'a'));
    assert!(!t.is_case_sensitive(&'o'));
}

#[test]
fn load_definition_reports_the_first_error() {
    let def = TableDefinition {
        vowel: "a".to_string(),
        consonant: "b".to_string(),
        casesensitive: String::new(),
        patterns: vec![
            PatternDefinition {
                find: "x".to_string(),
                replace: "y".to_string(),
                rules: vec![RuleDefinition {
                    replace: "z".to_string(),
                    matches: vec![MatchDefinition {
                        kind: "prefix".to_string(),
                        scope: "nope".to_string(),
                        value: None,
                    }],
                }],
            },
            PatternDefinition {
                find: "x".to_string(),
                replace: "y".to_string(),
                rules: vec![RuleDefinition {
                    replace: "z".to_string(),
                    matches: vec![MatchDefinition {
                        kind: "nope".to_string(),
                        scope: "vowel".to_string(),
                        value: None,
                    }],
                }],
            },
        ],
    };
    let mut t = AvroPhonetic::new();
    assert_eq!(t.load_definition(&def), Err(ConfigError::InvalidScope));
    assert_eq!(t.max_pattern_length(), 0);
    assert!(!t.is_vowel(&'a'));
}

#[test]
fn tokens() {
    assert_eq!(parse_match_type("prefix"), Ok(MatchType::Prefix));
    assert_eq!(parse_match_type("suffix"), Ok(MatchType::Suffix));
    assert_eq!(parse_match_type("Prefix"), Err(ConfigError::InvalidMatchType));
    assert_eq!(parse_match_type(""), Err(ConfigError::InvalidMatchType));
    assert_eq!(parse_scope("consonant"), Ok(Scope::Consonant));
    assert_eq!(parse_scope("vowel"), Ok(Scope::Vowel));
    assert_eq!(parse_scope("punctuation"), Ok(Scope::Punctuation));
    assert_eq!(parse_scope("exact"), Ok(Scope::Exact));
    assert_eq!(parse_scope("!consonant"), Ok(Scope::NotConsonant));
    assert_eq!(parse_scope("!vowel"), Ok(Scope::NotVowel));
    assert_eq!(parse_scope("!punctuation"), Ok(Scope::NotPunctuation));
    assert_eq!(parse_scope("!exact"), Ok(Scope::NotExact));
    assert_eq!(parse_scope("!"), Err(ConfigError::InvalidScope));
    assert_eq!(parse_scope("!!vowel"), Err(ConfigError::InvalidScope));
    assert_eq!(parse_scope("vowels"), Err(ConfigError::InvalidScope));
}

#[test]
fn built_condition_and_pattern() {
    let c = build_condition(&MatchDefinition {
        kind: "suffix".to_string(),
        scope: "!exact".to_string(),
        value: Some("খ".to_string()),
    })
    .unwrap();
    assert_eq!(c.match_type, MatchType::Suffix);
    assert_eq!(c.scope, ScopeSet::only(Scope::NotExact));
    assert_eq!(c.exact_value, Some('খ'));
    let c = build_condition(&MatchDefinition {
        kind: "prefix".to_string(),
        scope: "vowel".to_string(),
        value: Some(String::new()),
    })
    .unwrap();
    assert_eq!(c.exact_value, None);
    assert_eq!(c.scope, ScopeSet::only(Scope::Vowel));
    let p = build_pattern(&PatternDefinition {
        find: "খa".to_string(),
        replace: "r".to_string(),
        rules: Vec::new(),
    })
    .unwrap();
    assert_eq!(p.find, vec!['খ', 'a']);
    assert_eq!(p.default_replace, "r");
    assert!(p.conditional_rules.is_empty());
}

#[test]
fn text_helpers() {
    assert_eq!(chars_of("aখb"), vec!['a', 'খ', 'b']);
    assert_eq!(chars_of(""), Vec::<char>::new());
    assert_eq!(string_of(&vec!['a', 'খ', 'b']), "aখb");
    assert_eq!(string_of(&Vec::new()), "");
    assert!(same_text("abc", "abc"));
    assert!(!same_text("abc", "abd"));
    assert!(!same_text("abc", "ab"));
    assert!(same_text("", ""));
}

fn exact_condition(scope: &str, value: Option<&str>) -> Result<avro_phonetic::rules::MatchRule, ConfigError> {
    build_condition(&MatchDefinition {
        kind: "prefix".to_string(),
        scope: scope.to_string(),
        value: value.map(|v| v.to_string()),
    })
}

#[test]
fn exact_scopes_need_a_value_of_one_character() {
    for scope in ["exact", "!exact"] {
        assert_eq!(exact_condition(scope, None), Err(ConfigError::MissingField));
        assert_eq!(exact_condition(scope, Some("")), Err(ConfigError::InvalidValue));
        assert_eq!(exact_condition(scope, Some("ab")), Err(ConfigError::InvalidValue));
        assert_eq!(exact_condition(scope, Some("খa")), Err(ConfigError::InvalidValue));
        assert_eq!(exact_condition(scope, Some("খ")).unwrap().exact_value, Some('খ'));
        assert_eq!(exact_condition(scope, Some(" ")).unwrap().exact_value, Some(' '));
    }
    for scope in ["vowel", "!vowel", "consonant", "!consonant", "punctuation", "!punctuation"] {
        assert_eq!(exact_condition(scope, None).unwrap().exact_value, None);
        assert_eq!(exact_condition(scope, Some("ab")).unwrap().exact_value, Some('a'));
    }
}

#[test]
fn rule_file_with_an_exact_scope_without_value_is_rejected() {
    let without = with_patterns(
        r#"[{"find": "x", "replace": "y", "rules": [{"replace": "z", "matches": [{"type": "prefix", "scope": "exact"}]}]}]"#,
    );
    assert_eq!(error_of(&without), ConfigError::MissingField);
    let number = with_patterns(
        r#"[{"find": "x", "replace": "y", "rules": [{"replace": "z", "matches": [{"type": "prefix", "scope": "!exact", "value": 7}]}]}]"#,
    );
    assert_eq!(error_of(&number), ConfigError::MissingField);
    let empty = with_patterns(
        r#"[{"find": "x", "replace": "y", "rules": [{"replace": "z", "matches": [{"type": "prefix", "scope": "exact", "value": ""}]}]}]"#,
    );
    assert_eq!(error_of(&empty), ConfigError::InvalidValue);
    let long = with_patterns(
        r#"[{"find": "x", "replace": "y", "rules": [{"replace": "z", "matches": [{"type": "suffix", "scope": "!exact", "value": "ab"}]}]}]"#,
    );
    assert_eq!(error_of(&long), ConfigError::InvalidValue);
    let mut t = get_avro_phonetic(RULES).unwrap();
    assert_eq!(t.load_patterns_from_json(&without), Err(ConfigError::MissingField));
    assert_eq!(t.convert("kha"), "খা");
    let good = with_patterns(
        r#"[{"find": "x", "replace": "y", "rules": [{"replace": "z", "matches": [{"type": "suffix", "scope": "exact", "value": "q"}]}]}]"#,
    );
    let t = get_avro_phonetic(&good).unwrap();
    assert_eq!(t.convert("xq"), "zq");
    assert_eq!(t.convert("xr"), "yr");
}

#[test]
fn text_with_an_overlong_run_of_digits_is_no_document() {
    let zeros = "0".repeat(40_000);
    let number = with_patterns(&format!("[0.{}]", zeros));
    assert_eq!(error_of(&number), ConfigError::InvalidDocument);
    assert!(matches!(parse_definition(&number), Err(ConfigError::InvalidDocument)));
    let inside = with_patterns(&format!(r#"[{{"find": "{}", "replace": "y"}}]"#, "7".repeat(32_768)));
    assert_eq!(error_of(&inside), ConfigError::InvalidDocument);
    let mut t = get_avro_phonetic(RULES).unwrap();
    assert_eq!(t.load_patterns_from_json(&number), Err(ConfigError::InvalidDocument));
    assert_eq!(t.convert("kha"), "খা");
}

#[test]
fn longest_admitted_run_of_digits_is_parsed() {
    let find = "7".repeat(32_767);
    let text = with_patterns(&format!(r#"[{{"find": "{}", "replace": "y"}}]"#, find));
    let t = get_avro_phonetic(&text).unwrap();
    assert_eq!(t.max_pattern_length(), 32_767);
    assert_eq!(t.convert(&find), "y");
    // A fraction of that many digits is a number, which is no pattern.
    let fraction = with_patterns(&format!("[0.{}]", "0".repeat(32_766)));
    assert_eq!(error_of(&fraction), ConfigError::MissingField);
}

#[test]
fn digit_runs_are_measured() {
    assert!(has_digit_runs_within("", 0));
    assert!(has_digit_runs_within("abc", 0));
    assert!(!has_digit_runs_within("a1", 0));
    assert!(has_digit_runs_within("12a345b67", 3));
    assert!(!has_digit_runs_within("12a3456b67", 3));
    assert!(!has_digit_runs_within("1234", 3));
    assert!(has_digit_runs_within("123.456", 3));
    assert!(has_digit_runs_within("১২৩৪", 0));
}
