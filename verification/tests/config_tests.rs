use polyfont::config::{
    decimal, ConfigError, ConfigLoader, DefaultFontConfig, FontConfig, PolyfontConfig, RuleConfig,
};
use polyfont::font::{FontStyle, FontWeight};

fn font(family: &str) -> FontConfig {
    FontConfig {
        family: family.to_string(),
        fallbacks: vec![],
        weight: FontWeight::default(),
        style: FontStyle::default(),
        size: None,
        axes: vec![],
    }
}

// The configuration of the minimal example file: version 1, default Fira
// Code, one bold Maple Mono rule for keywords.
fn minimal_config() -> PolyfontConfig {
    PolyfontConfig {
        version: 1,
        default: Some(DefaultFontConfig {
            family: "Fira Code".to_string(),
            fallbacks: vec![],
            weight: FontWeight::default(),
            style: FontStyle::default(),
            size: None,
            axes: vec![],
        }),
        rules: vec![RuleConfig {
            scope: "keyword".to_string(),
            font: FontConfig { weight: FontWeight::Bold, ..font("Maple Mono") },
        }],
    }
}

#[test]
fn validate_rejects_bad_version() {
    let config = PolyfontConfig { version: 99, default: None, rules: vec![] };
    assert!(config.validate().is_err());
}

#[test]
fn validate_rejects_empty_scope() {
    let config = PolyfontConfig {
        version: 1,
        default: None,
        rules: vec![RuleConfig { scope: "  ".to_string(), font: font("Test") }],
    };
    let err = config.validate().unwrap_err();
    assert!(matches!(err, ConfigError::Validation(_)));
}

#[test]
fn validate_rejects_empty_family() {
    let config = PolyfontConfig {
        version: 1,
        default: None,
        rules: vec![RuleConfig { scope: "keyword".to_string(), font: font("  ") }],
    };
    let err = config.validate().unwrap_err();
    assert!(matches!(err, ConfigError::Validation(_)));
}

#[test]
fn validate_rejects_empty_default_family() {
    let config = PolyfontConfig {
        version: 1,
        default: Some(DefaultFontConfig {
            family: "  ".to_string(),
            fallbacks: vec![],
            weight: FontWeight::default(),
            style: FontStyle::default(),
            size: None,
            axes: vec![],
        }),
        rules: vec![],
    };
    let err = config.validate().unwrap_err();
    assert!(matches!(err, ConfigError::Validation(_)));
}

#[test]
fn to_rules_includes_default_as_catchall() {
    let config = minimal_config();
    let rules = config.to_rules();
    assert_eq!(rules.len(), 2);
    let catchall = rules.last().unwrap();
    assert_eq!(catchall.scope, "*");
    assert_eq!(catchall.font.family, "Fira Code");
}

#[test]
fn merge_overlay_takes_precedence() {
    let base = minimal_config();
    let overlay = PolyfontConfig {
        version: 1,
        default: None,
        rules: vec![RuleConfig {
            scope: "comment".to_string(),
            font: FontConfig { style: FontStyle::Italic, ..font("Override") },
        }],
    };
    let merged = PolyfontConfig::merge(base, overlay);
    assert_eq!(merged.rules.len(), 1);
    assert_eq!(merged.rules[0].scope, "comment");
    assert!(merged.default.is_some());
}

// Validation reports the first problem, with its index.
#[test]
fn validate_messages() {
    let config = PolyfontConfig {
        version: 1,
        default: None,
        rules: vec![
            RuleConfig { scope: "keyword".to_string(), font: font("A") },
            RuleConfig { scope: "comment".to_string(), font: font(" ") },
            RuleConfig { scope: "".to_string(), font: font("B") },
        ],
    };
    match config.validate() {
        Err(ConfigError::Validation(m)) => {
            assert_eq!(m, "rule at index 1 (scope 'comment') has an empty font family")
        }
        _ => panic!("expected a validation error"),
    }
    let config = PolyfontConfig {
        version: 1,
        default: None,
        rules: (0..12)
            .map(|i| RuleConfig {
                scope: if i == 11 { "\t".to_string() } else { "s".to_string() },
                font: font("A"),
            })
            .collect(),
    };
    match config.validate() {
        Err(ConfigError::Validation(m)) => assert_eq!(m, "rule at index 11 has an empty scope"),
        _ => panic!("expected a validation error"),
    }
    let err = PolyfontConfig { version: 2, default: None, rules: vec![] }.validate().unwrap_err();
    assert_eq!(err.to_string(), "unsupported config version: found 2, expected 1");
    assert!(minimal_config().validate().is_ok());
}

#[test]
fn decimal_numerals() {
    assert_eq!(decimal(0).into_iter().collect::<String>(), "0");
    assert_eq!(decimal(1907).into_iter().collect::<String>(), "1907");
    assert_eq!(decimal(u64::MAX).into_iter().collect::<String>(), u64::MAX.to_string());
}

// Later files override earlier ones; files that failed to load are skipped.
#[test]
fn merge_loaded_in_order() {
    let second = PolyfontConfig {
        version: 1,
        default: None,
        rules: vec![RuleConfig { scope: "string".to_string(), font: font("S") }],
    };
    let merged = ConfigLoader::merge_loaded(
        minimal_config(),
        vec![Ok(second), Err(ConfigError::Parse("bad".to_string()))],
    );
    assert_eq!(merged.rules.len(), 1);
    assert_eq!(merged.rules[0].scope, "string");
    assert_eq!(merged.default.unwrap().family, "Fira Code");
    assert!(ConfigLoader::accept(PolyfontConfig { version: 3, default: None, rules: vec![] }).is_err());
}

#[test]
fn config_error_messages() {
    assert_eq!(ConfigError::Io("x".into()).to_string(), "failed to read config file: x");
    assert_eq!(ConfigError::Parse("y".into()).to_string(), "failed to parse config file: y");
    assert_eq!(ConfigError::NotFound("/d".into()).to_string(), "no config file found searching from /d");
    assert_eq!(ConfigError::Validation("v".into()).to_string(), "config validation failed: v");
}

// Ancestors come first, outermost first; then the files found below,
// shallowest first, files of equal depth in the order found.
#[test]
fn order_configs_outermost_first() {
    let found = vec![
        ("/w/a/b/.polyfont.toml".to_string(), 4),
        ("/w/.polyfont.toml".to_string(), 2),
        ("/w/c/.polyfont.toml".to_string(), 3),
        ("/w/a/.polyfont.toml".to_string(), 3),
    ];
    let ancestors = vec!["/.polyfont.toml".to_string(), "/home/.polyfont.toml".to_string()];
    assert_eq!(
        ConfigLoader::order_configs(found, ancestors),
        vec![
            "/home/.polyfont.toml",
            "/.polyfont.toml",
            "/w/.polyfont.toml",
            "/w/c/.polyfont.toml",
            "/w/a/.polyfont.toml",
            "/w/a/b/.polyfont.toml",
        ]
    );
    assert!(ConfigLoader::order_configs(vec![], vec![]).is_empty());
}
