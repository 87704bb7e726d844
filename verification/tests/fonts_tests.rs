use polyfont::fonts::{
    discovery_for_os, DiscoveryKind,
    family_matches, parse_powershell_fonts, parse_system_profiler_fonts, FallbackDiscovery,
    FcListDiscovery, FontCheckResult, FontDiscovery, FontError, FontScanner, MacOsDiscovery,
    WindowsDiscovery,
};

struct MockDiscovery {
    families: Vec<String>,
}

impl FontDiscovery for MockDiscovery {
    fn list_families(&self) -> Result<Vec<String>, FontError> {
        Ok(self.families.clone())
    }

    fn find_family(&self, name: &str) -> Result<bool, FontError> {
        Ok(self.families.iter().any(|f| f == name))
    }

    fn font_path(&self, _name: &str) -> Option<String> {
        None
    }
}

struct ErrorDiscovery;

impl FontDiscovery for ErrorDiscovery {
    fn list_families(&self) -> Result<Vec<String>, FontError> {
        Err(FontError::CommandFailed("test error".to_string()))
    }
    fn find_family(&self, _name: &str) -> Result<bool, FontError> {
        Err(FontError::CommandFailed("test error".to_string()))
    }
    fn font_path(&self, _name: &str) -> Option<String> {
        None
    }
}

#[test]
fn test_fc_list_parse_families() {
    let output = "\
DejaVu Sans Mono: DejaVu Sans Mono
Noto Sans Mono CJK SC: Noto Sans Mono CJK SC
Fira Code: Fira Code
Fira Code: Fira Code
Monospace: Monospace
DejaVu Sans Mono: DejaVu Sans Mono
";
    let families = FcListDiscovery::parse_fc_list_families(output);
    assert!(families.contains(&"DejaVu Sans Mono".to_string()));
    assert!(families.contains(&"Noto Sans Mono CJK SC".to_string()));
    assert!(families.contains(&"Fira Code".to_string()));
    assert!(families.contains(&"Monospace".to_string()));
    assert_eq!(families.len(), 4);
}

#[test]
fn test_fc_list_parse_comma_separated() {
    let output = "\
Arial,Helvetica,sans-serif
Times New Roman,Times,serif
";
    let families = FcListDiscovery::parse_fc_list_families(output);
    assert!(families.contains(&"Arial".to_string()));
    assert!(families.contains(&"Helvetica".to_string()));
    assert!(families.contains(&"sans-serif".to_string()));
    assert!(families.contains(&"Times New Roman".to_string()));
    assert!(families.contains(&"Times".to_string()));
    assert!(families.contains(&"serif".to_string()));
}

#[test]
fn test_fc_list_parse_empty() {
    let output = "";
    let families = FcListDiscovery::parse_fc_list_families(output);
    assert!(families.is_empty());
}

#[test]
fn test_fc_list_parse_whitespace_only() {
    let output = "   \n  \n  ";
    let families = FcListDiscovery::parse_fc_list_families(output);
    assert!(families.is_empty());
}

#[test]
fn test_windows_parse_powershell_fonts() {
    let output = "\
Arial (TrueType)
Arial Bold (TrueType)
Consolas (TrueType)
Courier New (TrueType)
";
    let fonts = parse_powershell_fonts(output);
    assert_eq!(fonts.len(), 4);
    assert_eq!(fonts[0], "Arial");
    assert_eq!(fonts[1], "Arial");
    assert_eq!(fonts[2], "Consolas");
    assert_eq!(fonts[3], "Courier");
}

#[test]
fn test_windows_parse_powershell_empty() {
    let fonts = parse_powershell_fonts("");
    assert!(fonts.is_empty());
}

#[test]
fn test_macos_parse_system_profiler() {
    let output = "\
Fonts:

    Font: Arial
      Family: Arial
      Style: Regular

    Font: Courier New
      Family: Courier New
      Style: Bold
";
    let families = parse_system_profiler_fonts(output);
    assert!(families.contains(&"Arial".to_string()));
    assert!(families.contains(&"Courier New".to_string()));
}

#[test]
fn test_macos_parse_empty() {
    let families = parse_system_profiler_fonts("No fonts found");
    assert!(families.is_empty());
}

#[test]
fn test_fallback_returns_empty() {
    let fb = FallbackDiscovery::new();
    assert!(fb.list_families().unwrap().is_empty());
    assert!(!fb.find_family("anything").unwrap());
    assert!(fb.font_path("anything").is_none());
}

#[test]
fn test_scanner_availability() {
    let mock = MockDiscovery {
        families: vec!["Fira Code".to_string(), "JetBrains Mono".to_string()],
    };
    let scanner = FontScanner::with_discovery(Box::new(mock));
    assert!(scanner.is_available("Fira Code"));
    assert!(scanner.is_available("JetBrains Mono"));
    assert!(!scanner.is_available("Missing Font"));
}

#[test]
fn test_scanner_available_families() {
    let mock = MockDiscovery {
        families: vec!["Arial".to_string(), "Helvetica".to_string()],
    };
    let scanner = FontScanner::with_discovery(Box::new(mock));
    let families = scanner.available_families();
    assert_eq!(families.len(), 2);
}

#[test]
fn test_check_config_result() {
    let mock = MockDiscovery {
        families: vec!["Fira Code".to_string(), "Arial".to_string()],
    };
    let scanner = FontScanner::with_discovery(Box::new(mock));
    let result = scanner.check_config(&["Fira Code", "Arial", "Missing"]);
    assert_eq!(result.available.len(), 2);
    assert_eq!(result.missing.len(), 1);
    assert!(result.available.contains(&"Fira Code".to_string()));
    assert!(result.available.contains(&"Arial".to_string()));
    assert!(result.missing.contains(&"Missing".to_string()));
    assert!(!result.all_available());
}

#[test]
fn test_check_config_all_available() {
    let mock = MockDiscovery {
        families: vec!["Fira Code".to_string()],
    };
    let scanner = FontScanner::with_discovery(Box::new(mock));
    let result = scanner.check_config(&["Fira Code"]);
    assert!(result.all_available());
    assert!(result.missing.is_empty());
}

#[test]
fn test_check_config_empty() {
    let mock = MockDiscovery { families: vec![] };
    let scanner = FontScanner::with_discovery(Box::new(mock));
    let result = scanner.check_config(&[]);
    assert!(result.all_available());
    assert!(result.available.is_empty());
    assert!(result.missing.is_empty());
}

#[test]
fn test_scanner_error_handling() {
    let scanner = FontScanner::with_discovery(Box::new(ErrorDiscovery));
    assert!(!scanner.is_available("anything"));
    assert!(scanner.available_families().is_empty());
}

// The families listed by `fc-list` come out sorted and each once; a
// `file:` part before the family names is skipped.
#[test]
fn fc_list_families_sorted_unique() {
    let output = "/usr/share/fonts/a.ttf: Zed Mono,Alpha\n/usr/share/fonts/b.ttf: Alpha\n\n";
    let families = FcListDiscovery::families_from_listing(output);
    assert_eq!(families, vec!["Alpha".to_string(), "Zed Mono".to_string()]);
    let first_seen = FcListDiscovery::parse_fc_list_families(output);
    assert_eq!(first_seen, vec!["Zed Mono".to_string(), "Alpha".to_string()]);
}

#[test]
fn fc_match_and_path_decisions() {
    assert!(FcListDiscovery::match_found("  Fira Code: \"Fira Code\" \"Regular\"\n", "Fira Code"));
    assert!(FcListDiscovery::match_found("DejaVuSans.ttf: \"Fira Code\"", "Fira Code"));
    assert!(!FcListDiscovery::match_found("DejaVuSans.ttf: \"DejaVu Sans\"", "Fira Code"));
    assert_eq!(
        FcListDiscovery::path_from_listing("/usr/share/fonts/FiraCode.ttf: \n/x.ttf:\n"),
        Some("/usr/share/fonts/FiraCode.ttf".to_string())
    );
    assert_eq!(FcListDiscovery::path_from_listing(""), None);
    assert_eq!(FcListDiscovery::path_from_listing(" : Fira"), None);
}

#[test]
fn profile_families_sorted() {
    let output = "    Font: Zed\n    Family: Alpha\n    Style: Bold\n    Family:   \n";
    assert_eq!(
        MacOsDiscovery::families_from_profile(output),
        vec!["Alpha".to_string(), "Zed".to_string()]
    );
}

#[test]
fn windows_helpers() {
    assert_eq!(WindowsDiscovery::font_file_stem("consola.ttf"), Some("consola".to_string()));
    assert_eq!(WindowsDiscovery::font_file_stem("x.otf"), Some("x".to_string()));
    assert_eq!(WindowsDiscovery::font_file_stem("x.ttc"), Some("x".to_string()));
    assert_eq!(WindowsDiscovery::font_file_stem("readme.txt"), None);
    assert!(WindowsDiscovery::file_matches("FiraCode-Regular.ttf", "firacode"));
    assert!(!WindowsDiscovery::file_matches("Arial.ttf", "Consolas"));
    let fams = vec!["b".to_string(), "a".to_string(), "b".to_string()];
    assert_eq!(WindowsDiscovery::sorted_unique(&fams), vec!["a".to_string(), "b".to_string()]);
}

#[test]
fn family_matching_rules() {
    assert!(family_matches("Fira Code", "fira code"));
    assert!(family_matches("JetBrains Mono NL", "jetbrains mono"));
    assert!(family_matches("ÉCOLE Sans", "école"));
    assert!(!family_matches("Arial", "Helvetica"));
    assert!(polyfont::fonts::any_family_matches(
        &vec!["Arial".to_string(), "Fira Code Retina".to_string()],
        "FIRA CODE"
    ));
}

#[test]
fn font_check_result_split_keeps_order() {
    let result = FontScanner::split_by_availability(&["a", "b", "c"], &vec![false, true, false]);
    assert_eq!(result.available, vec!["b".to_string()]);
    assert_eq!(result.missing, vec!["a".to_string(), "c".to_string()]);
    let all = FontCheckResult { available: vec![], missing: vec![] };
    assert!(all.all_available());
}

#[test]
fn font_error_messages() {
    assert_eq!(FontError::CommandFailed("x".into()).to_string(), "font command failed: x");
    assert_eq!(FontError::ParseError.to_string(), "failed to parse font output");
    assert_eq!(FontError::DiscoveryFailed("y".into()).to_string(), "font discovery failed: y");
    assert_eq!(FontError::Io("z".into()).to_string(), "io error: z");
    assert_eq!(FontError::Lockfile("w".into()).to_string(), "lockfile error: w");
}

// Each operating system gets its own discovery; on others nothing is
// installed.
#[test]
fn test_auto_detection_selects_platform() {
    assert_eq!(discovery_for_os("linux"), DiscoveryKind::FcList);
    assert_eq!(discovery_for_os("macos"), DiscoveryKind::MacOs);
    assert_eq!(discovery_for_os("windows"), DiscoveryKind::Windows);
    assert_eq!(discovery_for_os("freebsd"), DiscoveryKind::Fallback);
    assert_eq!(discovery_for_os(""), DiscoveryKind::Fallback);
    assert!(FallbackDiscovery::new().list_families().unwrap().is_empty());
}
