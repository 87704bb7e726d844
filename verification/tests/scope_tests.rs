use polyfont::font::{FontRule, FontSpec, FontStyle, FontWeight};
use polyfont::scope::{ScopeError, ScopeMatcher, ScopePattern, ScopeResolver, ScopeSelector};
use polyfont::scope_tree::ScopeTree;

fn spec(family: &str) -> FontSpec {
    FontSpec {
        family: family.to_owned(),
        fallbacks: vec![],
        weight: FontWeight::default(),
        style: FontStyle::default(),
        size: None,
        axes: vec![],
    }
}

#[test]
fn test_exact_match() {
    let pattern = ScopePattern::parse("entity.name.function").unwrap();
    assert!(pattern.matches_scope("entity.name.function"));
    assert!(!pattern.matches_scope("entity.name"));
    assert!(pattern.matches_scope("entity.name.function.call"));
}

#[test]
fn test_hierarchical_match() {
    let pattern = ScopePattern::parse("entity.name").unwrap();
    assert!(pattern.matches_scope("entity.name"));
    assert!(pattern.matches_scope("entity.name.function"));
    assert!(pattern.matches_scope("entity.name.function.call"));
    assert!(!pattern.matches_scope("entity.type"));
}

#[test]
fn test_top_level_scope() {
    let pattern = ScopePattern::parse("entity").unwrap();
    assert!(pattern.matches_scope("entity"));
    assert!(pattern.matches_scope("entity.name"));
    assert!(pattern.matches_scope("entity.name.function"));
}

#[test]
fn test_wildcard_match() {
    let pattern = ScopePattern::parse("entity.*").unwrap();
    assert!(pattern.matches_scope("entity.name"));
    assert!(pattern.matches_scope("entity.name.function"));
    assert!(pattern.matches_scope("entity.type"));
    assert!(!pattern.matches_scope("keyword"));
}

#[test]
fn test_negative_match() {
    let selector = ScopeSelector::parse("keyword,-keyword.operator").unwrap();
    assert!(selector.matches("keyword.control"));
    assert!(!selector.matches("keyword.operator"));
}

#[test]
fn test_comma_separated_or() {
    let selector = ScopeSelector::parse("keyword,storage.type").unwrap();
    assert!(selector.matches("keyword"));
    assert!(selector.matches("storage.type"));
    assert!(selector.matches("storage.type.function"));
    assert!(!selector.matches("comment"));
}

#[test]
fn test_scope_matcher_convenience() {
    assert!(ScopeMatcher::matches("entity.name.function", "entity.name").unwrap());
    assert!(ScopeMatcher::matches("comment.line", "comment").unwrap());
    assert!(!ScopeMatcher::matches("string.quoted", "comment").unwrap());
}

#[test]
fn test_scope_resolver_specificity() {
    let rules = vec![
        FontRule { scope: "entity".to_owned(), font: spec("font-a") },
        FontRule { scope: "entity.name.function".to_owned(), font: spec("font-b") },
    ];
    let resolver = ScopeResolver::from_rules(rules);
    let result = resolver.resolve("entity.name.function").unwrap();
    assert_eq!(result.assignment.font.family, "font-b");
    assert_eq!(result.assignment.specificity, 3);
}

#[test]
fn test_scope_resolver_tiebreak_by_order() {
    let rules = vec![
        FontRule { scope: "keyword".to_owned(), font: spec("first") },
        FontRule { scope: "keyword".to_owned(), font: spec("second") },
    ];
    let resolver = ScopeResolver::from_rules(rules);
    let result = resolver.resolve("keyword").unwrap();
    assert_eq!(result.assignment.font.family, "first");
}

#[test]
fn test_scope_tree_insert_and_query() {
    let mut tree = ScopeTree::new();
    tree.insert("entity.name.function");
    tree.insert("entity.name.type");
    tree.insert("entity.name");
    tree.insert("keyword.control");

    assert!(tree.contains("entity.name.function"));
    assert!(tree.contains("entity.name.type"));
    assert!(tree.contains("entity.name"));
    assert!(tree.contains("keyword.control"));
    assert!(!tree.contains("comment"));

    assert!(tree.has_prefix("entity"));
    assert!(tree.has_prefix("entity.name"));
    assert!(!tree.has_prefix("string"));
}

#[test]
fn test_scope_tree_prefix_query() {
    let mut tree = ScopeTree::new();
    tree.insert("entity.name.function");
    tree.insert("entity.name.type");
    tree.insert("entity.other");

    let results = tree.query_prefix("entity.name");
    assert_eq!(results.len(), 2);
    assert!(results.contains(&"entity.name.function".to_owned()));
    assert!(results.contains(&"entity.name.type".to_owned()));
}

#[test]
fn test_scope_tree_len() {
    let mut tree = ScopeTree::new();
    assert!(tree.is_empty());

    tree.insert("entity.name");
    tree.insert("keyword");
    assert_eq!(tree.len(), 2);
}

#[test]
fn test_empty_pattern_error() {
    assert!(ScopePattern::parse("").is_err());
    assert!(ScopePattern::parse("  ").is_err());
    assert!(ScopePattern::parse("-").is_err());
    assert!(ScopeSelector::parse("").is_err());
}

#[test]
fn test_matches_any() {
    assert!(ScopeMatcher::matches_any("keyword.control", &["comment", "keyword"]).unwrap());
    assert!(!ScopeMatcher::matches_any("string.quoted", &["comment", "keyword"]).unwrap());
}

// A stored scope is found again; inserting it twice changes nothing.
#[test]
fn scope_tree_insert_is_idempotent() {
    let mut tree = ScopeTree::new();
    tree.insert("keyword.control");
    tree.insert("keyword.control");
    assert_eq!(tree.len(), 1);
    assert!(tree.contains("keyword.control"));
    assert!(!tree.contains("keyword"));
    assert!(tree.has_prefix("keyword"));
}

// Prefix queries list scopes in hierarchical order: a scope before those
// below it, siblings in code-point order.
#[test]
fn scope_tree_query_order() {
    let mut tree = ScopeTree::new();
    tree.insert("entity.name.type");
    tree.insert("entity.name");
    tree.insert("entity.name.function");
    tree.insert("entity.name.Zebra");
    tree.insert("entity.other");
    let results = tree.query_prefix("entity");
    assert_eq!(
        results,
        vec![
            "entity.name".to_owned(),
            "entity.name.Zebra".to_owned(),
            "entity.name.function".to_owned(),
            "entity.name.type".to_owned(),
            "entity.other".to_owned(),
        ]
    );
    assert!(tree.query_prefix("string").is_empty());
}

// After a sequence of inserts the tree answers for the distinct scopes
// inserted: its length counts them, and a prefix query lists the inserted
// scopes at or below the prefix, each once, in hierarchical order.
#[test]
fn scope_tree_answers_for_inserted_scopes() {
    let scopes = ["b.x", "a.y", "a", "a.y", "b", "a.y.z"];
    let mut tree = ScopeTree::new();
    for s in scopes {
        tree.insert(s);
    }
    assert_eq!(tree.len(), 5);
    assert_eq!(tree.query_prefix("a"), vec!["a".to_owned(), "a.y".to_owned(), "a.y.z".to_owned()]);
    assert_eq!(tree.query_prefix("b"), vec!["b".to_owned(), "b.x".to_owned()]);
    assert!(tree.has_prefix("a.y"));
    assert!(!tree.has_prefix("c"));
}

// An empty prefix names the scope with one empty segment.
#[test]
fn scope_tree_empty_prefix() {
    let mut tree = ScopeTree::new();
    tree.insert("");
    tree.insert(".a");
    assert_eq!(tree.query_prefix(""), vec!["".to_owned(), "a".to_owned()]);
}

#[test]
fn scope_error_messages() {
    assert_eq!(ScopeError::EmptyPattern.to_string(), "empty scope pattern");
    assert_eq!(
        ScopeError::InvalidPattern("x.".to_string()).to_string(),
        "invalid scope pattern: x."
    );
}

#[test]
fn scope_specificity_counts_literals() {
    assert_eq!(ScopePattern::parse("entity.*.function").unwrap().specificity(), 2);
    assert_eq!(ScopeSelector::parse("keyword,storage.type.function").unwrap().specificity(), 3);
}

#[test]
fn scope_resolver_counts_and_clears() {
    let mut resolver = ScopeResolver::new();
    resolver.add_rule(FontRule { scope: "comment".to_owned(), font: spec("C") });
    resolver.add_rule(FontRule { scope: "*".to_owned(), font: spec("D") });
    assert_eq!(resolver.rule_count(), 2);
    let all = resolver.resolve_all(&["comment.line", "variable"]);
    assert_eq!(all[0].as_ref().unwrap().assignment.font.family, "C");
    assert_eq!(all[0].as_ref().unwrap().rule_index, 0);
    assert_eq!(all[1].as_ref().unwrap().assignment.font.family, "D");
    resolver.clear();
    assert_eq!(resolver.rule_count(), 0);
    assert!(resolver.resolve("comment").is_none());
}
