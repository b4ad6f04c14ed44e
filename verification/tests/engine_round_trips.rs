use codemark::engine::bookmark::{BookmarkHealth, ResolutionMethod};
use codemark::engine::hash::content_hash;
use codemark::engine::heal::HealOptions;
use codemark::engine::health::should_auto_archive;
use codemark::parser::languages::Language;

#[test]
fn bookmark_health_round_trip() {
    for health in [
        BookmarkHealth::Active,
        BookmarkHealth::Drifted,
        BookmarkHealth::Stale,
        BookmarkHealth::Archived,
    ] {
        let s = health.as_str();
        let parsed: BookmarkHealth = s.parse().unwrap();
        assert_eq!(health, parsed);
    }
}

#[test]
fn resolution_method_round_trip() {
    for method in [
        ResolutionMethod::Exact,
        ResolutionMethod::Relaxed,
        ResolutionMethod::HashFallback,
        ResolutionMethod::Failed,
    ] {
        let s = method.as_str();
        let parsed: ResolutionMethod = s.parse().unwrap();
        assert_eq!(method, parsed);
    }
}

#[test]
fn hash_format() {
    let h = content_hash("fn hello() {}");
    assert!(h.starts_with("sha256:"));
    // sha256: prefix (7 chars) + 16 hex chars = 23
    assert_eq!(h.len(), 23);
}

#[test]
fn hash_stable_across_indentation() {
    let a = "fn hello() {\n    let x = 1;\n}";
    let b = "fn hello() {\n        let x = 1;\n}";
    assert_eq!(content_hash(a), content_hash(b));
}

#[test]
fn hash_stable_across_trailing_whitespace() {
    let a = "fn hello() {  \n    let x = 1;  \n}  ";
    let b = "fn hello() {\n    let x = 1;\n}";
    assert_eq!(content_hash(a), content_hash(b));
}

#[test]
fn hash_stable_across_blank_lines() {
    let a = "fn hello() {\n\n\n    let x = 1;\n}";
    let b = "fn hello() {\n\n    let x = 1;\n}";
    assert_eq!(content_hash(a), content_hash(b));
}

#[test]
fn hash_differs_for_different_content() {
    assert_ne!(content_hash("fn hello() {}"), content_hash("fn world() {}"));
}

#[test]
fn test_heal_options_default() {
    let options = HealOptions::default();
    assert!(!options.force);
    assert!(!options.auto_archive);
    assert!(!options.validate_only);
    assert_eq!(options.archive_after, 0);
}

#[test]
fn auto_archive_after_threshold() {
    let old_date = "2026-03-01T00:00:00Z";
    assert!(should_auto_archive(old_date, 7));
}

#[test]
fn no_auto_archive_before_threshold() {
    let recent = chrono::Utc::now().to_rfc3339();
    assert!(!should_auto_archive(&recent, 7));
}

#[test]
fn language_round_trip() {
    for (input, expected, display) in [
        ("swift", Language::Swift, "swift"),
        ("rust", Language::Rust, "rust"),
        ("rs", Language::Rust, "rust"),
        ("typescript", Language::TypeScript, "typescript"),
        ("ts", Language::TypeScript, "typescript"),
        ("tsx", Language::TypeScript, "typescript"),
        ("python", Language::Python, "python"),
        ("py", Language::Python, "python"),
    ] {
        let lang: Language = input.parse().unwrap();
        assert_eq!(lang, expected, "parsing '{input}'");
        assert_eq!(lang.name(), display);
    }
}
