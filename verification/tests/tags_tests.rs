use soulbook::models::{CreateTagRequest, UpdateTagRequest};
use soulbook::tags::{record_id_parts, DocumentTag, Tag};

#[test]
fn tag_slugs_join_words_with_single_dashes() {
    assert_eq!(Tag::generate_slug("Hello, World!"), "hello-world");
    assert_eq!(Tag::generate_slug("--Rust  &  Verus--"), "rust-verus");
    assert_eq!(Tag::generate_slug("设计 系统"), "设计-系统");
    assert_eq!(Tag::generate_slug("!!!"), "");
    for name in ["a--b", " x ", "Ünïcödé Tag", "a_b"] {
        let slug = Tag::generate_slug(name);
        assert!(!slug.starts_with('-') && !slug.ends_with('-'));
        assert!(!slug.contains("--"));
    }
}

#[test]
fn new_tags_start_unused() {
    let t = Tag::new("Design".to_string(), "#6366f1".to_string(), "user-1".to_string());
    assert_eq!(t.slug, "design");
    assert_eq!(t.usage_count, 0);
    assert!(t.id.is_none() && t.description.is_none() && t.space_id.is_none());
    let t = t
        .with_description("desc".to_string())
        .with_space(Some("space:space123".to_string()));
    assert_eq!(t.description.as_deref(), Some("desc"));
    assert_eq!(t.space_id.as_deref(), Some("space:space123"));
    let d = DocumentTag::new("document:1".to_string(), "tag:2".to_string(), "u".to_string());
    assert!(d.id.is_none());
    assert_eq!(d.tag_id, "tag:2");
}

#[test]
fn usage_count_round_trip_never_below_zero() {
    let mut t = Tag::new("x".to_string(), "#000000".to_string(), "u".to_string());
    t.increment_usage();
    t.increment_usage();
    assert_eq!(t.usage_count, 2);
    t.decrement_usage();
    assert_eq!(t.usage_count, 1);
    t.decrement_usage();
    t.decrement_usage();
    assert_eq!(t.usage_count, 0);
}

#[test]
fn splits_string_record_ids() {
    assert_eq!(
        record_id_parts("tag:abc123"),
        Some(("tag".to_string(), "abc123".to_string()))
    );
    assert_eq!(
        record_id_parts("space:⟨space123⟩"),
        Some(("space".to_string(), "space123".to_string()))
    );
    assert_eq!(
        record_id_parts("a:b:c"),
        Some(("a".to_string(), "b:c".to_string()))
    );
    assert_eq!(record_id_parts("nocolon"), None);
}

#[test]
fn tag_requests_check_lengths() {
    let ok = CreateTagRequest {
        name: "Design".to_string(),
        description: None,
        color: "#6366f1".to_string(),
        space_id: None,
    };
    assert!(ok.validate().is_ok());
    let bad = CreateTagRequest {
        name: String::new(),
        description: Some("d".repeat(201)),
        color: "#12".to_string(),
        space_id: None,
    };
    let errors = bad.validate().unwrap_err();
    let fields: Vec<&str> = errors.iter().map(|e| e.field.as_str()).collect();
    assert_eq!(fields, vec!["name", "description", "color"]);
    assert!(errors.iter().all(|e| e.message == "length"));
    let update = UpdateTagRequest {
        name: None,
        description: None,
        color: Some("#12345678".to_string()),
    };
    let errors = update.validate().unwrap_err();
    assert_eq!(errors.len(), 1);
    assert_eq!(errors[0].field, "color");
    assert!(UpdateTagRequest {
        name: Some("n".to_string()),
        description: None,
        color: None
    }
    .validate()
    .is_ok());
}

fn assert_rfc3339_utc(s: &str) {
    let c: Vec<char> = s.chars().collect();
    let t = c.iter().position(|&ch| ch == 'T').expect(s);
    assert!(t >= 10, "{s}");
    assert_eq!(c[t - 6], '-', "{s}");
    assert_eq!(c[t - 3], '-', "{s}");
    assert_eq!(c[t + 3], ':', "{s}");
    assert_eq!(c[t + 6], ':', "{s}");
    assert!(s.ends_with("+00:00"), "{s}");
    let fraction = c.len() - 6 - (t + 9);
    assert!([0, 4, 7, 10].contains(&fraction), "{s}");
    if fraction > 0 {
        assert_eq!(c[t + 9], '.', "{s}");
    }
}

#[test]
fn new_tags_carry_rfc3339_utc_times() {
    let t = Tag::new("Design".to_string(), "#6366f1".to_string(), "user-1".to_string());
    assert_rfc3339_utc(&t.created_at);
    assert_rfc3339_utc(&t.updated_at);
    let d = DocumentTag::new("document:1".to_string(), "tag:2".to_string(), "u".to_string());
    assert_rfc3339_utc(&d.tagged_at);
}
