use field_bobbin::dates::{display_writing_date, full_writing_date, is_iso_date};
use field_bobbin::posts::{render_writings_index, sort_posts_chronologically, PostSummary};
use field_bobbin::writing::writing_meta_value;

#[test]
fn extracts_writing_metadata_regardless_of_field_order() {
    let meta = r#"{inLanguage="en" datePublished="2026-06-12" slug="example"}"#;

    assert_eq!(writing_meta_value(meta, "slug"), Some("example"));
    assert_eq!(
        writing_meta_value(meta, "datePublished"),
        Some("2026-06-12")
    );
}

#[test]
fn sorts_posts_newest_first_then_by_title() {
    let mut posts = vec![
        PostSummary {
            slug: "older".to_string(),
            title: "Older".to_string(),
            date_published: "2025-01-01".to_string(),
        },
        PostSummary {
            slug: "newer-b".to_string(),
            title: "B".to_string(),
            date_published: "2026-01-01".to_string(),
        },
        PostSummary {
            slug: "newer-a".to_string(),
            title: "A".to_string(),
            date_published: "2026-01-01".to_string(),
        },
    ];

    sort_posts_chronologically(&mut posts);

    assert_eq!(
        posts
            .iter()
            .map(|post| post.slug.as_str())
            .collect::<Vec<_>>(),
        ["newer-a", "newer-b", "older"]
    );
}

#[test]
fn validates_iso_date_shape() {
    assert!(is_iso_date("2026-06-12"));
    assert!(is_iso_date("2024-02-29"));
    assert!(!is_iso_date("2026-6-12"));
    assert!(!is_iso_date("June 12, 2026"));
    assert!(!is_iso_date("2026-02-29"));
    assert!(!is_iso_date("2026-13-01"));
}

#[test]
fn displays_iso_dates_as_human_readable_dates() {
    assert_eq!(display_writing_date("2026-06-12"), "Jun 2026");
    assert_eq!(display_writing_date("2026-05-01"), "May 2026");
    assert_eq!(full_writing_date("2026-06-12"), "June 12, 2026");
    assert_eq!(full_writing_date("2026-05-01"), "May 1, 2026");
}

#[test]
fn renders_published_dates_in_writings_index() {
    let html = render_writings_index(&[PostSummary {
        slug: "example".to_string(),
        title: "Example".to_string(),
        date_published: "2026-06-12".to_string(),
    }]);

    assert!(
        html.contains(
            r#"<time class="writing-date" datetime="2026-06-12" aria-label="June 12, 2026" title="June 12, 2026">Jun 2026</time>"#
        )
    );
}
