use social_preview::og::{
    content_og_layout, generate_cache_key, key_from_digest, select_background, title_tier, web_og_layout, Background, TitleTier,
};

#[test]
fn short_title_on_notes_page() {
    let l = content_og_layout("Hello World", "notes/hello");
    assert_eq!(l.title_px, 96);
    assert_eq!(l.background, Background::Notes);
    assert_eq!((l.title_x, l.title_y), (100, 200));
    assert_eq!((l.caption_x, l.caption_y, l.caption_px), (100, 500, 36));
    assert_eq!((l.avatar_x, l.avatar_y, l.avatar_size), (1120, 550, 50));
    assert_eq!(l.key, generate_cache_key("Hello World", "notes/hello"));
}

#[test]
fn long_title_gets_smallest_tier() {
    let title = "abcdefghijklmnopqrstuvwxyz012345678";
    assert_eq!(title.len(), 35);
    assert_eq!(title_tier(title), TitleTier::Small);
    assert_eq!(content_og_layout(title, "blog/x").title_px, 72);
}

#[test]
fn tier_counts_characters() {
    let title = "ééééééééééééééééééé";
    assert_eq!(title.chars().count(), 19);
    assert!(title.len() > 30);
    assert_eq!(title_tier(title), TitleTier::Large);
}

#[test]
fn tier_edges() {
    assert_eq!(title_tier(&"a".repeat(20)), TitleTier::Large);
    assert_eq!(title_tier(&"a".repeat(21)), TitleTier::Medium);
    assert_eq!(title_tier(&"a".repeat(30)), TitleTier::Medium);
    assert_eq!(title_tier(&"a".repeat(31)), TitleTier::Small);
    assert_eq!(TitleTier::Medium.px(), 86);
}

#[test]
fn backgrounds_by_prefix() {
    let bg = |s: &str| select_background(&s.chars().collect());
    assert_eq!(bg("blog/post"), Background::Blog);
    assert_eq!(bg("journal"), Background::Journal);
    assert_eq!(bg("poems/a"), Background::Poems);
    assert_eq!(bg("notesy"), Background::Notes);
    assert_eq!(bg("misc/a"), Background::Notes);
    assert_eq!(bg(""), Background::Notes);
}

#[test]
fn cache_keys_separate_the_two_strings() {
    assert_eq!(generate_cache_key("a", "b"), generate_cache_key("a", "b"));
    assert_ne!(generate_cache_key("ab", "c"), generate_cache_key("a", "bc"));
    assert_ne!(generate_cache_key("a", "b"), generate_cache_key("b", "a"));
}

#[test]
fn web_layout() {
    let l = web_og_layout("Projects", "things I made");
    assert_eq!(l.background, Background::Others);
    assert_eq!((l.title_px, l.caption_px, l.caption_y), (120, 48, 320));
    assert_eq!((l.avatar_x, l.avatar_y, l.avatar_size), (970, 80, 150));
    assert_eq!(l.key, generate_cache_key("Projects", "things I made"));
}

#[test]
fn keys_read_little_endian() {
    assert_eq!(key_from_digest(&vec![1, 0, 0, 0, 0, 0, 0, 0, 9]), 1);
    assert_eq!(key_from_digest(&vec![0, 1, 0, 0, 0, 0, 0, 0]), 256);
    assert_eq!(key_from_digest(&vec![255; 8]), u64::MAX);
}

#[test]
fn caption_and_colours() {
    assert_eq!(social_preview::og::path_caption("notes/hello"), "/notes/hello");
    assert_eq!(social_preview::og::path_caption(""), "/");
    assert_eq!(social_preview::og::title_color().r, 255);
    assert_eq!(social_preview::og::caption_color().g, 240);
}
