use social_preview::text::{clean_text, replace_chars, unescape_newlines};
use social_preview::tweet::{parse_tweet_data, relative_age, Age, PhotoField, RawTweet};

#[test]
fn escaped_newlines_become_real() {
    assert_eq!(unescape_newlines("a\\nb"), "a\nb");
    assert_eq!(unescape_newlines("x\\r\\ny"), "x\ny");
    assert_eq!(unescape_newlines("a\\r\\n\\r\\nb"), "a\n\nb");
    assert_eq!(unescape_newlines("p\\rq"), "p\nq");
    assert_eq!(unescape_newlines("plain"), "plain");
}

#[test]
fn replace_scans_left_to_right() {
    let s: Vec<char> = "aaa".chars().collect();
    let r = replace_chars(&s, &['a', 'a'], &['b']);
    assert_eq!(r.iter().collect::<String>(), "ba");
}

#[test]
fn display_names_lose_emoji() {
    assert_eq!(clean_text("Hi 😀 there!"), "Hi  there");
    assert_eq!(clean_text("@user_1 (dev)"), "@user_1 (dev)");
}

fn record() -> RawTweet {
    RawTweet {
        text: Some("a &amp; b\\nc".to_string()),
        created_at: Some("2024-01-01T00:00:00Z".to_string()),
        name: Some("Name".to_string()),
        screen_name: Some("handle".to_string()),
        profile_image_url: Some("https://img/x_normal.jpg".to_string()),
        favorite_count: Some(12),
        conversation_count: None,
        first_photo: PhotoField::NoPhotos,
    }
}

#[test]
fn complete_record_parses() {
    let t = parse_tweet_data(record()).unwrap();
    assert_eq!(t.tweet_text, "a & b\nc");
    assert_eq!(t.created_at, 1704067200);
    assert_eq!(t.profile_image_url, "https://img/x.jpg");
    assert_eq!(t.favorite_count, 12);
    assert_eq!(t.reply_count, 0);
    assert_eq!(t.media_url, None);
}

#[test]
fn photo_url_and_replies_are_kept() {
    let mut r = record();
    r.first_photo = PhotoField::Url("https://img/p.jpg".to_string());
    r.conversation_count = Some(4);
    let t = parse_tweet_data(r).unwrap();
    assert_eq!(t.media_url, Some("https://img/p.jpg".to_string()));
    assert_eq!(t.reply_count, 4);
}

#[test]
fn incomplete_records_fail() {
    let mut r = record();
    r.favorite_count = None;
    assert!(parse_tweet_data(r).is_none());
    let mut r = record();
    r.first_photo = PhotoField::Missing;
    assert_eq!(parse_tweet_data(r).unwrap().media_url, None);
    let mut r = record();
    r.created_at = Some("yesterday".to_string());
    assert!(parse_tweet_data(r).is_none());
    let mut r = record();
    r.first_photo = PhotoField::NotText;
    assert_eq!(parse_tweet_data(r).unwrap().media_url, None);
}

#[test]
fn ages_pick_the_largest_unit() {
    let now = 1_700_000_000;
    assert_eq!(relative_age(now, now - 400 * 86400), Age::Years(1));
    assert_eq!(relative_age(now, now - 45 * 86400), Age::Months(1));
    assert_eq!(relative_age(now, now - 3 * 86400), Age::Days(3));
    assert_eq!(relative_age(now, now - 2 * 3600 - 5), Age::Hours(2));
    assert_eq!(relative_age(now, now - 300), Age::Minutes(5));
    assert_eq!(relative_age(now, now - 30), Age::Now);
    assert_eq!(relative_age(now, now + 30), Age::Now);
}
