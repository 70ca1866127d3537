use social_preview::pipeline::{fallback_avatar_url, next, start, tweet_url, Action, Event, Purpose, RenderError, Stage};
use social_preview::tweet::{PhotoField, RawTweet};

fn record(photo: PhotoField) -> RawTweet {
    RawTweet {
        text: Some("hello".to_string()),
        created_at: Some("2024-01-01T00:00:00Z".to_string()),
        name: Some("Name".to_string()),
        screen_name: Some("handle".to_string()),
        profile_image_url: Some("https://img/p_normal.png".to_string()),
        favorite_count: Some(1),
        conversation_count: Some(2),
        first_photo: photo,
    }
}

fn fetch_of(a: &Action) -> Option<(String, u64, Purpose)> {
    match a {
        Action::Fetch { url, timeout_secs, purpose } => Some((url.clone(), *timeout_secs, *purpose)),
        _ => None,
    }
}

#[test]
fn addresses() {
    assert_eq!(tweet_url("123"), "https://react-tweet.vercel.app/api/tweet/123");
    assert_eq!(fallback_avatar_url("bob"), "https://avatar.vercel.sh/bob");
}

#[test]
fn profile_falls_back_to_generated_avatar() {
    let (s, a) = start("42");
    assert_eq!(fetch_of(&a), Some(("https://react-tweet.vercel.app/api/tweet/42".to_string(), 10, Purpose::Tweet)));
    let (s, a) = next(s, Event::Record(Some(record(PhotoField::NoPhotos))));
    assert_eq!(fetch_of(&a), Some(("https://img/p.png".to_string(), 5, Purpose::Profile)));
    let (s, a) = next(s, Event::Unreachable);
    assert_eq!(fetch_of(&a), Some(("https://avatar.vercel.sh/handle".to_string(), 5, Purpose::Profile)));
    let (s, a) = next(s, Event::Image);
    assert!(matches!(a, Action::Render));
    assert!(matches!(s, Stage::Ready(_, false)));
}

#[test]
fn media_is_optional() {
    let (s, _) = start("7");
    let (s, _) = next(s, Event::Record(Some(record(PhotoField::Url("https://img/m.jpg".to_string())))));
    let (s, a) = next(s, Event::Image);
    assert_eq!(fetch_of(&a), Some(("https://img/m.jpg".to_string(), 10, Purpose::Media)));
    let (s2, a2) = next(s.clone(), Event::Unreachable);
    assert!(matches!(a2, Action::Render));
    assert!(matches!(s2, Stage::Ready(_, false)));
    let (s3, _) = next(s, Event::Image);
    assert!(matches!(s3, Stage::Ready(_, true)));
}

#[test]
fn failures_are_typed() {
    let (s, _) = start("1");
    let (_, a) = next(s.clone(), Event::Unreachable);
    assert!(matches!(a, Action::Fail(RenderError::Fetch)));
    let (_, a) = next(s.clone(), Event::Record(None));
    assert!(matches!(a, Action::Fail(RenderError::Parse)));
    let mut bad = record(PhotoField::NoPhotos);
    bad.screen_name = None;
    let (_, a) = next(s.clone(), Event::Record(Some(bad)));
    assert!(matches!(a, Action::Fail(RenderError::Parse)));
    let (s, _) = next(s, Event::Record(Some(record(PhotoField::NoPhotos))));
    let (s, _) = next(s, Event::Undecodable);
    let (s, a) = next(s, Event::Unreachable);
    assert!(matches!(a, Action::Fail(RenderError::Fetch)));
    let (_, a) = next(s, Event::Image);
    assert!(matches!(a, Action::Fail(RenderError::Fetch)));
}

#[test]
fn undecodable_fallback_is_a_decode_error() {
    let (s, _) = start("9");
    let (s, _) = next(s, Event::Record(Some(record(PhotoField::NoPhotos))));
    let (s, _) = next(s, Event::Unreachable);
    let (s, a) = next(s, Event::Undecodable);
    assert!(matches!(a, Action::Fail(RenderError::Decode)));
    assert!(matches!(s, Stage::Failed(RenderError::Decode)));
}
