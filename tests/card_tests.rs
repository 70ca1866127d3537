use social_preview::card::{calculate_tweet_height, counter_positions, media_block_height, plan_tweet_card, MediaPlacement};

#[test]
fn card_without_media_is_header_text_footer() {
    let text = 3 * 27;
    let h = calculate_tweet_height(text, None);
    assert_eq!(h, 80 + text + 85 + 20);
    assert_eq!(media_block_height(None), 0);
}

#[test]
fn media_block_scales_to_content_width() {
    assert_eq!(media_block_height(Some((1280, 720))), 370);
    assert_eq!(media_block_height(Some((100, 1000))), 410);
    assert_eq!(calculate_tweet_height(54, Some((1280, 720))), 80 + 54 + 370 + 85 + 20);
}

#[test]
fn plan_places_every_element() {
    let p = plan_tweet_card(54, None);
    assert_eq!(p.image_width, 700);
    assert_eq!(p.card_height, 239);
    assert_eq!(p.image_height, 279);
    assert_eq!((p.profile_x, p.profile_y), (30, 30));
    assert_eq!((p.name_x, p.name_y, p.handle_y), (100, 50, 65));
    assert_eq!((p.text_x, p.text_y), (30, 110));
    assert_eq!(p.media, None);
    assert_eq!(p.date_y, 110 + 54 + 15 + 10);
    assert_eq!(p.separator_y, p.date_y + 25);
    assert_eq!(p.metrics_y, p.separator_y + 20);
    assert!(p.show_date && p.show_separator && p.show_metrics);
}

#[test]
fn tall_media_is_capped() {
    let p = plan_tweet_card(27, Some((300, 1200)));
    assert_eq!(p.media, Some(MediaPlacement { x: 30 + (640 - 100) / 2, y: 110 + 27 + 15, width: 100, height: 400 }));
    assert_eq!(p.date_y, 110 + 27 + 15 + 400 + 15 + 10);
}

#[test]
fn counters_follow_icons() {
    assert_eq!(counter_positions(30, true), (51, 81, 106));
    assert_eq!(counter_positions(30, false), (30, 60, 85));
}
