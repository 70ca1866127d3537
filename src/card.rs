use vstd::prelude::*;
use crate::shape::{RoundRect, round_rect_ok};
use crate::pixel::Rgba;
use crate::layout::text_rows;

verus! {

/// Width of a tweet card image.
pub const CARD_IMAGE_WIDTH: i64 = 700;

/// Margin between the image edge and the card.
pub const CARD_MARGIN: i64 = 20;

/// Width of the card itself.
pub const CARD_WIDTH: i64 = 660;

/// Padding inside the card.
pub const CARD_PADDING: i64 = 10;

/// Width of the text column inside the card.
pub const CONTENT_WIDTH: i64 = 640;

/// Side of the square profile photo.
pub const PROFILE_SIZE: i64 = 60;

/// Height of the header block: the profile photo and its padding.
pub const HEADER_HEIGHT: i64 = 80;

/// Height of the footer block: date, separator and counters.
pub const FOOTER_HEIGHT: i64 = 85;

/// Radius of the card's corners.
pub const CARD_RADIUS: i64 = 16;

/// Side of the like and reply icons.
pub const ICON_SIZE: i64 = 16;

/// Pixel size of the author's display name.
pub const NAME_PX: u32 = 16;

/// Pixel size of the handle, the date and the counts.
pub const DETAIL_PX: u32 = 14;

/// Pixel size of the tweet's text.
pub const BODY_PX: u32 = 18;

/// Colour of the display name and the tweet's text.
pub fn text_color() -> (c: Rgba)
    ensures
        c == (Rgba { r: 238, g: 238, b: 238, a: 255 }),
{
    Rgba { r: 238, g: 238, b: 238, a: 255 }
}

/// Colour of the handle, the date and the counts.
pub fn detail_color() -> (c: Rgba)
    ensures
        c == (Rgba { r: 100, g: 100, b: 100, a: 255 }),
{
    Rgba { r: 100, g: 100, b: 100, a: 255 }
}

/// Colour of the separator line.
pub fn separator_color() -> (c: Rgba)
    ensures
        c == (Rgba { r: 50, g: 50, b: 50, a: 255 }),
{
    Rgba { r: 50, g: 50, b: 50, a: 255 }
}

/// Tallest media block.
pub const MAX_MEDIA_HEIGHT: i64 = 400;

/// Largest side of a media image that is laid out.
pub const MAX_MEDIA_SIDE: u32 = 1048576;

/// Largest text height, in pixels, that a card is laid out for.
pub const MAX_TEXT_HEIGHT: i64 = 1099511627776;

/// Height of a media image of `w`×`h` pixels scaled to the content width,
/// rounded to the nearest pixel.
pub open spec fn scaled_media_height(w: int, h: int) -> int {
    (2 * CONTENT_WIDTH * h + w) / (2 * w)
}

/// Room the media block takes: the scaled height capped at the maximum, and a gap.
pub open spec fn spec_media_block(media: Option<(u32, u32)>) -> int {
    match media {
        None => 0,
        Some(d) => {
            let s = scaled_media_height(d.0 as int, d.1 as int);
            (if s < MAX_MEDIA_HEIGHT { s } else { MAX_MEDIA_HEIGHT as int }) + 10
        },
    }
}

pub open spec fn media_ok(media: Option<(u32, u32)>) -> bool {
    match media {
        None => true,
        Some(d) => 0 < d.0 <= MAX_MEDIA_SIDE && 0 < d.1 <= MAX_MEDIA_SIDE,
    }
}

/// Height of the card: header, text, media block, footer and padding.
pub open spec fn spec_card_height(text_height: int, media: Option<(u32, u32)>) -> int {
    HEADER_HEIGHT + text_height + spec_media_block(media) + FOOTER_HEIGHT + 2 * CARD_PADDING
}

fn scale_media_height(w: u32, h: u32) -> (r: i64)
    requires
        0 < w <= MAX_MEDIA_SIDE,
        0 < h <= MAX_MEDIA_SIDE,
    ensures
        r == scaled_media_height(w as int, h as int),
        0 <= r,
{
    let w64 = w as i64;
    let h64 = h as i64;
    assert(0 <= 2 * 640 * h64 + w64 <= 2 * 640 * 1048576 + 1048576) by (nonlinear_arith)
        requires 0 < h64 <= 1048576, 0 < w64 <= 1048576;
    (2 * CONTENT_WIDTH * h64 + w64) / (2 * w64)
}

/// Room the media block takes in the card (none without media).
pub fn media_block_height(media: Option<(u32, u32)>) -> (r: i64)
    requires
        media_ok(media),
    ensures
        r == spec_media_block(media),
        0 <= r <= MAX_MEDIA_HEIGHT + 10,
{
    match media {
        None => 0,
        Some((w, h)) => {
            let s = scale_media_height(w, h);
            (if s < MAX_MEDIA_HEIGHT { s } else { MAX_MEDIA_HEIGHT }) + 10
        },
    }
}

/// Height of a tweet card whose wrapped text takes `text_height` pixels,
/// with the dimensions of its media image, if it has one.
pub fn calculate_tweet_height(text_height: i64, media: Option<(u32, u32)>) -> (h: i64)
    requires
        0 <= text_height <= MAX_TEXT_HEIGHT,
        media_ok(media),
    ensures
        h == spec_card_height(text_height as int, media),
        media is None ==> h == HEADER_HEIGHT + text_height + FOOTER_HEIGHT + 2 * CARD_PADDING,
{
    HEADER_HEIGHT + text_height + media_block_height(media) + FOOTER_HEIGHT + 2 * CARD_PADDING
}

/// Where a media image is drawn, and at what size.
#[derive(Clone, Copy, Debug, PartialEq, Eq, Structural)]
pub struct MediaPlacement {
    pub x: i64,
    pub y: i64,
    pub width: i64,
    pub height: i64,
}

/// Positions of every element of a tweet card.
#[derive(Clone, Copy, Debug, PartialEq, Eq, Structural)]
pub struct CardPlan {
    pub image_width: i64,
    pub image_height: i64,
    pub card_height: i64,
    /// The card itself, inside the image's margin.
    pub card: RoundRect,
    pub profile_x: i64,
    pub profile_y: i64,
    pub name_x: i64,
    pub name_y: i64,
    pub handle_y: i64,
    pub text_x: i64,
    pub text_y: i64,
    pub media: Option<MediaPlacement>,
    pub date_y: i64,
    pub show_date: bool,
    pub separator_y: i64,
    pub show_separator: bool,
    pub metrics_y: i64,
    pub show_metrics: bool,
    /// Top of the icons and counts of the counter row.
    pub counters_y: i64,
}

/// Size at which a media image of `w`×`h` is drawn: the content width at
/// its aspect ratio, or, where that is taller than the maximum, the maximum
/// height and the width that keeps the ratio (rounded down).
pub open spec fn spec_media_size(w: int, h: int) -> (int, int) {
    let s = scaled_media_height(w, h);
    if s > MAX_MEDIA_HEIGHT {
        ((MAX_MEDIA_HEIGHT * w) / h, MAX_MEDIA_HEIGHT as int)
    } else {
        (CONTENT_WIDTH as int, s)
    }
}

pub open spec fn spec_plan(text_height: int, media: Option<(u32, u32)>) -> CardPlan {
    let card_h = spec_card_height(text_height, media);
    let total = card_h + 2 * CARD_MARGIN;
    let limit = total - CARD_MARGIN;
    let text_y = CARD_MARGIN + CARD_PADDING + PROFILE_SIZE + 20;
    let after_text = text_y + text_height + 15;
    let placed = match media {
        None => None,
        Some(d) => {
            let sz = spec_media_size(d.0 as int, d.1 as int);
            if after_text + sz.1 <= limit {
                Some(MediaPlacement {
                    x: (CARD_MARGIN + CARD_PADDING + (CONTENT_WIDTH - sz.0) / 2) as i64,
                    y: after_text as i64,
                    width: sz.0 as i64,
                    height: sz.1 as i64,
                })
            } else {
                None
            }
        },
    };
    let cur = match placed {
        None => after_text,
        Some(m) => after_text + m.height + 15,
    };
    let date_y = cur + 10;
    let separator_y = date_y + 25;
    let metrics_y = separator_y + 20;
    CardPlan {
        image_width: CARD_IMAGE_WIDTH,
        image_height: total as i64,
        card_height: card_h as i64,
        card: RoundRect { x: CARD_MARGIN, y: CARD_MARGIN, w: CARD_WIDTH, h: card_h as i64, radius: CARD_RADIUS },
        profile_x: (CARD_MARGIN + CARD_PADDING) as i64,
        profile_y: (CARD_MARGIN + CARD_PADDING) as i64,
        name_x: (CARD_MARGIN + CARD_PADDING + PROFILE_SIZE + 10) as i64,
        name_y: (CARD_MARGIN + CARD_PADDING + 20) as i64,
        handle_y: (CARD_MARGIN + CARD_PADDING + 35) as i64,
        text_x: (CARD_MARGIN + CARD_PADDING) as i64,
        text_y: text_y as i64,
        media: placed,
        date_y: date_y as i64,
        show_date: date_y < limit,
        separator_y: separator_y as i64,
        show_separator: separator_y < limit,
        metrics_y: metrics_y as i64,
        show_metrics: metrics_y < limit,
        counters_y: (metrics_y - ICON_SIZE / 2) as i64,
    }
}

fn media_size(w: u32, h: u32) -> (r: (i64, i64))
    requires
        0 < w <= MAX_MEDIA_SIDE,
        0 < h <= MAX_MEDIA_SIDE,
    ensures
        r.0 == spec_media_size(w as int, h as int).0,
        r.1 == spec_media_size(w as int, h as int).1,
        0 <= r.0 <= CONTENT_WIDTH,
        0 <= r.1 <= MAX_MEDIA_HEIGHT,
{
    let s = scale_media_height(w, h);
    if s > MAX_MEDIA_HEIGHT {
        let w64 = w as i64;
        let h64 = h as i64;
        proof {
            let wi = w as int;
            let hi = h as int;
            assert(0 <= 400 * wi <= 400 * 1048576) by (nonlinear_arith)
                requires 0 < wi <= 1048576;
            // a scaled height above the maximum means 400 * w < 640 * h
            assert(2 * 640 * hi + wi >= 401 * (2 * wi)) by (nonlinear_arith)
                requires (2 * 640 * hi + wi) / (2 * wi) > 400, 0 < wi;
            assert((400 * wi) / hi <= 640) by (nonlinear_arith)
                requires 2 * 640 * hi + wi >= 401 * (2 * wi), 0 < wi, 0 < hi;
        }
        ((MAX_MEDIA_HEIGHT * w64) / h64, MAX_MEDIA_HEIGHT)
    } else {
        (CONTENT_WIDTH, s)
    }
}

/// Lays out a tweet card whose wrapped text takes `text_height` pixels,
/// with the dimensions of its media image, if it has one.
pub fn plan_tweet_card(text_height: i64, media: Option<(u32, u32)>) -> (p: CardPlan)
    requires
        0 <= text_height <= MAX_TEXT_HEIGHT,
        media_ok(media),
    ensures
        p == spec_plan(text_height as int, media),
        text_height <= 4000000 ==> round_rect_ok(p.card),
{
    let card_h = calculate_tweet_height(text_height, media);
    let total = card_h + 2 * CARD_MARGIN;
    let limit = total - CARD_MARGIN;
    let text_y = CARD_MARGIN + CARD_PADDING + PROFILE_SIZE + 20;
    let after_text = text_y + text_height + 15;
    let placed = match media {
        None => None,
        Some((w, h)) => {
            let (fw, fh) = media_size(w, h);
            if after_text + fh <= limit {
                Some(MediaPlacement {
                    x: CARD_MARGIN + CARD_PADDING + (CONTENT_WIDTH - fw) / 2,
                    y: after_text,
                    width: fw,
                    height: fh,
                })
            } else {
                None
            }
        },
    };
    let cur = match placed {
        None => after_text,
        Some(m) => after_text + m.height + 15,
    };
    let date_y = cur + 10;
    let separator_y = date_y + 25;
    let metrics_y = separator_y + 20;
    CardPlan {
        image_width: CARD_IMAGE_WIDTH,
        image_height: total,
        card_height: card_h,
        card: RoundRect { x: CARD_MARGIN, y: CARD_MARGIN, w: CARD_WIDTH, h: card_h, radius: CARD_RADIUS },
        profile_x: CARD_MARGIN + CARD_PADDING,
        profile_y: CARD_MARGIN + CARD_PADDING,
        name_x: CARD_MARGIN + CARD_PADDING + PROFILE_SIZE + 10,
        name_y: CARD_MARGIN + CARD_PADDING + 20,
        handle_y: CARD_MARGIN + CARD_PADDING + 35,
        text_x: CARD_MARGIN + CARD_PADDING,
        text_y,
        media: placed,
        date_y,
        show_date: date_y < limit,
        separator_y,
        show_separator: separator_y < limit,
        metrics_y,
        show_metrics: metrics_y < limit,
        counters_y: metrics_y - ICON_SIZE / 2,
    }
}


/// Horizontal positions in the counter row: the like count's text, the
/// reply icon and the reply count's text. The like count follows its icon
/// when the icon could be drawn.
pub fn counter_positions(x: i64, has_like_icon: bool) -> (r: (i64, i64, i64))
    requires
        -MAX_TEXT_HEIGHT <= x <= MAX_TEXT_HEIGHT,
    ensures
        r.0 == (if has_like_icon { x + ICON_SIZE + 5 } else { x as int }),
        r.1 == r.0 + 30,
        r.2 == r.1 + 25,
{
    let likes_x = if has_like_icon { x + ICON_SIZE + 5 } else { x };
    (likes_x, likes_x + 30, likes_x + 55)
}

/// The text part of a card's measured height is exactly the vertical
/// advance of drawing its wrapped text from any `y`: one pitch per row of
/// the same wrapping; without media nothing else is added.
pub proof fn lemma_card_text_matches_drawing(s: Seq<char>, adv: Seq<i64>, kern: Seq<i64>, space: int, max: int, pitch: int, y: int, media: Option<(u32, u32)>)
    ensures
        ({
            let n = text_rows(s, adv, kern, space, max).len() as int;
            &&& spec_card_height(n * pitch, media) - (HEADER_HEIGHT + FOOTER_HEIGHT + 2 * CARD_PADDING
                + spec_media_block(media)) == (y + n * pitch) - y
            &&& media is None ==> spec_media_block(media) == 0
        }),
{
}

} // verus!
