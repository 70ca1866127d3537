use social_preview::canvas::{
    circle_mask, circular_crop, draw_coverage, draw_horizontal_line, fill_card_background, opaque_mask, stamp, Coverage,
};
use social_preview::shape::{card_cov, isqrt, RoundRect};
use social_preview::gradient::seed_from_digest;
use social_preview::pixel::Rgba;

#[test]
fn card_inside_is_flat_and_outside_is_gradient() {
    let g = seed_from_digest(&vec![0, 0, 0, 255, 255, 255, 0]);
    let px = fill_card_background(g, 10, 4, 65536, 0, RoundRect { x: 2, y: 1, w: 5, h: 2, radius: 0 });
    assert_eq!(px.len(), 40);
    assert_eq!(px[1 * 10 + 2], Rgba::new(5, 5, 5, 255));
    assert_eq!(px[0], Rgba::new(0, 0, 0, 255));
    assert_eq!(px[9], Rgba::new(230, 230, 230, 255));
    assert_eq!(px[3 * 10 + 5], Rgba::new(128, 128, 128, 255));
}

#[test]
fn circle_mask_of_four() {
    let m = circle_mask(4);
    assert_eq!(m.len(), 16);
    assert!(!m[0]);
    assert!(m[2 * 4 + 0]);
    assert!(m[1 * 4 + 1]);
    assert!(m[2 * 4 + 2]);
    assert!(m[3 * 4 + 3]);
}

#[test]
fn stamping_clips_and_masks() {
    let mut canvas = vec![Rgba::new(0, 0, 0, 255); 9];
    let red = Rgba::new(255, 0, 0, 255);
    let clear = Rgba::new(0, 255, 0, 0);
    let src = vec![red, clear, red, red];
    let mask = opaque_mask(&src);
    assert_eq!(mask, vec![true, false, true, true]);
    stamp(&mut canvas, 3, &src, 2, 2, 2, 1, &mask);
    assert_eq!(canvas[1 * 3 + 2], red);
    assert_eq!(canvas[2 * 3 + 2], red);
    assert_eq!(canvas[0], Rgba::new(0, 0, 0, 255));
    assert_eq!(canvas.len(), 9);
}

#[test]
fn coverage_blends_colour_channels() {
    let mut canvas = vec![Rgba::new(0, 0, 0, 200); 4];
    let samples = vec![
        Coverage { x: 1, y: 0, cov: 255 },
        Coverage { x: 0, y: 1, cov: 51 },
        Coverage { x: 0, y: 0, cov: 2 },
        Coverage { x: 5, y: 5, cov: 255 },
    ];
    draw_coverage(&mut canvas, 2, 2, &samples, Rgba::new(255, 100, 10, 255));
    assert_eq!(canvas[1], Rgba::new(255, 100, 10, 200));
    assert_eq!(canvas[2], Rgba::new(51, 20, 2, 200));
    assert_eq!(canvas[0], Rgba::new(0, 0, 0, 200));
}

#[test]
fn rounded_corners_are_anti_aliased() {
    let c = RoundRect { x: 0, y: 0, w: 10, h: 10, radius: 3 };
    assert_eq!(card_cov(c, 0, 0), 0);
    assert_eq!(card_cov(c, 1, 1), 255);
    assert_eq!(card_cov(c, 0, 1), 101);
    assert_eq!(card_cov(c, 5, 5), 255);
    assert_eq!(card_cov(c, 5, 0), 255);
    assert_eq!(card_cov(c, 10, 5), 0);
    assert_eq!(card_cov(c, 9, 9), card_cov(c, 1, 1));
}

#[test]
fn rounded_card_blends_over_gradient() {
    let g = seed_from_digest(&vec![255, 255, 255, 255, 255, 255, 0]);
    let card = RoundRect { x: 0, y: 0, w: 10, h: 10, radius: 3 };
    let px = fill_card_background(g, 10, 10, 65536, 0, card);
    assert_eq!(px[0], Rgba::new(255, 255, 255, 255));
    assert_eq!(px[11], Rgba::new(5, 5, 5, 255));
    assert_eq!(px[10], Rgba::new(155, 155, 155, 255));
}

#[test]
fn integer_square_roots() {
    assert_eq!(isqrt(0), 0);
    assert_eq!(isqrt(15), 3);
    assert_eq!(isqrt(16), 4);
    assert_eq!(isqrt(4398046511104), 2097152);
}

#[test]
fn crop_is_square_and_round() {
    let src: Vec<Rgba> = (0..6u8).map(|i| Rgba::new(i, 0, 0, 255)).collect();
    let out = circular_crop(&src, 2, 3);
    assert_eq!(out.len(), 4);
    assert_eq!(out[0], Rgba::new(0, 0, 0, 149));
    assert_eq!(out[3], Rgba::new(3, 0, 0, 255));
    assert_eq!(out[2].r, 2);
}

#[test]
fn horizontal_line_is_clipped() {
    let mut canvas = vec![Rgba::new(0, 0, 0, 255); 6];
    let grey = Rgba::new(50, 50, 50, 255);
    draw_horizontal_line(&mut canvas, 3, 2, -1, 1, 3, grey);
    assert_eq!(canvas[3], grey);
    assert_eq!(canvas[4], grey);
    assert_eq!(canvas[5], Rgba::new(0, 0, 0, 255));
    assert_eq!(canvas[0], Rgba::new(0, 0, 0, 255));
}
