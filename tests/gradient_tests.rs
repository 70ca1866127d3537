use social_preview::gradient::{gradient_color, gradient_seed, interpolate, max_proj, min_proj, seed_from_digest};

#[test]
fn seed_reads_sha256_of_id() {
    let g = gradient_seed("abc");
    assert_eq!(g.color1, (0xba, 0x78, 0x16));
    assert_eq!(g.color2, (0xbf, 0x8f, 0x01));
    assert_eq!(g.angle, 0xcf);
}

#[test]
fn seed_is_the_same_for_the_same_id() {
    let a = gradient_seed("1790000000000000000");
    let b = gradient_seed("1790000000000000000");
    assert_eq!(a, b);
    assert_ne!(gradient_seed("1"), gradient_seed("2"));
}

#[test]
fn seed_from_digest_bytes() {
    let g = seed_from_digest(&vec![1, 2, 3, 4, 5, 6, 7, 8]);
    assert_eq!((g.color1, g.color2, g.angle), ((1, 2, 3), (4, 5, 6), 7));
}

#[test]
fn gradient_ends_are_exact() {
    let g = seed_from_digest(&vec![10, 20, 30, 200, 100, 0, 0]);
    let (w, h) = (700, 300);
    let (vx, vy) = (46341, 46341);
    assert_eq!(min_proj(w, h, vx, vy), 0);
    assert_eq!(max_proj(w, h, vx, vy), 1000 * 46341);
    assert_eq!(gradient_color(g, 0, 0, w, h, vx, vy), (10, 20, 30));
    assert_eq!(gradient_color(g, w, h, w, h, vx, vy), (200, 100, 0));
}

#[test]
fn gradient_with_negative_direction() {
    let g = seed_from_digest(&vec![0, 0, 0, 255, 255, 255, 0]);
    let (w, h) = (100, 50);
    assert_eq!(min_proj(w, h, -65536, 0), -100 * 65536);
    assert_eq!(gradient_color(g, w, 0, w, h, -65536, 0), (0, 0, 0));
    assert_eq!(gradient_color(g, 0, 0, w, h, -65536, 0), (255, 255, 255));
    assert_eq!(gradient_color(g, 50, 10, w, h, -65536, 0), (128, 128, 128));
}

#[test]
fn interpolation_rounds_to_nearest() {
    assert_eq!(interpolate((0, 100, 255), (255, 0, 255), 1, 3), (85, 67, 255));
    assert_eq!(interpolate((7, 7, 7), (9, 9, 9), 0, 0), (7, 7, 7));
}
