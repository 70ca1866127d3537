use social_preview::layout::{
    line_pitch, measure_span, pack_words, pen_positions, split_lines, split_words, wrap_text, Row,
};

fn unit_metrics(text: &str) -> (Vec<char>, Vec<i64>, Vec<i64>) {
    let chars: Vec<char> = text.chars().collect();
    let adv = vec![64i64; chars.len()];
    let kern = vec![0i64; chars.len()];
    (chars, adv, kern)
}

fn row_text(chars: &[char], words: &[(usize, usize)], row: &Row) -> String {
    let parts: Vec<String> = (row.first..row.end)
        .map(|w| chars[words[w].0..words[w].1].iter().collect())
        .collect();
    parts.join(" ")
}

#[test]
fn wrapped_rows_stay_within_width() {
    let (chars, adv, kern) = unit_metrics("hello world foo bar baz qux");
    let max = 11 * 64;
    let t = wrap_text(&chars, &adv, &kern, 64, max);
    for r in &t.rows {
        if r.end - r.first >= 2 {
            assert!(r.width <= max);
        }
    }
    let lines: Vec<String> = t.rows.iter().map(|r| row_text(&chars, &t.words, r)).collect();
    assert_eq!(lines, vec!["hello world", "foo bar baz", "qux"]);
}

#[test]
fn long_word_keeps_its_own_row() {
    let (chars, adv, kern) = unit_metrics("a abcdefghijklmnop b");
    let t = wrap_text(&chars, &adv, &kern, 64, 5 * 64);
    let lines: Vec<String> = t.rows.iter().map(|r| row_text(&chars, &t.words, r)).collect();
    assert_eq!(lines, vec!["a", "abcdefghijklmnop", "b"]);
    assert_eq!(t.rows[1].width, 16 * 64);
    assert_eq!(t.rows[1].end - t.rows[1].first, 1);
}

#[test]
fn blank_lines_keep_a_row() {
    let (chars, adv, kern) = unit_metrics("one\n\n   \ntwo");
    let t = wrap_text(&chars, &adv, &kern, 64, 100 * 64);
    assert_eq!(t.rows.len(), 4);
    assert_eq!(t.rows[1].first, t.rows[1].end);
    assert_eq!(t.rows[2].width, 0);
    assert_eq!(t.words, vec![(0, 3), (9, 12)]);
}

#[test]
fn empty_text_is_one_blank_row() {
    let (chars, adv, kern) = unit_metrics("");
    let t = wrap_text(&chars, &adv, &kern, 64, 640);
    assert_eq!(t.row_count(), 1);
    assert_eq!(t.rows[0], Row { first: 0, end: 0, width: 0 });
}

#[test]
fn measured_height_matches_drawn_rows() {
    let (chars, adv, kern) = unit_metrics("the quick brown fox jumps over the lazy dog\nagain");
    let t = wrap_text(&chars, &adv, &kern, 64, 12 * 64);
    let pitch = line_pitch(18 * 64);
    assert_eq!(pitch, 27);
    assert_eq!(line_pitch(11 * 64), 17);
    let y = 110;
    let h = t.height(pitch);
    assert_eq!(t.end_y(y, pitch), y + h);
    let last = t.row_count() - 1;
    assert_eq!(t.row_top(y, pitch, last) + pitch, y + h);
    assert_eq!(h, t.row_count() as i64 * 27);
}

#[test]
fn kerning_and_advances_measure_words() {
    let chars: Vec<char> = "ab cd".chars().collect();
    let adv = vec![100, 200, 64, 300, 50];
    let kern = vec![-10, 7, 0, 5, 0];
    assert_eq!(measure_span(&adv, &kern, 0, 2), 100 - 10 + 200);
    assert_eq!(measure_span(&adv, &kern, 3, 5), 300 + 5 + 50);
    let t = wrap_text(&chars, &adv, &kern, 64, 10_000);
    assert_eq!(t.rows[0].width, 290 + 64 + 355);
}

#[test]
fn lines_and_words_split() {
    let chars: Vec<char> = "a b\n\ncc  d ".chars().collect();
    assert_eq!(split_lines(&chars), vec![(0, 3), (4, 4), (5, 11)]);
    assert_eq!(split_words(&chars, 5, 11), vec![(5, 7), (9, 10)]);
    assert_eq!(split_words(&chars, 4, 4), vec![]);
}

#[test]
fn packing_closes_rows_greedily() {
    let mut rows = Vec::new();
    pack_words(&vec![3, 3, 3, 9, 1], 1, 7, 10, &mut rows);
    assert_eq!(
        rows,
        vec![
            Row { first: 10, end: 12, width: 7 },
            Row { first: 12, end: 13, width: 3 },
            Row { first: 13, end: 14, width: 9 },
            Row { first: 14, end: 15, width: 1 },
        ]
    );
}

#[test]
fn pens_advance_with_kerning() {
    let p = pen_positions(640, &vec![100, 200, 300], &vec![-5, 10, 0]);
    assert_eq!(p, vec![640, 735, 945]);
}
