use vstd::prelude::*;

verus! {

/// Most characters a laid-out text may hold.
pub const MAX_TEXT_CHARS: usize = 1048576;

/// Largest magnitude of one glyph advance, kerning pair or space width,
/// in 1/64 pixel units.
pub const MAX_GLYPH_UNITS: i64 = 1048576;

/// Largest wrapping width, in 1/64 pixel units.
pub const MAX_WRAP_UNITS: i64 = 1099511627776;

/// The characters that Unicode lists as white space.
pub open spec fn is_ws(c: char) -> bool {
    c == '\t' || c == '\n' || c == '\u{b}' || c == '\u{c}' || c == '\r' || c == ' '
        || c == '\u{85}' || c == '\u{a0}' || c == '\u{1680}' || ('\u{2000}' <= c
        && c <= '\u{200a}') || c == '\u{2028}' || c == '\u{2029}' || c == '\u{202f}'
        || c == '\u{205f}' || c == '\u{3000}'
}

fn is_white(c: char) -> (r: bool)
    ensures
        r == is_ws(c),
{
    c == '\t' || c == '\n' || c == '\u{b}' || c == '\u{c}' || c == '\r' || c == ' '
        || c == '\u{85}' || c == '\u{a0}' || c == '\u{1680}' || ('\u{2000}' <= c
        && c <= '\u{200a}') || c == '\u{2028}' || c == '\u{2029}' || c == '\u{202f}'
        || c == '\u{205f}' || c == '\u{3000}'
}

/// Glyph metrics of a text, one entry per character: the advance of its
/// glyph, and the kerning between it and the next character.
pub open spec fn metrics_ok(n: int, adv: Seq<i64>, kern: Seq<i64>) -> bool {
    &&& n <= MAX_TEXT_CHARS
    &&& adv.len() == n
    &&& kern.len() == n
    &&& forall|i: int| 0 <= i < n ==> 0 <= #[trigger] adv[i] <= MAX_GLYPH_UNITS
    &&& forall|i: int| 0 <= i < n ==> -MAX_GLYPH_UNITS <= #[trigger] kern[i] <= MAX_GLYPH_UNITS
}

/// Width of the characters `a..b` set in one run: their advances, plus the
/// kerning between each neighbouring pair.
pub open spec fn span_width(adv: Seq<i64>, kern: Seq<i64>, a: int, b: int) -> int
    decreases b - a,
{
    if b <= a {
        0
    } else if b == a + 1 {
        adv[a] as int
    } else {
        span_width(adv, kern, a, b - 1) + kern[b - 2] + adv[b - 1]
    }
}

proof fn lemma_span_bounds(adv: Seq<i64>, kern: Seq<i64>, a: int, b: int)
    requires
        metrics_ok(adv.len() as int, adv, kern),
        0 <= a <= b <= adv.len(),
    ensures
        -MAX_GLYPH_UNITS * (b - a) <= span_width(adv, kern, a, b) <= 2 * MAX_GLYPH_UNITS * (b - a),
    decreases b - a,
{
    if b == a + 1 {
        assert(0 <= adv[a] <= MAX_GLYPH_UNITS);
    } else if b > a + 1 {
        lemma_span_bounds(adv, kern, a, b - 1);
        assert(0 <= adv[b - 1] <= MAX_GLYPH_UNITS);
        assert(-MAX_GLYPH_UNITS <= kern[b - 2] <= MAX_GLYPH_UNITS);
    }
}

/// Measures the characters `a..b` of a text.
pub fn measure_span(adv: &Vec<i64>, kern: &Vec<i64>, a: usize, b: usize) -> (w: i64)
    requires
        metrics_ok(adv@.len() as int, adv@, kern@),
        a < b <= adv@.len(),
    ensures
        w == span_width(adv@, kern@, a as int, b as int),
{
    proof {
        lemma_span_bounds(adv@, kern@, a as int, b as int);
    }
    let mut w: i64 = adv[a];
    let mut i: usize = a + 1;
    while i < b
        invariant
            metrics_ok(adv@.len() as int, adv@, kern@),
            a < i <= b <= adv@.len(),
            w == span_width(adv@, kern@, a as int, i as int),
        decreases b - i,
    {
        proof {
            lemma_span_bounds(adv@, kern@, a as int, i as int + 1);
        }
        w = w + kern[i - 1] + adv[i];
        i = i + 1;
    }
    w
}

/// The maximal runs of non-white characters among `s[i..hi]`, as ranges;
/// `start` is where the run in progress began, or -1.
pub open spec fn words_scan(s: Seq<char>, i: int, hi: int, start: int) -> Seq<(int, int)>
    decreases hi - i,
{
    if i >= hi {
        if start >= 0 {
            seq![(start, hi)]
        } else {
            seq![]
        }
    } else if is_ws(s[i]) {
        if start >= 0 {
            seq![(start, i)] + words_scan(s, i + 1, hi, -1)
        } else {
            words_scan(s, i + 1, hi, -1)
        }
    } else {
        words_scan(s, i + 1, hi, if start >= 0 { start } else { i })
    }
}

/// The words of `s[lo..hi]`: its maximal runs of non-white characters.
pub open spec fn words_in(s: Seq<char>, lo: int, hi: int) -> Seq<(int, int)> {
    words_scan(s, lo, hi, -1)
}

pub open spec fn usize_pairs(v: Seq<(usize, usize)>) -> Seq<(int, int)> {
    v.map_values(|p: (usize, usize)| (p.0 as int, p.1 as int))
}

/// Splits `s[lo..hi]` into its words, as ranges of character positions.
pub fn split_words(s: &Vec<char>, lo: usize, hi: usize) -> (r: Vec<(usize, usize)>)
    requires
        lo <= hi <= s@.len(),
    ensures
        usize_pairs(r@) == words_in(s@, lo as int, hi as int),
{
    let mut r: Vec<(usize, usize)> = Vec::new();
    let mut i: usize = lo;
    let mut in_word: bool = false;
    let mut start: usize = lo;
    while i < hi
        invariant
            lo <= i <= hi <= s@.len(),
            lo <= start <= i,
            usize_pairs(r@) + words_scan(s@, i as int, hi as int, if in_word { start as int } else { -1 })
                == words_in(s@, lo as int, hi as int),
        decreases hi - i,
    {
        let ghost cur: int = if in_word { start as int } else { -1 };
        let ghost before = usize_pairs(r@);
        if is_white(s[i]) {
            if in_word {
                r.push((start, i));
                assert(usize_pairs(r@) =~= before + seq![(start as int, i as int)]);
                in_word = false;
            }
        } else {
            if !in_word {
                start = i;
                in_word = true;
            }
        }
        i = i + 1;
        proof {
            assert(usize_pairs(r@) + words_scan(s@, i as int, hi as int, if in_word { start as int } else { -1 })
                =~= before + words_scan(s@, i - 1, hi as int, cur));
        }
    }
    if in_word {
        let ghost before = usize_pairs(r@);
        r.push((start, hi));
        assert(usize_pairs(r@) =~= before + seq![(start as int, hi as int)]);
    }
    assert(usize_pairs(r@) =~= usize_pairs(r@) + words_scan(s@, hi as int, hi as int, -1)) by {
        if !in_word {
        }
    }
    r
}

/// The lines of `s` when split at each `'\n'`, as ranges; `start` is where
/// the line in progress began.
pub open spec fn lines_scan(s: Seq<char>, i: int, start: int) -> Seq<(int, int)>
    decreases s.len() - i,
{
    if i >= s.len() {
        seq![(start, s.len() as int)]
    } else if s[i] == '\n' {
        seq![(start, i)] + lines_scan(s, i + 1, i + 1)
    } else {
        lines_scan(s, i + 1, start)
    }
}

/// The hard lines of `s`: the ranges between its `'\n'` characters
/// (an empty text has one empty line).
pub open spec fn hard_lines(s: Seq<char>) -> Seq<(int, int)> {
    lines_scan(s, 0, 0)
}

/// Splits a text at each `'\n'`, as ranges of character positions.
pub fn split_lines(s: &Vec<char>) -> (r: Vec<(usize, usize)>)
    ensures
        usize_pairs(r@) == hard_lines(s@),
{
    let mut r: Vec<(usize, usize)> = Vec::new();
    let mut i: usize = 0;
    let mut start: usize = 0;
    while i < s.len()
        invariant
            start <= i <= s@.len(),
            usize_pairs(r@) + lines_scan(s@, i as int, start as int) == hard_lines(s@),
        decreases s.len() - i,
    {
        let ghost before = usize_pairs(r@);
        let ghost (i0, st0) = (i as int, start as int);
        if s[i] == '\n' {
            r.push((start, i));
            assert(usize_pairs(r@) =~= before + seq![(st0, i0)]);
            start = i + 1;
        }
        i = i + 1;
        proof {
            assert(usize_pairs(r@) + lines_scan(s@, i as int, start as int)
                =~= before + lines_scan(s@, i0, st0));
        }
    }
    let ghost before = usize_pairs(r@);
    r.push((start, s.len()));
    assert(usize_pairs(r@) =~= before + lines_scan(s@, i as int, start as int));
    r
}

/// Greedy filling of rows with words of widths `ws`, separated by `space`:
/// a word joins the row in progress while the row stays within `max`;
/// otherwise the row is closed and the word starts the next one. A word is
/// never split. Rows are (first word, end word, width); `first` and `cur` are
/// the row in progress.
pub open spec fn pack_scan(ws: Seq<int>, space: int, max: int, i: int, first: int, cur: int) -> Seq<(int, int, int)>
    decreases ws.len() - i,
{
    if i >= ws.len() {
        if i > first {
            seq![(first, i, cur)]
        } else {
            seq![]
        }
    } else if i > first && cur + space + ws[i] > max {
        seq![(first, i, cur)] + pack_scan(ws, space, max, i + 1, i, ws[i])
    } else {
        pack_scan(ws, space, max, i + 1, first, if i > first { cur + space + ws[i] } else { ws[i] })
    }
}

pub open spec fn pack(ws: Seq<int>, space: int, max: int) -> Seq<(int, int, int)> {
    pack_scan(ws, space, max, 0, 0, 0)
}

/// Width of the words `a..b` of `ws` set on one row, one `space` between neighbours.
pub open spec fn row_width(ws: Seq<int>, space: int, a: int, b: int) -> int
    decreases b - a,
{
    if b <= a {
        0
    } else if b == a + 1 {
        ws[a]
    } else {
        row_width(ws, space, a, b - 1) + space + ws[b - 1]
    }
}

/// A row of laid-out text: the words `first..end` of the layout, and their
/// width when set with one space between neighbours. A blank row has
/// `first == end`.
#[derive(Clone, Copy, Debug, PartialEq, Eq, Structural)]
pub struct Row {
    pub first: usize,
    pub end: usize,
    pub width: i64,
}

impl View for Row {
    type V = (int, int, int);

    open spec fn view(&self) -> (int, int, int) {
        (self.first as int, self.end as int, self.width as int)
    }
}

pub open spec fn rows_view(v: Seq<Row>) -> Seq<(int, int, int)> {
    v.map_values(|r: Row| r@)
}

pub open spec fn shift_rows(rows: Seq<(int, int, int)>, base: int) -> Seq<(int, int, int)> {
    rows.map_values(|r: (int, int, int)| (r.0 + base, r.1 + base, r.2))
}

pub open spec fn widths_ok(ws: Seq<i64>, space: i64, max: i64) -> bool {
    &&& ws.len() <= MAX_TEXT_CHARS
    &&& forall|i: int| 0 <= i < ws.len() ==> -1099511627776 <= #[trigger] ws[i] <= 2199023255552
    &&& 0 <= space <= MAX_GLYPH_UNITS
    &&& 0 < max <= MAX_WRAP_UNITS
}

pub open spec fn ints(ws: Seq<i64>) -> Seq<int> {
    ws.map_values(|w: i64| w as int)
}

/// Fills rows greedily with words of widths `ws` (see `pack`), appending them
/// to `rows` with word indices offset by `base`.
pub fn pack_words(ws: &Vec<i64>, space: i64, max: i64, base: usize, rows: &mut Vec<Row>)
    requires
        widths_ok(ws@, space, max),
        base + ws@.len() <= usize::MAX,
    ensures
        rows_view(final(rows)@) == rows_view(old(rows)@) + shift_rows(pack(ints(ws@), space as int, max as int), base as int),
{
    let ghost w = ints(ws@);
    let ghost init = rows_view(rows@);
    let n = ws.len();
    let mut i: usize = 0;
    let mut first: usize = 0;
    let mut cur: i64 = 0;
    while i < n
        invariant
            n == ws@.len(),
            w == ints(ws@),
            widths_ok(ws@, space, max),
            base + n <= usize::MAX,
            first <= i <= n,
            i == first ==> cur == 0,
            i > first ==> -2199023255552 * (i - first) <= cur <= 2199023255552,
            rows_view(rows@) + shift_rows(pack_scan(w, space as int, max as int, i as int, first as int, cur as int), base as int)
                == init + shift_rows(pack(w, space as int, max as int), base as int),
        decreases n - i,
    {
        let ghost before = rows_view(rows@);
        let ghost (i0, f0, c0) = (i as int, first as int, cur as int);
        let wi = ws[i];
        assert(w[i as int] == wi as int);
        if i > first && cur + space + wi > max {
            rows.push(Row { first: base + first, end: base + i, width: cur });
            assert(rows_view(rows@) =~= before + seq![(base + f0, base + i0, c0)]);
            first = i;
            cur = wi;
        } else if i > first {
            cur = cur + space + wi;
        } else {
            cur = wi;
        }
        i = i + 1;
        proof {
            let rest = pack_scan(w, space as int, max as int, i as int, first as int, cur as int);
            assert(rows_view(rows@) + shift_rows(rest, base as int)
                =~= before + shift_rows(pack_scan(w, space as int, max as int, i0, f0, c0), base as int));
        }
    }
    if i > first {
        let ghost before = rows_view(rows@);
        rows.push(Row { first: base + first, end: base + i, width: cur });
        assert(rows_view(rows@) =~= before + shift_rows(pack_scan(w, space as int, max as int, i as int, first as int, cur as int), base as int));
    } else {
        assert(shift_rows(pack_scan(w, space as int, max as int, i as int, first as int, cur as int), base as int) =~= seq![]);
        assert(rows_view(rows@) =~= rows_view(rows@) + seq![]);
    }
}

proof fn lemma_words_scan(s: Seq<char>, lo: int, i: int, hi: int, start: int)
    requires
        lo <= i <= hi <= s.len(),
        start == -1 || lo <= start < i,
    ensures
        words_scan(s, i, hi, start).len() <= hi - i + (if start >= 0 { 1int } else { 0 }),
        forall|j: int| 0 <= j < words_scan(s, i, hi, start).len() ==>
            lo <= (#[trigger] words_scan(s, i, hi, start)[j]).0 < words_scan(s, i, hi, start)[j].1 <= hi,
    decreases hi - i,
{
    if i < hi {
        if is_ws(s[i]) {
            lemma_words_scan(s, lo, i + 1, hi, -1);
            if start >= 0 {
                let r = words_scan(s, i + 1, hi, -1);
                assert forall|j: int| 0 <= j < words_scan(s, i, hi, start).len() implies
                    lo <= (#[trigger] words_scan(s, i, hi, start)[j]).0 < words_scan(s, i, hi, start)[j].1 <= hi by {
                    if j > 0 {
                        assert(words_scan(s, i, hi, start)[j] == r[j - 1]);
                    }
                }
            }
        } else {
            lemma_words_scan(s, lo, i + 1, hi, if start >= 0 { start } else { i });
        }
    }
}

proof fn lemma_lines_scan(s: Seq<char>, i: int, start: int)
    requires
        0 <= start <= i <= s.len(),
    ensures
        1 <= lines_scan(s, i, start).len() <= s.len() - i + 1,
        lines_scan(s, i, start)[0].0 == start,
        forall|j: int| 0 <= j < lines_scan(s, i, start).len() ==>
            start <= (#[trigger] lines_scan(s, i, start)[j]).0 <= lines_scan(s, i, start)[j].1 <= s.len(),
        forall|j: int| 0 <= j < lines_scan(s, i, start).len() - 1 ==>
            (#[trigger] lines_scan(s, i, start)[j]).1 < lines_scan(s, i, start)[j + 1].0,
    decreases s.len() - i,
{
    if i < s.len() {
        if s[i] == '\n' {
            lemma_lines_scan(s, i + 1, i + 1);
            let r = lines_scan(s, i + 1, i + 1);
            let all = lines_scan(s, i, start);
            assert(all == seq![(start, i)] + r);
            assert forall|j: int| 0 <= j < all.len() implies
                start <= (#[trigger] all[j]).0 <= all[j].1 <= s.len() by {
                if j > 0 {
                    assert(all[j] == r[j - 1]);
                }
            }
            assert forall|j: int| 0 <= j < all.len() - 1 implies (#[trigger] all[j]).1 < all[j + 1].0 by {
                assert(all[j + 1] == r[j]);
                if j > 0 {
                    assert(all[j] == r[j - 1]);
                }
            }
        } else {
            lemma_lines_scan(s, i + 1, start);
        }
    }
}

/// Every word of `s[lo..hi]` is a non-empty range inside it.
pub proof fn lemma_words_in_bounds(s: Seq<char>, lo: int, hi: int)
    requires
        0 <= lo <= hi <= s.len(),
    ensures
        forall|j: int| 0 <= j < words_in(s, lo, hi).len() ==>
            lo <= (#[trigger] words_in(s, lo, hi)[j]).0 < words_in(s, lo, hi)[j].1 <= hi,
{
    lemma_words_scan(s, lo, lo, hi, -1);
}

/// Widths of the given character ranges of a text.
pub open spec fn span_widths(adv: Seq<i64>, kern: Seq<i64>, words: Seq<(int, int)>) -> Seq<int> {
    words.map_values(|w: (int, int)| span_width(adv, kern, w.0, w.1))
}

/// The words of the hard lines `k..` of a text, in order.
pub open spec fn words_over(s: Seq<char>, lines: Seq<(int, int)>, k: int) -> Seq<(int, int)>
    decreases lines.len() - k,
{
    if k >= lines.len() || k < 0 {
        seq![]
    } else {
        words_in(s, lines[k].0, lines[k].1) + words_over(s, lines, k + 1)
    }
}

/// The rows of one hard line `lo..hi` whose first word has index `base`: a
/// single blank row when the line holds no word, else its words filled greedily.
pub open spec fn line_rows(s: Seq<char>, adv: Seq<i64>, kern: Seq<i64>, space: int, max: int, lo: int, hi: int, base: int) -> Seq<(int, int, int)> {
    let ws = words_in(s, lo, hi);
    if ws.len() == 0 {
        seq![(base, base, 0)]
    } else {
        shift_rows(pack(span_widths(adv, kern, ws), space, max), base)
    }
}

pub open spec fn rows_over(s: Seq<char>, adv: Seq<i64>, kern: Seq<i64>, space: int, max: int, lines: Seq<(int, int)>, k: int, base: int) -> Seq<(int, int, int)>
    decreases lines.len() - k,
{
    if k >= lines.len() || k < 0 {
        seq![]
    } else {
        line_rows(s, adv, kern, space, max, lines[k].0, lines[k].1, base) + rows_over(
            s,
            adv,
            kern,
            space,
            max,
            lines,
            k + 1,
            base + words_in(s, lines[k].0, lines[k].1).len(),
        )
    }
}

/// All words of a text, hard line after hard line.
pub open spec fn text_words(s: Seq<char>) -> Seq<(int, int)> {
    words_over(s, hard_lines(s), 0)
}

/// All rows of a text wrapped at `max`: each hard line gives its own rows.
pub open spec fn text_rows(s: Seq<char>, adv: Seq<i64>, kern: Seq<i64>, space: int, max: int) -> Seq<(int, int, int)> {
    rows_over(s, adv, kern, space, max, hard_lines(s), 0, 0)
}

proof fn lemma_pack_len(ws: Seq<int>, space: int, max: int, i: int, first: int, cur: int)
    requires
        0 <= first <= i <= ws.len(),
    ensures
        pack_scan(ws, space, max, i, first, cur).len() <= ws.len() - first,
    decreases ws.len() - i,
{
    if i < ws.len() {
        if i > first && cur + space + ws[i] > max {
            lemma_pack_len(ws, space, max, i + 1, i, ws[i]);
        } else {
            lemma_pack_len(ws, space, max, i + 1, first, if i > first { cur + space + ws[i] } else { ws[i] });
        }
    }
}

/// A wrapped text: its words as character ranges, and its rows, which
/// index the words.
pub struct TextLayout {
    pub words: Vec<(usize, usize)>,
    pub rows: Vec<Row>,
}

pub open spec fn wrap_ok(s: Seq<char>, adv: Seq<i64>, kern: Seq<i64>, space: i64, max: i64) -> bool {
    &&& metrics_ok(s.len() as int, adv, kern)
    &&& 0 <= space <= MAX_GLYPH_UNITS
    &&& 0 < max <= MAX_WRAP_UNITS
}

/// Wraps a text at `max` units: splits it at each `'\n'`, then fills each
/// hard line greedily with its words (see `pack`); a hard line without words
/// becomes one blank row.
pub fn wrap_text(s: &Vec<char>, adv: &Vec<i64>, kern: &Vec<i64>, space: i64, max: i64) -> (t: TextLayout)
    requires
        wrap_ok(s@, adv@, kern@, space, max),
    ensures
        usize_pairs(t.words@) == text_words(s@),
        rows_view(t.rows@) == text_rows(s@, adv@, kern@, space as int, max as int),
        t.rows@.len() <= 2 * s@.len() + 1,
{
    let lines = split_lines(s);
    let ghost l = hard_lines(s@);
    proof {
        lemma_lines_scan(s@, 0, 0);
    }
    let mut words: Vec<(usize, usize)> = Vec::new();
    let mut rows: Vec<Row> = Vec::new();
    let mut k: usize = 0;
    while k < lines.len()
        invariant
            wrap_ok(s@, adv@, kern@, space, max),
            usize_pairs(lines@) == l,
            l == hard_lines(s@),
            l == lines_scan(s@, 0, 0),
            forall|j: int| 0 <= j < l.len() ==> 0 <= (#[trigger] l[j]).0 <= l[j].1 <= s@.len(),
            forall|j: int| 0 <= j < l.len() - 1 ==> (#[trigger] l[j]).1 < l[j + 1].0,
            k <= l.len(),
            k < l.len() ==> words@.len() <= l[k as int].0,
            words@.len() <= s@.len(),
            rows@.len() <= words@.len() + k,
            l.len() <= s@.len() + 1,
            usize_pairs(words@) + words_over(s@, l, k as int) == text_words(s@),
            rows_view(rows@) + rows_over(s@, adv@, kern@, space as int, max as int, l, k as int, words@.len() as int)
                == text_rows(s@, adv@, kern@, space as int, max as int),
        decreases l.len() - k,
    {
        let (lo, hi) = lines[k];
        assert(l[k as int] == (lo as int, hi as int));
        let ws = split_words(s, lo, hi);
        let ghost wsv = words_in(s@, lo as int, hi as int);
        proof {
            lemma_words_scan(s@, lo as int, lo as int, hi as int, -1);
        }
        let mut widths: Vec<i64> = Vec::new();
        let mut j: usize = 0;
        while j < ws.len()
            invariant
                wrap_ok(s@, adv@, kern@, space, max),
                usize_pairs(ws@) == wsv,
                hi <= s@.len(),
                forall|q: int| 0 <= q < wsv.len() ==> lo <= (#[trigger] wsv[q]).0 < wsv[q].1 <= hi,
                wsv.len() <= hi - lo,
                j <= ws@.len(),
                widths@.len() == j,
                forall|q: int| 0 <= q < j ==> -1099511627776 <= #[trigger] widths@[q] <= 2199023255552,
                ints(widths@) == span_widths(adv@, kern@, wsv.take(j as int)),
            decreases ws.len() - j,
        {
            let (a, b) = ws[j];
            assert(wsv[j as int] == (a as int, b as int));
            proof {
                lemma_span_bounds(adv@, kern@, a as int, b as int);
            }
            let w = measure_span(adv, kern, a, b);
            assert(-1099511627776 <= w <= 2199023255552) by {
                let d = b as int - a as int;
                assert(d <= 1048576);
                assert(-1048576 * d <= w <= 2 * 1048576 * d);
                assert(-1048576 * d >= -1048576 * 1048576) by (nonlinear_arith)
                    requires d <= 1048576;
                assert(2 * 1048576 * d <= 2 * 1048576 * 1048576) by (nonlinear_arith)
                    requires d <= 1048576;
            }
            let ghost prev = ints(widths@);
            widths.push(w);
            j = j + 1;
            assert(span_widths(adv@, kern@, wsv.take(j as int)) =~= span_widths(adv@, kern@, wsv.take(j - 1)).push(w as int));
            assert(ints(widths@) =~= prev.push(w as int));
        }
        assert(wsv.take(ws@.len() as int) =~= wsv);
        let ghost base = words@.len() as int;
        let ghost before_rows = rows_view(rows@);
        let ghost before_words = usize_pairs(words@);
        if ws.len() == 0 {
            rows.push(Row { first: words.len(), end: words.len(), width: 0 });
            assert(rows_view(rows@) =~= before_rows + seq![(base, base, 0int)]);
        } else {
            pack_words(&widths, space, max, words.len(), &mut rows);
            proof {
                lemma_pack_len(ints(widths@), space as int, max as int, 0, 0, 0);
            }
        }
        let mut q: usize = 0;
        while q < ws.len()
            invariant
                usize_pairs(ws@) == wsv,
                q <= ws@.len(),
                words@.len() == base + q,
                usize_pairs(words@) == before_words + wsv.take(q as int),
            decreases ws.len() - q,
        {
            let ghost prev = usize_pairs(words@);
            assert(wsv[q as int] == (ws@[q as int].0 as int, ws@[q as int].1 as int));
            words.push(ws[q]);
            q = q + 1;
            assert(wsv.take(q as int) =~= wsv.take(q - 1).push(wsv[q - 1]));
            assert(usize_pairs(words@) =~= prev.push(wsv[q - 1]));
            assert(usize_pairs(words@) =~= before_words + wsv.take(q as int));
        }
        assert(wsv.take(ws@.len() as int) =~= wsv);
        proof {
            assert(words_over(s@, l, k as int) == wsv + words_over(s@, l, k + 1));
            assert(usize_pairs(words@) + words_over(s@, l, k + 1) =~= before_words + words_over(s@, l, k as int));
            assert(rows_over(s@, adv@, kern@, space as int, max as int, l, k as int, base)
                == line_rows(s@, adv@, kern@, space as int, max as int, lo as int, hi as int, base)
                + rows_over(s@, adv@, kern@, space as int, max as int, l, k + 1, words@.len() as int));
            assert(rows_view(rows@) + rows_over(s@, adv@, kern@, space as int, max as int, l, k + 1, words@.len() as int)
                =~= before_rows + rows_over(s@, adv@, kern@, space as int, max as int, l, k as int, base));
        }
        k = k + 1;
    }
    assert(usize_pairs(words@) =~= usize_pairs(words@) + words_over(s@, l, k as int));
    assert(rows_view(rows@) =~= rows_view(rows@) + rows_over(s@, adv@, kern@, space as int, max as int, l, k as int, words@.len() as int));
    TextLayout { words, rows }
}

proof fn lemma_pack_scan(ws: Seq<int>, space: int, max: int, i: int, first: int, cur: int)
    requires
        0 <= first <= i <= ws.len(),
        i > first ==> cur == row_width(ws, space, first, i),
        i - first >= 2 ==> cur <= max,
    ensures
        forall|j: int| 0 <= j < pack_scan(ws, space, max, i, first, cur).len() ==> {
            let r = #[trigger] pack_scan(ws, space, max, i, first, cur)[j];
            &&& first <= r.0 < r.1 <= ws.len()
            &&& r.2 == row_width(ws, space, r.0, r.1)
            &&& (r.1 - r.0 >= 2 ==> r.2 <= max)
        },
    decreases ws.len() - i,
{
    if i < ws.len() {
        if i > first && cur + space + ws[i] > max {
            lemma_pack_scan(ws, space, max, i + 1, i, ws[i]);
            let rest = pack_scan(ws, space, max, i + 1, i, ws[i]);
            let all = pack_scan(ws, space, max, i, first, cur);
            assert forall|j: int| 0 <= j < all.len() implies {
                let r = #[trigger] all[j];
                &&& first <= r.0 < r.1 <= ws.len()
                &&& r.2 == row_width(ws, space, r.0, r.1)
                &&& (r.1 - r.0 >= 2 ==> r.2 <= max)
            } by {
                if j > 0 {
                    assert(all[j] == rest[j - 1]);
                }
            }
        } else {
            let next = if i > first { cur + space + ws[i] } else { ws[i] };
            assert(next == row_width(ws, space, first, i + 1));
            lemma_pack_scan(ws, space, max, i + 1, first, next);
            assert(pack_scan(ws, space, max, i, first, cur) == pack_scan(ws, space, max, i + 1, first, next));
        }
    } else if i > first {
        assert(pack_scan(ws, space, max, i, first, cur) == seq![(first, i, cur)]);
    }
}

/// Every row that greedy filling makes is as wide as its words set with one
/// space between neighbours, and a row of two or more words stays within
/// `max`: only a row of a single word can be wider.
pub proof fn lemma_rows_fit(ws: Seq<int>, space: int, max: int)
    ensures
        forall|j: int| 0 <= j < pack(ws, space, max).len() ==> {
            let r = #[trigger] pack(ws, space, max)[j];
            &&& 0 <= r.0 < r.1 <= ws.len()
            &&& r.2 == row_width(ws, space, r.0, r.1)
            &&& (r.1 - r.0 >= 2 ==> r.2 <= max)
        },
{
    lemma_pack_scan(ws, space, max, 0, 0, 0);
}

proof fn lemma_wide_scan(ws: Seq<int>, space: int, max: int, i: int, first: int, cur: int)
    requires
        0 <= first <= i <= ws.len(),
        0 <= space,
        forall|j: int| 0 <= j < ws.len() ==> 0 <= #[trigger] ws[j],
        i > first ==> 0 <= cur,
        forall|j: int| first <= j < i && #[trigger] ws[j] > max ==> j == first && i == first + 1 && cur == ws[j],
    ensures
        forall|j: int| first <= j < ws.len() && #[trigger] ws[j] > max ==> exists|k: int|
            0 <= k < pack_scan(ws, space, max, i, first, cur).len()
                && pack_scan(ws, space, max, i, first, cur)[k] == (j, j + 1, ws[j]),
    decreases ws.len() - i,
{
    let all = pack_scan(ws, space, max, i, first, cur);
    if i >= ws.len() {
        assert forall|j: int| first <= j < ws.len() && #[trigger] ws[j] > max implies exists|k: int|
            0 <= k < all.len() && all[k] == (j, j + 1, ws[j]) by {
            assert(all[0] == (j, j + 1, ws[j]));
        }
    } else if i > first && cur + space + ws[i] > max {
        lemma_wide_scan(ws, space, max, i + 1, i, ws[i]);
        let rest = pack_scan(ws, space, max, i + 1, i, ws[i]);
        assert(all == seq![(first, i, cur)] + rest);
        assert forall|j: int| first <= j < ws.len() && #[trigger] ws[j] > max implies exists|k: int|
            0 <= k < all.len() && all[k] == (j, j + 1, ws[j]) by {
            if j < i {
                assert(all[0] == (j, j + 1, ws[j]));
            } else {
                let k = choose|k: int| 0 <= k < rest.len() && rest[k] == (j, j + 1, ws[j]);
                assert(all[k + 1] == rest[k]);
            }
        }
    } else {
        let next = if i > first { cur + space + ws[i] } else { ws[i] };
        assert forall|j: int| first <= j < i + 1 && #[trigger] ws[j] > max implies j == first && i + 1 == first + 1
            && next == ws[j] by {
            if i > first {
                if j < i {
                    assert(cur == ws[j]);
                }
            }
        }
        lemma_wide_scan(ws, space, max, i + 1, first, next);
    }
}

/// With widths and spacing that are never negative, a word wider than `max`
/// is set alone on a row of its own, whole and at its own width.
pub proof fn lemma_wide_word_alone(ws: Seq<int>, space: int, max: int, j: int)
    requires
        0 <= space,
        forall|q: int| 0 <= q < ws.len() ==> 0 <= #[trigger] ws[q],
        0 <= j < ws.len(),
        ws[j] > max,
    ensures
        exists|k: int| 0 <= k < pack(ws, space, max).len() && pack(ws, space, max)[k] == (j, j + 1, ws[j]),
{
    lemma_wide_scan(ws, space, max, 0, 0, 0);
    assert(0 <= j && ws[j] > max);
    assert(pack(ws, space, max) == pack_scan(ws, space, max, 0, 0, 0));
}

proof fn lemma_rows_over_fit(s: Seq<char>, adv: Seq<i64>, kern: Seq<i64>, space: int, max: int, lines: Seq<(int, int)>, k: int, base: int)
    ensures
        forall|j: int| 0 <= j < rows_over(s, adv, kern, space, max, lines, k, base).len() ==> {
            let r = #[trigger] rows_over(s, adv, kern, space, max, lines, k, base)[j];
            &&& r.0 <= r.1
            &&& (r.0 == r.1 ==> r.2 == 0)
            &&& (r.1 - r.0 >= 2 ==> r.2 <= max)
        },
    decreases lines.len() - k,
{
    if k < lines.len() && k >= 0 {
        let nb = base + words_in(s, lines[k].0, lines[k].1).len();
        lemma_rows_over_fit(s, adv, kern, space, max, lines, k + 1, nb);
        let here = line_rows(s, adv, kern, space, max, lines[k].0, lines[k].1, base);
        let rest = rows_over(s, adv, kern, space, max, lines, k + 1, nb);
        let all = rows_over(s, adv, kern, space, max, lines, k, base);
        let ws = words_in(s, lines[k].0, lines[k].1);
        lemma_rows_fit(span_widths(adv, kern, ws), space, max);
        assert(all == here + rest);
        assert forall|j: int| 0 <= j < all.len() implies {
            let r = #[trigger] all[j];
            &&& r.0 <= r.1
            &&& (r.0 == r.1 ==> r.2 == 0)
            &&& (r.1 - r.0 >= 2 ==> r.2 <= max)
        } by {
            if j >= here.len() {
                assert(all[j] == rest[j - here.len()]);
            } else if ws.len() != 0 {
                let p = pack(span_widths(adv, kern, ws), space, max);
                assert(here[j] == (p[j].0 + base, p[j].1 + base, p[j].2));
            }
        }
    }
}

proof fn lemma_row_width_shift(l: Seq<int>, g: Seq<int>, space: int, base: int, a: int, b: int)
    requires
        0 <= a < b,
        forall|j: int| a <= j < b ==> g[base + j] == #[trigger] l[j],
    ensures
        row_width(l, space, a, b) == row_width(g, space, a + base, b + base),
    decreases b - a,
{
    if b > a + 1 {
        lemma_row_width_shift(l, g, space, base, a, b - 1);
    }
}

proof fn lemma_rows_over_width(s: Seq<char>, adv: Seq<i64>, kern: Seq<i64>, space: int, max: int, lines: Seq<(int, int)>, k: int, pre: Seq<(int, int)>)
    requires
        0 <= k <= lines.len(),
    ensures
        forall|j: int| 0 <= j < rows_over(s, adv, kern, space, max, lines, k, pre.len() as int).len() ==> {
            let r = #[trigger] rows_over(s, adv, kern, space, max, lines, k, pre.len() as int)[j];
            let w = pre + words_over(s, lines, k);
            r.0 < r.1 ==> pre.len() <= r.0 && r.1 <= w.len() && r.2 == row_width(span_widths(adv, kern, w), space, r.0, r.1)
        },
    decreases lines.len() - k,
{
    if k < lines.len() {
        let ws = words_in(s, lines[k].0, lines[k].1);
        let pre2 = pre + ws;
        lemma_rows_over_width(s, adv, kern, space, max, lines, k + 1, pre2);
        let w = pre + words_over(s, lines, k);
        assert(pre2 + words_over(s, lines, k + 1) =~= w);
        let g = span_widths(adv, kern, w);
        let l = span_widths(adv, kern, ws);
        let base = pre.len() as int;
        let here = line_rows(s, adv, kern, space, max, lines[k].0, lines[k].1, base);
        let rest = rows_over(s, adv, kern, space, max, lines, k + 1, pre2.len() as int);
        let all = rows_over(s, adv, kern, space, max, lines, k, base);
        assert(all == here + rest);
        lemma_rows_fit(l, space, max);
        assert forall|j: int| 0 <= j < all.len() implies {
            let r = #[trigger] all[j];
            r.0 < r.1 ==> pre.len() <= r.0 && r.1 <= w.len() && r.2 == row_width(g, space, r.0, r.1)
        } by {
            if j >= here.len() {
                assert(all[j] == rest[j - here.len()]);
            } else if ws.len() != 0 {
                let p = pack(l, space, max);
                assert(here[j] == (p[j].0 + base, p[j].1 + base, p[j].2));
                assert forall|q: int| p[j].0 <= q < p[j].1 implies g[base + q] == #[trigger] l[q] by {
                    assert(w[base + q] == ws[q]);
                }
                lemma_row_width_shift(l, g, space, base, p[j].0, p[j].1);
            }
        }
    }
}

proof fn lemma_rows_over_wide(s: Seq<char>, adv: Seq<i64>, kern: Seq<i64>, space: int, max: int, lines: Seq<(int, int)>, k: int, pre: Seq<(int, int)>)
    requires
        0 <= k <= lines.len(),
        0 <= space,
        forall|q: int| 0 <= q < (pre + words_over(s, lines, k)).len() ==>
            0 <= #[trigger] span_widths(adv, kern, pre + words_over(s, lines, k))[q],
    ensures
        forall|j: int| pre.len() <= j < (pre + words_over(s, lines, k)).len()
            && #[trigger] span_widths(adv, kern, pre + words_over(s, lines, k))[j] > max ==> exists|r: int|
            0 <= r < rows_over(s, adv, kern, space, max, lines, k, pre.len() as int).len()
                && rows_over(s, adv, kern, space, max, lines, k, pre.len() as int)[r]
                == (j, j + 1, span_widths(adv, kern, pre + words_over(s, lines, k))[j]),
    decreases lines.len() - k,
{
    let w = pre + words_over(s, lines, k);
    let g = span_widths(adv, kern, w);
    if k < lines.len() {
        let ws = words_in(s, lines[k].0, lines[k].1);
        let pre2 = pre + ws;
        assert(pre2 + words_over(s, lines, k + 1) =~= w);
        lemma_rows_over_wide(s, adv, kern, space, max, lines, k + 1, pre2);
        let l = span_widths(adv, kern, ws);
        let base = pre.len() as int;
        let here = line_rows(s, adv, kern, space, max, lines[k].0, lines[k].1, base);
        let rest = rows_over(s, adv, kern, space, max, lines, k + 1, pre2.len() as int);
        let all = rows_over(s, adv, kern, space, max, lines, k, base);
        assert(all == here + rest);
        assert(w.len() == base + ws.len() + words_over(s, lines, k + 1).len());
        assert forall|q: int| 0 <= q < l.len() implies 0 <= #[trigger] l[q] && l[q] == g[base + q] by {
            assert(w[base + q] == ws[q]);
            assert(0 <= g[base + q]);
        }
        assert forall|j: int| pre.len() <= j < w.len() && #[trigger] g[j] > max implies exists|r: int|
            0 <= r < all.len() && all[r] == (j, j + 1, g[j]) by {
            if j < pre2.len() {
                let jj = j - base;
                assert(l[jj] == g[j]);
                lemma_wide_word_alone(l, space, max, jj);
                let p = pack(l, space, max);
                let r = choose|r: int| 0 <= r < p.len() && p[r] == (jj, jj + 1, l[jj]);
                assert(here[r] == (p[r].0 + base, p[r].1 + base, p[r].2));
                assert(all[r] == here[r]);
            } else {
                let r = choose|r: int| 0 <= r < rest.len() && rest[r] == (j, j + 1, g[j]);
                assert(all[here.len() + r] == rest[r]);
            }
        }
    }
}

/// With word widths and spacing that are never negative, every word of a
/// text wider than `max` is drawn whole, alone on a row of its own.
pub proof fn lemma_wide_words_alone(s: Seq<char>, adv: Seq<i64>, kern: Seq<i64>, space: int, max: int)
    requires
        0 <= space,
        forall|q: int| 0 <= q < text_words(s).len() ==> 0 <= #[trigger] span_widths(adv, kern, text_words(s))[q],
    ensures
        forall|j: int| 0 <= j < text_words(s).len() && #[trigger] span_widths(adv, kern, text_words(s))[j] > max
            ==> exists|r: int| 0 <= r < text_rows(s, adv, kern, space, max).len()
                && text_rows(s, adv, kern, space, max)[r] == (j, j + 1, span_widths(adv, kern, text_words(s))[j]),
{
    lemma_lines_scan(s, 0, 0);
    let e: Seq<(int, int)> = seq![];
    let w = e + words_over(s, hard_lines(s), 0);
    assert(w =~= text_words(s));
    let g = span_widths(adv, kern, w);
    assert forall|q: int| 0 <= q < w.len() implies 0 <= #[trigger] g[q] by {
        assert(g[q] == span_widths(adv, kern, text_words(s))[q]);
    }
    lemma_rows_over_wide(s, adv, kern, space, max, hard_lines(s), 0, e);
    assert forall|j: int| 0 <= j < text_words(s).len() && #[trigger] span_widths(adv, kern, text_words(s))[j] > max
        implies exists|r: int| 0 <= r < text_rows(s, adv, kern, space, max).len()
            && text_rows(s, adv, kern, space, max)[r] == (j, j + 1, span_widths(adv, kern, text_words(s))[j]) by {
        assert(g[j] == span_widths(adv, kern, text_words(s))[j]);
        assert(g[j] > max);
        let rows = rows_over(s, adv, kern, space, max, hard_lines(s), 0, e.len() as int);
        assert(rows == text_rows(s, adv, kern, space, max));
        let r = choose|r: int| 0 <= r < rows.len() && rows[r] == (j, j + 1, g[j]);
        assert(text_rows(s, adv, kern, space, max)[r] == (j, j + 1, span_widths(adv, kern, text_words(s))[j]));
    }
}

/// Wrapping never makes a row of two or more words wider than `max`; a
/// single word wider than `max` keeps a row of its own, and a blank row has
/// no width. Each other row's width is what its words take set with one
/// space between neighbours.
pub proof fn lemma_wrapped_rows_fit(s: Seq<char>, adv: Seq<i64>, kern: Seq<i64>, space: int, max: int)
    ensures
        forall|j: int| 0 <= j < text_rows(s, adv, kern, space, max).len() ==> {
            let r = #[trigger] text_rows(s, adv, kern, space, max)[j];
            &&& r.0 <= r.1
            &&& (r.0 == r.1 ==> r.2 == 0)
            &&& (r.1 - r.0 >= 2 ==> r.2 <= max)
            &&& (r.0 < r.1 ==> r.1 <= text_words(s).len()
                && r.2 == row_width(span_widths(adv, kern, text_words(s)), space, r.0, r.1))
        },
{
    lemma_rows_over_fit(s, adv, kern, space, max, hard_lines(s), 0, 0);
    lemma_lines_scan(s, 0, 0);
    lemma_rows_over_width(s, adv, kern, space, max, hard_lines(s), 0, seq![]);
    assert(seq![] + words_over(s, hard_lines(s), 0) =~= text_words(s));
}

/// Vertical distance between rows: one and a half times the font's line
/// height (given in 1/64 pixel units), rounded to the nearest whole pixel.
pub open spec fn spec_line_pitch(height_units: int) -> int {
    (3 * height_units + 64) / 128
}

/// Largest font line height, in 1/64 pixel units.
pub const MAX_FONT_UNITS: i64 = 34359738368;

pub fn line_pitch(height_units: i64) -> (p: i64)
    requires
        0 <= height_units <= MAX_FONT_UNITS,
    ensures
        p == spec_line_pitch(height_units as int),
        0 <= p <= 1073741824,
{
    (3 * height_units + 64) / 128
}

/// Largest row pitch, in pixels, for which heights are computed.
pub const MAX_PITCH: i64 = 1073741824;

impl TextLayout {
    /// Number of rows.
    pub fn row_count(&self) -> (n: usize)
        ensures
            n == self.rows@.len(),
    {
        self.rows.len()
    }

    /// The height that drawing these rows takes: one pitch per row.
    pub fn height(&self, pitch: i64) -> (h: i64)
        requires
            0 <= pitch <= MAX_PITCH,
            self.rows@.len() <= 2 * MAX_TEXT_CHARS + 1,
        ensures
            h == self.rows@.len() * pitch,
            0 <= h <= 2097153 * 1073741824,
    {
        let n = self.rows.len() as i64;
        assert(0 <= n * pitch <= 2097153 * 1073741824) by (nonlinear_arith)
            requires 0 <= n <= 2097153, 0 <= pitch <= 1073741824;
        n * pitch
    }

    /// The top of row `k` when the first row starts at `y`.
    pub fn row_top(&self, y: i64, pitch: i64, k: usize) -> (t: i64)
        requires
            0 <= pitch <= MAX_PITCH,
            k < self.rows@.len() <= 2 * MAX_TEXT_CHARS + 1,
            -MAX_WRAP_UNITS <= y <= MAX_WRAP_UNITS,
        ensures
            t == y + k * pitch,
    {
        let kk = k as i64;
        assert(kk * pitch <= 2097153 * 1073741824) by (nonlinear_arith)
            requires kk <= 2097153, 0 <= pitch <= 1073741824;
        y + kk * pitch
    }

    /// The y just below the last row, when the first row starts at `y`.
    pub fn end_y(&self, y: i64, pitch: i64) -> (e: i64)
        requires
            0 <= pitch <= MAX_PITCH,
            self.rows@.len() <= 2 * MAX_TEXT_CHARS + 1,
            -MAX_WRAP_UNITS <= y <= MAX_WRAP_UNITS,
        ensures
            e == y + self.rows@.len() * pitch,
    {
        let h = self.height(pitch);
        y + h
    }
}

proof fn lemma_pack_nonempty(ws: Seq<int>, space: int, max: int, i: int, first: int, cur: int)
    requires
        0 <= first <= i <= ws.len(),
        first < ws.len(),
    ensures
        pack_scan(ws, space, max, i, first, cur).len() >= 1,
    decreases ws.len() - i,
{
    if i < ws.len() {
        if i > first && cur + space + ws[i] > max {
            lemma_pack_nonempty(ws, space, max, i + 1, i, ws[i]);
        } else {
            lemma_pack_nonempty(ws, space, max, i + 1, first, if i > first { cur + space + ws[i] } else { ws[i] });
        }
    }
}

proof fn lemma_rows_over_len(s: Seq<char>, adv: Seq<i64>, kern: Seq<i64>, space: int, max: int, lines: Seq<(int, int)>, k: int, base: int)
    requires
        0 <= k <= lines.len(),
    ensures
        rows_over(s, adv, kern, space, max, lines, k, base).len() >= lines.len() - k,
    decreases lines.len() - k,
{
    if k < lines.len() {
        let ws = words_in(s, lines[k].0, lines[k].1);
        lemma_rows_over_len(s, adv, kern, space, max, lines, k + 1, base + ws.len());
        if ws.len() > 0 {
            lemma_pack_nonempty(span_widths(adv, kern, ws), space, max, 0, 0, 0);
        }
    }
}

/// The height that the measuring pass gives a wrapped text (one pitch per
/// row) is exactly the room its rows take when the drawing pass draws them
/// from `y`: every row ends within it, and the last row ends on its bottom edge.
pub proof fn lemma_measure_matches_drawing(s: Seq<char>, adv: Seq<i64>, kern: Seq<i64>, space: int, max: int, y: int, pitch: int)
    requires
        0 <= pitch,
    ensures
        ({
            let n = text_rows(s, adv, kern, space, max).len() as int;
            &&& n >= 1
            &&& forall|k: int| 0 <= k < n ==> #[trigger] (y + k * pitch) + pitch <= y + n * pitch
            &&& (y + (n - 1) * pitch) + pitch == y + n * pitch
        }),
{
    lemma_lines_scan(s, 0, 0);
    lemma_rows_over_len(s, adv, kern, space, max, hard_lines(s), 0, 0);
    let n = text_rows(s, adv, kern, space, max).len() as int;
    assert forall|k: int| 0 <= k < n implies #[trigger] (y + k * pitch) + pitch <= y + n * pitch by {
        assert((k + 1) * pitch <= n * pitch) by (nonlinear_arith)
            requires k + 1 <= n, 0 <= pitch;
        assert((k + 1) * pitch == k * pitch + pitch) by (nonlinear_arith);
    }
    assert((n - 1) * pitch + pitch == n * pitch) by (nonlinear_arith);
}

/// Horizontal pen position before character `i` of a run that starts at `x`:
/// each character advances the pen by its glyph's advance and by the
/// kerning between it and the next character.
pub open spec fn pen_at(x: int, adv: Seq<i64>, kern: Seq<i64>, i: int) -> int
    decreases i,
{
    if i <= 0 {
        x
    } else {
        pen_at(x, adv, kern, i - 1) + adv[i - 1] + kern[i - 1]
    }
}

/// Where each glyph of a single-line run starting at `x` is placed (all in
/// 1/64 pixel units).
pub fn pen_positions(x: i64, adv: &Vec<i64>, kern: &Vec<i64>) -> (p: Vec<i64>)
    requires
        metrics_ok(adv@.len() as int, adv@, kern@),
        -MAX_WRAP_UNITS <= x <= MAX_WRAP_UNITS,
    ensures
        p@.len() == adv@.len(),
        forall|i: int| 0 <= i < p@.len() ==> #[trigger] p@[i] == pen_at(x as int, adv@, kern@, i),
{
    let mut p: Vec<i64> = Vec::new();
    let mut pen: i64 = x;
    let mut i: usize = 0;
    while i < adv.len()
        invariant
            metrics_ok(adv@.len() as int, adv@, kern@),
            -MAX_WRAP_UNITS <= x <= MAX_WRAP_UNITS,
            i <= adv@.len(),
            p@.len() == i,
            pen == pen_at(x as int, adv@, kern@, i as int),
            -MAX_WRAP_UNITS - 1048576 * i <= pen <= MAX_WRAP_UNITS + 2097152 * i,
            forall|j: int| 0 <= j < i ==> #[trigger] p@[j] == pen_at(x as int, adv@, kern@, j),
        decreases adv.len() - i,
    {
        p.push(pen);
        assert(0 <= adv@[i as int] <= MAX_GLYPH_UNITS);
        assert(-MAX_GLYPH_UNITS <= kern@[i as int] <= MAX_GLYPH_UNITS);
        pen = pen + adv[i] + kern[i];
        i = i + 1;
    }
    p
}

} // verus!
