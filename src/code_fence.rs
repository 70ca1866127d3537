use vstd::prelude::*;
use crate::layout::{split_words, words_in, usize_pairs};
use crate::og::has_prefix;
use crate::text::{str_chars, chars_string};

verus! {

pub open spec fn title_key() -> Seq<char> {
    seq!['t', 'i', 't', 'l', 'e', '=']
}

/// The value of a `title=` attribute: what follows the `=`, without one pair
/// of matching surrounding quotes; an empty value is no value.
pub open spec fn title_value(word: Seq<char>) -> Option<Seq<char>> {
    let v = word.skip(6);
    if v.len() == 0 {
        None
    } else if v.len() >= 2 && ((v[0] == '"' && v.last() == '"') || (v[0] == '\'' && v.last() == '\'')) {
        Some(v.subrange(1, v.len() - 1))
    } else {
        Some(v)
    }
}

/// The first of the words `k..` that starts with `title=`, as a range.
pub open spec fn first_title(s: Seq<char>, ws: Seq<(int, int)>, k: int) -> Option<(int, int)>
    decreases ws.len() - k,
{
    if k < 0 || k >= ws.len() {
        None
    } else if has_prefix(s.subrange(ws[k].0, ws[k].1), title_key()) {
        Some(ws[k])
    } else {
        first_title(s, ws, k + 1)
    }
}

/// The language of a code fence's info string (its first word), and the
/// file name of its `title=` attribute (the first word that starts so).
pub open spec fn spec_fence_info(s: Seq<char>) -> (Option<Seq<char>>, Option<Seq<char>>) {
    let ws = words_in(s, 0, s.len() as int);
    let lang = if ws.len() > 0 { Some(s.subrange(ws[0].0, ws[0].1)) } else { None };
    let file = match first_title(s, ws, 0) {
        None => None,
        Some(w) => title_value(s.subrange(w.0, w.1)),
    };
    (lang, file)
}

fn slice_chars(s: &Vec<char>, a: usize, b: usize) -> (r: Vec<char>)
    requires
        a <= b <= s@.len(),
    ensures
        r@ == s@.subrange(a as int, b as int),
{
    let mut r: Vec<char> = Vec::new();
    let mut i: usize = a;
    while i < b
        invariant
            a <= i <= b <= s@.len(),
            r@ == s@.subrange(a as int, i as int),
        decreases b - i,
    {
        r.push(s[i]);
        i = i + 1;
        assert(r@ =~= s@.subrange(a as int, i as int));
    }
    r
}

proof fn lemma_words_in_range(s: Seq<char>)
    ensures
        forall|j: int| 0 <= j < words_in(s, 0, s.len() as int).len() ==>
            0 <= (#[trigger] words_in(s, 0, s.len() as int)[j]).0 < words_in(s, 0, s.len() as int)[j].1 <= s.len(),
{
    crate::layout::lemma_words_in_bounds(s, 0, s.len() as int);
}

/// Reads the language and the file name out of a code fence's info string,
/// such as `rust title="main.rs"`.
pub fn extract_language_and_filename(info_string: &str) -> (r: (Option<String>, Option<String>))
    ensures
        (match r.0 { Some(l) => Some(l@), None => None }) == spec_fence_info(info_string@).0,
        (match r.1 { Some(f) => Some(f@), None => None }) == spec_fence_info(info_string@).1,
{
    let s = str_chars(info_string);
    let n = s.len();
    let ws = split_words(&s, 0, n);
    let ghost wv = words_in(s@, 0, n as int);
    proof {
        lemma_words_in_range(s@);
    }
    let language = if ws.len() > 0 {
        let (a, b) = ws[0];
        assert(wv[0] == (a as int, b as int));
        Some(chars_string(&slice_chars(&s, a, b)))
    } else {
        None
    };
    let key = ['t', 'i', 't', 'l', 'e', '='];
    assert(key@ == title_key());
    let mut k: usize = 0;
    let mut found: Option<(usize, usize)> = None;
    while k < ws.len() && found.is_none()
        invariant
            usize_pairs(ws@) == wv,
            s@ == info_string@,
            n == s@.len(),
            wv == words_in(s@, 0, n as int),
            key@ == title_key(),
            forall|j: int| 0 <= j < wv.len() ==> 0 <= (#[trigger] wv[j]).0 < wv[j].1 <= s@.len(),
            k <= wv.len(),
            found is None ==> first_title(s@, wv, 0) == first_title(s@, wv, k as int),
            found is Some ==> first_title(s@, wv, 0) == Some(((found->0).0 as int, (found->0).1 as int)),
            found is Some ==> (found->0).0 < (found->0).1 <= s@.len(),
            found is Some ==> has_prefix(s@.subrange((found->0).0 as int, (found->0).1 as int), title_key()),
        decreases ws.len() - k + (if found is None { 1int } else { 0 }),
    {
        let (a, b) = ws[k];
        assert(wv[k as int] == (a as int, b as int));
        let word = slice_chars(&s, a, b);
        if crate::og::starts_with(&word, &key) {
            assert(first_title(s@, wv, k as int) == Some(wv[k as int]));
            found = Some((a, b));
        } else {
            k = k + 1;
        }
    }
    let filename = match found {
        None => None,
        Some((a, b)) => {
            let word = slice_chars(&s, a, b);
            assert(word@.len() >= 6);
            let v = slice_chars(&word, 6, word.len());
            assert(v@ =~= word@.skip(6));
            assert(title_value(word@) == title_value(s@.subrange(a as int, b as int)));
            let m = v.len();
            if m == 0 {
                None
            } else if m >= 2 && ((v[0] == '"' && v[m - 1] == '"') || (v[0] == '\'' && v[m - 1] == '\'')) {
                Some(chars_string(&slice_chars(&v, 1, m - 1)))
            } else {
                Some(chars_string(&v))
            }
        },
    };
    (language, filename)
}

} // verus!
