use vstd::prelude::*;

verus! {

/// Relies on `str::chars` and `Iterator::collect`: the characters of `s` in order.
#[verifier::external_body]
pub(crate) fn str_chars(s: &str) -> (r: Vec<char>)
    ensures
        r@ == s@,
{
    s.chars().collect()
}

/// Relies on `Iterator::collect` into a `String`: the string of the characters of `v`.
#[verifier::external_body]
pub(crate) fn chars_string(v: &Vec<char>) -> (r: String)
    ensures
        r@ == v@,
{
    v.iter().collect()
}

pub open spec fn starts_at(s: Seq<char>, i: int, pat: Seq<char>) -> bool {
    0 <= i && i + pat.len() <= s.len() && s.subrange(i, i + pat.len() as int) == pat
}

/// `s` with every occurrence of `pat` replaced by `rep`, scanning from the
/// left and never matching inside a replaced occurrence.
pub open spec fn replace_all(s: Seq<char>, pat: Seq<char>, rep: Seq<char>) -> Seq<char>
    decreases s.len(),
{
    if s.len() == 0 {
        s
    } else if pat.len() > 0 && starts_at(s, 0, pat) {
        rep + replace_all(s.skip(pat.len() as int), pat, rep)
    } else {
        seq![s[0]] + replace_all(s.skip(1), pat, rep)
    }
}

fn matches_at(s: &Vec<char>, i: usize, pat: &[char]) -> (r: bool)
    requires
        i <= s@.len(),
    ensures
        r == starts_at(s@, i as int, pat@),
{
    let n = s.len();
    if pat.len() > n - i {
        return false;
    }
    let mut j: usize = 0;
    while j < pat.len()
        invariant
            n == s@.len(),
            i + pat@.len() <= s@.len(),
            j <= pat@.len(),
            forall|q: int| 0 <= q < j ==> s@[i + q] == pat@[q],
        decreases pat.len() - j,
    {
        if s[i + j] != pat[j] {
            assert(s@.subrange(i as int, i + pat@.len())[j as int] != pat@[j as int]);
            return false;
        }
        j = j + 1;
    }
    assert(s@.subrange(i as int, i + pat@.len()) =~= pat@);
    true
}

/// Replaces every occurrence of `pat` in `s` by `rep`, left to right.
pub fn replace_chars(s: &Vec<char>, pat: &[char], rep: &[char]) -> (r: Vec<char>)
    ensures
        r@ == replace_all(s@, pat@, rep@),
{
    let mut out: Vec<char> = Vec::new();
    let mut i: usize = 0;
    assert(s@.skip(0) =~= s@);
    while i < s.len()
        invariant
            i <= s@.len(),
            out@ + replace_all(s@.skip(i as int), pat@, rep@) == replace_all(s@, pat@, rep@),
        decreases s.len() - i,
    {
        let ghost rest = s@.skip(i as int);
        let ghost before = out@;
        if pat.len() > 0 && matches_at(s, i, pat) {
            assert(rest.subrange(0, pat@.len() as int) =~= s@.subrange(i as int, i + pat@.len()));
            assert(rest.skip(pat@.len() as int) =~= s@.skip(i + pat@.len()));
            let mut k: usize = 0;
            while k < rep.len()
                invariant
                    k <= rep@.len(),
                    out@ == before + rep@.take(k as int),
                decreases rep.len() - k,
            {
                out.push(rep[k]);
                k = k + 1;
                assert(rep@.take(k as int) =~= rep@.take(k - 1).push(rep@[k - 1]));
            }
            assert(rep@.take(rep@.len() as int) =~= rep@);
            i = i + pat.len();
            assert(out@ + replace_all(s@.skip(i as int), pat@, rep@) =~= before + replace_all(rest, pat@, rep@));
        } else {
            proof {
                if pat@.len() > 0 && starts_at(rest, 0, pat@) {
                    assert(rest.subrange(0, pat@.len() as int) =~= s@.subrange(i as int, i + pat@.len()));
                }
            }
            out.push(s[i]);
            i = i + 1;
            assert(rest.skip(1) =~= s@.skip(i as int));
            assert(out@ + replace_all(s@.skip(i as int), pat@, rep@) =~= before + replace_all(rest, pat@, rep@));
        }
    }
    assert(out@ + replace_all(s@.skip(i as int), pat@, rep@) =~= out@);
    out
}

/// Escaped line breaks made real: `\r\n`, then `\n`, then `\r` (each written
/// with backslashes) become one line break, in that order.
pub open spec fn spec_unescape(s: Seq<char>) -> Seq<char> {
    replace_all(
        replace_all(replace_all(s, seq!['\\', 'r', '\\', 'n'], seq!['\n']), seq!['\\', 'n'], seq!['\n']),
        seq!['\\', 'r'],
        seq!['\n'],
    )
}

/// Turns the escaped line breaks of a tweet's text into real ones.
pub fn unescape_newlines(text: &str) -> (r: String)
    ensures
        r@ == spec_unescape(text@),
{
    let s = str_chars(text);
    let nl = ['\n'];
    let esc_n = ['\\', 'n'];
    let esc_crlf = ['\\', 'r', '\\', 'n'];
    let esc_r = ['\\', 'r'];
    assert(nl@ == seq!['\n']);
    assert(esc_n@ == seq!['\\', 'n']);
    assert(esc_crlf@ == seq!['\\', 'r', '\\', 'n']);
    assert(esc_r@ == seq!['\\', 'r']);
    let a = replace_chars(&s, &esc_crlf, &nl);
    let b = replace_chars(&a, &esc_n, &nl);
    let c = replace_chars(&b, &esc_r, &nl);
    chars_string(&c)
}

/// The characters a display name keeps: ASCII letters and digits, and a few symbols.
pub open spec fn name_char(c: char) -> bool {
    ('a' <= c && c <= 'z') || ('A' <= c && c <= 'Z') || ('0' <= c && c <= '9') || c == ' ' || c == '@'
        || c == '#' || c == '_' || c == '-' || c == '.' || c == '(' || c == ')' || c == '[' || c == ']'
        || c == '{' || c == '}' || c == ':' || c == ';' || c == '<' || c == '>' || c == ',' || c == '/'
        || c == '\\' || c == '`' || c == '~' || c == '$' || c == '%' || c == '\n'
}

pub open spec fn name_pred() -> spec_fn(char) -> bool {
    |c: char| name_char(c)
}

fn is_name_char(c: char) -> (r: bool)
    ensures
        r == name_char(c),
{
    ('a' <= c && c <= 'z') || ('A' <= c && c <= 'Z') || ('0' <= c && c <= '9') || c == ' ' || c == '@'
        || c == '#' || c == '_' || c == '-' || c == '.' || c == '(' || c == ')' || c == '[' || c == ']'
        || c == '{' || c == '}' || c == ':' || c == ';' || c == '<' || c == '>' || c == ',' || c == '/'
        || c == '\\' || c == '`' || c == '~' || c == '$' || c == '%' || c == '\n'
}

/// Drops from a display name every character that the card's font may not
/// have (emoji and the like).
pub fn clean_text(name: &str) -> (r: String)
    ensures
        r@ == name@.filter(name_pred()),
{
    let s = str_chars(name);
    
    let mut out: Vec<char> = Vec::new();
    let mut i: usize = 0;
    while i < s.len()
        invariant
            i <= s@.len(),
            s@ == name@,
            out@ == s@.take(i as int).filter(name_pred()),
        decreases s.len() - i,
    {
        let c = s[i];
        proof {
            reveal(Seq::filter);
            assert(s@.take(i + 1).drop_last() =~= s@.take(i as int));
            assert(s@.take(i + 1).last() == c);
            assert(name_pred()(c) == name_char(c));
            assert(s@.take(i + 1).filter(name_pred()) == if name_char(c) {
                s@.take(i as int).filter(name_pred()).push(c)
            } else {
                s@.take(i as int).filter(name_pred())
            });
        }
        if is_name_char(c) {
            out.push(c);
        }
        i = i + 1;
    }
    assert(s@.take(s@.len() as int) =~= s@);
    chars_string(&out)
}

/// `prefix` followed by `tail`.
pub(crate) fn join(prefix: &[char], tail: &str) -> (r: String)
    ensures
        r@ == prefix@ + tail@,
{
    let t = str_chars(tail);
    let mut v: Vec<char> = Vec::new();
    let mut i: usize = 0;
    while i < prefix.len()
        invariant
            i <= prefix@.len(),
            v@ == prefix@.take(i as int),
        decreases prefix.len() - i,
    {
        v.push(prefix[i]);
        i = i + 1;
        assert(v@ =~= prefix@.take(i as int));
    }
    let mut j: usize = 0;
    while j < t.len()
        invariant
            i == prefix@.len(),
            j <= t@.len(),
            v@ == prefix@ + t@.take(j as int),
        decreases t.len() - j,
    {
        v.push(t[j]);
        j = j + 1;
        assert(v@ =~= prefix@ + t@.take(j as int));
    }
    assert(prefix@.take(prefix@.len() as int) =~= prefix@);
    assert(t@.take(t@.len() as int) =~= t@);
    chars_string(&v)
}

} // verus!
