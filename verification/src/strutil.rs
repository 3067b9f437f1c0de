//! Character-level string helpers.
//!
//! The crate's text processing works over `Vec<char>`, whose mathematical
//! view is the same `Seq<char>` that `str` and `String` expose; two
//! trusted shims move between the representations without changing the
//! character sequence.

use vstd::prelude::*;

verus! {

/// Relies on `str::chars` collected into a vector: the characters of the
/// string, in order.
#[verifier::external_body]
pub fn str_chars(s: &str) -> (r: Vec<char>)
    ensures
        r@ == s@,
{
    s.chars().collect()
}

/// Relies on `String`'s `FromIterator<char>`: the string made of exactly the
/// given characters, in order.
#[verifier::external_body]
pub fn chars_to_string(v: &Vec<char>) -> (r: String)
    ensures
        r@ == v@,
{
    v.iter().collect()
}

/// ASCII whitespace, the separator class of the tolerant token parsers.
pub open spec fn is_ascii_space(c: char) -> bool {
    c == ' ' || c == '\t' || c == '\n' || c == '\r' || c == '\u{c}'
}

/// A character with the Unicode `White_Space` property, the class stripped
/// from the edges of user-visible text.
pub open spec fn is_white_space(c: char) -> bool {
    ('\u{9}' <= c && c <= '\u{d}') || c == ' ' || c == '\u{85}' || c == '\u{a0}' || c
        == '\u{1680}' || ('\u{2000}' <= c && c <= '\u{200a}') || c == '\u{2028}' || c
        == '\u{2029}' || c == '\u{202f}' || c == '\u{205f}' || c == '\u{3000}'
}

/// Executable twin of `is_white_space`.
pub fn white_space(c: char) -> (r: bool)
    ensures
        r == is_white_space(c),
{
    ('\u{9}' <= c && c <= '\u{d}') || c == ' ' || c == '\u{85}' || c == '\u{a0}' || c
        == '\u{1680}' || ('\u{2000}' <= c && c <= '\u{200a}') || c == '\u{2028}' || c
        == '\u{2029}' || c == '\u{202f}' || c == '\u{205f}' || c == '\u{3000}'
}

/// Executable twin of `is_ascii_space`.
pub fn ascii_space(c: char) -> (r: bool)
    ensures
        r == is_ascii_space(c),
{
    c == ' ' || c == '\t' || c == '\n' || c == '\r' || c == '\u{c}'
}

/// The sequence with leading and trailing whitespace removed.
pub open spec fn spec_trim(s: Seq<char>) -> Seq<char>
    decreases s.len(),
{
    if s.len() == 0 {
        s
    } else if is_white_space(s[0]) {
        spec_trim(s.drop_first())
    } else if is_white_space(s[s.len() - 1]) {
        spec_trim(s.drop_last())
    } else {
        s
    }
}

/// Strip whitespace from both ends of the text.
pub fn trim_chars(s: &Vec<char>) -> (r: Vec<char>)
    ensures
        r@ == spec_trim(s@),
{
    let mut lo: usize = 0;
    let mut hi: usize = s.len();
    proof {
        assert(s@.subrange(0, s@.len() as int) =~= s@);
    }
    while lo < hi && white_space(s[lo])
        invariant
            lo <= hi <= s@.len(),
            spec_trim(s@) == spec_trim(s@.subrange(lo as int, hi as int)),
        decreases hi - lo,
    {
        proof {
            let sub = s@.subrange(lo as int, hi as int);
            assert(sub.drop_first() =~= s@.subrange(lo + 1, hi as int));
        }
        lo = lo + 1;
    }
    while lo < hi && white_space(s[hi - 1])
        invariant
            lo <= hi <= s@.len(),
            spec_trim(s@) == spec_trim(s@.subrange(lo as int, hi as int)),
            lo < hi ==> !is_white_space(s@[lo as int]),
        decreases hi - lo,
    {
        proof {
            let sub = s@.subrange(lo as int, hi as int);
            assert(sub.drop_last() =~= s@.subrange(lo as int, hi - 1));
        }
        hi = hi - 1;
    }
    let mut r: Vec<char> = Vec::new();
    let mut i: usize = lo;
    while i < hi
        invariant
            lo <= i <= hi <= s@.len(),
            r@ == s@.subrange(lo as int, i as int),
        decreases hi - i,
    {
        r.push(s[i]);
        proof {
            assert(s@.subrange(lo as int, i as int).push(s@[i as int]) =~= s@.subrange(
                lo as int,
                i + 1,
            ));
        }
        i = i + 1;
    }
    proof {
        let sub = s@.subrange(lo as int, hi as int);
        if lo < hi {
            assert(!is_white_space(sub[0]));
            assert(!is_white_space(sub[sub.len() - 1]));
            assert(spec_trim(sub) == sub);
        } else {
            assert(sub =~= Seq::<char>::empty());
        }
    }
    r
}

/// Trim a string at its character boundaries.
pub fn trim_str(s: &str) -> (r: String)
    ensures
        r@ == spec_trim(s@),
{
    let cs = str_chars(s);
    let t = trim_chars(&cs);
    chars_to_string(&t)
}

/// A lower-case ASCII letter.
pub open spec fn is_lower(c: char) -> bool {
    'a' <= c <= 'z'
}

/// An ASCII decimal digit.
pub open spec fn is_digit(c: char) -> bool {
    '0' <= c <= '9'
}

/// The character with upper-case ASCII letters folded to lower case; every
/// other character is left alone.
pub open spec fn spec_ascii_lower(c: char) -> char {
    if 'A' <= c <= 'Z' {
        ((c as u8) + 0x20) as char
    } else {
        c
    }
}

/// Fold one character to lower-case ASCII.
pub fn ascii_lower(c: char) -> (r: char)
    ensures
        r == spec_ascii_lower(c),
{
    if 'A' <= c && c <= 'Z' {
        (((c as u8) + 0x20) as char)
    } else {
        c
    }
}

/// The decimal digits of `n`, most significant first.
pub open spec fn spec_dec(n: nat) -> Seq<char>
    decreases n,
{
    if n < 10 {
        seq![(('0' as u8) + n as u8) as char]
    } else {
        spec_dec(n / 10) + seq![(('0' as u8) + (n % 10) as u8) as char]
    }
}

/// Render an integer in decimal.
pub fn dec_digits(n: u64) -> (r: Vec<char>)
    ensures
        r@ == spec_dec(n as nat),
    decreases n,
{
    if n < 10 {
        let d: u8 = ('0' as u8) + (n as u8);
        let mut r: Vec<char> = Vec::new();
        r.push(d as char);
        proof {
            assert(r@ =~= spec_dec(n as nat));
        }
        r
    } else {
        let mut r = dec_digits(n / 10);
        let d: u8 = ('0' as u8) + ((n % 10) as u8);
        r.push(d as char);
        proof {
            assert(r@ =~= spec_dec(n as nat));
        }
        r
    }
}

/// Push every character of `src` onto `dst`.
pub fn push_all(dst: &mut Vec<char>, src: &Vec<char>)
    ensures
        final(dst)@ == old(dst)@ + src@,
{
    let mut i: usize = 0;
    while i < src.len()
        invariant
            i <= src@.len(),
            dst@ == old(dst)@ + src@.take(i as int),
        decreases src@.len() - i,
    {
        dst.push(src[i]);
        proof {
            assert(old(dst)@ + src@.take(i as int) + seq![src@[i as int]] =~= old(dst)@
                + src@.take(i + 1));
        }
        i = i + 1;
    }
    proof {
        assert(src@.take(src@.len() as int) =~= src@);
    }
}

/// Push every character of the string slice onto `dst`.
pub fn push_str_chars(dst: &mut Vec<char>, src: &str)
    ensures
        final(dst)@ == old(dst)@ + src@,
{
    let cs = str_chars(src);
    push_all(dst, &cs);
}

/// Whether two string slices spell the same character sequence.
pub fn eq_str(a: &str, b: &str) -> (r: bool)
    ensures
        r == (a@ == b@),
{
    let ca = str_chars(a);
    let cb = str_chars(b);
    let n = ca.len();
    if n != cb.len() {
        return false;
    }
    let mut i: usize = 0;
    while i < n
        invariant
            i <= n,
            n == ca@.len() == cb@.len(),
            ca@ == a@,
            cb@ == b@,
            forall|k: int| 0 <= k < i ==> ca@[k] == cb@[k],
        decreases n - i,
    {
        if ca[i] != cb[i] {
            return false;
        }
        i = i + 1;
    }
    proof {
        assert(a@ =~= b@);
    }
    true
}

/// The views of a sequence of character vectors.
pub open spec fn tok_views(s: Seq<Vec<char>>) -> Seq<Seq<char>> {
    s.map_values(|t: Vec<char>| t@)
}

/// The length of the leading run of non-whitespace characters.
pub open spec fn spec_token_len(s: Seq<char>) -> int
    decreases s.len(),
{
    if s.len() == 0 {
        0
    } else if is_ascii_space(s[0]) {
        0
    } else {
        1 + spec_token_len(s.drop_first())
    }
}

/// A run of non-whitespace characters stopping at whitespace or the end is
/// the leading token run.
pub proof fn lemma_token_len_eq(s: Seq<char>, t: int)
    requires
        0 <= t <= s.len(),
        forall|k: int| 0 <= k < t ==> !is_ascii_space(#[trigger] s[k]),
        t == s.len() || is_ascii_space(s[t]),
    ensures
        spec_token_len(s) == t,
    decreases s.len(),
{
    if t == 0 {
    } else {
        assert(forall|k: int|
            0 <= k < s.drop_first().len() ==> #[trigger] s.drop_first()[k] == s[k + 1]);
        lemma_token_len_eq(s.drop_first(), t - 1);
    }
}

/// The text split at ASCII whitespace, empty tokens skipped.
pub open spec fn spec_split_ws(s: Seq<char>) -> Seq<Seq<char>>
    decreases s.len(),
{
    if s.len() == 0 {
        Seq::empty()
    } else if is_ascii_space(s[0]) {
        spec_split_ws(s.drop_first())
    } else {
        let t = spec_token_len(s);
        let t2 = if t < 1 {
            1
        } else if t > s.len() {
            s.len() as int
        } else {
            t
        };
        seq![s.take(t2)] + spec_split_ws(s.skip(t2))
    }
}

/// Split the text at ASCII whitespace, skipping empty tokens.
pub fn split_ws(v: &Vec<char>) -> (r: Vec<Vec<char>>)
    ensures
        tok_views(r@) == spec_split_ws(v@),
{
    let n = v.len();
    let mut r: Vec<Vec<char>> = Vec::new();
    let mut i: usize = 0;
    proof {
        assert(v@.skip(0) =~= v@);
        assert(tok_views(r@) =~= Seq::<Seq<char>>::empty());
    }
    while i < n
        invariant
            i <= n,
            n == v@.len(),
            spec_split_ws(v@) == tok_views(r@) + spec_split_ws(v@.skip(i as int)),
        decreases n - i,
    {
        if ascii_space(v[i]) {
            proof {
                assert(v@.skip(i as int).drop_first() =~= v@.skip(i + 1));
            }
            i = i + 1;
        } else {
            let mut j: usize = i + 1;
            while j < n && !ascii_space(v[j])
                invariant
                    i < j <= n,
                    n == v@.len(),
                    forall|k: int| i <= k < j ==> !is_ascii_space(#[trigger] v@[k]),
                decreases n - j,
            {
                j = j + 1;
            }
            let mut tok: Vec<char> = Vec::new();
            let mut k: usize = i;
            while k < j
                invariant
                    i <= k <= j <= n,
                    n == v@.len(),
                    tok@ == v@.subrange(i as int, k as int),
                decreases j - k,
            {
                tok.push(v[k]);
                proof {
                    assert(v@.subrange(i as int, k as int).push(v@[k as int]) =~= v@.subrange(
                        i as int,
                        k + 1,
                    ));
                }
                k = k + 1;
            }
            proof {
                let rest = v@.skip(i as int);
                assert(forall|m: int| 0 <= m < rest.len() ==> #[trigger] rest[m] == v@[i + m]);
                lemma_token_len_eq(rest, j - i);
                assert(rest.take(j - i) =~= v@.subrange(i as int, j as int));
                assert(rest.skip(j - i) =~= v@.skip(j as int));
                let ghost old_toks = tok_views(r@);
                assert(spec_split_ws(rest) == seq![tok@] + spec_split_ws(v@.skip(j as int)));
                assert(old_toks + (seq![tok@] + spec_split_ws(v@.skip(j as int)))
                    =~= old_toks.push(tok@) + spec_split_ws(v@.skip(j as int)));
            }
            let ghost old_toks = tok_views(r@);
            let ghost tv = tok@;
            r.push(tok);
            proof {
                assert(tok_views(r@) =~= old_toks.push(tv));
            }
            i = j;
        }
    }
    proof {
        assert(v@.skip(n as int) =~= Seq::<char>::empty());
        assert(tok_views(r@) + spec_split_ws(v@.skip(n as int)) =~= tok_views(r@));
    }
    r
}

/// The numeric value of a digit character.
pub open spec fn spec_digit_val(c: char) -> nat {
    (c as int - '0' as int) as nat
}

/// The value of a digit string, most significant digit first.
pub open spec fn spec_digits_val(s: Seq<char>) -> nat
    decreases s.len(),
{
    if s.len() == 0 {
        0
    } else {
        spec_digits_val(s.drop_last()) * 10 + spec_digit_val(s.last())
    }
}

/// Whether every character is an ASCII digit.
pub open spec fn spec_all_digits(s: Seq<char>) -> bool {
    forall|i: int| 0 <= i < s.len() ==> is_digit(#[trigger] s[i])
}

/// The unsigned decimal reading of the text: an optional `+`, then at
/// least one digit, with a value that fits.
pub open spec fn spec_parse_u64(s: Seq<char>) -> Option<u64> {
    let d = if s.len() > 0 && s[0] == '+' {
        s.drop_first()
    } else {
        s
    };
    if d.len() > 0 && spec_all_digits(d) && spec_digits_val(d) <= u64::MAX {
        Some(spec_digits_val(d) as u64)
    } else {
        None
    }
}

/// Parse the text as an unsigned 64-bit decimal number.
pub fn parse_u64(t: &Vec<char>) -> (r: Option<u64>)
    ensures
        r == spec_parse_u64(t@),
{
    let n = t.len();
    let start: usize = if n > 0 && t[0] == '+' {
        1
    } else {
        0
    };
    let ghost d = if t@.len() > 0 && t@[0] == '+' {
        t@.drop_first()
    } else {
        t@
    };
    proof {
        assert(forall|m: int| 0 <= m < d.len() ==> #[trigger] d[m] == t@[m + start]);
    }
    if n == start {
        return None;
    }
    let mut acc: u64 = 0;
    let mut fits = true;
    let mut j: usize = start;
    proof {
        assert(d.take(0) =~= Seq::<char>::empty());
    }
    while j < n
        invariant
            start <= j <= n,
            n == t@.len(),
            d == (if t@.len() > 0 && t@[0] == '+' {
                t@.drop_first()
            } else {
                t@
            }),
            d.len() == n - start,
            forall|m: int| 0 <= m < d.len() ==> #[trigger] d[m] == t@[m + start],
            forall|m: int| 0 <= m < j - start ==> is_digit(#[trigger] d[m]),
            fits ==> acc as nat == spec_digits_val(d.take(j - start)),
            !fits ==> spec_digits_val(d.take(j - start)) > u64::MAX,
        decreases n - j,
    {
        let c = t[j];
        if !('0' <= c && c <= '9') {
            proof {
                assert(d[j - start] == t@[j as int]);
                assert(!is_digit(d[j - start]));
                assert(!spec_all_digits(d));
            }
            return None;
        }
        let dv: u64 = ((c as u8) - ('0' as u8)) as u64;
        proof {
            assert(d.take(j - start + 1).drop_last() =~= d.take(j - start));
            assert(d.take(j - start + 1).last() == d[j - start]);
            assert(spec_digit_val(c) == dv as nat);
        }
        let ghost prev = spec_digits_val(d.take(j - start));
        if fits {
            if acc > (u64::MAX - dv) / 10 {
                fits = false;
                proof {
                    assert(prev * 10 + dv as nat > u64::MAX) by (nonlinear_arith)
                        requires
                            prev == acc as nat,
                            acc > (u64::MAX - dv) / 10,
                            dv <= 9,
                            acc <= u64::MAX,
                    ;
                }
            } else {
                proof {
                    assert(acc * 10 + dv <= u64::MAX) by (nonlinear_arith)
                        requires
                            acc <= (u64::MAX - dv) / 10,
                            dv <= 9,
                    ;
                }
                acc = acc * 10 + dv;
            }
        } else {
            proof {
                assert(prev * 10 + spec_digit_val(d[j - start]) >= prev);
            }
        }
        j = j + 1;
    }
    proof {
        assert(d.take(n - start) =~= d);
    }
    if fits {
        Some(acc)
    } else {
        None
    }
}

/// The position of the first occurrence of `c`, or the length when absent.
pub open spec fn idx_of(s: Seq<char>, c: char) -> int
    decreases s.len(),
{
    if s.len() == 0 {
        0
    } else if s[0] == c {
        0
    } else {
        1 + idx_of(s.drop_first(), c)
    }
}

/// The first-occurrence index is within bounds, points at `c` when `c`
/// occurs, and nothing before it is `c`.
pub proof fn lemma_idx_of(s: Seq<char>, c: char)
    ensures
        0 <= idx_of(s, c) <= s.len(),
        idx_of(s, c) < s.len() ==> s[idx_of(s, c)] == c,
        forall|k: int| 0 <= k < idx_of(s, c) ==> s[k] != c,
    decreases s.len(),
{
    if s.len() > 0 && s[0] != c {
        lemma_idx_of(s.drop_first(), c);
        assert forall|k: int| 0 <= k < idx_of(s, c) implies s[k] != c by {
            if k > 0 {
                assert(s[k] == s.drop_first()[k - 1]);
            }
        }
        if idx_of(s, c) < s.len() {
            assert(s[idx_of(s, c)] == s.drop_first()[idx_of(s.drop_first(), c)]);
        }
    }
}

/// A position holding `c` with no earlier occurrence is the
/// first-occurrence index.
pub proof fn lemma_idx_of_eq(s: Seq<char>, c: char, p: int)
    requires
        0 <= p <= s.len(),
        forall|k: int| 0 <= k < p ==> s[k] != c,
        p == s.len() || s[p] == c,
    ensures
        idx_of(s, c) == p,
    decreases s.len(),
{
    if p > 0 {
        assert(forall|k: int|
            0 <= k < s.drop_first().len() ==> #[trigger] s.drop_first()[k] == s[k + 1]);
        lemma_idx_of_eq(s.drop_first(), c, p - 1);
    }
}

/// Find the first occurrence of `c`, returning the length when absent.
pub fn find_char(t: &Vec<char>, c: char) -> (r: usize)
    ensures
        r as int == idx_of(t@, c),
{
    let n = t.len();
    let mut i: usize = 0;
    while i < n
        invariant
            i <= n,
            n == t@.len(),
            forall|k: int| 0 <= k < i ==> t@[k] != c,
        decreases n - i,
    {
        if t[i] == c {
            proof {
                lemma_idx_of_eq(t@, c, i as int);
            }
            return i;
        }
        i = i + 1;
    }
    proof {
        lemma_idx_of_eq(t@, c, n as int);
    }
    n
}

/// Copy the characters of `v` between `from` and `to`.
pub fn subvec(v: &Vec<char>, from: usize, to: usize) -> (r: Vec<char>)
    requires
        from <= to <= v@.len(),
    ensures
        r@ == v@.subrange(from as int, to as int),
{
    let mut r: Vec<char> = Vec::new();
    let mut k: usize = from;
    while k < to
        invariant
            from <= k <= to <= v@.len(),
            r@ == v@.subrange(from as int, k as int),
        decreases to - k,
    {
        r.push(v[k]);
        proof {
            assert(v@.subrange(from as int, k as int).push(v@[k as int]) =~= v@.subrange(
                from as int,
                k + 1,
            ));
        }
        k = k + 1;
    }
    r
}

/// Whether the character vector spells the given string.
pub fn tok_eq(t: &Vec<char>, lit: &str) -> (r: bool)
    ensures
        r == (t@ == lit@),
{
    let s = chars_to_string(t);
    eq_str(s.as_str(), lit)
}

/// Whether `item` occurs in `items`.
pub fn contains_string(items: &Vec<String>, item: &String) -> (r: bool)
    ensures
        r == items@.map_values(|s: String| s@).contains(item@),
{
    let view = Ghost(items@.map_values(|s: String| s@));
    let mut i: usize = 0;
    while i < items.len()
        invariant
            i <= items@.len(),
            view@ == items@.map_values(|s: String| s@),
            forall|j: int| 0 <= j < i ==> view@[j] != item@,
        decreases items@.len() - i,
    {
        if items[i].eq(item) {
            proof {
                assert(view@[i as int] == item@);
            }
            return true;
        }
        i = i + 1;
    }
    false
}

} // verus!
