//! Verified string helpers.
//!
//! Equality, case-insensitive ASCII equality, lexicographic order, decimal
//! rendering of integers, joining, and first-line extraction, each with an
//! exact contract over `Seq<char>`.

use vstd::prelude::*;

verus! {

/// Whether two strings hold the same characters.
pub fn str_eq(a: &str, b: &str) -> (r: bool)
    ensures
        r == (a@ == b@),
{
    let alen = a.unicode_len();
    let blen = b.unicode_len();
    if alen != blen {
        return false;
    }
    let mut i: usize = 0;
    while i < alen
        invariant
            alen == a@.len(),
            alen == b@.len(),
            0 <= i <= alen,
            forall|j: int| 0 <= j < i ==> a@[j] == b@[j],
        decreases alen - i,
    {
        if a.get_char(i) != b.get_char(i) {
            return false;
        }
        i += 1;
    }
    proof {
        assert(a@ =~= b@);
    }
    true
}

/// The lower-case form of an ASCII letter; other characters are unchanged.
pub open spec fn spec_lower_char(c: char) -> char {
    if 'A' <= c && c <= 'Z' {
        ((c as u8) + 32) as char
    } else {
        c
    }
}

/// The character-wise ASCII lower-case form of a string.
pub open spec fn spec_lower(s: Seq<char>) -> Seq<char> {
    s.map_values(|c: char| spec_lower_char(c))
}

/// Lower-cases an ASCII letter.
pub fn lower_char(c: char) -> (r: char)
    ensures
        r == spec_lower_char(c),
{
    if 'A' <= c && c <= 'Z' {
        (c as u8 + 32) as char
    } else {
        c
    }
}

/// Whether `a`, lower-cased character by character, equals `b`.
/// `b` is intended to be already lower-case.
pub fn str_eq_lower(a: &str, b: &str) -> (r: bool)
    ensures
        r == (spec_lower(a@) == b@),
{
    let alen = a.unicode_len();
    let blen = b.unicode_len();
    if alen != blen {
        proof {
            assert(spec_lower(a@).len() == a@.len());
        }
        return false;
    }
    let mut i: usize = 0;
    while i < alen
        invariant
            alen == a@.len(),
            alen == b@.len(),
            0 <= i <= alen,
            forall|j: int| 0 <= j < i ==> spec_lower_char(a@[j]) == b@[j],
        decreases alen - i,
    {
        if lower_char(a.get_char(i)) != b.get_char(i) {
            proof {
                assert(spec_lower(a@)[i as int] == spec_lower_char(a@[i as int]));
            }
            return false;
        }
        i += 1;
    }
    proof {
        assert(spec_lower(a@) =~= b@);
    }
    true
}

/// The decimal digit character for `d`, which must lie below ten.
pub open spec fn spec_digit(d: int) -> char {
    if d == 0 {
        '0'
    } else if d == 1 {
        '1'
    } else if d == 2 {
        '2'
    } else if d == 3 {
        '3'
    } else if d == 4 {
        '4'
    } else if d == 5 {
        '5'
    } else if d == 6 {
        '6'
    } else if d == 7 {
        '7'
    } else if d == 8 {
        '8'
    } else {
        '9'
    }
}

/// The decimal rendering of a non-negative integer.
pub open spec fn spec_dec(n: int) -> Seq<char>
    decreases n,
{
    if n < 10 {
        seq![spec_digit(n)]
    } else {
        spec_dec(n / 10) + seq![spec_digit(n % 10)]
    }
}

fn digit_str(d: u64) -> (r: &'static str)
    requires
        d < 10,
    ensures
        r@ =~= seq![spec_digit(d as int)],
{
    if d == 0 {
        proof { reveal_strlit("0"); }
        "0"
    } else if d == 1 {
        proof { reveal_strlit("1"); }
        "1"
    } else if d == 2 {
        proof { reveal_strlit("2"); }
        "2"
    } else if d == 3 {
        proof { reveal_strlit("3"); }
        "3"
    } else if d == 4 {
        proof { reveal_strlit("4"); }
        "4"
    } else if d == 5 {
        proof { reveal_strlit("5"); }
        "5"
    } else if d == 6 {
        proof { reveal_strlit("6"); }
        "6"
    } else if d == 7 {
        proof { reveal_strlit("7"); }
        "7"
    } else if d == 8 {
        proof { reveal_strlit("8"); }
        "8"
    } else {
        proof { reveal_strlit("9"); }
        "9"
    }
}

fn u64_dec_into(n: u64, out: &mut String)
    ensures
        final(out)@ == old(out)@ + spec_dec(n as int),
    decreases n,
{
    if n >= 10 {
        u64_dec_into(n / 10, out);
        out.append(digit_str(n % 10));
    } else {
        out.append(digit_str(n));
    }
}

/// Renders `n` in decimal.
pub fn u64_to_dec(n: u64) -> (r: String)
    ensures
        r@ == spec_dec(n as int),
{
    let mut out = String::new();
    u64_dec_into(n, &mut out);
    proof {
        assert(out@ =~= spec_dec(n as int));
    }
    out
}

/// The decimal rendering of a signed integer: a minus sign before the
/// magnitude when negative.
pub open spec fn spec_dec_i64(n: int) -> Seq<char> {
    if n >= 0 {
        spec_dec(n)
    } else {
        seq!['-'] + spec_dec(-n)
    }
}

/// Renders a signed integer in decimal.
pub fn i64_to_dec(n: i64) -> (r: String)
    ensures
        r@ == spec_dec_i64(n as int),
{
    if n >= 0 {
        u64_to_dec(n as u64)
    } else {
        let mag: u64 = if n == i64::MIN {
            9223372036854775808u64
        } else {
            (-n) as u64
        };
        let mut out = String::new();
        proof { reveal_strlit("-"); }
        out.append("-");
        u64_dec_into(mag, &mut out);
        proof {
            assert(out@ =~= spec_dec_i64(n as int));
        }
        out
    }
}

/// `a` is at most `b` in lexicographic order over character code points.
pub open spec fn lex_le(a: Seq<char>, b: Seq<char>) -> bool
    decreases a.len(),
{
    if a.len() == 0 {
        true
    } else if b.len() == 0 {
        false
    } else if (a[0] as u32) < (b[0] as u32) {
        true
    } else if (a[0] as u32) > (b[0] as u32) {
        false
    } else {
        lex_le(a.subrange(1, a.len() as int), b.subrange(1, b.len() as int))
    }
}

/// Decides `lex_le` on two strings.
pub fn str_le(a: &str, b: &str) -> (r: bool)
    ensures
        r == lex_le(a@, b@),
{
    let alen = a.unicode_len();
    let blen = b.unicode_len();
    let mut i: usize = 0;
    proof {
        assert(a@.subrange(0, alen as int) =~= a@);
        assert(b@.subrange(0, blen as int) =~= b@);
    }
    loop
        invariant
            alen == a@.len(),
            blen == b@.len(),
            0 <= i <= alen,
            0 <= i <= blen,
            forall|j: int| 0 <= j < i ==> a@[j] == b@[j],
            lex_le(a@, b@) == lex_le(
                a@.subrange(i as int, alen as int),
                b@.subrange(i as int, blen as int),
            ),
        decreases alen - i,
    {
        proof {
            assert(a@.subrange(i as int, alen as int).len() == alen - i);
            assert(b@.subrange(i as int, blen as int).len() == blen - i);
        }
        if i == alen {
            return true;
        }
        if i == blen {
            return false;
        }
        let ca = a.get_char(i);
        let cb = b.get_char(i);
        proof {
            assert(a@.subrange(i as int, alen as int)[0] == a@[i as int]);
            assert(b@.subrange(i as int, blen as int)[0] == b@[i as int]);
        }
        if (ca as u32) < (cb as u32) {
            return true;
        }
        if (ca as u32) > (cb as u32) {
            return false;
        }
        proof {
            assert(a@.subrange(i as int, alen as int).subrange(
                1,
                (alen - i) as int,
            ) =~= a@.subrange(i + 1, alen as int));
            assert(b@.subrange(i as int, blen as int).subrange(
                1,
                (blen - i) as int,
            ) =~= b@.subrange(i + 1, blen as int));
        }
        i += 1;
    }
}

/// The strings of `parts`, joined by `sep`.
pub open spec fn spec_join(parts: Seq<Seq<char>>, sep: Seq<char>) -> Seq<char>
    decreases parts.len(),
{
    if parts.len() == 0 {
        Seq::empty()
    } else if parts.len() == 1 {
        parts[0]
    } else {
        spec_join(parts.subrange(0, parts.len() - 1), sep) + sep + parts[parts.len() - 1]
    }
}

/// Joins the strings of `parts` with `sep` between neighbours.
pub fn join_strings(parts: &Vec<String>, sep: &str) -> (r: String)
    ensures
        r@ == spec_join(parts.deep_view(), sep@),
{
    let mut out = String::new();
    let mut i: usize = 0;
    while i < parts.len()
        invariant
            0 <= i <= parts@.len(),
            out@ == spec_join(parts.deep_view().subrange(0, i as int), sep@),
        decreases parts@.len() - i,
    {
        if i > 0 {
            out.append(sep);
        }
        out.append(parts[i].as_str());
        proof {
            let dv = parts.deep_view();
            assert(dv.subrange(0, i + 1).subrange(0, i as int) =~= dv.subrange(0, i as int));
            assert(dv.subrange(0, i + 1)[i as int] == dv[i as int]);
            assert(dv[i as int] == parts@[i as int]@);
            if i == 0 {
                assert(out@ =~= spec_join(dv.subrange(0, 1), sep@));
            }
        }
        i += 1;
    }
    proof {
        assert(parts.deep_view().subrange(0, parts@.len() as int) =~= parts.deep_view());
    }
    out
}

/// Relies on `String::push`: appends exactly the given character.
#[verifier::external_body]
pub(crate) fn push_char(s: &mut String, c: char)
    ensures
        final(s)@ == old(s)@ + seq![c],
{
    s.push(c);
}

/// Whether `c` has the White_Space property, as the Unicode table fixes it.
pub open spec fn is_ws(c: char) -> bool {
    c == ' ' || c == '\t' || c == '\n' || c == '\r' || c == '\u{b}' || c == '\u{c}' || c
        == '\u{85}' || c == '\u{a0}' || c == '\u{1680}' || ('\u{2000}' <= c && c <= '\u{200a}')
        || c == '\u{2028}' || c == '\u{2029}' || c == '\u{202f}' || c == '\u{205f}' || c
        == '\u{3000}'
}

/// Decides `is_ws`.
pub fn char_is_ws(c: char) -> (r: bool)
    ensures
        r == is_ws(c),
{
    c == ' ' || c == '\t' || c == '\n' || c == '\r' || c == '\u{b}' || c == '\u{c}' || c
        == '\u{85}' || c == '\u{a0}' || c == '\u{1680}' || ('\u{2000}' <= c && c <= '\u{200a}')
        || c == '\u{2028}' || c == '\u{2029}' || c == '\u{202f}' || c == '\u{205f}' || c
        == '\u{3000}'
}

/// `s` without leading and trailing white space.
pub open spec fn trim_ws(s: Seq<char>) -> Seq<char> {
    if exists|i: int| 0 <= i < s.len() && !is_ws(s[i]) {
        let lo = choose|i: int|
            0 <= i < s.len() && !is_ws(s[i]) && forall|j: int| 0 <= j < i ==> is_ws(s[j]);
        let hi = choose|i: int|
            0 <= i < s.len() && !is_ws(s[i]) && forall|j: int| i < j < s.len() ==> is_ws(s[j]);
        s.subrange(lo, hi + 1)
    } else {
        Seq::empty()
    }
}

/// Trims white space from both ends.
#[verifier::loop_isolation(false)]
pub fn str_trim_ws(s: &str) -> (r: String)
    ensures
        r@ == trim_ws(s@),
{
    let len = s.unicode_len();
    let mut lo: usize = 0;
    while lo < len && char_is_ws(s.get_char(lo))
        invariant
            len == s@.len(),
            0 <= lo <= len,
            forall|j: int| 0 <= j < lo ==> is_ws(s@[j]),
        decreases len - lo,
    {
        lo += 1;
    }
    if lo == len {
        proof {
            assert(!(exists|i: int| 0 <= i < s@.len() && !is_ws(s@[i])));
        }
        return String::new();
    }
    let mut hi: usize = len - 1;
    while hi > lo && char_is_ws(s.get_char(hi))
        invariant
            len == s@.len(),
            lo <= hi < len,
            !is_ws(s@[lo as int]),
            forall|j: int| hi < j < len ==> is_ws(s@[j]),
        decreases hi,
    {
        hi -= 1;
    }
    proof {
        let wlo = choose|i: int|
            0 <= i < s@.len() && !is_ws(s@[i]) && forall|j: int| 0 <= j < i ==> is_ws(s@[j]);
        let whi = choose|i: int|
            0 <= i < s@.len() && !is_ws(s@[i]) && forall|j: int| i < j < s@.len() ==> is_ws(s@[j]);
        assert(wlo == lo as int);
        assert(whi == hi as int);
    }
    s.substring_char(lo, hi + 1).to_owned()
}

/// Splitting on a separator: the accumulator holds the finished tokens and
/// the run being read; empty runs are dropped.
pub open spec fn split_step(
    acc: (Seq<Seq<char>>, Seq<char>),
    c: char,
    sep: char,
) -> (Seq<Seq<char>>, Seq<char>) {
    if c == sep {
        if acc.1.len() > 0 {
            (acc.0.push(acc.1), Seq::empty())
        } else {
            acc
        }
    } else {
        (acc.0, acc.1.push(c))
    }
}

/// The split state after reading all of `s`.
pub open spec fn split_fold(s: Seq<char>, sep: char) -> (Seq<Seq<char>>, Seq<char>)
    decreases s.len(),
{
    if s.len() == 0 {
        (Seq::empty(), Seq::empty())
    } else {
        split_step(split_fold(s.subrange(0, s.len() - 1), sep), s[s.len() - 1], sep)
    }
}

/// The non-empty runs of `s` between separators, in order.
pub open spec fn split_tokens(s: Seq<char>, sep: char) -> Seq<Seq<char>> {
    let f = split_fold(s, sep);
    if f.1.len() > 0 {
        f.0.push(f.1)
    } else {
        f.0
    }
}

/// Splits `s` on `sep`, dropping empty runs.
#[verifier::loop_isolation(false)]
pub fn split_string(s: &str, sep: char) -> (r: Vec<String>)
    ensures
        r.deep_view() == split_tokens(s@, sep),
{
    let len = s.unicode_len();
    let mut out: Vec<String> = Vec::new();
    let mut cur = String::new();
    let mut i: usize = 0;
    proof {
        assert(s@.subrange(0, 0) =~= Seq::<char>::empty());
        assert(out.deep_view() =~= Seq::<Seq<char>>::empty());
    }
    while i < len
        invariant
            len == s@.len(),
            0 <= i <= len,
            (out.deep_view(), cur@) == split_fold(s@.subrange(0, i as int), sep),
        decreases len - i,
    {
        let ghost prev = out.deep_view();
        let c = s.get_char(i);
        if c == sep {
            if cur.unicode_len() > 0 {
                out.push(cur);
                cur = String::new();
                proof {
                    assert(out.deep_view() =~= prev.push(
                        split_fold(s@.subrange(0, i as int), sep).1,
                    ));
                }
            }
        } else {
            push_char(&mut cur, c);
        }
        proof {
            assert(s@.subrange(0, i + 1).subrange(0, i as int) =~= s@.subrange(0, i as int));
            assert(s@.subrange(0, i + 1)[i as int] == s@[i as int]);
        }
        i += 1;
    }
    proof {
        assert(s@.subrange(0, len as int) =~= s@);
    }
    if cur.unicode_len() > 0 {
        let ghost prev = out.deep_view();
        out.push(cur);
        proof {
            assert(out.deep_view() =~= prev.push(split_fold(s@, sep).1));
        }
        out
    } else {
        out
    }
}

/// `lex_le` in one direction or the other: the order is total.
pub proof fn lemma_lex_total(a: Seq<char>, b: Seq<char>)
    ensures
        lex_le(a, b) || lex_le(b, a),
    decreases a.len(),
{
    if a.len() == 0 || b.len() == 0 {
    } else if (a[0] as u32) < (b[0] as u32) {
    } else if (a[0] as u32) > (b[0] as u32) {
    } else {
        lemma_lex_total(a.subrange(1, a.len() as int), b.subrange(1, b.len() as int));
    }
}

/// Two characters with the same code point are the same character.
pub proof fn lemma_char_inj(c1: char, c2: char)
    requires
        c1 as u32 == c2 as u32,
    ensures
        c1 == c2,
{
}

/// `lex_le` both ways only on equal strings: the order is antisymmetric.
pub proof fn lemma_lex_antisym(a: Seq<char>, b: Seq<char>)
    requires
        lex_le(a, b),
        lex_le(b, a),
    ensures
        a == b,
    decreases a.len(),
{
    if a.len() == 0 {
        assert(b.len() == 0);
        assert(a =~= b);
    } else {
        assert(b.len() > 0);
        let x = a[0];
        let y = b[0];
        assert(!((x as u32) < (y as u32)));
        assert(!((y as u32) < (x as u32)));
        assert(x as u32 == y as u32);
        lemma_char_inj(x, y);
        assert(x == y);
        let sa = a.subrange(1, a.len() as int);
        let sb = b.subrange(1, b.len() as int);
        lemma_lex_antisym(sa, sb);
        assert forall|i: int| 0 <= i < a.len() implies a[i] == b[i] by {
            if i > 0 {
                assert(a[i] == sa[i - 1]);
                assert(b[i] == sb[i - 1]);
            }
        }
        assert(a =~= b);
    }
}

/// `lex_le` carries over a middle term: the order is transitive.
pub proof fn lemma_lex_trans(a: Seq<char>, b: Seq<char>, c: Seq<char>)
    requires
        lex_le(a, b),
        lex_le(b, c),
    ensures
        lex_le(a, c),
    decreases a.len(),
{
    if a.len() == 0 {
    } else if b.len() == 0 || c.len() == 0 {
    } else if (a[0] as u32) < (c[0] as u32) {
    } else {
        if (a[0] as u32) == (b[0] as u32) && (b[0] as u32) == (c[0] as u32) {
            lemma_lex_trans(
                a.subrange(1, a.len() as int),
                b.subrange(1, b.len() as int),
                c.subrange(1, c.len() as int),
            );
        }
    }
}

} // verus!
