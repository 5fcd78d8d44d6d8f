//! Character-level string helpers with their mathematical meaning.
//!
//! Strings are seen through their views, sequences of `char`.  Byte-level
//! facts go through vstd's UTF-8 model (`encode_utf8`).
use vstd::prelude::*;
use vstd::utf8::*;
use vstd::string::StringSliceAdditionalSpecFns;

verus! {

/// The Unicode `White_Space` characters, which `str::trim` removes.
pub open spec fn is_space(c: char) -> bool {
    ||| ('\t' <= c && c <= '\r')
    ||| c == ' '
    ||| c == '\u{85}'
    ||| c == '\u{a0}'
    ||| c == '\u{1680}'
    ||| ('\u{2000}' <= c && c <= '\u{200a}')
    ||| c == '\u{2028}'
    ||| c == '\u{2029}'
    ||| c == '\u{202f}'
    ||| c == '\u{205f}'
    ||| c == '\u{3000}'
}

/// `s` without its leading white space.
pub open spec fn trim_start(s: Seq<char>) -> Seq<char>
    decreases s.len(),
{
    if s.len() > 0 && is_space(s[0]) {
        trim_start(s.drop_first())
    } else {
        s
    }
}

/// `s` without its trailing white space.
pub open spec fn trim_end(s: Seq<char>) -> Seq<char>
    decreases s.len(),
{
    if s.len() > 0 && is_space(s.last()) {
        trim_end(s.drop_last())
    } else {
        s
    }
}

/// `s` without leading and trailing white space (`str::trim`).
pub open spec fn trim(s: Seq<char>) -> Seq<char> {
    trim_end(trim_start(s))
}

/// `p` is a prefix of `s`.
pub open spec fn starts_with(s: Seq<char>, p: Seq<char>) -> bool {
    p.len() <= s.len() && s.subrange(0, p.len() as int) == p
}

/// `p` occurs in `s` at position `i`.
pub open spec fn occurs_at(s: Seq<char>, p: Seq<char>, i: int) -> bool {
    0 <= i && i + p.len() <= s.len() && s.subrange(i, i + p.len()) == p
}

/// `p` occurs somewhere in `s` (`str::contains`).
pub open spec fn contains(s: Seq<char>, p: Seq<char>) -> bool {
    exists|i: int| occurs_at(s, p, i)
}

/// The pieces of `s` between `'\n'` characters; there is always one piece
/// more than there are newlines.
pub open spec fn split_newlines(s: Seq<char>) -> Seq<Seq<char>>
    decreases s.len(),
{
    if s.len() == 0 {
        seq![Seq::<char>::empty()]
    } else {
        let r = split_newlines(s.drop_last());
        if s.last() == '\n' {
            r.push(Seq::<char>::empty())
        } else {
            r.update(r.len() - 1, r.last().push(s.last()))
        }
    }
}

/// A line that ended in `"\r\n"` loses its `'\r'`.
pub open spec fn strip_cr(l: Seq<char>) -> Seq<char> {
    if l.len() > 0 && l.last() == '\r' {
        l.drop_last()
    } else {
        l
    }
}

/// The lines of `s` as `str::lines` yields them: split at `'\n'`, a
/// `'\r'` before the `'\n'` removed, and no empty line after a final newline.
pub open spec fn lines(s: Seq<char>) -> Seq<Seq<char>> {
    let p = split_newlines(s);
    let n = if p.last().len() == 0 { p.len() - 1 } else { p.len() as int };
    Seq::new(n as nat, |i: int| if i < p.len() - 1 { strip_cr(p[i]) } else { p[i] })
}

/// The parts joined with `sep` between neighbours (`[..].join(sep)`).
pub open spec fn join(parts: Seq<Seq<char>>, sep: Seq<char>) -> Seq<char>
    decreases parts.len(),
{
    if parts.len() == 0 {
        Seq::<char>::empty()
    } else if parts.len() == 1 {
        parts[0]
    } else {
        join(parts.drop_last(), sep) + sep + parts.last()
    }
}

/// The views of a sequence of character vectors.
pub open spec fn views(v: Seq<Vec<char>>) -> Seq<Seq<char>> {
    v.map_values(|x: Vec<char>| x@)
}

/// The views of a sequence of strings.
pub open spec fn string_views(v: Seq<String>) -> Seq<Seq<char>> {
    v.map_values(|x: String| x@)
}

/// The number of bytes of the UTF-8 encoding of `s` (`str::len`).
pub open spec fn byte_len(s: Seq<char>) -> nat {
    encode_utf8(s).len()
}

/// `s` cut after its first `n` bytes, where `n` falls between two characters.
pub open spec fn byte_prefix(s: Seq<char>, n: int) -> Seq<char> {
    decode_utf8(encode_utf8(s).subrange(0, n))
}

/// Slicing `s` at byte `n` does not panic.
pub open spec fn cut_ok(s: Seq<char>, n: int) -> bool {
    is_char_boundary(encode_utf8(s), n)
}

/// The value of an ASCII decimal digit.
pub open spec fn digit_value(c: char) -> int {
    c as int - '0' as int
}

/// An ASCII decimal digit.
pub open spec fn is_digit(c: char) -> bool {
    '0' <= c && c <= '9'
}

/// The number written by the decimal digits `s`.
pub open spec fn decimal_value(s: Seq<char>) -> int
    decreases s.len(),
{
    if s.len() == 0 {
        0
    } else {
        decimal_value(s.drop_last()) * 10 + digit_value(s.last())
    }
}

/// Every character is an ASCII decimal digit.
pub open spec fn all_digits(s: Seq<char>) -> bool {
    forall|i: int| 0 <= i < s.len() ==> is_digit(#[trigger] s[i])
}

/// What `str::parse::<u32>` gives: an optional `'+'`, then at least one
/// decimal digit, and a value that fits in 32 bits.
pub open spec fn parse_u32(s: Seq<char>) -> Option<u32> {
    let d = if s.len() > 0 && s[0] == '+' { s.drop_first() } else { s };
    if d.len() > 0 && all_digits(d) && decimal_value(d) <= u32::MAX {
        Some(decimal_value(d) as u32)
    } else {
        None
    }
}

/// The decimal digits of `n`, without leading zeros (`"0"` for zero).
pub open spec fn decimal(n: nat) -> Seq<char>
    decreases n,
{
    if n < 10 {
        seq![(n + '0' as nat) as char]
    } else {
        decimal(n / 10).push(((n % 10) + '0' as nat) as char)
    }
}

/// The characters of a string slice, in order.
pub fn chars_of(s: &str) -> (v: Vec<char>)
    ensures
        v@ == s@,
{
    let mut v: Vec<char> = Vec::new();
    for c in it: s.chars()
        invariant
            v@ == it.seq().take(it.index()),
    {
        v.push(c);
    }
    v
}

/// Collects characters into a `String` (`FromIterator<char>` for `String`).
#[verifier::external_body]
pub(crate) fn string_of(v: &[char]) -> (s: String)
    ensures
        s@ == v@,
{
    v.iter().collect()
}

/// Whether `c` is white space in the sense of `char::is_whitespace`.
pub fn is_space_char(c: char) -> (b: bool)
    ensures
        b == is_space(c),
{
    ('\t' <= c && c <= '\r') || c == ' ' || c == '\u{85}' || c == '\u{a0}' || c == '\u{1680}' || (
    '\u{2000}' <= c && c <= '\u{200a}') || c == '\u{2028}' || c == '\u{2029}' || c == '\u{202f}'
        || c == '\u{205f}' || c == '\u{3000}'
}

/// The characters of `v` from `lo` up to `hi`.
pub fn sub_chars(v: &[char], lo: usize, hi: usize) -> (r: Vec<char>)
    requires
        lo <= hi <= v@.len(),
    ensures
        r@ == v@.subrange(lo as int, hi as int),
{
    let mut r: Vec<char> = Vec::new();
    let mut i = lo;
    while i < hi
        invariant
            lo <= i <= hi <= v@.len(),
            r@ == v@.subrange(lo as int, i as int),
        decreases hi - i,
    {
        r.push(v[i]);
        i = i + 1;
    }
    r
}

/// `a` followed by `b`.
pub fn concat_chars(a: &[char], b: &[char]) -> (r: Vec<char>)
    ensures
        r@ == a@ + b@,
{
    let mut r: Vec<char> = Vec::new();
    let mut i: usize = 0;
    while i < a.len()
        invariant
            i <= a@.len(),
            r@ == a@.subrange(0, i as int),
        decreases a.len() - i,
    {
        r.push(a[i]);
        i = i + 1;
    }
    let mut j: usize = 0;
    while j < b.len()
        invariant
            j <= b@.len(),
            i == a@.len(),
            r@ == a@ + b@.subrange(0, j as int),
        decreases b.len() - j,
    {
        r.push(b[j]);
        j = j + 1;
    }
    assert(a@.subrange(0, a@.len() as int) == a@);
    assert(b@.subrange(0, b@.len() as int) == b@);
    r
}

/// Where the non-space part of `v` starts.
pub fn trim_start_index(v: &[char]) -> (i: usize)
    ensures
        i <= v@.len(),
        trim_start(v@) == v@.subrange(i as int, v@.len() as int),
{
    let n = v.len();
    let mut i: usize = 0;
    assert(v@.subrange(0, n as int) == v@);
    while i < n && is_space_char(v[i])
        invariant
            i <= n == v@.len(),
            trim_start(v@) == trim_start(v@.subrange(i as int, n as int)),
        decreases n - i,
    {
        assert(v@.subrange(i as int, n as int).drop_first() == v@.subrange(i + 1, n as int));
        i = i + 1;
    }
    i
}

/// The characters of `v` without leading and trailing white space.
pub fn trim_chars(v: &[char]) -> (r: Vec<char>)
    ensures
        r@ == trim(v@),
{
    let n = v.len();
    let lo = trim_start_index(v);
    let mut hi: usize = n;
    while hi > lo && is_space_char(v[hi - 1])
        invariant
            lo <= hi <= n == v@.len(),
            trim(v@) == trim_end(v@.subrange(lo as int, hi as int)),
        decreases hi,
    {
        assert(v@.subrange(lo as int, hi as int).drop_last() == v@.subrange(
            lo as int,
            hi - 1,
        ));
        hi = hi - 1;
    }
    sub_chars(v, lo, hi)
}

/// Whether `p` occurs in `s` at position `i`.
pub fn occurs_at_exec(s: &[char], p: &[char], i: usize) -> (b: bool)
    ensures
        b == occurs_at(s@, p@, i as int),
{
    if i > s.len() || p.len() > s.len() - i {
        return false;
    }
    let mut k: usize = 0;
    while k < p.len()
        invariant
            i + p@.len() <= s@.len(),
            i + p.len() <= s.len(),
            k <= p@.len(),
            forall|j: int| 0 <= j < k ==> s@[i + j] == p@[j],
        decreases p.len() - k,
    {
        if s[i + k] != p[k] {
            assert(s@.subrange(i as int, i + p@.len())[k as int] != p@[k as int]);
            return false;
        }
        k = k + 1;
    }
    assert(s@.subrange(i as int, i + p@.len()) == p@);
    true
}

/// Whether `p` is a prefix of `s`.
pub fn starts_with_exec(s: &[char], p: &[char]) -> (b: bool)
    ensures
        b == starts_with(s@, p@),
{
    occurs_at_exec(s, p, 0)
}

/// Whether `p` occurs anywhere in `s`.
pub fn contains_exec(s: &[char], p: &[char]) -> (b: bool)
    ensures
        b == contains(s@, p@),
{
    if p.len() > s.len() {
        assert forall|i: int| !occurs_at(s@, p@, i) by {}
        return false;
    }
    let last = s.len() - p.len();
    let mut i: usize = 0;
    loop
        invariant
            last + p@.len() == s@.len(),
            i <= last,
            forall|j: int| 0 <= j < i ==> !occurs_at(s@, p@, j),
        ensures
            forall|j: int| 0 <= j <= last ==> !occurs_at(s@, p@, j),
        decreases last - i,
    {
        if occurs_at_exec(s, p, i) {
            return true;
        }
        if i == last {
            break;
        }
        i = i + 1;
    }
    assert forall|j: int| !occurs_at(s@, p@, j) by {
        if 0 <= j <= last {
        }
    }
    false
}

/// The lines of `s` (`str::lines`).
pub fn lines_of(s: &[char]) -> (r: Vec<Vec<char>>)
    ensures
        views(r@) == lines(s@),
{
    let n = s.len();
    let mut pieces: Vec<Vec<char>> = Vec::new();
    let mut cur: Vec<char> = Vec::new();
    let mut k: usize = 0;
    assert(s@.take(0) == Seq::<char>::empty());
    while k < n
        invariant
            k <= n == s@.len(),
            pieces@.len() <= k,
            split_newlines(s@.take(k as int)) == views(pieces@).push(cur@),
        decreases n - k,
    {
        let ghost before = s@.take(k as int);
        let ghost old_views = views(pieces@);
        assert(s@.take(k + 1).drop_last() == before);
        let c = s[k];
        if c == '\n' {
            pieces.push(cur);
            cur = Vec::new();
        } else {
            cur.push(c);
        }
        proof {
            if c == '\n' {
                assert(views(pieces@) =~= old_views.push(pieces@.last()@));
            } else {
                assert(views(pieces@) =~= old_views);
            }
            assert(views(pieces@).push(cur@) =~= split_newlines(s@.take(k + 1)));
        }
        k = k + 1;
    }
    assert(s@.take(n as int) == s@);
    let mut all = pieces;
    all.push(cur);
    let total = all.len();
    assert(views(all@) =~= split_newlines(s@));
    let count = if all[all.len() - 1].len() == 0 {
        all.len() - 1
    } else {
        all.len()
    };
    let mut r: Vec<Vec<char>> = Vec::new();
    let mut i: usize = 0;
    while i < count
        invariant
            count <= all@.len() == total,
            views(all@) == split_newlines(s@),
            i <= count,
            count == lines(s@).len(),
            forall|j: int| 0 <= j < i ==> #[trigger] r@[j]@ == lines(s@)[j],
            r@.len() == i,
        decreases count - i,
    {
        let piece = &all[i];
        assert(piece@ == split_newlines(s@)[i as int]);
        let line = if i + 1 < total && piece.len() > 0 && piece[piece.len() - 1] == '\r' {
            sub_chars(piece, 0, piece.len() - 1)
        } else {
            sub_chars(piece, 0, piece.len())
        };
        assert(piece@.subrange(0, piece@.len() as int) == piece@);
        r.push(line);
        i = i + 1;
    }
    assert(views(r@) =~= lines(s@));
    r
}

} // verus!

verus! {

/// The value of decimal digits never goes below zero.
pub proof fn lemma_decimal_value_nonneg(s: Seq<char>)
    requires
        all_digits(s),
    ensures
        decimal_value(s) >= 0,
    decreases s.len(),
{
    if s.len() > 0 {
        assert(all_digits(s.drop_last())) by {
            assert forall|i: int| 0 <= i < s.drop_last().len() implies is_digit(
                #[trigger] s.drop_last()[i],
            ) by {
                assert(s.drop_last()[i] == s[i]);
            }
        }
        lemma_decimal_value_nonneg(s.drop_last());
        assert(is_digit(s[s.len() - 1]));
    }
}

/// A prefix of a decimal number has a value no larger than the whole.
pub proof fn lemma_decimal_value_prefix(s: Seq<char>, j: int)
    requires
        all_digits(s),
        0 <= j <= s.len(),
    ensures
        decimal_value(s.take(j)) <= decimal_value(s),
    decreases s.len(),
{
    if j < s.len() {
        let d = s.drop_last();
        assert(all_digits(d)) by {
            assert forall|i: int| 0 <= i < d.len() implies is_digit(#[trigger] d[i]) by {
                assert(d[i] == s[i]);
            }
        }
        lemma_decimal_value_prefix(d, j);
        assert(d.take(j) == s.take(j));
        lemma_decimal_value_nonneg(d);
        assert(is_digit(s[s.len() - 1]));
    } else {
        assert(s.take(j) == s);
    }
}

/// Parses a `u32` as `str::parse::<u32>` does.
pub fn parse_u32_chars(s: &[char]) -> (r: Option<u32>)
    ensures
        r == parse_u32(s@),
{
    let n = s.len();
    let start: usize = if n > 0 && s[0] == '+' {
        1
    } else {
        0
    };
    let ghost d = if s@.len() > 0 && s@[0] == '+' {
        s@.drop_first()
    } else {
        s@
    };
    assert(d == s@.subrange(start as int, n as int));
    if start == n {
        return None;
    }
    let mut v: u64 = 0;
    let mut i: usize = start;
    assert(d.take(0) == Seq::<char>::empty());
    while i < n
        invariant
            start <= i <= n == s@.len(),
            d == s@.subrange(start as int, n as int),
            d == (if s@.len() > 0 && s@[0] == '+' {
                s@.drop_first()
            } else {
                s@
            }),
            all_digits(d.take(i - start)),
            v == decimal_value(d.take(i - start)),
            v <= u32::MAX,
        decreases n - i,
    {
        let c = s[i];
        let ghost k = i - start;
        assert(d[k] == c);
        if !('0' <= c && c <= '9') {
            assert(!all_digits(d));
            return None;
        }
        let digit: u64 = (c as u32 - '0' as u32) as u64;
        assert(d.take(k + 1).drop_last() == d.take(k));
        assert(all_digits(d.take(k + 1))) by {
            assert forall|j: int| 0 <= j < k + 1 implies is_digit(#[trigger] d.take(k + 1)[j]) by {
                if j < k {
                    assert(d.take(k + 1)[j] == d.take(k)[j]);
                }
            }
        }
        v = v * 10 + digit;
        assert(v == decimal_value(d.take(k + 1)));
        if v > 0xffff_ffff {
            proof {
                if all_digits(d) {
                    lemma_decimal_value_prefix(d, k + 1);
                }
            }
            return None;
        }
        i = i + 1;
    }
    assert(d.take(d.len() as int) == d);
    Some(v as u32)
}

/// The decimal digits of a number.
pub fn decimal_chars(n: u128) -> (r: Vec<char>)
    ensures
        r@ == decimal(n as nat),
    decreases n,
{
    if n < 10 {
        let c = char_of_digit(n);
        let r = vec![c];
        assert(r@ =~= decimal(n as nat));
        r
    } else {
        let mut r = decimal_chars(n / 10);
        r.push(char_of_digit(n % 10));
        r
    }
}

/// The character of a decimal digit.
pub fn char_of_digit(d: u128) -> (c: char)
    requires
        d < 10,
    ensures
        c == ((d as nat) + '0' as nat) as char,
{
    if d == 0 { '0' } else if d == 1 { '1' } else if d == 2 { '2' } else if d == 3 { '3' } else if d
        == 4 { '4' } else if d == 5 { '5' } else if d == 6 { '6' } else if d == 7 { '7' } else if d
        == 8 { '8' } else { '9' }
}

} // verus!

verus! {

/// Whether two character sequences are equal.
pub fn same_chars(a: &[char], b: &[char]) -> (r: bool)
    ensures
        r == (a@ == b@),
{
    if a.len() != b.len() {
        return false;
    }
    let r = starts_with_exec(a, b);
    proof {
        if r {
            assert(a@.subrange(0, b@.len() as int) == a@);
        } else {
            assert(a@.subrange(0, b@.len() as int) == a@);
        }
    }
    r
}

} // verus!

verus! {

/// Whether two texts are the same.
pub fn str_eq(a: &str, b: &str) -> (r: bool)
    ensures
        r == (a@ == b@),
{
    same_chars(&chars_of(a), &chars_of(b))
}

/// An owned copy of a string slice.
pub fn owned(t: &str) -> (r: String)
    ensures
        r@ == t@,
{
    t.to_string()
}

/// `a` followed by `b`, as a new string.
pub fn cat(a: &str, b: &str) -> (r: String)
    ensures
        r@ == a@ + b@,
{
    let mut r = a.to_string();
    r.append(b);
    r
}

/// The decimal text of a number.
pub fn decimal_string(n: u128) -> (r: String)
    ensures
        r@ == decimal(n as nat),
{
    string_of(&decimal_chars(n))
}

/// The decimal text of a signed number, with a `'-'` before a negative one.
pub open spec fn signed_decimal(n: int) -> Seq<char> {
    if n < 0 {
        seq!['-'] + decimal((-n) as nat)
    } else {
        decimal(n as nat)
    }
}

/// The decimal text of an `i32` (`i32::to_string`).
pub fn signed_decimal_string(n: i32) -> (r: String)
    ensures
        r@ == signed_decimal(n as int),
{
    if n < 0 {
        let m: u128 = (-(n as i64)) as u128;
        let d = decimal_chars(m);
        let minus = vec!['-'];
        string_of(&concat_chars(&minus, &d))
    } else {
        decimal_string(n as u128)
    }
}

} // verus!

verus! {

/// The encoding of two texts one after the other is the two encodings one
/// after the other.
pub proof fn lemma_encode_concat(a: Seq<char>, b: Seq<char>)
    ensures
        encode_utf8(a + b) == encode_utf8(a) + encode_utf8(b),
    decreases a.len(),
{
    if a.len() > 0 {
        lemma_encode_concat(a.drop_first(), b);
        assert((a + b).drop_first() == a.drop_first() + b);
        assert(encode_scalar(a[0] as u32) + (encode_utf8(a.drop_first()) + encode_utf8(b))
            == (encode_scalar(a[0] as u32) + encode_utf8(a.drop_first())) + encode_utf8(b));
    } else {
        assert(a + b == b);
    }
}

/// The number of bytes in the UTF-8 encoding of a character.
pub fn utf8_width(c: char) -> (w: usize)
    ensures
        w == encode_utf8(seq![c]).len(),
        1 <= w <= 4,
{
    let u = c as u32;
    proof {
        assert(seq![c].drop_first() == Seq::<char>::empty());
        vstd::utf8::char_is_scalar(c);
        assert(encode_utf8(seq![c]) == encode_scalar(c as u32) + encode_utf8(Seq::<char>::empty()));
        assert(encode_utf8(seq![c]) =~= encode_scalar(c as u32));
        assert(u == c as u32);
    }
    if u <= 0x7f {
        1
    } else if u <= 0x7ff {
        2
    } else if u <= 0xffff {
        3
    } else {
        4
    }
}

/// Whether the UTF-8 encoding of `s` is longer than `max` bytes.
pub fn exceeds_bytes(s: &str, max: usize) -> (b: bool)
    ensures
        b == (byte_len(s@) > max),
{
    let v = chars_of(s);
    let mut count: u128 = 0;
    let mut i: usize = 0;
    assert(v@.take(0) == Seq::<char>::empty());
    while i < v.len()
        invariant
            i <= v@.len(),
            v@ == s@,
            count == encode_utf8(v@.take(i as int)).len(),
            count <= max,
        decreases v@.len() - i,
    {
        let w = utf8_width(v[i]);
        proof {
            assert(v@.take(i + 1) == v@.take(i as int) + seq![v@[i as int]]);
            lemma_encode_concat(v@.take(i as int), seq![v@[i as int]]);
        }
        count = count + w as u128;
        if count > max as u128 {
            proof {
                lemma_encode_concat(v@.take(i + 1), v@.skip(i + 1));
                assert(v@.take(i + 1) + v@.skip(i + 1) == v@);
            }
            return true;
        }
        i = i + 1;
    }
    assert(v@.take(v@.len() as int) == v@);
    false
}

/// The number of bytes of the UTF-8 encoding of a text (`str::len`).
pub fn byte_count(s: &str) -> (n: u128)
    ensures
        n == byte_len(s@),
{
    let v = chars_of(s);
    let mut count: u128 = 0;
    let mut i: usize = 0;
    assert(v@.take(0) == Seq::<char>::empty());
    while i < v.len()
        invariant
            i <= v@.len(),
            v@ == s@,
            count == encode_utf8(v@.take(i as int)).len(),
            count <= 4 * i,
        decreases v@.len() - i,
    {
        let w = utf8_width(v[i]);
        proof {
            assert(v@.take(i + 1) == v@.take(i as int) + seq![v@[i as int]]);
            lemma_encode_concat(v@.take(i as int), seq![v@[i as int]]);
        }
        count = count + w as u128;
        i = i + 1;
    }
    assert(v@.take(v@.len() as int) == v@);
    count
}

/// Whether `s` can be cut after `max` bytes, or needs no cut.
pub fn shortenable(s: &str, max: usize) -> (b: bool)
    ensures
        b == can_shorten(s@, max as int),
{
    !exceeds_bytes(s, max) || s.is_char_boundary(max)
}

/// What `str::to_lowercase` gives for a text (the Unicode lowercase
/// mapping of each character).
pub uninterp spec fn lowercase(s: Seq<char>) -> Seq<char>;

/// The lowercase form of a text (`str::to_lowercase`).
#[verifier::external_body]
pub(crate) fn to_lowercase(s: &str) -> (r: String)
    ensures
        r@ == lowercase(s@),
{
    s.to_lowercase()
}

/// `s`, or its first `max` bytes followed by `"..."` where it is longer.
pub open spec fn shortened(s: Seq<char>, max: int) -> Seq<char> {
    if byte_len(s) > max {
        byte_prefix(s, max) + "..."@
    } else {
        s
    }
}

/// `s` stays whole or can be cut after `max` bytes without panicking.
pub open spec fn can_shorten(s: Seq<char>, max: int) -> bool {
    byte_len(s) <= max || cut_ok(s, max)
}

/// Cuts `s` after `max` bytes and appends `"..."` where it is longer
/// (`format!("{}...", &s[..max])`).
pub fn shorten(s: &str, max: usize) -> (r: String)
    requires
        can_shorten(s@, max as int),
    ensures
        r@ == shortened(s@, max as int),
{
    if exceeds_bytes(s, max) {
        let (head, _) = s.split_at(max);
        proof {
            encode_utf8_decode_utf8(head@);
            assert(head.spec_bytes() == encode_utf8(head@));
            assert(encode_utf8(head@) =~= encode_utf8(s@).subrange(0, max as int));
            assert(head@ == byte_prefix(s@, max as int));
        }
        cat(head, "...")
    } else {
        owned(s)
    }
}

} // verus!

verus! {

/// The parts joined with `sep` between neighbours.
pub fn join_chars(parts: &Vec<Vec<char>>, sep: &[char]) -> (r: Vec<char>)
    ensures
        r@ == join(views(parts@), sep@),
{
    let mut r: Vec<char> = Vec::new();
    let mut i: usize = 0;
    assert(views(parts@).take(0) =~= Seq::<Seq<char>>::empty());
    while i < parts.len()
        invariant
            i <= parts@.len(),
            r@ == join(views(parts@).take(i as int), sep@),
        decreases parts@.len() - i,
    {
        let ghost pre = views(parts@).take(i + 1);
        assert(pre.drop_last() == views(parts@).take(i as int));
        assert(pre.last() == parts@[i as int]@);
        if i == 0 {
            r = concat_chars(&r, &parts[i]);
            assert(pre.len() == 1);
            assert(r@ == pre[0]);
        } else {
            let with_sep = concat_chars(&r, sep);
            r = concat_chars(&with_sep, &parts[i]);
        }
        i = i + 1;
    }
    assert(views(parts@).take(parts@.len() as int) == views(parts@));
    r
}

/// The position of the first `c` in `s`.
pub open spec fn first_index(s: Seq<char>, c: char) -> Option<int> {
    if exists|i: int| 0 <= i < s.len() && s[i] == c {
        Some(choose|i: int| 0 <= i < s.len() && s[i] == c && forall|j: int| 0 <= j < i ==> s[j] != c)
    } else {
        None
    }
}

/// Finds the first `c` in `v`.
pub fn find_char(v: &[char], c: char) -> (r: Option<usize>)
    ensures
        match r {
            Some(i) => first_index(v@, c) == Some(i as int) && i < v@.len(),
            None => first_index(v@, c) is None,
        },
{
    let mut i: usize = 0;
    while i < v.len()
        invariant
            i <= v@.len(),
            forall|j: int| 0 <= j < i ==> v@[j] != c,
        decreases v@.len() - i,
    {
        if v[i] == c {
            proof {
                let k = choose|k: int| 0 <= k < v@.len() && v@[k] == c && forall|j: int| 0 <= j < k ==> v@[j] != c;
                assert(k == i) by {
                    if k < i {
                        assert(v@[k] != c);
                    } else if k > i {
                        assert(v@[i as int] != c);
                    }
                }
            }
            return Some(i);
        }
        i = i + 1;
    }
    None
}

/// A shortened text is the text itself where it fits in `max` bytes;
/// otherwise it is a prefix of the text of exactly `max` bytes, followed by
/// `"..."`.
pub proof fn lemma_shortened(s: Seq<char>, max: int)
    requires
        0 <= max,
        can_shorten(s, max),
    ensures
        byte_len(s) <= max ==> shortened(s, max) == s,
        byte_len(s) > max ==> {
            &&& starts_with(s, byte_prefix(s, max))
            &&& byte_len(byte_prefix(s, max)) == max
            &&& shortened(s, max) == byte_prefix(s, max) + "..."@
            &&& byte_len(shortened(s, max)) == max + 3
        },
{
    if byte_len(s) > max {
        let b = encode_utf8(s);
        encode_utf8_valid_utf8(s);
        encode_utf8_decode_utf8(s);
        valid_utf8_split(b, max);
        decode_utf8_split(b, max);
        let head = b.subrange(0, max);
        let tail = b.subrange(max, b.len() as int);
        decode_utf8_encode_utf8(head);
        let p = decode_utf8(head);
        assert(s == p + decode_utf8(tail));
        assert(s.subrange(0, p.len() as int) =~= p);
        reveal_strlit("...");
        lemma_encode_concat(p, "..."@);
        let d = seq!['.'];
        assert("..."@ =~= d + d + d);
        assert(d.drop_first() =~= Seq::<char>::empty());
        assert(has_width_1_encoding('.' as u32));
        assert(encode_scalar('.' as u32).len() == 1);
        assert(encode_utf8(d.drop_first()) =~= Seq::<u8>::empty()) by {
            assert(encode_utf8(Seq::<char>::empty()) =~= Seq::<u8>::empty());
        }
        assert(encode_utf8(d) == encode_scalar(d[0] as u32) + encode_utf8(d.drop_first()));
        assert(encode_utf8(d).len() == 1);
        lemma_encode_concat(d, d);
        lemma_encode_concat(d + d, d);
    }
}

} // verus!
