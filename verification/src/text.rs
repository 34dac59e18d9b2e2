//! Character-level text operations with exact contracts.
//!
//! Every function works on sequences of `char`, the view of `str` and
//! `String`, so contracts elsewhere can speak of text without going through
//! its byte encoding.

use vstd::prelude::*;
use vstd::utf8::encode_utf8;

verus! {

/// The number of bytes that `s` takes in UTF-8.
pub open spec fn utf8_len(s: Seq<char>) -> nat {
    encode_utf8(s).len()
}

/// `needle` stands in `hay` at offset `i`.
pub open spec fn occurs_at(hay: Seq<char>, needle: Seq<char>, i: int) -> bool {
    &&& 0 <= i
    &&& i + needle.len() <= hay.len()
    &&& hay.subrange(i, i + needle.len()) == needle
}

/// `needle` is a contiguous part of `hay`.
pub open spec fn occurs_in(hay: Seq<char>, needle: Seq<char>) -> bool {
    exists|i: int| occurs_at(hay, needle, i)
}

/// `i` is the position of the last `c` in `s`.
pub open spec fn is_last_position(s: Seq<char>, c: char, i: int) -> bool {
    &&& 0 <= i < s.len()
    &&& s[i] == c
    &&& !s.skip(i + 1).contains(c)
}

/// What follows the last `c` in `s`; `None` when `s` holds no `c`.
pub open spec fn after_last(s: Seq<char>, c: char) -> Option<Seq<char>> {
    if s.contains(c) {
        Some(s.skip((choose|i: int| is_last_position(s, c, i)) + 1))
    } else {
        None
    }
}

/// The last of the pieces that `c` cuts `s` into: what follows the last `c`,
/// or all of `s` when it holds no `c`.
pub open spec fn last_piece(s: Seq<char>, c: char) -> Seq<char> {
    match after_last(s, c) {
        Some(t) => t,
        None => s,
    }
}

/// `s` with every leading repetition of `p` removed; `s` itself where `p`
/// is empty.
pub open spec fn without_leading(s: Seq<char>, p: Seq<char>) -> Seq<char>
    decreases s.len(),
{
    if p.len() > 0 && p.is_prefix_of(s) {
        without_leading(s.skip(p.len() as int), p)
    } else {
        s
    }
}

pub open spec fn is_digit(c: char) -> bool {
    '0' <= c && c <= '9'
}

/// The value of a decimal digit; 0 for any other character.
pub open spec fn digit_value(c: char) -> nat {
    if is_digit(c) {
        (c as nat - '0' as nat) as nat
    } else {
        0
    }
}

/// The character of the decimal digit `d`.
pub open spec fn digit_char(d: nat) -> char {
    if d == 0 {
        '0'
    } else if d == 1 {
        '1'
    } else if d == 2 {
        '2'
    } else if d == 3 {
        '3'
    } else if d == 4 {
        '4'
    } else if d == 5 {
        '5'
    } else if d == 6 {
        '6'
    } else if d == 7 {
        '7'
    } else if d == 8 {
        '8'
    } else {
        '9'
    }
}

pub open spec fn all_digits(s: Seq<char>) -> bool {
    forall|i: int| 0 <= i < s.len() ==> is_digit(#[trigger] s[i])
}

/// The number that the digits of `s` write in base ten.
pub open spec fn digits_value(s: Seq<char>) -> nat
    decreases s.len(),
{
    if s.len() == 0 {
        0
    } else {
        digits_value(s.drop_last()) * 10 + digit_value(s.last())
    }
}

/// The shortest decimal writing of `n`.
pub open spec fn decimal(n: nat) -> Seq<char>
    decreases n,
{
    if n < 10 {
        seq![digit_char(n)]
    } else {
        decimal(n / 10).push(digit_char(n % 10))
    }
}

/// An unsigned 32-bit number written as an optional `+` and one or more
/// decimal digits; `None` for any other text and for a value above
/// `u32::MAX`.
pub open spec fn parsed_u32(s: Seq<char>) -> Option<u32> {
    let d = if s.len() > 0 && s[0] == '+' {
        s.skip(1)
    } else {
        s
    };
    if d.len() > 0 && all_digits(d) && digits_value(d) <= u32::MAX {
        Some(digits_value(d) as u32)
    } else {
        None
    }
}

/// The lowercase form that `str::to_lowercase` gives a text.
pub uninterp spec fn lowercase(s: Seq<char>) -> Seq<char>;

/// The quoted and escaped form that `{:?}` gives a text.
pub uninterp spec fn debug_form(s: Seq<char>) -> Seq<char>;

pub open spec fn is_ascii_char(c: char) -> bool {
    (c as u32) < 128
}

pub open spec fn all_ascii(s: Seq<char>) -> bool {
    forall|i: int| 0 <= i < s.len() ==> is_ascii_char(#[trigger] s[i])
}

/// The lowercase form of an ASCII capital; any other character as it is.
pub open spec fn ascii_lower(c: char) -> char {
    if 'A' <= c && c <= 'Z' {
        ((c as u8) + 32) as char
    } else {
        c
    }
}

/// The text with its ASCII capitals in lowercase.
pub open spec fn ascii_lowered(s: Seq<char>) -> Seq<char> {
    Seq::new(s.len(), |i: int| ascii_lower(s[i]))
}

/// The lowercase form of a text. In an ASCII text the capitals are put in
/// lowercase and nothing else changes; any other text has the form that
/// `str::to_lowercase` gives it.
pub open spec fn lowered(s: Seq<char>) -> Seq<char> {
    if all_ascii(s) {
        ascii_lowered(s)
    } else {
        lowercase(s)
    }
}

/// A printable ASCII character that `{:?}` shows as it is: neither a double
/// quote nor a backslash.
pub open spec fn is_plain(c: char) -> bool {
    ' ' <= c && c <= '~' && c != '"' && c != '\\'
}

pub open spec fn all_plain(s: Seq<char>) -> bool {
    forall|i: int| 0 <= i < s.len() ==> is_plain(#[trigger] s[i])
}

/// The `{:?}` form of a text. A text of plain characters stands between
/// double quotes as it is; any other text has the form that `{:?}` gives
/// it.
pub open spec fn quoted(s: Seq<char>) -> Seq<char> {
    if all_plain(s) {
        seq!['"'] + s + seq!['"']
    } else {
        debug_form(s)
    }
}

/// `String::push`: the string grows by exactly the character given, at its
/// end.
#[verifier::external_body]
fn push_char(s: &mut String, c: char)
    ensures
        final(s)@ == old(s)@.push(c),
{
    s.push(c);
}

/// `str::to_lowercase`: the result is the Unicode lowercase form of the
/// argument, a function of the argument's characters alone. Nothing more
/// is claimed of it.
#[verifier::external_body]
fn unicode_lowercase(s: &str) -> (r: String)
    ensures
        r@ == lowercase(s@),
{
    s.to_lowercase()
}

/// `<str as Debug>::fmt`, through `format!`: the result is the `{:?}` form
/// of the argument, a function of the argument's characters alone. Nothing
/// more is claimed of it.
#[verifier::external_body]
fn debug_text(s: &str) -> (r: String)
    ensures
        r@ == debug_form(s@),
{
    format!("{:?}", s)
}

/// The lowercase form of a text.
pub fn to_lowered(s: &str) -> (r: String)
    ensures
        r@ == lowered(s@),
{
    let v = chars_of(s);
    let mut r = String::new();
    let mut i: usize = 0;
    while i < v.len()
        invariant
            i <= v.len(),
            v@ == s@,
            all_ascii(v@.take(i as int)),
            r@ == ascii_lowered(v@.take(i as int)),
        decreases v.len() - i,
    {
        let c = v[i];
        if c as u32 >= 128 {
            assert(!is_ascii_char(v@[i as int]));
            return unicode_lowercase(s);
        }
        let folded = if c >= 'A' && c <= 'Z' {
            ((c as u8) + 32) as char
        } else {
            c
        };
        push_char(&mut r, folded);
        proof {
            let before = v@.take(i as int);
            let after = v@.take(i + 1);
            assert forall|k: int| 0 <= k < after.len() implies is_ascii_char(
                #[trigger] after[k],
            ) by {
                if k < i {
                    assert(before[k] == after[k]);
                }
            }
            assert(ascii_lowered(after) =~= ascii_lowered(before).push(folded));
        }
        i += 1;
    }
    assert(v@.take(v.len() as int) =~= v@);
    r
}

/// The `{:?}` form of a text.
pub fn to_quoted(s: &str) -> (r: String)
    ensures
        r@ == quoted(s@),
{
    let v = chars_of(s);
    let mut r = String::new();
    push_char(&mut r, '"');
    let mut i: usize = 0;
    while i < v.len()
        invariant
            i <= v.len(),
            v@ == s@,
            all_plain(v@.take(i as int)),
            r@ == seq!['"'] + v@.take(i as int),
        decreases v.len() - i,
    {
        let c = v[i];
        if !(c >= ' ' && c <= '~' && c != '"' && c != '\\') {
            assert(!is_plain(v@[i as int]));
            return debug_text(s);
        }
        push_char(&mut r, c);
        proof {
            let before = v@.take(i as int);
            let after = v@.take(i + 1);
            assert forall|k: int| 0 <= k < after.len() implies is_plain(#[trigger] after[k]) by {
                if k < i {
                    assert(before[k] == after[k]);
                }
            }
            assert(seq!['"'] + after =~= (seq!['"'] + before).push(c));
        }
        i += 1;
    }
    push_char(&mut r, '"');
    assert(v@.take(v.len() as int) =~= v@);
    r
}

/// The length of `s` in bytes.
pub fn byte_len(s: &str) -> (n: usize)
    ensures
        n == utf8_len(s@),
{
    s.as_bytes().len()
}

/// The characters of `s`, in order.
pub fn chars_of(s: &str) -> (v: Vec<char>)
    ensures
        v@ == s@,
{
    let mut v: Vec<char> = Vec::new();
    for c in it: s.chars()
        invariant
            v@ == it.seq().take(it.index() as int),
    {
        v.push(c);
    }
    v
}

/// The text made of `v[from..to]`.
pub(crate) fn string_of(v: &Vec<char>, from: usize, to: usize) -> (s: String)
    requires
        from <= to <= v.len(),
    ensures
        s@ == v@.subrange(from as int, to as int),
{
    let mut s = String::new();
    let mut i: usize = from;
    while i < to
        invariant
            from <= i <= to <= v.len(),
            s@ == v@.subrange(from as int, i as int),
        decreases to - i,
    {
        push_char(&mut s, v[i]);
        i += 1;
    }
    s
}

/// A copy of `v[from..to]`.
pub(crate) fn slice_of(v: &Vec<char>, from: usize, to: usize) -> (r: Vec<char>)
    requires
        from <= to <= v.len(),
    ensures
        r@ == v@.subrange(from as int, to as int),
{
    let mut r: Vec<char> = Vec::new();
    let mut i: usize = from;
    while i < to
        invariant
            from <= i <= to <= v.len(),
            r@ == v@.subrange(from as int, i as int),
        decreases to - i,
    {
        r.push(v[i]);
        i += 1;
    }
    r
}

/// Whether two texts hold the same characters.
pub fn same_text(a: &str, b: &str) -> (r: bool)
    ensures
        r == (a@ == b@),
{
    let x = chars_of(a);
    let y = chars_of(b);
    same_chars(&x, &y)
}

/// Whether two character vectors are equal.
pub fn same_chars(a: &Vec<char>, b: &Vec<char>) -> (r: bool)
    ensures
        r == (a@ == b@),
{
    if a.len() != b.len() {
        return false;
    }
    let mut i: usize = 0;
    while i < a.len()
        invariant
            a.len() == b.len(),
            i <= a.len(),
            forall|k: int| 0 <= k < i ==> a@[k] == b@[k],
        decreases a.len() - i,
    {
        if a[i] != b[i] {
            return false;
        }
        i += 1;
    }
    assert(a@ =~= b@);
    true
}

/// Whether `needle` stands in `hay` at offset `i`.
pub fn matches_at(hay: &Vec<char>, needle: &Vec<char>, i: usize) -> (r: bool)
    ensures
        r == occurs_at(hay@, needle@, i as int),
{
    if needle.len() > hay.len() || i > hay.len() - needle.len() {
        return false;
    }
    let mut j: usize = 0;
    while j < needle.len()
        invariant
            i + needle.len() <= hay.len(),
            j <= needle.len(),
            forall|k: int| 0 <= k < j ==> hay@[i + k] == needle@[k],
        decreases needle.len() - j,
    {
        if hay[i + j] != needle[j] {
            assert(hay@.subrange(i as int, i + needle.len())[j as int] != needle@[j as int]);
            return false;
        }
        j += 1;
    }
    assert(hay@.subrange(i as int, i + needle.len()) =~= needle@);
    true
}

/// Whether `hay` begins with `prefix`.
pub fn starts_with(hay: &Vec<char>, prefix: &Vec<char>) -> (r: bool)
    ensures
        r == prefix@.is_prefix_of(hay@),
{
    let r = matches_at(hay, prefix, 0);
    proof {
        if prefix@.is_prefix_of(hay@) {
            assert(hay@.subrange(0, prefix@.len() as int) =~= prefix@);
        }
    }
    r
}

/// Whether `needle` is a contiguous part of `hay`.
pub fn contains(hay: &Vec<char>, needle: &Vec<char>) -> (r: bool)
    ensures
        r == occurs_in(hay@, needle@),
{
    if needle.len() > hay.len() {
        return false;
    }
    let last: usize = hay.len() - needle.len();
    let mut i: usize = 0;
    loop
        invariant
            last == hay.len() - needle.len(),
            i <= last,
            forall|k: int| 0 <= k < i ==> !occurs_at(hay@, needle@, k),
        decreases last - i,
    {
        if matches_at(hay, needle, i) {
            return true;
        }
        if i == last {
            return false;
        }
        i += 1;
    }
}

/// Whether the character `c` occurs in `hay`.
pub fn contains_char(hay: &Vec<char>, c: char) -> (r: bool)
    ensures
        r == hay@.contains(c),
{
    let mut i: usize = 0;
    while i < hay.len()
        invariant
            i <= hay.len(),
            forall|k: int| 0 <= k < i ==> hay@[k] != c,
        decreases hay.len() - i,
    {
        if hay[i] == c {
            return true;
        }
        i += 1;
    }
    false
}

/// Two positions of a last `c` in `s` are one position.
pub proof fn lemma_last_position_unique(s: Seq<char>, c: char, i: int, j: int)
    requires
        is_last_position(s, c, i),
        is_last_position(s, c, j),
    ensures
        i == j,
{
    if i < j {
        assert(s.skip(i + 1)[j - i - 1] == c);
    }
    if j < i {
        assert(s.skip(j + 1)[i - j - 1] == c);
    }
}

/// What follows the last `c` of a text that ends in `c` and a tail without
/// `c` is that tail.
pub proof fn lemma_after_last_of_joined(stem: Seq<char>, c: char, tail: Seq<char>)
    requires
        !tail.contains(c),
    ensures
        after_last(stem + seq![c] + tail, c) == Some(tail),
{
    let s = stem + seq![c] + tail;
    let p = stem.len() as int;
    assert(s[p] == c);
    assert(s.skip(p + 1) =~= tail);
    assert(is_last_position(s, c, p));
    let q = choose|q: int| is_last_position(s, c, q);
    lemma_last_position_unique(s, c, p, q);
}

/// The offset just behind the last `c` in `s`, where the last piece begins.
pub fn last_piece_start(s: &Vec<char>, c: char) -> (r: Option<usize>)
    ensures
        match r {
            Some(k) => 0 < k <= s.len() && after_last(s@, c) == Some(s@.skip(k as int)),
            None => after_last(s@, c) is None,
        },
{
    let mut i: usize = s.len();
    while i > 0
        invariant
            i <= s.len(),
            !s@.skip(i as int).contains(c),
        decreases i,
    {
        if s[i - 1] == c {
            proof {
                let p = i - 1;
                assert(is_last_position(s@, c, p));
                assert(s@.contains(c));
                let q = choose|q: int| is_last_position(s@, c, q);
                lemma_last_position_unique(s@, c, p, q);
            }
            return Some(i);
        }
        proof {
            let t = s@.skip(i - 1);
            assert forall|k: int| 0 <= k < t.len() implies t[k] != c by {
                if k > 0 {
                    assert(s@.skip(i as int)[k - 1] == t[k]);
                }
            }
        }
        i -= 1;
    }
    assert(s@.skip(0) =~= s@);
    None
}

/// How many leading characters the repetitions of `p` take up in `s`.
pub fn leading_repeats(s: &Vec<char>, p: &Vec<char>) -> (k: usize)
    ensures
        k <= s.len(),
        without_leading(s@, p@) == s@.skip(k as int),
{
    let mut i: usize = 0;
    assert(s@.skip(0) =~= s@);
    if p.len() == 0 {
        return 0;
    }
    while matches_at(s, p, i)
        invariant
            p.len() > 0,
            i <= s.len(),
            without_leading(s@, p@) == without_leading(s@.skip(i as int), p@),
        decreases s.len() - i,
    {
        proof {
            let rest = s@.skip(i as int);
            assert(rest.subrange(0, p@.len() as int) =~= s@.subrange(i as int, i + p@.len()));
            assert(p@.is_prefix_of(rest));
            assert(rest.skip(p@.len() as int) =~= s@.skip(i + p@.len()));
        }
        i += p.len();
    }
    proof {
        let rest = s@.skip(i as int);
        if p@.is_prefix_of(rest) {
            assert(rest.subrange(0, p@.len() as int) =~= s@.subrange(i as int, i + p@.len()));
        }
    }
    i
}

/// A longer run of digits writes no smaller a number.
pub proof fn lemma_digits_value_grows(s: Seq<char>, n: int)
    requires
        0 <= n <= s.len(),
    ensures
        digits_value(s.take(n)) <= digits_value(s),
    decreases s.len() - n,
{
    if n == s.len() {
        assert(s.take(n) =~= s);
    } else {
        lemma_digits_value_grows(s.drop_last(), n);
        assert(s.drop_last().take(n) =~= s.take(n));
    }
}

/// Reads an unsigned 32-bit number from its decimal writing.
pub fn parse_u32(s: &Vec<char>) -> (r: Option<u32>)
    ensures
        r == parsed_u32(s@),
{
    let start: usize = if s.len() > 0 && s[0] == '+' {
        1
    } else {
        0
    };
    let ghost d = s@.skip(start as int);
    assert(s@.skip(0) =~= s@);
    if start == s.len() {
        return None;
    }
    let mut acc: u32 = 0;
    let mut i: usize = start;
    assert(d.take(0) =~= Seq::<char>::empty());
    while i < s.len()
        invariant
            start <= i <= s.len(),
            d == s@.skip(start as int),
            d == if s@.len() > 0 && s@[0] == '+' {
                s@.skip(1)
            } else {
                s@
            },
            all_digits(d.take(i - start)),
            acc == digits_value(d.take(i - start)),
        decreases s.len() - i,
    {
        let c = s[i];
        let ghost before = d.take(i - start);
        let ghost after = d.take(i - start + 1);
        proof {
            assert(after.drop_last() =~= before);
            assert(after.last() == c);
            lemma_digits_value_grows(d, i - start + 1);
        }
        if !(c >= '0' && c <= '9') {
            assert(!is_digit(d[i - start]));
            return None;
        }
        let v: u32 = (c as u32) - ('0' as u32);
        if acc > (u32::MAX - v) / 10 {
            return None;
        }
        acc = acc * 10 + v;
        proof {
            assert forall|k: int| 0 <= k < after.len() implies is_digit(#[trigger] after[k]) by {
                if k < before.len() {
                    assert(before[k] == after[k]);
                }
            }
        }
        i += 1;
    }
    assert(d.take(i - start) =~= d);
    Some(acc)
}

/// The decimal digit `d` as a character.
fn digit_of(d: u8) -> (c: char)
    requires
        d < 10,
    ensures
        c == digit_char(d as nat),
{
    if d == 0 {
        '0'
    } else if d == 1 {
        '1'
    } else if d == 2 {
        '2'
    } else if d == 3 {
        '3'
    } else if d == 4 {
        '4'
    } else if d == 5 {
        '5'
    } else if d == 6 {
        '6'
    } else if d == 7 {
        '7'
    } else if d == 8 {
        '8'
    } else {
        '9'
    }
}

/// Appends the decimal writing of `n` to `out`.
pub fn push_decimal(out: &mut String, n: u128)
    ensures
        final(out)@ == old(out)@ + decimal(n as nat),
{
    let mut digits: Vec<char> = Vec::new();
    let mut m: u128 = n;
    while m >= 10
        invariant
            decimal(n as nat) == decimal(m as nat) + digits@.reverse(),
        decreases m,
    {
        let c = digit_of((m % 10) as u8);
        proof {
            let ghost tail = digits@.reverse();
            assert(digits@.push(c).reverse() =~= seq![c] + tail);
            assert(decimal(m as nat) == decimal((m / 10) as nat).push(c));
            assert(decimal((m / 10) as nat).push(c) + tail =~= decimal((m / 10) as nat) + (seq![c]
                + tail));
        }
        digits.push(c);
        m = m / 10;
    }
    let lead = digit_of(m as u8);
    push_char(out, lead);
    let mut i: usize = digits.len();
    while i > 0
        invariant
            i <= digits.len(),
            out@ == old(out)@ + seq![lead] + digits@.reverse().take(digits.len() - i),
        decreases i,
    {
        i -= 1;
        let ghost r = digits@.reverse();
        let ghost k = digits.len() - 1 - i;
        proof {
            assert(r[k] == digits@[i as int]);
            assert(r.take(k + 1) =~= r.take(k).push(r[k]));
        }
        push_char(out, digits[i]);
    }
    proof {
        let r = digits@.reverse();
        assert(r.take(digits.len() as int) =~= r);
        assert(old(out)@ + seq![lead] + r =~= old(out)@ + (decimal(m as nat) + r));
    }
}

/// The decimal writing of `n`.
pub fn decimal_text(n: u128) -> (s: String)
    ensures
        s@ == decimal(n as nat),
{
    let mut s = String::new();
    push_decimal(&mut s, n);
    assert(Seq::<char>::empty() + decimal(n as nat) =~= decimal(n as nat));
    s
}

/// The offset of the first `a` or `b` in `s`; the length of `s` where it
/// holds neither.
pub open spec fn first_either(s: Seq<char>, a: char, b: char) -> int
    decreases s.len(),
{
    if s.len() == 0 || s[0] == a || s[0] == b {
        0
    } else {
        1 + first_either(s.drop_first(), a, b)
    }
}

/// The offset of the first `c` in `s`; the length of `s` where it holds
/// none.
pub open spec fn first_position(s: Seq<char>, c: char) -> int {
    first_either(s, c, c)
}

/// The first offset is one of the sequence or its length, nothing before it
/// is `a` or `b`, and what stands at it is.
pub proof fn lemma_first_either(s: Seq<char>, a: char, b: char)
    ensures
        0 <= first_either(s, a, b) <= s.len(),
        forall|k: int| 0 <= k < first_either(s, a, b) ==> s[k] != a && s[k] != b,
        first_either(s, a, b) < s.len() ==> s[first_either(s, a, b)] == a || s[first_either(
            s,
            a,
            b,
        )] == b,
    decreases s.len(),
{
    if !(s.len() == 0 || s[0] == a || s[0] == b) {
        let rest = s.drop_first();
        lemma_first_either(rest, a, b);
        let n = first_either(rest, a, b);
        assert forall|k: int| 0 <= k < n + 1 implies s[k] != a && s[k] != b by {
            if k > 0 {
                assert(rest[k - 1] == s[k]);
            }
        }
        if n < rest.len() {
            assert(rest[n] == s[n + 1]);
        }
    }
}

/// Finds the first `a` or `b` in `s` from the offset `from` on.
pub(crate) fn find_either(s: &Vec<char>, from: usize, a: char, b: char) -> (i: usize)
    requires
        from <= s.len(),
    ensures
        from <= i <= s.len(),
        i == from + first_either(s@.skip(from as int), a, b),
        forall|k: int| from <= k < i ==> s@[k] != a && s@[k] != b,
        i < s.len() ==> s@[i as int] == a || s@[i as int] == b,
{
    proof {
        let rest = s@.skip(from as int);
        lemma_first_either(rest, a, b);
        assert forall|k: int| from <= k < from + first_either(rest, a, b) implies s@[k] != a
            && s@[k] != b by {
            assert(rest[k - from] == s@[k]);
        }
    }
    let mut i: usize = from;
    while i < s.len() && s[i] != a && s[i] != b
        invariant
            from <= i <= s.len(),
            first_either(s@.skip(from as int), a, b) == (i - from) + first_either(
                s@.skip(i as int),
                a,
                b,
            ),
        decreases s.len() - i,
    {
        proof {
            let rest = s@.skip(i as int);
            assert(rest[0] == s@[i as int]);
            assert(rest.drop_first() =~= s@.skip(i + 1));
        }
        i += 1;
    }
    proof {
        let rest = s@.skip(i as int);
        if i < s.len() {
            assert(rest[0] == s@[i as int]);
        }
    }
    i
}

/// Whether `s[from..to]`, with its ASCII capitals in lowercase, reads
/// `wanted`.
pub(crate) fn reads_ignoring_ascii_case(
    s: &Vec<char>,
    from: usize,
    to: usize,
    wanted: &Vec<char>,
) -> (r: bool)
    requires
        from <= to <= s.len(),
    ensures
        r == (ascii_lowered(s@.subrange(from as int, to as int)) == wanted@),
{
    if to - from != wanted.len() {
        return false;
    }
    let ghost part = ascii_lowered(s@.subrange(from as int, to as int));
    let mut k: usize = 0;
    while k < wanted.len()
        invariant
            from <= to <= s.len(),
            to - from == wanted.len(),
            k <= wanted.len(),
            part == ascii_lowered(s@.subrange(from as int, to as int)),
            forall|j: int| 0 <= j < k ==> part[j] == wanted@[j],
        decreases wanted.len() - k,
    {
        let c = s[from + k];
        let folded = if c >= 'A' && c <= 'Z' {
            ((c as u8) + 32) as char
        } else {
            c
        };
        assert(part[k as int] == folded);
        if folded != wanted[k] {
            return false;
        }
        k += 1;
    }
    assert(part =~= wanted@);
    true
}

pub open spec fn is_blank(c: char) -> bool {
    c == ' ' || c == '\t'
}

/// The text without the blanks at its start.
pub open spec fn without_leading_blanks(s: Seq<char>) -> Seq<char>
    decreases s.len(),
{
    if s.len() > 0 && is_blank(s[0]) {
        without_leading_blanks(s.drop_first())
    } else {
        s
    }
}

/// The text without the blanks at its end.
pub open spec fn without_trailing_blanks(s: Seq<char>) -> Seq<char>
    decreases s.len(),
{
    if s.len() > 0 && is_blank(s.last()) {
        without_trailing_blanks(s.drop_last())
    } else {
        s
    }
}

/// The text without the blanks at its start and at its end.
pub open spec fn trimmed(s: Seq<char>) -> Seq<char> {
    without_trailing_blanks(without_leading_blanks(s))
}

/// The bounds of `s[from..to]` without the blanks at its start and end.
pub(crate) fn trim_bounds(s: &Vec<char>, from: usize, to: usize) -> (r: (usize, usize))
    requires
        from <= to <= s.len(),
    ensures
        from <= r.0 <= r.1 <= to,
        s@.subrange(r.0 as int, r.1 as int) == trimmed(s@.subrange(from as int, to as int)),
{
    let mut a: usize = from;
    while a < to && (s[a] == ' ' || s[a] == '\t')
        invariant
            from <= a <= to <= s.len(),
            without_leading_blanks(s@.subrange(from as int, to as int)) == without_leading_blanks(
                s@.subrange(a as int, to as int),
            ),
        decreases to - a,
    {
        proof {
            let part = s@.subrange(a as int, to as int);
            assert(part[0] == s@[a as int]);
            assert(part.drop_first() =~= s@.subrange(a + 1, to as int));
        }
        a += 1;
    }
    proof {
        let part = s@.subrange(a as int, to as int);
        if a < to {
            assert(part[0] == s@[a as int]);
        }
    }
    let mut b: usize = to;
    while b > a && (s[b - 1] == ' ' || s[b - 1] == '\t')
        invariant
            a <= b <= to <= s.len(),
            trimmed(s@.subrange(from as int, to as int)) == without_trailing_blanks(
                s@.subrange(a as int, b as int),
            ),
        decreases b - a,
    {
        proof {
            let part = s@.subrange(a as int, b as int);
            assert(part.last() == s@[b - 1]);
            assert(part.drop_last() =~= s@.subrange(a as int, b - 1));
        }
        b -= 1;
    }
    proof {
        let part = s@.subrange(a as int, b as int);
        if b > a {
            assert(part.last() == s@[b - 1]);
        }
    }
    (a, b)
}

} // verus!
