//! Character-level text: trimming, ASCII case, decimal numbers.
//!
//! Strings are modelled by the sequence of their characters.

use vstd::prelude::*;
use vstd::utf8::{decode_utf8, valid_utf8};

verus! {

/// `String::push` appends one character to the end of the string.
pub assume_specification[ String::push ](s: &mut String, c: char)
    ensures
        final(s)@ == old(s)@.push(c),
;

/// The text that `String::from_utf8_lossy` makes of some bytes.
pub uninterp spec fn utf8_lossy(bytes: Seq<u8>) -> Seq<char>;

/// `String::from_utf8_lossy` decodes bytes as UTF-8. Its result depends on the bytes alone; valid
/// UTF-8 is decoded as it stands. Which replacement characters stand for what is invalid is not
/// stated.
#[verifier::external_body]
fn decode_lossy(bytes: &Vec<u8>) -> (r: String)
    ensures
        r@ == utf8_lossy(bytes@),
        valid_utf8(bytes@) ==> r@ == decode_utf8(bytes@),
{
    String::from_utf8_lossy(bytes.as_slice()).into_owned()
}

// ---------------------------------------------------------------------------------------------
// Model
// ---------------------------------------------------------------------------------------------

/// The characters with the Unicode property White_Space.
pub open spec fn white_space(c: char) -> bool {
    ||| '\u{9}' <= c <= '\u{d}'
    ||| c == ' '
    ||| c == '\u{85}'
    ||| c == '\u{a0}'
    ||| c == '\u{1680}'
    ||| '\u{2000}' <= c <= '\u{200a}'
    ||| c == '\u{2028}'
    ||| c == '\u{2029}'
    ||| c == '\u{202f}'
    ||| c == '\u{205f}'
    ||| c == '\u{3000}'
}

/// `s` without the white space at its start.
pub open spec fn trim_start(s: Seq<char>) -> Seq<char>
    decreases s.len(),
{
    if s.len() > 0 && white_space(s[0]) {
        trim_start(s.drop_first())
    } else {
        s
    }
}

/// `s` without the white space at its end.
pub open spec fn trim_end(s: Seq<char>) -> Seq<char>
    decreases s.len(),
{
    if s.len() > 0 && white_space(s.last()) {
        trim_end(s.drop_last())
    } else {
        s
    }
}

/// `s` without the white space at its two ends.
pub open spec fn trimmed(s: Seq<char>) -> Seq<char> {
    trim_end(trim_start(s))
}

/// `s` without the NUL characters at its end.
pub open spec fn without_nuls(s: Seq<char>) -> Seq<char>
    decreases s.len(),
{
    if s.len() > 0 && s.last() == '\0' {
        without_nuls(s.drop_last())
    } else {
        s
    }
}

/// `c` with an ASCII capital made small.
pub open spec fn lower(c: char) -> char {
    if 'A' <= c <= 'Z' {
        ((c as u8) + 32) as char
    } else {
        c
    }
}

/// `c` with a small ASCII letter made a capital.
pub open spec fn upper(c: char) -> char {
    if 'a' <= c <= 'z' {
        ((c as u8) - 32) as char
    } else {
        c
    }
}

/// `s` with all its ASCII capitals made small.
pub open spec fn lowered(s: Seq<char>) -> Seq<char> {
    Seq::new(s.len(), |i: int| lower(s[i]))
}

/// `s` with all its small ASCII letters made capitals.
pub open spec fn uppered(s: Seq<char>) -> Seq<char> {
    Seq::new(s.len(), |i: int| upper(s[i]))
}

/// Whether `c` is a decimal digit.
pub open spec fn is_digit(c: char) -> bool {
    '0' <= c <= '9'
}

/// All of `s` are decimal digits.
pub open spec fn all_digits(s: Seq<char>) -> bool {
    forall|i: int| 0 <= i < s.len() ==> is_digit(#[trigger] s[i])
}

/// The number that digits stand for, the most significant one first.
pub open spec fn digits_value(s: Seq<char>) -> int
    decreases s.len(),
{
    if s.len() == 0 {
        0
    } else {
        10 * digits_value(s.drop_last()) + (s.last() as int - '0' as int)
    }
}

/// The natural number written as `s`: digits, at least one.
pub open spec fn natural(s: Seq<char>) -> Option<int> {
    if s.len() > 0 && all_digits(s) {
        Some(digits_value(s))
    } else {
        None
    }
}

/// The number written as `s` without a minus sign: digits, perhaps behind a plus sign.
pub open spec fn unsigned_number(s: Seq<char>) -> Option<int> {
    if s.len() > 0 && s[0] == '+' {
        natural(s.skip(1))
    } else {
        natural(s)
    }
}

/// The number written as `s`: digits, perhaps behind a plus or a minus sign.
pub open spec fn signed_number(s: Seq<char>) -> Option<int> {
    if s.len() > 0 && s[0] == '-' {
        match natural(s.skip(1)) {
            Some(n) => Some(-n),
            None => None,
        }
    } else {
        unsigned_number(s)
    }
}

/// `n`, if it lies between `low` and `high`.
pub open spec fn bounded(n: Option<int>, low: int, high: int) -> Option<int> {
    match n {
        Some(n) if low <= n <= high => Some(n),
        _ => None,
    }
}

/// The two parts of `s` around its only `x`.
pub open spec fn around_x(s: Seq<char>) -> Option<(Seq<char>, Seq<char>)> {
    if exists|i: int| is_only_x(s, i) {
        let i = choose|i: int| is_only_x(s, i);
        Some((s.take(i), s.skip(i + 1)))
    } else {
        None
    }
}

/// Position `i` of `s` holds an `x`, and no other does.
pub open spec fn is_only_x(s: Seq<char>, i: int) -> bool {
    &&& 0 <= i < s.len()
    &&& forall|j: int| 0 <= j < s.len() ==> (#[trigger] s[j] == 'x' <==> j == i)
}

/// The digit for `d`, from zero to nine.
pub open spec fn digit_char(d: int) -> char {
    ('0' as int + d) as char
}

/// The decimal digits of a natural number, without leading zeros.
pub open spec fn natural_digits(n: int) -> Seq<char>
    decreases n,
{
    if n < 10 {
        seq![digit_char(n)]
    } else {
        natural_digits(n / 10).push(digit_char(n % 10))
    }
}

/// The decimal notation of an integer.
pub open spec fn decimal(n: int) -> Seq<char> {
    if n < 0 {
        seq!['-'] + natural_digits(-n)
    } else {
        natural_digits(n)
    }
}

// ---------------------------------------------------------------------------------------------
// Strings and characters
// ---------------------------------------------------------------------------------------------

/// The characters of a string.
pub fn chars_of(s: &str) -> (v: Vec<char>)
    ensures
        v@ == s@,
{
    let mut v: Vec<char> = Vec::new();
    for c in it: s.chars()
        invariant
            it.seq() == s@,
            v@ == it.seq().take(it.index()),
    {
        v.push(c);
    }
    v
}

/// The string of the characters from `from` up to `to`.
pub fn string_of(chars: &Vec<char>, from: usize, to: usize) -> (s: String)
    requires
        from <= to <= chars@.len(),
    ensures
        s@ == chars@.subrange(from as int, to as int),
{
    let mut s = String::new();
    let mut i: usize = from;
    while i < to
        invariant
            from <= i <= to <= chars@.len(),
            s@ == chars@.subrange(from as int, i as int),
        decreases to - i,
    {
        s.push(chars[i]);
        i += 1;
    }
    s
}

/// The string of a single character.
pub fn string_of_char(c: char) -> (s: String)
    ensures
        s@ == seq![c],
{
    let mut s = String::new();
    s.push(c);
    s
}

/// Whether two strings have the same characters.
pub fn same_text(a: &str, b: &str) -> (r: bool)
    ensures
        r == (a@ == b@),
{
    let p = chars_of(a);
    let q = chars_of(b);
    if p.len() != q.len() {
        return false;
    }
    let mut i: usize = 0;
    while i < p.len()
        invariant
            i <= p@.len(),
            p@.len() == q@.len(),
            p@ == a@,
            q@ == b@,
            p@.take(i as int) == q@.take(i as int),
        decreases p@.len() - i,
    {
        if p[i] != q[i] {
            assert(a@[i as int] != b@[i as int]);
            return false;
        }
        assert(p@.take(i + 1) =~= p@.take(i as int).push(p@[i as int]));
        assert(q@.take(i + 1) =~= q@.take(i as int).push(q@[i as int]));
        i += 1;
    }
    assert(p@.take(i as int) =~= p@);
    assert(q@.take(i as int) =~= q@);
    true
}

/// Whether a character is white space.
pub fn is_white_space(c: char) -> (r: bool)
    ensures
        r == white_space(c),
{
    ('\u{9}' <= c && c <= '\u{d}') || c == ' ' || c == '\u{85}' || c == '\u{a0}' || c == '\u{1680}'
        || ('\u{2000}' <= c && c <= '\u{200a}') || c == '\u{2028}' || c == '\u{2029}' || c
        == '\u{202f}' || c == '\u{205f}' || c == '\u{3000}'
}

/// A copy of the string without the white space at its two ends.
pub fn trim(s: &str) -> (r: String)
    ensures
        r@ == trimmed(s@),
{
    let chars = chars_of(s);
    let mut from: usize = 0;
    assert(chars@.skip(0) =~= chars@);
    while from < chars.len() && is_white_space(chars[from])
        invariant
            from <= chars@.len(),
            trim_start(chars@.skip(from as int)) == trim_start(chars@),
        decreases chars@.len() - from,
    {
        assert(chars@.skip(from as int).drop_first() =~= chars@.skip(from + 1));
        from += 1;
    }
    let ghost rest = chars@.skip(from as int);
    assert(trim_start(chars@) == rest);
    let mut to: usize = chars.len();
    assert(chars@.subrange(from as int, to as int) =~= rest);
    while from < to && is_white_space(chars[to - 1])
        invariant
            from <= to <= chars@.len(),
            trim_end(chars@.subrange(from as int, to as int)) == trim_end(rest),
        decreases to,
    {
        assert(chars@.subrange(from as int, to as int).drop_last() =~= chars@.subrange(
            from as int,
            to - 1,
        ));
        to -= 1;
    }
    string_of(&chars, from, to)
}

/// A copy of the string without the NUL characters at its end.
pub fn trim_nuls(s: &str) -> (r: String)
    ensures
        r@ == without_nuls(s@),
{
    let chars = chars_of(s);
    let mut to: usize = chars.len();
    assert(chars@.subrange(0, to as int) =~= chars@);
    while 0 < to && chars[to - 1] == '\0'
        invariant
            to <= chars@.len(),
            without_nuls(chars@.subrange(0, to as int)) == without_nuls(chars@),
        decreases to,
    {
        assert(chars@.subrange(0, to as int).drop_last() =~= chars@.subrange(0, to - 1));
        to -= 1;
    }
    string_of(&chars, 0, to)
}

/// The text of a keyboard layout, of which `bytes` is the encoding, ended by NUL. Bytes that are
/// not UTF-8 are tolerated.
pub fn keymap_text(bytes: &Vec<u8>) -> (r: String)
    ensures
        r@ == without_nuls(utf8_lossy(bytes@)),
        valid_utf8(bytes@) ==> r@ == without_nuls(decode_utf8(bytes@)),
{
    let text = decode_lossy(bytes);
    trim_nuls(text.as_str())
}

/// The character, with an ASCII capital made small.
pub fn lower_char(c: char) -> (r: char)
    ensures
        r == lower(c),
{
    if 'A' <= c && c <= 'Z' {
        ((c as u8) + 32) as char
    } else {
        c
    }
}

/// The character, with a small ASCII letter made a capital.
pub fn upper_char(c: char) -> (r: char)
    ensures
        r == upper(c),
{
    if 'a' <= c && c <= 'z' {
        ((c as u8) - 32) as char
    } else {
        c
    }
}

/// A copy of the string with all its ASCII capitals made small.
pub fn to_lower(s: &str) -> (r: String)
    ensures
        r@ == lowered(s@),
{
    let chars = chars_of(s);
    let mut r = String::new();
    let mut i: usize = 0;
    while i < chars.len()
        invariant
            i <= chars@.len(),
            chars@ == s@,
            r@ == lowered(s@).take(i as int),
        decreases chars@.len() - i,
    {
        r.push(lower_char(chars[i]));
        i += 1;
    }
    r
}

/// A copy of the string with all its small ASCII letters made capitals.
pub fn to_upper(s: &str) -> (r: String)
    ensures
        r@ == uppered(s@),
{
    let chars = chars_of(s);
    let mut r = String::new();
    let mut i: usize = 0;
    while i < chars.len()
        invariant
            i <= chars@.len(),
            chars@ == s@,
            r@ == uppered(s@).take(i as int),
        decreases chars@.len() - i,
    {
        r.push(upper_char(chars[i]));
        i += 1;
    }
    r
}

// ---------------------------------------------------------------------------------------------
// Numbers
// ---------------------------------------------------------------------------------------------

/// Numbers from here on are not told apart while they are read.
const READ_LIMIT: u128 = 0x1_0000_0000_0000_0000;

/// Read the natural number that stands from position `from` on. What is too large for any
/// machine integer of 64 bits is read as `READ_LIMIT`.
fn read_natural(chars: &Vec<char>, from: usize) -> (r: Option<u128>)
    requires
        from <= chars@.len(),
    ensures
        match natural(chars@.skip(from as int)) {
            Some(n) => r == Some(
                if n < READ_LIMIT {
                    n as u128
                } else {
                    READ_LIMIT
                },
            ) && n >= 0,
            None => r is None,
        },
{
    let ghost digits = chars@.skip(from as int);
    if from == chars.len() {
        return None;
    }
    let mut n: u128 = 0;
    let mut i: usize = from;
    while i < chars.len()
        invariant
            from <= i <= chars@.len(),
            digits == chars@.skip(from as int),
            all_digits(digits.take(i - from)),
            digits_value(digits.take(i - from)) >= 0,
            n <= READ_LIMIT,
            n < READ_LIMIT ==> n == digits_value(digits.take(i - from)),
            n == READ_LIMIT ==> digits_value(digits.take(i - from)) >= READ_LIMIT,
        decreases chars@.len() - i,
    {
        let c = chars[i];
        assert(digits[i - from] == c);
        if !('0' <= c && c <= '9') {
            return None;
        }
        let ghost done = digits.take(i - from);
        let ghost more = digits.take(i + 1 - from);
        assert(more.drop_last() =~= done);
        assert(all_digits(more)) by {
            assert forall|j: int| 0 <= j < more.len() implies is_digit(#[trigger] more[j]) by {
                if j < done.len() {
                    assert(done[j] == more[j]);
                }
            }
        }
        let d: u128 = (c as u32 - '0' as u32) as u128;
        if n < READ_LIMIT {
            n = 10 * n + d;
            if n > READ_LIMIT {
                n = READ_LIMIT;
            }
        }
        i += 1;
    }
    assert(digits.take(i - from) =~= digits);
    Some(n)
}

/// Read an `i32`: decimal digits, perhaps behind a plus or a minus sign, and nothing else.
pub fn parse_i32(s: &str) -> (r: Option<i32>)
    ensures
        r == match bounded(signed_number(s@), i32::MIN as int, i32::MAX as int) {
            Some(n) => Some(n as i32),
            None => None,
        },
{
    let chars = chars_of(s);
    if chars.len() > 0 && chars[0] == '-' {
        match read_natural(&chars, 1) {
            Some(n) => {
                if n <= 0x8000_0000 {
                    Some((-(n as i64)) as i32)
                } else {
                    None
                }
            },
            None => None,
        }
    } else {
        let from: usize = if chars.len() > 0 && chars[0] == '+' { 1 } else { 0 };
        assert(chars@.skip(0) =~= chars@);
        match read_natural(&chars, from) {
            Some(n) => {
                if n <= 0x7fff_ffff {
                    Some(n as i32)
                } else {
                    None
                }
            },
            None => None,
        }
    }
}

/// Read a `usize`: decimal digits, perhaps behind a plus sign, and nothing else.
pub fn parse_usize(s: &str) -> (r: Option<usize>)
    ensures
        r == match bounded(unsigned_number(s@), 0, usize::MAX as int) {
            Some(n) => Some(n as usize),
            None => None,
        },
{
    let chars = chars_of(s);
    let from: usize = if chars.len() > 0 && chars[0] == '+' { 1 } else { 0 };
    assert(chars@.skip(0) =~= chars@);
    match read_natural(&chars, from) {
        Some(n) => {
            if n <= usize::MAX as u128 {
                Some(n as usize)
            } else {
                None
            }
        },
        None => None,
    }
}

/// Split a string around its only `x`.
pub fn split_around_x(s: &str) -> (r: Option<(String, String)>)
    ensures
        match around_x(s@) {
            Some((a, b)) => r matches Some((p, q)) && p@ == a && q@ == b,
            None => r is None,
        },
{
    let chars = chars_of(s);
    let mut found: Option<usize> = None;
    let mut i: usize = 0;
    while i < chars.len()
        invariant
            i <= chars@.len(),
            chars@ == s@,
            match found {
                Some(k) => k < i && forall|j: int|
                    0 <= j < i ==> (#[trigger] s@[j] == 'x' <==> j == k),
                None => forall|j: int| 0 <= j < i ==> #[trigger] s@[j] != 'x',
            },
        decreases chars@.len() - i,
    {
        if chars[i] == 'x' {
            match found {
                Some(k) => {
                    assert(forall|j: int| !is_only_x(s@, j)) by {
                        assert(s@[k as int] == 'x' && s@[i as int] == 'x');
                    }
                    return None;
                },
                None => {
                    found = Some(i);
                },
            }
        }
        i += 1;
    }
    match found {
        Some(k) => {
            assert(is_only_x(s@, k as int));
            assert forall|j: int| is_only_x(s@, j) implies j == k by {
                assert(s@[k as int] == 'x');
            }
            Some((string_of(&chars, 0, k), string_of(&chars, k + 1, chars.len())))
        },
        None => {
            assert(forall|j: int| !is_only_x(s@, j)) by {
                assert forall|j: int| !is_only_x(s@, j) by {
                    if 0 <= j < s@.len() {
                        assert(s@[j] != 'x');
                    }
                }
            }
            None
        },
    }
}

/// Append the decimal digits of a natural number.
pub fn push_natural(s: &mut String, n: u64)
    ensures
        final(s)@ == old(s)@ + natural_digits(n as int),
    decreases n,
{
    if n >= 10 {
        push_natural(s, n / 10);
    }
    let c = (48 + (n % 10) as u8) as char;
    assert(c == digit_char(n as int % 10));
    s.push(c);
}

/// Append the decimal notation of an integer.
pub fn push_decimal(s: &mut String, n: i32)
    ensures
        final(s)@ == old(s)@ + decimal(n as int),
{
    if n < 0 {
        s.push('-');
        push_natural(s, (-(n as i64)) as u64);
    } else {
        push_natural(s, n as u64);
    }
}

/// The digits of a natural number are read back as that number.
proof fn lemma_natural_round_trip(n: int)
    requires
        n >= 0,
    ensures
        natural(natural_digits(n)) == Some(n),
    decreases n,
{
    let s = natural_digits(n);
    if n < 10 {
        assert(s.drop_last() =~= Seq::<char>::empty());
        assert(digits_value(s.drop_last()) == 0);
    } else {
        lemma_natural_round_trip(n / 10);
        let front = natural_digits(n / 10);
        assert(s.drop_last() =~= front);
        assert forall|i: int| 0 <= i < s.len() implies is_digit(#[trigger] s[i]) by {
            if i < front.len() {
                assert(front[i] == s[i]);
            }
        }
    }
}

/// The decimal notation of an `i32` is read back as that `i32`.
pub proof fn law_decimal_round_trip(n: i32)
    ensures
        signed_number(decimal(n as int)) == Some(n as int),
{
    let s = decimal(n as int);
    if n < 0 {
        lemma_natural_round_trip(-n);
        assert(s.skip(1) =~= natural_digits(-n));
    } else {
        lemma_natural_round_trip(n as int);
        assert(is_digit(s[0]));
    }
}

// ---------------------------------------------------------------------------------------------
// Laws
// ---------------------------------------------------------------------------------------------

/// Trimming takes away white space at the two ends, and nothing else: what it takes, which is
/// returned, is all white space, and what it leaves neither starts nor ends with any.
pub proof fn law_trimmed(s: Seq<char>) -> (ends: (Seq<char>, Seq<char>))
    ensures
        s == ends.0 + trimmed(s) + ends.1,
        forall|i: int| 0 <= i < ends.0.len() ==> white_space(#[trigger] ends.0[i]),
        forall|i: int| 0 <= i < ends.1.len() ==> white_space(#[trigger] ends.1[i]),
        trimmed(s).len() > 0 ==> !white_space(trimmed(s)[0]) && !white_space(trimmed(s).last()),
{
    let before = lemma_trim_start(s);
    let rest = trim_start(s);
    let after = lemma_trim_end(rest);
    assert(s =~= before + trim_end(rest) + after);
    (before, after)
}

proof fn lemma_trim_start(s: Seq<char>) -> (before: Seq<char>)
    ensures
        s == before + trim_start(s),
        forall|i: int| 0 <= i < before.len() ==> white_space(#[trigger] before[i]),
        trim_start(s).len() > 0 ==> !white_space(trim_start(s)[0]),
    decreases s.len(),
{
    if s.len() > 0 && white_space(s[0]) {
        let before = lemma_trim_start(s.drop_first());
        let all = seq![s[0]] + before;
        assert(s =~= seq![s[0]] + s.drop_first());
        assert(all + trim_start(s) =~= seq![s[0]] + (before + trim_start(s)));
        assert forall|i: int| 0 <= i < all.len() implies white_space(#[trigger] all[i]) by {
            if i > 0 {
                assert(all[i] == before[i - 1]);
            }
        }
        all
    } else {
        assert(s =~= Seq::<char>::empty() + s);
        Seq::empty()
    }
}

proof fn lemma_trim_end(s: Seq<char>) -> (after: Seq<char>)
    ensures
        s == trim_end(s) + after,
        forall|i: int| 0 <= i < after.len() ==> white_space(#[trigger] after[i]),
        trim_end(s).len() > 0 ==> !white_space(trim_end(s).last()),
        trim_end(s).len() > 0 ==> trim_end(s)[0] == s[0],
    decreases s.len(),
{
    if s.len() > 0 && white_space(s.last()) {
        let front = s.drop_last();
        let after = lemma_trim_end(front);
        let all = after.push(s.last());
        assert(s =~= front.push(s.last()));
        assert(trim_end(s) + all =~= (trim_end(s) + after).push(s.last()));
        all
    } else {
        assert(s =~= s + Seq::<char>::empty());
        Seq::empty()
    }
}

/// Case changes move the letters of ASCII by 32, in the two directions, and no other character.
pub proof fn law_ascii_case(c: char)
    ensures
        97 <= c as int <= 122 ==> upper(c) as int == c as int - 32 && lower(c) == c,
        65 <= c as int <= 90 ==> lower(c) as int == c as int + 32 && upper(c) == c,
        !(97 <= c as int <= 122) && !(65 <= c as int <= 90) ==> upper(c) == c && lower(c) == c,
        upper(lower(c)) == upper(c),
        lower(upper(c)) == lower(c),
{
}

/// The case of a text is changed character by character.
pub proof fn law_text_case(s: Seq<char>, i: int)
    ensures
        lowered(s).len() == s.len(),
        uppered(s).len() == s.len(),
        0 <= i < s.len() ==> lowered(s)[i] == lower(s[i]) && uppered(s)[i] == upper(s[i]),
{
}

/// Digits stand for their number: a single one for its distance from `0`, and in a longer text
/// each place counts ten times as much as the next one.
pub proof fn law_digits_are_decimal(a: Seq<char>, b: Seq<char>, c: char)
    ensures
        digits_value(Seq::empty()) == 0,
        digits_value(seq![c]) == c as int - 48,
        digits_value(a + b) == digits_value(a) * vstd::arithmetic::power::pow(10, b.len())
            + digits_value(b),
    decreases b.len(),
{
    assert(seq![c].drop_last() =~= Seq::<char>::empty());
    assert(digits_value(seq![c].drop_last()) == 0);
    vstd::arithmetic::power::lemma_pow0(10);
    if b.len() == 0 {
        assert(a + b =~= a);
        assert(digits_value(a) * 1 == digits_value(a));
    } else {
        let front = b.drop_last();
        law_digits_are_decimal(a, front, c);
        assert((a + b).drop_last() =~= a + front);
        let n = digits_value(a);
        let p = vstd::arithmetic::power::pow(10, front.len());
        assert(vstd::arithmetic::power::pow(10, b.len()) == 10 * p) by {
            reveal(vstd::arithmetic::power::pow);
        }
        assert(10 * (n * p) == n * (10 * p)) by (nonlinear_arith);
    }
}

/// A number is digits, at least one, perhaps behind a sign; nothing else is a number. A minus
/// sign stands only before a number that may be negative.
pub proof fn law_numbers(s: Seq<char>)
    ensures
        natural(s) is Some <==> s.len() > 0 && forall|i: int|
            0 <= i < s.len() ==> 48 <= (#[trigger] s[i]) as int <= 57,
        natural(s) is Some ==> natural(s) == Some(digits_value(s)),
        s.len() > 0 && s[0] != '+' ==> unsigned_number(s) == natural(s),
        s.len() > 0 && s[0] != '+' && s[0] != '-' ==> signed_number(s) == natural(s),
        unsigned_number(seq!['+'] + s) == natural(s),
        signed_number(seq!['+'] + s) == natural(s),
        signed_number(seq!['-'] + s) is Some <==> natural(s) is Some,
        natural(s) matches Some(n) ==> signed_number(seq!['-'] + s) == Some(-n),
        unsigned_number(seq!['-'] + s) is None,
        unsigned_number(Seq::empty()) is None,
        signed_number(Seq::empty()) is None,
{
    assert((seq!['+'] + s).skip(1) =~= s);
    assert((seq!['-'] + s).skip(1) =~= s);
    assert forall|i: int| 0 <= i < s.len() implies is_digit(#[trigger] s[i]) == (48 <= s[i] as int
        <= 57) by {}
    if natural(seq!['-'] + s) is Some {
        assert(is_digit((seq!['-'] + s)[0]));
    }
}

/// A bounded number is the number itself within the bounds, and none outside of them.
pub proof fn law_bounded(n: int, low: int, high: int)
    ensures
        low <= n <= high ==> bounded(Some(n), low, high) == Some(n),
        n < low || n > high ==> bounded(Some(n), low, high) is None,
        bounded(None, low, high) is None,
{
}

/// Decimal digits have no leading zero and are read back as their number.
pub proof fn law_natural_digits(n: int)
    requires
        n >= 0,
    ensures
        natural_digits(n).len() >= 1,
        forall|i: int|
            0 <= i < natural_digits(n).len() ==> 48 <= (#[trigger] natural_digits(n)[i]) as int
                <= 57,
        natural_digits(n).len() > 1 ==> natural_digits(n)[0] as int != 48,
        digits_value(natural_digits(n)) == n,
        unsigned_number(natural_digits(n)) == Some(n),
{
    lemma_natural_round_trip(n);
    law_numbers(natural_digits(n));
    lemma_first_digit(n);
}

proof fn lemma_first_digit(n: int)
    requires
        n >= 0,
    ensures
        natural_digits(n).len() >= 1,
        n > 0 ==> natural_digits(n)[0] as int != 48,
        n < 10 ==> natural_digits(n).len() == 1,
    decreases n,
{
    if n >= 10 {
        lemma_first_digit(n / 10);
    }
}

/// Decimal notation is the digits of the number, behind a minus sign where it is negative.
pub proof fn law_decimal(n: int)
    ensures
        n >= 0 ==> decimal(n) == natural_digits(n),
        n < 0 ==> decimal(n) == seq!['-'] + natural_digits(-n),
        signed_number(decimal(n)) == Some(n),
{
    if n < 0 {
        law_natural_digits(-n);
        law_numbers(natural_digits(-n));
    } else {
        law_natural_digits(n);
        law_numbers(natural_digits(n));
    }
}

/// A text is split around its `x`: joining the parts gives back the text, and parts without an
/// `x` are what joining them around one splits into.
pub proof fn law_around_x(s: Seq<char>, a: Seq<char>, b: Seq<char>)
    ensures
        around_x(s) matches Some((p, q)) ==> {
            &&& s == p.push('x') + q
            &&& !p.contains('x')
            &&& !q.contains('x')
        },
        !a.contains('x') && !b.contains('x') ==> around_x(a.push('x') + b) == Some((a, b)),
        around_x(s) is None ==> !(s == a.push('x') + b && !a.contains('x') && !b.contains('x')),
{
    if exists|i: int| is_only_x(s, i) {
        let i = choose|i: int| is_only_x(s, i);
        assert(s =~= s.take(i).push('x') + s.skip(i + 1)) by {
            assert(s[i] == 'x');
        }
        let p = s.take(i);
        let q = s.skip(i + 1);
        assert forall|j: int| 0 <= j < p.len() implies #[trigger] p[j] != 'x' by {
            assert(s[j] != 'x');
        }
        assert forall|j: int| 0 <= j < q.len() implies #[trigger] q[j] != 'x' by {
            assert(s[j + i + 1] != 'x');
        }
    }
    if !a.contains('x') && !b.contains('x') {
        let t = a.push('x') + b;
        assert(is_only_x(t, a.len() as int)) by {
            assert forall|j: int| 0 <= j < t.len() implies (#[trigger] t[j] == 'x' <==> j
                == a.len()) by {
                if j < a.len() {
                    assert(t[j] == a[j]);
                } else if j > a.len() {
                    assert(t[j] == b[j - a.len() - 1]);
                }
            }
        }
        let i = choose|i: int| is_only_x(t, i);
        assert(i == a.len()) by {
            assert(t[a.len() as int] == 'x');
        }
        assert(t.take(i) =~= a);
        assert(t.skip(i + 1) =~= b);
    }
}

/// Only NUL characters are taken from the end, and all of them: what is taken is returned.
pub proof fn law_without_nuls(s: Seq<char>) -> (end: Seq<char>)
    ensures
        s == without_nuls(s) + end,
        forall|i: int| 0 <= i < end.len() ==> #[trigger] end[i] == '\0',
        without_nuls(s).len() > 0 ==> without_nuls(s).last() != '\0',
    decreases s.len(),
{
    if s.len() > 0 && s.last() == '\0' {
        let end = law_without_nuls(s.drop_last());
        let all = end.push('\0');
        assert(s =~= s.drop_last().push('\0'));
        assert(without_nuls(s) + all =~= (without_nuls(s) + end).push('\0'));
        all
    } else {
        assert(s =~= s + Seq::<char>::empty());
        Seq::empty()
    }
}

} // verus!
