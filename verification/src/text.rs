//! Text helpers shared by the decoders: characters of a string, comparison,
//! slices, and unsigned decimal numbers.

use vstd::prelude::*;
use vstd::string::StringSliceAdditionalSpecFns;
use vstd::utf8::encode_utf8_decode_utf8;

verus! {

/// `String::push`. The contract claims that the character is appended to
/// the end of the string.
pub assume_specification[ String::push ](s: &mut String, c: char)
    ensures
        final(s)@ == old(s)@.push(c),
;

/// The characters of `s`, in order.
pub fn chars_of(s: &str) -> (v: Vec<char>)
    ensures
        v@ == s@,
{
    let mut v: Vec<char> = Vec::new();
    for c in it: s.chars()
        invariant
            v@ == it.seq().take(it.index() as int),
            it.seq() == s@,
    {
        v.push(c);
    }
    v
}

/// The string made of the characters `chars[from..to]`.
pub fn string_of(chars: &Vec<char>, from: usize, to: usize) -> (s: String)
    requires
        from <= to <= chars@.len(),
    ensures
        s@ == chars@.subrange(from as int, to as int),
{
    let mut s = String::new();
    let mut i: usize = from;
    while i < to
        invariant
            from <= i <= to <= chars@.len(),
            s@ == chars@.subrange(from as int, i as int),
        decreases to - i,
    {
        s.push(chars[i]);
        i = i + 1;
    }
    s
}

/// Whether two strings hold the same characters.
pub fn same_text(a: &str, b: &str) -> (same: bool)
    ensures
        same == (a@ == b@),
{
    let x = a.as_bytes();
    let y = b.as_bytes();
    proof {
        encode_utf8_decode_utf8(a@);
        encode_utf8_decode_utf8(b@);
    }
    if x.len() != y.len() {
        return false;
    }
    let mut i: usize = 0;
    while i < x.len()
        invariant
            i <= x@.len(),
            x@.len() == y@.len(),
            x@ == a.spec_bytes(),
            y@ == b.spec_bytes(),
            x@.take(i as int) == y@.take(i as int),
        decreases x@.len() - i,
    {
        if x[i] != y[i] {
            assert(x@[i as int] != y@[i as int]);
            return false;
        }
        assert(x@.take(i + 1) == x@.take(i as int).push(x@[i as int]));
        assert(y@.take(i + 1) == y@.take(i as int).push(y@[i as int]));
        i = i + 1;
    }
    assert(x@ == x@.take(i as int));
    assert(y@ == y@.take(i as int));
    true
}

/// Whether `c` is one of the ten decimal digits.
pub open spec fn is_digit(c: char) -> bool {
    '0' <= c && c <= '9'
}

/// The number that a digit stands for.
pub open spec fn digit_value(c: char) -> nat {
    (c as nat - '0' as nat) as nat
}

/// Whether every character of `s` is a decimal digit.
pub open spec fn all_digits(s: Seq<char>) -> bool {
    forall|i: int| 0 <= i < s.len() ==> is_digit(#[trigger] s[i])
}

/// The number that the digits of `s` write in base ten, the first digit weighing most.
pub open spec fn decimal_value(s: Seq<char>) -> nat
    decreases s.len(),
{
    if s.len() == 0 {
        0
    } else {
        decimal_value(s.drop_last()) * 10 + digit_value(s.last())
    }
}

/// A longer run of digits never writes a smaller number than its beginning.
pub proof fn lemma_decimal_value_grows(s: Seq<char>, i: int)
    requires
        0 <= i <= s.len(),
    ensures
        decimal_value(s.take(i)) <= decimal_value(s),
    decreases s.len(),
{
    if i == s.len() {
        assert(s.take(i) == s);
    } else {
        lemma_decimal_value_grows(s.drop_last(), i);
        assert(s.drop_last().take(i) == s.take(i));
    }
}

/// Reads `chars[from..to]` as an unsigned decimal number: at least one digit,
/// nothing but digits, and a value that fits in 32 bits.
pub fn parse_digits(chars: &Vec<char>, from: usize, to: usize) -> (n: Option<u32>)
    requires
        from <= to <= chars@.len(),
    ensures
        n is Some <==> {
            &&& from < to
            &&& all_digits(chars@.subrange(from as int, to as int))
            &&& decimal_value(chars@.subrange(from as int, to as int)) <= u32::MAX
        },
        n matches Some(v) ==> v == decimal_value(chars@.subrange(from as int, to as int)),
{
    if from == to {
        return None;
    }
    let ghost run = chars@.subrange(from as int, to as int);
    let mut value: u64 = 0;
    let mut i: usize = from;
    while i < to
        invariant
            from <= i <= to <= chars@.len(),
            run == chars@.subrange(from as int, to as int),
            all_digits(run.take(i - from)),
            value == decimal_value(run.take(i - from)),
            value <= u32::MAX,
        decreases to - i,
    {
        let c = chars[i];
        assert(c == run[i - from]);
        if !('0' <= c && c <= '9') {
            return None;
        }
        let d: u64 = (c as u32 - '0' as u32) as u64;
        let next: u64 = value * 10 + d;
        proof {
            let longer = run.take(i - from + 1);
            assert(longer.drop_last() == run.take(i - from));
            assert(longer.last() == c);
            assert(next == decimal_value(longer));
            lemma_decimal_value_grows(run, i - from + 1);
        }
        if next > 0xffff_ffff {
            return None;
        }
        value = next;
        i = i + 1;
    }
    assert(run.take(to - from) == run);
    Some(value as u32)
}

/// How many characters of `s` stand before the first `c`; all of them where
/// `c` does not occur.
pub open spec fn position_of(s: Seq<char>, c: char) -> nat
    decreases s.len(),
{
    if s.len() > 0 && s[0] != c {
        1 + position_of(s.drop_first(), c)
    } else {
        0
    }
}

/// `position_of` is the least index that holds `c`.
pub proof fn lemma_position_of(s: Seq<char>, c: char, k: int)
    requires
        0 <= k <= s.len(),
        forall|i: int| 0 <= i < k ==> s[i] != c,
        k < s.len() ==> s[k] == c,
    ensures
        position_of(s, c) == k,
    decreases s.len(),
{
    if k > 0 {
        let rest = s.drop_first();
        assert forall|i: int| 0 <= i < k - 1 implies rest[i] != c by {
            assert(rest[i] == s[i + 1]);
        }
        lemma_position_of(rest, c, k - 1);
    }
}

/// The index of the first `c` in `chars[from..to]`, or `to` where there is none.
pub fn find_char(chars: &Vec<char>, from: usize, to: usize, c: char) -> (at: usize)
    requires
        from <= to <= chars@.len(),
    ensures
        at == from + position_of(chars@.subrange(from as int, to as int), c),
        from <= at <= to,
{
    let ghost s = chars@.subrange(from as int, to as int);
    let mut i: usize = from;
    while i < to && chars[i] != c
        invariant
            from <= i <= to <= chars@.len(),
            s == chars@.subrange(from as int, to as int),
            forall|j: int| 0 <= j < i - from ==> s[j] != c,
        decreases to - i,
    {
        assert(s[i - from] == chars@[i as int]);
        i = i + 1;
    }
    proof {
        if i < to {
            assert(s[i - from] == chars@[i as int]);
        }
        lemma_position_of(s, c, i - from);
    }
    i
}

/// The digits that write `n` in base ten, without a leading zero.
pub open spec fn decimal_digits(n: nat) -> Seq<char>
    decreases n,
{
    if n < 10 {
        seq![digit_char(n)]
    } else {
        decimal_digits(n / 10).push(digit_char(n % 10))
    }
}

/// The digit that writes a number below ten.
pub open spec fn digit_char(d: nat) -> char {
    ('0' as nat + d) as char
}

/// The digits of a number write that number.
pub proof fn lemma_decimal_digits(n: nat)
    ensures
        decimal_digits(n).len() > 0,
        all_digits(decimal_digits(n)),
        decimal_value(decimal_digits(n)) == n,
    decreases n,
{
    if n < 10 {
        let s = seq![digit_char(n)];
        assert(s.drop_last() == Seq::<char>::empty());
        assert(decimal_value(s.drop_last()) == 0);
    } else {
        lemma_decimal_digits(n / 10);
        let s = decimal_digits(n);
        assert(s.drop_last() == decimal_digits(n / 10));
        assert(s.last() == digit_char(n % 10));
    }
}

/// The decimal text of `n`.
pub fn decimal_text(n: u64) -> (s: String)
    ensures
        s@ == decimal_digits(n as nat),
{
    let mut digits: Vec<char> = Vec::new();
    let mut rest: u64 = n;
    while rest >= 10
        invariant
            decimal_digits(n as nat) == decimal_digits(rest as nat) + digits@.reverse(),
        decreases rest,
    {
        let d: u64 = rest % 10;
        let c: char = (('0' as u32 + d as u32) as u8) as char;
        assert(c == digit_char(d as nat));
        proof {
            let longer = digits@.push(c);
            assert(longer.reverse() == seq![c] + digits@.reverse());
            assert(decimal_digits(rest as nat) == decimal_digits((rest / 10) as nat).push(c));
            assert(decimal_digits((rest / 10) as nat).push(c) + digits@.reverse()
                == decimal_digits((rest / 10) as nat) + (seq![c] + digits@.reverse()));
        }
        digits.push(c);
        rest = rest / 10;
    }
    let c: char = (('0' as u32 + rest as u32) as u8) as char;
    assert(c == digit_char(rest as nat));
    let mut s = String::new();
    s.push(c);
    assert(s@ == decimal_digits(rest as nat));
    let mut i: usize = digits.len();
    while i > 0
        invariant
            i <= digits@.len(),
            s@ == decimal_digits(rest as nat) + digits@.reverse().take(digits@.len() - i),
        decreases i,
    {
        i = i - 1;
        s.push(digits[i]);
        proof {
            let r = digits@.reverse();
            let k = digits@.len() - i;
            assert(r.take(k) == r.take(k - 1).push(r[k - 1]));
            assert(r[k - 1] == digits@[i as int]);
        }
    }
    assert(digits@.reverse().take(digits@.len() as int) == digits@.reverse());
    s
}

/// The number that `s` writes in decimal without sign or leading zero, or
/// nothing where `s` is no such text or the number exceeds 32 bits.
pub open spec fn canonical_decimal(s: Seq<char>) -> Option<u32> {
    if s.len() > 0 && all_digits(s) && (s.len() == 1 || s[0] != '0') && decimal_value(s)
        <= u32::MAX {
        Some(decimal_value(s) as u32)
    } else {
        None
    }
}

/// Reads a decimal number without sign or leading zero.
pub fn parse_canonical(s: &str) -> (n: Option<u32>)
    ensures
        n == canonical_decimal(s@),
{
    let chars = chars_of(s);
    assert(chars@.subrange(0, chars@.len() as int) == chars@);
    if chars.len() > 1 && chars[0] == '0' {
        return None;
    }
    parse_digits(&chars, 0, chars.len())
}

/// The digits of a number that may be written with a plus sign before it.
pub open spec fn unsigned_digits(s: Seq<char>) -> Seq<char> {
    if s.len() > 0 && s[0] == '+' {
        s.skip(1)
    } else {
        s
    }
}

/// The number that `s` writes in decimal: digits, with or without a plus
/// sign before them. Nothing where `s` is no such text or the number
/// exceeds 32 bits.
pub open spec fn number_of(s: Seq<char>) -> Option<u32> {
    let digits = unsigned_digits(s);
    if digits.len() > 0 && all_digits(digits) && decimal_value(digits) <= u32::MAX {
        Some(decimal_value(digits) as u32)
    } else {
        None
    }
}

/// Reads an unsigned decimal number.
pub fn parse_number(s: &str) -> (n: Option<u32>)
    ensures
        n == number_of(s@),
{
    let chars = chars_of(s);
    let from: usize = if chars.len() > 0 && chars[0] == '+' {
        1
    } else {
        0
    };
    assert(chars@.subrange(from as int, chars@.len() as int) == unsigned_digits(chars@));
    parse_digits(&chars, from, chars.len())
}

/// Whether `c` is white space, as Unicode defines it.
pub open spec fn is_space(c: char) -> bool {
    ||| '\u{9}' <= c && c <= '\u{d}'
    ||| c == ' '
    ||| c == '\u{85}'
    ||| c == '\u{a0}'
    ||| c == '\u{1680}'
    ||| '\u{2000}' <= c && c <= '\u{200a}'
    ||| c == '\u{2028}'
    ||| c == '\u{2029}'
    ||| c == '\u{202f}'
    ||| c == '\u{205f}'
    ||| c == '\u{3000}'
}

/// Whether `c` is white space.
pub fn space(c: char) -> (b: bool)
    ensures
        b == is_space(c),
{
    ('\u{9}' <= c && c <= '\u{d}') || c == ' ' || c == '\u{85}' || c == '\u{a0}' || c
        == '\u{1680}' || ('\u{2000}' <= c && c <= '\u{200a}') || c == '\u{2028}' || c
        == '\u{2029}' || c == '\u{202f}' || c == '\u{205f}' || c == '\u{3000}'
}

/// How many white-space characters `s` begins with.
pub open spec fn leading_spaces(s: Seq<char>) -> nat
    decreases s.len(),
{
    if s.len() > 0 && is_space(s[0]) {
        1 + leading_spaces(s.drop_first())
    } else {
        0
    }
}

/// How many white-space characters `s` ends with.
pub open spec fn trailing_spaces(s: Seq<char>) -> nat
    decreases s.len(),
{
    if s.len() > 0 && is_space(s.last()) {
        1 + trailing_spaces(s.drop_last())
    } else {
        0
    }
}

/// `s` without the white space it begins and ends with.
pub open spec fn trimmed(s: Seq<char>) -> Seq<char> {
    let rest = s.skip(leading_spaces(s) as int);
    rest.take(rest.len() - trailing_spaces(rest))
}

/// `leading_spaces` is the place of the first character that is no white space.
pub proof fn lemma_leading_spaces(s: Seq<char>, k: int)
    requires
        0 <= k <= s.len(),
        forall|i: int| 0 <= i < k ==> is_space(s[i]),
        k < s.len() ==> !is_space(s[k]),
    ensures
        leading_spaces(s) == k,
    decreases s.len(),
{
    if k > 0 {
        let rest = s.drop_first();
        assert forall|i: int| 0 <= i < k - 1 implies is_space(rest[i]) by {
            assert(rest[i] == s[i + 1]);
        }
        lemma_leading_spaces(rest, k - 1);
    }
}

/// `trailing_spaces` counts back to the last character that is no white space.
pub proof fn lemma_trailing_spaces(s: Seq<char>, k: int)
    requires
        0 <= k <= s.len(),
        forall|i: int| s.len() - k <= i < s.len() ==> is_space(s[i]),
        k < s.len() ==> !is_space(s[s.len() - k - 1]),
    ensures
        trailing_spaces(s) == k,
    decreases s.len(),
{
    if k > 0 {
        let rest = s.drop_last();
        assert forall|i: int| rest.len() - (k - 1) <= i < rest.len() implies is_space(rest[i]) by {
            assert(rest[i] == s[i]);
        }
        lemma_trailing_spaces(rest, k - 1);
    }
}

/// The bounds of `chars[from..to]` without the white space it begins and
/// ends with.
pub fn trim_bounds(chars: &Vec<char>, from: usize, to: usize) -> (bounds: (usize, usize))
    requires
        from <= to <= chars@.len(),
    ensures
        from <= bounds.0 <= bounds.1 <= to,
        chars@.subrange(bounds.0 as int, bounds.1 as int) == trimmed(
            chars@.subrange(from as int, to as int),
        ),
{
    let ghost s = chars@.subrange(from as int, to as int);
    let mut a: usize = from;
    while a < to && space(chars[a])
        invariant
            from <= a <= to <= chars@.len(),
            s == chars@.subrange(from as int, to as int),
            forall|i: int| 0 <= i < a - from ==> is_space(s[i]),
        decreases to - a,
    {
        assert(s[a - from] == chars@[a as int]);
        a = a + 1;
    }
    proof {
        if a < to {
            assert(s[a - from] == chars@[a as int]);
        }
        lemma_leading_spaces(s, a - from);
    }
    let ghost rest = chars@.subrange(a as int, to as int);
    assert(rest == s.skip(a - from));
    let mut b: usize = to;
    while b > a && space(chars[b - 1])
        invariant
            a <= b <= to <= chars@.len(),
            rest == chars@.subrange(a as int, to as int),
            forall|i: int| b - a <= i < rest.len() ==> is_space(rest[i]),
        decreases b,
    {
        assert(rest[b - 1 - a] == chars@[b - 1]);
        b = b - 1;
    }
    proof {
        if b > a {
            assert(rest[b - 1 - a] == chars@[b - 1]);
        }
        lemma_trailing_spaces(rest, to - b);
        assert(rest.take(b - a) == chars@.subrange(a as int, b as int));
    }
    (a, b)
}

/// Whether `s` begins with `prefix`.
pub open spec fn starts_with(s: Seq<char>, prefix: Seq<char>) -> bool {
    s.len() >= prefix.len() && s.take(prefix.len() as int) == prefix
}

/// Whether `s` ends with `suffix`.
pub open spec fn ends_with(s: Seq<char>, suffix: Seq<char>) -> bool {
    s.len() >= suffix.len() && s.skip(s.len() - suffix.len()) == suffix
}

/// Whether `chars[from..to]` holds the characters of `other`.
pub fn slice_is(chars: &Vec<char>, from: usize, to: usize, other: &Vec<char>) -> (same: bool)
    requires
        from <= to <= chars@.len(),
    ensures
        same == (chars@.subrange(from as int, to as int) == other@),
{
    if to - from != other.len() {
        return false;
    }
    let ghost s = chars@.subrange(from as int, to as int);
    let mut i: usize = 0;
    while i < other.len()
        invariant
            from <= to <= chars@.len(),
            to - from == other@.len(),
            i <= other@.len(),
            s == chars@.subrange(from as int, to as int),
            s.take(i as int) == other@.take(i as int),
        decreases other@.len() - i,
    {
        if chars[from + i] != other[i] {
            assert(s[i as int] != other@[i as int]);
            return false;
        }
        assert(s.take(i + 1) == s.take(i as int).push(s[i as int]));
        assert(other@.take(i + 1) == other@.take(i as int).push(other@[i as int]));
        i = i + 1;
    }
    assert(s.take(i as int) == s);
    assert(other@.take(i as int) == other@);
    true
}

/// `s` without `prefix` at its beginning, as often as it stands there.
pub open spec fn without_prefixes(s: Seq<char>, prefix: Seq<char>) -> Seq<char>
    decreases s.len(),
{
    if prefix.len() > 0 && starts_with(s, prefix) {
        without_prefixes(s.skip(prefix.len() as int), prefix)
    } else {
        s
    }
}

/// `s` without `suffix` at its end, as often as it stands there.
pub open spec fn without_suffixes(s: Seq<char>, suffix: Seq<char>) -> Seq<char>
    decreases s.len(),
{
    if suffix.len() > 0 && ends_with(s, suffix) {
        without_suffixes(s.take(s.len() - suffix.len()), suffix)
    } else {
        s
    }
}

/// Whether `chars[from..to]` begins with `prefix`.
pub fn begins_with(chars: &Vec<char>, from: usize, to: usize, prefix: &Vec<char>) -> (b: bool)
    requires
        from <= to <= chars@.len(),
    ensures
        b == starts_with(chars@.subrange(from as int, to as int), prefix@),
{
    if to - from < prefix.len() {
        return false;
    }
    assert(chars@.subrange(from as int, to as int).take(prefix@.len() as int) == chars@.subrange(
        from as int,
        from + prefix@.len(),
    ));
    slice_is(chars, from, from + prefix.len(), prefix)
}

/// Whether `chars[from..to]` ends with `suffix`.
pub fn finishes_with(chars: &Vec<char>, from: usize, to: usize, suffix: &Vec<char>) -> (b: bool)
    requires
        from <= to <= chars@.len(),
    ensures
        b == ends_with(chars@.subrange(from as int, to as int), suffix@),
{
    if to - from < suffix.len() {
        return false;
    }
    assert(chars@.subrange(from as int, to as int).skip(to - from - suffix@.len())
        == chars@.subrange(to - suffix@.len(), to as int));
    slice_is(chars, to - suffix.len(), to, suffix)
}

/// The bounds of `chars` without `prefix` at its beginning and `suffix` at
/// its end, each as often as it stands there; the prefix goes first.
pub fn strip_bounds(chars: &Vec<char>, prefix: &Vec<char>, suffix: &Vec<char>) -> (bounds: (
    usize,
    usize,
))
    ensures
        bounds.0 <= bounds.1 <= chars@.len(),
        chars@.subrange(bounds.0 as int, bounds.1 as int) == without_suffixes(
            without_prefixes(chars@, prefix@),
            suffix@,
        ),
{
    let n = chars.len();
    let mut from: usize = 0;
    assert(chars@.subrange(0, n as int) == chars@);
    while prefix.len() > 0 && begins_with(chars, from, n, prefix)
        invariant
            from <= n == chars@.len(),
            without_prefixes(chars@, prefix@) == without_prefixes(
                chars@.subrange(from as int, n as int),
                prefix@,
            ),
        decreases n - from,
    {
        assert(chars@.subrange(from as int, n as int).skip(prefix@.len() as int)
            == chars@.subrange(from + prefix@.len(), n as int));
        from = from + prefix.len();
    }
    let ghost stem = chars@.subrange(from as int, n as int);
    let mut to: usize = n;
    assert(chars@.subrange(from as int, to as int) == stem);
    while suffix.len() > 0 && finishes_with(chars, from, to, suffix)
        invariant
            from <= to <= n == chars@.len(),
            without_suffixes(stem, suffix@) == without_suffixes(
                chars@.subrange(from as int, to as int),
                suffix@,
            ),
        decreases to - from,
    {
        assert(chars@.subrange(from as int, to as int).take(to - from - suffix@.len())
            == chars@.subrange(from as int, to - suffix@.len()));
        to = to - suffix.len();
    }
    (from, to)
}

/// How many decimal digits `s` begins with.
pub open spec fn digit_run(s: Seq<char>) -> nat
    decreases s.len(),
{
    if s.len() > 0 && is_digit(s[0]) {
        1 + digit_run(s.drop_first())
    } else {
        0
    }
}

/// `digit_run` is the place of the first character that is no digit.
pub proof fn lemma_digit_run(s: Seq<char>, k: int)
    requires
        0 <= k <= s.len(),
        forall|i: int| 0 <= i < k ==> is_digit(s[i]),
        k < s.len() ==> !is_digit(s[k]),
    ensures
        digit_run(s) == k,
    decreases s.len(),
{
    if k > 0 {
        let rest = s.drop_first();
        assert forall|i: int| 0 <= i < k - 1 implies is_digit(rest[i]) by {
            assert(rest[i] == s[i + 1]);
        }
        lemma_digit_run(rest, k - 1);
    }
}

/// The index behind the digits that `chars[from..to]` begins with.
pub fn skip_digits(chars: &Vec<char>, from: usize, to: usize) -> (at: usize)
    requires
        from <= to <= chars@.len(),
    ensures
        from <= at <= to,
        at == from + digit_run(chars@.subrange(from as int, to as int)),
{
    let ghost s = chars@.subrange(from as int, to as int);
    let mut i: usize = from;
    while i < to && '0' <= chars[i] && chars[i] <= '9'
        invariant
            from <= i <= to <= chars@.len(),
            s == chars@.subrange(from as int, to as int),
            forall|j: int| 0 <= j < i - from ==> is_digit(s[j]),
        decreases to - i,
    {
        assert(s[i - from] == chars@[i as int]);
        i = i + 1;
    }
    proof {
        if i < to {
            assert(s[i - from] == chars@[i as int]);
        }
        lemma_digit_run(s, i - from);
    }
    i
}

/// The small letter of a capital letter of the basic alphabet; any other
/// character as it is.
pub open spec fn lowered(c: char) -> char {
    if 'A' <= c && c <= 'Z' {
        ((c as u8 + 32) as u8) as char
    } else {
        c
    }
}

/// Whether `s` is `word` but for the case of its letters.
pub open spec fn spells(s: Seq<char>, word: Seq<char>) -> bool {
    s.len() == word.len() && forall|i: int| 0 <= i < s.len() ==> lowered(s[i]) == #[trigger] word[i]
}

/// Whether `chars[from..to]` is `word` but for the case of its letters.
pub fn spelled(chars: &Vec<char>, from: usize, to: usize, word: &str) -> (b: bool)
    requires
        from <= to <= chars@.len(),
    ensures
        b == spells(chars@.subrange(from as int, to as int), word@),
{
    let letters = chars_of(word);
    if to - from != letters.len() {
        return false;
    }
    let ghost s = chars@.subrange(from as int, to as int);
    let mut i: usize = 0;
    while i < letters.len()
        invariant
            from <= to <= chars@.len(),
            to - from == letters@.len(),
            letters@ == word@,
            i <= letters@.len(),
            s == chars@.subrange(from as int, to as int),
            forall|j: int| 0 <= j < i ==> lowered(s[j]) == #[trigger] letters@[j],
        decreases letters@.len() - i,
    {
        let c = chars[from + i];
        assert(c == s[i as int]);
        let low = if 'A' <= c && c <= 'Z' {
            ((c as u8 + 32) as u8) as char
        } else {
            c
        };
        if low != letters[i] {
            return false;
        }
        i = i + 1;
    }
    true
}

/// Whether `s` is the exponent of a number: the letter `e` in either case,
/// then digits, with or without a sign before them.
pub open spec fn is_exponent(s: Seq<char>) -> bool {
    &&& s.len() > 0
    &&& lowered(s[0]) == 'e'
    &&& ({
        let signed = s.len() > 1 && (s[1] == '+' || s[1] == '-');
        let digits = if signed {
            s.skip(2)
        } else {
            s.skip(1)
        };
        digits.len() > 0 && digit_run(digits) == digits.len()
    })
}

/// Whether `s` is a number without sign: digits with or without a point
/// among them, at least one digit in all, and an exponent or none behind
/// them.
pub open spec fn is_unsigned_number(s: Seq<char>) -> bool {
    let whole = digit_run(s);
    let behind = s.skip(whole as int);
    if behind.len() > 0 && behind[0] == '.' {
        let fraction = digit_run(behind.skip(1));
        let tail = behind.skip(1 + fraction as int);
        whole + fraction > 0 && (tail.len() == 0 || is_exponent(tail))
    } else {
        whole > 0 && (behind.len() == 0 || is_exponent(behind))
    }
}

/// What a sign, if there is one, stands before.
pub open spec fn unsigned_part(s: Seq<char>) -> Seq<char> {
    if s.len() > 0 && (s[0] == '+' || s[0] == '-') {
        s.skip(1)
    } else {
        s
    }
}

/// Whether `s` is the text of a floating-point number as the standard
/// library reads one: with or without a sign, a number in decimal with or
/// without a point and an exponent, or one of the words `inf`, `infinity`
/// and `nan` in any case.
pub open spec fn is_float_text(s: Seq<char>) -> bool {
    let body = unsigned_part(s);
    spells(body, "inf"@) || spells(body, "infinity"@) || spells(body, "nan"@)
        || is_unsigned_number(body)
}

/// Whether a size, where one is stated, is the text of a number.
pub open spec fn is_size(text: Option<Seq<char>>) -> bool {
    match text {
        Some(t) => is_float_text(t),
        None => true,
    }
}

/// Whether `chars[from..to]` is the exponent of a number.
fn exponent(chars: &Vec<char>, from: usize, to: usize) -> (b: bool)
    requires
        from <= to <= chars@.len(),
    ensures
        b == is_exponent(chars@.subrange(from as int, to as int)),
{
    let ghost s = chars@.subrange(from as int, to as int);
    if from == to {
        return false;
    }
    assert(s[0] == chars@[from as int]);
    if chars[from] != 'e' && chars[from] != 'E' {
        return false;
    }
    let signed = to - from > 1 && (chars[from + 1] == '+' || chars[from + 1] == '-');
    proof {
        if to - from > 1 {
            assert(s[1] == chars@[from + 1]);
        }
    }
    let start: usize = if signed {
        from + 2
    } else {
        from + 1
    };
    assert(chars@.subrange(start as int, to as int) == s.skip(start - from));
    let end = skip_digits(chars, start, to);
    start < to && end == to
}

/// Whether `s` is the text of a floating-point number.
pub fn float_text(s: &str) -> (b: bool)
    ensures
        b == is_float_text(s@),
{
    let chars = chars_of(s);
    let n = chars.len();
    let from: usize = if n > 0 && (chars[0] == '+' || chars[0] == '-') {
        1
    } else {
        0
    };
    let ghost body = chars@.subrange(from as int, n as int);
    assert(body == unsigned_part(chars@));
    if spelled(&chars, from, n, "inf") || spelled(&chars, from, n, "infinity") || spelled(
        &chars,
        from,
        n,
        "nan",
    ) {
        return true;
    }
    let whole = skip_digits(&chars, from, n);
    assert(chars@.subrange(whole as int, n as int) == body.skip(whole - from));
    if whole < n && chars[whole] == '.' {
        assert(body.skip(whole - from)[0] == chars@[whole as int]);
        assert(chars@.subrange(whole + 1, n as int) == body.skip(whole - from).skip(1));
        let fraction = skip_digits(&chars, whole + 1, n);
        assert(chars@.subrange(fraction as int, n as int) == body.skip(whole - from).skip(
            1 + (fraction - whole - 1),
        ));
        (whole - from) + (fraction - whole - 1) > 0 && (fraction == n || exponent(
            &chars,
            fraction,
            n,
        ))
    } else {
        proof {
            if whole < n {
                assert(body.skip(whole - from)[0] == chars@[whole as int]);
            }
        }
        whole > from && (whole == n || exponent(&chars, whole, n))
    }
}

} // verus!
