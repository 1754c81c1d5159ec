//! Cell addresses such as `AB12` and ranges such as `A1:C3`, and the
//! zero-based (column, row) pairs they stand for.

use vstd::prelude::*;
use vstd::string::StringExecFns;
use crate::text::{
    all_digits, chars_of, decimal_digits, decimal_text, decimal_value, digit_value, find_char,
    is_digit, lemma_decimal_digits, parse_digits, position_of,
};

verus! {

/// Whether `c` is one of the letters that write a column.
pub open spec fn is_letter(c: char) -> bool {
    'A' <= c && c <= 'Z'
}

/// The digit a column letter stands for: `A` is 1, `Z` is 26.
pub open spec fn letter_value(c: char) -> nat {
    (c as nat - 'A' as nat + 1) as nat
}

/// Whether every character of `s` is a column letter.
pub open spec fn all_letters(s: Seq<char>) -> bool {
    forall|i: int| 0 <= i < s.len() ==> is_letter(#[trigger] s[i])
}

/// The one-based column that the letters of `s` write: a numeral in base 26
/// whose digits run from 1 to 26, the first letter weighing most.
pub open spec fn column_value(s: Seq<char>) -> nat
    decreases s.len(),
{
    if s.len() == 0 {
        0
    } else {
        column_value(s.drop_last()) * 26 + letter_value(s.last())
    }
}

/// How many column letters `s` begins with.
pub open spec fn letter_run(s: Seq<char>) -> nat
    decreases s.len(),
{
    if s.len() > 0 && is_letter(s[0]) {
        1 + letter_run(s.drop_first())
    } else {
        0
    }
}

/// The letters an address begins with.
pub open spec fn address_letters(s: Seq<char>) -> Seq<char> {
    s.take(letter_run(s) as int)
}

/// What follows the letters of an address.
pub open spec fn address_digits(s: Seq<char>) -> Seq<char> {
    s.skip(letter_run(s) as int)
}

/// A well-formed address: letters that write a column from 1 up, then digits
/// that write a row from 1 up, both within 32 bits.
pub open spec fn valid_address(s: Seq<char>) -> bool {
    &&& 1 <= column_value(address_letters(s)) <= u32::MAX
    &&& all_digits(address_digits(s))
    &&& 1 <= decimal_value(address_digits(s)) <= u32::MAX
}

/// The zero-based (column, row) that a well-formed address stands for.
pub open spec fn address_offsets(s: Seq<char>) -> (int, int) {
    (column_value(address_letters(s)) - 1, decimal_value(address_digits(s)) - 1)
}

/// `letter_run` is the place of the first character that is no letter.
pub proof fn lemma_letter_run(s: Seq<char>, k: int)
    requires
        0 <= k <= s.len(),
        all_letters(s.take(k)),
        k < s.len() ==> !is_letter(s[k]),
    ensures
        letter_run(s) == k,
    decreases s.len(),
{
    if k == 0 {
    } else {
        assert(s.take(k)[0] == s[0]);
        let rest = s.drop_first();
        assert forall|i: int| 0 <= i < rest.take(k - 1).len() implies is_letter(
            #[trigger] rest.take(k - 1)[i],
        ) by {
            assert(rest.take(k - 1)[i] == s.take(k)[i + 1]);
        }
        lemma_letter_run(rest, k - 1);
    }
}

/// A longer run of letters never writes a smaller column than its beginning.
pub proof fn lemma_column_value_grows(s: Seq<char>, i: int)
    requires
        0 <= i <= s.len(),
    ensures
        column_value(s.take(i)) <= column_value(s),
    decreases s.len(),
{
    if i == s.len() {
        assert(s.take(i) == s);
    } else {
        lemma_column_value_grows(s.drop_last(), i);
        assert(s.drop_last().take(i) == s.take(i));
    }
}

/// The letters an address begins with are letters, and the first character
/// after them is none.
pub proof fn lemma_letter_run_bounds(s: Seq<char>)
    ensures
        letter_run(s) <= s.len(),
        all_letters(s.take(letter_run(s) as int)),
        letter_run(s) < s.len() ==> !is_letter(s[letter_run(s) as int]),
    decreases s.len(),
{
    if s.len() > 0 && is_letter(s[0]) {
        let rest = s.drop_first();
        lemma_letter_run_bounds(rest);
        let k = letter_run(s) as int;
        assert forall|i: int| 0 <= i < s.take(k).len() implies is_letter(#[trigger] s.take(k)[i]) by {
            if i > 0 {
                assert(s.take(k)[i] == rest.take(k - 1)[i - 1]);
            }
        }
    }
}

/// Reads `chars[from..to]` as an address. Gives the zero-based (column, row)
/// where it is well formed, and nothing where it is not.
pub fn parse_address(chars: &Vec<char>, from: usize, to: usize) -> (offsets: Option<(u32, u32)>)
    requires
        from <= to <= chars@.len(),
    ensures
        offsets is Some <==> valid_address(chars@.subrange(from as int, to as int)),
        offsets matches Some(p) ==> (p.0 as int, p.1 as int) == address_offsets(
            chars@.subrange(from as int, to as int),
        ),
{
    let ghost s = chars@.subrange(from as int, to as int);
    let mut column: u64 = 0;
    let mut i: usize = from;
    while i < to && 'A' <= chars[i] && chars[i] <= 'Z'
        invariant
            from <= i <= to <= chars@.len(),
            s == chars@.subrange(from as int, to as int),
            all_letters(s.take(i - from)),
            column == column_value(s.take(i - from)),
            column <= u32::MAX,
        decreases to - i,
    {
        let c = chars[i];
        let next: u64 = column * 26 + ((c as u32 - 'A' as u32) as u64 + 1);
        proof {
            let longer = s.take(i - from + 1);
            assert(longer.drop_last() == s.take(i - from));
            assert(longer.last() == c);
            assert(next == column_value(longer));
        }
        if next > 0xffff_ffff {
            proof {
                lemma_letter_run_bounds(s);
                let k = letter_run(s) as int;
                if k < i - from + 1 {
                    assert(s.take(i - from + 1)[k] == s[k]);
                }
                lemma_column_value_grows(s.take(k), i - from + 1);
                assert(s.take(k).take(i - from + 1) == s.take(i - from + 1));
            }
            return None;
        }
        column = next;
        i = i + 1;
    }
    proof {
        if i < to {
            assert(s[i - from] == chars@[i as int]);
        }
        lemma_letter_run(s, i - from);
        assert(s.skip(i - from) == chars@.subrange(i as int, to as int));
    }
    if column == 0 {
        return None;
    }
    match parse_digits(chars, i, to) {
        Some(row) => {
            if row == 0 {
                None
            } else {
                Some(((column - 1) as u32, row - 1))
            }
        },
        None => {
            proof {
                if i == to {
                    assert(address_digits(s).len() == 0);
                }
            }
            None
        },
    }
}

/// Whether `s` is a well-formed address.
pub fn is_valid_address(s: &str) -> (valid: bool)
    ensures
        valid == valid_address(s@),
{
    let chars = chars_of(s);
    assert(chars@.subrange(0, chars@.len() as int) == chars@);
    parse_address(&chars, 0, chars.len()).is_some()
}

/// The zero-based (column, row) of the address `s`.
pub fn cell_index_to_offsets(s: String) -> (offsets: (u32, u32))
    requires
        valid_address(s@),
    ensures
        (offsets.0 as int, offsets.1 as int) == address_offsets(s@),
{
    let chars = chars_of(s.as_str());
    assert(chars@.subrange(0, chars@.len() as int) == chars@);
    parse_address(&chars, 0, chars.len()).unwrap()
}

/// The letter that writes a base-26 digit from 1 to 26.
pub open spec fn letter_char(v: nat) -> char {
    ('A' as nat + v - 1) as char
}

/// The letters that write the one-based column `n`; none for 0.
pub open spec fn column_letters(n: nat) -> Seq<char>
    decreases n,
{
    if n == 0 {
        Seq::<char>::empty()
    } else {
        column_letters(((n - 1) / 26) as nat).push(letter_char(((n - 1) % 26 + 1) as nat))
    }
}

/// The canonical address of the zero-based (column, row): the letters of the
/// column, then the digits of the row without a leading zero.
pub open spec fn address_text(column: nat, row: nat) -> Seq<char> {
    column_letters(column + 1) + decimal_digits(row + 1)
}

/// The letters of a column write that column.
pub proof fn lemma_column_letters(n: nat)
    ensures
        all_letters(column_letters(n)),
        column_value(column_letters(n)) == n,
        n > 0 ==> column_letters(n).len() > 0,
    decreases n,
{
    if n > 0 {
        let head = ((n - 1) / 26) as nat;
        lemma_column_letters(head);
        let s = column_letters(n);
        assert(s.drop_last() == column_letters(head));
        assert(s.last() == letter_char(((n - 1) % 26 + 1) as nat));
    }
}

/// Letters are written back as they were read: the column they stand for has
/// no other spelling.
pub proof fn lemma_column_letters_unique(s: Seq<char>)
    requires
        all_letters(s),
    ensures
        column_letters(column_value(s)) == s,
    decreases s.len(),
{
    if s.len() > 0 {
        let head = s.drop_last();
        assert forall|i: int| 0 <= i < head.len() implies is_letter(#[trigger] head[i]) by {
            assert(head[i] == s[i]);
        }
        lemma_column_letters_unique(head);
        let n = column_value(s);
        let v = letter_value(s.last());
        assert(is_letter(s[s.len() - 1]));
        assert(n == column_value(head) * 26 + v);
        assert((n - 1) / 26 == column_value(head));
        assert((n - 1) % 26 + 1 == v);
        assert(letter_char(v) == s.last());
        assert(column_letters(n) == head.push(s.last()));
        assert(head.push(s.last()) == s);
    }
}

/// Digits without a leading zero are written back as they were read.
pub proof fn lemma_decimal_digits_unique(s: Seq<char>)
    requires
        s.len() > 0,
        all_digits(s),
        s.len() > 1 ==> s[0] != '0',
    ensures
        decimal_digits(decimal_value(s)) == s,
    decreases s.len(),
{
    let head = s.drop_last();
    let d = digit_value(s.last());
    assert(is_digit(s[s.len() - 1]));
    if s.len() == 1 {
        assert(decimal_value(head) == 0);
        assert(decimal_value(s) == d);
        assert(decimal_digits(d) == seq![s.last()]);
        assert(seq![s.last()] == s);
    } else {
        assert forall|i: int| 0 <= i < head.len() implies is_digit(
            #[trigger] head[i],
        ) by {
            assert(head[i] == s[i]);
        }
        assert(head[0] == s[0]);
        lemma_decimal_digits_unique(head);
        lemma_leading_digit(head);
        let n = decimal_value(s);
        assert(n == decimal_value(head) * 10 + d);
        assert(n / 10 == decimal_value(head));
        assert(n % 10 == d);
        assert(decimal_digits(n) == head.push(s.last()));
        assert(head.push(s.last()) == s);
    }
}

/// Digits that do not begin with a zero write a number that is not zero.
pub proof fn lemma_leading_digit(s: Seq<char>)
    requires
        s.len() > 0,
        all_digits(s),
        s[0] != '0',
    ensures
        decimal_value(s) >= 1,
    decreases s.len(),
{
    let head = s.drop_last();
    if s.len() == 1 {
        assert(decimal_value(head) == 0);
        assert(is_digit(s[0]));
    } else {
        assert forall|i: int| 0 <= i < head.len() implies is_digit(
            #[trigger] head[i],
        ) by {
            assert(head[i] == s[i]);
        }
        assert(head[0] == s[0]);
        lemma_leading_digit(head);
    }
}

/// How the canonical address of a (column, row) splits into letters and digits.
pub proof fn lemma_address_text_parts(column: nat, row: nat)
    ensures
        address_letters(address_text(column, row)) == column_letters(column + 1),
        address_digits(address_text(column, row)) == decimal_digits(row + 1),
{
    let letters = column_letters(column + 1);
    let digits = decimal_digits(row + 1);
    let s = address_text(column, row);
    lemma_column_letters(column + 1);
    lemma_decimal_digits(row + 1);
    assert(s.take(letters.len() as int) == letters);
    assert(s.skip(letters.len() as int) == digits);
    assert(s[letters.len() as int] == digits[0]);
    assert(is_digit(digits[0]));
    lemma_letter_run(s, letters.len() as int);
}

/// Reading is the inverse of canonical writing: the canonical address of a
/// (column, row) is well formed and stands for that (column, row).
pub proof fn lemma_address_round_trip(column: nat, row: nat)
    requires
        column < u32::MAX,
        row < u32::MAX,
    ensures
        valid_address(address_text(column, row)),
        address_offsets(address_text(column, row)) == (column as int, row as int),
{
    lemma_address_text_parts(column, row);
    lemma_column_letters(column + 1);
    lemma_decimal_digits(row + 1);
}

/// Canonical writing is the inverse of reading: a well-formed address whose
/// row has no leading zero is the canonical address of what it stands for.
pub proof fn lemma_offsets_round_trip(s: Seq<char>)
    requires
        valid_address(s),
        address_digits(s).len() > 1 ==> address_digits(s)[0] != '0',
    ensures
        address_text(address_offsets(s).0 as nat, address_offsets(s).1 as nat) == s,
{
    lemma_letter_run_bounds(s);
    lemma_column_letters_unique(address_letters(s));
    let digits = address_digits(s);
    if digits.len() == 0 {
        assert(decimal_value(digits) == 0);
    }
    lemma_decimal_digits_unique(digits);
    assert(address_letters(s) + address_digits(s) == s);
}

/// The canonical address of the zero-based (column, row).
pub fn offsets_to_address(column: u32, row: u32) -> (s: String)
    ensures
        s@ == address_text(column as nat, row as nat),
{
    let mut letters: Vec<char> = Vec::new();
    let mut rest: u64 = column as u64 + 1;
    while rest > 0
        invariant
            rest <= column + 1,
            column_letters((column + 1) as nat) == column_letters(rest as nat) + letters@.reverse(),
        decreases rest,
    {
        let v: u64 = (rest - 1) % 26;
        let c: char = (('A' as u32 + v as u32) as u8) as char;
        assert(c == letter_char((v + 1) as nat));
        proof {
            let head = column_letters(((rest - 1) / 26) as nat);
            assert(letters@.push(c).reverse() == seq![c] + letters@.reverse());
            assert(column_letters(rest as nat) == head.push(c));
            assert(head.push(c) + letters@.reverse() == head + (seq![c] + letters@.reverse()));
        }
        letters.push(c);
        rest = (rest - 1) / 26;
    }
    let mut s = String::new();
    let mut i: usize = letters.len();
    while i > 0
        invariant
            i <= letters@.len(),
            s@ == letters@.reverse().take(letters@.len() - i),
        decreases i,
    {
        i = i - 1;
        s.push(letters[i]);
        proof {
            let r = letters@.reverse();
            let k = letters@.len() - i;
            assert(r.take(k) == r.take(k - 1).push(r[k - 1]));
            assert(r[k - 1] == letters@[i as int]);
        }
    }
    assert(letters@.reverse().take(letters@.len() as int) == letters@.reverse());
    assert(column_letters(0) + letters@.reverse() == letters@.reverse());
    let digits = decimal_text(row as u64 + 1);
    s.append(digits.as_str());
    s
}

/// The address before the first colon of a range.
pub open spec fn range_first(s: Seq<char>) -> Seq<char> {
    s.take(position_of(s, ':') as int)
}

/// The address between the first colon of a range and the next, or the end.
pub open spec fn range_second(s: Seq<char>) -> Seq<char> {
    let rest = s.skip(position_of(s, ':') as int + 1);
    rest.take(position_of(rest, ':') as int)
}

/// A well-formed range: two well-formed addresses with a colon between them.
/// What follows a second colon is not read.
pub open spec fn valid_range(s: Seq<char>) -> bool {
    &&& position_of(s, ':') < s.len()
    &&& valid_address(range_first(s))
    &&& valid_address(range_second(s))
}

/// The two corners of a range, each a zero-based (column, row).
pub struct Range {
    pub first: (u32, u32),
    pub last: (u32, u32),
}

impl Range {
    /// Whether this is the range that `s` writes.
    pub open spec fn is_range_of(self, s: Seq<char>) -> bool {
        &&& (self.first.0 as int, self.first.1 as int) == address_offsets(range_first(s))
        &&& (self.last.0 as int, self.last.1 as int) == address_offsets(range_second(s))
    }

    /// Reads a range such as `A1:C3`. Gives nothing where `dimension` is not
    /// a well-formed range.
    pub fn parse(dimension: &str) -> (range: Option<Range>)
        ensures
            range is Some <==> valid_range(dimension@),
            range matches Some(r) ==> r.is_range_of(dimension@),
    {
        let chars = chars_of(dimension);
        let colon = find_char(&chars, 0, chars.len(), ':');
        assert(chars@.subrange(0, chars@.len() as int) == chars@);
        if colon == chars.len() {
            return None;
        }
        let end = find_char(&chars, colon + 1, chars.len(), ':');
        assert(chars@.subrange(0, colon as int) == range_first(chars@));
        assert(chars@.subrange(colon + 1, chars@.len() as int) == chars@.skip(colon + 1));
        assert(chars@.subrange(colon + 1, end as int) == range_second(chars@));
        match (parse_address(&chars, 0, colon), parse_address(&chars, colon + 1, end)) {
            (Some(first), Some(last)) => Some(Range { first, last }),
            _ => None,
        }
    }

    /// Reads a range such as `A1:C3`.
    pub fn new(dimension: String) -> (range: Range)
        requires
            valid_range(dimension@),
        ensures
            range.is_range_of(dimension@),
    {
        Range::parse(dimension.as_str()).unwrap()
    }

    /// The number of columns and of rows that a grid needs to hold the last
    /// corner of the range.
    pub fn get_max_offsets(&self) -> (extent: (u32, u32))
        requires
            self.last.0 < u32::MAX,
            self.last.1 < u32::MAX,
        ensures
            extent.0 == self.last.0 + 1,
            extent.1 == self.last.1 + 1,
    {
        (self.last.0 + 1, self.last.1 + 1)
    }
}

} // verus!
