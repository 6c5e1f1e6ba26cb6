//! The text side of the hybrid frames: comma-separated fields, decimal
//! numbers and surrounding whitespace, all on plain bytes.

use vstd::prelude::*;
use vstd::slice::slice_subrange;

verus! {

pub const COMMA: u8 = 0x2c;

pub const PLUS: u8 = 0x2b;

pub const MINUS: u8 = 0x2d;

pub const DIGIT_ZERO: u8 = 0x30;

pub const DIGIT_NINE: u8 = 0x39;

pub const CARRIAGE_RETURN: u8 = 0x0d;

pub const LINE_FEED: u8 = 0x0a;

pub const SPACE: u8 = 0x20;

pub const TAB: u8 = 0x09;

/// `b` is one of the ten decimal digits.
pub open spec fn is_digit(b: u8) -> bool {
    DIGIT_ZERO <= b <= DIGIT_NINE
}

/// Every byte of `s` is a decimal digit.
pub open spec fn all_digits(s: Seq<u8>) -> bool {
    forall|i: int| 0 <= i < s.len() ==> is_digit(#[trigger] s[i])
}

/// The number that a run of decimal digits writes, most significant first.
pub open spec fn digits_value(s: Seq<u8>) -> nat
    decreases s.len(),
{
    if s.len() == 0 {
        0
    } else {
        10 * digits_value(s.drop_last()) + (s.last() - DIGIT_ZERO) as nat
    }
}

/// The value of a non-empty run of digits, if it is one and does not exceed
/// `limit`.
pub open spec fn digits_within(s: Seq<u8>, limit: nat) -> Option<nat> {
    if s.len() > 0 && all_digits(s) && digits_value(s) <= limit {
        Some(digits_value(s))
    } else {
        None
    }
}

/// What an unsigned decimal field holds: an optional `+`, then one or more
/// digits and nothing else.
pub open spec fn unsigned_decimal(s: Seq<u8>) -> Option<nat> {
    let digits = if s.len() > 0 && s[0] == PLUS {
        s.skip(1)
    } else {
        s
    };
    if digits.len() > 0 && all_digits(digits) {
        Some(digits_value(digits))
    } else {
        None
    }
}

/// What a signed decimal field holds: an optional `+` or `-`, then one or
/// more digits and nothing else.
pub open spec fn signed_decimal(s: Seq<u8>) -> Option<int> {
    if s.len() > 0 && s[0] == MINUS {
        let digits = s.skip(1);
        if digits.len() > 0 && all_digits(digits) {
            Some(-(digits_value(digits) as int))
        } else {
            None
        }
    } else {
        match unsigned_decimal(s) {
            Some(v) => Some(v as int),
            None => None,
        }
    }
}

/// An unsigned decimal field read into a machine word: `None` where the
/// field is malformed or its value does not fit.
pub open spec fn unsigned_field(s: Seq<u8>) -> Option<usize> {
    match unsigned_decimal(s) {
        Some(v) => if v <= usize::MAX {
            Some(v as usize)
        } else {
            None
        },
        None => None,
    }
}

/// A signed decimal field read into sixteen bits: `None` where the field is
/// malformed or its value does not fit.
pub open spec fn signed_field(s: Seq<u8>) -> Option<i16> {
    match signed_decimal(s) {
        Some(v) => if i16::MIN <= v <= i16::MAX {
            Some(v as i16)
        } else {
            None
        },
        None => None,
    }
}

/// The shortest decimal writing of `n`.
pub open spec fn decimal_digits(n: nat) -> Seq<u8>
    decreases n,
{
    if n < 10 {
        seq![(DIGIT_ZERO + n) as u8]
    } else {
        decimal_digits(n / 10).push((DIGIT_ZERO + n % 10) as u8)
    }
}

/// The decimal writing of a signed number: a `-` before the digits of a
/// negative one.
pub open spec fn signed_digits(v: int) -> Seq<u8> {
    if v < 0 {
        seq![MINUS] + decimal_digits((-v) as nat)
    } else {
        decimal_digits(v as nat)
    }
}

/// Position of the first comma of `s` at or after `from`; the length of `s`
/// where there is none.
pub open spec fn first_comma(s: Seq<u8>, from: int) -> int
    decreases s.len() - from,
{
    if from < 0 || from >= s.len() {
        s.len() as int
    } else if s[from] == COMMA {
        from
    } else {
        first_comma(s, from + 1)
    }
}

/// `b` is ASCII whitespace in the sense of Unicode: tab, line feed, vertical
/// tab, form feed, carriage return or space.
pub open spec fn is_space(b: u8) -> bool {
    TAB <= b <= CARRIAGE_RETURN || b == SPACE
}

/// `s` without its leading whitespace.
pub open spec fn trim_start(s: Seq<u8>) -> Seq<u8>
    decreases s.len(),
{
    if s.len() > 0 && is_space(s[0]) {
        trim_start(s.skip(1))
    } else {
        s
    }
}

/// `s` without its trailing whitespace.
pub open spec fn trim_end(s: Seq<u8>) -> Seq<u8>
    decreases s.len(),
{
    if s.len() > 0 && is_space(s.last()) {
        trim_end(s.drop_last())
    } else {
        s
    }
}

/// `s` without the whitespace around it.
pub open spec fn trimmed(s: Seq<u8>) -> Seq<u8> {
    trim_end(trim_start(s))
}

/// Every byte of `s` is below 0x80.
pub open spec fn is_ascii(s: Seq<u8>) -> bool {
    forall|i: int| 0 <= i < s.len() ==> #[trigger] s[i] < 0x80
}

/// A run of digits is worth at least as much as any of its prefixes.
pub proof fn lemma_digits_value_prefix(s: Seq<u8>, k: int)
    requires
        0 <= k <= s.len(),
    ensures
        digits_value(s.take(k)) <= digits_value(s),
    decreases s.len(),
{
    if k == s.len() {
        assert(s.take(k) =~= s);
    } else {
        lemma_digits_value_prefix(s.drop_last(), k);
        assert(s.drop_last().take(k) =~= s.take(k));
    }
}

/// The first comma at or after `from` lies between `from` and the end, is a
/// comma, and no comma stands before it.
pub proof fn lemma_first_comma(s: Seq<u8>, from: int)
    requires
        0 <= from <= s.len(),
    ensures
        from <= first_comma(s, from) <= s.len(),
        first_comma(s, from) < s.len() ==> s[first_comma(s, from)] == COMMA,
        forall|j: int| from <= j < first_comma(s, from) ==> #[trigger] s[j] != COMMA,
    decreases s.len() - from,
{
    if from < s.len() && s[from] != COMMA {
        lemma_first_comma(s, from + 1);
    }
}

/// A position that holds a comma, with no comma between `from` and it, is
/// the first comma at or after `from`; so is the end, where no comma
/// follows `from` at all.
pub proof fn lemma_first_comma_at(s: Seq<u8>, from: int, at: int)
    requires
        0 <= from <= at <= s.len(),
        forall|j: int| from <= j < at ==> #[trigger] s[j] != COMMA,
        at < s.len() ==> s[at] == COMMA,
    ensures
        first_comma(s, from) == at,
    decreases at - from,
{
    if from < at {
        lemma_first_comma_at(s, from + 1, at);
    }
}

/// Cutting a text short moves its first comma to the cut where the comma
/// lay beyond it, and nowhere else.
pub proof fn lemma_first_comma_take(s: Seq<u8>, from: int, cut: int)
    requires
        0 <= from <= cut <= s.len(),
    ensures
        first_comma(s.take(cut), from) == if first_comma(s, from) < cut {
            first_comma(s, from)
        } else {
            cut
        },
    decreases cut - from,
{
    lemma_first_comma(s, from);
    if from < cut {
        assert(s.take(cut)[from] == s[from]);
        if s[from] != COMMA {
            lemma_first_comma_take(s, from + 1, cut);
        }
    }
}

/// The decimal writing of a number is a non-empty run of digits that reads
/// back as the number.
pub proof fn lemma_decimal_digits(n: nat)
    ensures
        decimal_digits(n).len() >= 1,
        all_digits(decimal_digits(n)),
        digits_value(decimal_digits(n)) == n,
    decreases n,
{
    if n < 10 {
        let s = decimal_digits(n);
        assert(s.drop_last() =~= Seq::<u8>::empty());
        assert(digits_value(s.drop_last()) == 0);
    } else {
        lemma_decimal_digits(n / 10);
        let head = decimal_digits(n / 10);
        let s = decimal_digits(n);
        assert(s.drop_last() =~= head);
    }
}

/// Reading the decimal writing of a number gives the number back.
pub proof fn lemma_unsigned_round_trip(n: nat)
    ensures
        unsigned_decimal(decimal_digits(n)) == Some(n),
{
    lemma_decimal_digits(n);
    assert(is_digit(decimal_digits(n)[0]));
}

/// Reading the decimal writing of a signed number gives the number back.
pub proof fn lemma_signed_round_trip(v: int)
    ensures
        signed_decimal(signed_digits(v)) == Some(v),
{
    if v < 0 {
        let digits = decimal_digits((-v) as nat);
        lemma_decimal_digits((-v) as nat);
        assert(signed_digits(v).skip(1) =~= digits);
    } else {
        lemma_unsigned_round_trip(v as nat);
    }
}

/// The decimal writing of a signed number holds digits and at most a
/// leading `-`, and ends with a digit.
pub proof fn lemma_signed_digits_bytes(v: int)
    ensures
        signed_digits(v).len() >= 1,
        is_digit(signed_digits(v).last()),
        forall|i: int|
            0 <= i < signed_digits(v).len() ==> is_digit(#[trigger] signed_digits(v)[i])
                || signed_digits(v)[i] == MINUS,
{
    if v < 0 {
        lemma_decimal_digits((-v) as nat);
    } else {
        lemma_decimal_digits(v as nat);
    }
}

/// A text that neither starts nor ends with whitespace comes back unchanged
/// when the line end after it is trimmed away.
pub proof fn lemma_trim_line_end(s: Seq<u8>)
    requires
        s.len() >= 1,
        !is_space(s[0]),
        !is_space(s.last()),
    ensures
        trimmed(s + seq![CARRIAGE_RETURN, LINE_FEED]) == s,
{
    let line = s + seq![CARRIAGE_RETURN, LINE_FEED];
    assert(line[0] == s[0]);
    assert(trim_start(line) == line);
    assert(line.drop_last() =~= s + seq![CARRIAGE_RETURN]);
    assert(line.drop_last().drop_last() =~= s);
    assert(trim_end(s) == s);
    assert(trim_end(line.drop_last()) == s);
}

/// Whether `b` is a decimal digit.
pub fn is_digit_byte(b: u8) -> (r: bool)
    ensures
        r == is_digit(b),
{
    DIGIT_ZERO <= b && b <= DIGIT_NINE
}

/// Whether `b` is whitespace.
pub fn is_space_byte(b: u8) -> (r: bool)
    ensures
        r == is_space(b),
{
    (TAB <= b && b <= CARRIAGE_RETURN) || b == SPACE
}

/// Reads the digits of `bytes` from `from` to the end as one number no
/// larger than `limit`.
fn parse_digits(bytes: &[u8], from: usize, limit: u64) -> (value: Option<u64>)
    requires
        from <= bytes@.len(),
    ensures
        match value {
            Some(v) => digits_within(bytes@.skip(from as int), limit as nat) == Some(v as nat),
            None => digits_within(bytes@.skip(from as int), limit as nat) is None,
        },
{
    let n: usize = bytes.len();
    let ghost digits = bytes@.skip(from as int);
    if from >= n {
        return None;
    }
    let mut acc: u64 = 0;
    let mut i: usize = from;
    while i < n
        invariant
            from <= i <= n,
            n == bytes@.len(),
            digits == bytes@.skip(from as int),
            all_digits(digits.take(i - from)),
            acc == digits_value(digits.take(i - from)),
            acc <= limit,
        decreases n - i,
    {
        let b: u8 = bytes[i];
        proof {
            assert(digits[i - from] == b);
            assert(digits.take(i - from + 1).drop_last() =~= digits.take(i - from));
            assert(digits.take(i - from + 1).last() == b);
            lemma_digits_value_prefix(digits, i - from + 1);
        }
        if !is_digit_byte(b) {
            return None;
        }
        let d: u64 = (b - DIGIT_ZERO) as u64;
        let tens: u64 = match acc.checked_mul(10) {
            Some(t) => t,
            None => {
                return None;
            },
        };
        let next: u64 = match tens.checked_add(d) {
            Some(v) => v,
            None => {
                return None;
            },
        };
        if next > limit {
            return None;
        }
        acc = next;
        i += 1;
    }
    proof {
        assert(digits.take(n - from) =~= digits);
    }
    Some(acc)
}

/// Reads an unsigned decimal field, as `str::parse::<usize>` reads its text.
pub fn parse_usize(field: &[u8]) -> (value: Option<usize>)
    ensures
        value == unsigned_field(field@),
{
    let from: usize = if field.len() > 0 && field[0] == PLUS {
        1
    } else {
        0
    };
    proof {
        assert(field@.skip(0) =~= field@);
    }
    match parse_digits(field, from, usize::MAX as u64) {
        Some(v) => Some(v as usize),
        None => None,
    }
}

/// Reads a signed decimal field, as `str::parse::<i16>` reads its text.
pub fn parse_i16(field: &[u8]) -> (value: Option<i16>)
    ensures
        value == signed_field(field@),
{
    if field.len() > 0 && field[0] == MINUS {
        match parse_digits(field, 1, 32768) {
            Some(v) => Some((0 - v as i32) as i16),
            None => None,
        }
    } else {
        let from: usize = if field.len() > 0 && field[0] == PLUS {
            1
        } else {
            0
        };
        proof {
            assert(field@.skip(0) =~= field@);
        }
        match parse_digits(field, from, 32767) {
            Some(v) => Some(v as i16),
            None => None,
        }
    }
}

/// Appends the shortest decimal writing of `n` to `out`.
pub fn push_decimal(out: &mut Vec<u8>, n: usize)
    ensures
        final(out)@ == old(out)@ + decimal_digits(n as nat),
    decreases n,
{
    if n >= 10 {
        push_decimal(out, n / 10);
    }
    out.push(DIGIT_ZERO + (n % 10) as u8);
}

/// Position of the first comma of `bytes` at or after `from`; the length of
/// `bytes` where there is none.
pub fn find_comma(bytes: &[u8], from: usize) -> (at: usize)
    ensures
        at == first_comma(bytes@, from as int),
        at <= bytes@.len(),
        from <= bytes@.len() ==> from <= at,
{
    let n: usize = bytes.len();
    if from >= n {
        return n;
    }
    let mut i: usize = from;
    while i < n && bytes[i] != COMMA
        invariant
            from <= i <= n,
            n == bytes@.len(),
            first_comma(bytes@, from as int) == first_comma(bytes@, i as int),
        decreases n - i,
    {
        i += 1;
    }
    i
}

/// Whether every byte of `bytes` is ASCII.
pub fn all_ascii(bytes: &[u8]) -> (r: bool)
    ensures
        r == is_ascii(bytes@),
{
    let n: usize = bytes.len();
    let mut i: usize = 0;
    while i < n
        invariant
            i <= n,
            n == bytes@.len(),
            forall|j: int| 0 <= j < i ==> #[trigger] bytes@[j] < 0x80,
        decreases n - i,
    {
        if bytes[i] >= 0x80 {
            return false;
        }
        i += 1;
    }
    true
}

/// `bytes` without the whitespace around it.
pub fn trim(bytes: &[u8]) -> (inner: &[u8])
    ensures
        inner@ == trimmed(bytes@),
{
    let n: usize = bytes.len();
    let mut lo: usize = 0;
    proof {
        assert(bytes@.skip(0) =~= bytes@);
    }
    while lo < n && is_space_byte(bytes[lo])
        invariant
            lo <= n,
            n == bytes@.len(),
            trim_start(bytes@) == trim_start(bytes@.skip(lo as int)),
        decreases n - lo,
    {
        proof {
            assert(bytes@.skip(lo as int).skip(1) =~= bytes@.skip(lo + 1));
        }
        lo += 1;
    }
    let ghost rest = bytes@.skip(lo as int);
    let mut hi: usize = n;
    proof {
        assert(rest =~= bytes@.subrange(lo as int, hi as int));
    }
    while hi > lo && is_space_byte(bytes[hi - 1])
        invariant
            lo <= hi <= n,
            n == bytes@.len(),
            trim_end(rest) == trim_end(bytes@.subrange(lo as int, hi as int)),
        decreases hi - lo,
    {
        proof {
            assert(bytes@.subrange(lo as int, hi as int).drop_last() =~= bytes@.subrange(
                lo as int,
                hi - 1,
            ));
        }
        hi -= 1;
    }
    slice_subrange(bytes, lo, hi)
}

} // verus!
