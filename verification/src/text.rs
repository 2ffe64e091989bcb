//! Character and string helpers shared by the library: ASCII case mapping,
//! trimming, decimal parsing and formatting.

use vstd::prelude::*;

verus! {

/// ASCII lower-case mapping of a single character; other characters are kept.
pub open spec fn lower_char(c: char) -> char {
    if 'A' <= c && c <= 'Z' {
        ((c as u32) + 32) as char
    } else {
        c
    }
}

/// ASCII upper-case mapping of a single character; other characters are kept.
pub open spec fn upper_char(c: char) -> char {
    if 'a' <= c && c <= 'z' {
        ((c as u32) - 32) as char
    } else {
        c
    }
}

/// ASCII lower-case mapping of a whole sequence.
pub open spec fn lower_chars(s: Seq<char>) -> Seq<char> {
    s.map_values(|c: char| lower_char(c))
}

pub fn to_lower_char(c: char) -> (r: char)
    ensures
        r == lower_char(c),
{
    match c {
        'A' => 'a',
        'B' => 'b',
        'C' => 'c',
        'D' => 'd',
        'E' => 'e',
        'F' => 'f',
        'G' => 'g',
        'H' => 'h',
        'I' => 'i',
        'J' => 'j',
        'K' => 'k',
        'L' => 'l',
        'M' => 'm',
        'N' => 'n',
        'O' => 'o',
        'P' => 'p',
        'Q' => 'q',
        'R' => 'r',
        'S' => 's',
        'T' => 't',
        'U' => 'u',
        'V' => 'v',
        'W' => 'w',
        'X' => 'x',
        'Y' => 'y',
        'Z' => 'z',
        _ => c,
    }
}

/// The character for one decimal digit.
pub open spec fn digit_char(d: int) -> char {
    if d == 0 {
        '0'
    } else if d == 1 {
        '1'
    } else if d == 2 {
        '2'
    } else if d == 3 {
        '3'
    } else if d == 4 {
        '4'
    } else if d == 5 {
        '5'
    } else if d == 6 {
        '6'
    } else if d == 7 {
        '7'
    } else if d == 8 {
        '8'
    } else {
        '9'
    }
}

/// The decimal digits of `n`, most significant first.
pub open spec fn dec_str(n: int) -> Seq<char>
    decreases n,
{
    if n <= 0 {
        seq!['0']
    } else if n < 10 {
        seq![digit_char(n)]
    } else {
        dec_str(n / 10).push(digit_char(n % 10))
    }
}

pub fn digit_to_char(d: u32) -> (r: char)
    requires
        d < 10,
    ensures
        r == digit_char(d as int),
{
    match d {
        0 => '0',
        1 => '1',
        2 => '2',
        3 => '3',
        4 => '4',
        5 => '5',
        6 => '6',
        7 => '7',
        8 => '8',
        _ => '9',
    }
}

/// The decimal form of `x`.
pub fn u32_to_dec(x: u32) -> (r: String)
    ensures
        r@ == dec_str(x as int),
    decreases x,
{
    if x < 10 {
        let mut s = String::new();
        push_char(&mut s, digit_to_char(x));
        proof {
            assert(s@ =~= dec_str(x as int));
        }
        s
    } else {
        let mut s = u32_to_dec(x / 10);
        push_char(&mut s, digit_to_char(x % 10));
        s
    }
}

/// The decimal form of `x`.
pub fn u16_to_dec(x: u16) -> (r: String)
    ensures
        r@ == dec_str(x as int),
{
    u32_to_dec(x as u32)
}

/// The decimal form of `x`.
pub fn u8_to_dec(x: u8) -> (r: String)
    ensures
        r@ == dec_str(x as int),
{
    u32_to_dec(x as u32)
}

/// ASCII upper-case mapping of a whole sequence.
pub open spec fn upper_chars(s: Seq<char>) -> Seq<char> {
    s.map_values(|c: char| upper_char(c))
}

pub fn to_upper_char(c: char) -> (r: char)
    ensures
        r == upper_char(c),
{
    match c {
        'a' => 'A',
        'b' => 'B',
        'c' => 'C',
        'd' => 'D',
        'e' => 'E',
        'f' => 'F',
        'g' => 'G',
        'h' => 'H',
        'i' => 'I',
        'j' => 'J',
        'k' => 'K',
        'l' => 'L',
        'm' => 'M',
        'n' => 'N',
        'o' => 'O',
        'p' => 'P',
        'q' => 'Q',
        'r' => 'R',
        's' => 'S',
        't' => 'T',
        'u' => 'U',
        'v' => 'V',
        'w' => 'W',
        'x' => 'X',
        'y' => 'Y',
        'z' => 'Z',
        _ => c,
    }
}

/// Whether two string slices are equal up to ASCII case.
pub fn eq_ignore_case(a: &str, b: &str) -> (r: bool)
    ensures
        r == (lower_chars(a@) == lower_chars(b@)),
{
    let n = a.unicode_len();
    let m = b.unicode_len();
    if n != m {
        proof {
            assert(lower_chars(a@).len() != lower_chars(b@).len());
        }
        return false;
    }
    let mut i: usize = 0;
    while i < n
        invariant
            n == a@.len(),
            n == b@.len(),
            i <= n,
            forall|j: int| 0 <= j < i ==> lower_char(a@[j]) == lower_char(b@[j]),
        decreases n - i,
    {
        if to_lower_char(a.get_char(i)) != to_lower_char(b.get_char(i)) {
            proof {
                assert(lower_chars(a@)[i as int] != lower_chars(b@)[i as int]);
            }
            return false;
        }
        i = i + 1;
    }
    proof {
        assert(lower_chars(a@) =~= lower_chars(b@));
    }
    true
}

/// Character-for-character equality of two string slices.
pub fn str_eq(a: &str, b: &str) -> (r: bool)
    ensures
        r == (a@ == b@),
{
    let n = a.unicode_len();
    let m = b.unicode_len();
    if n != m {
        return false;
    }
    let mut i: usize = 0;
    while i < n
        invariant
            n == a@.len(),
            n == b@.len(),
            i <= n,
            forall|j: int| 0 <= j < i ==> a@[j] == b@[j],
        decreases n - i,
    {
        if a.get_char(i) != b.get_char(i) {
            return false;
        }
        i = i + 1;
    }
    proof {
        assert(a@ =~= b@);
    }
    true
}

/// Why a decimal text does not parse as an integer.
#[derive(PartialEq, Eq, Structural, Clone, Copy, Debug)]
pub enum IntParseError {
    Empty,
    InvalidDigit,
    Overflow,
}

impl IntParseError {
    /// The diagnostic text, as the standard library words it.
    pub fn message(&self) -> (r: String)
        ensures
            r@ == int_parse_error_message(*self),
    {
        match self {
            IntParseError::Empty => String::from_str("cannot parse integer from empty string"),
            IntParseError::InvalidDigit => String::from_str("invalid digit found in string"),
            IntParseError::Overflow => String::from_str("number too large to fit in target type"),
        }
    }
}

pub open spec fn int_parse_error_message(e: IntParseError) -> Seq<char> {
    match e {
        IntParseError::Empty => "cannot parse integer from empty string"@,
        IntParseError::InvalidDigit => "invalid digit found in string"@,
        IntParseError::Overflow => "number too large to fit in target type"@,
    }
}

pub open spec fn is_digit(c: char) -> bool {
    '0' <= c && c <= '9'
}

pub open spec fn digit_val(c: char) -> int {
    (c as int) - 48
}

/// Reading decimal digits left to right into a `u16` accumulator, as the
/// standard library's integer parsing does: the first non-digit stops with
/// `InvalidDigit`, the first overflowing step with `Overflow`.
pub open spec fn parse_digits_u16(s: Seq<char>, acc: int) -> Result<u16, IntParseError>
    decreases s.len(),
{
    if s.len() == 0 {
        Ok(acc as u16)
    } else if !is_digit(s[0]) {
        Err(IntParseError::InvalidDigit)
    } else if acc * 10 + digit_val(s[0]) > 65535 {
        Err(IntParseError::Overflow)
    } else {
        parse_digits_u16(s.drop_first(), acc * 10 + digit_val(s[0]))
    }
}

/// A text as a `u16`, as the standard library reads one: an optional
/// leading `+`, then decimal digits.
pub open spec fn parse_u16_spec(s: Seq<char>) -> Result<u16, IntParseError> {
    let digits = if s.len() > 0 && s[0] == '+' {
        s.drop_first()
    } else {
        s
    };
    if digits.len() == 0 {
        Err(IntParseError::Empty)
    } else {
        parse_digits_u16(digits, 0)
    }
}

pub fn digit_of_char(c: char) -> (r: Option<u32>)
    ensures
        match r {
            Some(d) => is_digit(c) && d == digit_val(c) && d < 10,
            None => !is_digit(c),
        },
{
    match c {
        '0' => Some(0),
        '1' => Some(1),
        '2' => Some(2),
        '3' => Some(3),
        '4' => Some(4),
        '5' => Some(5),
        '6' => Some(6),
        '7' => Some(7),
        '8' => Some(8),
        '9' => Some(9),
        _ => None,
    }
}

/// Reads a text as a `u16`, as the standard library does.
pub fn parse_u16(s: &str) -> (r: Result<u16, IntParseError>)
    ensures
        r == parse_u16_spec(s@),
{
    let n = s.unicode_len();
    let start: usize = if n > 0 && s.get_char(0) == '+' {
        1
    } else {
        0
    };
    let ghost digits = if s@.len() > 0 && s@[0] == '+' {
        s@.drop_first()
    } else {
        s@
    };
    if n == start {
        return Err(IntParseError::Empty);
    }
    let mut acc: u32 = 0;
    let mut i = start;
    proof {
        assert(digits.skip(0) =~= digits);
        assert forall|m: int| 0 <= m < digits.len() implies digits[m] == s@[m + start] by {
            if s@.len() > 0 && s@[0] == '+' {
                assert(digits[m] == s@.drop_first()[m]);
            }
        }
    }
    while i < n
        invariant
            n == s@.len(),
            start <= i <= n,
            start == (if s@.len() > 0 && s@[0] == '+' {
                1int
            } else {
                0int
            }),
            digits == (if s@.len() > 0 && s@[0] == '+' {
                s@.drop_first()
            } else {
                s@
            }),
            digits.len() == n - start,
            forall|m: int| 0 <= m < digits.len() ==> digits[m] == s@[m + start],
            acc <= 65535,
            parse_digits_u16(digits, 0) == parse_digits_u16(
                digits.skip(i - start),
                acc as int,
            ),
        decreases n - i,
    {
        let ghost rest = digits.skip(i - start);
        proof {
            assert(rest[0] == s@[i as int]);
            assert(rest.drop_first() =~= digits.skip(i - start + 1));
        }
        match digit_of_char(s.get_char(i)) {
            None => {
                return Err(IntParseError::InvalidDigit);
            },
            Some(d) => {
                if acc > 6553 || (acc == 6553 && d > 5) {
                    return Err(IntParseError::Overflow);
                }
                acc = acc * 10 + d;
            },
        }
        i = i + 1;
    }
    proof {
        assert(digits.skip(n - start) =~= Seq::<char>::empty());
    }
    Ok(acc as u16)
}

/// A human-readable duration as milliseconds: an integer followed by a
/// unit `ms`, `s`, `m` or `h`; a bare integer counts seconds.
pub open spec fn duration_ms_spec(s: Seq<char>) -> Option<int> {
    let digits = digits_prefix(s);
    let unit = s.skip(digits.len() as int);
    if digits.len() == 0 {
        None
    } else if unit == "ms"@ {
        Some(digits_num(digits))
    } else if unit == "s"@ || unit.len() == 0 {
        Some(digits_num(digits) * 1000)
    } else if unit == "m"@ {
        Some(digits_num(digits) * 60000)
    } else if unit == "h"@ {
        Some(digits_num(digits) * 3600000)
    } else {
        None
    }
}

/// The longest digit prefix of `s`.
pub open spec fn digits_prefix(s: Seq<char>) -> Seq<char>
    decreases s.len(),
{
    if s.len() == 0 || !is_digit(s[0]) {
        Seq::empty()
    } else {
        seq![s[0]] + digits_prefix(s.drop_first())
    }
}

/// The value of decimal digits, most significant first.
pub open spec fn digits_num(s: Seq<char>) -> int
    decreases s.len(),
{
    if s.len() == 0 {
        0
    } else {
        digits_num(s.drop_last()) * 10 + digit_val(s.last())
    }
}

/// Reads a human-readable duration into milliseconds; `None` for a text
/// outside the grammar, and for a count of 2^32 or more.
pub fn parse_duration_ms(s: &str) -> (r: Option<u64>)
    ensures
        (match duration_ms_spec(s@) {
            None => r is None,
            Some(v) => if digits_num(digits_prefix(s@)) < 0x1_0000_0000 {
                r matches Some(x) && x == v
            } else {
                r is None
            },
        }),
{
    let n = s.unicode_len();
    let mut j: usize = 0;
    while j < n && digit_of_char(s.get_char(j)).is_some()
        invariant
            n == s@.len(),
            j <= n,
            forall|m: int| 0 <= m < j ==> is_digit(s@[m]),
        decreases n - j,
    {
        j = j + 1;
    }
    proof {
        lemma_digits_prefix_stops(s@, j as int);
    }
    if j == 0 {
        return None;
    }
    let mut acc: u64 = 0;
    let mut over = false;
    let mut i: usize = 0;
    proof {
        assert(s@.take(0) =~= Seq::<char>::empty());
    }
    while i < j
        invariant
            n == s@.len(),
            j <= n,
            i <= j,
            forall|m: int| 0 <= m < j ==> is_digit(s@[m]),
            !over ==> acc == digits_num(s@.take(i as int)) && acc < 0x1_0000_0000,
            over ==> digits_num(s@.take(i as int)) >= 0x1_0000_0000,
        decreases j - i,
    {
        proof {
            assert(s@.take(i + 1).drop_last() =~= s@.take(i as int));
            assert(s@.take(i + 1).last() == s@[i as int]);
        }
        match digit_of_char(s.get_char(i)) {
            None => {
                proof {
                    assert(false);
                }
            },
            Some(d) => {
                if !over {
                    let next = acc * 10 + (d as u64);
                    if next >= 0x1_0000_0000 {
                        over = true;
                    } else {
                        acc = next;
                    }
                } else {
                    proof {
                        lemma_digits_num_nonneg(s@.take(i as int));
                    }
                }
            },
        }
        i = i + 1;
    }
    if over {
        return None;
    }
    proof {
        assert(digits_prefix(s@) == s@.take(j as int));
    }
    let unit = s.substring_char(j, n);
    proof {
        assert(unit@ =~= s@.skip(j as int));
    }
    if str_eq(unit, "ms") {
        Some(acc)
    } else if str_eq(unit, "s") || unit.unicode_len() == 0 {
        Some(acc * 1000)
    } else if str_eq(unit, "m") {
        Some(acc * 60000)
    } else if str_eq(unit, "h") {
        Some(acc * 3600000)
    } else {
        None
    }
}

proof fn lemma_digits_num_nonneg(s: Seq<char>)
    requires
        forall|m: int| 0 <= m < s.len() ==> is_digit(s[m]),
    ensures
        digits_num(s) >= 0,
    decreases s.len(),
{
    if s.len() > 0 {
        assert forall|m: int| 0 <= m < s.len() - 1 implies is_digit(s.drop_last()[m]) by {
            assert(s.drop_last()[m] == s[m]);
        }
        lemma_digits_num_nonneg(s.drop_last());
    }
}

proof fn lemma_digits_prefix_stops(s: Seq<char>, i: int)
    requires
        0 <= i <= s.len(),
        forall|m: int| 0 <= m < i ==> is_digit(s[m]),
        i < s.len() ==> !is_digit(s[i]),
    ensures
        digits_prefix(s) == s.take(i),
    decreases i,
{
    if i == 0 {
        assert(digits_prefix(s) =~= s.take(0));
    } else {
        assert forall|m: int| 0 <= m < i - 1 implies is_digit(s.drop_first()[m]) by {
            assert(s.drop_first()[m] == s[m + 1]);
        }
        lemma_digits_prefix_stops(s.drop_first(), i - 1);
        assert(s.take(i) =~= seq![s[0]] + s.drop_first().take(i - 1));
    }
}

/// The ASCII whitespace characters that trimming removes.
pub open spec fn is_space(c: char) -> bool {
    c == ' ' || c == '\t' || c == '\n' || c == '\r'
}

/// A text without its leading and trailing whitespace.
pub open spec fn trim_spec(s: Seq<char>) -> Seq<char>
    decreases s.len(),
{
    if s.len() == 0 {
        s
    } else if is_space(s[0]) {
        trim_spec(s.drop_first())
    } else if is_space(s.last()) {
        trim_spec(s.drop_last())
    } else {
        s
    }
}

fn is_space_exec(c: char) -> (r: bool)
    ensures
        r == is_space(c),
{
    c == ' ' || c == '\t' || c == '\n' || c == '\r'
}

/// Removes leading and trailing whitespace.
pub fn trim(s: &str) -> (r: String)
    ensures
        r@ == trim_spec(s@),
{
    let n = s.unicode_len();
    let mut lo: usize = 0;
    proof {
        assert(s@.skip(0) =~= s@);
    }
    while lo < n && is_space_exec(s.get_char(lo))
        invariant
            n == s@.len(),
            lo <= n,
            forall|m: int| 0 <= m < lo ==> is_space(s@[m]),
            trim_spec(s@) == trim_spec(s@.skip(lo as int)),
        decreases n - lo,
    {
        proof {
            assert(s@.skip(lo as int).drop_first() =~= s@.skip(lo + 1));
        }
        lo = lo + 1;
    }
    let mut hi: usize = n;
    proof {
        assert(s@.skip(lo as int).take((n - lo) as int) =~= s@.skip(lo as int));
    }
    while hi > lo && is_space_exec(s.get_char(hi - 1))
        invariant
            n == s@.len(),
            lo <= hi <= n,
            trim_spec(s@) == trim_spec(s@.skip(lo as int).take((hi - lo) as int)),
            lo < n ==> !is_space(s@[lo as int]),
        decreases hi,
    {
        proof {
            let ghost cur = s@.skip(lo as int).take((hi - lo) as int);
            assert(cur.last() == s@[hi - 1]);
            assert(cur[0] == s@[lo as int]);
            assert(cur.drop_last() =~= s@.skip(lo as int).take((hi - 1 - lo) as int));
        }
        hi = hi - 1;
    }
    let part = s.substring_char(lo, hi);
    proof {
        let ghost cur = s@.skip(lo as int).take((hi - lo) as int);
        assert(part@ =~= cur);
        if cur.len() > 0 {
            assert(cur[0] == s@[lo as int]);
            assert(!is_space(cur[0]));
            assert(cur.last() == s@[hi - 1]);
            assert(!is_space(cur.last()));
        }
        assert(trim_spec(cur) == cur);
    }
    String::from_str(part)
}

/// Relies on `String::push`: appends one character at the end.
#[verifier::external_body]
pub fn push_char(s: &mut String, c: char)
    ensures
        final(s)@ == old(s)@.push(c),
{
    s.push(c);
}

/// ASCII lower-casing of a string.
pub fn to_lower(s: &str) -> (r: String)
    ensures
        r@ == lower_chars(s@),
{
    let n = s.unicode_len();
    let mut out = String::new();
    let mut i: usize = 0;
    while i < n
        invariant
            n == s@.len(),
            i <= n,
            out@ == lower_chars(s@.subrange(0, i as int)),
        decreases n - i,
    {
        let c = s.get_char(i);
        push_char(&mut out, to_lower_char(c));
        i = i + 1;
        assert(out@ =~= lower_chars(s@.subrange(0, i as int))) by {
            assert(s@.subrange(0, i as int) =~= s@.subrange(0, i - 1).push(s@[i - 1]));
        }
    }
    assert(s@.subrange(0, n as int) =~= s@);
    out
}

} // verus!
