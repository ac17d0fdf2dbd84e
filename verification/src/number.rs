//! Decimal and hexadecimal numerals.

use vstd::prelude::*;
use vstd::slice::slice_subrange;

use crate::text;

verus! {

pub open spec fn all_digits(s: Seq<char>) -> bool {
    forall|i: int| 0 <= i < s.len() ==> text::is_digit(#[trigger] s[i])
}

pub fn only_digits(s: &[char]) -> (r: bool)
    ensures
        r == all_digits(s@),
{
    let mut i: usize = 0;
    while i < s.len()
        invariant
            i <= s@.len(),
            forall|k: int| 0 <= k < i ==> text::is_digit(#[trigger] s@[k]),
        decreases s.len() - i,
    {
        if !text::digit(s[i]) {
            return false;
        }
        i += 1;
    }
    true
}

/// The number that a digit stands for.
pub open spec fn digit_value(c: char) -> int {
    c as int - '0' as int
}

/// The number that a run of decimal digits stands for.
pub open spec fn digits_value(s: Seq<char>) -> int
    decreases s.len(),
{
    if s.len() == 0 {
        0
    } else {
        digits_value(s.drop_last()) * 10 + digit_value(s.last())
    }
}

pub proof fn lemma_digits_value_bound(s: Seq<char>)
    requires
        all_digits(s),
    ensures
        digits_value(s) >= 0,
        s.len() == 2 ==> digits_value(s) == digit_value(s[0]) * 10 + digit_value(s[1]),
        s.len() == 1 ==> digits_value(s) <= 9,
        s.len() == 2 ==> digits_value(s) <= 99,
        s.len() == 3 ==> digits_value(s) <= 999,
        s.len() == 4 ==> digits_value(s) <= 9999,
    decreases s.len(),
{
    reveal_with_fuel(digits_value, 6);
    if s.len() > 0 {
        let t = s.drop_last();
        assert(all_digits(t));
        lemma_digits_value_bound(t);
        assert(text::is_digit(s[s.len() - 1]));
    }
}

/// Reads an unsigned decimal numeral with an optional leading `+`, at most `max`.
pub open spec fn unsigned(s: Seq<char>, max: int) -> Option<int> {
    let body = if s.len() > 0 && s[0] == '+' {
        s.skip(1)
    } else {
        s
    };
    if body.len() > 0 && all_digits(body) && digits_value(body) <= max {
        Some(digits_value(body))
    } else {
        None
    }
}

/// The value of a run of digits, or `None` where it is above `max`.
pub fn digits_upto(s: &[char], max: u64) -> (r: Option<u64>)
    requires
        all_digits(s@),
    ensures
        match r {
            Some(v) => v == digits_value(s@) && v <= max,
            None => digits_value(s@) > max,
        },
{
    let mut acc: u128 = 0;
    let mut over: bool = false;
    let mut i: usize = 0;
    while i < s.len()
        invariant
            i <= s@.len(),
            all_digits(s@),
            over ==> digits_value(s@.take(i as int)) > max,
            !over ==> acc == digits_value(s@.take(i as int)) && acc <= max,
        decreases s.len() - i,
    {
        proof {
            assert(s@.take(i + 1).drop_last() =~= s@.take(i as int));
            assert(text::is_digit(s@[i as int]));
        }
        if !over {
            let d: u128 = (s[i] as u32 - '0' as u32) as u128;
            acc = acc * 10 + d;
            if acc > max as u128 {
                over = true;
            }
        }
        i += 1;
    }
    assert(s@.take(i as int) =~= s@);
    if over {
        None
    } else {
        Some(acc as u64)
    }
}

pub fn read_unsigned(s: &[char], max: u64) -> (r: Option<u64>)
    ensures
        match r {
            Some(v) => unsigned(s@, max as int) == Some(v as int) && v <= max,
            None => unsigned(s@, max as int) is None,
        },
{
    let body: &[char] = if s.len() > 0 && s[0] == '+' {
        slice_subrange(s, 1, s.len())
    } else {
        s
    };
    assert(s@.len() > 0 ==> s@.subrange(1, s@.len() as int) =~= s@.skip(1));
    if body.len() == 0 || !only_digits(body) {
        return None;
    }
    digits_upto(body, max)
}

pub open spec fn digit_char(d: int) -> char {
    (('0' as int + d) as u32) as char
}

pub fn digit_to_char(d: u64) -> (r: char)
    requires
        d < 10,
    ensures
        r == digit_char(d as int),
        text::is_digit(r),
        digit_value(r) == d,
{
    (48u8 + d as u8) as char
}

/// The decimal numeral of `n`, without leading zeros.
pub open spec fn decimal(n: nat) -> Seq<char>
    decreases n,
{
    if n < 10 {
        seq![digit_char(n as int)]
    } else {
        decimal(n / 10).push(digit_char((n % 10) as int))
    }
}

pub fn to_decimal(n: u64) -> (r: Vec<char>)
    ensures
        r@ == decimal(n as nat),
    decreases n,
{
    if n < 10 {
        let mut v: Vec<char> = Vec::new();
        v.push(digit_to_char(n));
        assert(v@ =~= decimal(n as nat));
        v
    } else {
        let mut v = to_decimal(n / 10);
        v.push(digit_to_char(n % 10));
        v
    }
}

/// A decimal numeral is made of digits and reads back as the number.
pub proof fn lemma_decimal_reads_back(n: nat)
    ensures
        decimal(n).len() > 0,
        all_digits(decimal(n)),
        digits_value(decimal(n)) == n,
    decreases n,
{
    if n < 10 {
        reveal_with_fuel(digits_value, 2);
        let s = decimal(n);
        assert(s.drop_last() =~= Seq::<char>::empty());
        assert(s[0] as int == '0' as int + n);
    } else {
        lemma_decimal_reads_back(n / 10);
        let s = decimal(n);
        let d = (n % 10) as int;
        assert(s.drop_last() =~= decimal(n / 10));
        assert(s.last() as int == '0' as int + d);
        assert forall|i: int| 0 <= i < s.len() implies text::is_digit(#[trigger] s[i]) by {
            if i < s.len() - 1 {
                assert(s[i] == decimal(n / 10)[i]);
            }
        }
    }
}

/// `s` padded on the left with `c` to at least `width` characters.
pub open spec fn pad_left(s: Seq<char>, width: nat, c: char) -> Seq<char> {
    if s.len() < width {
        Seq::new((width - s.len()) as nat, |i: int| c) + s
    } else {
        s
    }
}

/// The decimal numeral of `n`, zero padded to at least `width` digits.
pub open spec fn padded(n: nat, width: nat) -> Seq<char> {
    pad_left(decimal(n), width, '0')
}

proof fn lemma_zeros_value(k: nat, s: Seq<char>)
    requires
        all_digits(s),
    ensures
        all_digits(Seq::new(k, |i: int| '0') + s),
        digits_value(Seq::new(k, |i: int| '0') + s) == digits_value(s),
    decreases k + s.len(),
{
    let zeros = Seq::new(k, |i: int| '0');
    let all = zeros + s;
    assert forall|i: int| 0 <= i < all.len() implies text::is_digit(#[trigger] all[i]) by {
        if i >= k {
            assert(all[i] == s[i - k]);
        }
    }
    if s.len() > 0 {
        lemma_zeros_value(k, s.drop_last());
        assert(all.drop_last() =~= zeros + s.drop_last());
        assert(all.last() == s.last());
    } else if k > 0 {
        lemma_zeros_value((k - 1) as nat, s);
        assert(all.drop_last() =~= Seq::new((k - 1) as nat, |i: int| '0') + s);
        assert(all.last() == '0');
    } else {
        assert(all =~= s);
    }
}

/// A padded numeral is made of digits and reads back as the number.
pub proof fn lemma_padded_reads_back(n: nat, width: nat)
    ensures
        padded(n, width).len() > 0,
        all_digits(padded(n, width)),
        digits_value(padded(n, width)) == n,
{
    lemma_decimal_reads_back(n);
    let d = decimal(n);
    if d.len() < width {
        let fill = (width - d.len()) as nat;
        lemma_zeros_value(fill, d);
        assert(padded(n, width) =~= Seq::new(fill, |i: int| '0') + d);
    }
}

pub fn to_padded(n: u64, width: usize) -> (r: Vec<char>)
    ensures
        r@ == padded(n as nat, width as nat),
{
    let d = to_decimal(n);
    if d.len() >= width {
        return d;
    }
    let fill: usize = width - d.len();
    let mut v: Vec<char> = Vec::new();
    let mut i: usize = 0;
    while i < fill
        invariant
            i <= fill,
            v@ == Seq::new(i as nat, |k: int| '0'),
        decreases fill - i,
    {
        v.push('0');
        i += 1;
    }
    text::push_all(&mut v, d.as_slice());
    v
}

/// The value of a hexadecimal digit, in either case.
pub open spec fn hex_digit_value(c: char) -> Option<int> {
    if text::is_digit(c) {
        Some(digit_value(c))
    } else if 'a' <= c <= 'f' {
        Some(c as int - 'a' as int + 10)
    } else if 'A' <= c <= 'F' {
        Some(c as int - 'A' as int + 10)
    } else {
        None
    }
}

fn read_hex_digit(c: char) -> (r: Option<u64>)
    ensures
        match r {
            Some(v) => hex_digit_value(c) == Some(v as int) && v < 16,
            None => hex_digit_value(c) is None,
        },
{
    if text::digit(c) {
        Some((c as u32 - '0' as u32) as u64)
    } else if 'a' <= c && c <= 'f' {
        Some((c as u32 - 'a' as u32) as u64 + 10)
    } else if 'A' <= c && c <= 'F' {
        Some((c as u32 - 'A' as u32) as u64 + 10)
    } else {
        None
    }
}

/// The value of hexadecimal digits; `None` where another character stands
/// among them.
pub open spec fn hex_digits_value(s: Seq<char>) -> Option<int>
    decreases s.len(),
{
    if s.len() == 0 {
        Some(0)
    } else {
        match (hex_digits_value(s.drop_last()), hex_digit_value(s.last())) {
            (Some(high), Some(low)) => Some(high * 16 + low),
            _ => None,
        }
    }
}

/// Reads hexadecimal digits whose value is at most `max`.
pub fn hex_digits_upto(s: &[char], max: u32) -> (r: Option<u32>)
    ensures
        match r {
            Some(v) => hex_digits_value(s@) == Some(v as int) && v <= max,
            None => hex_digits_value(s@) matches Some(v) ==> v > max,
        },
{
    let mut acc: u64 = 0;
    let mut over: bool = false;
    let mut i: usize = 0;
    while i < s.len()
        invariant
            i <= s@.len(),
            over ==> (hex_digits_value(s@.take(i as int)) matches Some(v) && v > max),
            !over ==> hex_digits_value(s@.take(i as int)) == Some(acc as int) && acc <= max,
        decreases s.len() - i,
    {
        assert(s@.take(i + 1).drop_last() =~= s@.take(i as int));
        match read_hex_digit(s[i]) {
            Some(d) => {
                if !over {
                    acc = acc * 16 + d;
                    if acc > max as u64 {
                        over = true;
                    }
                }
            },
            None => {
                proof {
                    lemma_hex_stays_none(s@, i + 1);
                }
                return None;
            },
        }
        i += 1;
    }
    assert(s@.take(i as int) =~= s@);
    if over {
        None
    } else {
        Some(acc as u32)
    }
}

proof fn lemma_hex_stays_none(s: Seq<char>, i: int)
    requires
        0 <= i <= s.len(),
        hex_digits_value(s.take(i)) is None,
    ensures
        hex_digits_value(s) is None,
    decreases s.len() - i,
{
    if i < s.len() {
        assert(s.take(i + 1).drop_last() =~= s.take(i));
        lemma_hex_stays_none(s, i + 1);
    } else {
        assert(s.take(i) =~= s);
    }
}

pub open spec fn hex_char(d: int) -> char {
    if d < 10 {
        digit_char(d)
    } else {
        (('a' as int + d - 10) as u32) as char
    }
}

/// The lowest `width` hexadecimal digits of `n`, in lower case.
pub open spec fn hex(n: nat, width: nat) -> Seq<char>
    decreases width,
{
    if width == 0 {
        Seq::empty()
    } else {
        hex(n / 16, (width - 1) as nat).push(hex_char((n % 16) as int))
    }
}

pub fn to_hex(n: u64, width: usize) -> (r: Vec<char>)
    ensures
        r@ == hex(n as nat, width as nat),
    decreases width,
{
    if width == 0 {
        let v: Vec<char> = Vec::new();
        assert(v@ =~= hex(n as nat, 0));
        return v;
    }
    let mut v = to_hex(n / 16, width - 1);
    let d: u64 = n % 16;
    if d < 10 {
        v.push(digit_to_char(d));
    } else {
        v.push((97u8 + (d - 10) as u8) as char);
    }
    v
}

// ---------------------------------------------------------------------------
// Floating-point literals
// ---------------------------------------------------------------------------

/// The number of leading digits of `s` from position `i` on.
pub open spec fn digit_run(s: Seq<char>, i: int) -> int
    decreases s.len() - i,
{
    if 0 <= i < s.len() && text::is_digit(s[i]) {
        1 + digit_run(s, i + 1)
    } else {
        0
    }
}

pub proof fn lemma_digit_run(s: Seq<char>, i: int)
    requires
        0 <= i <= s.len(),
    ensures
        0 <= digit_run(s, i) <= s.len() - i,
    decreases s.len() - i,
{
    if i < s.len() && text::is_digit(s[i]) {
        lemma_digit_run(s, i + 1);
    }
}

/// Whether `s` from `i` on is empty or an exponent part.
pub open spec fn exponent_or_end(s: Seq<char>, i: int) -> bool {
    if i == s.len() {
        true
    } else if text::lower_char(s[i]) == 'e' {
        let j = if i + 1 < s.len() && (s[i + 1] == '+' || s[i + 1] == '-') {
            i + 2
        } else {
            i + 1
        };
        digit_run(s, j) > 0 && j + digit_run(s, j) == s.len()
    } else {
        false
    }
}

/// Whether `s` from `i` on is an unsigned decimal number: digits with at most
/// one point among, before or after them, then an optional exponent.
pub open spec fn number_literal(s: Seq<char>, i: int) -> bool {
    let whole = digit_run(s, i);
    let j = i + whole;
    if j < s.len() && s[j] == '.' {
        let fraction = digit_run(s, j + 1);
        whole + fraction > 0 && exponent_or_end(s, j + 1 + fraction)
    } else {
        whole > 0 && exponent_or_end(s, j)
    }
}

/// Whether `s` is a floating-point literal: an optional sign, then `inf`,
/// `infinity`, `nan` (in any case) or a decimal number.
pub open spec fn float_literal(s: Seq<char>) -> bool {
    let i = if s.len() > 0 && (s[0] == '+' || s[0] == '-') {
        1int
    } else {
        0int
    };
    let word = text::lower(s.skip(i));
    word == "inf"@ || word == "infinity"@ || word == "nan"@ || number_literal(s, i)
}

fn run_of_digits(s: &[char], i: usize) -> (r: usize)
    requires
        i <= s@.len(),
    ensures
        r == digit_run(s@, i as int),
        i + r <= s@.len(),
{
    let n: usize = s.len();
    let mut j: usize = i;
    while j < n && text::digit(s[j])
        invariant
            n == s@.len(),
            i <= j <= n,
            digit_run(s@, i as int) == (j - i) + digit_run(s@, j as int),
        decreases n - j,
    {
        j += 1;
    }
    j - i
}

fn exponent_ends(s: &[char], i: usize) -> (r: bool)
    requires
        i <= s@.len(),
    ensures
        r == exponent_or_end(s@, i as int),
{
    let n: usize = s.len();
    if i == n {
        return true;
    }
    if text::to_lower_char(s[i]) != 'e' {
        return false;
    }
    let j: usize = if n - i > 1 && (s[i + 1] == '+' || s[i + 1] == '-') {
        i + 2
    } else {
        i + 1
    };
    let run: usize = run_of_digits(s, j);
    run > 0 && run == n - j
}

pub fn is_float_literal(s: &[char]) -> (r: bool)
    ensures
        r == float_literal(s@),
{
    let n: usize = s.len();
    let i: usize = if n > 0 && (s[0] == '+' || s[0] == '-') {
        1
    } else {
        0
    };
    assert(s@.subrange(i as int, n as int) =~= s@.skip(i as int));
    let word = text::to_lower(slice_subrange(s, i, n));
    if text::is_str(word.as_slice(), "inf") || text::is_str(word.as_slice(), "infinity")
        || text::is_str(word.as_slice(), "nan") {
        return true;
    }
    let whole: usize = run_of_digits(s, i);
    let j: usize = i + whole;
    if j < n && s[j] == '.' {
        let fraction: usize = run_of_digits(s, j + 1);
        (whole > 0 || fraction > 0) && exponent_ends(s, j + 1 + fraction)
    } else {
        whole > 0 && exponent_ends(s, j)
    }
}

} // verus!
