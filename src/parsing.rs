use vstd::prelude::*;
use vstd::string::StrSliceExecFns;

verus! {

pub open spec fn is_digit(c: char) -> bool {
    '0' <= c <= '9'
}

/// Index of the first ASCII digit of `s` at or after `i`, or `s.len()`.
pub open spec fn first_digit_from(s: Seq<char>, i: int) -> int
    decreases s.len() - i,
{
    if i < 0 || i >= s.len() {
        s.len() as int
    } else if is_digit(s[i]) {
        i
    } else {
        first_digit_from(s, i + 1)
    }
}

/// Index of the first character of `s` at or after `i` that is not an
/// ASCII digit, or `s.len()`.
pub open spec fn digits_end_from(s: Seq<char>, i: int) -> int
    decreases s.len() - i,
{
    if i < 0 || i >= s.len() {
        s.len() as int
    } else if !is_digit(s[i]) {
        i
    } else {
        digits_end_from(s, i + 1)
    }
}

/// The decimal value of the digits `s[lo..hi]`.
pub open spec fn decimal_value(s: Seq<char>, lo: int, hi: int) -> nat
    decreases hi - lo,
{
    if hi <= lo {
        0
    } else {
        decimal_value(s, lo, hi - 1) * 10 + ((s[hi - 1] as int - '0' as int) as nat)
    }
}

/// The first run of ASCII digits in `s` read as a decimal number: `None`
/// when there is none or it does not fit in `u64`.
pub open spec fn first_number(s: Seq<char>) -> Option<u64> {
    let start = first_digit_from(s, 0);
    let end = digits_end_from(s, start);
    if start >= s.len() || decimal_value(s, start, end) > u64::MAX {
        None
    } else {
        Some(decimal_value(s, start, end) as u64)
    }
}

proof fn lemma_decimal_value_grows(s: Seq<char>, lo: int, hi: int, hi2: int)
    requires
        lo <= hi <= hi2,
        forall|i: int| lo <= i < hi2 ==> is_digit(#[trigger] s[i]),
    ensures
        decimal_value(s, lo, hi) <= decimal_value(s, lo, hi2),
    decreases hi2 - hi,
{
    if hi < hi2 {
        lemma_decimal_value_grows(s, lo, hi, hi2 - 1);
    }
}

proof fn lemma_digits_end(s: Seq<char>, start: int, j: int)
    requires
        0 <= start <= j <= s.len(),
        forall|i: int| start <= i < j ==> is_digit(#[trigger] s[i]),
    ensures
        digits_end_from(s, start) == digits_end_from(s, j),
        forall|i: int| start <= i < digits_end_from(s, start) ==> is_digit(#[trigger] s[i]),
        j <= digits_end_from(s, start) <= s.len(),
    decreases j - start,
{
    if start < j {
        lemma_digits_end(s, start + 1, j);
    } else {
        lemma_digits_end_rest(s, j);
    }
}

proof fn lemma_digits_end_rest(s: Seq<char>, j: int)
    requires
        0 <= j <= s.len(),
    ensures
        forall|i: int| j <= i < digits_end_from(s, j) ==> is_digit(#[trigger] s[i]),
        j <= digits_end_from(s, j) <= s.len(),
    decreases s.len() - j,
{
    if j < s.len() && is_digit(s[j]) {
        lemma_digits_end_rest(s, j + 1);
    }
}

/// The first number written in `s` with ASCII digits; see `first_number`.
pub fn parse_first_number(s: &str) -> (r: Option<u64>)
    ensures
        r == first_number(s@),
{
    let n = s.unicode_len();
    let mut i: usize = 0;
    while i < n && !('0' <= s.get_char(i) && s.get_char(i) <= '9')
        invariant
            n == s@.len(),
            i <= n,
            first_digit_from(s@, 0) == first_digit_from(s@, i as int),
        decreases n - i,
    {
        i = i + 1;
    }
    if i >= n {
        return None;
    }
    let start = i;
    let mut value: u64 = 0;
    let mut j: usize = start;
    while j < n && '0' <= s.get_char(j) && s.get_char(j) <= '9'
        invariant
            n == s@.len(),
            start <= j <= n,
            start == first_digit_from(s@, 0),
            start < n,
            forall|k: int| start <= k < j ==> is_digit(#[trigger] s@[k]),
            value == decimal_value(s@, start as int, j as int),
        decreases n - j,
    {
        let d = (s.get_char(j) as u32 - '0' as u32) as u64;
        if value > (u64::MAX - d) / 10 {
            proof {
                assert(decimal_value(s@, start as int, j + 1) > u64::MAX);
                lemma_digits_end(s@, start as int, j + 1);
                lemma_decimal_value_grows(s@, start as int, j + 1, digits_end_from(s@, start as int));
            }
            return None;
        }
        value = value * 10 + d;
        j = j + 1;
    }
    proof {
        lemma_digits_end(s@, start as int, j as int);
    }
    Some(value)
}

} // verus!
