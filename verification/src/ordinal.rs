//! Ordinal prefixes of item descriptions.
//!
//! Every description committed by the entry form begins with a human-readable
//! running number: the decimal digits of the ordinal, then `". "`, then the
//! text the user typed.  The next ordinal is recovered from the previous
//! description by reading the digits that stand before the first `'.'`.

use vstd::prelude::*;
use vstd::string::*;

verus! {

/// A decimal digit character.
pub open spec fn spec_is_digit(c: char) -> bool {
    '0' <= c && c <= '9'
}

/// Numeric value of a digit character.
pub open spec fn digit_val(c: char) -> nat
    recommends
        spec_is_digit(c),
{
    (c as nat - '0' as nat) as nat
}

/// Value of a string of decimal digits, most significant first.
pub open spec fn digits_value(s: Seq<char>) -> nat
    decreases s.len(),
{
    if s.len() == 0 {
        0
    } else {
        digits_value(s.drop_last()) * 10 + digit_val(s.last())
    }
}

/// Length of the longest prefix of `s` made of decimal digits.
pub open spec fn digit_run_len(s: Seq<char>) -> nat
    decreases s.len(),
{
    if s.len() == 0 || !spec_is_digit(s[0]) {
        0
    } else {
        (1 + digit_run_len(s.drop_first())) as nat
    }
}

/// The ordinal read from the front of a description: the leading digits,
/// which must be non-empty, reach either the first `'.'` or the end of the
/// string, and denote a value that fits in `usize`.  Anything else has no
/// parseable ordinal.
pub open spec fn spec_parse_ordinal(s: Seq<char>) -> Option<usize> {
    let k = digit_run_len(s) as int;
    if 1 <= k && (k == s.len() || s[k] == '.') && digits_value(s.take(k)) <= usize::MAX {
        Some(digits_value(s.take(k)) as usize)
    } else {
        None
    }
}

/// A scan that saw digits up to `k` and a non-digit (or the end) at `k` has
/// found exactly the longest digit prefix.
proof fn lemma_digit_run_len_of_scan(s: Seq<char>, k: int)
    requires
        0 <= k <= s.len(),
        forall|j: int| 0 <= j < k ==> spec_is_digit(#[trigger] s[j]),
        k < s.len() ==> !spec_is_digit(s[k]),
    ensures
        digit_run_len(s) == k,
    decreases k,
{
    if k == 0 {
    } else {
        assert(spec_is_digit(s[0]));
        lemma_digit_run_len_of_scan(s.drop_first(), k - 1);
    }
}

/// Reading one more digit multiplies the value by ten and adds the digit.
proof fn lemma_digits_value_step(s: Seq<char>, i: int)
    requires
        0 <= i < s.len(),
    ensures
        digits_value(s.take(i + 1)) == digits_value(s.take(i)) * 10 + digit_val(s[i]),
{
    assert(s.take(i + 1).drop_last() =~= s.take(i));
    assert(s.take(i + 1).last() == s[i]);
}

/// The value of a digit prefix never shrinks as the prefix grows.
proof fn lemma_digits_value_monotonic(s: Seq<char>, i: int, j: int)
    requires
        0 <= i <= j <= s.len(),
    ensures
        digits_value(s.take(i)) <= digits_value(s.take(j)),
    decreases j - i,
{
    if i < j {
        lemma_digits_value_monotonic(s, i, j - 1);
        lemma_digits_value_step(s, j - 1);
    }
}

/// Reads the ordinal prefix of a description, if it has one: the decimal
/// digits standing before the first `'.'` (or making up the whole string),
/// as long as their value fits in `usize`.
pub fn parse_ordinal(s: &str) -> (r: Option<usize>)
    ensures
        r == spec_parse_ordinal(s@),
{
    let n = s.unicode_len();
    let mut k: usize = 0;
    let mut stop = false;
    while !stop
        invariant
            n == s@.len(),
            k <= n,
            forall|j: int| 0 <= j < k ==> spec_is_digit(#[trigger] s@[j]),
            stop ==> (k == n || !spec_is_digit(s@[k as int])),
        decreases n - k + (if stop { 0int } else { 1int }),
    {
        if k < n {
            let c = s.get_char(k);
            if '0' <= c && c <= '9' {
                k = k + 1;
            } else {
                stop = true;
            }
        } else {
            stop = true;
        }
    }
    proof {
        lemma_digit_run_len_of_scan(s@, k as int);
    }
    if k == 0 {
        return None;
    }
    if k < n && s.get_char(k) != '.' {
        return None;
    }
    let mut acc: u128 = 0;
    let mut i: usize = 0;
    let bound: u128 = usize::MAX as u128;
    while i < k
        invariant
            n == s@.len(),
            1 <= k <= n,
            i <= k,
            digit_run_len(s@) == k,
            k == n || s@[k as int] == '.',
            forall|j: int| 0 <= j < k ==> spec_is_digit(#[trigger] s@[j]),
            acc == digits_value(s@.take(i as int)),
            acc <= bound,
            bound == usize::MAX as u128,
        decreases k - i,
    {
        let c = s.get_char(i);
        assert(spec_is_digit(s@[i as int]));
        let d: u128 = (c as u32 - '0' as u32) as u128;
        proof {
            lemma_digits_value_step(s@, i as int);
            assert(d as nat == digit_val(s@[i as int]));
        }
        let next = acc * 10 + d;
        if next > bound {
            proof {
                lemma_digits_value_monotonic(s@, i as int + 1, k as int);
            }
            return None;
        }
        acc = next;
        i = i + 1;
    }
    Some(acc as usize)
}

/// The digit character for a value below ten.
pub open spec fn spec_digit_char(d: nat) -> char {
    if d == 0 {
        '0'
    } else if d == 1 {
        '1'
    } else if d == 2 {
        '2'
    } else if d == 3 {
        '3'
    } else if d == 4 {
        '4'
    } else if d == 5 {
        '5'
    } else if d == 6 {
        '6'
    } else if d == 7 {
        '7'
    } else if d == 8 {
        '8'
    } else {
        '9'
    }
}

/// Decimal digits of `n`, most significant first.
pub open spec fn spec_digits(n: nat) -> Seq<char>
    decreases n,
{
    if n < 10 {
        seq![spec_digit_char(n)]
    } else {
        spec_digits(n / 10).push(spec_digit_char(n % 10))
    }
}

/// The single-character string for a digit value.
fn digit_str(d: usize) -> (r: &'static str)
    requires
        d < 10,
    ensures
        r@ =~= seq![spec_digit_char(d as nat)],
{
    let r: &'static str = if d == 0 {
        "0"
    } else if d == 1 {
        "1"
    } else if d == 2 {
        "2"
    } else if d == 3 {
        "3"
    } else if d == 4 {
        "4"
    } else if d == 5 {
        "5"
    } else if d == 6 {
        "6"
    } else if d == 7 {
        "7"
    } else if d == 8 {
        "8"
    } else {
        "9"
    };
    proof {
        reveal_strlit("0");
        reveal_strlit("1");
        reveal_strlit("2");
        reveal_strlit("3");
        reveal_strlit("4");
        reveal_strlit("5");
        reveal_strlit("6");
        reveal_strlit("7");
        reveal_strlit("8");
        reveal_strlit("9");
    }
    r
}

/// Renders `n` in decimal.
pub fn ordinal_string(n: usize) -> (s: String)
    ensures
        s@ == spec_digits(n as nat),
    decreases n,
{
    if n < 10 {
        String::from_str(digit_str(n))
    } else {
        let mut s = ordinal_string(n / 10);
        s.append(digit_str(n % 10));
        proof {
            assert(s@ =~= spec_digits((n / 10) as nat).push(spec_digit_char((n % 10) as nat)));
        }
        s
    }
}

/// Every character written by `spec_digits` is a decimal digit, and at least
/// one is written.
proof fn lemma_spec_digits_are_digits(n: nat)
    ensures
        spec_digits(n).len() >= 1,
        forall|j: int|
            0 <= j < spec_digits(n).len() ==> spec_is_digit(#[trigger] spec_digits(n)[j]),
    decreases n,
{
    if n < 10 {
    } else {
        lemma_spec_digits_are_digits(n / 10);
    }
}

/// Reading back the digits of `n` recovers `n`.
proof fn lemma_digits_value_of_spec_digits(n: nat)
    ensures
        digits_value(spec_digits(n)) == n,
    decreases n,
{
    if n < 10 {
        assert(seq![spec_digit_char(n)].drop_last() =~= Seq::<char>::empty());
        assert(digit_val(spec_digit_char(n)) == n);
        assert(digits_value(spec_digits(n)) == digits_value(Seq::<char>::empty()) * 10
            + digit_val(spec_digit_char(n)));
    } else {
        lemma_digits_value_of_spec_digits(n / 10);
        assert(spec_digits(n).drop_last() =~= spec_digits(n / 10));
        assert(digit_val(spec_digit_char(n % 10)) == n % 10);
        assert(digits_value(spec_digits(n)) == n / 10 * 10 + n % 10);
        assert(n / 10 * 10 + n % 10 == n) by {
            vstd::arithmetic::div_mod::lemma_fundamental_div_mod(n as int, 10);
        }
    }
}

/// A committed description parses back to exactly the ordinal it was built
/// from: the display prefix and the stored numbering can never drift apart.
pub proof fn lemma_description_parses_back(ord: usize, draft: Seq<char>)
    ensures
        spec_parse_ordinal(spec_description(ord as nat, draft)) == Some(ord),
{
    let digits = spec_digits(ord as nat);
    let s = spec_description(ord as nat, draft);
    lemma_spec_digits_are_digits(ord as nat);
    lemma_digits_value_of_spec_digits(ord as nat);
    let k = digits.len() as int;
    assert(s[k] == '.');
    assert(forall|j: int| 0 <= j < k ==> spec_is_digit(#[trigger] s[j]));
    lemma_digit_run_len_of_scan(s, k);
    assert(s.take(k) =~= digits);
}

/// A committed description: the ordinal in decimal, a separating `". "`,
/// then the entered text.
pub open spec fn spec_description(ord: nat, draft: Seq<char>) -> Seq<char> {
    spec_digits(ord) + seq!['.', ' '] + draft
}

/// Builds the description committed for a new item.
pub fn make_description(ord: usize, draft: &str) -> (s: String)
    ensures
        s@ == spec_description(ord as nat, draft@),
{
    let mut s = ordinal_string(ord);
    s.append(". ");
    s.append(draft);
    proof {
        reveal_strlit(". ");
        assert(s@ =~= spec_description(ord as nat, draft@));
    }
    s
}

} // verus!
