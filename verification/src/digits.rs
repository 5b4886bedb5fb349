//! Decimal text: reading prices and discount percentages out of page text,
//! and rendering fixed-point amounts into URL query parameters.
//!
//! Money is held in hundredths of a currency unit throughout the library, so
//! every amount is an exact integer.

use vstd::prelude::*;

verus! {

/// An ASCII decimal digit.
pub open spec fn is_digit(c: char) -> bool {
    48 <= c as u32 <= 57
}

/// The numeric value of an ASCII digit.
pub open spec fn digit_val(c: char) -> int {
    c as u32 - 48
}

/// The digit character for a value below ten.
pub open spec fn digit_char(d: int) -> char {
    if d == 0 {
        '0'
    } else if d == 1 {
        '1'
    } else if d == 2 {
        '2'
    } else if d == 3 {
        '3'
    } else if d == 4 {
        '4'
    } else if d == 5 {
        '5'
    } else if d == 6 {
        '6'
    } else if d == 7 {
        '7'
    } else if d == 8 {
        '8'
    } else {
        '9'
    }
}

/// The number a digit string denotes, most significant digit first.
pub open spec fn digits_val(s: Seq<char>) -> nat
    decreases s.len(),
{
    if s.len() == 0 {
        0
    } else {
        (digits_val(s.drop_last()) * 10 + digit_val(s.last())) as nat
    }
}

/// How many characters at the front of `s` are digits.
pub open spec fn digit_prefix_len(s: Seq<char>) -> nat
    decreases s.len(),
{
    if s.len() == 0 || !is_digit(s[0]) {
        0
    } else {
        1 + digit_prefix_len(s.subrange(1, s.len() as int))
    }
}

/// `digit_prefix_len` marks the first non-digit position.
pub proof fn lemma_digit_prefix_len(s: Seq<char>)
    ensures
        digit_prefix_len(s) <= s.len(),
        forall|i: int| 0 <= i < digit_prefix_len(s) ==> is_digit(s[i]),
        digit_prefix_len(s) < s.len() ==> !is_digit(s[digit_prefix_len(s) as int]),
    decreases s.len(),
{
    if s.len() == 0 || !is_digit(s[0]) {
    } else {
        let t = s.subrange(1, s.len() as int);
        lemma_digit_prefix_len(t);
        assert forall|i: int| 0 <= i < digit_prefix_len(s) implies is_digit(s[i]) by {
            if i >= 1 {
                assert(is_digit(t[i - 1]));
            }
        }
    }
}

/// Any position with all digits before it and a non-digit (or the end) at it
/// is exactly `digit_prefix_len`.
pub proof fn lemma_digit_prefix_len_unique(s: Seq<char>, n: nat)
    requires
        n <= s.len(),
        forall|i: int| 0 <= i < n ==> is_digit(s[i]),
        n < s.len() ==> !is_digit(s[n as int]),
    ensures
        n == digit_prefix_len(s),
    decreases s.len(),
{
    if s.len() == 0 {
    } else if !is_digit(s[0]) {
        assert(n == 0) by {
            if n > 0 {
                assert(is_digit(s[0]));
            }
        }
    } else {
        assert(n >= 1) by {
            if n == 0 {
                assert(!is_digit(s[0]));
            }
        }
        let t = s.subrange(1, s.len() as int);
        assert(forall|i: int| 0 <= i < n - 1 ==> is_digit(t[i]));
        lemma_digit_prefix_len_unique(t, (n - 1) as nat);
    }
}

/// A longer digit prefix denotes at least as large a number.
pub proof fn lemma_digits_val_prefix_le(s: Seq<char>, i: int, j: int)
    requires
        0 <= i <= j <= s.len(),
        forall|k: int| 0 <= k < j ==> is_digit(s[k]),
    ensures
        digits_val(s.subrange(0, i)) <= digits_val(s.subrange(0, j)),
    decreases j - i,
{
    if i < j {
        lemma_digits_val_prefix_le(s, i, j - 1);
        let p = s.subrange(0, j - 1);
        let q = s.subrange(0, j);
        assert(q.drop_last() =~= p);
        assert(is_digit(q.last()));
        assert(digits_val(q) == digits_val(p) * 10 + digit_val(q.last()));
    }
}

/// Count the digits running from position `from` of `s`.
fn count_digit_run(s: &str, from: usize) -> (n: usize)
    requires
        from <= s@.len(),
    ensures
        n == digit_prefix_len(s@.subrange(from as int, s@.len() as int)),
        from + n <= s@.len(),
{
    let len = s.unicode_len();
    let mut i: usize = from;
    while i < len
        invariant
            from <= i <= len,
            len == s@.len(),
            forall|j: int| from <= j < i ==> is_digit(s@[j]),
        decreases len - i,
    {
        let c = s.get_char(i);
        let u = c as u32;
        if !(48 <= u && u <= 57) {
            proof {
                let t = s@.subrange(from as int, s@.len() as int);
                lemma_digit_prefix_len_unique(t, (i - from) as nat);
            }
            return i - from;
        }
        i = i + 1;
    }
    proof {
        let t = s@.subrange(from as int, s@.len() as int);
        lemma_digit_prefix_len_unique(t, (i - from) as nat);
    }
    i - from
}

/// Read the value of the digit run `s[from..from+count]`, most significant
/// first. The result is `None` exactly when the value does not fit in `u64`.
fn read_digits(s: &str, from: usize, count: usize) -> (r: Option<u64>)
    requires
        from + count <= s@.len(),
        from + count <= usize::MAX,
        forall|i: int| from <= i < from + count ==> is_digit(s@[i]),
    ensures
        match r {
            Some(v) => v == digits_val(s@.subrange(from as int, (from + count) as int)),
            None => digits_val(s@.subrange(from as int, (from + count) as int)) > u64::MAX,
        },
{
    let mut acc: u64 = 0;
    let mut i: usize = 0;
    while i < count
        invariant
            0 <= i <= count,
            from + count <= s@.len(),
            from + count <= usize::MAX,
            forall|j: int| from <= j < from + count ==> is_digit(s@[j]),
            acc == digits_val(s@.subrange(from as int, (from + i) as int)),
        decreases count - i,
    {
        let c = s.get_char(from + i);
        assert(is_digit(s@[from + i]));
        let d: u64 = (c as u32 as u64) - 48;
        let wide: u128 = (acc as u128) * 10 + (d as u128);
        proof {
            let p = s@.subrange(from as int, (from + i) as int);
            let q = s@.subrange(from as int, (from + i + 1) as int);
            assert(q.drop_last() =~= p);
            assert(digits_val(q) == digits_val(p) * 10 + digit_val(q.last()));
        }
        if wide > u64::MAX as u128 {
            proof {
                lemma_digits_val_prefix_le(
                    s@.subrange(from as int, (from + count) as int),
                    i + 1,
                    count as int,
                );
                assert(s@.subrange(from as int, (from + count) as int).subrange(0, i + 1)
                    =~= s@.subrange(from as int, (from + i + 1) as int));
                assert(s@.subrange(from as int, (from + count) as int).subrange(0, count as int)
                    =~= s@.subrange(from as int, (from + count) as int));
            }
            return None;
        }
        acc = wide as u64;
        i = i + 1;
    }
    assert(s@.subrange(from as int, (from + count) as int) =~= s@.subrange(
        from as int,
        (from + i) as int,
    ));
    Some(acc)
}

/// A run of at most two digits denotes a number below one hundred.
pub proof fn lemma_digits_val_two(s: Seq<char>)
    requires
        s.len() <= 2,
        forall|i: int| 0 <= i < s.len() ==> is_digit(s[i]),
    ensures
        digits_val(s) < 100,
{
    if s.len() > 0 {
        let p = s.drop_last();
        assert(digits_val(s) == (digits_val(p) * 10 + digit_val(s.last())) as nat);
        assert(is_digit(s.last()));
        if p.len() > 0 {
            let q = p.drop_last();
            assert(q.len() == 0);
            assert(digits_val(q) == 0);
            assert(digits_val(p) == (digits_val(q) * 10 + digit_val(p.last())) as nat);
            assert(is_digit(p.last()));
            assert(digits_val(p) <= 9);
        } else {
            assert(digits_val(p) == 0);
        }
    }
}

/// The leading one-or-two-digit percentage a discount badge text denotes;
/// `None` when the text does not start with one or two digits.
pub open spec fn spec_parse_sale(s: Seq<char>) -> Option<u32> {
    let n = digit_prefix_len(s);
    if 1 <= n <= 2 {
        Some(digits_val(s.subrange(0, n as int)) as u32)
    } else {
        None
    }
}

/// Parse a discount badge text: its leading one-or-two-digit percentage.
pub fn parse_sale(s: &str) -> (r: Option<u32>)
    ensures
        r == spec_parse_sale(s@),
{
    let n = count_digit_run(s, 0);
    proof {
        assert(s@.subrange(0, s@.len() as int) =~= s@);
        lemma_digit_prefix_len(s@);
    }
    if n == 1 || n == 2 {
        proof {
            lemma_digits_val_two(s@.subrange(0, n as int));
        }
        match read_digits(s, 0, n) {
            Some(v) => Some(v as u32),
            None => None,
        }
    } else {
        None
    }
}

/// The amount, in hundredths, that a price fragment denotes. The accepted
/// shape is a digit run, optionally followed by a dot and one or two
/// fraction digits; anything else (including trailing text) is `None`.
pub open spec fn spec_parse_cents(s: Seq<char>) -> Option<nat> {
    let n = digit_prefix_len(s);
    if n == 0 {
        None
    } else if n == s.len() {
        Some(digits_val(s.subrange(0, n as int)) * 100)
    } else if s[n as int] == '.' {
        let t = s.subrange(n as int + 1, s.len() as int);
        if digit_prefix_len(t) == t.len() && 1 <= t.len() <= 2 {
            Some(
                digits_val(s.subrange(0, n as int)) * 100 + digits_val(t) * (
                if t.len() == 1 {
                    10nat
                } else {
                    1nat
                }),
            )
        } else {
            None
        }
    } else {
        None
    }
}

/// Parse a price fragment into hundredths of a currency unit. `None` when
/// the fragment is malformed or the amount does not fit in `u64`.
pub fn parse_cents(s: &str) -> (r: Option<u64>)
    ensures
        match spec_parse_cents(s@) {
            Some(v) => if v <= u64::MAX {
                r == Some(v as u64)
            } else {
                r is None
            },
            None => r is None,
        },
{
    let len = s.unicode_len();
    let n = count_digit_run(s, 0);
    proof {
        assert(s@.subrange(0, s@.len() as int) =~= s@);
        lemma_digit_prefix_len(s@);
    }
    if n == 0 {
        return None;
    }
    let whole = match read_digits(s, 0, n) {
        Some(w) => w,
        None => {
            return None;
        },
    };
    if n == len {
        let wide: u128 = (whole as u128) * 100;
        if wide > u64::MAX as u128 {
            return None;
        }
        return Some(wide as u64);
    }
    let c = s.get_char(n);
    if c != '.' {
        return None;
    }
    let ghost t = s@.subrange(n + 1, s@.len() as int);
    let m = count_digit_run(s, n + 1);
    if !(n + 1 + m == len && (m == 1 || m == 2)) {
        return None;
    }
    proof {
        lemma_digit_prefix_len(t);
        assert(forall|i: int| 0 <= i < t.len() ==> t[i] == s@[n + 1 + i]);
        assert(forall|i: int| n + 1 <= i < n + 1 + m ==> is_digit(s@[i]));
        lemma_digits_val_two(t);
    }
    let frac = match read_digits(s, n + 1, m) {
        Some(f) => f,
        None => {
            return None;
        },
    };
    proof {
        assert(s@.subrange((n + 1) as int, (n + 1 + m) as int) =~= t);
    }
    let scale: u64 = if m == 1 {
        10
    } else {
        1
    };
    let wide: u128 = (whole as u128) * 100 + (frac * scale) as u128;
    if wide > u64::MAX as u128 {
        return None;
    }
    Some(wide as u64)
}

/// The decimal digit string of `n`, most significant digit first.
pub open spec fn dec_digits(n: nat) -> Seq<char>
    decreases n,
{
    if n < 10 {
        seq![digit_char(n as int)]
    } else {
        dec_digits(n / 10).push(digit_char((n % 10) as int))
    }
}

/// The decimal rendering of an amount held in hundredths: the whole part,
/// then a dot and up to two fraction digits, trailing zeros left off.
pub open spec fn cents_string(c: nat) -> Seq<char> {
    let w = c / 100;
    let f = c % 100;
    if f == 0 {
        dec_digits(w)
    } else if f % 10 == 0 {
        dec_digits(w) + seq!['.', digit_char((f / 10) as int)]
    } else {
        dec_digits(w) + seq!['.', digit_char((f / 10) as int), digit_char((f % 10) as int)]
    }
}

/// The one-character string for a digit value.
fn digit_to_str(d: u64) -> (r: &'static str)
    requires
        d < 10,
    ensures
        r@ == seq![digit_char(d as int)],
{
    let r: &'static str = if d == 0 {
        "0"
    } else if d == 1 {
        "1"
    } else if d == 2 {
        "2"
    } else if d == 3 {
        "3"
    } else if d == 4 {
        "4"
    } else if d == 5 {
        "5"
    } else if d == 6 {
        "6"
    } else if d == 7 {
        "7"
    } else if d == 8 {
        "8"
    } else {
        "9"
    };
    proof {
        reveal_strlit("0");
        reveal_strlit("1");
        reveal_strlit("2");
        reveal_strlit("3");
        reveal_strlit("4");
        reveal_strlit("5");
        reveal_strlit("6");
        reveal_strlit("7");
        reveal_strlit("8");
        reveal_strlit("9");
        assert(r@ =~= seq![digit_char(d as int)]);
    }
    r
}

/// Render `n` in decimal.
pub fn dec_string(n: u64) -> (r: String)
    ensures
        r@ == dec_digits(n as nat),
    decreases n,
{
    if n < 10 {
        String::from_str(digit_to_str(n))
    } else {
        let mut s = dec_string(n / 10);
        s.append(digit_to_str(n % 10));
        proof {
            assert(s@ =~= dec_digits((n / 10) as nat).push(digit_char((n % 10) as int)));
        }
        s
    }
}

/// Render an amount held in hundredths as a decimal currency string.
pub fn cents_to_string(c: u64) -> (r: String)
    ensures
        r@ == cents_string(c as nat),
{
    let whole = c / 100;
    let f = c % 100;
    if f == 0 {
        dec_string(whole)
    } else {
        let mut s = dec_string(whole);
        s.append(".");
        s.append(digit_to_str(f / 10));
        if f % 10 != 0 {
            s.append(digit_to_str(f % 10));
        }
        proof {
            reveal_strlit(".");
            assert(s@ =~= cents_string(c as nat));
        }
        s
    }
}

} // verus!
