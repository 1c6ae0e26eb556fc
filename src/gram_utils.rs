//! Digit counting and the character scale used by the histogram strip.

use vstd::prelude::*;

verus! {

/// Ten raised to the power `e`.
pub open spec fn pow10(e: nat) -> nat
    decreases e,
{
    if e == 0 {
        1
    } else {
        10 * pow10((e - 1) as nat)
    }
}

/// Number of decimal digits needed to write `n`; zero needs none.
pub open spec fn decimal_digits(n: nat) -> nat
    decreases n,
{
    if n == 0 {
        0
    } else {
        1 + decimal_digits(n / 10)
    }
}

/// The decimal numeral of `n`, most significant digit first, without
/// leading zeros (zero itself is written `0`).
pub open spec fn decimal_text(n: nat) -> Seq<char>
    decreases n,
{
    let digit = seq!['0', '1', '2', '3', '4', '5', '6', '7', '8', '9'][(n % 10) as int];
    if n < 10 {
        seq![digit]
    } else {
        decimal_text(n / 10).push(digit)
    }
}

/// The powers of ten that the histogram and the digit counter rely on.
pub proof fn lemma_pow10_table()
    ensures
        pow10(0) == 1,
        pow10(1) == 10,
        pow10(2) == 100,
        pow10(3) == 1000,
        pow10(4) == 10000,
        pow10(5) == 100000,
        pow10(6) == 1000000,
        pow10(7) == 10000000,
        pow10(8) == 100000000,
        pow10(9) == 1000000000,
        pow10(10) == 10000000000,
        pow10(11) == 100000000000,
        pow10(12) == 1000000000000,
        pow10(20) == 100000000000000000000,
{
    reveal_with_fuel(pow10, 21);
}

/// A number below `10^k` has at most `k` digits.
proof fn lemma_digits_at_most(n: nat, k: nat)
    requires
        n < pow10(k),
    ensures
        decimal_digits(n) <= k,
    decreases k,
{
    if n > 0 {
        assert(k > 0);
        assert(n / 10 < pow10((k - 1) as nat));
        lemma_digits_at_most(n / 10, (k - 1) as nat);
    }
}

/// A number in `[10^(k-1), 10^k)` has exactly `k` digits.
proof fn lemma_digits_exact(n: nat, k: nat)
    requires
        k >= 1,
        pow10((k - 1) as nat) <= n < pow10(k),
    ensures
        decimal_digits(n) == k,
    decreases k,
{
    if k == 1 {
        assert(n / 10 == 0);
        assert(decimal_digits(0) == 0);
    } else {
        let p = pow10((k - 2) as nat);
        assert(pow10((k - 1) as nat) == 10 * p);
        assert(p <= n / 10 < pow10((k - 1) as nat));
        lemma_digits_exact(n / 10, (k - 1) as nat);
    }
}

/// The digit count of every positive number is the length of its decimal
/// numeral, and it places the number between two consecutive powers of ten;
/// zero has no digits.
pub proof fn lemma_digit_count_law(n: nat)
    ensures
        decimal_digits(0) == 0,
        n > 0 ==> decimal_digits(n) == decimal_text(n).len(),
        n > 0 ==> pow10((decimal_digits(n) - 1) as nat) <= n < pow10(decimal_digits(n)),
    decreases n,
{
    if n >= 10 {
        lemma_digit_count_law(n / 10);
        let d = decimal_digits(n / 10);
        assert(decimal_digits(n) == d + 1);
        assert(pow10(d) == 10 * pow10((d - 1) as nat));
        assert(pow10(d + 1) == 10 * pow10(d));
    } else if n > 0 {
        assert(n / 10 == 0);
        assert(decimal_digits(0) == 0);
        assert(pow10(1) == 10) by {
            reveal_with_fuel(pow10, 2);
        }
    }
}

/// Picks the strip character for a digit count: `ch_0` for zero, the
/// `doom`-th entry of `range` when there is one, and `ch_overflow` beyond it.
pub fn gram_doom_to_char(doom: u32, ch_0: u8, ch_overflow: u8, range: &[u8]) -> (r: u8)
    ensures
        r == (if doom == 0 {
            ch_0
        } else if doom > range@.len() {
            ch_overflow
        } else {
            range@[doom - 1]
        }),
{
    if 0 == doom {
        ch_0
    } else {
        if doom as usize > range.len() {
            ch_overflow
        } else {
            range[doom as usize - 1]
        }
    }
}

/// Counts the decimal digits of `v`, with zero counted as having none.
pub fn calc_doom(v: u64) -> (r: u32)
    ensures
        r == decimal_digits(v as nat),
        r <= 20,
{
    proof {
        lemma_pow10_table();
        lemma_digits_at_most(v as nat, 20);
    }
    if v >= 100000000 {
    } else {
        if v >= 10000 {
            if v >= 1000000 {
                if v >= 10000000 {
                    proof { lemma_digits_exact(v as nat, 8) }
                    return 8;
                } else {
                    proof { lemma_digits_exact(v as nat, 7) }
                    return 7;
                }
            } else {
                if v >= 100000 {
                    proof { lemma_digits_exact(v as nat, 6) }
                    return 6;
                } else {
                    proof { lemma_digits_exact(v as nat, 5) }
                    return 5;
                }
            }
        } else {
            if v >= 100 {
                if v >= 1000 {
                    proof { lemma_digits_exact(v as nat, 4) }
                    return 4;
                } else {
                    proof { lemma_digits_exact(v as nat, 3) }
                    return 3;
                }
            } else {
                if v >= 10 {
                    proof { lemma_digits_exact(v as nat, 2) }
                    return 2;
                } else {
                    if v > 0 {
                        proof { lemma_digits_exact(v as nat, 1) }
                        return 1;
                    } else {
                        return 0;
                    }
                }
            }
        }
    }
    let mut r: u32 = 0;
    let mut w: u64 = v;
    while w != 0
        invariant
            r + decimal_digits(w as nat) == decimal_digits(v as nat),
            decimal_digits(v as nat) <= 20,
        decreases w,
    {
        w = w / 10;
        r = r + 1;
    }
    r
}

} // verus!
