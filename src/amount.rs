//! Rendering of amounts counted in units of 10^-9 of the displayed currency.
use arrayvec::ArrayString;
use vstd::arithmetic::div_mod::{lemma_mod_breakdown, lemma_mod_mod, lemma_small_mod};
use vstd::prelude::*;

use crate::bounded::{fraction_chars, fraction_new, fraction_try_push};

verus! {

/// Units in one displayed coin.
pub const UNITS_PER_COIN: u64 = 1_000_000_000;

pub open spec fn pow10(n: nat) -> nat
    decreases n,
{
    if n == 0 {
        1
    } else {
        10 * pow10((n - 1) as nat)
    }
}

/// The `k`-th digit after the decimal point of a fraction `r` of 10^9 units.
pub open spec fn fraction_digit(r: nat, k: nat) -> nat {
    (r % pow10((9 - k) as nat)) / pow10((8 - k) as nat)
}

pub open spec fn digit_char(d: nat) -> char {
    ((48 + d) as u8) as char
}

/// The fewest digits, from `n` up and at most nine, after which no nonzero digit of `r` is left.
pub open spec fn fraction_len_from(r: nat, n: nat) -> nat
    decreases 9 - n,
{
    if n >= 9 || r % pow10((9 - n) as nat) == 0 {
        n
    } else {
        fraction_len_from(r, n + 1)
    }
}

/// Number of digits shown for the fraction `r`: at least one, no trailing zero beyond it.
pub open spec fn fraction_len(r: nat) -> nat {
    fraction_len_from(r, 1)
}

/// The digits shown after the decimal point for the fraction `r` (`r < 10^9`).
pub open spec fn fraction_text(r: nat) -> Seq<char> {
    Seq::new(fraction_len(r), |k: int| digit_char(fraction_digit(r, k as nat)))
}

proof fn lemma_pow10_pos(n: nat)
    ensures
        pow10(n) > 0,
    decreases n,
{
    if n > 0 {
        lemma_pow10_pos((n - 1) as nat);
    }
}

proof fn lemma_fraction_len_is(r: nat, m: nat, i: nat)
    requires
        1 <= m <= i <= 9,
        r % pow10((9 - i) as nat) == 0,
        forall|n: nat| 1 <= n < i ==> r % #[trigger] pow10((9 - n) as nat) != 0,
    ensures
        fraction_len_from(r, m) == i,
    decreases i - m,
{
    if m < i {
        lemma_fraction_len_is(r, m + 1, i);
    }
}

/// Splits `amount` into whole coins and the digits of its fraction of a coin:
/// the fraction's digits stop at the last nonzero one, and a zero fraction is "0".
pub fn get_amount_in_decimals(amount: u64) -> (r: (u64, ArrayString<12>))
    ensures
        r.0 == amount / UNITS_PER_COIN,
        fraction_chars(r.1) == fraction_text((amount % UNITS_PER_COIN) as nat),
{
    let quotient = amount / UNITS_PER_COIN;
    let remainder = amount % UNITS_PER_COIN;
    let mut remainder_str = fraction_new();
    let mut rem: u64 = remainder;
    let mut f: u64 = 100_000_000;
    let mut i: usize = 0;
    let mut done = false;
    proof {
        reveal_with_fuel(pow10, 10);
        assert(pow10(8) == 100_000_000);
        assert(pow10(9) == UNITS_PER_COIN);
        lemma_small_mod(remainder as nat, pow10(9));
    }
    while !done
        invariant
            remainder < UNITS_PER_COIN,
            pow10(9) == UNITS_PER_COIN,
            i <= 9,
            !done ==> i < 9 && f == pow10((8 - i) as nat) && rem == (remainder as nat) % pow10(
                (9 - i) as nat,
            ),
            !done && i > 0 ==> rem != 0,
            done ==> 1 <= i && (remainder as nat) % pow10((9 - i) as nat) == 0,
            forall|n: nat| 1 <= n < i ==> (remainder as nat) % #[trigger] pow10((9 - n) as nat) != 0,
            fraction_chars(remainder_str) == Seq::new(
                i as nat,
                |k: int| digit_char(fraction_digit(remainder as nat, k as nat)),
            ),
            forall|k: int|
                0 <= k < fraction_chars(remainder_str).len() ==> (fraction_chars(
                    remainder_str,
                )[k] as u32) < 128,
        decreases
            (if done {
                0
            } else {
                10 - i
            }),
    {
        let ghost wider = pow10((9 - i) as nat);
        proof {
            lemma_pow10_pos((8 - i) as nat);
            assert(wider == 10 * f);
            lemma_mod_mod(remainder as int, f as int, 10);
            assert(rem < 10 * f) by {
                lemma_pow10_pos((9 - i) as nat);
            }
            assert(rem / f < 10) by (nonlinear_arith)
                requires
                    rem < 10 * f,
                    f > 0,
            ;
        }
        let d = rem / f;
        let c = (48u8 + d as u8) as char;
        assert(c == digit_char(fraction_digit(remainder as nat, i as nat)));
        let _ = fraction_try_push(&mut remainder_str, c);
        rem = rem % f;
        i = i + 1;
        assert(fraction_chars(remainder_str) =~= Seq::new(
            i as nat,
            |k: int| digit_char(fraction_digit(remainder as nat, k as nat)),
        ));
        if rem == 0 {
            done = true;
        } else {
            assert(i < 9);
            assert(pow10((8 - (i - 1)) as nat) == 10 * pow10((8 - i) as nat));
            f = f / 10;
        }
    }
    proof {
        lemma_fraction_len_is(remainder as nat, 1, i as nat);
        assert(fraction_chars(remainder_str) =~= fraction_text(remainder as nat));
    }
    (quotient, remainder_str)
}

proof fn lemma_fraction_len_from(r: nat, m: nat)
    requires
        1 <= m <= 9,
    ensures
        m <= fraction_len_from(r, m) <= 9,
        r % pow10((9 - fraction_len_from(r, m)) as nat) == 0,
        forall|k: nat|
            m <= k < fraction_len_from(r, m) ==> r % #[trigger] pow10((9 - k) as nat) != 0,
    decreases 9 - m,
{
    if m < 9 && r % pow10((9 - m) as nat) != 0 {
        lemma_fraction_len_from(r, m + 1);
    }
    if m == 9 {
        assert(pow10(0) == 1);
    }
}

/// The fraction text is as short as it can be: one to nine digits, "0" for a
/// zero fraction, and otherwise no trailing zero.
pub proof fn lemma_fraction_minimal(r: nat)
    requires
        r < UNITS_PER_COIN,
    ensures
        1 <= fraction_text(r).len() <= 9,
        r == 0 ==> fraction_text(r) == seq!['0'],
        r != 0 ==> fraction_text(r).last() != '0',
{
    lemma_fraction_len_from(r, 1);
    let n = fraction_len(r);
    let a = pow10((9 - n) as nat);
    lemma_pow10_pos((9 - n) as nat);
    assert(pow10((10 - n) as nat) == a * 10);
    let d = fraction_digit(r, (n - 1) as nat);
    assert(d == (r % (a * 10)) / a);
    lemma_mod_breakdown(r as int, a as int, 10);
    lemma_mod_mod(r as int, a as int, 10);
    assert(r % (a * 10) == a * ((r / a) % 10) + r % a);
    assert((a * ((r / a) % 10)) / a == (r / a) % 10) by (nonlinear_arith)
        requires
            a > 0,
    ;
    assert(r % a == 0);
    assert(d == (r / a) % 10);
    if r == 0 {
        lemma_pow10_pos(8);
        assert(0nat % pow10(8) == 0);
        assert(n == 1);
        assert(fraction_text(r) =~= seq!['0']);
    } else {
        if d == 0 {
            assert(a * ((r / a) % 10) == 0) by (nonlinear_arith)
                requires
                    (r / a) % 10 == 0,
            ;
            assert(r % (a * 10) == 0);
            if n == 1 {
                reveal_with_fuel(pow10, 10);
                lemma_small_mod(r, pow10(9));
            } else {
                let k = (n - 1) as nat;
                assert(r % pow10((9 - k) as nat) != 0);
                assert((9 - k) as nat == (10 - n) as nat);
            }
        }
        assert(d != 0);
        assert(d < 10) by {
            assert((r / a) % 10 < 10);
        }
        assert(fraction_text(r).last() == digit_char(d));
    }
}

} // verus!
