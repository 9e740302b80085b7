//! Decimal rendering of identifiers.
//!
//! Generated room, user and game identifiers are decimal numerals; the
//! functions here render an integer as its numeral and are specified
//! against the recursive definitions `spec_decimal` and
//! `spec_fixed_decimal`.

use vstd::prelude::*;

verus! {

/// The digit character for `d` (meaningful for `0 <= d <= 9`).
pub open spec fn spec_digit(d: nat) -> char {
    if d == 0 {
        '0'
    } else if d == 1 {
        '1'
    } else if d == 2 {
        '2'
    } else if d == 3 {
        '3'
    } else if d == 4 {
        '4'
    } else if d == 5 {
        '5'
    } else if d == 6 {
        '6'
    } else if d == 7 {
        '7'
    } else if d == 8 {
        '8'
    } else {
        '9'
    }
}

/// The decimal numeral of `n`, most significant digit first, no leading
/// zeros (except for `n == 0`, which is `"0"`).
pub open spec fn spec_decimal(n: nat) -> Seq<char>
    decreases n,
{
    if n < 10 {
        seq![spec_digit(n)]
    } else {
        spec_decimal(n / 10).push(spec_digit(n % 10))
    }
}

/// The last `w` digits of the decimal numeral of `n`, zero padded on the
/// left to exactly `w` characters.
pub open spec fn spec_fixed_decimal(n: nat, w: nat) -> Seq<char>
    decreases w,
{
    if w == 0 {
        Seq::empty()
    } else {
        spec_fixed_decimal(n / 10, (w - 1) as nat).push(spec_digit(n % 10))
    }
}

/// The length of a fixed-width numeral is its width.
pub proof fn lemma_fixed_decimal_len(n: nat, w: nat)
    ensures
        spec_fixed_decimal(n, w).len() == w,
    decreases w,
{
    if w > 0 {
        lemma_fixed_decimal_len(n / 10, (w - 1) as nat);
    }
}

fn digit_str(d: u64) -> (r: &'static str)
    requires
        d < 10,
    ensures
        r@ == seq![spec_digit(d as nat)],
{
    match d {
        0 => {
            proof {
                reveal_strlit("0");
                assert("0"@ =~= seq![spec_digit(0)]);
            }
            "0"
        },
        1 => {
            proof {
                reveal_strlit("1");
                assert("1"@ =~= seq![spec_digit(1)]);
            }
            "1"
        },
        2 => {
            proof {
                reveal_strlit("2");
                assert("2"@ =~= seq![spec_digit(2)]);
            }
            "2"
        },
        3 => {
            proof {
                reveal_strlit("3");
                assert("3"@ =~= seq![spec_digit(3)]);
            }
            "3"
        },
        4 => {
            proof {
                reveal_strlit("4");
                assert("4"@ =~= seq![spec_digit(4)]);
            }
            "4"
        },
        5 => {
            proof {
                reveal_strlit("5");
                assert("5"@ =~= seq![spec_digit(5)]);
            }
            "5"
        },
        6 => {
            proof {
                reveal_strlit("6");
                assert("6"@ =~= seq![spec_digit(6)]);
            }
            "6"
        },
        7 => {
            proof {
                reveal_strlit("7");
                assert("7"@ =~= seq![spec_digit(7)]);
            }
            "7"
        },
        8 => {
            proof {
                reveal_strlit("8");
                assert("8"@ =~= seq![spec_digit(8)]);
            }
            "8"
        },
        _ => {
            proof {
                reveal_strlit("9");
                assert("9"@ =~= seq![spec_digit(9)]);
            }
            "9"
        },
    }
}

/// Renders `n` as its decimal numeral.
pub fn u64_to_string(n: u64) -> (s: String)
    ensures
        s@ == spec_decimal(n as nat),
    decreases n,
{
    if n < 10 {
        String::from_str(digit_str(n))
    } else {
        let mut s = u64_to_string(n / 10);
        let d = digit_str(n % 10);
        s.append(d);
        proof {
            assert(s@ =~= spec_decimal(n as nat));
        }
        s
    }
}

/// Renders the last `width` decimal digits of `n`, zero padded on the left
/// to exactly `width` characters.
pub fn u64_to_fixed_string(n: u64, width: u64) -> (s: String)
    ensures
        s@ == spec_fixed_decimal(n as nat, width as nat),
        s@.len() == width,
    decreases width,
{
    proof {
        lemma_fixed_decimal_len(n as nat, width as nat);
    }
    if width == 0 {
        String::new()
    } else {
        let mut s = u64_to_fixed_string(n / 10, width - 1);
        let d = digit_str(n % 10);
        s.append(d);
        proof {
            assert(s@ =~= spec_fixed_decimal(n as nat, width as nat));
        }
        s
    }
}

/// Ten to the `w`.
pub open spec fn pow10(w: nat) -> nat
    decreases w,
{
    if w == 0 {
        1
    } else {
        10 * pow10((w - 1) as nat)
    }
}

/// `a` sorts strictly before `b`: at the first difference, `a` has the
/// smaller character.
pub open spec fn lex_before(a: Seq<char>, b: Seq<char>) -> bool {
    exists|k: int|
        0 <= k < a.len() && k < b.len() && a.take(k) == b.take(k) && (a[k] as int) < (b[k] as int)
}

/// Digit characters are ordered like the digits they stand for.
proof fn lemma_digit_order(d1: nat, d2: nat)
    requires
        d1 < d2 <= 9,
    ensures
        (spec_digit(d1) as int) < (spec_digit(d2) as int),
{
}

/// Fixed-width numerals of numbers below the width's bound sort
/// lexicographically exactly as the numbers sort.
pub proof fn lemma_fixed_decimal_order(n1: nat, n2: nat, w: nat)
    requires
        n1 < n2,
        n2 < pow10(w),
    ensures
        lex_before(spec_fixed_decimal(n1, w), spec_fixed_decimal(n2, w)),
    decreases w,
{
    let a = spec_fixed_decimal(n1, w);
    let b = spec_fixed_decimal(n2, w);
    lemma_fixed_decimal_len(n1, w);
    lemma_fixed_decimal_len(n2, w);
    let h1 = n1 / 10;
    let h2 = n2 / 10;
    let d1 = n1 % 10;
    let d2 = n2 % 10;
    if h1 == h2 {
        assert(d1 < d2) by (nonlinear_arith)
            requires
                n1 < n2,
                h1 == n1 / 10,
                h2 == n2 / 10,
                d1 == n1 % 10,
                d2 == n2 % 10,
                h1 == h2,
        {}
        lemma_digit_order(d1, d2);
        let k = w - 1;
        assert(a.take(k) == b.take(k)) by {
            assert(a.take(k) =~= spec_fixed_decimal(h1, (w - 1) as nat));
            assert(b.take(k) =~= spec_fixed_decimal(h2, (w - 1) as nat));
        }
        assert(a[k] == spec_digit(d1) && b[k] == spec_digit(d2));
        assert(lex_before(a, b));
    } else {
        assert(h1 < h2) by (nonlinear_arith)
            requires
                n1 < n2,
                h1 == n1 / 10,
                h2 == n2 / 10,
                h1 != h2,
        {}
        assert(h2 < pow10((w - 1) as nat)) by (nonlinear_arith)
            requires
                n2 < pow10(w),
                pow10(w) == 10 * pow10((w - 1) as nat),
                h2 == n2 / 10,
        {}
        lemma_fixed_decimal_order(h1, h2, (w - 1) as nat);
        let pa = spec_fixed_decimal(h1, (w - 1) as nat);
        let pb = spec_fixed_decimal(h2, (w - 1) as nat);
        lemma_fixed_decimal_len(h1, (w - 1) as nat);
        lemma_fixed_decimal_len(h2, (w - 1) as nat);
        let k = choose|k: int|
            0 <= k < pa.len() && k < pb.len() && pa.take(k) == pb.take(k) && (pa[k] as int) < (
            pb[k] as int);
        assert(a.take(k) == b.take(k)) by {
            assert(a.take(k) =~= pa.take(k));
            assert(b.take(k) =~= pb.take(k));
        }
        assert(a[k] == pa[k] && b[k] == pb[k]);
        assert(lex_before(a, b));
    }
}

} // verus!
