//! Numbers written out in base ten.

use vstd::prelude::*;
use vstd::string::*;

verus! {

/// The digits of `n` in base ten, in ASCII.
pub open spec fn decimal(n: nat) -> Seq<u8>
    decreases n,
{
    if n < 10 {
        seq![(48 + n) as u8]
    } else {
        decimal(n / 10).push((48 + n % 10) as u8)
    }
}

/// The digits of `n` in base ten.
pub fn decimal_digits(n: u64) -> (r: Vec<u8>)
    ensures
        r@ == decimal(n as nat),
        1 <= r.len() <= 20,
    decreases n,
{
    if n < 10 {
        let r = vec![48u8 + (n as u8)];
        assert(r@ =~= decimal(n as nat));
        r
    } else {
        let mut r = decimal_digits(n / 10);
        proof {
            lemma_decimal_length(n as nat);
        }
        r.push(48u8 + ((n % 10) as u8));
        r
    }
}

/// A number below ten to the `k` has at most `k` digits.
pub open spec fn pow10(k: nat) -> nat
    decreases k,
{
    if k == 0 {
        1
    } else {
        10 * pow10((k - 1) as nat)
    }
}

pub proof fn lemma_decimal_bound(n: nat, k: nat)
    requires
        k >= 1,
        n < pow10(k),
    ensures
        1 <= decimal(n).len() <= k,
    decreases n,
{
    if n >= 10 {
        assert(pow10(k) == 10 * pow10((k - 1) as nat));
        if k == 1 {
            assert(pow10(0) == 1);
        } else {
            lemma_decimal_bound(n / 10, (k - 1) as nat);
        }
    }
}

/// A number that fits 64 bits has at most twenty digits.
pub proof fn lemma_decimal_length(n: nat)
    requires
        n <= u64::MAX,
    ensures
        1 <= decimal(n).len() <= 20,
{
    assert(pow10(20) == 100000000000000000000) by {
        reveal_with_fuel(pow10, 21);
    }
    lemma_decimal_bound(n, 20);
}

/// The digits of `n` in base ten, as characters.
pub open spec fn decimal_text(n: nat) -> Seq<char> {
    Seq::new(decimal(n).len(), |i: int| decimal(n)[i] as char)
}

/// Every digit of a number is one of `0` to `9`.
pub proof fn lemma_decimal_is_digits(n: nat)
    ensures
        forall|i: int| 0 <= i < decimal(n).len() ==> 48 <= #[trigger] decimal(n)[i] <= 57,
    decreases n,
{
    if n >= 10 {
        lemma_decimal_is_digits(n / 10);
        let rest = decimal(n / 10);
        assert forall|i: int| 0 <= i < decimal(n).len() implies 48 <= #[trigger] decimal(n)[i]
            <= 57 by {
            if i < rest.len() {
                assert(decimal(n)[i] == rest[i]);
            }
        }
    }
}

/// The text of one digit.
fn digit_text(digit: u8) -> (r: &'static str)
    requires
        48 <= digit <= 57,
    ensures
        r@ == seq![digit as char],
{
    proof {
        reveal_strlit("0");
        reveal_strlit("1");
        reveal_strlit("2");
        reveal_strlit("3");
        reveal_strlit("4");
        reveal_strlit("5");
        reveal_strlit("6");
        reveal_strlit("7");
        reveal_strlit("8");
        reveal_strlit("9");
    }
    let r = if digit == 48 {
        "0"
    } else if digit == 49 {
        "1"
    } else if digit == 50 {
        "2"
    } else if digit == 51 {
        "3"
    } else if digit == 52 {
        "4"
    } else if digit == 53 {
        "5"
    } else if digit == 54 {
        "6"
    } else if digit == 55 {
        "7"
    } else if digit == 56 {
        "8"
    } else {
        "9"
    };
    assert(r@ =~= seq![digit as char]);
    r
}

/// Appends `n`, written in base ten, to `out`.
pub fn append_decimal(out: &mut String, n: u64)
    ensures
        final(out)@ == old(out)@ + decimal_text(n as nat),
{
    let digits = decimal_digits(n);
    proof {
        lemma_decimal_is_digits(n as nat);
    }
    let mut i: usize = 0;
    while i < digits.len()
        invariant
            i <= digits.len(),
            digits@ == decimal(n as nat),
            forall|j: int| 0 <= j < digits.len() ==> 48 <= #[trigger] digits[j] <= 57,
            out@ == old(out)@ + decimal_text(n as nat).subrange(0, i as int),
        decreases digits.len() - i,
    {
        out.append(digit_text(digits[i]));
        assert(decimal_text(n as nat).subrange(0, i + 1) =~= decimal_text(n as nat).subrange(
            0,
            i as int,
        ) + seq![digits[i as int] as char]);
        i = i + 1;
    }
    assert(decimal_text(n as nat).subrange(0, i as int) =~= decimal_text(n as nat));
}

/// `n` written in base ten.
pub fn decimal_string(n: u64) -> (r: String)
    ensures
        r@ == decimal_text(n as nat),
{
    let mut out = String::new();
    append_decimal(&mut out, n);
    assert(out@ =~= decimal_text(n as nat));
    out
}

} // verus!
