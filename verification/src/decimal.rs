//! Decimal notation of unsigned integers.

use vstd::prelude::*;

verus! {

/// The character that stands for a single decimal digit.
pub open spec fn digit_char(d: nat) -> char
    recommends
        d < 10,
{
    if d == 0 {
        '0'
    } else if d == 1 {
        '1'
    } else if d == 2 {
        '2'
    } else if d == 3 {
        '3'
    } else if d == 4 {
        '4'
    } else if d == 5 {
        '5'
    } else if d == 6 {
        '6'
    } else if d == 7 {
        '7'
    } else if d == 8 {
        '8'
    } else {
        '9'
    }
}

/// The decimal notation of `n`, most significant digit first, without
/// leading zeros; zero is written `0`.
pub open spec fn decimal(n: nat) -> Seq<char>
    decreases n,
{
    if n < 10 {
        seq![digit_char(n)]
    } else {
        decimal(n / 10).push(digit_char(n % 10))
    }
}

/// The digits of `n` that stand before those already taken off its low end:
/// nothing once `n` has reached zero.
pub open spec fn leading_digits(n: nat) -> Seq<char> {
    if n == 0 {
        Seq::empty()
    } else {
        decimal(n)
    }
}

/// The characters of `digits`, a list of digits with the least significant
/// first, read from its end to its start.
pub open spec fn reversed_digits(digits: Seq<u8>) -> Seq<char> {
    Seq::new(digits.len(), |k: int| digit_char(digits[digits.len() - 1 - k] as nat))
}

/// Taking the last digit off a number leaves its leading digits.
pub proof fn lemma_decimal_split(n: nat)
    ensures
        decimal(n) == leading_digits(n / 10).push(digit_char(n % 10)),
{
    if n < 10 {
        assert(n / 10 == 0);
        assert(n % 10 == n);
        assert(decimal(n) =~= Seq::<char>::empty().push(digit_char(n)));
    }
}

/// The one-character string of a decimal digit.
fn digit_str(d: u8) -> (s: &'static str)
    requires
        d < 10,
    ensures
        s@ == seq![digit_char(d as nat)],
{
    proof {
        reveal_strlit("0");
        reveal_strlit("1");
        reveal_strlit("2");
        reveal_strlit("3");
        reveal_strlit("4");
        reveal_strlit("5");
        reveal_strlit("6");
        reveal_strlit("7");
        reveal_strlit("8");
        reveal_strlit("9");
    }
    let s = if d == 0 {
        "0"
    } else if d == 1 {
        "1"
    } else if d == 2 {
        "2"
    } else if d == 3 {
        "3"
    } else if d == 4 {
        "4"
    } else if d == 5 {
        "5"
    } else if d == 6 {
        "6"
    } else if d == 7 {
        "7"
    } else if d == 8 {
        "8"
    } else {
        "9"
    };
    assert(s@ =~= seq![digit_char(d as nat)]);
    s
}

/// Appends the decimal notation of `n` to `out`.
pub fn push_decimal(out: &mut String, n: u128)
    ensures
        final(out)@ == old(out)@ + decimal(n as nat),
{
    let mut digits: Vec<u8> = Vec::new();
    let mut rest: u128 = n / 10;
    digits.push((n % 10) as u8);
    proof {
        lemma_decimal_split(n as nat);
        assert(decimal(n as nat) =~= leading_digits(rest as nat) + reversed_digits(digits@));
    }
    while rest > 0
        invariant
            digits.len() >= 1,
            forall|i: int| 0 <= i < digits.len() ==> digits[i] < 10,
            decimal(n as nat) == leading_digits(rest as nat) + reversed_digits(digits@),
        decreases rest,
    {
        let ghost before = digits@;
        let d: u8 = (rest % 10) as u8;
        digits.push(d);
        proof {
            lemma_decimal_split(rest as nat);
            assert(reversed_digits(digits@) =~= seq![digit_char(d as nat)] + reversed_digits(
                before,
            ));
            assert(decimal(n as nat) =~= leading_digits((rest / 10) as nat) + reversed_digits(
                digits@,
            ));
        }
        rest = rest / 10;
    }
    let len: usize = digits.len();
    let mut i: usize = len;
    proof {
        assert(decimal(n as nat) =~= reversed_digits(digits@));
        assert(out@ =~= old(out)@ + reversed_digits(digits@).subrange(0, 0));
    }
    while i > 0
        invariant
            i <= len,
            len == digits.len(),
            forall|j: int| 0 <= j < digits.len() ==> digits[j] < 10,
            out@ == old(out)@ + reversed_digits(digits@).subrange(0, len - i),
        decreases i,
    {
        i = i - 1;
        let ghost before = out@;
        out.append(digit_str(digits[i]));
        proof {
            let r = reversed_digits(digits@);
            assert(r[len - i - 1] == digit_char(digits[i as int] as nat));
            assert(r.subrange(0, len - i) =~= r.subrange(0, len - i - 1).push(r[len - i - 1]));
            assert(out@ =~= old(out)@ + r.subrange(0, len - i));
        }
    }
    proof {
        let r = reversed_digits(digits@);
        assert(r.subrange(0, len as int) =~= r);
    }
}

/// The decimal notation of `n` as a string of its own.
pub fn to_decimal(n: u128) -> (s: String)
    ensures
        s@ == decimal(n as nat),
{
    let mut s = String::new();
    push_decimal(&mut s, n);
    assert(Seq::<char>::empty() + decimal(n as nat) =~= decimal(n as nat));
    s
}

} // verus!
