//! Numbers in decimal notation, as they stand in chapter numbers and file
//! names.

use vstd::prelude::*;

verus! {

/// The character of one decimal digit.
pub open spec fn digit_char(d: nat) -> char
    recommends
        d < 10,
{
    (48 + d) as char
}

/// The decimal notation of a natural number, without sign or leading zeros.
pub open spec fn decimal(n: nat) -> Seq<char>
    decreases n,
{
    if n < 10 {
        seq![digit_char(n)]
    } else {
        decimal(n / 10).push(digit_char(n % 10))
    }
}

/// The decimal notation filled up with leading zeros to at least three digits.
pub open spec fn decimal3(n: nat) -> Seq<char> {
    if n < 10 {
        seq!['0', '0'] + decimal(n)
    } else if n < 100 {
        seq!['0'] + decimal(n)
    } else {
        decimal(n)
    }
}

/// How long a decimal notation is: one digit below ten, two below a
/// hundred, three or more from there on.
pub(crate) proof fn lemma_decimal_len(n: nat)
    ensures
        decimal(n).len() >= 1,
        n < 10 ==> decimal(n).len() == 1,
        10 <= n < 100 ==> decimal(n).len() == 2,
        n >= 100 ==> decimal(n).len() >= 3,
    decreases n,
{
    if n >= 10 {
        lemma_decimal_len(n / 10);
    }
}

/// The decimal notation of a number other than zero does not begin with `0`.
pub(crate) proof fn lemma_decimal_leading(n: nat)
    requires
        n >= 1,
    ensures
        decimal(n)[0] != '0',
    decreases n,
{
    if n >= 10 {
        lemma_decimal_len(n / 10);
        lemma_decimal_leading(n / 10);
    }
}

/// Different numbers have different decimal notations.
pub proof fn lemma_decimal_injective(a: nat, b: nat)
    requires
        decimal(a) == decimal(b),
    ensures
        a == b,
    decreases a,
{
    lemma_decimal_len(a);
    lemma_decimal_len(b);
    if a < 10 || b < 10 {
        // Notations of different lengths differ, and one digit tells its number.
        assert(decimal(a)[0] == digit_char(a));
        assert(decimal(b)[0] == digit_char(b));
        assert(digit_char(a) as int == 48 + a);
        assert(digit_char(b) as int == 48 + b);
    } else {
        // The last digits agree, and so do the notations before them.
        assert(decimal(a).drop_last() =~= decimal(a / 10));
        assert(decimal(b).drop_last() =~= decimal(b / 10));
        assert(decimal(a).last() == digit_char(a % 10));
        assert(decimal(b).last() == digit_char(b % 10));
        assert(digit_char(a % 10) as int == 48 + a % 10);
        assert(digit_char(b % 10) as int == 48 + b % 10);
        lemma_decimal_injective(a / 10, b / 10);
    }
}

/// Different numbers have different notations of three digits or more.
pub proof fn lemma_decimal3_injective(a: nat, b: nat)
    requires
        decimal3(a) == decimal3(b),
    ensures
        a == b,
{
    lemma_decimal_len(a);
    lemma_decimal_len(b);
    lemma_decimal3_head(a);
    lemma_decimal3_head(b);
    let x = decimal3(a);
    let y = decimal3(b);
    assert(x[0] == y[0]);
    assert(x[1] == y[1]);
    if a < 10 && b < 10 {
        assert(x.skip(2) =~= decimal(a));
        assert(y.skip(2) =~= decimal(b));
        lemma_decimal_injective(a, b);
    } else if a < 100 && b < 100 && a >= 10 && b >= 10 {
        assert(x.skip(1) =~= decimal(a));
        assert(y.skip(1) =~= decimal(b));
        lemma_decimal_injective(a, b);
    } else if a >= 100 && b >= 100 {
        lemma_decimal_injective(a, b);
    }
}

/// How a notation of three digits or more begins: with `00` below ten,
/// with `0` and another digit below a hundred, with another digit from
/// there on.
pub(crate) proof fn lemma_decimal3_head(n: nat)
    ensures
        decimal3(n).len() >= 3,
        n < 10 ==> decimal3(n)[0] == '0' && decimal3(n)[1] == '0',
        10 <= n < 100 ==> decimal3(n)[0] == '0' && decimal3(n)[1] != '0',
        n >= 100 ==> decimal3(n)[0] != '0',
{
    lemma_decimal_len(n);
    if n >= 10 {
        lemma_decimal_leading(n);
    }
    if n < 10 {
        assert(decimal3(n) =~= seq!['0', '0'] + decimal(n));
    } else if n < 100 {
        assert(decimal3(n)[1] == decimal(n)[0]);
    }
}

/// Appends the decimal notation of `n`.
pub fn push_decimal(out: &mut String, n: usize)
    ensures
        final(out)@ == old(out)@ + decimal(n as nat),
    decreases n,
{
    if n >= 10 {
        push_decimal(out, n / 10);
    }
    let d: u8 = (n % 10) as u8;
    out.push((48u8 + d) as char);
    assert(final(out)@ =~= old(out)@ + decimal(n as nat));
}

/// Appends `n` in decimal, zero-padded to three digits.
pub fn push_decimal3(out: &mut String, n: usize)
    ensures
        final(out)@ == old(out)@ + decimal3(n as nat),
{
    if n < 10 {
        out.push('0');
        out.push('0');
    } else if n < 100 {
        out.push('0');
    }
    push_decimal(out, n);
    assert(final(out)@ =~= old(out)@ + decimal3(n as nat));
}

} // verus!
