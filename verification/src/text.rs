//! Numbers in log lines.

use vstd::prelude::*;
use vstd::string::*;

verus! {

/// The decimal digit for `d`.
pub open spec fn digit(d: int) -> char {
    if d == 0 {
        '0'
    } else if d == 1 {
        '1'
    } else if d == 2 {
        '2'
    } else if d == 3 {
        '3'
    } else if d == 4 {
        '4'
    } else if d == 5 {
        '5'
    } else if d == 6 {
        '6'
    } else if d == 7 {
        '7'
    } else if d == 8 {
        '8'
    } else {
        '9'
    }
}

/// A natural number in decimal, without leading zeros.
pub open spec fn decimal_nat(n: nat) -> Seq<char>
    decreases n,
{
    if n < 10 {
        seq![digit(n as int)]
    } else {
        decimal_nat(n / 10).push(digit((n % 10) as int))
    }
}

/// An integer in decimal: a minus sign if it is negative, no leading zeros.
pub open spec fn decimal(n: int) -> Seq<char> {
    if n < 0 {
        seq!['-'] + decimal_nat((-n) as nat)
    } else {
        decimal_nat(n as nat)
    }
}

fn digit_str(d: u64) -> (s: &'static str)
    requires
        d < 10,
    ensures
        s@ == seq![digit(d as int)],
{
    proof {
        reveal_strlit("0");
        reveal_strlit("1");
        reveal_strlit("2");
        reveal_strlit("3");
        reveal_strlit("4");
        reveal_strlit("5");
        reveal_strlit("6");
        reveal_strlit("7");
        reveal_strlit("8");
        reveal_strlit("9");
    }
    if d == 0 {
        "0"
    } else if d == 1 {
        "1"
    } else if d == 2 {
        "2"
    } else if d == 3 {
        "3"
    } else if d == 4 {
        "4"
    } else if d == 5 {
        "5"
    } else if d == 6 {
        "6"
    } else if d == 7 {
        "7"
    } else if d == 8 {
        "8"
    } else {
        "9"
    }
}

/// Appends a natural number in decimal.
pub fn push_u64(out: &mut String, n: u64)
    ensures
        final(out)@ == old(out)@ + decimal_nat(n as nat),
    decreases n,
{
    if n >= 10 {
        push_u64(out, n / 10);
    }
    out.append(digit_str(n % 10));
}

/// Appends an integer in decimal.
pub fn push_i32(out: &mut String, n: i32)
    ensures
        final(out)@ == old(out)@ + decimal(n as int),
{
    if n < 0 {
        out.append("-");
        push_u64(out, (-(n as i64)) as u64);
        proof {
            reveal_strlit("-");
        }
    } else {
        push_u64(out, n as u64);
    }
}

/// The number that a run of decimal digits stands for.
pub open spec fn value(digits: Seq<char>) -> nat
    decreases digits.len(),
{
    if digits.len() == 0 {
        0
    } else {
        10 * value(digits.drop_last()) + (digits.last() as nat - '0' as nat) as nat
    }
}

/// A number can be read back from its decimal form.
pub proof fn law_decimal_is_readable(n: nat)
    ensures
        value(decimal_nat(n)) == n,
    decreases n,
{
    if n >= 10 {
        law_decimal_is_readable(n / 10);
        assert(decimal_nat(n).drop_last() =~= decimal_nat(n / 10));
    } else {
        assert(decimal_nat(n).drop_last() =~= Seq::<char>::empty());
        assert(value(Seq::<char>::empty()) == 0);
    }
}

/// The digit for `d` is `d` places after the zero.
pub proof fn law_digits_are_in_order(d: int)
    requires
        0 <= d <= 9,
    ensures
        digit(d) as int == '0' as int + d,
{
}

/// Reading decimal digits from the left, ten times what is read so far plus the next
/// one, gives the number back. All are digits, and only zero begins with a zero.
pub proof fn law_decimal_digits_make_the_number(n: nat)
    ensures
        decimal_nat(n).fold_left(0int, |read: int, c: char| 10 * read + (c as int - '0' as int)) == n,
        decimal_nat(n).len() > 0,
        forall|i: int| 0 <= i < decimal_nat(n).len() ==> '0' <= #[trigger] decimal_nat(n)[i] <= '9',
        n > 0 ==> decimal_nat(n)[0] != '0',
        n == 0 ==> decimal_nat(n) == seq!['0'],
    decreases n,
{
    let read = |read: int, c: char| 10 * read + (c as int - '0' as int);
    let digits = decimal_nat(n);
    if n >= 10 {
        law_decimal_digits_make_the_number(n / 10);
        assert(digits.drop_last() =~= decimal_nat(n / 10));
        law_digits_are_in_order((n % 10) as int);
    } else {
        law_digits_are_in_order(n as int);
        assert(digits.drop_last() =~= Seq::<char>::empty());
        assert(digits.drop_last().fold_left(0int, read) == 0);
    }
}

/// A negative number is a minus sign and the digits of the number without it; any
/// other is its digits alone.
pub proof fn law_sign_comes_first(n: int)
    ensures
        n < 0 ==> decimal(n).len() > 1 && decimal(n)[0] == '-' && decimal(n).skip(1) == decimal(-n),
        n >= 0 ==> decimal(n) == decimal_nat(n as nat),
{
}

/// Different numbers never read the same.
pub proof fn law_decimals_differ(a: int, b: int)
    requires
        decimal(a) == decimal(b),
    ensures
        a == b,
{
    law_sign_comes_first(a);
    law_sign_comes_first(b);
    let x = if a < 0 {
        -a
    } else {
        a
    };
    let y = if b < 0 {
        -b
    } else {
        b
    };
    law_decimal_digits_make_the_number(x as nat);
    law_decimal_digits_make_the_number(y as nat);
    law_decimal_is_readable(x as nat);
    law_decimal_is_readable(y as nat);
    assert('0' as int > '-' as int);
    if a < 0 && b >= 0 {
        assert(decimal(b)[0] == decimal_nat(b as nat)[0]);
    } else if a >= 0 && b < 0 {
        assert(decimal(a)[0] == decimal_nat(a as nat)[0]);
    }
}

} // verus!
