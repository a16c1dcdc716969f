//! Decimal text of unsigned integers.

use vstd::arithmetic::power::pow;
use vstd::prelude::*;
use vstd::string::*;

verus! {

/// The decimal digit `d`.
pub open spec fn digit(d: nat) -> char {
    (d + 48) as char
}

/// The shortest decimal writing of `n`.
pub open spec fn decimal(n: nat) -> Seq<char>
    decreases n,
{
    if n < 10 {
        seq![digit(n)]
    } else {
        decimal(n / 10).push(digit(n % 10))
    }
}

/// The number that a sequence of decimal digits writes.
pub open spec fn decimal_value(s: Seq<char>) -> nat
    decreases s.len(),
{
    if s.len() == 0 {
        0
    } else {
        (10 * decimal_value(s.drop_last()) + (s.last() as int - 48)) as nat
    }
}

/// Reading the decimal writing of a number gives the number back, so two
/// different numbers never share a writing.
pub proof fn law_decimal_reads_back(n: nat)
    ensures
        decimal_value(decimal(n)) == n,
    decreases n,
{
    if n < 10 {
        assert(decimal(n).drop_last() =~= Seq::<char>::empty());
        assert(decimal_value(decimal(n).drop_last()) == 0);
    } else {
        law_decimal_reads_back(n / 10);
        assert(decimal(n).drop_last() =~= decimal(n / 10));
    }
}

/// Every character of the writing of a number is one of `0` to `9`, there is at
/// least one, and only zero starts with `0`.
pub proof fn law_decimal_has_digits_only(n: nat)
    ensures
        decimal(n).len() >= 1,
        forall|i: int| 0 <= i < decimal(n).len() ==> '0' <= #[trigger] decimal(n)[i] <= '9',
        n > 0 ==> decimal(n)[0] != '0',
    decreases n,
{
    if n >= 10 {
        law_decimal_has_digits_only(n / 10);
    }
}

/// A number below ten is written with one character, counted from `0`.
pub proof fn law_decimal_of_one_digit(d: nat)
    requires
        d < 10,
    ensures
        decimal(d).len() == 1,
        decimal(d)[0] as int == '0' as int + d,
        digit(d) as int == '0' as int + d,
{
}

/// Ten times a number, and a digit more, is written like the number, and then
/// the digit.
pub proof fn law_decimal_of_more_digits(n: nat, d: nat)
    requires
        n > 0,
        d < 10,
    ensures
        decimal(10 * n + d) == decimal(n) + decimal(d),
{
    assert((10 * n + d) / 10 == n);
    assert((10 * n + d) % 10 == d);
    assert(decimal(10 * n + d) =~= decimal(n) + decimal(d));
}

/// Nothing written is zero, and with one digit more behind it a writing stands
/// for ten times its number and the digit.
pub proof fn law_value_of_more_digits(s: Seq<char>, c: char)
    requires
        '0' <= c <= '9',
    ensures
        decimal_value(Seq::<char>::empty()) == 0,
        decimal_value(s.push(c)) == 10 * decimal_value(s) + (c as int - '0' as int),
{
    assert(s.push(c).drop_last() =~= s);
}

/// A writing that has digits only, and no needless `0` in front, is the writing
/// of the number that it stands for.
pub proof fn law_decimal_writes_back(s: Seq<char>)
    requires
        s.len() >= 1,
        forall|i: int| 0 <= i < s.len() ==> '0' <= #[trigger] s[i] <= '9',
        s.len() > 1 ==> s[0] != '0',
    ensures
        decimal(decimal_value(s)) == s,
    decreases s.len(),
{
    let before = s.drop_last();
    let d = (s.last() as int - 48) as nat;
    assert('0' <= s[s.len() - 1] <= '9');
    if s.len() == 1 {
        assert(decimal_value(before) == 0);
        assert(decimal(decimal_value(s)) =~= s);
    } else {
        assert forall|i: int| 0 <= i < before.len() implies '0' <= #[trigger] before[i] <= '9' by {
            assert(before[i] == s[i]);
        }
        law_decimal_writes_back(before);
        assert(decimal_value(before) > 0) by {
            if decimal_value(before) == 0 {
                assert(before[0] == decimal(0)[0]);
                assert(s[0] == '0');
            }
        }
        let n = decimal_value(before);
        assert(decimal_value(s) == 10 * n + d);
        assert((10 * n + d) / 10 == n);
        assert((10 * n + d) % 10 == d);
        assert(decimal(decimal_value(s)) =~= s);
    }
}

/// The text of one decimal digit.
fn digit_text(d: u64) -> (res: &'static str)
    requires
        d < 10,
    ensures
        res@ == seq![digit(d as nat)],
{
    proof {
        reveal_strlit("0");
        reveal_strlit("1");
        reveal_strlit("2");
        reveal_strlit("3");
        reveal_strlit("4");
        reveal_strlit("5");
        reveal_strlit("6");
        reveal_strlit("7");
        reveal_strlit("8");
        reveal_strlit("9");
    }
    match d {
        0 => "0",
        1 => "1",
        2 => "2",
        3 => "3",
        4 => "4",
        5 => "5",
        6 => "6",
        7 => "7",
        8 => "8",
        _ => "9",
    }
}

/// Appends the decimal writing of `n` to `out`.
pub fn push_decimal(out: &mut String, n: u64)
    ensures
        final(out)@ == old(out)@ + decimal(n as nat),
    decreases n,
{
    if n < 10 {
        out.append(digit_text(n));
    } else {
        push_decimal(out, n / 10);
        out.append(digit_text(n % 10));
    }
    assert(out@ =~= old(out)@ + decimal(n as nat));
}

/// A number of 64 bits is written with at most twenty digits.
pub proof fn law_decimal_of_64_bits_is_short(n: u64)
    ensures
        decimal(n as nat).len() <= 20,
{
    reveal_with_fuel(pow, 21);
    lemma_decimal_len(n as nat, 20);
}

/// A number below `10^len` is written with at most `len` digits.
proof fn lemma_decimal_len(n: nat, len: nat)
    requires
        len >= 1,
        n < pow(10, len),
    ensures
        decimal(n).len() <= len,
    decreases len,
{
    reveal(pow);
    if n >= 10 {
        if len == 1 {
            assert(pow(10, 0) == 1);
        } else {
            lemma_decimal_len(n / 10, (len - 1) as nat);
        }
    }
}

} // verus!
