//! Numbers in messages.

use vstd::prelude::*;
use vstd::string::StringExecFns;

verus! {

/// The character of a decimal digit.
pub open spec fn digit(d: int) -> Seq<char> {
    if d == 0 {
        "0"@
    } else if d == 1 {
        "1"@
    } else if d == 2 {
        "2"@
    } else if d == 3 {
        "3"@
    } else if d == 4 {
        "4"@
    } else if d == 5 {
        "5"@
    } else if d == 6 {
        "6"@
    } else if d == 7 {
        "7"@
    } else if d == 8 {
        "8"@
    } else {
        "9"@
    }
}

/// The decimal digits of a number, without leading zeros.
pub open spec fn decimal_digits(n: nat) -> Seq<char>
    decreases n,
{
    if n < 10 {
        digit(n as int)
    } else {
        decimal_digits(n / 10) + digit((n % 10) as int)
    }
}

/// Writes a number in decimal.
pub fn decimal(n: u64) -> (text: String)
    ensures
        text@ == decimal_digits(n as nat),
    decreases n,
{
    let last = match n % 10 {
        0 => "0",
        1 => "1",
        2 => "2",
        3 => "3",
        4 => "4",
        5 => "5",
        6 => "6",
        7 => "7",
        8 => "8",
        _ => "9",
    };
    if n < 10 {
        String::from_str(last)
    } else {
        decimal(n / 10).concat(last)
    }
}

/// The number that a text of decimal digits stands for.
pub open spec fn decimal_value(text: Seq<char>) -> int
    decreases text.len(),
{
    if text.len() == 0 {
        0
    } else {
        10 * decimal_value(text.drop_last()) + (text.last() as u32 - '0' as u32)
    }
}

proof fn lemma_digit(d: int)
    requires
        0 <= d < 10,
    ensures
        digit(d).len() == 1,
        '0' <= digit(d)[0] <= '9',
        digit(d)[0] as u32 - '0' as u32 == d,
{
    reveal_strlit("0");
    reveal_strlit("1");
    reveal_strlit("2");
    reveal_strlit("3");
    reveal_strlit("4");
    reveal_strlit("5");
    reveal_strlit("6");
    reveal_strlit("7");
    reveal_strlit("8");
    reveal_strlit("9");
}

proof fn lemma_decimal_digits(n: nat)
    ensures
        decimal_digits(n).len() > 0,
        forall|i: int|
            0 <= i < decimal_digits(n).len() ==> '0' <= (#[trigger] decimal_digits(n)[i]) <= '9',
        decimal_value(decimal_digits(n)) == n,
        n > 0 ==> decimal_digits(n)[0] != '0',
    decreases n,
{
    let text = decimal_digits(n);
    if n < 10 {
        lemma_digit(n as int);
        assert(text.drop_last() =~= Seq::empty());
        reveal_with_fuel(decimal_value, 2);
    } else {
        let rest = decimal_digits(n / 10);
        lemma_decimal_digits(n / 10);
        lemma_digit((n % 10) as int);
        assert(text.drop_last() =~= rest);
        assert(text[0] == rest[0]);
        assert forall|i: int| 0 <= i < text.len() implies '0' <= (#[trigger] text[i]) <= '9' by {
            if i < rest.len() {
                assert(text[i] == rest[i]);
            }
        }
    }
}

/// A number is written with decimal digits that stand for it, without leading zeros.
pub proof fn law_decimal_stands_for_the_number(n: u64, text: String)
    requires
        call_ensures(decimal, (n,), text),
    ensures
        call_requires(decimal, (n,)),
        text@.len() > 0,
        forall|i: int| 0 <= i < text@.len() ==> '0' <= (#[trigger] text@[i]) <= '9',
        decimal_value(text@) == n,
        text@[0] == '0' ==> n == 0 && text@.len() == 1,
{
    lemma_decimal_digits(n as nat);
    if n == 0 {
        lemma_digit(0);
    }
}

} // verus!
