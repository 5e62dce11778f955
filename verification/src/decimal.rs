//! Decimal text of integers, as it appears in window keys and in commands.

use vstd::prelude::*;

verus! {

/// The character that stands for the digit `d`.
pub open spec fn digit_char(d: int) -> char {
    if d == 0 {
        '0'
    } else if d == 1 {
        '1'
    } else if d == 2 {
        '2'
    } else if d == 3 {
        '3'
    } else if d == 4 {
        '4'
    } else if d == 5 {
        '5'
    } else if d == 6 {
        '6'
    } else if d == 7 {
        '7'
    } else if d == 8 {
        '8'
    } else {
        '9'
    }
}

/// The decimal digits of `n`, most significant first, without leading zeros.
pub open spec fn decimal_digits(n: nat) -> Seq<char>
    decreases n,
{
    if n < 10 {
        seq![digit_char(n as int)]
    } else {
        decimal_digits(n / 10).push(digit_char((n % 10) as int))
    }
}

/// The decimal text of `n`: its digits, after a minus sign where `n` is negative.
pub open spec fn decimal(n: int) -> Seq<char> {
    if n < 0 {
        seq!['-'] + decimal_digits((-n) as nat)
    } else {
        decimal_digits(n as nat)
    }
}

fn digit_str(d: u64) -> (s: &'static str)
    requires
        d < 10,
    ensures
        s@ == seq![digit_char(d as int)],
{
    proof {
        reveal_strlit("0");
        reveal_strlit("1");
        reveal_strlit("2");
        reveal_strlit("3");
        reveal_strlit("4");
        reveal_strlit("5");
        reveal_strlit("6");
        reveal_strlit("7");
        reveal_strlit("8");
        reveal_strlit("9");
    }
    let s: &'static str = if d == 0 {
        "0"
    } else if d == 1 {
        "1"
    } else if d == 2 {
        "2"
    } else if d == 3 {
        "3"
    } else if d == 4 {
        "4"
    } else if d == 5 {
        "5"
    } else if d == 6 {
        "6"
    } else if d == 7 {
        "7"
    } else if d == 8 {
        "8"
    } else {
        "9"
    };
    assert(s@ =~= seq![digit_char(d as int)]);
    s
}

/// Appends the decimal digits of `n` to `out`.
pub fn push_decimal(out: &mut String, n: u64)
    ensures
        final(out)@ == old(out)@ + decimal_digits(n as nat),
    decreases n,
{
    if n >= 10 {
        push_decimal(out, n / 10);
    }
    out.append(digit_str(n % 10));
    proof {
        let head = if n >= 10 {
            decimal_digits((n / 10) as nat)
        } else {
            Seq::<char>::empty()
        };
        assert(decimal_digits(n as nat) =~= head + seq![digit_char((n % 10) as int)]);
        assert(out@ =~= old(out)@ + decimal_digits(n as nat));
    }
}

/// The decimal text of an unsigned number.
pub fn unsigned_decimal(n: u64) -> (text: String)
    ensures
        text@ == decimal(n as int),
{
    let mut text = String::new();
    push_decimal(&mut text, n);
    assert(text@ =~= decimal(n as int));
    text
}

/// The decimal text of a signed number.
pub fn signed_decimal(n: i64) -> (text: String)
    ensures
        text@ == decimal(n as int),
{
    if n < 0 {
        let magnitude: u64 = (-(n + 1)) as u64 + 1;
        let mut text = String::from_str("-");
        proof {
            reveal_strlit("-");
        }
        push_decimal(&mut text, magnitude);
        assert(text@ =~= decimal(n as int));
        text
    } else {
        unsigned_decimal(n as u64)
    }
}

/// Whether `c` is one of the ten digit characters.
pub open spec fn is_digit(c: char) -> bool {
    exists|d: int| 0 <= d < 10 && c == #[trigger] digit_char(d)
}

/// Distinct digits have distinct characters, and none is the minus sign.
pub proof fn lemma_digit_char(a: int, b: int)
    requires
        0 <= a < 10,
        0 <= b < 10,
    ensures
        digit_char(a) == digit_char(b) ==> a == b,
        digit_char(a) != '-',
        is_digit(digit_char(a)),
{
}

/// The digits of a number are digit characters, at least one of them, and
/// at least two from ten on.
pub proof fn lemma_decimal_digits_shape(n: nat)
    ensures
        decimal_digits(n).len() >= 1,
        n >= 10 ==> decimal_digits(n).len() >= 2,
        forall|i: int| 0 <= i < decimal_digits(n).len() ==> is_digit(#[trigger] decimal_digits(n)[i]),
    decreases n,
{
    if n < 10 {
        lemma_digit_char(n as int, 0);
    } else {
        lemma_decimal_digits_shape(n / 10);
        lemma_digit_char((n % 10) as int, 0);
    }
}

/// Numbers with the same digits are the same number.
pub proof fn lemma_decimal_digits_injective(a: nat, b: nat)
    requires
        decimal_digits(a) == decimal_digits(b),
    ensures
        a == b,
    decreases a,
{
    lemma_decimal_digits_shape(a);
    lemma_decimal_digits_shape(b);
    if a < 10 {
        assert(b < 10);
        assert(decimal_digits(a)[0] == digit_char(a as int));
        assert(decimal_digits(b)[0] == digit_char(b as int));
        lemma_digit_char(a as int, b as int);
    } else {
        assert(b >= 10);
        let x = decimal_digits(a / 10);
        let y = decimal_digits(b / 10);
        assert(x == decimal_digits(a).drop_last());
        assert(y == decimal_digits(b).drop_last());
        assert(digit_char((a % 10) as int) == decimal_digits(a).last());
        assert(digit_char((b % 10) as int) == decimal_digits(b).last());
        lemma_decimal_digits_injective(a / 10, b / 10);
        lemma_digit_char((a % 10) as int, (b % 10) as int);
        assert(a / 10 == b / 10);
        assert(a % 10 == b % 10);
    }
}

/// The decimal text of a number is not empty; only a negative number's
/// begins with the minus sign, and every character after the first is a digit.
pub proof fn lemma_decimal_shape(n: int)
    ensures
        decimal(n).len() >= 1,
        (decimal(n)[0] == '-') == (n < 0),
        forall|i: int| 1 <= i < decimal(n).len() ==> is_digit(#[trigger] decimal(n)[i]),
{
    if n < 0 {
        lemma_decimal_digits_shape((-n) as nat);
        let digits = decimal_digits((-n) as nat);
        assert forall|i: int| 1 <= i < decimal(n).len() implies is_digit(
            #[trigger] decimal(n)[i],
        ) by {
            assert(decimal(n)[i] == digits[i - 1]);
        }
    } else {
        lemma_decimal_digits_shape(n as nat);
        let first = decimal_digits(n as nat)[0];
        assert(is_digit(first));
        let d = choose|d: int| 0 <= d < 10 && first == #[trigger] digit_char(d);
        lemma_digit_char(d, 0);
    }
}

/// Numbers with the same decimal text are the same number.
pub proof fn lemma_decimal_injective(a: int, b: int)
    requires
        decimal(a) == decimal(b),
    ensures
        a == b,
{
    lemma_decimal_shape(a);
    lemma_decimal_shape(b);
    if a < 0 {
        let x = decimal_digits((-a) as nat);
        let y = decimal_digits((-b) as nat);
        assert(x =~= decimal(a).skip(1));
        assert(y =~= decimal(b).skip(1));
        lemma_decimal_digits_injective((-a) as nat, (-b) as nat);
    } else {
        lemma_decimal_digits_injective(a as nat, b as nat);
    }
}

} // verus!
