//! Decimal numbers of any length, kept as the digits that were written.

use vstd::prelude::*;
use crate::order::{compare_int, Order};
use crate::text::{all_in, CharClass};

verus! {

/// The number that the digit `c` stands for.
pub open spec fn digit_value(c: char) -> nat {
    (c as int - '0' as int) as nat
}

/// The number that the decimal digits `d` write; leading zeros do not count.
pub open spec fn number_value(d: Seq<char>) -> nat
    decreases d.len(),
{
    if d.len() == 0 {
        0
    } else {
        number_value(d.drop_last()) * 10 + digit_value(d.last())
    }
}

/// Ten to the power `n`.
pub open spec fn pow10(n: nat) -> nat
    decreases n,
{
    if n == 0 {
        1
    } else {
        10 * pow10((n - 1) as nat)
    }
}

proof fn lemma_pow10_monotone(m: nat, n: nat)
    requires
        m <= n,
    ensures
        pow10(m) <= pow10(n),
    decreases n,
{
    if m < n {
        lemma_pow10_monotone(m, (n - 1) as nat);
    }
}

/// A number of `n` digits is below ten to the `n`.
proof fn lemma_value_below(d: Seq<char>)
    requires
        all_in(d, CharClass::Digit),
    ensures
        number_value(d) < pow10(d.len()),
    decreases d.len(),
{
    if d.len() > 0 {
        let init = d.drop_last();
        assert forall|i: int| 0 <= i < init.len() implies CharClass::Digit.has(
            #[trigger] init[i],
        ) by {
            assert(init[i] == d[i]);
        }
        lemma_value_below(init);
        assert(CharClass::Digit.has(d[d.len() - 1]));
    }
}

/// A number of `n` digits that starts with a digit other than `0` is at least ten
/// to the `n - 1`.
proof fn lemma_value_at_least(d: Seq<char>)
    requires
        all_in(d, CharClass::Digit),
        d.len() > 0,
        d[0] != '0',
    ensures
        number_value(d) >= pow10((d.len() - 1) as nat),
    decreases d.len(),
{
    let init = d.drop_last();
    assert(CharClass::Digit.has(d[d.len() - 1]));
    assert(CharClass::Digit.has(d[0]));
    if d.len() == 1 {
        assert(init.len() == 0);
        assert(number_value(init) == 0);
    } else {
        assert forall|i: int| 0 <= i < init.len() implies CharClass::Digit.has(
            #[trigger] init[i],
        ) by {
            assert(init[i] == d[i]);
        }
        assert(init[0] == d[0]);
        lemma_value_at_least(init);
    }
}

/// A leading `0` does not change the number.
proof fn lemma_leading_zero(d: Seq<char>)
    requires
        d.len() > 0,
        d[0] == '0',
    ensures
        number_value(d) == number_value(d.drop_first()),
    decreases d.len(),
{
    if d.len() == 1 {
        assert(number_value(d.drop_last()) == 0);
        assert(d.drop_first().len() == 0);
    } else {
        let init = d.drop_last();
        assert(init[0] == d[0]);
        lemma_leading_zero(init);
        assert(d.drop_first().drop_last() == init.drop_first());
        assert(d.drop_first().last() == d.last());
    }
}

/// Of two numbers of equal length, the one with the smaller digit at the first
/// difference is the smaller.
proof fn lemma_first_difference(a: Seq<char>, b: Seq<char>, k: int)
    requires
        all_in(a, CharClass::Digit),
        all_in(b, CharClass::Digit),
        a.len() == b.len(),
        0 <= k < a.len(),
        a.subrange(0, k) == b.subrange(0, k),
        a[k] < b[k],
    ensures
        number_value(a) < number_value(b),
    decreases a.len(),
{
    let initial_a = a.drop_last();
    let initial_b = b.drop_last();
    assert(CharClass::Digit.has(a[a.len() - 1]));
    assert(CharClass::Digit.has(b[b.len() - 1]));
    assert(CharClass::Digit.has(a[k]));
    assert(CharClass::Digit.has(b[k]));
    if k == a.len() - 1 {
        assert(initial_a == a.subrange(0, k));
        assert(initial_b == b.subrange(0, k));
    } else {
        assert forall|i: int| 0 <= i < initial_a.len() implies CharClass::Digit.has(#[trigger] initial_a[i]) by {
            assert(initial_a[i] == a[i]);
        }
        assert forall|i: int| 0 <= i < initial_b.len() implies CharClass::Digit.has(#[trigger] initial_b[i]) by {
            assert(initial_b[i] == b[i]);
        }
        assert(initial_a.subrange(0, k) == a.subrange(0, k));
        assert(initial_b.subrange(0, k) == b.subrange(0, k));
        lemma_first_difference(initial_a, initial_b, k);
    }
}

/// The number of leading zeros of `d`.
fn leading_zeros(d: &[char]) -> (n: usize)
    ensures
        n <= d@.len(),
        number_value(d@) == number_value(d@.skip(n as int)),
        n < d@.len() ==> d@[n as int] != '0',
{
    let mut n: usize = 0;
    assert(d@.skip(0) == d@);
    while n < d.len() && d[n] == '0'
        invariant
            n <= d@.len(),
            number_value(d@) == number_value(d@.skip(n as int)),
        decreases d@.len() - n,
    {
        proof {
            lemma_leading_zero(d@.skip(n as int));
            assert(d@.skip(n as int).drop_first() == d@.skip(n as int + 1));
        }
        n += 1;
    }
    n
}

/// Compares two numbers by value, whatever their length.
pub fn compare_numbers(a: &[char], b: &[char]) -> (o: Order)
    requires
        all_in(a@, CharClass::Digit),
        all_in(b@, CharClass::Digit),
    ensures
        o == compare_int(number_value(a@) as int, number_value(b@) as int),
{
    let i = leading_zeros(a);
    let j = leading_zeros(b);
    let la = a.len() - i;
    let lb = b.len() - j;
    let ghost x = a@.skip(i as int);
    let ghost y = b@.skip(j as int);
    proof {
        assert forall|k: int| 0 <= k < x.len() implies CharClass::Digit.has(#[trigger] x[k]) by {
            assert(x[k] == a@[i + k]);
        }
        assert forall|k: int| 0 <= k < y.len() implies CharClass::Digit.has(#[trigger] y[k]) by {
            assert(y[k] == b@[j + k]);
        }
        lemma_value_below(x);
        lemma_value_below(y);
    }
    if la < lb {
        proof {
            lemma_value_at_least(y);
            lemma_pow10_monotone(la as nat, (lb - 1) as nat);
        }
        return Order::Less;
    }
    if la > lb {
        proof {
            lemma_value_at_least(x);
            lemma_pow10_monotone(lb as nat, (la - 1) as nat);
        }
        return Order::Greater;
    }
    let mut k: usize = 0;
    while k < la
        invariant
            k <= la,
            la == lb,
            la == x.len(),
            lb == y.len(),
            i + la == a.len(),
            j + lb == b.len(),
            number_value(a@) == number_value(x),
            number_value(b@) == number_value(y),
            x == a@.skip(i as int),
            y == b@.skip(j as int),
            all_in(x, CharClass::Digit),
            all_in(y, CharClass::Digit),
            x.subrange(0, k as int) == y.subrange(0, k as int),
        decreases la - k,
    {
        let ca = a[i + k];
        let cb = b[j + k];
        if ca < cb {
            proof {
                lemma_first_difference(x, y, k as int);
            }
            return Order::Less;
        }
        if ca > cb {
            proof {
                lemma_first_difference(y, x, k as int);
            }
            return Order::Greater;
        }
        assert(x.subrange(0, k as int + 1) == x.subrange(0, k as int).push(x[k as int]));
        assert(y.subrange(0, k as int + 1) == y.subrange(0, k as int).push(y[k as int]));
        k += 1;
    }
    assert(x == x.subrange(0, la as int));
    assert(y == y.subrange(0, lb as int));
    Order::Equal
}

/// The digit that writes `d`, a number below ten.
pub open spec fn digit_char(d: nat) -> char {
    if d == 0 {
        '0'
    } else if d == 1 {
        '1'
    } else if d == 2 {
        '2'
    } else if d == 3 {
        '3'
    } else if d == 4 {
        '4'
    } else if d == 5 {
        '5'
    } else if d == 6 {
        '6'
    } else if d == 7 {
        '7'
    } else if d == 8 {
        '8'
    } else {
        '9'
    }
}

/// The decimal digits that write `n`, without leading zeros.
pub open spec fn decimal(n: nat) -> Seq<char>
    decreases n,
{
    if n < 10 {
        seq![digit_char(n)]
    } else {
        decimal(n / 10).push(digit_char(n % 10))
    }
}

/// The digits of `n` are a number, and the number they write is `n`.
pub proof fn lemma_decimal_value(n: nat)
    ensures
        decimal(n).len() > 0,
        all_in(decimal(n), CharClass::Digit),
        number_value(decimal(n)) == n,
    decreases n,
{
    if n < 10 {
        let d = decimal(n);
        assert(d.drop_last().len() == 0);
        assert(number_value(d.drop_last()) == 0);
        assert(d.last() == digit_char(n));
    } else {
        lemma_decimal_value(n / 10);
        let d = decimal(n);
        assert(d.drop_last() =~= decimal(n / 10));
        assert(d.last() == digit_char(n % 10));
        assert forall|i: int| 0 <= i < d.len() implies CharClass::Digit.has(#[trigger] d[i]) by {
            if i < d.len() - 1 {
                assert(d[i] == decimal(n / 10)[i]);
            }
        }
    }
}

/// The decimal digits that write `n`.
pub fn decimal_of(n: usize) -> (out: Vec<char>)
    ensures
        out@ == decimal(n as nat),
    decreases n,
{
    let mut out = if n < 10 {
        Vec::new()
    } else {
        decimal_of(n / 10)
    };
    let d = n % 10;
    let c = if d == 0 {
        '0'
    } else if d == 1 {
        '1'
    } else if d == 2 {
        '2'
    } else if d == 3 {
        '3'
    } else if d == 4 {
        '4'
    } else if d == 5 {
        '5'
    } else if d == 6 {
        '6'
    } else if d == 7 {
        '7'
    } else if d == 8 {
        '8'
    } else {
        '9'
    };
    out.push(c);
    assert(n < 10 ==> out@ =~= seq![digit_char(n as nat)]);
    out
}

} // verus!
