//! Decimal digit strings read as the numbers they spell, and compared as
//! numbers rather than as text, so `10` comes after `2`.

use vstd::prelude::*;

use crate::order::TextOrder;

verus! {

pub open spec fn is_digit(c: char) -> bool {
    '0' <= c && c <= '9'
}

pub open spec fn all_digits(s: Seq<char>) -> bool {
    forall|i: int| 0 <= i < s.len() ==> #[trigger] is_digit(s[i])
}

pub open spec fn digit_value(c: char) -> nat {
    ((c as int) - ('0' as int)) as nat
}

/// The number a string of decimal digits spells, most significant first;
/// 0 for the empty string.
pub open spec fn number(s: Seq<char>) -> nat
    decreases s.len(),
{
    if s.len() == 0 {
        0
    } else {
        10 * number(s.drop_last()) + digit_value(s.last())
    }
}

/// Ten to the power `n`.
pub open spec fn p10(n: nat) -> nat
    decreases n,
{
    if n == 0 {
        1
    } else {
        10 * p10((n - 1) as nat)
    }
}

proof fn lemma_p10_grows(a: nat, b: nat)
    requires
        a <= b,
    ensures
        1 <= p10(a) <= p10(b),
    decreases b,
{
    if b > 0 {
        let a2 = if a < b {
            a
        } else {
            (b - 1) as nat
        };
        lemma_p10_grows(a2, (b - 1) as nat);
    }
}

proof fn lemma_digits_prefix(s: Seq<char>, i: int, j: int)
    requires
        all_digits(s),
        0 <= i <= j <= s.len(),
    ensures
        all_digits(s.subrange(i, j)),
{
    assert forall|k: int| 0 <= k < j - i implies #[trigger] is_digit(s.subrange(i, j)[k]) by {
        assert(s.subrange(i, j)[k] == s[i + k]);
    }
}

/// A string of digits spells less than ten to the power of its length, and
/// at least ten to one less when it does not start with `0`.
proof fn lemma_number_bounds(s: Seq<char>)
    requires
        all_digits(s),
    ensures
        number(s) < p10(s.len()),
        s.len() > 0 && s[0] != '0' ==> number(s) >= p10((s.len() - 1) as nat),
    decreases s.len(),
{
    if s.len() > 0 {
        let t = s.drop_last();
        lemma_digits_prefix(s, 0, s.len() - 1);
        assert(t =~= s.subrange(0, s.len() - 1));
        lemma_number_bounds(t);
        assert(is_digit(s[s.len() - 1]));
        assert(digit_value(s.last()) <= 9);
        if s.len() > 1 && s[0] != '0' {
            assert(t[0] == s[0]);
        }
        if s.len() == 1 && s[0] != '0' {
            assert(s.last() == s[0]);
        }
    }
}

/// Leading zeros do not change the number.
proof fn lemma_number_zeros(z: Seq<char>, s: Seq<char>)
    requires
        forall|i: int| 0 <= i < z.len() ==> #[trigger] z[i] == '0',
    ensures
        number(z + s) == number(s),
    decreases s.len() + z.len(),
{
    if s.len() == 0 {
        assert(z + s =~= z);
        if z.len() > 0 {
            let t = z.drop_last();
            lemma_number_zeros(t, s);
            assert(t + s =~= t);
            assert(z.last() == z[z.len() - 1]);
        }
    } else {
        lemma_number_zeros(z, s.drop_last());
        assert((z + s).drop_last() =~= z + s.drop_last());
        assert((z + s).last() == s.last());
    }
}

/// Splitting a digit string: the front counts in units of ten to the length
/// of the back.
proof fn lemma_number_split(x: Seq<char>, y: Seq<char>)
    ensures
        number(x + y) == number(x) * p10(y.len()) + number(y),
    decreases y.len(),
{
    if y.len() == 0 {
        assert(x + y =~= x);
        assert(p10(y.len()) == 1);
        assert(number(x) * 1 == number(x));
    } else {
        let t = y.drop_last();
        lemma_number_split(x, t);
        assert((x + y).drop_last() =~= x + t);
        assert((x + y).last() == y.last());
        let a = number(x);
        let p = p10(t.len());
        let n = number(t);
        assert(p10(y.len()) == 10 * p);
        assert(number(y) == 10 * n + digit_value(y.last()));
        assert(number(x + y) == 10 * (a * p + n) + digit_value(y.last()));
        assert(10 * (a * p + n) == a * (10 * p) + 10 * n) by (nonlinear_arith);
        assert(a * p10(y.len()) == a * (10 * p));
        assert(number(x + y) == a * p10(y.len()) + number(y));
    }
}

/// Two digit strings of one length that agree before `i` and differ at `i`
/// compare as numbers the way their digits at `i` do.
proof fn lemma_number_first_difference(a: Seq<char>, b: Seq<char>, i: int)
    requires
        all_digits(a),
        all_digits(b),
        a.len() == b.len(),
        0 <= i < a.len(),
        a.subrange(0, i) == b.subrange(0, i),
        (a[i] as int) < (b[i] as int),
    ensures
        number(a) < number(b),
{
    let a1 = a.subrange(0, i + 1);
    let b1 = b.subrange(0, i + 1);
    let a2 = a.subrange(i + 1, a.len() as int);
    let b2 = b.subrange(i + 1, b.len() as int);
    assert(a =~= a1 + a2);
    assert(b =~= b1 + b2);
    lemma_number_split(a1, a2);
    lemma_number_split(b1, b2);
    lemma_digits_prefix(a, i + 1, a.len() as int);
    lemma_number_bounds(a2);
    assert(a1.drop_last() =~= a.subrange(0, i));
    assert(b1.drop_last() =~= b.subrange(0, i));
    assert(a1.last() == a[i] && b1.last() == b[i]);
    assert(is_digit(a[i]) && is_digit(b[i]));
    assert(digit_value(a[i]) < digit_value(b[i]));
    assert(number(a1) == 10 * number(a1.drop_last()) + digit_value(a1.last()));
    assert(number(b1) == 10 * number(b1.drop_last()) + digit_value(b1.last()));
    let x = number(a1);
    let y = number(b1);
    assert(x < y);
    let p = p10(a2.len());
    assert(b2.len() == a2.len());
    let r = number(a2);
    let q = number(b2);
    assert(x * p + r < y * p + q) by (nonlinear_arith)
        requires
            x + 1 <= y,
            r < p,
            0 <= q,
    ;
}

/// Where the leading zeros of `chars[from..to]` end.
fn skip_zeros(chars: &Vec<char>, from: usize, to: usize) -> (start: usize)
    requires
        from <= to <= chars.len(),
    ensures
        from <= start <= to,
        forall|i: int| from <= i < start ==> chars@[i] == '0',
        start < to ==> chars@[start as int] != '0',
{
    let mut i = from;
    while i < to && chars[i] == '0'
        invariant
            from <= i <= to <= chars.len(),
            forall|j: int| from <= j < i ==> chars@[j] == '0',
        decreases to - i,
    {
        i = i + 1;
    }
    i
}

/// Compares `a[af..at]` with `b[bf..bt]`, both decimal digits, as numbers.
pub fn compare_numbers(a: &Vec<char>, af: usize, at: usize, b: &Vec<char>, bf: usize, bt: usize) -> (order:
    TextOrder)
    requires
        af <= at <= a.len(),
        bf <= bt <= b.len(),
        all_digits(a@.subrange(af as int, at as int)),
        all_digits(b@.subrange(bf as int, bt as int)),
    ensures
        order == TextOrder::Less <==> number(a@.subrange(af as int, at as int)) < number(
            b@.subrange(bf as int, bt as int),
        ),
        order == TextOrder::Equal <==> number(a@.subrange(af as int, at as int)) == number(
            b@.subrange(bf as int, bt as int),
        ),
        order == TextOrder::Greater <==> number(a@.subrange(af as int, at as int)) > number(
            b@.subrange(bf as int, bt as int),
        ),
{
    let sa = skip_zeros(a, af, at);
    let sb = skip_zeros(b, bf, bt);
    let ghost x = a@.subrange(sa as int, at as int);
    let ghost y = b@.subrange(sb as int, bt as int);
    proof {
        let za = a@.subrange(af as int, sa as int);
        let zb = b@.subrange(bf as int, sb as int);
        assert(a@.subrange(af as int, at as int) =~= za + x);
        assert(b@.subrange(bf as int, bt as int) =~= zb + y);
        assert forall|i: int| 0 <= i < za.len() implies #[trigger] za[i] == '0' by {
            assert(za[i] == a@[af + i]);
        }
        assert forall|i: int| 0 <= i < zb.len() implies #[trigger] zb[i] == '0' by {
            assert(zb[i] == b@[bf + i]);
        }
        lemma_number_zeros(za, x);
        lemma_number_zeros(zb, y);
        lemma_digits_prefix(a@.subrange(af as int, at as int), sa - af, at - af);
        lemma_digits_prefix(b@.subrange(bf as int, bt as int), sb - bf, bt - bf);
        assert(a@.subrange(af as int, at as int).subrange(sa - af, at - af) =~= x);
        assert(b@.subrange(bf as int, bt as int).subrange(sb - bf, bt - bf) =~= y);
        lemma_number_bounds(x);
        lemma_number_bounds(y);
        if x.len() > 0 {
            assert(x[0] == a@[sa as int]);
        }
        if y.len() > 0 {
            assert(y[0] == b@[sb as int]);
        }
    }
    let la = at - sa;
    let lb = bt - sb;
    if la < lb {
        proof {
            lemma_p10_grows(la as nat, (lb - 1) as nat);
        }
        return TextOrder::Less;
    }
    if la > lb {
        proof {
            lemma_p10_grows(lb as nat, (la - 1) as nat);
        }
        return TextOrder::Greater;
    }
    let mut j: usize = 0;
    while j < la
        invariant
            la == lb,
            la == x.len(),
            lb == y.len(),
            sa + la <= a.len(),
            sb + lb <= b.len(),
            x == a@.subrange(sa as int, at as int),
            y == b@.subrange(sb as int, bt as int),
            at == sa + la,
            bt == sb + lb,
            all_digits(x),
            all_digits(y),
            j <= la,
            x.subrange(0, j as int) == y.subrange(0, j as int),
            number(a@.subrange(af as int, at as int)) == number(x),
            number(b@.subrange(bf as int, bt as int)) == number(y),
        decreases la - j,
    {
        let c = a[sa + j];
        let d = b[sb + j];
        assert(x[j as int] == c && y[j as int] == d);
        if c < d {
            proof {
                lemma_number_first_difference(x, y, j as int);
            }
            return TextOrder::Less;
        }
        if c > d {
            proof {
                lemma_number_first_difference(y, x, j as int);
            }
            return TextOrder::Greater;
        }
        assert(x.subrange(0, j + 1) =~= x.subrange(0, j as int).push(c));
        assert(y.subrange(0, j + 1) =~= y.subrange(0, j as int).push(d));
        j = j + 1;
    }
    assert(x =~= x.subrange(0, j as int));
    assert(y =~= y.subrange(0, j as int));
    TextOrder::Equal
}

} // verus!
