//! Decimal notation: the digits of a number, and the number that digits stand for.

use vstd::prelude::*;

verus! {

/// Ten to the power `k`.
pub open spec fn pow10(k: nat) -> nat
    decreases k,
{
    if k == 0 {
        1
    } else {
        10 * pow10((k - 1) as nat)
    }
}

/// The digit for `d`, which is below ten.
pub open spec fn digit(d: nat) -> char {
    (48 + d) as char
}

/// Is `c` one of `0` to `9`?
pub open spec fn is_digit(c: char) -> bool {
    '0' <= c <= '9'
}

/// What the digit `c` stands for.
pub open spec fn digit_value(c: char) -> nat {
    (c as nat - 48) as nat
}

/// The digits of `n`, without leading zeros; `0` for zero.
pub open spec fn decimal(n: nat) -> Seq<char>
    decreases n,
{
    if n < 10 {
        seq![digit(n)]
    } else {
        decimal(n / 10).push(digit(n % 10))
    }
}

/// The last `width` digits of `n`, with leading zeros where it has fewer.
pub open spec fn padded(n: nat, width: nat) -> Seq<char>
    decreases width,
{
    if width == 0 {
        Seq::empty()
    } else {
        padded(n / 10, (width - 1) as nat).push(digit(n % 10))
    }
}

/// Is `s` made of digits only?
pub open spec fn all_digits(s: Seq<char>) -> bool {
    forall|i: int| 0 <= i < s.len() ==> is_digit(#[trigger] s[i])
}

/// The number that the digits `s` stand for.
pub open spec fn value(s: Seq<char>) -> nat
    decreases s.len(),
{
    if s.len() == 0 {
        0
    } else {
        value(s.drop_last()) * 10 + digit_value(s.last())
    }
}

pub proof fn lemma_pow10_positive(k: nat)
    ensures
        pow10(k) >= 1,
    decreases k,
{
    if k > 0 {
        lemma_pow10_positive((k - 1) as nat);
    }
}

/// The digits of a number stand for it.
pub proof fn lemma_decimal_value(n: nat)
    ensures
        all_digits(decimal(n)),
        decimal(n).len() >= 1,
        value(decimal(n)) == n,
    decreases n,
{
    if n < 10 {
        let s = decimal(n);
        assert(s.drop_last() =~= Seq::<char>::empty());
        assert(value(s.drop_last()) == 0);
    } else {
        lemma_decimal_value(n / 10);
        let s = decimal(n);
        assert(s.drop_last() =~= decimal(n / 10));
        assert(s.last() == digit(n % 10));
    }
}

/// `width` digits, the last ones of `n`.
pub proof fn lemma_padded_digits(n: nat, width: nat)
    ensures
        all_digits(padded(n, width)),
        padded(n, width).len() == width,
    decreases width,
{
    if width > 0 {
        lemma_padded_digits(n / 10, (width - 1) as nat);
    }
}

/// Writing the last `width` digits of `n` behind the digits of what is left of `n`
/// without them stands for `n` again.
pub proof fn lemma_split_value(n: nat, width: nat)
    ensures
        value(decimal(n / pow10(width)) + padded(n, width)) == n,
    decreases width,
{
    lemma_pow10_positive(width);
    if width == 0 {
        lemma_decimal_value(n);
        assert(n / 1 == n);
        assert(decimal(n) + padded(n, 0) =~= decimal(n));
    } else {
        let w = (width - 1) as nat;
        lemma_pow10_positive(w);
        lemma_split_value(n / 10, w);
        assert(n / pow10(width) == (n / 10) / pow10(w)) by {
            vstd::arithmetic::div_mod::lemma_div_denominator(n as int, 10, pow10(w) as int);
        }
        let s = decimal(n / pow10(width)) + padded(n, width);
        lemma_padded_digits(n, width);
        assert(s.drop_last() =~= decimal((n / 10) / pow10(w)) + padded(n / 10, w));
        assert(s.last() == digit(n % 10));
    }
}

/// One more digit: ten times as much, and the digit.
pub proof fn lemma_value_push(s: Seq<char>, c: char)
    ensures
        value(s.push(c)) == value(s) * 10 + digit_value(c),
{
    assert(s.push(c).drop_last() =~= s);
}

/// The digit for `d`.
pub fn digit_char(d: u128) -> (r: char)
    requires
        d < 10,
    ensures
        r == digit(d as nat),
{
    if d == 0 {
        '0'
    } else if d == 1 {
        '1'
    } else if d == 2 {
        '2'
    } else if d == 3 {
        '3'
    } else if d == 4 {
        '4'
    } else if d == 5 {
        '5'
    } else if d == 6 {
        '6'
    } else if d == 7 {
        '7'
    } else if d == 8 {
        '8'
    } else {
        '9'
    }
}

/// Puts the digits of `n` at the end of `out`.
pub fn push_decimal(out: &mut String, n: u128)
    ensures
        final(out)@ == old(out)@ + decimal(n as nat),
    decreases n,
{
    if n >= 10 {
        push_decimal(out, n / 10);
    }
    out.push(digit_char(n % 10));
    proof {
        if n >= 10 {
            assert(final(out)@ =~= old(out)@ + decimal(n as nat));
        } else {
            assert(final(out)@ =~= old(out)@ + decimal(n as nat));
        }
    }
}

/// The digits of `n`.
pub fn decimal_text(n: u128) -> (r: String)
    ensures
        r@ == decimal(n as nat),
{
    let mut out: String = String::new();
    push_decimal(&mut out, n);
    assert(out@ =~= decimal(n as nat));
    out
}

/// The number that the digits `cs[from..to]` stand for, where all of them are digits
/// and it is at most `max`.
pub fn parse_digits(cs: &Vec<char>, from: usize, to: usize, max: u128) -> (r: Option<u128>)
    requires
        from <= to <= cs.len(),
    ensures
        ({
            let s = cs@.subrange(from as int, to as int);
            match r {
                Some(n) => all_digits(s) && value(s) == n && n <= max,
                None => !all_digits(s) || value(s) > max,
            }
        }),
{
    let ghost s = cs@.subrange(from as int, to as int);
    let mut n: u128 = 0;
    let mut i: usize = from;
    let mut over: bool = false;
    proof {
        assert(s.take(0) =~= Seq::<char>::empty());
    }
    while i < to
        invariant
            from <= i <= to <= cs.len(),
            s == cs@.subrange(from as int, to as int),
            all_digits(s.take(i - from)),
            !over ==> n == value(s.take(i - from)) && n <= max,
            over ==> value(s.take(i - from)) > max,
        decreases to - i,
    {
        let c: char = cs[i];
        if c < '0' || c > '9' {
            assert(s[i - from] == c);
            return None;
        }
        let ghost before = s.take(i - from);
        let ghost after = s.take(i - from + 1);
        proof {
            assert(after =~= before.push(c));
            lemma_value_push(before, c);
            assert forall|k: int| 0 <= k < after.len() implies is_digit(#[trigger] after[k]) by {
                if k < i - from {
                    assert(after[k] == before[k]);
                }
            }
        }
        let d: u128 = (c as u32 - 48) as u128;
        if !over {
            if n <= max / 10 && d <= max - n * 10 {
                n = n * 10 + d;
            } else {
                over = true;
            }
        }
        i += 1;
    }
    proof {
        assert(s.take(to - from) =~= s);
    }
    if over {
        None
    } else {
        Some(n)
    }
}

} // verus!
