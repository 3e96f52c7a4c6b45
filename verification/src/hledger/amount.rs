//! Exact monetary amounts.
//!
//! hledger writes every quantity as a decimal mantissa, a number of decimal places and a
//! floating-point rendering. The ledger holds money, so a quantity here is the exact
//! integer mantissa with its places; the floating-point view is never represented, and
//! [`Quantity::render`] writes the decimal by integer arithmetic alone.

use vstd::prelude::*;

use crate::decimal::{
    all_digits, decimal, digit, digit_char, is_digit, lemma_decimal_value, lemma_padded_digits,
    lemma_pow10_positive, lemma_split_value, padded, parse_digits, pow10, push_decimal, value,
};
use crate::sums::lemma_pow10_add;
use crate::text::{
    chars_of, find, find_from, join, join_texts, law_join_puts_the_separator_between,
    lemma_find_unique, texts,
};

verus! {

/// An exact decimal quantity: `mantissa × 10^-places`.
#[derive(Debug, Clone, Copy, PartialEq, Eq, Structural)]
pub struct Quantity {
    /// The unscaled integer value. `8766` with two places is `87.66`.
    pub mantissa: i128,
    /// The number of decimal places.
    pub places: u32,
}

/// The absolute value of an integer.
pub open spec fn magnitude(m: int) -> nat {
    if m < 0 {
        (-m) as nat
    } else {
        m as nat
    }
}

/// The decimal notation of a quantity: a minus sign where it is negative, the whole
/// part, and, where it has places, a point and exactly that many digits.
pub open spec fn quantity_text(q: Quantity) -> Seq<char> {
    let n = magnitude(q.mantissa as int);
    let sign = if q.mantissa < 0 {
        seq!['-']
    } else {
        Seq::empty()
    };
    let fraction = if q.places == 0 {
        Seq::empty()
    } else {
        seq!['.'] + padded(n, q.places as nat)
    };
    sign + decimal(n / pow10(q.places as nat)) + fraction
}

/// The quantity that `s` writes: an optional minus sign, digits, and optionally a point
/// with digits behind it. `None` where `s` has another form or the mantissa or the number
/// of places does not fit.
pub open spec fn quantity_of(s: Seq<char>) -> Option<Quantity> {
    let negative = s.len() > 0 && s[0] == '-';
    let body = if negative {
        s.skip(1)
    } else {
        s
    };
    let point = find(body, '.');
    let whole = body.take(point);
    let fraction = body.skip(point + 1);
    let pointed = point < body.len();
    let digits = if pointed {
        whole + fraction
    } else {
        whole
    };
    let places = if pointed {
        fraction.len()
    } else {
        0
    };
    let m = if negative {
        -value(digits)
    } else {
        value(digits) as int
    };
    if whole.len() > 0 && all_digits(digits) && (pointed ==> places > 0) && i128::MIN <= m <= i128::MAX && places
        <= u32::MAX {
        Some(Quantity { mantissa: m as i128, places: places as u32 })
    } else {
        None
    }
}

/// The mantissa of `q` written with `places` decimal places, which are no fewer than its
/// own.
pub open spec fn scaled(q: Quantity, places: nat) -> int {
    q.mantissa * pow10((places - q.places) as nat)
}

/// The larger number of decimal places of two quantities.
pub open spec fn common_places(a: Quantity, b: Quantity) -> u32 {
    if a.places >= b.places {
        a.places
    } else {
        b.places
    }
}

/// The sum of two quantities, at the larger number of places; `None` where the sum, or
/// one of the two at that number of places, does not fit.
pub open spec fn quantity_sum(a: Quantity, b: Quantity) -> Option<Quantity> {
    let places = common_places(a, b);
    let x = scaled(a, places as nat);
    let y = scaled(b, places as nat);
    if i128::MIN <= x <= i128::MAX && i128::MIN <= y <= i128::MAX && i128::MIN <= x + y <= i128::MAX {
        Some(Quantity { mantissa: (x + y) as i128, places })
    } else {
        None
    }
}

/// Writing a quantity and reading it back gives the same quantity: nothing is lost, not
/// even trailing zeros.
pub proof fn law_quantity_text_is_lossless(q: Quantity)
    ensures
        quantity_of(quantity_text(q)) == Some(q),
{
    let n = magnitude(q.mantissa as int);
    let p = q.places as nat;
    let s = quantity_text(q);
    let whole = decimal(n / pow10(p));
    let fraction = padded(n, p);
    let negative = q.mantissa < 0;
    lemma_decimal_value(n / pow10(p));
    lemma_padded_digits(n, p);
    lemma_split_value(n, p);
    let body = if negative {
        s.skip(1)
    } else {
        s
    };
    if !negative {
        assert(s[0] == whole[0]);
        assert(is_digit(whole[0]));
    } else {
        assert(s[0] == '-');
    }
    assert forall|i: int| 0 <= i < whole.len() implies whole[i] != '.' by {
        assert(is_digit(whole[i]));
    }
    if q.places == 0 {
        assert(body =~= whole);
        lemma_find_unique(body, '.', whole.len() as int);
        assert(body.take(whole.len() as int) =~= whole);
        assert(whole + fraction =~= whole);
    } else {
        assert(body =~= whole + (seq!['.'] + fraction));
        assert(body[whole.len() as int] == '.');
        lemma_find_unique(body, '.', whole.len() as int);
        assert(body.take(whole.len() as int) =~= whole);
        assert(body.skip(whole.len() as int + 1) =~= fraction);
        assert forall|i: int| 0 <= i < (whole + fraction).len() implies is_digit(#[trigger] (whole + fraction)[i]) by {
            if i < whole.len() {
                assert(is_digit(whole[i]));
            } else {
                assert(is_digit(fraction[i - whole.len()]));
            }
        }
    }
}

/// The text of a quantity is not empty and holds digits, a minus sign and a point only.
pub proof fn lemma_quantity_chars(q: Quantity)
    ensures
        quantity_text(q).len() > 0,
        forall|i: int|
            0 <= i < quantity_text(q).len() ==> is_digit(#[trigger] quantity_text(q)[i]) || quantity_text(q)[i] == '-'
                || quantity_text(q)[i] == '.',
{
    let n = magnitude(q.mantissa as int);
    let p = q.places as nat;
    lemma_decimal_value(n / pow10(p));
    lemma_padded_digits(n, p);
    let s = quantity_text(q);
    let whole = decimal(n / pow10(p));
    let tail = padded(n, p);
    let sign: int = if q.mantissa < 0 {
        1
    } else {
        0
    };
    assert forall|i: int| 0 <= i < s.len() implies is_digit(#[trigger] s[i]) || s[i] == '-' || s[i] == '.' by {
        if i < sign {
        } else if i < sign + whole.len() {
            assert(s[i] == whole[i - sign]);
        } else if i > sign + whole.len() {
            assert(s[i] == tail[i - sign - whole.len() - 1]);
        }
    }
}

/// A quantity is written with exactly as many digits behind the point as it has decimal
/// places, and without a point where it has none.
pub proof fn law_quantity_shows_its_places(q: Quantity)
    ensures
        q.places == 0 ==> !quantity_text(q).contains('.'),
        q.places > 0 ==> find(quantity_text(q), '.') == quantity_text(q).len() - q.places - 1 && all_digits(
            quantity_text(q).skip(find(quantity_text(q), '.') + 1),
        ),
{
    let n = magnitude(q.mantissa as int);
    let p = q.places as nat;
    lemma_decimal_value(n / pow10(p));
    lemma_padded_digits(n, p);
    let s = quantity_text(q);
    let whole = decimal(n / pow10(p));
    let sign: int = if q.mantissa < 0 {
        1
    } else {
        0
    };
    let k = sign + whole.len();
    assert forall|i: int| 0 <= i < k implies s[i] != '.' by {
        if i >= sign {
            assert(s[i] == whole[i - sign]);
        }
    }
    if q.places > 0 {
        assert(s[k] == '.');
        lemma_find_unique(s, '.', k);
        assert(s.skip(k + 1) =~= padded(n, p));
    }
}

/// Two quantities with the same text are the same quantity.
pub proof fn law_quantity_text_is_injective(a: Quantity, b: Quantity)
    requires
        quantity_text(a) == quantity_text(b),
    ensures
        a == b,
{
    law_quantity_text_is_lossless(a);
    law_quantity_text_is_lossless(b);
}

/// Adding is commutative.
pub proof fn law_quantity_sum_commutes(a: Quantity, b: Quantity)
    ensures
        quantity_sum(a, b) == quantity_sum(b, a),
{
}

/// The mantissa of `q` at `places`, where it fits.
pub(crate) fn scale(q: Quantity, places: u32) -> (r: Option<i128>)
    requires
        q.places <= places,
    ensures
        match r {
            Some(m) => m == scaled(q, places as nat),
            None => !(i128::MIN <= scaled(q, places as nat) <= i128::MAX),
        },
{
    let mut m: i128 = q.mantissa;
    if m == 0 {
        assert(scaled(q, places as nat) == 0) by (nonlinear_arith)
            requires
                q.mantissa == 0,
                scaled(q, places as nat) == q.mantissa * pow10((places - q.places) as nat),
        ;
        return Some(0);
    }
    let mut k: u32 = q.places;
    let ghost target = scaled(q, places as nat);
    while k < places
        invariant
            q.places <= k <= places,
            m != 0,
            target == scaled(q, places as nat),
            target == m * pow10((places - k) as nat),
        decreases places - k,
    {
        let ghost rest = pow10((places - k - 1) as nat);
        proof {
            lemma_pow10_positive((places - k - 1) as nat);
            assert(pow10((places - k) as nat) == 10 * rest);
            assert(m * (10 * rest) == (m * 10) * rest) by (nonlinear_arith);
        }
        match m.checked_mul(10) {
            Some(next) => {
                m = next;
            },
            None => {
                proof {
                    let v = m * 10;
                    assert(v > i128::MAX || v < i128::MIN);
                    assert(v > 0 ==> v * rest >= v) by (nonlinear_arith)
                        requires
                            rest >= 1,
                    ;
                    assert(v < 0 ==> v * rest <= v) by (nonlinear_arith)
                        requires
                            rest >= 1,
                    ;
                }
                return None;
            },
        }
        k += 1;
    }
    proof {
        assert(pow10(0) == 1);
        assert(m * 1 == m);
    }
    Some(m)
}

impl Quantity {
    /// The quantity with this mantissa and this number of decimal places.
    pub fn new(mantissa: i128, places: u32) -> (r: Self)
        ensures
            r.mantissa == mantissa,
            r.places == places,
    {
        Quantity { mantissa, places }
    }

    /// The exact decimal notation: `(8766, 2)` is `87.66`, `(-15000, 2)` is `-150.00`,
    /// `(5, 2)` is `0.05`, `(0, 2)` is `0.00` and `(42, 0)` is `42`.
    pub fn render(&self) -> (r: String)
        ensures
            r@ == quantity_text(*self),
    {
        let ghost n0 = magnitude(self.mantissa as int);
        let mut n: u128 = if self.mantissa == i128::MIN {
            170141183460469231731687303715884105728u128
        } else if self.mantissa < 0 {
            (-self.mantissa) as u128
        } else {
            self.mantissa as u128
        };
        // The decimal places, the last one first.
        let mut tail: Vec<char> = Vec::new();
        let mut k: u32 = 0;
        proof {
            assert(n0 / 1 == n0);
            assert(padded(n0, 0).len() == 0);
            assert(padded(n as nat, self.places as nat) =~= padded(n as nat, self.places as nat) + tail@.reverse());
        }
        while k < self.places
            invariant
                k <= self.places,
                tail.len() == k,
                n == n0 / pow10(k as nat),
                padded(n0, self.places as nat) == padded(n as nat, (self.places - k) as nat) + tail@.reverse(),
            decreases self.places - k,
        {
            let ghost before = tail@;
            let ghost w = (self.places - k) as nat;
            tail.push(digit_char(n % 10));
            proof {
                lemma_pow10_positive(k as nat);
                vstd::arithmetic::div_mod::lemma_div_denominator(n0 as int, pow10(k as nat) as int, 10);
                assert(pow10((k + 1) as nat) == 10 * pow10(k as nat));
                lemma_padded_digits(n as nat, w);
                assert(tail@.reverse() =~= seq![digit((n % 10) as nat)] + before.reverse());
                assert(padded(n as nat, w) + before.reverse() =~= padded((n / 10) as nat, (w - 1) as nat)
                    + tail@.reverse());
            }
            n = n / 10;
            k += 1;
        }
        let mut out: String = String::new();
        if self.mantissa < 0 {
            out.push('-');
        }
        push_decimal(&mut out, n);
        if self.places > 0 {
            out.push('.');
            let ghost head = out@;
            let mut i: usize = tail.len();
            while i > 0
                invariant
                    i <= tail.len(),
                    out@ == head + tail@.skip(i as int).reverse(),
                decreases i,
            {
                i -= 1;
                out.push(tail[i]);
                proof {
                    assert(tail@.skip(i as int).reverse() =~= tail@.skip(i + 1).reverse().push(tail@[i as int]));
                }
            }
            assert(tail@.skip(0) =~= tail@);
        }
        proof {
            assert(padded(n as nat, 0).len() == 0);
            assert(padded(n0, self.places as nat) =~= tail@.reverse());
            assert(out@ =~= quantity_text(*self));
        }
        out
    }

    /// The same text as [`Quantity::render`].
    pub fn to_string(&self) -> (r: String)
        ensures
            r@ == quantity_text(*self),
    {
        self.render()
    }

    /// Reads an exact decimal such as `100.00` or `-44.00`.
    pub fn parse(s: &str) -> (r: Option<Self>)
        ensures
            r == quantity_of(s@),
    {
        let cs: Vec<char> = chars_of(s);
        let negative: bool = cs.len() > 0 && cs[0] == '-';
        let from: usize = if negative {
            1
        } else {
            0
        };
        let ghost body = if negative {
            s@.skip(1)
        } else {
            s@
        };
        proof {
            assert(body =~= s@.skip(from as int));
        }
        let point: usize = find_from(&cs, from, '.');
        if point == from {
            return None;
        }
        let max: u128 = if negative {
            170141183460469231731687303715884105728u128
        } else {
            170141183460469231731687303715884105727u128
        };
        let mut digits: Vec<char> = Vec::new();
        let mut i: usize = from;
        while i < cs.len()
            invariant
                from <= i <= cs.len(),
                from < point <= cs.len(),
                i <= point ==> digits@ == cs@.subrange(from as int, i as int),
                i > point ==> digits@ == cs@.subrange(from as int, point as int) + cs@.subrange(point + 1, i as int),
            decreases cs.len() - i,
        {
            if i != point {
                digits.push(cs[i]);
                proof {
                    if i < point {
                        assert(digits@ =~= cs@.subrange(from as int, i + 1));
                    } else {
                        assert(digits@ =~= cs@.subrange(from as int, point as int) + cs@.subrange(point + 1, i + 1));
                    }
                }
            } else {
                assert(digits@ =~= cs@.subrange(from as int, point as int) + cs@.subrange(point + 1, i + 1));
            }
            i += 1;
        }
        let pointed: bool = point < cs.len();
        let places: usize = if pointed {
            cs.len() - point - 1
        } else {
            0
        };
        proof {
            let p = (point - from) as int;
            assert(body.take(p) =~= cs@.subrange(from as int, point as int));
            if pointed {
                assert(body.skip(p + 1) =~= cs@.subrange(point + 1, cs@.len() as int));
                assert(digits@ =~= body.take(p) + body.skip(p + 1));
            } else {
                assert(digits@ =~= body.take(p));
            }
            assert(digits@.subrange(0, digits@.len() as int) =~= digits@);
        }
        if pointed && places == 0 {
            return None;
        }
        if places > 4294967295usize {
            return None;
        }
        match parse_digits(&digits, 0, digits.len(), max) {
            None => None,
            Some(n) => {
                let mantissa: i128 = if !negative {
                    n as i128
                } else if n == 170141183460469231731687303715884105728u128 {
                    i128::MIN
                } else {
                    -(n as i128)
                };
                Some(Quantity { mantissa, places: places as u32 })
            },
        }
    }

    /// Is the quantity zero?
    pub fn is_zero(&self) -> (r: bool)
        ensures
            r == (self.mantissa == 0),
    {
        self.mantissa == 0
    }

    /// The sum of the two, at the larger number of places, where it fits.
    pub fn plus(self, other: Quantity) -> (r: Option<Quantity>)
        ensures
            r == quantity_sum(self, other),
    {
        let places: u32 = if self.places >= other.places {
            self.places
        } else {
            other.places
        };
        match (scale(self, places), scale(other, places)) {
            (Some(x), Some(y)) => match x.checked_add(y) {
                Some(mantissa) => Some(Quantity { mantissa, places }),
                None => None,
            },
            _ => None,
        }
    }
}

/// An amount of a commodity, such as `$87.66` or `40.00 EUR`, with the side and the
/// spacing on which the ledger writes the commodity.
#[derive(Debug, PartialEq, Eq)]
pub struct Amount {
    /// The commodity symbol.
    pub commodity: String,
    /// The exact quantity.
    pub quantity: Quantity,
    /// Whether the commodity stands to the left of the number.
    pub commodity_left: bool,
    /// Whether a space separates commodity and number.
    pub spaced: bool,
}

/// What an [`Amount`] holds.
#[verifier::ext_equal]
pub struct AmountView {
    pub commodity: Seq<char>,
    pub quantity: Quantity,
    pub commodity_left: bool,
    pub spaced: bool,
}

impl View for Amount {
    type V = AmountView;

    open spec fn view(&self) -> AmountView {
        AmountView {
            commodity: self.commodity@,
            quantity: self.quantity,
            commodity_left: self.commodity_left,
            spaced: self.spaced,
        }
    }
}

impl Clone for Amount {
    fn clone(&self) -> (r: Self)
        ensures
            r@ == self@,
    {
        Amount {
            commodity: self.commodity.clone(),
            quantity: self.quantity,
            commodity_left: self.commodity_left,
            spaced: self.spaced,
        }
    }
}

/// What a list of amounts holds.
pub open spec fn amounts_view(v: Seq<Amount>) -> Seq<AmountView> {
    Seq::new(v.len(), |i: int| v[i]@)
}

/// The amount with its commodity on its side, e.g. `$87.66` or `40.00 EUR`.
pub open spec fn amount_text(a: AmountView) -> Seq<char> {
    let sep = if a.spaced {
        seq![' ']
    } else {
        Seq::empty()
    };
    if a.commodity_left {
        a.commodity + sep + quantity_text(a.quantity)
    } else {
        quantity_text(a.quantity) + sep + a.commodity
    }
}

/// The amounts separated by a comma and a space; `0` where there is none.
pub open spec fn amounts_text(amounts: Seq<AmountView>) -> Seq<char> {
    if amounts.len() == 0 {
        seq!['0']
    } else {
        join(Seq::new(amounts.len(), |i: int| amount_text(amounts[i])), seq![',', ' '])
    }
}

impl Amount {
    /// The amount with its commodity on its side, e.g. `$87.66` or `40.00 EUR`.
    pub fn render(&self) -> (r: String)
        ensures
            r@ == amount_text(self@),
    {
        let q: String = self.quantity.render();
        let mut out: String = String::new();
        if self.commodity_left {
            out.append(&self.commodity);
        } else {
            out.append(&q);
        }
        if self.spaced {
            out.push(' ');
        }
        if self.commodity_left {
            out.append(&q);
        } else {
            out.append(&self.commodity);
        }
        assert(out@ =~= amount_text(self@));
        out
    }

    /// The same text as [`Amount::render`].
    pub fn to_string(&self) -> (r: String)
        ensures
            r@ == amount_text(self@),
    {
        self.render()
    }
}

/// Copies of the amounts.
pub fn copy_amounts(amounts: &Vec<Amount>) -> (r: Vec<Amount>)
    ensures
        amounts_view(r@) == amounts_view(amounts@),
{
    let mut out: Vec<Amount> = Vec::new();
    let mut i: usize = 0;
    while i < amounts.len()
        invariant
            i <= amounts.len(),
            out.len() == i,
            forall|j: int| 0 <= j < i ==> (#[trigger] out@[j])@ == amounts@[j]@,
        decreases amounts.len() - i,
    {
        out.push(amounts[i].clone());
        i += 1;
    }
    assert(amounts_view(out@) =~= amounts_view(amounts@));
    out
}

/// The amounts as a comma-separated list, e.g. `$10.00, 5.00 EUR`. No amount is written
/// as `0`, which is how hledger shows a zero balance.
pub fn render_amounts(amounts: &[Amount]) -> (r: String)
    ensures
        r@ == amounts_text(amounts_view(amounts@)),
{
    if amounts.len() == 0 {
        let mut zero: String = String::new();
        zero.push('0');
        assert(zero@ =~= seq!['0']);
        return zero;
    }
    let mut parts: Vec<String> = Vec::new();
    let mut i: usize = 0;
    while i < amounts.len()
        invariant
            i <= amounts.len(),
            parts.len() == i,
            forall|j: int| 0 <= j < i ==> (#[trigger] parts@[j])@ == amount_text(amounts@[j]@),
        decreases amounts.len() - i,
    {
        parts.push(amounts[i].render());
        i += 1;
    }
    proof {
        reveal_strlit(", ");
        assert(", "@ =~= seq![',', ' ']);
        let views = amounts_view(amounts@);
        assert(texts(parts@) =~= Seq::new(views.len(), |i: int| amount_text(views[i])));
    }
    join_texts(&parts, ", ")
}

// ---------------------------------------------------------------------------
// What the texts say
// ---------------------------------------------------------------------------

/// The notation of a quantity says what it is: it begins with a minus sign exactly where the
/// quantity is below zero, and its digits, the point left out, stand for the mantissa.
pub proof fn law_quantity_text_spells_the_mantissa(q: Quantity)
    ensures
        quantity_text(q).len() > 0,
        quantity_text(q)[0] == '-' <==> q.mantissa < 0,
        ({
            let body = if q.mantissa < 0 {
                quantity_text(q).skip(1)
            } else {
                quantity_text(q)
            };
            let point = body.len() - q.places - 1;
            if q.places == 0 {
                all_digits(body) && value(body) == magnitude(q.mantissa as int)
            } else {
                &&& 0 < point < body.len()
                &&& body[point] == '.'
                &&& all_digits(body.take(point) + body.skip(point + 1))
                &&& value(body.take(point) + body.skip(point + 1)) == magnitude(q.mantissa as int)
            }
        }),
{
    let n = magnitude(q.mantissa as int);
    let p = q.places as nat;
    let whole = decimal(n / pow10(p));
    let fraction = padded(n, p);
    let s = quantity_text(q);
    lemma_decimal_value(n / pow10(p));
    lemma_padded_digits(n, p);
    lemma_split_value(n, p);
    let body = if q.mantissa < 0 {
        s.skip(1)
    } else {
        s
    };
    if p == 0 {
        assert(pow10(0) == 1);
        assert(n / 1 == n);
        assert(body =~= whole);
    } else {
        let point = body.len() - p - 1;
        assert(body =~= whole + seq!['.'] + fraction);
        assert(body.take(point) =~= whole);
        assert(body.skip(point + 1) =~= fraction);
        assert forall|i: int| 0 <= i < (whole + fraction).len() implies is_digit(#[trigger] (whole + fraction)[i]) by {
            if i < whole.len() {
                assert(is_digit(whole[i]));
            } else {
                assert(is_digit(fraction[i - whole.len()]));
            }
        }
    }
    if q.mantissa >= 0 {
        assert(s[0] == whole[0]);
        assert(is_digit(whole[0]));
    }
}

/// A text is read as the quantity that it writes: digits stand for their number, digits behind a
/// point are counted as decimal places, and a minus sign in front negates. What has another
/// character, no digit in front of the point, or a point with nothing behind it, is no quantity.
pub proof fn law_quantity_is_read_as_written(whole: Seq<char>, fraction: Seq<char>)
    requires
        whole.len() > 0,
        all_digits(whole),
        fraction.len() > 0,
        all_digits(fraction),
        value(whole + fraction) <= i128::MAX,
        value(whole) <= i128::MAX,
        fraction.len() <= u32::MAX,
    ensures
        quantity_of(whole) == Some(Quantity { mantissa: value(whole) as i128, places: 0 }),
        quantity_of(seq!['-'] + whole) == Some(Quantity { mantissa: (-(value(whole) as int)) as i128, places: 0 }),
        quantity_of(whole + seq!['.'] + fraction) == Some(
            Quantity { mantissa: value(whole + fraction) as i128, places: fraction.len() as u32 },
        ),
        quantity_of(seq!['-'] + (whole + seq!['.'] + fraction)) == Some(
            Quantity { mantissa: (-(value(whole + fraction) as int)) as i128, places: fraction.len() as u32 },
        ),
        quantity_of(whole + seq!['.']) is None,
        quantity_of(seq!['.'] + fraction) is None,
        quantity_of(seq!['-'] + (seq!['.'] + fraction)) is None,
        quantity_of(seq!['-']) is None,
        quantity_of(Seq::empty()) is None,
{
    let both = whole + seq!['.'] + fraction;
    assert forall|i: int| 0 <= i < whole.len() implies whole[i] != '.' && whole[i] != '-' by {
        assert(is_digit(whole[i]));
    }
    assert forall|i: int| 0 <= i < (whole + fraction).len() implies is_digit(#[trigger] (whole + fraction)[i]) by {
        if i < whole.len() {
            assert(is_digit(whole[i]));
        } else {
            assert(is_digit(fraction[i - whole.len()]));
        }
    }
    lemma_find_unique(whole, '.', whole.len() as int);
    assert(whole.take(whole.len() as int) =~= whole);
    lemma_find_unique(both, '.', whole.len() as int);
    assert(both.take(whole.len() as int) =~= whole);
    assert(both.skip(whole.len() as int + 1) =~= fraction);
    assert((seq!['-'] + whole).skip(1) =~= whole);
    assert((seq!['-'] + both).skip(1) =~= both);
    let pointed = whole + seq!['.'];
    lemma_find_unique(pointed, '.', whole.len() as int);
    assert(pointed.skip(whole.len() as int + 1).len() == 0);
    let bare = seq!['.'] + fraction;
    lemma_find_unique(bare, '.', 0);
    assert(bare.take(0).len() == 0);
    assert((seq!['-'] + bare).skip(1) =~= bare);
    assert(seq!['-'].skip(1).len() == 0);
}

/// The sum of two quantities is their sum: at any number of places that both have room in, it
/// counts as much as the two together; and it has no more places than the one with more.
pub proof fn law_quantity_sum_adds(a: Quantity, b: Quantity, places: nat)
    requires
        quantity_sum(a, b) is Some,
        a.places <= places,
        b.places <= places,
    ensures
        (quantity_sum(a, b)->0).places == if a.places >= b.places {
            a.places
        } else {
            b.places
        },
        (quantity_sum(a, b)->0).mantissa * pow10((places - (quantity_sum(a, b)->0).places) as nat) == a.mantissa * pow10(
            (places - a.places) as nat,
        ) + b.mantissa * pow10((places - b.places) as nat),
{
    let p = common_places(a, b) as nat;
    let k = pow10((places - p) as nat);
    let x = pow10((p - a.places) as nat);
    let y = pow10((p - b.places) as nat);
    lemma_pow10_add((p - a.places) as nat, (places - p) as nat);
    lemma_pow10_add((p - b.places) as nat, (places - p) as nat);
    let m = a.mantissa as int;
    let n = b.mantissa as int;
    assert((m * x + n * y) * k == m * (x * k) + n * (y * k)) by (nonlinear_arith);
}

/// An amount is written as its quantity and its commodity, the commodity on its side, with one
/// space between them exactly where it is spaced.
pub proof fn law_amount_text_has_both(a: AmountView)
    ensures
        amount_text(a).len() == a.commodity.len() + quantity_text(a.quantity).len() + if a.spaced {
            1int
        } else {
            0
        },
        a.commodity_left ==> amount_text(a).take(a.commodity.len() as int) == a.commodity && amount_text(a).skip(
            amount_text(a).len() - quantity_text(a.quantity).len(),
        ) == quantity_text(a.quantity),
        !a.commodity_left ==> amount_text(a).take(quantity_text(a.quantity).len() as int) == quantity_text(a.quantity)
            && amount_text(a).skip(amount_text(a).len() - a.commodity.len()) == a.commodity,
        a.spaced ==> amount_text(a)[if a.commodity_left {
            a.commodity.len() as int
        } else {
            quantity_text(a.quantity).len() as int
        }] == ' ',
{
    let t = amount_text(a);
    let q = quantity_text(a.quantity);
    if a.commodity_left {
        assert(t.take(a.commodity.len() as int) =~= a.commodity);
        assert(t.skip(t.len() - q.len()) =~= q);
    } else {
        assert(t.take(q.len() as int) =~= q);
        assert(t.skip(t.len() - a.commodity.len()) =~= a.commodity);
    }
}

/// Amounts are written one behind the other, each as it is written alone, with a comma and a
/// space between each two; none is written as `0`.
pub proof fn law_amounts_text_lists_each(a: Seq<AmountView>, b: Seq<AmountView>)
    requires
        a.len() > 0,
        b.len() > 0,
    ensures
        amounts_text(a + b) == amounts_text(a) + ", "@ + amounts_text(b),
        amounts_text(seq![a[0]]) == amount_text(a[0]),
        amounts_text(Seq::empty()) == "0"@,
{
    reveal_strlit(", ");
    reveal_strlit("0");
    assert(", "@ =~= seq![',', ' ']);
    assert("0"@ =~= seq!['0']);
    let x = Seq::new(a.len(), |i: int| amount_text(a[i]));
    let y = Seq::new(b.len(), |i: int| amount_text(b[i]));
    let both = a + b;
    assert(Seq::new(both.len(), |i: int| amount_text(both[i])) =~= x + y);
    law_join_puts_the_separator_between(x, y, seq![',', ' ']);
    let one = seq![a[0]];
    assert(Seq::new(one.len(), |i: int| amount_text(one[i])) =~= seq![x[0]]);
}

} // verus!
