use vstd::prelude::*;
use crate::text::{
    all_digits, chars_of, decimal, digit_char, digit_to_char, digits_value, is_digit,
    lemma_decimal, lemma_digit_char, lemma_digits_push,
    push_char, push_decimal,
};

verus! {

/// A currency amount, held exactly as a count of ten-thousandths of a unit.
/// Amounts are never floating point, so repeated arithmetic accumulates no rounding error.
#[derive(Debug, Clone, Copy, PartialEq, Eq, PartialOrd, Ord, Hash, Structural)]
pub struct Amount(i64);

impl View for Amount {
    type V = int;

    /// The scaled value: the amount times ten thousand.
    closed spec fn view(&self) -> int {
        self.0 as int
    }
}

/// The scaled values that an `Amount` can hold.
pub open spec fn fits(v: int) -> bool {
    i64::MIN <= v <= i64::MAX
}

/// The amount whose scaled value is `v` (meaningful when `fits(v)`).
pub closed spec fn spec_amount(v: int) -> Amount {
    Amount(v as i64)
}

pub broadcast proof fn lemma_spec_amount_view(v: int)
    requires
        fits(v),
    ensures
        #[trigger] spec_amount(v)@ == v,
{
}

pub broadcast proof fn lemma_view_spec_amount(a: Amount)
    ensures
        #[trigger] spec_amount(a@) == a,
        fits(a@),
{
}

pub broadcast group group_amount {
    lemma_spec_amount_view,
    lemma_view_spec_amount,
}

/// An arithmetic operation on amounts that left the representable range.
/// `rhs` is `None` for the unary negation.
#[derive(Debug, Clone, Copy)]
pub struct AmountOpError {
    pub lhs: Amount,
    pub rhs: Option<Amount>,
    pub op: &'static str,
}

/// Checked negation.
pub open spec fn neg_result(a: Amount) -> Result<Amount, AmountOpError> {
    if fits(-a@) {
        Ok(spec_amount(-a@))
    } else {
        Err(AmountOpError { lhs: a, rhs: None, op: "-" })
    }
}

/// Checked addition.
pub open spec fn add_result(a: Amount, b: Amount) -> Result<Amount, AmountOpError> {
    if fits(a@ + b@) {
        Ok(spec_amount(a@ + b@))
    } else {
        Err(AmountOpError { lhs: a, rhs: Some(b), op: "+" })
    }
}

/// Checked subtraction.
pub open spec fn sub_result(a: Amount, b: Amount) -> Result<Amount, AmountOpError> {
    if fits(a@ - b@) {
        Ok(spec_amount(a@ - b@))
    } else {
        Err(AmountOpError { lhs: a, rhs: Some(b), op: "-" })
    }
}

// ---- text form ----

/// Whether the text starts with a minus sign, which makes the amount negative.
pub open spec fn is_negative(s: Seq<char>) -> bool {
    s.len() > 0 && s[0] == '-'
}

/// The text after the leading minus sign, if any.
pub open spec fn unsigned_part(s: Seq<char>) -> Seq<char> {
    if is_negative(s) {
        s.drop_first()
    } else {
        s
    }
}

/// The position of the first `.` in `s`, or `s.len()` when there is none.
pub open spec fn first_dot(s: Seq<char>) -> int
    decreases s.len(),
{
    if s.len() == 0 {
        0
    } else if s[0] == '.' {
        0
    } else {
        1 + first_dot(s.drop_first())
    }
}

/// The integer part: the unsigned part up to its first `.`.
pub open spec fn integer_part(s: Seq<char>) -> Seq<char> {
    unsigned_part(s).take(first_dot(unsigned_part(s)))
}

/// The fractional part: what follows the first `.`, if there is one.
pub open spec fn fraction_part(s: Seq<char>) -> Option<Seq<char>> {
    let u = unsigned_part(s);
    if first_dot(u) < u.len() {
        Some(u.skip(first_dot(u) + 1))
    } else {
        None
    }
}

/// A signed 64-bit integer in decimal: an optional `+` or `-`, then one or more digits,
/// with the value in range.
pub open spec fn parse_i64(s: Seq<char>) -> Option<int> {
    if s.len() > 0 && (s[0] == '+' || s[0] == '-') {
        let d = s.drop_first();
        let v = if s[0] == '-' {
            -digits_value(d)
        } else {
            digits_value(d)
        };
        if d.len() > 0 && all_digits(d) && fits(v) {
            Some(v)
        } else {
            None
        }
    } else if s.len() > 0 && all_digits(s) && fits(digits_value(s)) {
        Some(digits_value(s))
    } else {
        None
    }
}

/// The fractional part cut or padded with zeros on the right to exactly four characters.
pub open spec fn fraction_window(f: Seq<char>) -> Seq<char> {
    (f + seq!['0', '0', '0', '0']).take(4)
}

/// An unsigned number in decimal: an optional `+`, then one or more digits.
pub open spec fn parse_unsigned(s: Seq<char>) -> Option<int> {
    let d = if s.len() > 0 && s[0] == '+' {
        s.drop_first()
    } else {
        s
    };
    if d.len() > 0 && all_digits(d) {
        Some(digits_value(d))
    } else {
        None
    }
}

/// The value of the four fractional digits; zero when there is no fractional part.
pub open spec fn fraction_value(s: Seq<char>) -> Option<int> {
    match fraction_part(s) {
        Some(f) => parse_unsigned(fraction_window(f)),
        None => Some(0),
    }
}

/// The scaled value that the text `s` denotes, if any: the integer part times ten thousand,
/// plus the first four fractional digits, all negated after a leading minus sign.
/// Digits past the fourth fractional one are dropped, not rounded.
pub open spec fn parse_amount(s: Seq<char>) -> Option<int> {
    match (parse_i64(integer_part(s)), fraction_value(s)) {
        (Some(w), Some(f)) => {
            let v = if is_negative(s) {
                -(10000 * w) - f
            } else {
                10000 * w + f
            };
            if fits(10000 * w) && fits(v) {
                Some(v)
            } else {
                None
            }
        },
        _ => None,
    }
}

/// The four-digit, zero-padded rendering of `f`, for `0 <= f < 10000`.
pub open spec fn four_digits(f: int) -> Seq<char> {
    seq![
        digit_char(f / 1000),
        digit_char((f / 100) % 10),
        digit_char((f / 10) % 10),
        digit_char(f % 10),
    ]
}

pub open spec fn abs(v: int) -> int {
    if v < 0 {
        -v
    } else {
        v
    }
}

/// The canonical text of the scaled value `v`: a minus sign when negative, the whole units,
/// a `.`, and exactly four fractional digits.
pub open spec fn display(v: int) -> Seq<char> {
    let sign = if v < 0 {
        seq!['-']
    } else {
        Seq::<char>::empty()
    };
    sign + decimal((abs(v) / 10000) as nat) + seq!['.'] + four_digits(abs(v) % 10000)
}

} // verus!

verus! {

/// `first_dot` found by scanning: `k` is the first position holding a `.`, or the end.
proof fn lemma_first_dot(u: Seq<char>, k: int)
    requires
        0 <= k <= u.len(),
        forall|j: int| 0 <= j < k ==> u[j] != '.',
        k == u.len() || u[k] == '.',
    ensures
        first_dot(u) == k,
    decreases k,
{
    if k > 0 {
        let t = u.drop_first();
        assert forall|j: int| 0 <= j < k - 1 implies t[j] != '.' by {
            assert(t[j] == u[j + 1]);
        }
        lemma_first_dot(t, k - 1);
    }
}

/// Reads `cs[lo..hi]` as a signed 64-bit integer, as `parse_i64` describes.
fn parse_int(cs: &Vec<char>, lo: usize, hi: usize) -> (r: Option<i64>)
    requires
        lo <= hi <= cs@.len(),
    ensures
        match r {
            Some(v) => parse_i64(cs@.subrange(lo as int, hi as int)) == Some(v as int),
            None => parse_i64(cs@.subrange(lo as int, hi as int)) is None,
        },
{
    let ghost sub = cs@.subrange(lo as int, hi as int);
    if lo < hi && (cs[lo] == '+' || cs[lo] == '-') {
        let negative = cs[lo] == '-';
        assert(sub.drop_first() =~= cs@.subrange(lo + 1, hi as int));
        if lo + 1 == hi {
            return None;
        }
        match crate::text::scan_digits(cs, lo + 1, hi) {
            None => None,
            Some(m) => {
                if negative {
                    if m == crate::text::MAGNITUDE_LIMIT {
                        Some(i64::MIN)
                    } else {
                        Some(-(m as i64))
                    }
                } else if m <= i64::MAX as u64 {
                    Some(m as i64)
                } else {
                    None
                }
            },
        }
    } else {
        if lo == hi {
            return None;
        }
        match crate::text::scan_digits(cs, lo, hi) {
            None => None,
            Some(m) => {
                if m <= i64::MAX as u64 {
                    Some(m as i64)
                } else {
                    None
                }
            },
        }
    }
}

/// Reads the four-character fractional window, as `parse_unsigned` describes.
fn parse_window(w: &Vec<char>) -> (r: Option<i64>)
    requires
        w@.len() == 4,
    ensures
        match r {
            Some(v) => parse_unsigned(w@) == Some(v as int) && 0 <= v < 10000,
            None => parse_unsigned(w@) is None,
        },
{
    let lo: usize = if w[0] == '+' {
        1
    } else {
        0
    };
    let ghost d = if w@[0] == '+' {
        w@.drop_first()
    } else {
        w@
    };
    assert(d =~= w@.subrange(lo as int, 4));
    if lo == 4 {
        return None;
    }
    match crate::text::scan_digits(w, lo, 4) {
        None => {
            proof {
                if all_digits(d) {
                    crate::text::lemma_digits_bound(d);
                    reveal_with_fuel(crate::text::pow10, 5);
                }
            }
            None
        },
        Some(m) => {
            proof {
                crate::text::lemma_digits_bound(d);
                reveal_with_fuel(crate::text::pow10, 5);
                assert(crate::text::pow10(d.len()) <= 10000);
            }
            Some(m as i64)
        },
    }
}

impl Amount {
    /// The amount whose scaled value is `value`.
    pub fn new(value: i64) -> (r: Amount)
        ensures
            r@ == value,
    {
        Amount(value)
    }

    /// Reads an amount from text: an optional leading `-`, an integer part, and optionally a
    /// `.` followed by a fractional part, of which the first four digits count.
    pub fn from_str(s: &str) -> (r: Option<Amount>)
        ensures
            match parse_amount(s@) {
                Some(v) => r == Some(spec_amount(v)),
                None => r is None,
            },
    {
        let cs = chars_of(s);
        let n = cs.len();
        let negative = n > 0 && cs[0] == '-';
        let start: usize = if negative {
            1
        } else {
            0
        };
        let ghost u = unsigned_part(s@);
        assert(u =~= cs@.subrange(start as int, n as int));
        let mut k: usize = start;
        while k < n && cs[k] != '.'
            invariant
                start <= k <= n == cs@.len(),
                forall|j: int| start <= j < k ==> cs@[j] != '.',
            decreases n - k,
        {
            k += 1;
        }
        proof {
            assert forall|j: int| 0 <= j < k - start implies u[j] != '.' by {
                assert(u[j] == cs@[j + start]);
            }
            lemma_first_dot(u, k - start);
            assert(integer_part(s@) =~= cs@.subrange(start as int, k as int));
        }
        let whole = match parse_int(&cs, start, k) {
            Some(w) => w,
            None => return None,
        };
        if whole < -922337203685477 || whole > 922337203685477 {
            assert(!fits(10000 * whole));
            return None;
        }
        let frac: i64 = if k < n {
            let ghost f = cs@.subrange(k + 1, n as int);
            assert(fraction_part(s@) == Some(f)) by {
                assert(u.skip(k - start + 1) =~= f);
            }
            let mut window: Vec<char> = Vec::new();
            let mut j: usize = 0;
            while j < 4
                invariant
                    j <= 4,
                    k < n == cs@.len(),
                    f == cs@.subrange(k + 1, n as int),
                    window@ == fraction_window(f).take(j as int),
                decreases 4 - j,
            {
                let c = if j < n - (k + 1) {
                    cs[k + 1 + j]
                } else {
                    '0'
                };
                window.push(c);
                proof {
                    assert(window@ =~= fraction_window(f).take(j + 1));
                }
                j += 1;
            }
            assert(window@ =~= fraction_window(f));
            match parse_window(&window) {
                Some(v) => v,
                None => return None,
            }
        } else {
            assert(fraction_part(s@) is None);
            0
        };
        let scaled = whole * 10000;
        let value = if negative {
            (-scaled).checked_sub(frac)
        } else {
            scaled.checked_add(frac)
        };
        match value {
            Some(v) => Some(Amount(v)),
            None => None,
        }
    }

    /// The canonical text: a minus sign when negative, the whole units, a `.`, and exactly
    /// four fractional digits.
    pub fn to_string(&self) -> (r: String)
        ensures
            r@ == display(self@),
    {
        let mut s = String::new();
        if self.0 < 0 {
            push_char(&mut s, '-');
        }
        let magnitude: u64 = if self.0 < 0 {
            (-(self.0 as i128)) as u64
        } else {
            self.0 as u64
        };
        push_decimal(&mut s, magnitude / 10000);
        push_char(&mut s, '.');
        let f = magnitude % 10000;
        push_char(&mut s, digit_to_char(f / 1000));
        push_char(&mut s, digit_to_char((f / 100) % 10));
        push_char(&mut s, digit_to_char((f / 10) % 10));
        push_char(&mut s, digit_to_char(f % 10));
        assert(s@ =~= display(self@));
        s
    }

    /// Checked negation.
    pub fn neg(self) -> (r: Result<Amount, AmountOpError>)
        ensures
            r == neg_result(self),
    {
        if self.0 == i64::MIN {
            Err(AmountOpError { lhs: self, rhs: None, op: "-" })
        } else {
            Ok(Amount(-self.0))
        }
    }

    /// Checked addition.
    pub fn add(self, rhs: Amount) -> (r: Result<Amount, AmountOpError>)
        ensures
            r == add_result(self, rhs),
    {
        match self.0.checked_add(rhs.0) {
            Some(v) => Ok(Amount(v)),
            None => Err(AmountOpError { lhs: self, rhs: Some(rhs), op: "+" }),
        }
    }

    /// Checked subtraction.
    pub fn sub(self, rhs: Amount) -> (r: Result<Amount, AmountOpError>)
        ensures
            r == sub_result(self, rhs),
    {
        match self.0.checked_sub(rhs.0) {
            Some(v) => Ok(Amount(v)),
            None => Err(AmountOpError { lhs: self, rhs: Some(rhs), op: "-" }),
        }
    }
}

impl Default for Amount {
    fn default() -> (r: Amount)
        ensures
            r@ == 0,
    {
        Amount(0)
    }
}

} // verus!

verus! {

proof fn lemma_four_digits(f: int)
    requires
        0 <= f < 10000,
    ensures
        four_digits(f).len() == 4,
        all_digits(four_digits(f)),
        is_digit(four_digits(f)[0]),
        digits_value(four_digits(f)) == f,
{
    let (d3, d2, d1, d0) = (f / 1000, (f / 100) % 10, (f / 10) % 10, f % 10);
    lemma_digit_char(d3);
    lemma_digit_char(d2);
    lemma_digit_char(d1);
    lemma_digit_char(d0);
    let e = Seq::<char>::empty();
    let s1 = e.push(digit_char(d3));
    let s2 = s1.push(digit_char(d2));
    let s3 = s2.push(digit_char(d1));
    let s4 = s3.push(digit_char(d0));
    assert(s4 =~= four_digits(f));
    lemma_digits_push(e, digit_char(d3));
    lemma_digits_push(s1, digit_char(d2));
    lemma_digits_push(s2, digit_char(d1));
    lemma_digits_push(s3, digit_char(d0));
    assert(1000 * d3 + 100 * d2 + 10 * d1 + d0 == f);
}

/// Reading the canonical text of any amount gives that amount back.
pub proof fn lemma_parse_display(v: int)
    requires
        fits(v),
    ensures
        parse_amount(display(v)) == Some(v),
{
    let a = abs(v);
    let w = a / 10000;
    let f = a % 10000;
    let dw = decimal(w as nat);
    let fd = four_digits(f);
    lemma_decimal(w as nat);
    lemma_four_digits(f);
    let s = display(v);
    let body = dw + seq!['.'] + fd;
    lemma_display_body(v);
    assert forall|j: int| 0 <= j < dw.len() implies body[j] != '.' by {
        assert(body[j] == dw[j]);
    }
    lemma_first_dot(body, dw.len() as int);
    assert(integer_part(s) =~= dw);
    assert(body.skip(dw.len() as int + 1) =~= fd);
    assert(fraction_part(s) == Some(fd));
    assert(fraction_window(fd) =~= fd);
    assert(parse_unsigned(fd) == Some(f));
    assert(fraction_value(s) == Some(f));
    assert(parse_i64(dw) == Some(w));
    assert(10000 * w + f == a);
    assert(fits(10000 * w));
}

/// Without its sign, the canonical text is the whole units, a `.`, and four digits.
proof fn lemma_display_body(v: int)
    requires
        fits(v),
    ensures
        is_negative(display(v)) == (v < 0),
        unsigned_part(display(v)) == decimal((abs(v) / 10000) as nat) + seq!['.'] + four_digits(
            abs(v) % 10000,
        ),
{
    let dw = decimal((abs(v) / 10000) as nat);
    let body = dw + seq!['.'] + four_digits(abs(v) % 10000);
    let s = display(v);
    lemma_decimal((abs(v) / 10000) as nat);
    if v < 0 {
        assert(s =~= seq!['-'] + body);
        assert(unsigned_part(s) =~= body);
    } else {
        assert(s =~= body);
        assert(s[0] == dw[0]);
        assert(unsigned_part(s) =~= body);
    }
}

/// The law of the canonical text: rendering what was read from a rendering gives that
/// rendering again.
pub proof fn lemma_display_round_trip(a: Amount)
    ensures
        parse_amount(display(a@)) is Some,
        display(parse_amount(display(a@))->Some_0) == display(a@),
{
    broadcast use group_amount;

    lemma_parse_display(a@);
}

/// Digits past the fourth fractional one are dropped, not rounded: once the fractional part
/// holds four characters, whatever follows changes nothing.
pub proof fn lemma_truncation(s: Seq<char>, t: Seq<char>)
    requires
        fraction_part(s) matches Some(f) && f.len() >= 4,
    ensures
        parse_amount(s + t) == parse_amount(s),
{
    let u = unsigned_part(s);
    let k = first_dot(u);
    let f = fraction_part(s)->Some_0;
    assert(s.len() > 0);
    assert((s + t)[0] == s[0]);
    assert(unsigned_part(s + t) =~= u + t);
    lemma_first_dot_append(u, t);
    lemma_first_dot_range(u);
    assert(integer_part(s + t) =~= integer_part(s));
    assert((u + t).skip(k + 1) =~= f + t);
    assert(fraction_window(f + t) =~= fraction_window(f));
}

proof fn lemma_first_dot_append(u: Seq<char>, t: Seq<char>)
    requires
        first_dot(u) < u.len(),
    ensures
        first_dot(u + t) == first_dot(u),
    decreases u.len(),
{
    if u[0] != '.' {
        assert((u + t).drop_first() =~= u.drop_first() + t);
        lemma_first_dot_append(u.drop_first(), t);
    }
}

} // verus!

verus! {

proof fn lemma_first_dot_range(u: Seq<char>)
    ensures
        0 <= first_dot(u) <= u.len(),
    decreases u.len(),
{
    if u.len() > 0 && u[0] != '.' {
        lemma_first_dot_range(u.drop_first());
    }
}

} // verus!
