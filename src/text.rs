use vstd::prelude::*;

verus! {

/// The character of the decimal digit `d`, for `0 <= d < 10`.
pub open spec fn digit_char(d: int) -> char {
    ((d + 48) as u8) as char
}

pub open spec fn is_digit(c: char) -> bool {
    '0' <= c && c <= '9'
}

pub open spec fn digit_value(c: char) -> int {
    (c as u32) - 48
}

pub open spec fn all_digits(s: Seq<char>) -> bool {
    forall|i: int| 0 <= i < s.len() ==> is_digit(#[trigger] s[i])
}

/// The number that a string of decimal digits denotes, most significant first.
pub open spec fn digits_value(s: Seq<char>) -> int
    decreases s.len(),
{
    if s.len() == 0 {
        0
    } else {
        10 * digits_value(s.drop_last()) + digit_value(s.last())
    }
}

/// The shortest decimal rendering of `n`.
pub open spec fn decimal(n: nat) -> Seq<char>
    decreases n,
{
    if n < 10 {
        seq![digit_char(n as int)]
    } else {
        decimal(n / 10).push(digit_char(n as int % 10))
    }
}

pub proof fn lemma_digit_char(d: int)
    requires
        0 <= d < 10,
    ensures
        is_digit(digit_char(d)),
        digit_value(digit_char(d)) == d,
        digit_char(d) != '.',
        digit_char(d) != '-',
        digit_char(d) != '+',
{
    assert(((d + 48) as u8) as int == d + 48);
}

pub proof fn lemma_digits_nonneg(s: Seq<char>)
    requires
        all_digits(s),
    ensures
        digits_value(s) >= 0,
    decreases s.len(),
{
    if s.len() > 0 {
        assert(all_digits(s.drop_last()));
        lemma_digits_nonneg(s.drop_last());
        assert(is_digit(s[s.len() - 1]));
    }
}

/// A prefix of a digit string denotes no more than the whole string.
pub proof fn lemma_digits_prefix(s: Seq<char>, j: int)
    requires
        all_digits(s),
        0 <= j <= s.len(),
    ensures
        0 <= digits_value(s.take(j)) <= digits_value(s),
    decreases s.len(),
{
    if j == s.len() {
        assert(s.take(j) =~= s);
        lemma_digits_nonneg(s);
    } else {
        let t = s.drop_last();
        assert(all_digits(t));
        lemma_digits_prefix(t, j);
        assert(t.take(j) =~= s.take(j));
        lemma_digits_nonneg(t);
        assert(is_digit(s[s.len() - 1]));
    }
}

/// Extending a digit string by one digit.
pub proof fn lemma_digits_push(s: Seq<char>, c: char)
    ensures
        digits_value(s.push(c)) == 10 * digits_value(s) + digit_value(c),
{
    assert(s.push(c).drop_last() =~= s);
}

pub proof fn lemma_decimal(n: nat)
    ensures
        decimal(n).len() > 0,
        all_digits(decimal(n)),
        digits_value(decimal(n)) == n,
        is_digit(decimal(n)[0]),
        forall|i: int| 0 <= i < decimal(n).len() ==> #[trigger] decimal(n)[i] != '.',
    decreases n,
{
    if n < 10 {
        lemma_digit_char(n as int);
        lemma_digits_push(Seq::<char>::empty(), digit_char(n as int));
        assert(seq![digit_char(n as int)] =~= Seq::<char>::empty().push(digit_char(n as int)));
    } else {
        lemma_decimal(n / 10);
        lemma_digit_char(n as int % 10);
        lemma_digits_push(decimal(n / 10), digit_char(n as int % 10));
    }
}

/// Relies on `String::push`: it appends the one character `c` to `s`.
#[verifier::external_body]
pub(crate) fn push_char(s: &mut String, c: char)
    ensures
        final(s)@ == old(s)@.push(c),
{
    s.push(c)
}

pub(crate) fn digit_to_char(d: u64) -> (c: char)
    requires
        d < 10,
    ensures
        c == digit_char(d as int),
{
    ((d as u8) + 48) as char
}

/// Appends the decimal rendering of `n` to `s`.
pub(crate) fn push_decimal(s: &mut String, n: u64)
    ensures
        final(s)@ == old(s)@ + decimal(n as nat),
    decreases n,
{
    if n >= 10 {
        push_decimal(s, n / 10);
    }
    push_char(s, digit_to_char(n % 10));
    assert(final(s)@ =~= old(s)@ + decimal(n as nat));
}

/// The characters of `s`, one per element.
pub(crate) fn chars_of(s: &str) -> (r: Vec<char>)
    ensures
        r@ == s@,
{
    let mut r: Vec<char> = Vec::new();
    for c in it: s.chars()
        invariant
            it.seq() == s@,
            r@ == it.seq().take(it.index() as int),
    {
        r.push(c);
        assert(r@ =~= it.seq().take(it.index() as int + 1));
    }
    assert(r@ =~= s@);
    r
}

} // verus!

verus! {

pub open spec fn pow10(n: nat) -> int
    decreases n,
{
    if n == 0 {
        1
    } else {
        10 * pow10((n - 1) as nat)
    }
}

/// A string of `n` digits denotes less than `10^n`.
pub proof fn lemma_digits_bound(s: Seq<char>)
    requires
        all_digits(s),
    ensures
        digits_value(s) < pow10(s.len()),
    decreases s.len(),
{
    if s.len() > 0 {
        assert(all_digits(s.drop_last()));
        lemma_digits_bound(s.drop_last());
        assert(is_digit(s[s.len() - 1]));
    }
}

/// Largest magnitude of a signed 64-bit integer: `2^63`.
pub const MAGNITUDE_LIMIT: u64 = 9223372036854775808;

/// Reads `cs[lo..hi]` as a string of decimal digits. `None` when a character is not a
/// digit or the value exceeds `2^63`; the empty range reads as zero.
pub(crate) fn scan_digits(cs: &Vec<char>, lo: usize, hi: usize) -> (r: Option<u64>)
    requires
        lo <= hi <= cs@.len(),
    ensures
        match r {
            Some(v) => all_digits(cs@.subrange(lo as int, hi as int)) && v == digits_value(
                cs@.subrange(lo as int, hi as int),
            ) && v <= MAGNITUDE_LIMIT,
            None => !all_digits(cs@.subrange(lo as int, hi as int)) || digits_value(
                cs@.subrange(lo as int, hi as int),
            ) > MAGNITUDE_LIMIT,
        },
{
    let ghost sub = cs@.subrange(lo as int, hi as int);
    let mut acc: u64 = 0;
    let mut i: usize = lo;
    proof {
        assert(cs@.subrange(lo as int, lo as int) =~= Seq::<char>::empty());
    }
    while i < hi
        invariant
            lo <= i <= hi <= cs@.len(),
            sub == cs@.subrange(lo as int, hi as int),
            all_digits(cs@.subrange(lo as int, i as int)),
            acc == digits_value(cs@.subrange(lo as int, i as int)),
            acc <= MAGNITUDE_LIMIT,
        decreases hi - i,
    {
        let c = cs[i];
        if !('0' <= c && c <= '9') {
            assert(!is_digit(sub[i - lo]));
            return None;
        }
        let d: u64 = (c as u32 - 48) as u64;
        let ghost next = cs@.subrange(lo as int, i + 1);
        proof {
            assert(next =~= cs@.subrange(lo as int, i as int).push(c));
            lemma_digits_push(cs@.subrange(lo as int, i as int), c);
            assert(all_digits(next)) by {
                assert forall|j: int| 0 <= j < next.len() implies is_digit(#[trigger] next[j]) by {
                    if j < next.len() - 1 {
                        assert(next[j] == cs@.subrange(lo as int, i as int)[j]);
                    }
                }
            }
        }
        if acc > (MAGNITUDE_LIMIT - d) / 10 {
            proof {
                if all_digits(sub) {
                    lemma_digits_prefix(sub, i + 1 - lo);
                    assert(sub.take(i + 1 - lo) =~= next);
                }
            }
            return None;
        }
        acc = acc * 10 + d;
        i += 1;
    }
    Some(acc)
}

} // verus!

verus! {

/// Whether two strings hold the same characters.
pub(crate) fn same_text(a: &str, b: &str) -> (r: bool)
    ensures
        r == (a@ == b@),
{
    let x = chars_of(a);
    let y = chars_of(b);
    if x.len() != y.len() {
        return false;
    }
    let mut i: usize = 0;
    while i < x.len()
        invariant
            x@ == a@,
            y@ == b@,
            x@.len() == y@.len(),
            i <= x@.len(),
            forall|j: int| 0 <= j < i ==> x@[j] == y@[j],
        decreases x@.len() - i,
    {
        if x[i] != y[i] {
            return false;
        }
        i += 1;
    }
    assert(x@ =~= y@);
    true
}

} // verus!
