//! Decimal numbers as they appear in observed values and rule thresholds.
//!
//! A number is written `[+-]digits[.digits][(e|E)[+-]digits]`: either digit
//! run of the mantissa may be empty, not both, and the exponent has one to
//! four digits. It is held exactly, as a signed integer mantissa over a power
//! of ten, and compared exactly: there is no rounding and no tolerance.
//!
//! Where this differs from reading the text as a double-precision float:
//! - `inf`, `infinity` and `nan` are no numbers (a NaN never satisfies a
//!   comparison anyway);
//! - the digits of the mantissa, taken as one integer, must fit a `u64`, and
//!   the value must have at most `MAX_SCALE` digits after the point or be an
//!   integer that fits a `u64`; other texts are no numbers;
//! - two texts that round to the same float but denote different decimals,
//!   such as `0.30000000000000001` and `0.3`, compare as different.
use vstd::prelude::*;

use crate::text::chars_of;

verus! {

/// The largest number of digits after the decimal point that a number keeps.
pub const MAX_SCALE: u32 = 18;

/// The value `(-1)^negative * mantissa / 10^scale`.
#[derive(Clone, Copy, Debug, PartialEq, Eq)]
pub struct Decimal {
    pub negative: bool,
    pub mantissa: u64,
    pub scale: u32,
}

pub open spec fn pow10(n: nat) -> int
    decreases n,
{
    if n == 0 {
        1
    } else {
        10 * pow10((n - 1) as nat)
    }
}

pub open spec fn is_digit(c: char) -> bool {
    '0' <= c && c <= '9'
}

pub open spec fn digit_value(c: char) -> int {
    c as int - '0' as int
}

pub open spec fn all_digits(ds: Seq<char>) -> bool {
    forall|i: int| 0 <= i < ds.len() ==> is_digit(#[trigger] ds[i])
}

/// The integer that a run of decimal digits denotes.
pub open spec fn digits_value(ds: Seq<char>) -> int
    decreases ds.len(),
{
    if ds.len() == 0 {
        0
    } else {
        digits_value(ds.drop_last()) * 10 + digit_value(ds.last())
    }
}

/// Length of the optional leading sign.
pub open spec fn sign_len(s: Seq<char>) -> int {
    if s.len() > 0 && (s[0] == '+' || s[0] == '-') {
        1
    } else {
        0
    }
}

/// Splits an unsigned numeral into its integer and fraction digits.
pub open spec fn split_numeral(b: Seq<char>) -> Option<(Seq<char>, Seq<char>)> {
    if all_digits(b) {
        Some((b, Seq::<char>::empty()))
    } else if exists|k: int| 0 <= k < b.len() && b[k] == '.' {
        let k = choose|k: int| 0 <= k < b.len() && b[k] == '.';
        let ip = b.subrange(0, k);
        let fp = b.subrange(k + 1, b.len() as int);
        if all_digits(ip) && all_digits(fp) {
            Some((ip, fp))
        } else {
            None
        }
    } else {
        None
    }
}

/// The sign, the value of the digits and the number of fraction digits of
/// a numeral `[+-]digits[.digits]` without exponent.
pub open spec fn mantissa_of(s: Seq<char>) -> Option<(bool, int, int)> {
    let b = s.subrange(sign_len(s), s.len() as int);
    match split_numeral(b) {
        Some((ip, fp)) => {
            if ip.len() + fp.len() > 0 {
                Some((sign_len(s) == 1 && s[0] == '-', digits_value(ip + fp), fp.len() as int))
            } else {
                None
            }
        },
        None => None,
    }
}

pub open spec fn is_exponent_mark(c: char) -> bool {
    c == 'e' || c == 'E'
}

/// The position of the first exponent mark of `s`, or its length.
pub open spec fn exp_index(s: Seq<char>) -> int
    decreases s.len(),
{
    if s.len() == 0 || is_exponent_mark(s[0]) {
        0
    } else {
        1 + exp_index(s.drop_first())
    }
}

/// The value of an exponent `[+-]digits` of one to four digits.
pub open spec fn exponent_of(t: Seq<char>) -> Option<int> {
    let ds = t.subrange(sign_len(t), t.len() as int);
    if 1 <= ds.len() <= 4 && all_digits(ds) {
        Some(
            if sign_len(t) == 1 && t[0] == '-' {
                -digits_value(ds)
            } else {
                digits_value(ds)
            },
        )
    } else {
        None
    }
}

/// The number that a text `mantissa[(e|E)exponent]` denotes, if its mantissa
/// digits fit a `u64` and the value fits a `Decimal`: at most `MAX_SCALE`
/// digits after the point, or an integer that fits a `u64`.
pub open spec fn decimal_of(s: Seq<char>) -> Option<Decimal> {
    let q = exp_index(s);
    let e = if q < s.len() {
        exponent_of(s.subrange(q + 1, s.len() as int))
    } else {
        Some(0int)
    };
    match (mantissa_of(s.subrange(0, q)), e) {
        (Some((negative, m, f)), Some(e)) => {
            if m > u64::MAX {
                None
            } else if e < f {
                if f - e <= MAX_SCALE {
                    Some(Decimal { negative, mantissa: m as u64, scale: (f - e) as u32 })
                } else {
                    None
                }
            } else if m * pow10((e - f) as nat) <= u64::MAX {
                Some(Decimal { negative, mantissa: (m * pow10((e - f) as nat)) as u64, scale: 0 })
            } else {
                None
            }
        },
        _ => None,
    }
}

impl Decimal {
    pub open spec fn wf(self) -> bool {
        self.scale <= MAX_SCALE
    }

    /// The signed numerator over the denominator `10^scale`.
    pub open spec fn numerator(self) -> int {
        if self.negative {
            -(self.mantissa as int)
        } else {
            self.mantissa as int
        }
    }

    /// `self < other` as rational numbers.
    pub open spec fn lt(self, other: Decimal) -> bool {
        self.numerator() * pow10(other.scale as nat) < other.numerator() * pow10(self.scale as nat)
    }

    /// `self == other` as rational numbers.
    pub open spec fn same_value(self, other: Decimal) -> bool {
        self.numerator() * pow10(other.scale as nat) == other.numerator() * pow10(self.scale as nat)
    }
}

proof fn lemma_pow10_monotonic(a: nat, b: nat)
    requires
        a <= b,
    ensures
        1 <= pow10(a) <= pow10(b),
    decreases b,
{
    if b > a {
        lemma_pow10_monotonic(a, (b - 1) as nat);
    } else if a > 0 {
        lemma_pow10_monotonic((a - 1) as nat, (a - 1) as nat);
    }
}

proof fn lemma_pow10_bounds(n: nat)
    requires
        n <= MAX_SCALE,
    ensures
        1 <= pow10(n) <= 1_000_000_000_000_000_000,
{
    reveal_with_fuel(pow10, 19);
    lemma_pow10_monotonic(n, 18);
}

/// `10^n` for the small exponents a `Decimal` uses.
fn pow10_u64(n: u32) -> (r: u64)
    requires
        n <= MAX_SCALE,
    ensures
        r as int == pow10(n as nat),
{
    let mut r: u64 = 1;
    let mut i: u32 = 0;
    while i < n
        invariant
            i <= n <= MAX_SCALE,
            r as int == pow10(i as nat),
        decreases n - i,
    {
        proof {
            lemma_pow10_bounds((i + 1) as nat);
        }
        r = r * 10;
        i = i + 1;
    }
    r
}

/// The numerator of `d` brought over the denominator `10^(d.scale + s)`.
fn scaled_numerator(d: &Decimal, s: u32) -> (r: i128)
    requires
        s <= MAX_SCALE,
    ensures
        r as int == d.numerator() * pow10(s as nat),
{
    let p = pow10_u64(s);
    proof {
        lemma_pow10_bounds(s as nat);
        let m = d.mantissa as int;
        let q = p as int;
        assert(0 <= m * q <= 18_446_744_073_709_551_615int * 1_000_000_000_000_000_000int)
            by (nonlinear_arith)
            requires
                0 <= m <= 18_446_744_073_709_551_615int,
                0 <= q <= 1_000_000_000_000_000_000int,
        ;
    }
    let m = (d.mantissa as i128) * (p as i128);
    proof {
        let x = d.mantissa as int;
        let q = p as int;
        assert((-x) * q == -(x * q)) by (nonlinear_arith);
    }
    if d.negative {
        -m
    } else {
        m
    }
}

impl Decimal {
    /// Whether `self` is smaller than `other`.
    pub fn less_than(&self, other: &Decimal) -> (r: bool)
        requires
            self.wf(),
            other.wf(),
        ensures
            r == self.lt(*other),
    {
        scaled_numerator(self, other.scale) < scaled_numerator(other, self.scale)
    }

    /// Whether `self` and `other` denote the same number.
    pub fn equals(&self, other: &Decimal) -> (r: bool)
        requires
            self.wf(),
            other.wf(),
        ensures
            r == self.same_value(*other),
    {
        scaled_numerator(self, other.scale) == scaled_numerator(other, self.scale)
    }
}

proof fn lemma_digits_value_nonneg(ds: Seq<char>)
    requires
        all_digits(ds),
    ensures
        0 <= digits_value(ds),
    decreases ds.len(),
{
    if ds.len() > 0 {
        assert(is_digit(ds[ds.len() - 1]));
        lemma_digits_value_nonneg(ds.drop_last());
    }
}

/// A prefix of a digit run never denotes more than the whole run.
proof fn lemma_digits_value_prefix(ds: Seq<char>, j: int)
    requires
        all_digits(ds),
        0 <= j <= ds.len(),
    ensures
        digits_value(ds.subrange(0, j)) <= digits_value(ds),
    decreases ds.len(),
{
    if j == ds.len() {
        assert(ds.subrange(0, j) =~= ds);
    } else {
        let d = ds.drop_last();
        assert(is_digit(ds[ds.len() - 1]));
        lemma_digits_value_nonneg(d);
        lemma_digits_value_prefix(d, j);
        assert(d.subrange(0, j) =~= ds.subrange(0, j));
    }
}

fn is_digit_char(c: char) -> (r: bool)
    ensures
        r == is_digit(c),
{
    '0' <= c && c <= '9'
}

/// Splits the unsigned numeral that starts at `start` as `split_numeral`
/// does: returns its integer and fraction digits joined, and the number of
/// fraction digits.
fn split_digits(cs: &Vec<char>, start: usize) -> (r: Option<(Vec<char>, usize)>)
    requires
        start <= cs@.len(),
    ensures
        ({
            let b = cs@.subrange(start as int, cs@.len() as int);
            match split_numeral(b) {
                Some((ip, fp)) => r matches Some((v, f)) && v@ == ip + fp && f == fp.len(),
                None => r is None,
            }
        }),
{
    let n = cs.len();
    let ghost b = cs@.subrange(start as int, n as int);
    let mut k: usize = start;
    while k < n && is_digit_char(cs[k])
        invariant
            start <= k <= n == cs@.len(),
            forall|j: int| start <= j < k ==> is_digit(#[trigger] cs@[j]),
        decreases n - k,
    {
        k = k + 1;
    }
    let mut ds: Vec<char> = Vec::new();
    let mut i: usize = start;
    while i < k
        invariant
            start <= i <= k <= n == cs@.len(),
            ds@ == cs@.subrange(start as int, i as int),
        decreases k - i,
    {
        ds.push(cs[i]);
        i = i + 1;
    }
    let ghost ip = ds@;
    if k == n {
        assert(b =~= ip);
        assert(all_digits(b));
        assert(ds@ =~= ip + Seq::<char>::empty());
        return Some((ds, 0));
    }
    let kb: Ghost<int> = Ghost(k - start);
    assert(b[kb@] == cs@[k as int]);
    assert(!all_digits(b)) by {
        assert(!is_digit(b[kb@]));
    }
    if cs[k] != '.' {
        proof {
            if exists|q: int| 0 <= q < b.len() && b[q] == '.' {
                let q = choose|q: int| 0 <= q < b.len() && b[q] == '.';
                assert(q > kb@) by {
                    if q < kb@ {
                        assert(is_digit(cs@[start + q]));
                    }
                }
                assert(b.subrange(0, q)[kb@] == b[kb@]);
            }
        }
        return None;
    }
    let mut j: usize = k + 1;
    while j < n
        invariant
            start <= k < j <= n == cs@.len(),
            b == cs@.subrange(start as int, n as int),
            kb@ == k - start,
            cs@[k as int] == '.',
            ds@ == ip + cs@.subrange(k + 1, j as int),
            forall|t: int| start <= t < k ==> is_digit(#[trigger] cs@[t]),
            forall|t: int| k < t < j ==> is_digit(#[trigger] cs@[t]),
        decreases n - j,
    {
        if !is_digit_char(cs[j]) {
            proof {
                assert(b[kb@] == '.');
                let q = choose|q: int| 0 <= q < b.len() && b[q] == '.';
                if q == kb@ {
                    assert(b[j - start] == cs@[j as int]);
                    assert(b.subrange(q + 1, b.len() as int)[j - k - 1] == cs@[j as int]);
                } else {
                    assert(q > kb@) by {
                        if q < kb@ {
                            assert(is_digit(cs@[start + q]));
                        }
                    }
                    assert(b.subrange(0, q)[kb@] == b[kb@]);
                }
            }
            return None;
        }
        ds.push(cs[j]);
        proof {
            assert(cs@.subrange(k + 1, j + 1) =~= cs@.subrange(k + 1, j as int).push(cs@[j as int]));
        }
        j = j + 1;
    }
    proof {
        assert(b[kb@] == '.');
        let q = choose|q: int| 0 <= q < b.len() && b[q] == '.';
        assert(q == kb@) by {
            if q < kb@ {
                assert(is_digit(cs@[start + q]));
            } else if q > kb@ {
                assert(is_digit(cs@[start + q]));
            }
        }
        assert(b.subrange(0, q) =~= ip);
        assert(b.subrange(q + 1, b.len() as int) =~= cs@.subrange(k + 1, n as int));
    }
    Some((ds, n - (k + 1)))
}

/// Reads a numeral without exponent: its sign, the value of its digits and
/// the number of its fraction digits, where the value fits a `u64`.
fn read_mantissa(cs: &Vec<char>) -> (r: Option<(bool, u64, usize)>)
    ensures
        r matches Some((negative, m, f)) ==> mantissa_of(cs@) == Some(
            (negative, m as int, f as int),
        ),
        r is None ==> match mantissa_of(cs@) {
            Some((_, m, _)) => m > u64::MAX,
            None => true,
        },
{
    let n = cs.len();
    let start: usize = if n > 0 && (cs[0] == '+' || cs[0] == '-') {
        1
    } else {
        0
    };
    let negative = start == 1 && cs[0] == '-';
    let (ds, scale) = match split_digits(cs, start) {
        Some(p) => p,
        None => {
            return None;
        },
    };
    proof {
        assert(cs@.subrange(start as int, n as int) =~= cs@.subrange(sign_len(cs@), cs@.len() as int));
        let sp = split_numeral(cs@.subrange(sign_len(cs@), cs@.len() as int));
        assert(sp is Some);
        let (ip, fp) = sp->0;
        assert(ds@ == ip + fp);
    }
    if ds.len() == 0 {
        return None;
    }
    assert(mantissa_of(cs@) == Some((negative, digits_value(ds@), scale as int)));
    let mut acc: u128 = 0;
    let mut i: usize = 0;
    while i < ds.len()
        invariant
            mantissa_of(cs@) == Some((negative, digits_value(ds@), scale as int)),
            i <= ds@.len(),
            all_digits(ds@),
            acc as int == digits_value(ds@.subrange(0, i as int)),
            acc <= u64::MAX,
        decreases ds@.len() - i,
    {
        let c = ds[i];
        proof {
            assert(is_digit(ds@[i as int]));
            assert(ds@.subrange(0, i + 1).drop_last() =~= ds@.subrange(0, i as int));
        }
        let d = (c as u32 - '0' as u32) as u128;
        acc = acc * 10 + d;
        if acc > u64::MAX as u128 {
            proof {
                let x = ds@.subrange(0, i + 1);
                assert(x.last() == c);
                assert(digits_value(x) == digits_value(x.drop_last()) * 10 + digit_value(c));
                lemma_digits_value_prefix(ds@, i + 1);
                assert(digits_value(ds@) > u64::MAX);
            }
            return None;
        }
        i = i + 1;
    }
    assert(ds@.subrange(0, ds@.len() as int) =~= ds@);
    Some((negative, acc as u64, scale))
}

/// The position of the first exponent mark of `cs`, or its length.
fn find_exponent_mark(cs: &Vec<char>) -> (r: usize)
    ensures
        r == exp_index(cs@),
        r <= cs@.len(),
{
    let n = cs.len();
    assert(cs@.subrange(0, n as int) =~= cs@);
    let mut i: usize = 0;
    while i < n && cs[i] != 'e' && cs[i] != 'E'
        invariant
            n == cs@.len(),
            i <= n,
            exp_index(cs@) == i + exp_index(cs@.subrange(i as int, n as int)),
        decreases n - i,
    {
        proof {
            let t = cs@.subrange(i as int, n as int);
            assert(t[0] == cs@[i as int]);
            assert(t.drop_first() =~= cs@.subrange(i + 1, n as int));
        }
        i = i + 1;
    }
    proof {
        let t = cs@.subrange(i as int, n as int);
        if i < n {
            assert(t[0] == cs@[i as int]);
        }
    }
    i
}

proof fn lemma_digits_value_bound(ds: Seq<char>)
    requires
        all_digits(ds),
    ensures
        0 <= digits_value(ds) < pow10(ds.len()),
    decreases ds.len(),
{
    if ds.len() > 0 {
        assert(is_digit(ds[ds.len() - 1]));
        lemma_digits_value_bound(ds.drop_last());
    }
}

/// Reads the exponent `cs[from..]` (see `exponent_of`).
fn read_exponent(cs: &Vec<char>, from: usize) -> (r: Option<i64>)
    requires
        from <= cs@.len(),
    ensures
        match exponent_of(cs@.subrange(from as int, cs@.len() as int)) {
            Some(e) => r == Some(e as i64) && -10000 < e < 10000,
            None => r is None,
        },
{
    let n = cs.len();
    let ghost t = cs@.subrange(from as int, n as int);
    let start: usize = if from < n && (cs[from] == '+' || cs[from] == '-') {
        from + 1
    } else {
        from
    };
    let negative = start > from && cs[from] == '-';
    proof {
        if from < n {
            assert(t[0] == cs@[from as int]);
        }
    }
    let ghost ds = cs@.subrange(start as int, n as int);
    assert(ds =~= t.subrange(sign_len(t), t.len() as int));
    assert(negative == (sign_len(t) == 1 && t[0] == '-'));
    if n - start < 1 || n - start > 4 {
        return None;
    }
    let mut acc: i64 = 0;
    let mut i: usize = start;
    while i < n
        invariant
            start <= i <= n == cs@.len(),
            n - start <= 4,
            t == cs@.subrange(from as int, n as int),
            ds == cs@.subrange(start as int, n as int),
            ds == t.subrange(sign_len(t), t.len() as int),
            negative == (sign_len(t) == 1 && t[0] == '-'),
            1 <= ds.len() <= 4,
            0 <= acc,
            all_digits(cs@.subrange(start as int, i as int)),
            acc as int == digits_value(cs@.subrange(start as int, i as int)),
            acc < 10000,
        decreases n - i,
    {
        let c = cs[i];
        if !('0' <= c && c <= '9') {
            assert(ds[i - start] == c);
            assert(!is_digit(ds[i - start]));
            return None;
        }
        proof {
            let x = cs@.subrange(start as int, i + 1);
            assert(x.drop_last() =~= cs@.subrange(start as int, i as int));
            assert(x.last() == c);
            assert(all_digits(x));
            lemma_digits_value_bound(x);
            reveal_with_fuel(pow10, 5);
            lemma_pow10_monotonic(x.len(), 4);
        }
        acc = acc * 10 + (c as u32 - '0' as u32) as i64;
        i = i + 1;
    }
    assert(cs@.subrange(start as int, n as int) =~= ds);
    if negative {
        Some(-acc)
    } else {
        Some(acc)
    }
}

impl Decimal {
    /// Reads a number from its text; `None` where the text is no numeral or
    /// the number does not fit (see `decimal_of`).
    pub fn parse(s: &str) -> (r: Option<Decimal>)
        ensures
            r == decimal_of(s@),
            r matches Some(d) ==> d.wf(),
    {
        let cs = chars_of(s);
        let n = cs.len();
        let q = find_exponent_mark(&cs);
        let mut mant: Vec<char> = Vec::new();
        let mut i: usize = 0;
        while i < q
            invariant
                q <= n == cs@.len(),
                i <= q,
                mant@ == cs@.subrange(0, i as int),
            decreases q - i,
        {
            mant.push(cs[i]);
            i = i + 1;
        }
        let e: i64 = if q < n {
            match read_exponent(&cs, q + 1) {
                Some(e) => e,
                None => {
                    return None;
                },
            }
        } else {
            0
        };
        proof {
            assert(mant@ =~= s@.subrange(0, q as int));
        }
        let (negative, m, f) = match read_mantissa(&mant) {
            Some(t) => t,
            None => {
                return None;
            },
        };
        assert(mantissa_of(s@.subrange(0, q as int)) == Some((negative, m as int, f as int)));
        assert(q < n ==> exponent_of(s@.subrange(q + 1, n as int)) == Some(e as int));
        assert(q >= n ==> e == 0);
        proof {
            assert(mant@ =~= s@.subrange(0, q as int));
        }
        if (f as i128) > (e as i128) {
            let scale = (f as i128) - (e as i128);
            if scale > MAX_SCALE as i128 {
                return None;
            }
            return Some(Decimal { negative, mantissa: m, scale: scale as u32 });
        }
        let k = (e as i128 - f as i128) as u64;
        let ghost mi = m as int;
        proof {
            assert(mant@ =~= s@.subrange(0, q as int));
        }
        let ghost expected = if mi * pow10(k as nat) <= u64::MAX {
            Some(Decimal { negative, mantissa: (mi * pow10(k as nat)) as u64, scale: 0 })
        } else {
            None
        };
        assert(decimal_of(s@) == expected);
        let mut acc: u128 = m as u128;
        let mut j: u64 = 0;
        while j < k
            invariant
                decimal_of(s@) == expected,
                expected == (if mi * pow10(k as nat) <= u64::MAX {
                    Some(Decimal { negative, mantissa: (mi * pow10(k as nat)) as u64, scale: 0 })
                } else {
                    None
                }),
                mi == m as int,
                j <= k,
                0 <= mi <= u64::MAX,
                acc as int == mi * pow10(j as nat),
                acc <= u64::MAX,
            decreases k - j,
        {
            proof {
                assert(mi * pow10((j + 1) as nat) == mi * pow10(j as nat) * 10) by (nonlinear_arith)
                    requires
                        pow10((j + 1) as nat) == 10 * pow10(j as nat),
                ;
            }
            acc = acc * 10;
            if acc > u64::MAX as u128 {
                proof {
                    lemma_pow10_monotonic((j + 1) as nat, k as nat);
                    let a = pow10((j + 1) as nat);
                    let b = pow10(k as nat);
                    assert(mi * a <= mi * b) by (nonlinear_arith)
                        requires
                            0 <= mi,
                            a <= b,
                    ;
                }
                return None;
            }
            j = j + 1;
        }
        Some(Decimal { negative, mantissa: acc as u64, scale: 0 })
    }
}

} // verus!
