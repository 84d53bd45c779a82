use vstd::prelude::*;

use crate::lexical::{
    all_digits, digits_value, is_digit, lemma_digits_grow, lemma_digits_nonneg, scan_digits, str_equals, DOT, MINUS, PLUS,
};

verus! {

/// Sampling interval of a price series.
#[derive(Debug, Clone, Copy, PartialEq, Eq, Structural)]
pub enum Resolution {
    PT15M,
    PT60M,
}

/// The resolution that a code names, if any.
pub open spec fn resolution_of(code: Seq<char>) -> Option<Resolution> {
    if code == "PT15M"@ {
        Some(Resolution::PT15M)
    } else if code == "PT60M"@ {
        Some(Resolution::PT60M)
    } else {
        None
    }
}

impl Resolution {
    /// Minutes covered by one sample.
    pub open spec fn spec_minutes(self) -> int {
        match self {
            Resolution::PT15M => 15,
            Resolution::PT60M => 60,
        }
    }

    /// Reads a resolution code; an unknown code gives `None`.
    #[must_use]
    pub fn parse(s: &str) -> (r: Option<Resolution>)
        ensures
            r == resolution_of(s@),
    {
        if str_equals(s, "PT15M") {
            Some(Resolution::PT15M)
        } else if str_equals(s, "PT60M") {
            Some(Resolution::PT60M)
        } else {
            None
        }
    }

    #[must_use]
    pub fn minutes(&self) -> (r: i64)
        ensures
            r == self.spec_minutes(),
    {
        match self {
            Resolution::PT15M => 15,
            Resolution::PT60M => 60,
        }
    }
}

/// Most digits that a decimal may have after its point.
pub const MAX_SCALE: u32 = 28;

/// A decimal number `mantissa * 10^-scale`, kept as it was written: `45.60`
/// has mantissa 4560 and scale 2.
#[derive(Debug, Clone, Copy, PartialEq, Eq, Structural)]
pub struct Decimal {
    pub mantissa: i64,
    pub scale: u32,
}

/// ASCII `e`.
pub const LOWER_E: u8 = 101;

/// ASCII `E`.
pub const UPPER_E: u8 = 69;

pub open spec fn is_exponent_mark(b: u8) -> bool {
    b == LOWER_E || b == UPPER_E
}

/// The index of the first exponent mark of `s`, or its length.
pub open spec fn exponent_index(s: Seq<u8>) -> int
    decreases s.len(),
{
    if s.len() == 0 || is_exponent_mark(s[0]) {
        0
    } else {
        1 + exponent_index(s.drop_first())
    }
}

/// `k` is the point of mantissa text: digits before it and after it, at
/// least one digit in all.
pub open spec fn is_decimal_point(s: Seq<u8>, k: int) -> bool {
    &&& 0 <= k < s.len()
    &&& s[k] == DOT
    &&& all_digits(s.take(k))
    &&& all_digits(s.skip(k + 1))
    &&& s.len() > 1
}

/// Mantissa text read as (all its digits as one integer, digits after the
/// point).
pub open spec fn unsigned_decimal(s: Seq<u8>) -> Option<(int, int)> {
    if s.len() > 0 && all_digits(s) {
        Some((digits_value(s), 0))
    } else if exists|k: int| is_decimal_point(s, k) {
        let k = choose|k: int| is_decimal_point(s, k);
        Some((digits_value(s.take(k) + s.skip(k + 1)), s.len() - k - 1))
    } else {
        None
    }
}

/// Exponent text: an optional `-` or `+`, then at least one digit.
pub open spec fn exponent_value(s: Seq<u8>) -> Option<int> {
    let d = if s.len() > 0 && (s[0] == MINUS || s[0] == PLUS) {
        s.drop_first()
    } else {
        s
    };
    if d.len() > 0 && all_digits(d) {
        Some(
            if s[0] == MINUS {
                -digits_value(d)
            } else {
                digits_value(d)
            },
        )
    } else {
        None
    }
}

/// Unsigned number text: mantissa text, then optionally an exponent mark and
/// exponent text. Read as (all mantissa digits as one integer, digits after
/// the point less the exponent).
pub open spec fn unsigned_number(s: Seq<u8>) -> Option<(int, int)> {
    let k = exponent_index(s);
    match unsigned_decimal(s.take(k)) {
        None => None,
        Some((m, f)) => if k >= s.len() {
            Some((m, f))
        } else {
            match exponent_value(s.skip(k + 1)) {
                Some(e) => Some((m, f - e)),
                None => None,
            }
        },
    }
}

/// The decimal `m * 10^-p` (negated where asked), where it needs at most
/// `MAX_SCALE` places and its digits fit in an `i64`.
pub open spec fn decimal_of(negative: bool, m: int, p: int) -> Option<Decimal> {
    let v = if p >= 0 {
        m
    } else {
        m * pow10((-p) as nat)
    };
    let scale = if p >= 0 {
        p
    } else {
        0
    };
    if v <= i64::MAX && scale <= MAX_SCALE {
        Some(
            Decimal {
                mantissa: (if negative {
                    -v
                } else {
                    v
                }) as i64,
                scale: scale as u32,
            },
        )
    } else {
        None
    }
}

/// Decimal text: an optional `-` or `+`, then unsigned number text, as in
/// `45.60`, `.5`, `7.`, `4.5e1` or `1E-3`.
pub open spec fn decimal_value(s: Seq<u8>) -> Option<Decimal> {
    let signed = s.len() > 0 && (s[0] == MINUS || s[0] == PLUS);
    let body = if signed {
        s.drop_first()
    } else {
        s
    };
    match unsigned_number(body) {
        Some((m, p)) => decimal_of(s.len() > 0 && s[0] == MINUS, m, p),
        None => None,
    }
}

proof fn lemma_point_unique(s: Seq<u8>, k: int, j: int)
    requires
        is_decimal_point(s, j),
        0 <= k < s.len(),
        s[k] == DOT,
        all_digits(s.take(k)),
    ensures
        k == j,
{
    if j < k {
        assert(s.take(k)[j] == s[j]);
    } else if k < j {
        assert(s.take(j)[k] == s[k]);
    }
}

/// Digits are worth less than one followed by as many zeros.
proof fn lemma_digits_below(d: Seq<u8>)
    requires
        all_digits(d),
    ensures
        0 <= digits_value(d) < pow10(d.len()),
    decreases d.len(),
{
    lemma_digits_nonneg(d);
    if d.len() > 0 {
        lemma_digits_below(d.drop_last());
        assert(pow10(d.len()) == 10 * pow10((d.len() - 1) as nat));
    }
}

/// Reads mantissa text: its digits as one integer, where that fits in an
/// `i64`, and the number of digits after its point.
fn unsigned_mantissa(body: &[u8]) -> (r: Option<(i64, usize)>)
    ensures
        match unsigned_decimal(body@) {
            Some((m, f)) => if m <= i64::MAX {
                r == Some((m as i64, f as usize))
            } else {
                r is None
            },
            None => r is None,
        },
{
    let ghost b = body@;
    let bound: u128 = 0x7fff_ffff_ffff_ffff;
    assert(digits_value(Seq::<u8>::empty()) == 0);
    let (k, acc, over) = scan_digits(body, 0, 0, bound, Ghost(Seq::empty()));
    assert(Seq::<u8>::empty() + b.subrange(0, k as int) =~= b.take(k as int));
    let len = body.len();
    if k == len {
        assert(b.take(k as int) =~= b);
        if k == 0 || over {
            return None;
        }
        return Some((acc as i64, 0));
    }
    assert(!all_digits(b)) by {
        assert(!is_digit(b[k as int]));
    }
    if body[k] != DOT {
        assert forall|j: int| !is_decimal_point(b, j) by {
            if is_decimal_point(b, j) {
                if j < k {
                    assert(b.take(k as int)[j] == b[j]);
                } else if j > k {
                    assert(b.take(j)[k as int] == b[k as int]);
                }
            }
        }
        return None;
    }
    if len == 1 {
        return None;
    }
    if over {
        assert forall|j: int| is_decimal_point(b, j) implies digits_value(
            b.take(j) + b.skip(j + 1),
        ) > bound by {
            lemma_point_unique(b, k as int, j);
            lemma_digits_grow(b.take(j), b.skip(j + 1));
        }
        return None;
    }
    let (e, acc2, over2) = scan_digits(body, k + 1, acc, bound, Ghost(b.take(k as int)));
    if e < len {
        assert forall|j: int| !is_decimal_point(b, j) by {
            if is_decimal_point(b, j) {
                lemma_point_unique(b, k as int, j);
                assert(b.skip(k + 1)[e - k - 1] == b[e as int]);
            }
        }
        return None;
    }
    assert(b.subrange(k + 1, e as int) =~= b.skip(k + 1));
    assert(is_decimal_point(b, k as int));
    let ghost j = choose|j: int| is_decimal_point(b, j);
    proof {
        lemma_point_unique(b, k as int, j);
    }
    if over2 {
        return None;
    }
    Some((acc2 as i64, len - k - 1))
}

impl Decimal {
    /// Reads decimal text (see `decimal_value`); other text gives `None`.
    pub fn parse(s: &[u8]) -> (r: Option<Decimal>)
        ensures
            r == decimal_value(s@),
    {
        let signed = s.len() > 0 && (s[0] == MINUS || s[0] == PLUS);
        let negative = s.len() > 0 && s[0] == MINUS;
        let body = if signed {
            vstd::slice::slice_subrange(s, 1, s.len())
        } else {
            vstd::slice::slice_subrange(s, 0, s.len())
        };
        let ghost b = body@;
        assert(b =~= (if signed {
            s@.drop_first()
        } else {
            s@
        }));
        let len = body.len();
        let mut ke: usize = 0;
        assert(b.skip(0) =~= b);
        while ke < len && body[ke] != LOWER_E && body[ke] != UPPER_E
            invariant
                ke <= len == b.len(),
                b == body@,
                exponent_index(b) == ke + exponent_index(b.skip(ke as int)),
            decreases len - ke,
        {
            assert(b.skip(ke as int).drop_first() =~= b.skip(ke + 1));
            assert(b.skip(ke as int)[0] == b[ke as int]);
            ke += 1;
        }
        assert(exponent_index(b.skip(ke as int)) == 0) by {
            if ke < len {
                assert(b.skip(ke as int)[0] == b[ke as int]);
            }
        }
        let mant = vstd::slice::slice_subrange(body, 0, ke);
        assert(mant@ =~= b.take(ke as int));
        let ghost um = unsigned_decimal(b.take(ke as int));
        let (m, f) = match unsigned_mantissa(mant) {
            Some(x) => x,
            None => {
                proof {
                    if let Some((m0, _)) = um {
                        if let Some((_, p0)) = unsigned_number(b) {
                            lemma_decimal_of_large(negative, m0, p0);
                        }
                    }
                }
                return None;
            },
        };
        proof {
            lemma_digits_nonneg_of_mantissa(b.take(ke as int));
        }
        if ke == len {
            return decimal_from(negative, m, f as i128);
        }
        let et = vstd::slice::slice_subrange(body, ke + 1, len);
        assert(et@ =~= b.skip(ke + 1));
        assert(len as int <= u64::MAX);
        scaled_by_exponent(negative, m, f, et)
    }
}

/// The decimal that mantissa digits `m` with `f` digits after the point
/// make, shifted by the exponent that `t` writes.
fn scaled_by_exponent(negative: bool, m: i64, f: usize, t: &[u8]) -> (r: Option<Decimal>)
    requires
        m >= 0,
        f + t@.len() < u64::MAX,
    ensures
        r == match exponent_value(t@) {
            Some(e) => decimal_of(negative, m as int, f - e),
            None => None,
        },
{
    let (eneg, ev, big) = match read_exponent(t) {
        Some(x) => x,
        None => return None,
    };
    if big {
        if eneg || m != 0 {
            proof {
                if !eneg {
                    let e = exponent_value(t@)->0;
                    lemma_huge_shift(m as int, e - f);
                }
            }
            return None;
        }
        proof {
            let e = exponent_value(t@)->0;
            assert(0 * pow10((e - f) as nat) == 0);
        }
        return Some(Decimal { mantissa: 0, scale: 0 });
    }
    let e: i128 = if eneg {
        -(ev as i128)
    } else {
        ev as i128
    };
    decimal_from(negative, m, f as i128 - e)
}

/// Reads exponent text: its sign, and its magnitude where that fits in a
/// `u64`; the last is whether it does not.
fn read_exponent(t: &[u8]) -> (r: Option<(bool, u64, bool)>)
    ensures
        r is None <==> exponent_value(t@) is None,
        r matches Some((neg, v, big)) ==> exponent_value(t@) matches Some(e) && (!big ==> e == (
        if neg {
            -v
        } else {
            v as int
        })) && (big ==> t@.len() >= 20 && (if neg {
            e < -(u64::MAX as int)
        } else {
            e > u64::MAX
        })),
{
    let ghost s = t@;
    let signed = t.len() > 0 && (t[0] == MINUS || t[0] == PLUS);
    let neg = t.len() > 0 && t[0] == MINUS;
    let ds: usize = if signed {
        1
    } else {
        0
    };
    let ghost d = s.skip(ds as int);
    assert(d =~= (if signed {
        s.drop_first()
    } else {
        s
    }));
    assert(digits_value(Seq::<u8>::empty()) == 0);
    let (end, v, over) = scan_digits(t, ds, 0, 0xffff_ffff_ffff_ffff, Ghost(Seq::empty()));
    assert(Seq::<u8>::empty() + s.subrange(ds as int, end as int) =~= s.subrange(
        ds as int,
        end as int,
    ));
    if end < t.len() || end == ds {
        if end < t.len() {
            assert(d[end - ds] == s[end as int]);
        }
        return None;
    }
    assert(s.subrange(ds as int, end as int) =~= d);
    if over {
        proof {
            lemma_digits_below(d);
            reveal_with_fuel(pow10, 21);
            if d.len() <= 19 {
                lemma_pow10_grows(d.len(), 19);
            }
        }
        return Some((neg, 0, true));
    }
    Some((neg, v as u64, false))
}

/// Shifting a non-zero count twenty places or more leaves the `i64` range.
proof fn lemma_huge_shift(m: int, n: int)
    requires
        m >= 1,
        n >= 20,
    ensures
        m * pow10(n as nat) > i64::MAX,
{
    reveal_with_fuel(pow10, 21);
    lemma_pow10_grows(20, n as nat);
    assert(m * pow10(n as nat) >= pow10(n as nat)) by (nonlinear_arith)
        requires
            m >= 1,
            pow10(n as nat) >= 1,
    ;
}

/// Where the digits alone do not fit, no decimal does.
proof fn lemma_decimal_of_large(negative: bool, m: int, p: int)
    requires
        m > i64::MAX,
    ensures
        decimal_of(negative, m, p) is None,
{
    if p < 0 {
        lemma_pow10_grows(0, (-p) as nat);
        assert(m * pow10((-p) as nat) >= m) by (nonlinear_arith)
            requires
                m >= 0,
                pow10((-p) as nat) >= 1,
        ;
    }
}

proof fn lemma_digits_nonneg_of_mantissa(s: Seq<u8>)
    requires
        unsigned_decimal(s) is Some,
    ensures
        unsigned_decimal(s) matches Some((m, _)) && m >= 0,
{
    if s.len() > 0 && all_digits(s) {
        lemma_digits_nonneg(s);
    } else {
        let k = choose|k: int| is_decimal_point(s, k);
        lemma_digits_grow(s.take(k), s.skip(k + 1));
    }
}

/// The decimal `m * 10^-p`, negated where asked.
fn decimal_from(negative: bool, m: i64, p: i128) -> (r: Option<Decimal>)
    requires
        m >= 0,
    ensures
        r == decimal_of(negative, m as int, p as int),
{
    if p >= 0 {
        if p > MAX_SCALE as i128 {
            return None;
        }
        return Some(Decimal { mantissa: if negative { -m } else { m }, scale: p as u32 });
    }
    if m == 0 {
        assert(0 * pow10((-p) as nat) == 0);
        return Some(Decimal { mantissa: 0, scale: 0 });
    }
    if p < -19 {
        proof {
            lemma_huge_shift(m as int, -p);
        }
        return None;
    }
    let d = Decimal { mantissa: m, scale: 0 };
    proof {
        lemma_pow10_grows(0, (-p) as nat);
        assert(m * pow10((-p) as nat) >= 0) by (nonlinear_arith)
            requires
                m >= 0,
                pow10((-p) as nat) >= 1,
        ;
    }
    match d.to_scale((-p) as u32) {
        Some(v) => Some(Decimal { mantissa: if negative { -v } else { v }, scale: 0 }),
        None => None,
    }
}

pub open spec fn pow10(n: nat) -> int
    decreases n,
{
    if n == 0 {
        1
    } else {
        10 * pow10((n - 1) as nat)
    }
}

/// The value `d` in units of `10^-scale`, where `d` has at most `scale`
/// digits after its point and the count fits in an `i64`.
pub open spec fn at_scale(d: Decimal, scale: u32) -> Option<i64> {
    if d.scale > scale {
        None
    } else {
        let v = d.mantissa * pow10((scale - d.scale) as nat);
        if i64::MIN <= v <= i64::MAX {
            Some(v as i64)
        } else {
            None
        }
    }
}

proof fn lemma_pow10_grows(k: nat, n: nat)
    requires
        k <= n,
    ensures
        1 <= pow10(k) <= pow10(n),
    decreases n,
{
    if n > k {
        lemma_pow10_grows(k, (n - 1) as nat);
    } else if k > 0 {
        lemma_pow10_grows((k - 1) as nat, (k - 1) as nat);
    }
}

impl Decimal {
    /// The value as a whole count of `10^-scale`; `None` where it has more
    /// digits after the point than `scale`, or the count does not fit in an
    /// `i64`.
    pub fn to_scale(&self, scale: u32) -> (r: Option<i64>)
        ensures
            r == at_scale(*self, scale),
    {
        if self.scale > scale {
            return None;
        }
        let shift = scale - self.scale;
        let m = self.mantissa as i128;
        let mut v: i128 = m;
        let mut k: u32 = 0;
        while k < shift
            invariant
                k <= shift,
                shift == scale - self.scale,
                m == self.mantissa,
                v == m * pow10(k as nat),
                i64::MIN <= v <= i64::MAX,
            decreases shift - k,
        {
            proof {
                assert(pow10((k + 1) as nat) == 10 * pow10(k as nat));
                assert(m * pow10((k + 1) as nat) == 10 * (m * pow10(k as nat))) by (nonlinear_arith)
                    requires
                        pow10((k + 1) as nat) == 10 * pow10(k as nat),
                ;
            }
            let w = v * 10;
            if w < i64::MIN as i128 || w > i64::MAX as i128 {
                proof {
                    lemma_pow10_grows((k + 1) as nat, shift as nat);
                    let q = pow10((k + 1) as nat);
                    let p = pow10(shift as nat);
                    assert(p % q == 0) by {
                        lemma_pow10_divides((k + 1) as nat, shift as nat);
                    }
                    let c = p / q;
                    assert(p == q * c) by {
                        vstd::arithmetic::div_mod::lemma_fundamental_div_mod(p, q);
                    }
                    assert(c >= 1) by (nonlinear_arith)
                        requires
                            p == q * c,
                            q >= 1,
                            p >= q,
                    ;
                    assert(m * p == (m * q) * c) by (nonlinear_arith)
                        requires
                            p == q * c,
                    ;
                    assert(m * q == w);
                    assert(m * p < i64::MIN || m * p > i64::MAX) by (nonlinear_arith)
                        requires
                            m * p == w * c,
                            c >= 1,
                            w < i64::MIN || w > i64::MAX,
                    ;
                }
                return None;
            }
            v = w;
            k += 1;
        }
        Some(v as i64)
    }
}

proof fn lemma_pow10_divides(k: nat, n: nat)
    requires
        k <= n,
    ensures
        pow10(n) % pow10(k) == 0,
    decreases n,
{
    lemma_pow10_grows(k, k);
    if n > k {
        lemma_pow10_divides(k, (n - 1) as nat);
        let a = pow10((n - 1) as nat);
        let b = pow10(k);
        let c = a / b;
        assert(a == b * c) by {
            vstd::arithmetic::div_mod::lemma_fundamental_div_mod(a, b);
        }
        assert(pow10(n) == b * (10 * c)) by (nonlinear_arith)
            requires
                pow10(n) == 10 * a,
                a == b * c,
        ;
        vstd::arithmetic::div_mod::lemma_mod_multiples_basic(10 * c, b);
        assert(b * (10 * c) == (10 * c) * b) by (nonlinear_arith);
    } else {
        vstd::arithmetic::div_mod::lemma_mod_self_0(pow10(k));
    }
}

/// One price sample: an instant in seconds since the Unix epoch and a price
/// in EUR per MWh.
#[derive(Debug, Clone, Copy, PartialEq, Eq, Structural)]
pub struct PricePoint {
    pub timestamp: i64,
    pub price: Decimal,
}

impl PricePoint {
    /// The price in EUR per kWh: the same digits, three places further
    /// right of the point.
    #[must_use]
    pub fn price_per_kwh(&self) -> (r: Decimal)
        requires
            self.price.scale <= u32::MAX - 3,
        ensures
            r.mantissa == self.price.mantissa,
            r.scale == self.price.scale + 3,
    {
        Decimal { mantissa: self.price.mantissa, scale: self.price.scale + 3 }
    }
}

/// A decoded publication: currency, resolution, covered interval and the
/// samples in time order.
#[derive(Debug, Clone)]
pub struct PriceDocument {
    pub currency: String,
    pub resolution: Resolution,
    pub period_start: i64,
    pub period_end: i64,
    pub prices: Vec<PricePoint>,
}

impl PriceDocument {
    /// The samples are in strictly rising time order, with at least one.
    pub open spec fn wf(&self) -> bool {
        strictly_ascending(self.prices@) && self.prices@.len() > 0
    }
}

/// Timestamps rise strictly along the sequence.
pub open spec fn strictly_ascending(p: Seq<PricePoint>) -> bool {
    forall|i: int, j: int| 0 <= i < j < p.len() ==> p[i].timestamp < p[j].timestamp
}

/// No sample before `j` has the timestamp of sample `j`.
pub open spec fn first_with_time(s: Seq<PricePoint>, j: int) -> bool {
    forall|i: int| 0 <= i < j ==> s[i].timestamp != s[j].timestamp
}

/// `p` is a sample of `s` that no earlier sample shares a timestamp with.
pub open spec fn first_of_its_time(s: Seq<PricePoint>, p: PricePoint) -> bool {
    exists|j: int| 0 <= j < s.len() && first_with_time(s, j) && s[j] == p
}

/// Some sample of `r` has timestamp `t`.
pub open spec fn has_time(r: Seq<PricePoint>, t: i64) -> bool {
    exists|k: int| 0 <= k < r.len() && r[k].timestamp == t
}

/// `r` holds, in time order, one sample for each timestamp of `s`: the first
/// one of `s` with that timestamp.
pub open spec fn collated(s: Seq<PricePoint>, r: Seq<PricePoint>) -> bool {
    &&& strictly_ascending(r)
    &&& forall|k: int| 0 <= k < r.len() ==> first_of_its_time(s, #[trigger] r[k])
    &&& forall|j: int| 0 <= j < s.len() ==> has_time(r, #[trigger] s[j].timestamp)
}

/// Orders samples by time, keeping the first sample of each timestamp.
pub fn collate(samples: &Vec<PricePoint>) -> (r: Vec<PricePoint>)
    ensures
        collated(samples@, r@),
{
    let mut out: Vec<PricePoint> = Vec::new();
    let ghost mut src: Seq<int> = Seq::empty();
    let mut i: usize = 0;
    while i < samples.len()
        invariant
            i <= samples@.len(),
            strictly_ascending(out@),
            src.len() == out@.len(),
            forall|k: int|
                0 <= k < out@.len() ==> 0 <= #[trigger] src[k] < i && first_with_time(samples@, src[k])
                    && out@[k] == samples@[src[k]],
            forall|j: int| 0 <= j < i ==> has_time(out@, #[trigger] samples@[j].timestamp),
        decreases samples@.len() - i,
    {
        let p = samples[i];
        let mut pos: usize = 0;
        while pos < out.len() && out[pos].timestamp < p.timestamp
            invariant
                pos <= out@.len(),
                forall|k: int| 0 <= k < pos ==> out@[k].timestamp < p.timestamp,
            decreases out@.len() - pos,
        {
            pos += 1;
        }
        let ghost old_out = out@;
        if pos < out.len() && out[pos].timestamp == p.timestamp {
            assert forall|j: int| 0 <= j < i + 1 implies has_time(out@, #[trigger] samples@[j].timestamp) by {
                if j == i {
                    assert(out@[pos as int].timestamp == samples@[j].timestamp);
                }
            }
        } else {
            assert forall|k: int| 0 <= k < old_out.len() implies old_out[k].timestamp != p.timestamp by {
                if k > pos {
                    assert(old_out[pos as int].timestamp < old_out[k].timestamp);
                }
            }
            assert(first_with_time(samples@, i as int)) by {
                assert forall|j: int| 0 <= j < i implies samples@[j].timestamp != samples@[i as int].timestamp by {
                    assert(has_time(old_out, samples@[j].timestamp));
                    let k = choose|k: int| 0 <= k < old_out.len() && old_out[k].timestamp == samples@[j].timestamp;
                }
            }
            out.insert(pos, p);
            proof {
                src = src.insert(pos as int, i as int);
            }
            assert forall|a: int, b: int| 0 <= a < b < out@.len() implies out@[a].timestamp
                < out@[b].timestamp by {
                if b < pos {
                } else if b == pos {
                } else if a < pos {
                    assert(old_out[b - 1].timestamp > old_out[pos as int].timestamp || b - 1 == pos);
                } else if a == pos {
                    assert(old_out[pos as int].timestamp >= p.timestamp);
                } else {
                    assert(old_out[a - 1].timestamp < old_out[b - 1].timestamp);
                }
            }
            assert forall|j: int| 0 <= j < i + 1 implies has_time(out@, #[trigger] samples@[j].timestamp) by {
                if j == i {
                    assert(out@[pos as int].timestamp == samples@[j].timestamp);
                } else {
                    assert(has_time(old_out, samples@[j].timestamp));
                    let k = choose|k: int| 0 <= k < old_out.len() && old_out[k].timestamp == samples@[j].timestamp;
                    if k < pos {
                        assert(out@[k].timestamp == samples@[j].timestamp);
                    } else {
                        assert(out@[k + 1].timestamp == samples@[j].timestamp);
                    }
                }
            }
        }
        i += 1;
    }
    assert forall|k: int| 0 <= k < out@.len() implies first_of_its_time(samples@, #[trigger] out@[k]) by {
        let j = src[k];
        assert(0 <= j < samples@.len() && first_with_time(samples@, j) && samples@[j] == out@[k]);
    }
    out
}

} // verus!
