use vstd::prelude::*;

verus! {

/// Whether two strings hold the same characters.
pub fn str_equals(a: &str, b: &str) -> (r: bool)
    ensures
        r == (a@ == b@),
{
    let n = a.unicode_len();
    if n != b.unicode_len() {
        return false;
    }
    let mut i: usize = 0;
    while i < n
        invariant
            n == a@.len(),
            n == b@.len(),
            i <= n,
            forall|k: int| 0 <= k < i ==> a@[k] == b@[k],
        decreases n - i,
    {
        if a.get_char(i) != b.get_char(i) {
            return false;
        }
        i += 1;
    }
    assert(a@ =~= b@);
    true
}

/// ASCII `0`.
pub const ZERO: u8 = 48;

/// ASCII `9`.
pub const NINE: u8 = 57;

/// ASCII `+`.
pub const PLUS: u8 = 43;

/// ASCII `-`.
pub const MINUS: u8 = 45;

/// ASCII `.`.
pub const DOT: u8 = 46;

pub open spec fn is_digit(b: u8) -> bool {
    ZERO <= b <= NINE
}

pub open spec fn all_digits(s: Seq<u8>) -> bool {
    forall|i: int| 0 <= i < s.len() ==> is_digit(#[trigger] s[i])
}

/// The number that a run of decimal digits writes, most significant first.
pub open spec fn digits_value(s: Seq<u8>) -> int
    decreases s.len(),
{
    if s.len() == 0 {
        0
    } else {
        digits_value(s.drop_last()) * 10 + (s.last() - ZERO)
    }
}

/// Text without a leading `+`, if it has one.
pub open spec fn unsigned_part(s: Seq<u8>) -> Seq<u8> {
    if s.len() > 0 && s[0] == PLUS {
        s.drop_first()
    } else {
        s
    }
}

/// What a `u32` reads from text: an optional `+`, then at least one digit,
/// and a value that fits in 32 bits.
pub open spec fn u32_value(s: Seq<u8>) -> Option<u32> {
    let d = unsigned_part(s);
    if d.len() > 0 && all_digits(d) && digits_value(d) <= u32::MAX {
        Some(digits_value(d) as u32)
    } else {
        None
    }
}

/// Accumulates the digits of `s[from..]` while they are digits. Returns the
/// index of the first byte that is not a digit (or the length), the value of
/// the digits read so far while it stays at most `bound`, and whether it
/// went over `bound`.
pub fn scan_digits(s: &[u8], from: usize, acc0: u128, bound: u128, Ghost(prefix): Ghost<Seq<u8>>) -> (r: (
    usize,
    u128,
    bool,
))
    requires
        from <= s@.len(),
        bound <= u64::MAX,
        acc0 <= bound,
        acc0 == digits_value(prefix),
        all_digits(prefix),
    ensures
        from <= r.0 <= s@.len(),
        all_digits(s@.subrange(from as int, r.0 as int)),
        r.0 < s@.len() ==> !is_digit(s@[r.0 as int]),
        !r.2 ==> r.1 == digits_value(prefix + s@.subrange(from as int, r.0 as int)) && r.1 <= bound,
        r.2 ==> digits_value(prefix + s@.subrange(from as int, r.0 as int)) > bound,
{
    let mut i: usize = from;
    let mut acc: u128 = acc0;
    let mut over = false;
    while i < s.len() && ZERO <= s[i] && s[i] <= NINE
        invariant
            from <= i <= s@.len(),
            bound <= u64::MAX,
            all_digits(prefix),
            all_digits(s@.subrange(from as int, i as int)),
            !over ==> acc == digits_value(prefix + s@.subrange(from as int, i as int)) && acc <= bound,
            over ==> digits_value(prefix + s@.subrange(from as int, i as int)) > bound,
        decreases s@.len() - i,
    {
        let c = s[i];
        let ghost before = prefix + s@.subrange(from as int, i as int);
        let ghost after = prefix + s@.subrange(from as int, i + 1);
        assert(after.drop_last() =~= before);
        assert(after.last() == c);
        if !over {
            let v = acc * 10 + (c - ZERO) as u128;
            if v > bound {
                over = true;
            } else {
                acc = v;
            }
        }
        assert(all_digits(s@.subrange(from as int, i + 1))) by {
            assert forall|k: int| 0 <= k < i + 1 - from implies is_digit(
                #[trigger] s@.subrange(from as int, i + 1)[k],
            ) by {
                if k < i - from {
                    assert(s@.subrange(from as int, i + 1)[k] == s@.subrange(from as int, i as int)[k]);
                }
            }
        }
        i += 1;
    }
    (i, acc, over)
}

/// Reads a `u32` as `u32`'s `from_str` does.
pub fn parse_u32(s: &[u8]) -> (r: Option<u32>)
    ensures
        r == u32_value(s@),
{
    let start: usize = if s.len() > 0 && s[0] == PLUS {
        1
    } else {
        0
    };
    assert(unsigned_part(s@) =~= s@.subrange(start as int, s@.len() as int));
    assert(digits_value(Seq::<u8>::empty()) == 0);
    let (end, v, over) = scan_digits(s, start, 0, 0xffff_ffff, Ghost(Seq::empty()));
    assert(Seq::<u8>::empty() + s@.subrange(start as int, end as int) =~= s@.subrange(
        start as int,
        end as int,
    ));
    if end < s.len() || end == start || over {
        if end < s.len() {
            assert(s@.subrange(start as int, s@.len() as int)[end - start] == s@[end as int]);
        }
        None
    } else {
        Some(v as u32)
    }
}


pub proof fn lemma_digits_nonneg(a: Seq<u8>)
    requires
        all_digits(a),
    ensures
        digits_value(a) >= 0,
    decreases a.len(),
{
    if a.len() > 0 {
        lemma_digits_nonneg(a.drop_last());
    }
}

/// Appending digits never makes the value smaller.
pub proof fn lemma_digits_grow(a: Seq<u8>, b: Seq<u8>)
    requires
        all_digits(a),
        all_digits(b),
    ensures
        digits_value(a + b) >= digits_value(a) >= 0,
    decreases b.len(),
{
    lemma_digits_nonneg(a);
    if b.len() == 0 {
        assert(a + b =~= a);
    } else {
        lemma_digits_grow(a, b.drop_last());
        assert((a + b).drop_last() =~= a + b.drop_last());
    }
}


/// Whitespace as markup defines it: space, tab, line feed, carriage return.
pub open spec fn is_space(b: u8) -> bool {
    b == 32 || b == 9 || b == 10 || b == 13
}

pub open spec fn trim_start(s: Seq<u8>) -> Seq<u8>
    decreases s.len(),
{
    if s.len() > 0 && is_space(s[0]) {
        trim_start(s.drop_first())
    } else {
        s
    }
}

pub open spec fn trim_end(s: Seq<u8>) -> Seq<u8>
    decreases s.len(),
{
    if s.len() > 0 && is_space(s.last()) {
        trim_end(s.drop_last())
    } else {
        s
    }
}

/// Text without the whitespace at either end.
pub open spec fn trimmed(s: Seq<u8>) -> Seq<u8> {
    trim_end(trim_start(s))
}

/// Drops the whitespace at either end of the bytes.
pub fn trim(s: &[u8]) -> (r: Vec<u8>)
    ensures
        r@ == trimmed(s@),
{
    let mut a: usize = 0;
    assert(s@.skip(0) =~= s@);
    while a < s.len() && (s[a] == 32 || s[a] == 9 || s[a] == 10 || s[a] == 13)
        invariant
            a <= s@.len(),
            trim_start(s@) == trim_start(s@.skip(a as int)),
        decreases s@.len() - a,
    {
        assert(s@.skip(a as int).drop_first() =~= s@.skip(a + 1));
        a += 1;
    }
    let mut e: usize = s.len();
    let ghost rest = s@.skip(a as int);
    assert(trim_start(s@) == rest) by {
        if a < s@.len() {
            assert(rest[0] == s@[a as int]);
        }
    }
    while e > a && (s[e - 1] == 32 || s[e - 1] == 9 || s[e - 1] == 10 || s[e - 1] == 13)
        invariant
            a <= e <= s@.len(),
            rest == s@.skip(a as int),
            trim_start(s@) == rest,
            trim_end(rest) == trim_end(s@.subrange(a as int, e as int)),
        decreases e,
    {
        assert(s@.subrange(a as int, e as int).drop_last() =~= s@.subrange(a as int, e - 1));
        e -= 1;
    }
    assert(s@.subrange(a as int, s@.len() as int) =~= rest);
    let ghost kept = s@.subrange(a as int, e as int);
    assert(trim_end(kept) == kept) by {
        if kept.len() > 0 {
            assert(kept.last() == s@[e - 1]);
        }
    }
    let part = vstd::slice::slice_subrange(s, a, e);
    vstd::slice::slice_to_vec(part)
}

} // verus!
