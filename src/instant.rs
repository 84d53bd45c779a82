use vstd::prelude::*;
use vstd::utf8::{decode_utf8, valid_utf8};

use crate::lexical::ZERO;
use crate::price::Resolution;
use crate::xml::utf8_text;

verus! {

/// ASCII `:`.
pub const COLON: u8 = 58;

/// ASCII `Z`.
pub const UPPER_Z: u8 = 90;

/// Seconds since the Unix epoch of the RFC 3339 instant that the text
/// writes, if it writes one.
pub uninterp spec fn rfc3339_seconds(s: Seq<char>) -> Option<i64>;

/// Relies on chrono::DateTime::parse_from_rfc3339 and DateTime::timestamp:
/// the whole seconds since the Unix epoch of the instant written, or `None`
/// where the text is not RFC 3339.
#[verifier::external_body]
fn parse_rfc3339(s: &str) -> (r: Option<i64>)
    ensures
        r == rfc3339_seconds(s@),
{
    chrono::DateTime::parse_from_rfc3339(s).ok().map(|d| d.timestamp())
}

pub open spec fn count_colons(s: Seq<u8>) -> nat
    decreases s.len(),
{
    if s.len() == 0 {
        0
    } else {
        count_colons(s.drop_last()) + if s.last() == COLON {
            1nat
        } else {
            0nat
        }
    }
}

pub open spec fn strip_trailing_z(s: Seq<u8>) -> Seq<u8>
    decreases s.len(),
{
    if s.len() > 0 && s.last() == UPPER_Z {
        strip_trailing_z(s.drop_last())
    } else {
        s
    }
}

/// Instant text with its seconds filled in: text with at most one colon
/// loses its trailing `Z`s and ends in `:00Z`; other text is kept.
pub open spec fn with_seconds(s: Seq<u8>) -> Seq<u8> {
    if count_colons(s) <= 1 {
        strip_trailing_z(s) + seq![COLON, ZERO, ZERO, UPPER_Z]
    } else {
        s
    }
}

/// The instant that the text of a start or end element writes.
pub open spec fn instant_of(s: Seq<u8>) -> Option<i64> {
    let t = with_seconds(s);
    if valid_utf8(t) {
        rfc3339_seconds(decode_utf8(t))
    } else {
        None
    }
}

/// Fills in the seconds of instant text that lacks them.
pub fn add_seconds(s: &[u8]) -> (r: Vec<u8>)
    ensures
        r@ == with_seconds(s@),
{
    let mut colons: usize = 0;
    let mut i: usize = 0;
    assert(s@.take(0) =~= Seq::<u8>::empty());
    while i < s.len()
        invariant
            i <= s@.len(),
            colons == count_colons(s@.take(i as int)),
            colons <= i,
        decreases s@.len() - i,
    {
        assert(s@.take(i + 1).drop_last() =~= s@.take(i as int));
        if s[i] == COLON {
            colons += 1;
        }
        i += 1;
    }
    assert(s@.take(s@.len() as int) =~= s@);
    if colons > 1 {
        return vstd::slice::slice_to_vec(s);
    }
    let mut e: usize = s.len();
    while e > 0 && s[e - 1] == UPPER_Z
        invariant
            e <= s@.len(),
            strip_trailing_z(s@) == strip_trailing_z(s@.take(e as int)),
        decreases e,
    {
        assert(s@.take(e as int).drop_last() =~= s@.take(e - 1));
        e -= 1;
    }
    let mut r = vstd::slice::slice_to_vec(vstd::slice::slice_subrange(s, 0, e));
    assert(strip_trailing_z(s@.take(e as int)) == s@.take(e as int)) by {
        if e > 0 {
            assert(s@.take(e as int).last() == s@[e - 1]);
        }
    }
    r.push(COLON);
    r.push(ZERO);
    r.push(ZERO);
    r.push(UPPER_Z);
    assert(r@ =~= with_seconds(s@));
    r
}

/// Reads the instant that the text of a start or end element writes, in
/// seconds since the Unix epoch.
pub fn parse_instant(s: &[u8]) -> (r: Option<i64>)
    ensures
        r == instant_of(s@),
{
    let t = add_seconds(s);
    match utf8_text(t.as_slice()) {
        Some(text) => parse_rfc3339(text.as_str()),
        None => None,
    }
}

/// The instant of the sample at a 1-based position of a period: the anchor
/// plus `position - 1` steps of the resolution, in seconds. `None` where that
/// does not fit in an `i64`.
pub open spec fn sample_instant_of(anchor: i64, position: u32, resolution: Resolution) -> Option<
    i64,
> {
    let t = anchor + (position - 1) * resolution.spec_minutes() * 60;
    if i64::MIN <= t <= i64::MAX {
        Some(t as i64)
    } else {
        None
    }
}

/// The instant of the sample at a 1-based position of a period.
pub fn sample_instant(anchor: i64, position: u32, resolution: Resolution) -> (r: Option<i64>)
    ensures
        r == sample_instant_of(anchor, position, resolution),
{
    let step = (resolution.minutes() * 60) as i128;
    let offset = position as i128 - 1;
    assert(-1 <= offset <= u32::MAX);
    assert(0 < step <= 3600);
    assert(-3600 <= offset * step <= 3600 * (u32::MAX as int)) by (nonlinear_arith)
        requires
            -1 <= offset <= u32::MAX,
            0 < step <= 3600,
    ;
    let t = anchor as i128 + offset * step;
    if t < i64::MIN as i128 || t > i64::MAX as i128 {
        None
    } else {
        Some(t as i64)
    }
}

} // verus!
