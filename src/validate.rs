use vstd::prelude::*;

use crate::price::{strictly_ascending, PricePoint};

verus! {

/// A currency code: exactly three letters `A` to `Z`.
pub open spec fn is_currency_code(s: Seq<char>) -> bool {
    s.len() == 3 && forall|i: int| 0 <= i < s.len() ==> 'A' <= #[trigger] s[i] <= 'Z'
}

/// An area code: two to eight characters.
pub open spec fn is_area_code(s: Seq<char>) -> bool {
    2 <= s.len() <= 8
}

/// Whether the text is a currency code of three upper-case letters.
pub fn is_valid_currency(s: &str) -> (r: bool)
    ensures
        r == is_currency_code(s@),
{
    let n = s.unicode_len();
    if n != 3 {
        return false;
    }
    let mut i: usize = 0;
    while i < n
        invariant
            n == s@.len() == 3,
            i <= n,
            forall|k: int| 0 <= k < i ==> 'A' <= #[trigger] s@[k] <= 'Z',
        decreases n - i,
    {
        let c = s.get_char(i);
        if c < 'A' || c > 'Z' {
            return false;
        }
        i += 1;
    }
    true
}

/// Whether the text is an area code of two to eight characters.
pub fn is_valid_area_code(s: &str) -> (r: bool)
    ensures
        r == is_area_code(s@),
{
    let n = s.unicode_len();
    2 <= n && n <= 8
}

/// Whether the timestamps of the samples rise strictly.
pub fn is_strictly_increasing(samples: &[PricePoint]) -> (r: bool)
    ensures
        r == strictly_ascending(samples@),
{
    let mut i: usize = 1;
    if samples.len() < 2 {
        return true;
    }
    while i < samples.len()
        invariant
            1 <= i <= samples@.len(),
            forall|a: int, b: int| 0 <= a < b < i ==> samples@[a].timestamp < samples@[b].timestamp,
        decreases samples@.len() - i,
    {
        if samples[i - 1].timestamp >= samples[i].timestamp {
            return false;
        }
        assert forall|a: int, b: int| 0 <= a < b < i + 1 implies samples@[a].timestamp
            < samples@[b].timestamp by {
            if b == i && a < i - 1 {
                assert(samples@[a].timestamp < samples@[i - 1].timestamp);
            }
        }
        i += 1;
    }
    true
}

} // verus!
