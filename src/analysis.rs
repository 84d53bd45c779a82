use vstd::prelude::*;

verus! {

/// A sample as the analyzer takes it: its start instant, in seconds since
/// the Unix epoch, and its price as an integer count of a unit that the
/// caller picks.
#[derive(Debug, Clone, Copy, PartialEq, Eq, Structural)]
pub struct Period {
    pub start: i64,
    pub price: i64,
}

/// The total price of the samples `lo..hi`.
pub open spec fn window_sum(p: Seq<Period>, lo: int, hi: int) -> int
    decreases hi - lo,
{
    if lo >= hi {
        0
    } else {
        window_sum(p, lo, hi - 1) + p[hi - 1].price
    }
}

/// `a` beats `b`: smaller when looking for the cheapest window, larger when
/// looking for the priciest.
pub open spec fn beats(cheapest: bool, a: int, b: int) -> bool {
    if cheapest {
        a < b
    } else {
        a > b
    }
}

/// The window of `n` samples that starts at `i` is the earliest best one:
/// no window beats it, and it beats every window that starts earlier.
pub open spec fn is_best_window(p: Seq<Period>, n: int, i: int, cheapest: bool) -> bool {
    &&& 0 <= i
    &&& i + n <= p.len()
    &&& forall|j: int|
        0 <= j && j + n <= p.len() ==> !beats(
            cheapest,
            #[trigger] window_sum(p, j, j + n),
            window_sum(p, i, i + n),
        )
    &&& forall|j: int|
        0 <= j < i ==> beats(cheapest, window_sum(p, i, i + n), #[trigger] window_sum(p, j, j + n))
}

/// At most one window is the earliest best one: the analyzer's answer is
/// determined by the samples, the length and the direction.
pub proof fn lemma_best_window_unique(p: Seq<Period>, n: int, i: int, k: int, cheapest: bool)
    requires
        is_best_window(p, n, i, cheapest),
        is_best_window(p, n, k, cheapest),
    ensures
        i == k,
{
    if i < k {
        assert(beats(cheapest, window_sum(p, k, k + n), window_sum(p, i, i + n)));
    } else if k < i {
        assert(beats(cheapest, window_sum(p, i, i + n), window_sum(p, k, k + n)));
    }
}

/// Whether a window of `n` samples exists to be looked for.
pub open spec fn window_fits(p: Seq<Period>, n: int) -> bool {
    p.len() > 0 && n > 0 && n <= p.len()
}

proof fn lemma_window_first(p: Seq<Period>, lo: int, hi: int)
    requires
        lo < hi,
    ensures
        window_sum(p, lo, hi) == p[lo].price + window_sum(p, lo + 1, hi),
    decreases hi - lo,
{
    if lo + 1 < hi {
        lemma_window_first(p, lo, hi - 1);
        assert(window_sum(p, lo + 1, hi) == window_sum(p, lo + 1, hi - 1) + p[hi - 1].price);
    } else {
        assert(window_sum(p, lo, hi - 1) == 0);
        assert(window_sum(p, lo + 1, hi) == 0);
    }
}

proof fn lemma_window_bounds(p: Seq<Period>, lo: int, hi: int)
    requires
        lo <= hi,
    ensures
        -(hi - lo) * 0x8000_0000_0000_0000 <= window_sum(p, lo, hi) <= (hi - lo) * 0x7fff_ffff_ffff_ffff,
    decreases hi - lo,
{
    if lo < hi {
        lemma_window_bounds(p, lo, hi - 1);
        assert(i64::MIN <= p[hi - 1].price <= i64::MAX);
    }
}

/// The earliest best window of `n` samples, by a sliding sum.
fn best_window(periods: &[Period], n: usize, cheapest: bool) -> (r: Option<(usize, i128)>)
    ensures
        r is None <==> !window_fits(periods@, n as int),
        r matches Some((i, total)) ==> is_best_window(periods@, n as int, i as int, cheapest)
            && total == window_sum(periods@, i as int, i + n),
{
    let ghost p = periods@;
    let len = periods.len();
    if len == 0 || n == 0 || len < n {
        return None;
    }
    let mut total: i128 = 0;
    let mut k: usize = 0;
    while k < n
        invariant
            k <= n <= len,
            len == p.len(),
            p == periods@,
            total == window_sum(p, 0, k as int),
        decreases n - k,
    {
        proof {
            lemma_window_bounds(p, 0, k + 1);
            assert((k + 1) * 0x8000_0000_0000_0000 <= 0x1_0000_0000_0000_0000 * 0x8000_0000_0000_0000)
                by (nonlinear_arith)
                requires
                    k + 1 <= 0x1_0000_0000_0000_0000,
            ;
        }
        total = total + periods[k].price as i128;
        k += 1;
    }
    let mut best = total;
    let mut best_i: usize = 0;
    let mut i: usize = n;
    while i < len
        invariant
            0 < n <= i <= len,
            len == p.len(),
            p == periods@,
            total == window_sum(p, i - n, i as int),
            best_i + n <= i,
            best == window_sum(p, best_i as int, best_i + n),
            forall|j: int|
                0 <= j && j + n <= i ==> !beats(cheapest, #[trigger] window_sum(p, j, j + n), best as int),
            forall|j: int| 0 <= j < best_i ==> beats(cheapest, best as int, #[trigger] window_sum(p, j, j + n)),
        decreases len - i,
    {
        proof {
            lemma_window_first(p, i - n, i as int);
            lemma_window_bounds(p, i - n + 1, i as int);
            lemma_window_bounds(p, i - n + 1, i + 1);
            assert((n as int) * 0x8000_0000_0000_0000 <= 0x1_0000_0000_0000_0000 * 0x8000_0000_0000_0000)
                by (nonlinear_arith)
                requires
                    n <= 0x1_0000_0000_0000_0000,
            ;
        }
        total = total - periods[i - n].price as i128 + periods[i].price as i128;
        let better = if cheapest {
            total < best
        } else {
            total > best
        };
        if better {
            best = total;
            best_i = i + 1 - n;
        }
        i += 1;
    }
    Some((best_i, best))
}

/// Start index and total of the earliest window of `n` consecutive samples
/// with the smallest total; `None` where no such window exists.
pub fn find_cheapest_consecutive_hours(periods: &[Period], n: usize) -> (r: Option<(usize, i128)>)
    ensures
        r is None <==> !window_fits(periods@, n as int),
        r matches Some((i, total)) ==> is_best_window(periods@, n as int, i as int, true) && total
            == window_sum(periods@, i as int, i + n),
{
    best_window(periods, n, true)
}

/// Start index and total of the earliest window of `n` consecutive samples
/// with the largest total; `None` where no such window exists.
pub fn find_expensivest_consecutive_hours(periods: &[Period], n: usize) -> (r: Option<(usize, i128)>)
    ensures
        r is None <==> !window_fits(periods@, n as int),
        r matches Some((i, total)) ==> is_best_window(periods@, n as int, i as int, false) && total
            == window_sum(periods@, i as int, i + n),
{
    best_window(periods, n, false)
}

/// A found window as a report gives it: whole hours covered (four samples
/// of a quarter hour to the hour), the instants where it starts and where
/// those hours end, its total and its number of samples.
#[derive(Debug, Clone, Copy, PartialEq, Eq, Structural)]
pub struct WindowSummary {
    pub hours: usize,
    pub start: i64,
    pub end: i64,
    pub total: i128,
    pub count: usize,
}

/// The summary of the window of `n` quarter-hour samples at `i` with total
/// `total`; `None` where its end instant does not fit in an `i64`.
pub open spec fn summary_of(p: Seq<Period>, n: int, i: int, total: int) -> Option<WindowSummary> {
    let hours = n / 4;
    let end = p[i].start + hours * 3600;
    if i64::MIN <= end <= i64::MAX {
        Some(
            WindowSummary {
                hours: hours as usize,
                start: p[i].start,
                end: end as i64,
                total: total as i128,
                count: n as usize,
            },
        )
    } else {
        None
    }
}

fn summarize(periods: &[Period], n_periods: usize, i: usize, total: i128) -> (r: Option<WindowSummary>)
    requires
        i < periods@.len(),
    ensures
        r == summary_of(periods@, n_periods as int, i as int, total as int),
{
    let hours = n_periods / 4;
    let start = periods[i].start;
    let end = start as i128 + hours as i128 * 3600;
    if end < i64::MIN as i128 || end > i64::MAX as i128 {
        None
    } else {
        Some(WindowSummary { hours, start, end: end as i64, total, count: n_periods })
    }
}

/// The cheapest window of `n_periods` quarter-hour samples, summarized.
pub fn render_cheapest(periods: &[Period], n_periods: usize) -> (r: Option<WindowSummary>)
    ensures
        !window_fits(periods@, n_periods as int) ==> r is None,
        window_fits(periods@, n_periods as int) ==> exists|i: int|
            is_best_window(periods@, n_periods as int, i, true) && r == summary_of(
                periods@,
                n_periods as int,
                i,
                window_sum(periods@, i, i + n_periods),
            ),
{
    match find_cheapest_consecutive_hours(periods, n_periods) {
        Some((i, total)) => summarize(periods, n_periods, i, total),
        None => None,
    }
}

/// The priciest window of `n_periods` quarter-hour samples, summarized.
pub fn render_expensivest(periods: &[Period], n_periods: usize) -> (r: Option<WindowSummary>)
    ensures
        !window_fits(periods@, n_periods as int) ==> r is None,
        window_fits(periods@, n_periods as int) ==> exists|i: int|
            is_best_window(periods@, n_periods as int, i, false) && r == summary_of(
                periods@,
                n_periods as int,
                i,
                window_sum(periods@, i, i + n_periods),
            ),
{
    match find_expensivest_consecutive_hours(periods, n_periods) {
        Some((i, total)) => summarize(periods, n_periods, i, total),
        None => None,
    }
}

} // verus!
