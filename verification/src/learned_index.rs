//! The vocabulary of the learned position index.
use vstd::prelude::*;

verus! {

/// The positions a learned model predicts a key can be at, both ends included.
#[derive(Debug, Clone, Copy, PartialEq, Eq, Structural)]
pub struct PredictionWindow {
    pub lower: usize,
    pub upper: usize,
}

impl PredictionWindow {
    pub fn range(&self) -> (r: core::ops::RangeInclusive<usize>)
        ensures
            r@.start == self.lower,
            r@.end == self.upper,
            !r@.exhausted,
    {
        core::ops::RangeInclusive::new(self.lower, self.upper)
    }
}

#[derive(Debug, Clone, Copy, PartialEq, Eq, Structural)]
pub enum IndexError {
    EmptyTrainingSet,
}

impl IndexError {
    /// Renders the error as text.
    pub fn message(&self) -> (r: &'static str)
        ensures
            r@ == "cannot train learned index with empty keys"@,
    {
        "cannot train learned index with empty keys"
    }
}

/// Keys in ascending order (repeats allowed).
pub open spec fn keys_sorted(s: Seq<u128>) -> bool {
    forall|i: int, j: int| 0 <= i <= j < s.len() ==> s[i] <= s[j]
}

/// The window's first position, clamped to the keys.
pub open spec fn window_lo(w: PredictionWindow, n: int) -> int {
    if w.lower < n - 1 {
        w.lower as int
    } else {
        n - 1
    }
}

/// The window's last position, clamped to the keys.
pub open spec fn window_hi(w: PredictionWindow, n: int) -> int {
    if w.upper < n - 1 {
        w.upper as int
    } else {
        n - 1
    }
}

/// The first position in `lo..hi` whose key is not below `key` (the
/// window's end where there is none), over sorted keys.
fn partition_below(keys: &[u128], lo: usize, hi: usize, key: u128, strict: bool) -> (r: usize)
    requires
        lo <= hi <= keys@.len(),
        keys_sorted(keys@),
    ensures
        lo <= r <= hi,
        forall|i: int| lo <= i < r ==> (if strict { keys@[i] < key } else { keys@[i] <= key }),
        forall|i: int| r <= i < hi ==> (if strict { keys@[i] >= key } else { keys@[i] > key }),
{
    let mut a = lo;
    let mut b = hi;
    while a < b
        invariant
            lo <= a <= b <= hi,
            hi <= keys@.len(),
            keys_sorted(keys@),
            forall|i: int| lo <= i < a ==> (if strict { keys@[i] < key } else { keys@[i] <= key }),
            forall|i: int| b <= i < hi ==> (if strict { keys@[i] >= key } else { keys@[i] > key }),
        decreases b - a,
    {
        let mid = a + (b - a) / 2;
        let below = if strict {
            keys[mid] < key
        } else {
            keys[mid] <= key
        };
        if below {
            a = mid + 1;
        } else {
            b = mid;
        }
    }
    a
}

/// The position of the first key not below `key` within the window (the
/// window clamped to the keys), as a position of all the keys; zero for no keys.
pub fn lower_bound(sorted_keys: &[u128], window: PredictionWindow, key: u128) -> (r: usize)
    requires
        keys_sorted(sorted_keys@),
        window.lower <= window.upper,
    ensures
        sorted_keys@.len() == 0 ==> r == 0,
        sorted_keys@.len() > 0 ==> {
            let lo = window_lo(window, sorted_keys@.len() as int);
            let hi = window_hi(window, sorted_keys@.len() as int);
            &&& lo <= r <= hi + 1
            &&& forall|i: int| lo <= i < r ==> sorted_keys@[i] < key
            &&& forall|i: int| r <= i <= hi ==> sorted_keys@[i] >= key
        },
{
    if sorted_keys.len() == 0 {
        return 0;
    }
    let last = sorted_keys.len() - 1;
    let lo = if window.lower < last { window.lower } else { last };
    let hi = if window.upper < last { window.upper } else { last };
    partition_below(sorted_keys, lo, hi + 1, key, true)
}

/// The position after the last key not above `key` within the window, as a
/// position of all the keys; zero for no keys.
pub fn upper_bound(sorted_keys: &[u128], window: PredictionWindow, key: u128) -> (r: usize)
    requires
        keys_sorted(sorted_keys@),
        window.lower <= window.upper,
    ensures
        sorted_keys@.len() == 0 ==> r == 0,
        sorted_keys@.len() > 0 ==> {
            let lo = window_lo(window, sorted_keys@.len() as int);
            let hi = window_hi(window, sorted_keys@.len() as int);
            &&& lo <= r <= hi + 1
            &&& forall|i: int| lo <= i < r ==> sorted_keys@[i] <= key
            &&& forall|i: int| r <= i <= hi ==> sorted_keys@[i] > key
        },
{
    if sorted_keys.len() == 0 {
        return 0;
    }
    let last = sorted_keys.len() - 1;
    let lo = if window.lower < last { window.lower } else { last };
    let hi = if window.upper < last { window.upper } else { last };
    partition_below(sorted_keys, lo, hi + 1, key, false)
}

/// A position of `key` within the window (the window clamped to the keys),
/// if the key is there.
pub fn exact_lookup(sorted_keys: &[u128], window: PredictionWindow, key: u128) -> (r: Option<usize>)
    requires
        keys_sorted(sorted_keys@),
    ensures
        match r {
            Some(p) => {
                &&& sorted_keys@.len() > 0
                &&& window_lo(window, sorted_keys@.len() as int) <= p <= window_hi(
                    window,
                    sorted_keys@.len() as int,
                )
                &&& sorted_keys@[p as int] == key
            },
            None => sorted_keys@.len() == 0 || forall|i: int|
                window_lo(window, sorted_keys@.len() as int) <= i <= window_hi(
                    window,
                    sorted_keys@.len() as int,
                ) ==> sorted_keys@[i] != key,
        },
{
    if sorted_keys.len() == 0 {
        return None;
    }
    let last = sorted_keys.len() - 1;
    let lo = if window.lower < last { window.lower } else { last };
    let hi = if window.upper < last { window.upper } else { last };
    if lo > hi {
        return None;
    }
    let p = partition_below(sorted_keys, lo, hi + 1, key, true);
    if p <= hi && sorted_keys[p] == key {
        Some(p)
    } else {
        None
    }
}

} // verus!
