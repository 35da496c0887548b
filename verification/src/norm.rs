use vstd::prelude::*;
use vstd::relations::{sorted_by, total_ordering};

use crate::names::{lowercase, matches_word};

verus! {

/// How a frame's values are mapped onto the colormap's [0, 1] range.
#[derive(Clone, Copy, Debug, PartialEq, Eq, Structural)]
pub enum NormMode {
    /// The finite min/max over every frame received so far.
    Global,
    /// Each frame's own finite min/max.
    PerFrame,
    /// Each frame's 1st and 99th percentile of its finite values.
    Percentile,
    /// A fixed range.
    Fixed,
}

impl NormMode {
    /// The mode that follows `self` in the cycle
    /// global → per-frame → percentile → fixed → global.
    pub open spec fn successor(self) -> NormMode {
        match self {
            NormMode::Global => NormMode::PerFrame,
            NormMode::PerFrame => NormMode::Percentile,
            NormMode::Percentile => NormMode::Fixed,
            NormMode::Fixed => NormMode::Global,
        }
    }

    /// The text shown for the mode.
    pub open spec fn label_text(self) -> Seq<char> {
        match self {
            NormMode::Global => "global"@,
            NormMode::PerFrame => "per-frame"@,
            NormMode::Percentile => "percentile 1–99"@,
            NormMode::Fixed => "fixed"@,
        }
    }

    /// The mode a command-line name selects, in any ASCII case:
    /// `per-frame`/`perframe`/`frame`, `percentile`/`pct`, `fixed`; every
    /// other name selects global.
    pub open spec fn named(name: Seq<char>) -> NormMode {
        let l = lowercase(name);
        if l == "per-frame"@ || l == "perframe"@ || l == "frame"@ {
            NormMode::PerFrame
        } else if l == "percentile"@ || l == "pct"@ {
            NormMode::Percentile
        } else if l == "fixed"@ {
            NormMode::Fixed
        } else {
            NormMode::Global
        }
    }

    pub fn label(self) -> (s: &'static str)
        ensures
            s@ == self.label_text(),
    {
        match self {
            NormMode::Global => "global",
            NormMode::PerFrame => "per-frame",
            NormMode::Percentile => "percentile 1–99",
            NormMode::Fixed => "fixed",
        }
    }

    pub fn next(self) -> (m: Self)
        ensures
            m == self.successor(),
    {
        match self {
            NormMode::Global => NormMode::PerFrame,
            NormMode::PerFrame => NormMode::Percentile,
            NormMode::Percentile => NormMode::Fixed,
            NormMode::Fixed => NormMode::Global,
        }
    }

    pub fn from_name(name: &str) -> (m: Self)
        ensures
            m == Self::named(name@),
    {
        proof {
            reveal_strlit("per-frame");
            reveal_strlit("perframe");
            reveal_strlit("frame");
            reveal_strlit("percentile");
            reveal_strlit("pct");
            reveal_strlit("fixed");
        }
        if matches_word(name, "per-frame") || matches_word(name, "perframe") || matches_word(
            name,
            "frame",
        ) {
            NormMode::PerFrame
        } else if matches_word(name, "percentile") || matches_word(name, "pct") {
            NormMode::Percentile
        } else if matches_word(name, "fixed") {
            NormMode::Fixed
        } else {
            NormMode::Global
        }
    }
}

impl Default for NormMode {
    fn default() -> (m: Self)
        ensures
            m == NormMode::Global,
    {
        NormMode::Global
    }
}

// ── Values as IEEE-754 binary32 bit patterns ────────────────────────────────
//
// Frame values travel as the bit patterns of little-endian f32 words.  The
// range logic only compares values, never does arithmetic on them, so it
// works on the bit patterns: the low 31 bits are the magnitude, the top bit
// the sign, and for any two values that are not NaN, `a < b` as floats holds
// exactly when `order_key(a) < order_key(b)`.

/// The bit pattern of +∞.
pub const POS_INF_BITS: u32 = 0x7f80_0000;

/// The bit pattern of −∞.
pub const NEG_INF_BITS: u32 = 0xff80_0000;

/// The bit pattern of 1.0.
pub const ONE_BITS: u32 = 0x3f80_0000;

/// The magnitude bits of a value (its bit pattern without the sign bit).
pub open spec fn magnitude(b: u32) -> int {
    (b % 0x8000_0000) as int
}

/// Whether a bit pattern is a finite value (not ±∞, not NaN).
pub open spec fn is_finite_bits(b: u32) -> bool {
    magnitude(b) < 0x7f80_0000
}

/// Whether a bit pattern is a NaN.
pub open spec fn is_nan_bits(b: u32) -> bool {
    magnitude(b) > 0x7f80_0000
}

/// An integer that orders every non-NaN value as the float order does
/// (−0 and +0 share the key 0, as they compare equal).
pub open spec fn order_key(b: u32) -> int {
    if b >= 0x8000_0000 {
        -magnitude(b)
    } else {
        magnitude(b)
    }
}

/// The float comparison `a < b` on bit patterns: false whenever either is NaN.
pub open spec fn float_lt(a: u32, b: u32) -> bool {
    !is_nan_bits(a) && !is_nan_bits(b) && order_key(a) < order_key(b)
}

/// The range before any value has been seen: (+∞, −∞).
pub open spec fn empty_range() -> (u32, u32) {
    (POS_INF_BITS, NEG_INF_BITS)
}

/// One value folded into a running (min, max): a finite value replaces the
/// min when it is below it and the max when it is above it; a non-finite
/// value changes nothing.
pub open spec fn fold_value(r: (u32, u32), v: u32) -> (u32, u32) {
    if is_finite_bits(v) {
        (if float_lt(v, r.0) { v } else { r.0 }, if float_lt(r.1, v) { v } else { r.1 })
    } else {
        r
    }
}

/// A running (min, max) extended by the values of `vs`, in order.
pub open spec fn extended(r: (u32, u32), vs: Seq<u32>) -> (u32, u32)
    decreases vs.len(),
{
    if vs.len() == 0 {
        r
    } else {
        fold_value(extended(r, vs.drop_last()), vs.last())
    }
}

/// The finite (min, max) over a sequence of frames, starting from (+∞, −∞).
pub open spec fn frames_range(frames: Seq<Seq<u32>>) -> (u32, u32)
    decreases frames.len(),
{
    if frames.len() == 0 {
        empty_range()
    } else {
        extended(frames_range(frames.drop_last()), frames.last())
    }
}

/// A key that sorts finite values in the float order and tells every bit
/// pattern apart: −0 sorts just before +0, which compare equal as floats.
pub open spec fn sort_key(b: u32) -> int {
    2 * order_key(b) - (if b == 0x8000_0000 { 1int } else { 0int })
}

/// The sort keys of the finite values of `data`, in order.
pub open spec fn finite_keys(data: Seq<u32>) -> Seq<i64>
    decreases data.len(),
{
    if data.len() == 0 {
        Seq::empty()
    } else if is_finite_bits(data.last()) {
        finite_keys(data.drop_last()).push(sort_key(data.last()) as i64)
    } else {
        finite_keys(data.drop_last())
    }
}

/// The order on keys.
pub open spec fn key_leq() -> spec_fn(i64, i64) -> bool {
    |a: i64, b: i64| a <= b
}

/// The position of the 1st percentile among `n` sorted values.
pub open spec fn low_percentile_index(n: int) -> int {
    if n / 100 < n - 1 { n / 100 } else { n - 1 }
}

/// The position of the 99th percentile among `n` sorted values.
pub open spec fn high_percentile_index(n: int) -> int {
    if (99 * n) / 100 < n - 1 { (99 * n) / 100 } else { n - 1 }
}

/// The bit pattern of the value with a given order key (+0 for the key 0).
pub open spec fn bits_of_key(k: int) -> u32 {
    if k < 0 { (0x8000_0000 - k) as u32 } else { k as u32 }
}

/// The bit pattern of the finite value with a given sort key.
pub open spec fn bits_of_sort_key(k: int) -> u32 {
    if k == -1 {
        0x8000_0000
    } else if k < 0 {
        bits_of_key(-((-k) / 2))
    } else {
        bits_of_key(k / 2)
    }
}

/// The (low, high) pair a frame gets in a mode, before the degenerate-range
/// guard: the global or fixed range as given; the frame's own finite
/// (min, max); or the values at the 1st and 99th percentile of the frame's
/// sorted finite values, with (0.0, 1.0) for a frame without finite values.
pub open spec fn mode_range(data: Seq<u32>, mode: NormMode, global: (u32, u32), fixed: (u32, u32)) -> (u32, u32) {
    match mode {
        NormMode::Global => global,
        NormMode::Fixed => fixed,
        NormMode::PerFrame => extended(empty_range(), data),
        NormMode::Percentile => {
            let sorted = finite_keys(data).sort_by(key_leq());
            let n = sorted.len() as int;
            if n == 0 {
                (0, ONE_BITS)
            } else {
                (
                    bits_of_sort_key(sorted[low_percentile_index(n)] as int),
                    bits_of_sort_key(sorted[high_percentile_index(n)] as int),
                )
            }
        },
    }
}

fn magnitude_of(b: u32) -> (m: u32)
    ensures
        m == magnitude(b),
{
    assert(b & 0x7fff_ffff == b % 0x8000_0000) by (bit_vector);
    b & 0x7fff_ffff
}

fn is_finite(b: u32) -> (r: bool)
    ensures
        r == is_finite_bits(b),
{
    magnitude_of(b) < 0x7f80_0000
}

fn key_of(b: u32) -> (k: i64)
    ensures
        k == order_key(b),
{
    let m = magnitude_of(b) as i64;
    if b >= 0x8000_0000 {
        -m
    } else {
        m
    }
}

fn sort_key_of(b: u32) -> (k: i64)
    ensures
        k == sort_key(b),
{
    let k = key_of(b);
    if b == 0x8000_0000 {
        2 * k - 1
    } else {
        2 * k
    }
}

fn less_than(a: u32, b: u32) -> (r: bool)
    ensures
        r == float_lt(a, b),
{
    let ma = magnitude_of(a);
    let mb = magnitude_of(b);
    ma <= 0x7f80_0000 && mb <= 0x7f80_0000 && key_of(a) < key_of(b)
}

/// Fold one frame's finite min/max into a running range, so that a stream can
/// keep its global range up to date in time proportional to the new data.
pub fn extend_range(cur: (u32, u32), frame: &[u32]) -> (r: (u32, u32))
    ensures
        r == extended(cur, frame@),
{
    let mut mn = cur.0;
    let mut mx = cur.1;
    let n = frame.len();
    let mut i: usize = 0;
    while i < n
        invariant
            n == frame@.len(),
            0 <= i <= n,
            (mn, mx) == extended(cur, frame@.take(i as int)),
        decreases n - i,
    {
        let v = frame[i];
        proof {
            assert(frame@.take(i + 1).drop_last() =~= frame@.take(i as int));
        }
        if is_finite(v) {
            if less_than(v, mn) {
                mn = v;
            }
            if less_than(mx, v) {
                mx = v;
            }
        }
        i = i + 1;
    }
    proof {
        assert(frame@.take(n as int) =~= frame@);
    }
    (mn, mx)
}

/// The global finite min/max over all frames; NaN and ±∞ are ignored, and
/// without any finite value the result is (+∞, −∞).
pub fn global_range(frames: &[Vec<u32>]) -> (r: (u32, u32))
    ensures
        r == frames_range(frames@.map_values(|f: Vec<u32>| f@)),
{
    let ghost views = frames@.map_values(|f: Vec<u32>| f@);
    let mut range = (POS_INF_BITS, NEG_INF_BITS);
    let n = frames.len();
    let mut i: usize = 0;
    while i < n
        invariant
            n == frames@.len(),
            views == frames@.map_values(|f: Vec<u32>| f@),
            0 <= i <= n,
            range == frames_range(views.take(i as int)),
        decreases n - i,
    {
        proof {
            assert(views.take(i + 1).drop_last() =~= views.take(i as int));
        }
        range = extend_range(range, frames[i].as_slice());
        i = i + 1;
    }
    proof {
        assert(views.take(n as int) =~= views);
    }
    range
}

/// `slice::sort_unstable`: sorts the keys in ascending order; the result is a
/// permutation of the input.
#[verifier::external_body]
fn sort_keys(keys: &mut Vec<i64>)
    ensures
        final(keys)@.to_multiset() == old(keys)@.to_multiset(),
        sorted_by(final(keys)@, key_leq()),
{
    keys.sort_unstable();
}

proof fn key_leq_is_total()
    ensures
        total_ordering(key_leq()),
{
}

fn bits_for_key(k: i64) -> (b: u32)
    ensures
        b == bits_of_key(k as int),
{
    if k < 0 {
        (0x8000_0000i128 - (k as i128)) as u32
    } else {
        k as u32
    }
}

fn bits_for_sort_key(k: i64) -> (b: u32)
    ensures
        b == bits_of_sort_key(k as int),
{
    if k == -1 {
        0x8000_0000
    } else if k < 0 {
        let half = (-(k as i128)) / 2;
        bits_for_key(-(half as i64))
    } else {
        bits_for_key(k / 2)
    }
}

/// The sort keys of the finite values of `data`, in ascending order.
fn sorted_finite_keys(data: &[u32]) -> (keys: Vec<i64>)
    ensures
        keys@ == finite_keys(data@).sort_by(key_leq()),
{
    let mut keys: Vec<i64> = Vec::new();
    let n = data.len();
    let mut i: usize = 0;
    while i < n
        invariant
            n == data@.len(),
            0 <= i <= n,
            keys@ == finite_keys(data@.take(i as int)),
        decreases n - i,
    {
        let v = data[i];
        proof {
            assert(data@.take(i + 1).drop_last() =~= data@.take(i as int));
        }
        if is_finite(v) {
            keys.push(sort_key_of(v));
        }
        i = i + 1;
    }
    proof {
        assert(data@.take(n as int) =~= data@);
    }
    let ghost unsorted = keys@;
    sort_keys(&mut keys);
    proof {
        key_leq_is_total();
        unsorted.lemma_sort_by_ensures(key_leq());
        vstd::seq_lib::lemma_sorted_unique(keys@, unsorted.sort_by(key_leq()), key_leq());
    }
    keys
}

fn high_index(n: usize) -> (h: usize)
    requires
        n > 0,
    ensures
        h == high_percentile_index(n as int),
{
    let q = n / 100;
    let r = n % 100;
    let h = 99 * q + (99 * r) / 100;
    proof {
        assert(99 * (n as int) == 100 * (99 * q) + 99 * r) by (nonlinear_arith)
            requires
                n as int == 100 * q + r,
        ;
        assert((99 * (n as int)) / 100 == 99 * q + (99 * r) / 100) by (nonlinear_arith)
            requires
                99 * (n as int) == 100 * (99 * q) + 99 * r,
                0 <= r < 100,
        ;
    }
    if h < n - 1 {
        h
    } else {
        n - 1
    }
}

/// The (low, high) pair for a frame in the given mode, before the guard that
/// widens a degenerate range.  Non-finite values (NaN, ±∞) take no part.
pub fn frame_range(data: &[u32], mode: NormMode, global: (u32, u32), fixed: (u32, u32)) -> (r: (u32, u32))
    ensures
        r == mode_range(data@, mode, global, fixed),
{
    match mode {
        NormMode::Global => global,
        NormMode::Fixed => fixed,
        NormMode::PerFrame => extend_range((POS_INF_BITS, NEG_INF_BITS), data),
        NormMode::Percentile => {
            let sorted = sorted_finite_keys(data);
            let n = sorted.len();
            if n == 0 {
                return (0, ONE_BITS);
            }
            let lo = if n / 100 < n - 1 {
                n / 100
            } else {
                n - 1
            };
            let hi = high_index(n);
            (bits_for_sort_key(sorted[lo]), bits_for_sort_key(sorted[hi]))
        },
    }
}

/// Whether `data` holds a finite value.
pub open spec fn has_finite(data: Seq<u32>) -> bool {
    exists|i: int| 0 <= i < data.len() && is_finite_bits(#[trigger] data[i])
}

/// Extending a range by two pieces of data, one after the other, gives the
/// range of extending it once by both: a stream that folds in each new frame
/// ends with the range a rescan of all its data gives.
pub proof fn extend_in_pieces(r: (u32, u32), a: Seq<u32>, b: Seq<u32>)
    ensures
        extended(extended(r, a), b) == extended(r, a + b),
    decreases b.len(),
{
    if b.len() == 0 {
        assert(a + b =~= a);
    } else {
        extend_in_pieces(r, a, b.drop_last());
        assert((a + b).drop_last() =~= a + b.drop_last());
    }
}

/// The global range of frames, one more frame appended, is the old global
/// range extended by the new frame.
pub proof fn global_range_of_appended(frames: Seq<Seq<u32>>, f: Seq<u32>)
    ensures
        frames_range(frames.push(f)) == extended(frames_range(frames), f),
{
    assert(frames.push(f).drop_last() =~= frames);
}

/// Float equality on bit patterns: neither is NaN and they compare equal
/// (so −0 and +0 are equal).
pub open spec fn float_eq(a: u32, b: u32) -> bool {
    !is_nan_bits(a) && !is_nan_bits(b) && order_key(a) == order_key(b)
}

/// The order key of +∞, above the key of every finite value.
spec fn top_key() -> int {
    0x7f80_0000
}

/// The least of `k` and the order keys of the finite values of `vs`.
spec fn min_key(k: int, vs: Seq<u32>) -> int
    decreases vs.len(),
{
    if vs.len() == 0 {
        k
    } else {
        let m = min_key(k, vs.drop_last());
        if is_finite_bits(vs.last()) && order_key(vs.last()) < m {
            order_key(vs.last())
        } else {
            m
        }
    }
}

/// The greatest of `k` and the order keys of the finite values of `vs`.
spec fn max_key(k: int, vs: Seq<u32>) -> int
    decreases vs.len(),
{
    if vs.len() == 0 {
        k
    } else {
        let m = max_key(k, vs.drop_last());
        if is_finite_bits(vs.last()) && order_key(vs.last()) > m {
            order_key(vs.last())
        } else {
            m
        }
    }
}

proof fn min_key_shift(x: int, y: int, vs: Seq<u32>)
    ensures
        min_key(if x < y { x } else { y }, vs) == ({
            let m = min_key(y, vs);
            if x < m { x } else { m }
        }),
    decreases vs.len(),
{
    if vs.len() > 0 {
        min_key_shift(x, y, vs.drop_last());
    }
}

proof fn max_key_shift(x: int, y: int, vs: Seq<u32>)
    ensures
        max_key(if x > y { x } else { y }, vs) == ({
            let m = max_key(y, vs);
            if x > m { x } else { m }
        }),
    decreases vs.len(),
{
    if vs.len() > 0 {
        max_key_shift(x, y, vs.drop_last());
    }
}

proof fn min_key_bounded(k: int, vs: Seq<u32>)
    ensures
        min_key(k, vs) <= k,
        k <= top_key() ==> min_key(k, vs) <= top_key(),
    decreases vs.len(),
{
    if vs.len() > 0 {
        min_key_bounded(k, vs.drop_last());
    }
}

proof fn max_key_bounded(k: int, vs: Seq<u32>)
    ensures
        max_key(k, vs) >= k,
    decreases vs.len(),
{
    if vs.len() > 0 {
        max_key_bounded(k, vs.drop_last());
    }
}

/// Extending a range whose ends are not NaN keeps them not NaN; the low end
/// gets the least order key and the high end the greatest.
proof fn extended_keys(r: (u32, u32), vs: Seq<u32>)
    requires
        !is_nan_bits(r.0),
        !is_nan_bits(r.1),
    ensures
        !is_nan_bits(extended(r, vs).0),
        !is_nan_bits(extended(r, vs).1),
        order_key(extended(r, vs).0) == min_key(order_key(r.0), vs),
        order_key(extended(r, vs).1) == max_key(order_key(r.1), vs),
    decreases vs.len(),
{
    if vs.len() > 0 {
        extended_keys(r, vs.drop_last());
    }
}

proof fn not_nan_key_bounds(b: u32)
    requires
        !is_nan_bits(b),
    ensures
        -top_key() <= order_key(b) <= top_key(),
{
}

/// Extending a range (whose ends are not NaN) by two frames gives a range
/// equal as floats whichever frame comes first, and extending it twice by
/// the same frame gives the range of extending it once.
pub proof fn extend_order_free(r: (u32, u32), a: Seq<u32>, b: Seq<u32>)
    requires
        !is_nan_bits(r.0),
        !is_nan_bits(r.1),
    ensures
        float_eq(extended(extended(r, a), b).0, extended(extended(r, b), a).0),
        float_eq(extended(extended(r, a), b).1, extended(extended(r, b), a).1),
        float_eq(extended(extended(r, a), a).0, extended(r, a).0),
        float_eq(extended(extended(r, a), a).1, extended(r, a).1),
{
    let lo = order_key(r.0);
    let hi = order_key(r.1);
    not_nan_key_bounds(r.0);
    not_nan_key_bounds(r.1);
    extended_keys(r, a);
    extended_keys(r, b);
    extended_keys(extended(r, a), b);
    extended_keys(extended(r, b), a);
    extended_keys(extended(r, a), a);
    let t = top_key();
    let ma = min_key(t, a);
    let mb = min_key(t, b);
    let xa = max_key(-t, a);
    let xb = max_key(-t, b);
    min_key_bounded(t, a);
    min_key_bounded(t, b);
    max_key_bounded(-t, a);
    max_key_bounded(-t, b);
    // low ends: min_key(k, v) == min(k, min_key(t, v)) for k <= t
    min_key_shift(lo, t, a);
    min_key_shift(lo, t, b);
    let la = if lo < ma { lo } else { ma };
    let lb = if lo < mb { lo } else { mb };
    min_key_shift(la, t, b);
    min_key_shift(lb, t, a);
    min_key_shift(la, t, a);
    // high ends: max_key(k, v) == max(k, max_key(-t, v)) for k >= -t
    max_key_shift(hi, -t, a);
    max_key_shift(hi, -t, b);
    let ha = if hi > xa { hi } else { xa };
    let hb = if hi > xb { hi } else { xb };
    max_key_shift(ha, -t, b);
    max_key_shift(hb, -t, a);
    max_key_shift(ha, -t, a);
}

/// The range over two lists of frames, one after the other, is equal as
/// floats to the componentwise min/max of their ranges: its low end has the
/// lesser order key of theirs, its high end the greater.
pub proof fn global_range_of_concatenation(x: Seq<Seq<u32>>, y: Seq<Seq<u32>>)
    ensures
        ({
            let gx = frames_range(x);
            let gy = frames_range(y);
            let g = frames_range(x + y);
            &&& !is_nan_bits(g.0) && !is_nan_bits(g.1)
            &&& order_key(g.0) == (if order_key(gx.0) < order_key(gy.0) {
                order_key(gx.0)
            } else {
                order_key(gy.0)
            })
            &&& order_key(g.1) == (if order_key(gx.1) > order_key(gy.1) {
                order_key(gx.1)
            } else {
                order_key(gy.1)
            })
        }),
    decreases y.len(),
{
    frames_range_not_nan(x);
    frames_range_not_nan(x + y);
    frames_range_not_nan(y);
    not_nan_key_bounds(frames_range(x).0);
    not_nan_key_bounds(frames_range(x).1);
    if y.len() == 0 {
        assert(x + y =~= x);
    } else {
        let y0 = y.drop_last();
        let f = y.last();
        global_range_of_concatenation(x, y0);
        assert((x + y).drop_last() =~= x + y0);
        frames_range_not_nan(x + y0);
        frames_range_not_nan(y0);
        let gxy0 = frames_range(x + y0);
        let gy0 = frames_range(y0);
        extended_keys(gxy0, f);
        extended_keys(gy0, f);
        let t = top_key();
        min_key_bounded(t, f);
        max_key_bounded(-t, f);
        not_nan_key_bounds(gxy0.0);
        not_nan_key_bounds(gxy0.1);
        not_nan_key_bounds(gy0.0);
        not_nan_key_bounds(gy0.1);
        min_key_shift(order_key(gxy0.0), t, f);
        min_key_shift(order_key(gy0.0), t, f);
        max_key_shift(order_key(gxy0.1), -t, f);
        max_key_shift(order_key(gy0.1), -t, f);
    }
}

proof fn frames_range_not_nan(fs: Seq<Seq<u32>>)
    ensures
        !is_nan_bits(frames_range(fs).0),
        !is_nan_bits(frames_range(fs).1),
    decreases fs.len(),
{
    if fs.len() > 0 {
        frames_range_not_nan(fs.drop_last());
        extended_keys(frames_range(fs.drop_last()), fs.last());
    }
}

/// Starting from (+∞, −∞), the range of a frame is its finite minimum and
/// maximum: both are values of the frame, every finite value lies between
/// them in the float order, and without finite values the range stays
/// (+∞, −∞).
pub proof fn finite_min_max(data: Seq<u32>)
    ensures
        !has_finite(data) ==> extended(empty_range(), data) == empty_range(),
        has_finite(data) ==> ({
            let r = extended(empty_range(), data);
            &&& is_finite_bits(r.0)
            &&& is_finite_bits(r.1)
            &&& data.contains(r.0)
            &&& data.contains(r.1)
            &&& forall|i: int|
                0 <= i < data.len() && is_finite_bits(#[trigger] data[i]) ==> order_key(r.0)
                    <= order_key(data[i]) <= order_key(r.1)
        }),
    decreases data.len(),
{
    if data.len() > 0 {
        let init = data.drop_last();
        let v = data.last();
        finite_min_max(init);
        if has_finite(init) {
            let k = choose|k: int| 0 <= k < init.len() && is_finite_bits(#[trigger] init[k]);
            assert(data[k] == init[k]);
        }
        assert forall|i: int| 0 <= i < init.len() implies #[trigger] data[i] == init[i] by {}
        if has_finite(data) && !has_finite(init) {
            assert(is_finite_bits(v));
            assert forall|i: int| 0 <= i < data.len() && is_finite_bits(#[trigger] data[i]) implies i
                == data.len() - 1 by {
                if i < data.len() - 1 {
                    assert(is_finite_bits(init[i]));
                }
            }
            assert(data[data.len() - 1] == v);
        }
        if has_finite(init) {
            let r = extended(empty_range(), init);
            let j0 = choose|j: int| 0 <= j < init.len() && init[j] == r.0;
            let j1 = choose|j: int| 0 <= j < init.len() && init[j] == r.1;
            assert(data[j0] == r.0);
            assert(data[j1] == r.1);
            assert(data[data.len() - 1] == v);
        }
        if !has_finite(data) {
            assert(!is_finite_bits(data[data.len() - 1]));
            assert(!has_finite(init)) by {
                if has_finite(init) {
                    let k = choose|k: int| 0 <= k < init.len() && is_finite_bits(#[trigger] init[k]);
                    assert(is_finite_bits(data[k]));
                }
            }
        }
    }
}

proof fn finite_keys_facts(data: Seq<u32>)
    ensures
        finite_keys(data).len() > 0 <==> has_finite(data),
        forall|j: int|
            0 <= j < finite_keys(data).len() ==> exists|i: int|
                0 <= i < data.len() && is_finite_bits(data[i]) && #[trigger] finite_keys(data)[j]
                    == sort_key(data[i]),
    decreases data.len(),
{
    if data.len() > 0 {
        let init = data.drop_last();
        finite_keys_facts(init);
        assert forall|i: int| 0 <= i < init.len() implies #[trigger] data[i] == init[i] by {}
        if has_finite(init) {
            let k = choose|k: int| 0 <= k < init.len() && is_finite_bits(#[trigger] init[k]);
            assert(is_finite_bits(data[k]));
        }
        if has_finite(data) && !is_finite_bits(data.last()) {
            let k = choose|k: int| 0 <= k < data.len() && is_finite_bits(#[trigger] data[k]);
            assert(k < data.len() - 1);
            assert(is_finite_bits(init[k]));
        }
        let fk = finite_keys(data);
        let fi = finite_keys(init);
        assert forall|j: int| 0 <= j < fk.len() implies exists|i: int|
            0 <= i < data.len() && is_finite_bits(data[i]) && #[trigger] fk[j] == sort_key(
                data[i],
            ) by {
            if j < fi.len() {
                assert(fk[j] == fi[j]);
                let i = choose|i: int|
                    0 <= i < init.len() && is_finite_bits(init[i]) && #[trigger] fi[j] == sort_key(
                        init[i],
                    );
                assert(data[i] == init[i]);
            } else {
                assert(fk[j] == sort_key(data.last()) as i64);
                assert(data[data.len() - 1] == data.last());
            }
        }
    }
}

proof fn sort_key_round_trip(b: u32)
    requires
        is_finite_bits(b),
    ensures
        bits_of_sort_key(sort_key(b)) == b,
        -0x1_0000_0000 < sort_key(b) < 0x1_0000_0000,
{
}

/// In percentile mode a frame with finite values gets two of its own finite
/// values, the low one not above the high one in the float order.
pub proof fn percentile_range_ordered(data: Seq<u32>, global: (u32, u32), fixed: (u32, u32))
    requires
        has_finite(data),
    ensures
        ({
            let r = mode_range(data, NormMode::Percentile, global, fixed);
            &&& is_finite_bits(r.0)
            &&& is_finite_bits(r.1)
            &&& data.contains(r.0)
            &&& data.contains(r.1)
            &&& order_key(r.0) <= order_key(r.1)
        }),
{
    broadcast use vstd::seq_lib::group_to_multiset_ensures;

    let keys = finite_keys(data);
    let sorted = keys.sort_by(key_leq());
    finite_keys_facts(data);
    key_leq_is_total();
    keys.lemma_sort_by_ensures(key_leq());
    let n = sorted.len() as int;
    assert(sorted.to_multiset().len() == keys.to_multiset().len());
    assert(n == keys.len());
    let lo = low_percentile_index(n);
    let hi = high_percentile_index(n);
    assert(lo <= hi) by (nonlinear_arith)
        requires
            n > 0,
            lo == low_percentile_index(n),
            hi == high_percentile_index(n),
    ;
    assert(sorted.contains(sorted[lo]));
    assert(sorted.to_multiset().count(sorted[lo]) > 0);
    assert(keys.contains(sorted[lo]));
    assert(sorted.contains(sorted[hi]));
    assert(sorted.to_multiset().count(sorted[hi]) > 0);
    assert(keys.contains(sorted[hi]));
    if lo < hi {
        assert(key_leq()(sorted[lo], sorted[hi]));
    }
    let jl = choose|j: int| 0 <= j < keys.len() && keys[j] == sorted[lo];
    let jh = choose|j: int| 0 <= j < keys.len() && keys[j] == sorted[hi];
    let il = choose|i: int|
        0 <= i < data.len() && is_finite_bits(data[i]) && #[trigger] keys[jl] == sort_key(data[i]);
    let ih = choose|i: int|
        0 <= i < data.len() && is_finite_bits(data[i]) && #[trigger] keys[jh] == sort_key(data[i]);
    sort_key_round_trip(data[il]);
    sort_key_round_trip(data[ih]);
    assert(sorted[lo] as int == sort_key(data[il]));
    assert(sorted[hi] as int == sort_key(data[ih]));
}

/// Four steps of the normalization cycle lead back to where they started,
/// and the cycle passes through every mode.
pub proof fn norm_cycle(m: NormMode)
    ensures
        m.successor().successor().successor().successor() == m,
        forall|d: NormMode|
            #![trigger d.successor()]
            d == m || d == m.successor() || d == m.successor().successor()
                || d == m.successor().successor().successor(),
{
}

/// A mode's label, given as a command-line name, selects that mode again.
/// The percentile label names the percentiles as well, so it is left out.
pub proof fn norm_name_round_trip(m: NormMode)
    requires
        m != NormMode::Percentile,
    ensures
        NormMode::named(m.label_text()) == m,
{
    reveal_strlit("global");
    reveal_strlit("per-frame");
    reveal_strlit("perframe");
    reveal_strlit("frame");
    reveal_strlit("percentile");
    reveal_strlit("pct");
    reveal_strlit("fixed");
    let t = m.label_text();
    assert(lowercase(t) =~= t);
    assert("global"@[0] != "frame"@[0]);
    assert("fixed"@[1] != "frame"@[1]);
}

} // verus!
