//! The per-cell colour decisions a conversion makes, and the integer half of
//! choosing the C64 multicolour background. The searches themselves score
//! colours by floating-point distances and are not part of this library.
use vstd::prelude::*;

verus! {

/// A Spectrum cell's chosen attributes (palette indices into the 16-entry
/// interpretation; black is always index 0, even in a bright cell).
#[derive(Debug, Clone, Copy, PartialEq, Eq, Structural)]
pub struct SpectrumChoice {
    /// Palette index of the INK colour.
    pub ink: u8,
    /// Palette index of the PAPER colour.
    pub paper: u8,
    /// The cell's BRIGHT bit (applies to ink and paper together).
    pub bright: bool,
}

impl SpectrumChoice {
    /// Hardware INK value 0-7 (the palette index's colour number).
    pub fn ink_value(self) -> (v: u8)
        ensures
            v == self.ink % 8,
    {
        let ink = self.ink;
        assert(ink & 7 == ink % 8) by (bit_vector);
        ink & 7
    }

    /// Hardware PAPER value 0-7.
    pub fn paper_value(self) -> (v: u8)
        ensures
            v == self.paper % 8,
    {
        let paper = self.paper;
        assert(paper & 7 == paper % 8) by (bit_vector);
        paper & 7
    }
}

/// A C64 hires cell's chosen colour pair (palette indices 0-15).
#[derive(Debug, Clone, Copy, PartialEq, Eq, Structural)]
pub struct HiresChoice {
    /// Colour of set bitmap bits (screen RAM upper nybble).
    pub fg: u8,
    /// Colour of clear bitmap bits (screen RAM lower nybble).
    pub bg: u8,
}

/// A C64 multicolour cell's colour set: `[background, %01, %10, %11]`
/// (slot 0 is the global background, slots 1-3 the cell's free colours).
#[derive(Debug, Clone, Copy, PartialEq, Eq)]
pub struct MultiChoice {
    /// `[background, c01, c10, c11]`.
    pub colours: [u8; 4],
}

/// How many of the indices are `v`.
pub open spec fn count_of(s: Seq<u8>, v: int) -> nat
    decreases s.len(),
{
    if s.len() == 0 {
        0
    } else {
        count_of(s.drop_last(), v) + if s.last() == v {
            1nat
        } else {
            0nat
        }
    }
}

/// Whether `r` is the most frequent of the indices `0..n`, and the lowest
/// such index when several are equally frequent.
pub open spec fn is_most_frequent(s: Seq<u8>, n: int, r: int) -> bool {
    &&& 0 <= r < n
    &&& forall|j: int| 0 <= j < n ==> #[trigger] count_of(s, j) <= count_of(s, r)
    &&& forall|j: int| 0 <= j < r ==> #[trigger] count_of(s, j) < count_of(s, r)
}

/// The most frequent palette index among the pixels' nearest indices (the
/// histogram the multicolour background is chosen from): the lowest index
/// on equal counts, so index 0 when there are no pixels.
pub fn most_frequent(nearest: &[u8], palette_len: usize) -> (r: u8)
    requires
        1 <= palette_len <= 256,
        forall|i: int| 0 <= i < nearest@.len() ==> #[trigger] nearest@[i] < palette_len,
    ensures
        is_most_frequent(nearest@, palette_len as int, r as int),
{
    let ghost s = nearest@;
    let mut counts: Vec<usize> = Vec::new();
    let mut j: usize = 0;
    while j < palette_len
        invariant
            j <= palette_len <= 256,
            counts@.len() == j,
            forall|k: int| 0 <= k < j ==> #[trigger] counts@[k] == 0,
        decreases palette_len - j,
    {
        counts.push(0);
        j += 1;
    }
    let mut i: usize = 0;
    assert(s.take(0) =~= Seq::<u8>::empty());
    while i < nearest.len()
        invariant
            s == nearest@,
            i <= s.len(),
            1 <= palette_len <= 256,
            counts@.len() == palette_len,
            forall|k: int| 0 <= k < s.len() ==> #[trigger] s[k] < palette_len,
            forall|k: int| 0 <= k < palette_len ==> #[trigger] counts@[k] == count_of(s.take(i as int), k),
            forall|k: int| 0 <= k < palette_len ==> #[trigger] counts@[k] <= i,
        decreases s.len() - i,
    {
        let v = nearest[i] as usize;
        assert(s.take(i + 1).drop_last() =~= s.take(i as int));
        assert(s.take(i + 1).last() == s[i as int]);
        let c = counts[v];
        counts.set(v, c + 1);
        i += 1;
    }
    assert(s.take(s.len() as int) =~= s);
    let mut best: usize = 0;
    let mut best_count: usize = 0;
    let mut k: usize = 0;
    while k < palette_len
        invariant
            k <= palette_len <= 256,
            counts@.len() == palette_len,
            forall|q: int| 0 <= q < palette_len ==> #[trigger] counts@[q] == count_of(s, q),
            best < palette_len,
            best <= k || (k == 0 && best == 0),
            best_count == if k == 0 { 0 } else { counts@[best as int] },
            forall|q: int| 0 <= q < k ==> #[trigger] counts@[q] <= best_count,
            forall|q: int| 0 <= q < best ==> #[trigger] counts@[q] < best_count,
            k == 0 ==> best == 0,
            k > 0 ==> best < k,
        decreases palette_len - k,
    {
        if counts[k] > best_count || k == 0 {
            best_count = counts[k];
            best = k;
        }
        k += 1;
    }
    assert(counts@[best as int] == count_of(s, best as int));
    assert forall|j: int| 0 <= j < palette_len implies #[trigger] count_of(s, j) <= count_of(s, best as int) by {
        assert(counts@[j] == count_of(s, j));
    }
    assert forall|j: int| 0 <= j < best implies #[trigger] count_of(s, j) < count_of(s, best as int) by {
        assert(counts@[j] == count_of(s, j));
    }
    best as u8
}

/// The number of unordered colour pairs `(a, b)`, `a <= b < n`, whose first
/// colour is below `i`: the entries in rows `0..i` of the upper triangle
/// (with its diagonal) of an `n x n` table.
pub open spec fn rows_before(n: int, i: int) -> int
    decreases i,
{
    if i <= 0 {
        0
    } else {
        rows_before(n, i - 1) + (n - (i - 1))
    }
}

proof fn lemma_rows_before_closed(n: int, i: int)
    requires
        0 <= i <= n,
    ensures
        2 * rows_before(n, i) == i * (2 * n - i + 1),
    decreases i,
{
    if i > 0 {
        lemma_rows_before_closed(n, i - 1);
        assert((i - 1) * (2 * n - (i - 1) + 1) + 2 * (n - (i - 1)) == i * (2 * n - i + 1)) by (nonlinear_arith);
    } else {
        assert(i * (2 * n - i + 1) == 0) by (nonlinear_arith)
            requires
                i == 0,
        ;
    }
}

proof fn lemma_rows_before_mono(n: int, i: int, k: int)
    requires
        0 <= i <= k <= n,
    ensures
        rows_before(n, i) + (n - i) <= rows_before(n, k) || i == k,
        rows_before(n, i) <= rows_before(n, k),
    decreases k - i,
{
    if i < k {
        lemma_rows_before_mono(n, i, k - 1);
        assert(rows_before(n, k) == rows_before(n, k - 1) + (n - (k - 1)));
    }
}

/// Where the mix table keeps the pair `(i, j)`, `i <= j < n`: the table
/// holds the pairs row by row (`(0, 0), (0, 1), .., (0, n-1), (1, 1), ..`),
/// so after every pair whose first colour is below `i`.
pub fn pair_index(n: usize, i: usize, j: usize) -> (r: usize)
    requires
        i <= j < n,
        n * (n + 1) <= usize::MAX,
    ensures
        r == rows_before(n as int, i as int) + (j - i),
{
    proof {
        lemma_rows_before_closed(n as int, i as int);
        assert(i * (2 * n - i + 1) <= n * (n + 1) && 0 <= i * (2 * n - i + 1)) by (nonlinear_arith)
            requires
                i < n,
        ;
        assert(2 * n <= n * (n + 1)) by (nonlinear_arith)
            requires
                n >= 1,
        ;
    }
    i * (2 * n - i + 1) / 2 + (j - i)
}

/// The mix table's layout numbers the pairs `0, 1, ..` without gaps or
/// repeats: every pair `i <= j < n` has its own index below
/// `n * (n + 1) / 2`.
pub proof fn lemma_pair_index_numbers_each_pair_once(n: int, i: int, j: int, k: int, l: int)
    requires
        0 <= i <= j < n,
        0 <= k <= l < n,
    ensures
        0 <= rows_before(n, i) + (j - i) < n * (n + 1) / 2,
        rows_before(n, i) + (j - i) == rows_before(n, k) + (l - k) ==> i == k && j == l,
{
    lemma_rows_before_closed(n, n);
    assert(2 * rows_before(n, n) == n * (n + 1)) by (nonlinear_arith)
        requires
            2 * rows_before(n, n) == n * (2 * n - n + 1),
    ;
    lemma_rows_before_mono(n, i, n);
    lemma_rows_before_mono(n, 0, i);
    if i < k {
        lemma_rows_before_mono(n, i, k);
    } else if k < i {
        lemma_rows_before_mono(n, k, i);
    }
}

} // verus!
