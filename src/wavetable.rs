//! The oscillator's wavetable: one cycle of a waveform as samples, read
//! with wrap-around indexing.
use vstd::prelude::*;

verus! {

/// The fewest samples a wavetable may hold.
pub const MIN_TABLE_LEN: usize = 2;

/// Why a sequence of samples was refused as a wavetable.
#[derive(Clone, Copy, Debug, PartialEq, Eq, Structural)]
pub enum WaveTableError {
    /// Fewer than `MIN_TABLE_LEN` samples.
    TooShort,
}

/// The sample that table position `index` reads: positions wrap around the
/// table, so any position reads some sample.
pub open spec fn sample_at<S>(table: Seq<S>, index: int) -> S
    recommends
        table.len() > 0,
{
    table[index % (table.len() as int)]
}

/// A cycle of at least `MIN_TABLE_LEN` samples. It is never changed in
/// place: the oscillator replaces a whole table with another.
pub struct WaveTable<S> {
    samples: Vec<S>,
}

impl<S> View for WaveTable<S> {
    type V = Seq<S>;

    /// The samples of the table.
    closed spec fn view(&self) -> Seq<S> {
        self.samples@
    }
}

impl<S> WaveTable<S> {
    /// The table holds enough samples.
    pub open spec fn wf(&self) -> bool {
        self@.len() >= MIN_TABLE_LEN
    }

    /// Takes `samples` as a table; refused when there are fewer than
    /// `MIN_TABLE_LEN` of them.
    pub fn new(samples: Vec<S>) -> (r: Result<WaveTable<S>, WaveTableError>)
        ensures
            samples@.len() >= MIN_TABLE_LEN <==> r is Ok,
            r matches Ok(t) ==> t.wf() && t@ == samples@,
            r matches Err(e) ==> e == WaveTableError::TooShort,
    {
        if samples.len() < MIN_TABLE_LEN {
            Err(WaveTableError::TooShort)
        } else {
            Ok(WaveTable { samples })
        }
    }

    /// The number of samples.
    pub fn len(&self) -> (r: usize)
        ensures
            r == self@.len(),
    {
        self.samples.len()
    }
}

impl<S: Copy> WaveTable<S> {
    /// The sample at position `index`, wrapped around the table.
    pub fn sample(&self, index: usize) -> (r: S)
        requires
            self.wf(),
        ensures
            r == sample_at(self@, index as int),
    {
        self.samples[index % self.samples.len()]
    }
}

/// Materialises a wave as `size` samples taken at evenly spaced phase
/// positions strictly inside the cycle: sample `n` is the wave at position
/// `(n + 1) / (size + 1)`, which `wave` receives as numerator and
/// denominator.
pub fn wave_table_from_func<S, F: Fn(usize, usize) -> S>(wave: F, size: usize) -> (r: Vec<S>)
    requires
        size < usize::MAX,
        forall|num: usize, den: usize| #[trigger] wave.requires((num, den)),
    ensures
        r@.len() == size,
        forall|n: int| 0 <= n < size ==> wave.ensures(((n + 1) as usize, (size + 1) as usize), #[trigger] r@[n]),
{
    let mut table: Vec<S> = Vec::with_capacity(size);
    let mut n: usize = 0;
    while n < size
        invariant
            n <= size < usize::MAX,
            table@.len() == n,
            forall|num: usize, den: usize| #[trigger] wave.requires((num, den)),
            forall|k: int| 0 <= k < n ==> wave.ensures(((k + 1) as usize, (size + 1) as usize), #[trigger] table@[k]),
        decreases size - n,
    {
        let sample = wave(n + 1, size + 1);
        table.push(sample);
        n = n + 1;
    }
    table
}

/// Materialises a wave as `size` samples taken at evenly spaced phase
/// positions from the start of the cycle: sample `n` is the wave at
/// position `n / size`, which `wave` receives as numerator and denominator.
pub fn cycle_table_from_func<S, F: Fn(usize, usize) -> S>(wave: F, size: usize) -> (r: Vec<S>)
    requires
        forall|num: usize, den: usize| #[trigger] wave.requires((num, den)),
    ensures
        r@.len() == size,
        forall|n: int| 0 <= n < size ==> wave.ensures((n as usize, size), #[trigger] r@[n]),
{
    let mut table: Vec<S> = Vec::with_capacity(size);
    let mut n: usize = 0;
    while n < size
        invariant
            n <= size,
            table@.len() == n,
            forall|num: usize, den: usize| #[trigger] wave.requires((num, den)),
            forall|k: int| 0 <= k < n ==> wave.ensures((k as usize, size), #[trigger] table@[k]),
        decreases size - n,
    {
        let sample = wave(n, size);
        table.push(sample);
        n = n + 1;
    }
    table
}

/// Table reads repeat with the table's length: moving the position on by
/// one whole cycle reads the same sample.
pub proof fn lemma_sample_periodic<S>(table: Seq<S>, index: int, cycles: int)
    requires
        table.len() > 0,
    ensures
        sample_at(table, index + cycles * table.len()) == sample_at(table, index),
{
    let l = table.len() as int;
    vstd::arithmetic::div_mod::lemma_mod_multiples_vanish(cycles, index, l);
    assert(index + cycles * l == l * cycles + index) by (nonlinear_arith);
}

} // verus!
