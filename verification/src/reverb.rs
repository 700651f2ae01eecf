use vstd::prelude::*;
use crate::delay::{lemma_ring_write, ring_history};

verus! {

/// `rand::random_range` over the inclusive range `low..=high`, drawn from the
/// thread-local generator. The rand source returns a value inside the range
/// whenever `low <= high`; which value is left to chance, so nothing more is
/// claimed. (The generator panics if the operating system cannot seed it.)
#[verifier::external_body]
fn random_size_between(low: usize, high: usize) -> (size: usize)
    requires
        low <= high,
    ensures
        low <= size <= high,
{
    rand::random_range(low..=high)
}

/// The smallest length a comb line of nominal `size` and jitter `spread` may get.
pub open spec fn spec_min_comb_size(size: usize, spread: usize) -> int {
    let low = if size >= spread { size - spread } else { 0 };
    if low < 1 { 1 } else { low }
}

/// The largest length a comb line of nominal `size` and jitter `spread` may get.
pub open spec fn spec_max_comb_size(size: usize, spread: usize) -> int {
    let high = if size + spread > usize::MAX { usize::MAX as int } else { size + spread };
    if high < spec_min_comb_size(size, spread) { spec_min_comb_size(size, spread) } else { high }
}

/// The lengths a comb line may get lie `spread` on either side of `size`,
/// cut off at 1 below and at `usize::MAX` above; the nominal size itself is
/// always among them unless it is 0.
pub proof fn lemma_comb_size_bounds_surround_size(size: usize, spread: usize)
    ensures
        size >= spread + 1 ==> spec_min_comb_size(size, spread) == size - spread,
        size < spread + 1 ==> spec_min_comb_size(size, spread) == 1,
        1 <= size + spread <= usize::MAX ==> spec_max_comb_size(size, spread) == size + spread,
        size + spread > usize::MAX ==> spec_max_comb_size(size, spread) == usize::MAX,
        size >= 1 ==> spec_min_comb_size(size, spread) <= size <= spec_max_comb_size(size, spread),
        1 <= spec_min_comb_size(size, spread) <= spec_max_comb_size(size, spread),
{
}

/// The bounds `new` draws a comb line's length from: `size - spread` and
/// `size + spread`, each saturating at the ends of `usize`, the lower one at
/// least 1 and the upper one at least the lower one.
pub fn comb_size_bounds(size: usize, spread: usize) -> (bounds: (usize, usize))
    ensures
        bounds.0 == spec_min_comb_size(size, spread),
        bounds.1 == spec_max_comb_size(size, spread),
        1 <= bounds.0 <= bounds.1,
        size >= spread + 1 ==> bounds.0 == size - spread,
        size < spread + 1 ==> bounds.0 == 1,
        1 <= size + spread <= usize::MAX ==> bounds.1 == size + spread,
        size + spread > usize::MAX ==> bounds.1 == usize::MAX,
        size + spread == 0 ==> bounds.1 == 1,
{
    let low: usize = size.saturating_sub(spread);
    let min_size: usize = if low < 1 { 1 } else { low };
    let high: usize = size.saturating_add(spread);
    let max_size: usize = if high < min_size { min_size } else { high };
    (min_size, max_size)
}

/// A feedback comb line whose length is drawn at random around a nominal size.
pub struct ReverbLine<T> {
    buffer: Vec<T>,
    position: usize,
}

impl<T> View for ReverbLine<T> {
    type V = Seq<T>;

    /// The stored samples, oldest first.
    closed spec fn view(&self) -> Seq<T> {
        ring_history(self.buffer@, self.position as int)
    }
}

impl<T> ReverbLine<T> {
    #[verifier::type_invariant]
    spec fn well_formed(self) -> bool {
        0 <= self.position < self.buffer@.len()
    }
}

impl<T: Copy> ReverbLine<T> {
    /// A line of `silence` whose length is drawn from
    /// `comb_size_bounds(size, spread)`.
    pub fn new(size: usize, spread: usize, silence: T) -> (line: Self)
        ensures
            spec_min_comb_size(size, spread) <= line@.len() <= spec_max_comb_size(size, spread),
            forall|i: int| 0 <= i < line@.len() ==> line@[i] == silence,
            line@.len() >= 1,
            size >= spread + 1 ==> size - spread <= line@.len(),
            size + spread <= usize::MAX ==> line@.len() <= size + spread || line@.len() == 1,
            spread == 0 && size >= 1 ==> line@.len() == size,
    {
        let (min_size, max_size) = comb_size_bounds(size, spread);
        let random_size = random_size_between(min_size, max_size);
        let mut buffer: Vec<T> = Vec::new();
        while buffer.len() < random_size
            invariant
                buffer.len() <= random_size,
                forall|i: int| 0 <= i < buffer.len() ==> buffer@[i] == silence,
            decreases random_size - buffer.len(),
        {
            buffer.push(silence);
        }
        ReverbLine { buffer, position: 0 }
    }

    /// The oldest stored sample, the one the next write replaces.
    pub fn read(&self) -> (sample: T)
        ensures
            self@.len() > 0,
            sample == self@[0],
    {
        proof { use_type_invariant(self); }
        self.buffer[self.position]
    }

    /// The length of the line in samples.
    pub fn size(&self) -> (n: usize)
        ensures
            n == self@.len(),
            n > 0,
    {
        proof { use_type_invariant(self); }
        self.buffer.len()
    }

    /// Stores `sample` as the newest entry, dropping the oldest one.
    pub fn write_and_advance(&mut self, sample: T)
        ensures
            final(self)@ == old(self)@.drop_first().push(sample),
    {
        proof { use_type_invariant(&*self); }
        let ghost old_buffer = self.buffer@;
        let position = self.position;
        let size = self.buffer.len();
        self.buffer[position] = sample;
        let next: usize = if position + 1 == size { 0 } else { position + 1 };
        self.position = next;
        proof { lemma_ring_write(old_buffer, position as int, sample); }
    }
}

/// An all-pass line of a fixed length. A line of length zero can be made but
/// neither read nor written.
pub struct AllPassLine<T> {
    buffer: Vec<T>,
    position: usize,
}

impl<T> View for AllPassLine<T> {
    type V = Seq<T>;

    /// The stored samples, oldest first.
    closed spec fn view(&self) -> Seq<T> {
        ring_history(self.buffer@, self.position as int)
    }
}

impl<T> AllPassLine<T> {
    #[verifier::type_invariant]
    spec fn well_formed(self) -> bool {
        ||| 0 <= self.position < self.buffer@.len()
        ||| self.position == 0 && self.buffer@.len() == 0
    }
}

impl<T: Copy> AllPassLine<T> {
    /// A line of `size` samples, all `silence`.
    pub fn new(size: usize, silence: T) -> (line: Self)
        ensures
            line@ == Seq::new(size as nat, |i: int| silence),
    {
        let mut buffer: Vec<T> = Vec::new();
        while buffer.len() < size
            invariant
                buffer.len() <= size,
                forall|i: int| 0 <= i < buffer.len() ==> buffer@[i] == silence,
            decreases size - buffer.len(),
        {
            buffer.push(silence);
        }
        let line = AllPassLine { buffer, position: 0 };
        assert(line@ =~= Seq::new(size as nat, |i: int| silence));
        line
    }

    /// The oldest stored sample, the one the next write replaces.
    pub fn read(&self) -> (sample: T)
        requires
            self@.len() > 0,
        ensures
            sample == self@[0],
    {
        proof { use_type_invariant(self); }
        self.buffer[self.position]
    }

    /// The length of the line in samples.
    pub fn size(&self) -> (n: usize)
        ensures
            n == self@.len(),
    {
        proof { use_type_invariant(self); }
        self.buffer.len()
    }

    /// Stores `sample` as the newest entry, dropping the oldest one.
    pub fn write_and_advance(&mut self, sample: T)
        requires
            old(self)@.len() > 0,
        ensures
            final(self)@ == old(self)@.drop_first().push(sample),
    {
        proof { use_type_invariant(&*self); }
        let ghost old_buffer = self.buffer@;
        let position = self.position;
        let size = self.buffer.len();
        self.buffer[position] = sample;
        let next: usize = if position + 1 == size { 0 } else { position + 1 };
        self.position = next;
        proof { lemma_ring_write(old_buffer, position as int, sample); }
    }
}

} // verus!
