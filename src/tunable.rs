use vstd::prelude::*;
use crossbeam_utils::atomic::AtomicCell;

verus! {

#[verifier::external_type_specification]
#[verifier::external_body]
#[verifier::reject_recursive_types(T)]
pub struct ExAtomicCell<T>(AtomicCell<T>);

/// Relies on `AtomicCell::new`: a cell holding `v`. The cell is written
/// through shared references, so nothing is stated of what it holds later.
#[verifier::external_body]
fn cell_new(v: u64) -> (r: AtomicCell<u64>) {
    AtomicCell::new(v)
}

/// Relies on `AtomicCell::store`: one atomic write.
#[verifier::external_body]
fn cell_store(c: &AtomicCell<u64>, v: u64) {
    c.store(v)
}

/// Relies on `AtomicCell::load`: one atomic read. Another thread may have
/// written since, so nothing is stated of the value.
#[verifier::external_body]
fn cell_load(c: &AtomicCell<u64>) -> (r: u64) {
    c.load()
}

/// `v` brought into `[min, max]`.
pub open spec fn clamp_spec(v: u64, min: u64, max: u64) -> u64 {
    if v < min {
        min
    } else if v > max {
        max
    } else {
        v
    }
}

pub fn clamp_to(v: u64, min: u64, max: u64) -> (r: u64)
    requires
        min <= max,
    ensures
        r == clamp_spec(v, min, max),
        min <= r <= max,
{
    if v < min {
        min
    } else if v > max {
        max
    } else {
        v
    }
}

/// One bounded control value, written by a control surface and read by the
/// real-time stages without locking. Probabilities are in thousandths and
/// times in milliseconds.
pub struct TunableParameterCell {
    value: AtomicCell<u64>,
    min: u64,
    max: u64,
}

impl TunableParameterCell {
    pub closed spec fn min_spec(&self) -> u64 {
        self.min
    }

    pub closed spec fn max_spec(&self) -> u64 {
        self.max
    }

    pub open spec fn wf(&self) -> bool {
        self.min_spec() <= self.max_spec()
    }

    /// A cell for `[min, max]` that starts at `initial`, clamped.
    pub fn new(initial: u64, min: u64, max: u64) -> (r: TunableParameterCell)
        requires
            min <= max,
        ensures
            r.wf(),
            r.min_spec() == min,
            r.max_spec() == max,
    {
        TunableParameterCell { value: cell_new(clamp_to(initial, min, max)), min, max }
    }

    pub fn min(&self) -> (r: u64)
        ensures
            r == self.min_spec(),
    {
        self.min
    }

    pub fn max(&self) -> (r: u64)
        ensures
            r == self.max_spec(),
    {
        self.max
    }

    /// Stores `v`, clamped to the bounds; an out-of-range write is not
    /// refused.
    pub fn store(&self, v: u64)
        requires
            self.wf(),
    {
        cell_store(&self.value, clamp_to(v, self.min, self.max));
    }

    /// The current value, within the bounds whatever was written.
    pub fn current(&self) -> (r: u64)
        requires
            self.wf(),
        ensures
            self.min_spec() <= r <= self.max_spec(),
    {
        clamp_to(cell_load(&self.value), self.min, self.max)
    }
}

} // verus!
