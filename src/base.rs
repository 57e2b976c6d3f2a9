use vstd::prelude::*;

verus! {

/// The load address that a main executable is linked for by default.
pub const DEFAULT_BASE_ADDRESS: u64 = 0x1_0000_0000;

/// The expected base after one attempt to set it: the first value written
/// stays, later writes change nothing.
pub open spec fn after_write(cell: Option<u64>, value: u64) -> Option<u64> {
    match cell {
        Some(v) => Some(v),
        None => Some(value),
    }
}

/// The expected base after a sequence of attempts to set it, in order.
pub open spec fn after_writes(cell: Option<u64>, values: Seq<u64>) -> Option<u64>
    decreases values.len(),
{
    if values.len() == 0 {
        cell
    } else {
        after_writes(after_write(cell, values[0]), values.drop_first())
    }
}

/// The expected base address shared by every slide computation of a run.
/// It is written once, before any target is processed; the first write wins.
pub struct ExpectedBase {
    value: Option<u64>,
}

impl View for ExpectedBase {
    type V = Option<u64>;

    closed spec fn view(&self) -> Option<u64> {
        self.value
    }
}

impl ExpectedBase {
    /// A cell that holds no base yet.
    pub fn new() -> (r: ExpectedBase)
        ensures
            r@ == None::<u64>,
    {
        ExpectedBase { value: None }
    }

    /// The base, once written.
    pub fn get(&self) -> (r: Option<u64>)
        ensures
            r == self@,
    {
        self.value
    }

    /// Writes `value` unless a base is already held, and returns the base held
    /// afterwards.
    pub fn get_or_init(&mut self, value: u64) -> (r: u64)
        ensures
            final(self)@ == after_write(old(self)@, value),
            final(self)@ == Some(r),
            old(self)@ is Some ==> r == old(self)@->0,
            old(self)@ is None ==> r == value,
    {
        match self.value {
            Some(v) => v,
            None => {
                self.value = Some(value);
                value
            },
        }
    }

    /// Sets the base from the caller's override, or to the default load
    /// address when there is none; the first write wins.
    pub fn init_from(&mut self, requested: Option<u64>) -> (r: u64)
        ensures
            final(self)@ == after_write(old(self)@, base_or_default(requested)),
            final(self)@ == Some(r),
    {
        let value = match requested {
            Some(v) => v,
            None => DEFAULT_BASE_ADDRESS,
        };
        self.get_or_init(value)
    }
}

/// The base a run uses when it is given `requested`.
pub open spec fn base_or_default(requested: Option<u64>) -> u64 {
    match requested {
        Some(v) => v,
        None => 0x1_0000_0000,
    }
}

/// Once the expected base holds a value, no number of further writes changes it.
pub proof fn lemma_base_fixed_once_set(cell: Option<u64>, values: Seq<u64>)
    requires
        cell is Some,
    ensures
        after_writes(cell, values) == cell,
    decreases values.len(),
{
    if values.len() > 0 {
        lemma_base_fixed_once_set(after_write(cell, values[0]), values.drop_first());
    }
}

/// The first write to an empty cell decides the base for the rest of the run.
pub proof fn lemma_first_write_wins(values: Seq<u64>)
    requires
        values.len() > 0,
    ensures
        after_writes(None, values) == Some(values[0]),
{
    lemma_base_fixed_once_set(Some(values[0]), values.drop_first());
}

} // verus!
