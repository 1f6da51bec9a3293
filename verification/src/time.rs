use vstd::prelude::*;

verus! {

/// A point in time: microseconds reported by the host clock.  Reading the
/// clock is a host call; this type carries the value it returned.
#[derive(Clone, Copy, PartialEq, Eq, PartialOrd, Ord, Hash, Debug)]
pub struct Instant {
    micros: u64,
}

impl Instant {
    pub closed spec fn spec_micros(self) -> u64 {
        self.micros
    }

    /// Adopts a microsecond reading of the host clock.
    pub fn from_micros(micros: u64) -> (t: Instant)
        ensures
            t.spec_micros() == micros,
    {
        Instant { micros }
    }

    /// The reading, in microseconds.
    pub fn micros(&self) -> (m: u64)
        ensures
            m == self.spec_micros(),
    {
        self.micros
    }

    /// How much later `self` is than `earlier`, saturating at zero when
    /// `earlier` is in fact the later reading.
    pub fn duration_since(&self, earlier: &Instant) -> (d: Duration)
        ensures
            self.spec_micros() >= earlier.spec_micros() ==> d.spec_micros() == self.spec_micros()
                - earlier.spec_micros(),
            self.spec_micros() < earlier.spec_micros() ==> d.spec_micros() == 0,
    {
        if self.micros >= earlier.micros {
            Duration { micros: self.micros - earlier.micros }
        } else {
            Duration { micros: 0 }
        }
    }
}

/// A span of time in microseconds, as the host timer calls count it.
#[derive(Clone, Copy, PartialEq, Eq, PartialOrd, Ord, Hash, Debug)]
pub struct Duration {
    micros: u64,
}

impl Duration {
    pub closed spec fn spec_micros(self) -> u64 {
        self.micros
    }

    /// A span of `micros` microseconds.
    pub fn from_micros(micros: u64) -> (d: Duration)
        ensures
            d.spec_micros() == micros,
    {
        Duration { micros }
    }

    /// The span, in microseconds.
    pub fn micros(&self) -> (m: u64)
        ensures
            m == self.spec_micros(),
    {
        self.micros
    }
}

} // verus!
