//! Spans of time, with the range and arithmetic of `std::time::Duration`:
//! whole seconds in a `u64` and a nanosecond part below one second.
use vstd::prelude::*;

verus! {

pub const NANOS_PER_SEC: u32 = 1_000_000_000;

/// The longest span, `Duration::MAX`, in nanoseconds.
pub open spec fn max_nanos() -> nat {
    18446744073709551615nat * 1_000_000_000nat + 999_999_999nat
}

/// A span of time. Its model is its length in nanoseconds.
#[derive(Clone, Copy, PartialEq, Eq, Structural, Debug)]
pub struct TimeSpan {
    secs: u64,
    nanos: u32,
}

impl View for TimeSpan {
    type V = nat;

    closed spec fn view(&self) -> nat {
        (self.secs as nat) * 1_000_000_000nat + self.nanos as nat
    }
}

impl TimeSpan {
    #[verifier::type_invariant]
    spec fn wf(self) -> bool {
        self.nanos < NANOS_PER_SEC
    }

    /// The span of no time.
    pub fn zero() -> (r: TimeSpan)
        ensures
            r@ == 0,
    {
        TimeSpan { secs: 0, nanos: 0 }
    }

    /// `Duration::MAX`.
    pub fn max_value() -> (r: TimeSpan)
        ensures
            r@ == max_nanos(),
    {
        TimeSpan { secs: u64::MAX, nanos: NANOS_PER_SEC - 1 }
    }

    /// `secs` whole seconds.
    pub fn from_secs(secs: u64) -> (r: TimeSpan)
        ensures
            r@ == secs * 1_000_000_000nat,
    {
        TimeSpan { secs, nanos: 0 }
    }

    /// `millis` milliseconds.
    pub fn from_millis(millis: u64) -> (r: TimeSpan)
        ensures
            r@ == millis * 1_000_000nat,
    {
        let r = TimeSpan { secs: millis / 1000, nanos: ((millis % 1000) as u32) * 1_000_000 };
        assert(r@ == millis * 1_000_000nat);
        r
    }

    /// `secs` seconds and `nanos` nanoseconds, as `Duration::new`: nanoseconds
    /// beyond a second carry into the seconds. `Duration::new` panics where the
    /// seconds overflow; that input is excluded.
    pub fn new(secs: u64, nanos: u32) -> (r: TimeSpan)
        requires
            secs + nanos / NANOS_PER_SEC <= u64::MAX,
        ensures
            r@ == secs * 1_000_000_000nat + nanos,
    {
        let r = TimeSpan { secs: secs + (nanos / NANOS_PER_SEC) as u64, nanos: nanos % NANOS_PER_SEC };
        assert(r@ == secs * 1_000_000_000nat + nanos);
        r
    }

    /// Whole seconds.
    pub fn as_secs(&self) -> (r: u64)
        ensures
            r == self@ / 1_000_000_000,
    {
        proof {
            use_type_invariant(self);
        }
        self.secs
    }

    /// The nanoseconds beyond the whole seconds.
    pub fn subsec_nanos(&self) -> (r: u32)
        ensures
            r == self@ % 1_000_000_000,
            r < NANOS_PER_SEC,
    {
        proof {
            use_type_invariant(self);
        }
        self.nanos
    }

    /// Brings into view that no span is longer than `Duration::MAX`.
    pub(crate) fn check_bounded(&self)
        ensures
            self@ <= max_nanos(),
    {
        proof {
            use_type_invariant(self);
        }
    }

    /// Whether `self` is shorter than `other`.
    pub fn lt(&self, other: &TimeSpan) -> (r: bool)
        ensures
            r == (self@ < other@),
    {
        proof {
            use_type_invariant(self);
            use_type_invariant(other);
        }
        self.secs < other.secs || (self.secs == other.secs && self.nanos < other.nanos)
    }

    /// The longer of the two, as `cmp::max`.
    pub fn max(self, other: TimeSpan) -> (r: TimeSpan)
        ensures
            r@ == if self@ <= other@ { other@ } else { self@ },
    {
        if other.lt(&self) {
            self
        } else {
            other
        }
    }

    /// The shorter of the two, as `cmp::min`.
    pub fn min(self, other: TimeSpan) -> (r: TimeSpan)
        ensures
            r@ == if self@ <= other@ { self@ } else { other@ },
    {
        if other.lt(&self) {
            other
        } else {
            self
        }
    }

    /// `self * rhs`, or `Duration::MAX` where the product does not fit, as
    /// `Duration::saturating_mul`.
    pub fn saturating_mul(self, rhs: u32) -> (r: TimeSpan)
        ensures
            r@ == if self@ * rhs <= max_nanos() { self@ * rhs } else { max_nanos() as int },
    {
        proof {
            use_type_invariant(&self);
        }
        assert(self.nanos as u64 * rhs as u64 <= u64::MAX) by (nonlinear_arith)
            requires
                self.nanos < 1_000_000_000u32,
        ;
        let total_nanos: u64 = self.nanos as u64 * rhs as u64;
        let extra_secs: u64 = total_nanos / (NANOS_PER_SEC as u64);
        let nanos: u32 = (total_nanos % (NANOS_PER_SEC as u64)) as u32;
        let ghost v = self@ * rhs;
        assert(total_nanos == extra_secs * 1_000_000_000nat + total_nanos % 1_000_000_000u64)
            by (nonlinear_arith)
            requires
                extra_secs == total_nanos / 1_000_000_000u64,
        ;
        assert(nanos == total_nanos % 1_000_000_000u64);
        proof {
            lemma_product(self.secs as nat, self.nanos as nat, rhs as nat);
        }
        if let Some(s) = self.secs.checked_mul(rhs as u64) {
            if let Some(secs) = s.checked_add(extra_secs) {
                let r = TimeSpan { secs, nanos };
                assert(r@ == v) by (nonlinear_arith)
                    requires
                        r@ == secs * 1_000_000_000nat + nanos,
                        v == self.secs * rhs * 1_000_000_000nat + total_nanos,
                        secs == self.secs * rhs + extra_secs,
                        total_nanos == extra_secs * 1_000_000_000nat + nanos,
                ;
                assert(v <= max_nanos());
                return r;
            }
        }
        assert(v > max_nanos()) by (nonlinear_arith)
            requires
                self.secs * rhs + extra_secs > 18446744073709551615nat,
                v == self.secs * rhs * 1_000_000_000nat + total_nanos,
                total_nanos >= extra_secs * 1_000_000_000nat,
        ;
        TimeSpan::max_value()
    }
}

proof fn lemma_product(secs: nat, nanos: nat, rhs: nat)
    ensures
        (secs * 1_000_000_000nat + nanos) * rhs == secs * rhs * 1_000_000_000nat + nanos * rhs,
{
    assert((secs * 1_000_000_000nat + nanos) * rhs == secs * rhs * 1_000_000_000nat + nanos * rhs)
        by (nonlinear_arith);
}

} // verus!
