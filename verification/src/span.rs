//! Lengths of time, to the nanosecond.

use std::time::Duration;
use vstd::prelude::*;

verus! {

/// The nanoseconds in a second.
pub const NANOS_PER_SEC: u32 = 1_000_000_000;

/// A length of time. Its view is the number of nanoseconds.
#[derive(Debug, Clone, Copy)]
pub struct Span {
    secs: u64,
    nanos: u32,
}

impl View for Span {
    type V = nat;

    closed spec fn view(&self) -> nat {
        self.secs as nat * NANOS_PER_SEC as nat + self.nanos as nat
    }
}

/// The text that the `Debug` form of a `std::time::Duration` of that many nanoseconds has.
pub uninterp spec fn duration_text(nanos: nat) -> Seq<char>;

/// Formats the `std::time::Duration` of `secs` seconds and `nanos` nanoseconds with its `Debug`
/// form. The text is fixed by the length of time alone; its notation is left open.
#[verifier::external_body]
fn duration_debug(secs: u64, nanos: u32) -> (r: String)
    requires
        nanos < NANOS_PER_SEC,
    ensures
        r@ == duration_text(secs as nat * NANOS_PER_SEC as nat + nanos as nat),
{
    format!("{:?}", Duration::new(secs, nanos))
}

impl Span {
    #[verifier::type_invariant]
    spec fn well_formed(self) -> bool {
        self.nanos < NANOS_PER_SEC
    }

    /// `secs` seconds and `nanos` nanoseconds, the latter less than a second.
    pub fn new(secs: u64, nanos: u32) -> (s: Span)
        requires
            nanos < NANOS_PER_SEC,
        ensures
            s@ == secs as nat * NANOS_PER_SEC as nat + nanos as nat,
    {
        Span { secs, nanos }
    }

    /// The whole seconds.
    pub fn secs(&self) -> (n: u64)
        ensures
            n == self@ / NANOS_PER_SEC as nat,
    {
        proof {
            use_type_invariant(self);
        }
        self.secs
    }

    /// The nanoseconds beside the whole seconds.
    pub fn subsec_nanos(&self) -> (n: u32)
        ensures
            n == self@ % NANOS_PER_SEC as nat,
    {
        proof {
            use_type_invariant(self);
        }
        self.nanos
    }

    /// Whether this is no time at all.
    pub fn is_zero(&self) -> (b: bool)
        ensures
            b == (self@ == 0),
    {
        self.secs == 0 && self.nanos == 0
    }

    /// Whether this is shorter than `other`.
    pub fn shorter_than(&self, other: &Span) -> (b: bool)
        ensures
            b == (self@ < other@),
    {
        proof {
            use_type_invariant(self);
            use_type_invariant(other);
        }
        self.secs < other.secs || (self.secs == other.secs && self.nanos < other.nanos)
    }

    /// The shorter of the two.
    pub fn min(self, other: Span) -> (s: Span)
        ensures
            s@ == if self@ < other@ {
                self@
            } else {
                other@
            },
    {
        if self.shorter_than(&other) {
            self
        } else {
            other
        }
    }

    /// What is left of this after `elapsed`; no time where nothing is.
    pub fn saturating_sub(self, elapsed: Span) -> (s: Span)
        ensures
            s@ == if self@ < elapsed@ {
                0
            } else {
                (self@ - elapsed@) as nat
            },
    {
        proof {
            use_type_invariant(&self);
            use_type_invariant(&elapsed);
        }
        if self.shorter_than(&elapsed) {
            Span { secs: 0, nanos: 0 }
        } else if self.nanos < elapsed.nanos {
            Span {
                secs: self.secs - elapsed.secs - 1,
                nanos: self.nanos + NANOS_PER_SEC - elapsed.nanos,
            }
        } else {
            Span { secs: self.secs - elapsed.secs, nanos: self.nanos - elapsed.nanos }
        }
    }

    /// The length of time in the notation of the standard library, such as `1.5s`.
    pub fn to_text(&self) -> (r: String)
        ensures
            r@ == duration_text(self@),
    {
        proof {
            use_type_invariant(self);
        }
        duration_debug(self.secs, self.nanos)
    }
}

/// A length of time gives back the seconds and nanoseconds that it was made with.
pub proof fn law_span_keeps_its_parts(secs: u64, nanos: u32, span: Span, whole: u64, rest: u32)
    requires
        nanos < 1_000_000_000,
        call_ensures(Span::new, (secs, nanos), span),
        call_ensures(Span::secs, (&span,), whole),
        call_ensures(Span::subsec_nanos, (&span,), rest),
    ensures
        span@ == secs * 1_000_000_000 + nanos,
        whole == secs,
        rest == nanos,
{
}

/// The shorter of two lengths of time is one of them and not longer than either, and what is left of
/// one after the other makes up the difference, or is no time where there is none.
pub proof fn law_spans_compare_and_subtract(
    a: Span,
    b: Span,
    shorter: bool,
    least: Span,
    left: Span,
    zero: bool,
)
    requires
        call_ensures(Span::shorter_than, (&a, &b), shorter),
        call_ensures(Span::min, (a, b), least),
        call_ensures(Span::saturating_sub, (a, b), left),
        call_ensures(Span::is_zero, (&left,), zero),
    ensures
        shorter <==> a@ < b@,
        least@ <= a@ && least@ <= b@,
        least@ == a@ || least@ == b@,
        a@ >= b@ ==> left@ + b@ == a@,
        a@ <= b@ ==> left@ == 0,
        zero <==> a@ <= b@,
{
}

} // verus!
