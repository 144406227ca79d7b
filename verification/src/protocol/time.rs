use vstd::prelude::*;

verus! {

/// Nanoseconds in a second.
pub const NANOS_PER_SEC: u32 = 1_000_000_000;

/// A span of time in whole seconds and the nanoseconds below a second, as the
/// response times of SHDLC commands are given in.
#[derive(Debug, Clone, Copy, PartialEq, Eq, Structural)]
pub struct Duration {
    secs: u64,
    nanos: u32,
}

/// A span of `n` nanoseconds has its whole seconds in 64 bits.
pub open spec fn duration_fits(n: nat) -> bool {
    n / (NANOS_PER_SEC as nat) <= u64::MAX
}

/// Splitting a number of milliseconds or seconds into seconds and
/// nanoseconds below a second.
proof fn lemma_split_nanos(secs: nat, millis_below: nat)
    requires
        millis_below < 1000,
    ensures
        (secs * 1_000_000_000 + millis_below * 1_000_000) / 1_000_000_000 == secs,
        (secs * 1_000_000_000 + millis_below * 1_000_000) % 1_000_000_000 == millis_below
            * 1_000_000,
{
    assert((secs * 1_000_000_000 + millis_below * 1_000_000) / 1_000_000_000 == secs
        && (secs * 1_000_000_000 + millis_below * 1_000_000) % 1_000_000_000 == millis_below
        * 1_000_000) by (nonlinear_arith)
        requires
            millis_below < 1000,
    ;
}

impl Duration {
    #[verifier::type_invariant]
    spec fn below_a_second(self) -> bool {
        self.nanos < NANOS_PER_SEC
    }

    /// The length of the span in nanoseconds.
    pub closed spec fn spec_nanos(self) -> nat {
        self.secs as nat * (NANOS_PER_SEC as nat) + self.nanos as nat
    }

    /// The span of `n` nanoseconds.
    pub closed spec fn spec_of_nanos(n: nat) -> Duration {
        Duration {
            secs: (n / (NANOS_PER_SEC as nat)) as u64,
            nanos: (n % (NANOS_PER_SEC as nat)) as u32,
        }
    }

    /// The span of the given number of milliseconds.
    pub open spec fn spec_from_millis(millis: nat) -> Duration {
        Duration::spec_of_nanos(millis * 1_000_000)
    }

    /// The span of the given number of seconds.
    pub open spec fn spec_from_secs(secs: nat) -> Duration {
        Duration::spec_of_nanos(secs * 1_000_000_000)
    }

    /// The span of `secs` seconds and `nanos` nanoseconds; nanoseconds of a
    /// second or more carry into the seconds.
    pub fn new(secs: u64, nanos: u32) -> (d: Duration)
        requires
            duration_fits((secs * 1_000_000_000 + nanos) as nat),
        ensures
            d.spec_nanos() == secs * 1_000_000_000 + nanos,
            d == Duration::spec_of_nanos((secs * 1_000_000_000 + nanos) as nat),
    {
        let carry = (nanos / NANOS_PER_SEC) as u64;
        let rest = nanos % NANOS_PER_SEC;
        assert(secs + carry <= u64::MAX) by (nonlinear_arith)
            requires
                (secs * 1_000_000_000 + nanos) / 1_000_000_000 <= u64::MAX,
                carry == nanos / 1_000_000_000,
        ;
        assert((secs * 1_000_000_000 + nanos) / 1_000_000_000 == secs + carry && (secs
            * 1_000_000_000 + nanos) % 1_000_000_000 == rest) by (nonlinear_arith)
            requires
                carry == nanos / 1_000_000_000,
                rest == nanos % 1_000_000_000,
        ;
        Duration { secs: secs + carry, nanos: rest }
    }

    pub fn from_nanos(nanos: u64) -> (d: Duration)
        ensures
            d.spec_nanos() == nanos,
            d == Duration::spec_of_nanos(nanos as nat),
    {
        let secs = nanos / 1_000_000_000;
        let rest = (nanos % 1_000_000_000) as u32;
        assert(secs * 1_000_000_000 + rest == nanos) by (nonlinear_arith)
            requires
                secs == nanos / 1_000_000_000,
                rest == nanos % 1_000_000_000,
        ;
        Duration { secs, nanos: rest }
    }

    pub fn from_millis(millis: u64) -> (d: Duration)
        ensures
            d.spec_nanos() == millis * 1_000_000,
            d == Duration::spec_from_millis(millis as nat),
    {
        let secs = millis / 1000;
        let below = millis % 1000;
        assert(millis * 1_000_000 == secs * 1_000_000_000 + below * 1_000_000) by (nonlinear_arith)
            requires
                secs == millis / 1000,
                below == millis % 1000,
        ;
        proof {
            lemma_split_nanos(secs as nat, below as nat);
        }
        Duration { secs, nanos: (below * 1_000_000) as u32 }
    }

    pub fn from_secs(secs: u64) -> (d: Duration)
        ensures
            d.spec_nanos() == secs * 1_000_000_000,
            d == Duration::spec_from_secs(secs as nat),
    {
        proof {
            lemma_split_nanos(secs as nat, 0);
        }
        Duration { secs, nanos: 0 }
    }

    /// The length of the span in nanoseconds.
    pub fn as_nanos(&self) -> (n: u128)
        ensures
            n == self.spec_nanos(),
            duration_fits(n as nat),
    {
        proof {
            use_type_invariant(self);
            lemma_split_parts(self.secs as nat, self.nanos as nat);
        }
        assert(self.secs as u128 * 1_000_000_000 <= 18_446_744_073_709_551_615_000_000_000u128) by (nonlinear_arith)
            requires
                self.secs <= u64::MAX,
        ;
        (self.secs as u128) * 1_000_000_000 + (self.nanos as u128)
    }

    /// The whole seconds of the span.
    pub fn as_secs(&self) -> (s: u64)
        ensures
            s == self.spec_nanos() / (NANOS_PER_SEC as nat),
    {
        proof {
            use_type_invariant(self);
            lemma_split_parts(self.secs as nat, self.nanos as nat);
        }
        self.secs
    }

    /// The nanoseconds of the span below its whole seconds.
    pub fn subsec_nanos(&self) -> (n: u32)
        ensures
            n == self.spec_nanos() % (NANOS_PER_SEC as nat),
    {
        proof {
            use_type_invariant(self);
            lemma_split_parts(self.secs as nat, self.nanos as nat);
        }
        self.nanos
    }

    pub fn is_zero(&self) -> (z: bool)
        ensures
            z == (self.spec_nanos() == 0),
    {
        proof {
            use_type_invariant(self);
        }
        self.secs == 0 && self.nanos == 0
    }

    /// The sum of two spans, or `None` where its seconds do not fit in 64 bits.
    pub fn checked_add(&self, other: Duration) -> (d: Option<Duration>)
        ensures
            match d {
                Some(s) => s.spec_nanos() == self.spec_nanos() + other.spec_nanos(),
                None => !duration_fits(self.spec_nanos() + other.spec_nanos()),
            },
    {
        proof {
            use_type_invariant(self);
            use_type_invariant(&other);
        }
        let total = self.as_nanos() + other.as_nanos();
        if total / 1_000_000_000 > 0xFFFF_FFFF_FFFF_FFFFu128 {
            None
        } else {
            Some(Duration::from_total_nanos(total))
        }
    }

    /// The span of `n` nanoseconds, for `n` below 2^64 seconds.
    pub(crate) fn from_total_nanos(n: u128) -> (d: Duration)
        requires
            duration_fits(n as nat),
        ensures
            d.spec_nanos() == n,
            d == Duration::spec_of_nanos(n as nat),
    {
        let secs = (n / 1_000_000_000) as u64;
        let rest = (n % 1_000_000_000) as u32;
        Duration { secs, nanos: rest }
    }
}

/// A span no longer than one that fits fits too.
pub proof fn lemma_fits_below(a: nat, b: nat)
    requires
        a <= b,
        duration_fits(b),
    ensures
        duration_fits(a),
{
    assert(a / 1_000_000_000 <= b / 1_000_000_000) by (nonlinear_arith)
        requires
            a <= b,
    ;
}

proof fn lemma_split_parts(secs: nat, nanos: nat)
    requires
        nanos < 1_000_000_000,
    ensures
        (secs * 1_000_000_000 + nanos) / 1_000_000_000 == secs,
        (secs * 1_000_000_000 + nanos) % 1_000_000_000 == nanos,
{
    assert((secs * 1_000_000_000 + nanos) / 1_000_000_000 == secs && (secs * 1_000_000_000 + nanos)
        % 1_000_000_000 == nanos) by (nonlinear_arith)
        requires
            nanos < 1_000_000_000,
    ;
}

} // verus!
