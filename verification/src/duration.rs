//! `Duration`: a span of time that GEP-2257 can express, that is a whole
//! number of milliseconds no greater than 99999h59m59s999ms.

use vstd::prelude::*;

use crate::text::{
    append_part, components, gep2257_format, gep2257_text, gep2257_value, lemma_text_in_format,
};

verus! {

/// The largest duration that GEP-2257 can express, in milliseconds
/// (99999h59m59s999ms).
pub const MAX_DURATION_MS: u128 = 359_999_999_999;

/// Nanoseconds in a second.
pub const NANOS_PER_SEC: u32 = 1_000_000_000;

/// Nanoseconds in a millisecond.
pub const NANOS_PER_MILLI: u32 = 1_000_000;

/// The message of the error for a duration finer than a millisecond.
pub open spec fn sub_millisecond_message() -> Seq<char> {
    "Cannot express sub-millisecond precision in GEP-2257"@
}

/// The message of the error for a duration above the maximum.
pub open spec fn exceeds_maximum_message() -> Seq<char> {
    "Duration exceeds GEP-2257 maximum 99999h59m59s999ms"@
}

/// What GEP-2257 makes of a span of `total_nanos` nanoseconds: the number of
/// milliseconds, or the message that says why it cannot be expressed.
pub open spec fn gep2257_millis(total_nanos: nat) -> Result<nat, Seq<char>> {
    if total_nanos % (NANOS_PER_MILLI as nat) != 0 {
        Err(sub_millisecond_message())
    } else if total_nanos / (NANOS_PER_MILLI as nat) > MAX_DURATION_MS {
        Err(exceeds_maximum_message())
    } else {
        Ok(total_nanos / (NANOS_PER_MILLI as nat))
    }
}

/// The span `secs` seconds and `nanos` nanoseconds, in nanoseconds.
pub open spec fn total_nanos(secs: nat, nanos: nat) -> nat {
    secs * (NANOS_PER_SEC as nat) + nanos
}

/// A duration that GEP-2257 can express. Its view is its length in
/// milliseconds.
#[derive(Clone, Copy, Debug, PartialEq, Eq, Structural)]
pub struct Duration {
    secs: u64,
    nanos: u32,
}

impl View for Duration {
    type V = nat;

    closed spec fn view(&self) -> nat {
        (self.secs * 1000 + self.nanos / NANOS_PER_MILLI) as nat
    }
}

impl Duration {
    /// Whole milliseconds below a second, never above the maximum.
    #[verifier::type_invariant]
    closed spec fn inv(self) -> bool {
        &&& self.nanos < NANOS_PER_SEC
        &&& self.nanos % NANOS_PER_MILLI == 0
        &&& self.secs * 1000 + self.nanos / NANOS_PER_MILLI <= MAX_DURATION_MS
    }
}

/// Whether `result` is the outcome `expected`: a duration of that many
/// milliseconds, or an error with that message.
pub open spec fn is_outcome(result: Result<Duration, String>, expected: Result<nat, Seq<char>>) -> bool {
    match (result, expected) {
        (Ok(d), Ok(ms)) => d@ == ms,
        (Err(e), Err(msg)) => e@ == msg,
        _ => false,
    }
}

/// Checks that the span of `secs` seconds and `nanos` nanoseconds (below a
/// second) can be expressed in GEP-2257, and says why not where it cannot.
pub fn is_valid(secs: u64, nanos: u32) -> (r: Result<(), String>)
    requires
        nanos < NANOS_PER_SEC,
    ensures
        match (r, gep2257_millis(total_nanos(secs as nat, nanos as nat))) {
            (Ok(()), Ok(_)) => true,
            (Err(e), Err(msg)) => e@ == msg,
            _ => false,
        },
{
    if nanos % NANOS_PER_MILLI != 0 {
        return Err("Cannot express sub-millisecond precision in GEP-2257".to_string());
    }
    let millis: u128 = (secs as u128) * 1000 + (nanos / NANOS_PER_MILLI) as u128;
    if millis > MAX_DURATION_MS {
        return Err("Duration exceeds GEP-2257 maximum 99999h59m59s999ms".to_string());
    }
    Ok(())
}

impl Duration {
    /// The duration of `secs` seconds and `nanos` nanoseconds, where
    /// GEP-2257 can express it. `nanos` may exceed a second; the excess
    /// carries into the seconds, which must not overflow.
    pub fn new(secs: u64, nanos: u32) -> (r: Result<Self, String>)
        requires
            secs + nanos / NANOS_PER_SEC <= u64::MAX,
        ensures
            is_outcome(r, gep2257_millis(total_nanos(secs as nat, nanos as nat))),
            r is Ok ==> r.unwrap()@ * 1_000_000 == secs * 1_000_000_000 + nanos,
            nanos % 1_000_000 != 0 ==> (r is Err && r->Err_0@ == sub_millisecond_message()),
            nanos % 1_000_000 == 0 && secs * 1000 + nanos / 1_000_000 > MAX_DURATION_MS ==> (r is Err
                && r->Err_0@ == exceeds_maximum_message()),
            nanos % 1_000_000 == 0 && secs * 1000 + nanos / 1_000_000 <= MAX_DURATION_MS ==> r is Ok,
    {
        proof {
            lemma_span_millis(secs as nat, nanos as nat);
        }
        let carried: u64 = secs + (nanos / NANOS_PER_SEC) as u64;
        let below: u32 = nanos % NANOS_PER_SEC;
        assert(total_nanos(carried as nat, below as nat) == total_nanos(secs as nat, nanos as nat));
        match is_valid(carried, below) {
            Err(e) => Err(e),
            Ok(()) => {
                proof {
                    lemma_parts_millis(carried as nat, below as nat);
                }
                Ok(Duration { secs: carried, nanos: below })
            },
        }
    }

    /// The duration of `secs` seconds, where GEP-2257 can express it.
    pub fn from_secs(secs: u64) -> (r: Result<Self, String>)
        ensures
            is_outcome(r, gep2257_millis(total_nanos(secs as nat, 0))),
            r is Ok <==> secs * 1000 <= MAX_DURATION_MS,
            r is Ok ==> r.unwrap()@ == secs * 1000,
            r is Err ==> (r is Err && r->Err_0@ == exceeds_maximum_message()),
    {
        Self::new(secs, 0)
    }

    /// The duration of `micros` microseconds, where GEP-2257 can express it.
    pub fn from_micros(micros: u64) -> (r: Result<Self, String>)
        ensures
            is_outcome(r, gep2257_millis(micros as nat * 1000)),
            r is Ok ==> r.unwrap()@ * 1000 == micros,
            micros % 1000 != 0 ==> (r is Err && r->Err_0@ == sub_millisecond_message()),
            micros % 1000 == 0 && micros / 1000 <= MAX_DURATION_MS ==> r is Ok,
    {
        let sec: u64 = micros / 1_000_000;
        let ns: u32 = ((micros % 1_000_000) * 1_000) as u32;
        assert(total_nanos(sec as nat, ns as nat) == micros as nat * 1000);
        Self::new(sec, ns)
    }

    /// The duration of `millis` milliseconds, where GEP-2257 can express it.
    pub fn from_millis(millis: u64) -> (r: Result<Self, String>)
        ensures
            is_outcome(r, gep2257_millis(millis as nat * NANOS_PER_MILLI as nat)),
            r is Ok <==> millis <= MAX_DURATION_MS,
            r is Ok ==> r.unwrap()@ == millis,
            r is Err ==> (r is Err && r->Err_0@ == exceeds_maximum_message()),
    {
        let sec: u64 = millis / 1_000;
        let ns: u32 = ((millis % 1_000) * 1_000_000) as u32;
        assert(total_nanos(sec as nat, ns as nat) == millis as nat * NANOS_PER_MILLI as nat);
        Self::new(sec, ns)
    }

    /// The number of whole seconds in the duration.
    pub fn as_secs(&self) -> (r: u64)
        ensures
            r == self@ / 1000,
    {
        proof {
            use_type_invariant(self);
        }
        self.secs
    }

    /// The number of milliseconds in the duration.
    pub fn as_millis(&self) -> (r: u128)
        ensures
            r == self@,
            r <= MAX_DURATION_MS,
    {
        proof {
            use_type_invariant(self);
        }
        (self.secs as u128) * 1000 + (self.nanos / NANOS_PER_MILLI) as u128
    }

    /// The number of whole microseconds in the duration.
    pub fn as_nanos(&self) -> (r: u128)
        ensures
            r == self@ * 1000,
    {
        proof {
            use_type_invariant(self);
        }
        (self.secs as u128) * 1_000_000 + (self.nanos / 1000) as u128
    }

    /// Whether two durations are of the same length; durations of the same
    /// length are the same duration.
    pub fn same_length(&self, other: &Self) -> (r: bool)
        ensures
            r == (self@ == other@),
            r == (*self == *other),
    {
        proof {
            use_type_invariant(self);
            use_type_invariant(other);
            lemma_parts_determined(self.secs as nat, self.nanos as nat);
            lemma_parts_determined(other.secs as nat, other.nanos as nat);
        }
        self.as_millis() == other.as_millis()
    }

    /// The number of nanoseconds in the duration that are not part of its
    /// whole seconds.
    pub fn subsec_nanos(&self) -> (r: u32)
        ensures
            r == (self@ % 1000) * NANOS_PER_MILLI as nat,
    {
        proof {
            use_type_invariant(self);
        }
        self.nanos
    }

    /// Whether the duration is zero.
    pub fn is_zero(&self) -> (r: bool)
        ensures
            r == (self@ == 0),
    {
        proof {
            use_type_invariant(self);
        }
        self.secs == 0 && self.nanos == 0
    }
}

impl Duration {
    /// The duration in the GEP-2257 format: `0s` for zero, and otherwise
    /// each unit that applies once, greatest unit first.
    pub fn to_string(&self) -> (s: String)
        ensures
            s@ == gep2257_text(self@),
            gep2257_format(s@),
            gep2257_value(s@) == self@,
            self@ == 0 ==> s@ == seq!['0', 's'],
            self@ != 0 ==> forall|i: int|
                0 <= i < components(s@).unwrap().len() ==> #[trigger] components(
                    s@,
                ).unwrap()[i].0 > 0,
            forall|i: int, j: int|
                0 <= i < j < components(s@).unwrap().len() ==> #[trigger] components(
                    s@,
                ).unwrap()[i].1 > #[trigger] components(s@).unwrap()[j].1,
    {
        proof {
            use_type_invariant(self);
            lemma_text_in_format(self@);
        }
        if self.is_zero() {
            proof {
                reveal_strlit("0s");
            }
            return "0s".to_string();
        }
        let ghost total = self@;
        let ms: u64 = (self.subsec_nanos() / NANOS_PER_MILLI) as u64;
        assert(ms == total % 1000);
        let mut secs: u64 = self.as_secs();
        let hours: u64 = secs / 3600;
        secs = secs - hours * 3600;
        assert(secs == (total / 1000) % 3600);
        let minutes: u64 = secs / 60;
        secs = secs - minutes * 60;
        assert(secs == (total / 1000) % 60) by {
            vstd::arithmetic::div_mod::lemma_mod_mod((total / 1000) as int, 60, 60);
        }
        let mut out = String::new();
        proof {
            reveal_strlit("h");
            reveal_strlit("m");
            reveal_strlit("s");
            reveal_strlit("ms");
        }
        append_part(&mut out, hours, "h");
        append_part(&mut out, minutes, "m");
        append_part(&mut out, secs, "s");
        append_part(&mut out, ms, "ms");
        assert(out@ =~= gep2257_text(self@));
        out
    }
}

/// Whole seconds and whole milliseconds below a second are determined by
/// their count of milliseconds.
proof fn lemma_parts_determined(secs: nat, nanos: nat)
    requires
        nanos < 1_000_000_000,
        nanos % 1_000_000 == 0,
    ensures
        secs == (secs * 1000 + nanos / 1_000_000) / 1000,
        nanos == ((secs * 1000 + nanos / 1_000_000) % 1000) * 1_000_000,
{
    let q = nanos / 1_000_000;
    assert(q < 1000);
    assert(nanos == q * 1_000_000);
    vstd::arithmetic::div_mod::lemma_fundamental_div_mod_converse(
        (secs * 1000 + q) as int,
        1000,
        secs as int,
        q as int,
    );
}

/// A span of `secs` seconds and `nanos` nanoseconds, counted in
/// milliseconds: the remainder is that of the nanoseconds.
pub proof fn lemma_span_millis(secs: nat, nanos: nat)
    ensures
        (secs * 1_000_000_000 + nanos) % 1_000_000 == nanos % 1_000_000,
        (secs * 1_000_000_000 + nanos) / 1_000_000 == secs * 1000 + nanos / 1_000_000,
        total_nanos(secs, nanos) == secs * 1_000_000_000 + nanos,
{
    let q = nanos / 1_000_000;
    let r = nanos % 1_000_000;
    vstd::arithmetic::div_mod::lemma_fundamental_div_mod(nanos as int, 1_000_000);
    assert(secs * 1_000_000_000 + nanos == (secs * 1000 + q) * 1_000_000 + r) by (nonlinear_arith)
        requires
            nanos == 1_000_000 * q + r,
    ;
    vstd::arithmetic::div_mod::lemma_fundamental_div_mod_converse(
        (secs * 1_000_000_000 + nanos) as int,
        1_000_000,
        (secs * 1000 + q) as int,
        r as int,
    );
}

/// A span of whole seconds and nanoseconds below a second, counted in
/// milliseconds.
proof fn lemma_parts_millis(secs: nat, nanos: nat)
    requires
        nanos < NANOS_PER_SEC,
    ensures
        total_nanos(secs, nanos) % (NANOS_PER_MILLI as nat) == nanos % (NANOS_PER_MILLI as nat),
        total_nanos(secs, nanos) / (NANOS_PER_MILLI as nat) == secs * 1000 + nanos / (NANOS_PER_MILLI as nat),
{
    assert(secs * 1_000_000_000 == (secs * 1000) * 1_000_000) by (nonlinear_arith);
    vstd::arithmetic::div_mod::lemma_fundamental_div_mod(nanos as int, 1_000_000);
    let q = nanos / 1_000_000;
    let r = nanos % 1_000_000;
    assert(total_nanos(secs, nanos) == (secs * 1000 + q) * 1_000_000 + r) by (nonlinear_arith)
        requires
            secs * 1_000_000_000 == (secs * 1000) * 1_000_000,
            nanos == q * 1_000_000 + r,
            total_nanos(secs, nanos) == secs * 1_000_000_000 + nanos,
    ;
    vstd::arithmetic::div_mod::lemma_fundamental_div_mod_converse(
        total_nanos(secs, nanos) as int,
        1_000_000,
        (secs * 1000 + q) as int,
        r as int,
    );
}

} // verus!
