//! Conversions into `Duration`: from a text in the GEP-2257 format, from a
//! Kubernetes duration and from a `std::time::Duration`.

use vstd::prelude::*;

use crate::duration::{
    exceeds_maximum_message, gep2257_millis, is_outcome, lemma_span_millis,
    sub_millisecond_message, total_nanos, Duration, MAX_DURATION_MS, NANOS_PER_MILLI,
    NANOS_PER_SEC,
};
use crate::interop::{
    parse_with_kube, std_duration_secs, std_duration_subsec_nanos, std_secs, std_subsec_nanos,
};
use crate::laws::law_whole_millis;
use crate::pattern::{law_format_is_pattern, matches_pattern};
use crate::text::{
    gep2257_format, gep2257_value, is_format_char, is_gep2257_format, lemma_format_shape,
    lemma_value_bound,
};

verus! {

/// A Kubernetes duration, as `kube::core::Duration` holds it: whether it is
/// negative, and the whole seconds and the nanoseconds below a second of
/// its magnitude.
#[derive(Clone, Copy, Debug, PartialEq, Eq, Structural)]
pub struct K8sDuration {
    pub is_negative: bool,
    pub secs: u64,
    pub subsec_nanos: u32,
}

/// The message of the error for a negative duration.
pub open spec fn negative_message() -> Seq<char> {
    "Duration cannot be negative"@
}

/// The message of the error for a text that is not in the GEP-2257 format.
pub open spec fn invalid_format_message() -> Seq<char> {
    "Invalid duration format"@
}

/// What GEP-2257 makes of a Kubernetes duration: a negative one is refused,
/// and its magnitude must be expressible.
pub open spec fn gep2257_from_k8s(d: K8sDuration) -> Result<nat, Seq<char>> {
    if d.is_negative {
        Err(negative_message())
    } else {
        gep2257_millis(total_nanos(d.secs as nat, d.subsec_nanos as nat))
    }
}

/// What GEP-2257 makes of a `std::time::Duration`: its whole seconds and
/// nanoseconds below a second must make an expressible duration.
pub open spec fn gep2257_from_std(d: std::time::Duration) -> Result<nat, Seq<char>> {
    gep2257_millis(total_nanos(std_secs(d) as nat, std_subsec_nanos(d) as nat))
}

/// What parsing `text` as a GEP-2257 duration gives: an error for a text
/// not in the format, and otherwise the milliseconds that it stands for,
/// where these are at most the maximum.
pub open spec fn gep2257_parse(text: Seq<char>) -> Result<nat, Seq<char>> {
    if !gep2257_format(text) {
        Err(invalid_format_message())
    } else if gep2257_value(text) <= MAX_DURATION_MS {
        Ok(gep2257_value(text))
    } else {
        Err(exceeds_maximum_message())
    }
}

/// The Kubernetes duration of `ms` milliseconds.
pub open spec fn k8s_of_millis(ms: nat) -> K8sDuration {
    K8sDuration {
        is_negative: false,
        secs: (ms / 1000) as u64,
        subsec_nanos: ((ms % 1000) * NANOS_PER_MILLI as nat) as u32,
    }
}

/// The parts of the Kubernetes duration of `ms` milliseconds make up `ms`
/// milliseconds.
pub proof fn lemma_k8s_of_millis(ms: nat)
    requires
        ms < 18_446_744_073_709_551_616_000,
    ensures
        k8s_of_millis(ms).secs == ms / 1000,
        k8s_of_millis(ms).subsec_nanos == (ms % 1000) * 1_000_000,
        total_nanos(
            k8s_of_millis(ms).secs as nat,
            k8s_of_millis(ms).subsec_nanos as nat,
        ) == ms * NANOS_PER_MILLI as nat,
{
    assert(ms == (ms / 1000) * 1000 + ms % 1000);
    assert((ms / 1000) * 1_000_000_000 + (ms % 1000) * 1_000_000 == ms * 1_000_000)
        by (nonlinear_arith)
        requires
            ms == (ms / 1000) * 1000 + ms % 1000,
    ;
}

impl Duration {
    /// The duration that a Kubernetes duration stands for, where GEP-2257
    /// can express it.
    pub fn try_from_k8s(d: K8sDuration) -> (r: Result<Self, String>)
        requires
            d.subsec_nanos < NANOS_PER_SEC,
        ensures
            is_outcome(r, gep2257_from_k8s(d)),
            d.is_negative ==> (r is Err && r->Err_0@ == negative_message()),
            r is Ok ==> !d.is_negative && r.unwrap()@ * 1_000_000 == d.secs * 1_000_000_000
                + d.subsec_nanos,
            !d.is_negative && d.subsec_nanos % 1_000_000 != 0 ==> (r is Err && r->Err_0@
                == sub_millisecond_message()),
            !d.is_negative && d.subsec_nanos % 1_000_000 == 0 && d.secs * 1000 + d.subsec_nanos
                / 1_000_000 > MAX_DURATION_MS ==> (r is Err && r->Err_0@
                == exceeds_maximum_message()),
            !d.is_negative && d.subsec_nanos % 1_000_000 == 0 && d.secs * 1000 + d.subsec_nanos
                / 1_000_000 <= MAX_DURATION_MS ==> r is Ok,
    {
        proof {
            lemma_span_millis(d.secs as nat, d.subsec_nanos as nat);
        }
        if d.is_negative {
            return Err("Duration cannot be negative".to_string());
        }
        Self::new(d.secs, d.subsec_nanos)
    }

    /// The duration that a `std::time::Duration` stands for, where GEP-2257
    /// can express it.
    pub fn try_from_std(d: std::time::Duration) -> (r: Result<Self, String>)
        ensures
            is_outcome(r, gep2257_from_std(d)),
            r is Ok ==> r.unwrap()@ * 1_000_000 == std_secs(d) * 1_000_000_000 + std_subsec_nanos(
                d,
            ),
            std_subsec_nanos(d) % 1_000_000 != 0 ==> (r is Err && r->Err_0@
                == sub_millisecond_message()),
            std_subsec_nanos(d) % 1_000_000 == 0 && std_secs(d) * 1000 + std_subsec_nanos(d)
                / 1_000_000 > MAX_DURATION_MS ==> (r is Err && r->Err_0@
                == exceeds_maximum_message()),
            std_subsec_nanos(d) % 1_000_000 == 0 && std_secs(d) * 1000 + std_subsec_nanos(d)
                / 1_000_000 <= MAX_DURATION_MS ==> r is Ok,
    {
        let secs = std_duration_secs(&d);
        let nanos = std_duration_subsec_nanos(&d);
        proof {
            lemma_span_millis(secs as nat, nanos as nat);
        }
        Self::new(secs, nanos)
    }

    /// Parses a duration in the GEP-2257 format,
    /// `^([0-9]{1,5}(h|m|s|ms)){1,4}$`, read by `kube` as Go reads
    /// durations, where GEP-2257 can express it.
    pub fn from_str(text: &str) -> (r: Result<Self, String>)
        ensures
            is_outcome(r, gep2257_parse(text@)),
            !matches_pattern(text@) ==> (r is Err && r->Err_0@ == invalid_format_message()),
            r is Ok ==> matches_pattern(text@),
            r is Ok ==> text@.len() > 0 && '0' <= text@[0] && text@[0] <= '9',
            r is Ok ==> forall|i: int| 0 <= i < text@.len() ==> is_format_char(#[trigger] text@[i]),
            r is Ok ==> r.unwrap()@ == gep2257_value(text@),
    {
        proof {
            lemma_format_shape(text@);
            law_format_is_pattern(text@);
        }
        if !is_gep2257_format(text) {
            return Err("Invalid duration format".to_string());
        }
        match parse_with_kube(text) {
            Ok(d) => {
                proof {
                    lemma_value_bound(text@);
                    lemma_k8s_of_millis(gep2257_value(text@));
                    law_whole_millis(gep2257_value(text@));
                }
                Self::try_from_k8s(d)
            },
            Err(e) => Err(e),
        }
    }
}

} // verus!
