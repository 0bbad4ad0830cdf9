//! The calls into `kube` and into `std::time` that the conversions make.

use vstd::prelude::*;

use crate::parse::{k8s_of_millis, K8sDuration};
use crate::text::{gep2257_format, gep2257_value};

verus! {

/// Parses `text` with `kube::core::Duration::from_str`, and takes apart
/// what it gives back with `is_negative`, `std::time::Duration::from`,
/// `as_secs` and `subsec_nanos`.
///
/// The contract claims that on a text in the GEP-2257 format (one to four
/// components of one to five digits and a unit `h`, `m`, `s` or `ms`, no
/// sign) the parse succeeds, does not panic and gives the non-negative
/// duration of the milliseconds that the text stands for. The source of
/// `from_str` shows the steps: a sign is read only at the start; each
/// component is a number parsed as an `f64` and a unit it knows; the unit's
/// duration is multiplied by the number with `mul_f64`, which is
/// `from_secs_f64(number * unit.as_secs_f64())`; and the products are added
/// as `std::time::Duration`s, exactly. The unit is 3600 s, 60 s, 1 s or
/// 0.001 s; the number is at most 99999, so each product is below 4e8 s and
/// off by less than 1e-5 ns in `f64`, and `from_secs_f64` rounds to the
/// nearest nanosecond, as its documentation says, so each component is read
/// exactly. No product or sum comes near an overflow.
#[verifier::external_body]
pub(crate) fn parse_with_kube(text: &str) -> (r: Result<K8sDuration, String>)
    requires
        gep2257_format(text@),
    ensures
        r is Ok,
        r.unwrap() == k8s_of_millis(gep2257_value(text@)),
{
    match text.parse::<kube::core::Duration>() {
        Ok(d) => {
            let std_duration = std::time::Duration::from(d);
            Ok(
                K8sDuration {
                    is_negative: d.is_negative(),
                    secs: std_duration.as_secs(),
                    subsec_nanos: std_duration.subsec_nanos(),
                },
            )
        },
        Err(e) => Err(e.to_string()),
    }
}

/// What `std::time::Duration::as_secs` returns for a duration: its whole
/// seconds.
pub uninterp spec fn std_secs(d: std::time::Duration) -> u64;

/// What `std::time::Duration::subsec_nanos` returns for a duration: its
/// nanoseconds below the whole seconds.
pub uninterp spec fn std_subsec_nanos(d: std::time::Duration) -> u32;

/// `std::time::Duration::as_secs`. The contract claims that the result is
/// `std_secs(*d)`.
#[verifier::external_body]
pub(crate) fn std_duration_secs(d: &std::time::Duration) -> (r: u64)
    ensures
        r == std_secs(*d),
{
    d.as_secs()
}

/// `std::time::Duration::subsec_nanos`. The contract claims that the result
/// is `std_subsec_nanos(*d)` and below a second, as its documentation says.
#[verifier::external_body]
pub(crate) fn std_duration_subsec_nanos(d: &std::time::Duration) -> (r: u32)
    ensures
        r == std_subsec_nanos(*d),
        r < 1_000_000_000,
{
    d.subsec_nanos()
}

} // verus!
