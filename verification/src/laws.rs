//! What holds of the conversions and the text form together.

use vstd::prelude::*;

use crate::duration::{
    exceeds_maximum_message, gep2257_millis, lemma_span_millis, sub_millisecond_message,
    total_nanos, MAX_DURATION_MS, NANOS_PER_MILLI,
};
use crate::interop::{std_secs, std_subsec_nanos};
use crate::parse::{
    gep2257_from_k8s, gep2257_from_std, gep2257_parse, invalid_format_message, negative_message,
    K8sDuration,
};
use crate::text::{
    components, gep2257_format, gep2257_text, gep2257_value, lemma_format_shape,
    lemma_text_in_format,
};

verus! {

/// A whole number of milliseconds can be expressed exactly where it is
/// at most the maximum; otherwise it is refused as too long.
pub proof fn law_whole_millis(ms: nat)
    ensures
        gep2257_millis(ms * NANOS_PER_MILLI as nat) == if ms <= MAX_DURATION_MS {
            Ok::<nat, Seq<char>>(ms)
        } else {
            Err::<nat, Seq<char>>(exceeds_maximum_message())
        },
{
    vstd::arithmetic::div_mod::lemma_fundamental_div_mod_converse(
        (ms * 1_000_000) as int,
        1_000_000,
        ms as int,
        0,
    );
}

/// A text outside the GEP-2257 format is refused as such, and a text that
/// parses is in the format.
pub proof fn law_parse_requires_format(text: Seq<char>)
    ensures
        !gep2257_format(text) ==> gep2257_parse(text) == Err::<nat, Seq<char>>(
            invalid_format_message(),
        ),
        gep2257_parse(text) is Ok ==> gep2257_format(text),
{
}

/// A text in the GEP-2257 format parses to the milliseconds that it
/// stands for, where these are at most the maximum, and is refused as too
/// long otherwise.
pub proof fn law_parse_in_format(text: Seq<char>)
    requires
        gep2257_format(text),
    ensures
        gep2257_parse(text) == if gep2257_value(text) <= MAX_DURATION_MS {
            Ok::<nat, Seq<char>>(gep2257_value(text))
        } else {
            Err::<nat, Seq<char>>(exceeds_maximum_message())
        },
{
}

/// Every duration that GEP-2257 can express, written in its text form,
/// parses back to itself.
pub proof fn law_format_then_parse(ms: nat)
    requires
        ms <= MAX_DURATION_MS,
    ensures
        gep2257_parse(gep2257_text(ms)) == Ok::<nat, Seq<char>>(ms),
{
    lemma_text_in_format(ms);
}

/// A Kubernetes duration that is not negative converts as the
/// `std::time::Duration` of its magnitude does.
pub proof fn law_k8s_as_std(k: K8sDuration, d: std::time::Duration)
    requires
        !k.is_negative,
        std_secs(d) == k.secs,
        std_subsec_nanos(d) == k.subsec_nanos,
    ensures
        gep2257_from_k8s(k) == gep2257_from_std(d),
{
}

/// How GEP-2257 writes an expressible duration: a text in the format that
/// stands for the duration; `0s` for zero; otherwise only units with a
/// count of at least one, each at most once, the greatest first.
pub proof fn law_text_form(ms: nat)
    requires
        ms <= MAX_DURATION_MS,
    ensures
        gep2257_format(gep2257_text(ms)),
        gep2257_value(gep2257_text(ms)) == ms,
        ms == 0 ==> gep2257_text(ms) == seq!['0', 's'],
        ms != 0 ==> forall|i: int|
            0 <= i < components(gep2257_text(ms)).unwrap().len() ==> #[trigger] components(
                gep2257_text(ms),
            ).unwrap()[i].0 > 0,
        forall|i: int, j: int|
            0 <= i < j < components(gep2257_text(ms)).unwrap().len() ==> #[trigger] components(
                gep2257_text(ms),
            ).unwrap()[i].1 > #[trigger] components(gep2257_text(ms)).unwrap()[j].1,
{
    lemma_text_in_format(ms);
}

/// A text in the GEP-2257 format is not empty, starts with an ASCII digit
/// and holds nothing but digits and the letters `h`, `m` and `s`: no sign,
/// no space, no other unit.
pub proof fn law_format_shape(text: Seq<char>)
    ensures
        gep2257_format(text) ==> text.len() > 0 && '0' <= text[0] && text[0] <= '9',
        gep2257_format(text) ==> forall|i: int|
            0 <= i < text.len() ==> ('0' <= #[trigger] text[i] && text[i] <= '9') || text[i]
                == 'h' || text[i] == 'm' || text[i] == 's',
{
    lemma_format_shape(text);
}

/// A span of `secs` seconds and `nanos` nanoseconds, any number of them, is
/// expressed exactly, as `secs * 10^9 + nanos` nanoseconds: it is refused
/// where it has a part below a millisecond, refused where it is too long,
/// and otherwise kept whole.
pub proof fn law_span(secs: nat, nanos: nat)
    ensures
        gep2257_millis(total_nanos(secs, nanos)) is Ok ==> gep2257_millis(
            total_nanos(secs, nanos),
        )->Ok_0 * 1_000_000 == secs * 1_000_000_000 + nanos,
        nanos % 1_000_000 != 0 ==> gep2257_millis(total_nanos(secs, nanos)) == Err::<
            nat,
            Seq<char>,
        >(sub_millisecond_message()),
        nanos % 1_000_000 == 0 && secs * 1000 + nanos / 1_000_000 > MAX_DURATION_MS
            ==> gep2257_millis(total_nanos(secs, nanos)) == Err::<nat, Seq<char>>(
            exceeds_maximum_message(),
        ),
        nanos % 1_000_000 == 0 && secs * 1000 + nanos / 1_000_000 <= MAX_DURATION_MS
            ==> gep2257_millis(total_nanos(secs, nanos)) is Ok,
{
    lemma_span_millis(secs, nanos);
}

/// Every negative Kubernetes duration is refused as negative.
pub proof fn law_k8s_negative(k: K8sDuration)
    ensures
        k.is_negative ==> gep2257_from_k8s(k) == Err::<nat, Seq<char>>(negative_message()),
{
}

/// A Kubernetes duration that is not negative converts to exactly its
/// length, and is refused where that has a part below a millisecond.
pub proof fn law_k8s_span(k: K8sDuration)
    ensures
        gep2257_from_k8s(k) is Ok ==> !k.is_negative && gep2257_from_k8s(k)->Ok_0 * 1_000_000
            == k.secs * 1_000_000_000 + k.subsec_nanos,
        !k.is_negative && k.subsec_nanos % 1_000_000 != 0 ==> gep2257_from_k8s(k) == Err::<
            nat,
            Seq<char>,
        >(sub_millisecond_message()),
{
    law_span(k.secs as nat, k.subsec_nanos as nat);
}

/// A `std::time::Duration` converts to exactly its length, and is refused
/// where that has a part below a millisecond.
pub proof fn law_std_span(d: std::time::Duration)
    ensures
        gep2257_from_std(d) is Ok ==> gep2257_from_std(d)->Ok_0 * 1_000_000 == std_secs(d)
            * 1_000_000_000 + std_subsec_nanos(d),
        std_subsec_nanos(d) % 1_000_000 != 0 ==> gep2257_from_std(d) == Err::<nat, Seq<char>>(
            sub_millisecond_message(),
        ),
{
    law_span(std_secs(d) as nat, std_subsec_nanos(d) as nat);
}

} // verus!
