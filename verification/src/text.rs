//! The GEP-2257 text form of a duration: its grammar, what a text in it
//! denotes, and how a duration is written in it.

use vstd::prelude::*;

use crate::pattern::{law_format_is_pattern, matches_pattern};

verus! {

/// Whether `c` is an ASCII decimal digit.
pub open spec fn is_digit(c: char) -> bool {
    '0' <= c && c <= '9'
}

/// The character of the decimal digit `d`.
pub open spec fn digit_char(d: nat) -> char {
    if d == 0 {
        '0'
    } else if d == 1 {
        '1'
    } else if d == 2 {
        '2'
    } else if d == 3 {
        '3'
    } else if d == 4 {
        '4'
    } else if d == 5 {
        '5'
    } else if d == 6 {
        '6'
    } else if d == 7 {
        '7'
    } else if d == 8 {
        '8'
    } else {
        '9'
    }
}

/// The value of the decimal digit `c`.
pub open spec fn digit_value(c: char) -> nat {
    if c == '0' {
        0
    } else if c == '1' {
        1
    } else if c == '2' {
        2
    } else if c == '3' {
        3
    } else if c == '4' {
        4
    } else if c == '5' {
        5
    } else if c == '6' {
        6
    } else if c == '7' {
        7
    } else if c == '8' {
        8
    } else {
        9
    }
}

/// The decimal numeral of `n`, without leading zeros.
pub open spec fn decimal(n: nat) -> Seq<char>
    decreases n,
{
    if n < 10 {
        seq![digit_char(n)]
    } else {
        decimal(n / 10).push(digit_char(n % 10))
    }
}

/// The number that the digits `t` denote in decimal.
pub open spec fn digits_value(t: Seq<char>) -> nat
    decreases t.len(),
{
    if t.len() == 0 {
        0
    } else {
        digits_value(t.drop_last()) * 10 + digit_value(t.last())
    }
}

/// The number of digits at the start of `t`.
pub open spec fn digit_run(t: Seq<char>) -> nat
    decreases t.len(),
{
    if t.len() > 0 && is_digit(t[0]) {
        1 + digit_run(t.drop_first())
    } else {
        0
    }
}

/// Milliseconds in an hour.
pub open spec fn hour_ms() -> nat {
    3_600_000
}

/// Milliseconds in a minute.
pub open spec fn minute_ms() -> nat {
    60_000
}

/// Milliseconds in a second.
pub open spec fn second_ms() -> nat {
    1000
}

/// The unit at the start of `t`, as the milliseconds it stands for and the
/// number of characters it takes: `h`, `m`, `s` or `ms`. An `m` followed by
/// an `s` is `ms`.
pub open spec fn unit_at(t: Seq<char>) -> Option<(nat, nat)> {
    if t.len() >= 2 && t[0] == 'm' && t[1] == 's' {
        Some((1, 2))
    } else if t.len() >= 1 && t[0] == 'h' {
        Some((hour_ms(), 1))
    } else if t.len() >= 1 && t[0] == 'm' {
        Some((minute_ms(), 1))
    } else if t.len() >= 1 && t[0] == 's' {
        Some((second_ms(), 1))
    } else {
        None
    }
}

/// The components of `t`, each a count and the milliseconds of its unit,
/// where `t` is a sequence of components `[0-9]{1,5}(h|m|s|ms)`.
pub open spec fn components(t: Seq<char>) -> Option<Seq<(nat, nat)>>
    decreases t.len(),
{
    if t.len() == 0 {
        Some(Seq::empty())
    } else {
        let n = digit_run(t);
        if n == 0 || n > 5 {
            None
        } else {
            proof {
                lemma_digit_run_bound(t);
            }
            match unit_at(t.skip(n as int)) {
                None => None,
                Some(u) => match components(t.skip((n + u.1) as int)) {
                    None => None,
                    Some(rest) => Some(seq![(digits_value(t.take(n as int)), u.0)] + rest),
                },
            }
        }
    }
}

/// Whether `t` is in the GEP-2257 format, `^([0-9]{1,5}(h|m|s|ms)){1,4}$`.
pub open spec fn gep2257_format(t: Seq<char>) -> bool {
    match components(t) {
        Some(c) => 1 <= c.len() <= 4,
        None => false,
    }
}

/// The milliseconds that components stand for together.
pub open spec fn components_value(c: Seq<(nat, nat)>) -> nat
    decreases c.len(),
{
    if c.len() == 0 {
        0
    } else {
        c[0].0 * c[0].1 + components_value(c.drop_first())
    }
}

/// The milliseconds that a text in the GEP-2257 format stands for.
pub open spec fn gep2257_value(t: Seq<char>) -> nat {
    match components(t) {
        Some(c) => components_value(c),
        None => 0,
    }
}

/// `count` followed by `unit`, or nothing where `count` is zero.
pub open spec fn text_part(count: nat, unit: Seq<char>) -> Seq<char> {
    if count > 0 {
        decimal(count) + unit
    } else {
        Seq::empty()
    }
}

/// How GEP-2257 writes a duration of `ms` milliseconds: `0s` for zero, and
/// otherwise each unit that applies once, greatest unit first.
pub open spec fn gep2257_text(ms: nat) -> Seq<char> {
    if ms == 0 {
        seq!['0', 's']
    } else {
        let secs = ms / 1000;
        text_part(secs / 3600, seq!['h']) + text_part((secs % 3600) / 60, seq!['m'])
            + text_part(secs % 60, seq!['s']) + text_part(ms % 1000, seq!['m', 's'])
    }
}

/// There are no more leading digits than characters.
pub proof fn lemma_digit_run_bound(t: Seq<char>)
    ensures
        digit_run(t) <= t.len(),
    decreases t.len(),
{
    if t.len() > 0 && is_digit(t[0]) {
        lemma_digit_run_bound(t.drop_first());
    }
}

/// Whether `t` is empty or starts where a component can start.
pub open spec fn starts_component(t: Seq<char>) -> bool {
    t.len() == 0 || is_digit(t[0])
}

/// The decimal numeral of `n` is a run of digits that denotes `n`, one
/// digit longer for each power of ten that `n` reaches.
pub proof fn lemma_decimal(n: nat)
    ensures
        decimal(n).len() >= 1,
        forall|k: int| 0 <= k < decimal(n).len() ==> is_digit(#[trigger] decimal(n)[k]),
        digits_value(decimal(n)) == n,
        n < 10 ==> decimal(n).len() == 1,
        n < 100 ==> decimal(n).len() <= 2,
        n < 1000 ==> decimal(n).len() <= 3,
        n < 10000 ==> decimal(n).len() <= 4,
        n < 100000 ==> decimal(n).len() <= 5,
    decreases n,
{
    if n < 10 {
        let d = decimal(n);
        assert(d.drop_last() =~= Seq::<char>::empty());
        assert(digits_value(d.drop_last()) == 0);
        assert(d.last() == digit_char(n));
        assert(digit_value(digit_char(n)) == n);
    } else {
        lemma_decimal(n / 10);
        assert(decimal(n).drop_last() =~= decimal(n / 10));
        assert(decimal(n).last() == digit_char(n % 10));
        assert(digit_value(digit_char(n % 10)) == n % 10);
        assert(digits_value(decimal(n)) == digits_value(decimal(n / 10)) * 10 + n % 10);
        assert((n / 10) * 10 + n % 10 == n);
    }
}

/// The leading digits of `a + b`, where `a` is all digits and `b` does not
/// start with one, are those of `a`.
pub proof fn lemma_digit_run_concat(a: Seq<char>, b: Seq<char>)
    requires
        forall|k: int| 0 <= k < a.len() ==> is_digit(#[trigger] a[k]),
        b.len() == 0 || !is_digit(b[0]),
    ensures
        digit_run(a + b) == a.len(),
    decreases a.len(),
{
    if a.len() == 0 {
        assert(a + b =~= b);
    } else {
        assert((a + b).drop_first() =~= a.drop_first() + b);
        assert(is_digit(a[0]));
        lemma_digit_run_concat(a.drop_first(), b);
    }
}

/// The components of the numeral of `count`, a unit and a rest: one
/// component, then those of the rest.
pub proof fn lemma_components_prefix(count: nat, unit: Seq<char>, unit_ms: nat, rest: Seq<char>)
    requires
        count < 100000,
        unit.len() >= 1,
        !is_digit(unit[0]),
        unit_at(unit + rest) == Some((unit_ms, unit.len())),
    ensures
        components(decimal(count) + unit + rest) == match components(rest) {
            Some(c) => Some(seq![(count, unit_ms)] + c),
            None => None::<Seq<(nat, nat)>>,
        },
{
    let d = decimal(count);
    let t = d + unit + rest;
    lemma_decimal(count);
    assert(t =~= d + (unit + rest));
    lemma_digit_run_concat(d, unit + rest);
    let n = d.len();
    assert(t.skip(n as int) =~= unit + rest);
    assert(t.skip((n + unit.len()) as int) =~= rest);
    assert(t.take(n as int) =~= d);
}

/// The components of a run of one to five digits, a unit and a rest: one
/// component, then those of the rest.
pub proof fn lemma_components_digits_prefix(d: Seq<char>, unit: Seq<char>, unit_ms: nat, rest: Seq<char>)
    requires
        1 <= d.len() <= 5,
        forall|k: int| 0 <= k < d.len() ==> is_digit(#[trigger] d[k]),
        unit.len() >= 1,
        !is_digit(unit[0]),
        unit_at(unit + rest) == Some((unit_ms, unit.len())),
    ensures
        components(d + unit + rest) == match components(rest) {
            Some(c) => Some(seq![(digits_value(d), unit_ms)] + c),
            None => None::<Seq<(nat, nat)>>,
        },
{
    let t = d + unit + rest;
    assert(t =~= d + (unit + rest));
    lemma_digit_run_concat(d, unit + rest);
    let n = d.len();
    assert(t.skip(n as int) =~= unit + rest);
    assert(t.skip((n + unit.len()) as int) =~= rest);
    assert(t.take(n as int) =~= d);
}

/// The components `c` with one of `count` of a unit of `unit_ms`
/// milliseconds in front, where `count` is not zero.
pub open spec fn prepend_nonzero(count: nat, unit_ms: nat, c: Seq<(nat, nat)>) -> Seq<(nat, nat)> {
    if count > 0 {
        seq![(count, unit_ms)] + c
    } else {
        c
    }
}

/// A component in front adds its milliseconds to the value.
pub proof fn lemma_prepend_value(count: nat, unit_ms: nat, c: Seq<(nat, nat)>)
    ensures
        components_value(prepend_nonzero(count, unit_ms, c)) == count * unit_ms
            + components_value(c),
        prepend_nonzero(count, unit_ms, c).len() == c.len() + if count > 0 {
            1nat
        } else {
            0nat
        },
{
    if count > 0 {
        assert((seq![(count, unit_ms)] + c).drop_first() =~= c);
    }
}

/// The components of a part followed by a rest that starts a component.
pub proof fn lemma_text_part(
    count: nat,
    unit: Seq<char>,
    unit_ms: nat,
    rest: Seq<char>,
    c: Seq<(nat, nat)>,
)
    requires
        count < 100000,
        unit.len() >= 1,
        !is_digit(unit[0]),
        unit_at(unit + rest) == Some((unit_ms, unit.len())),
        components(rest) == Some(c),
        starts_component(rest),
    ensures
        starts_component(text_part(count, unit) + rest),
        components(text_part(count, unit) + rest) == Some(prepend_nonzero(count, unit_ms, c)),
{
    if count > 0 {
        lemma_components_prefix(count, unit, unit_ms, rest);
        lemma_decimal(count);
        assert((text_part(count, unit) + rest)[0] == decimal(count)[0]);
    } else {
        assert(text_part(count, unit) + rest =~= rest);
    }
}

/// A number of milliseconds in hours, minutes, seconds and milliseconds.
proof fn lemma_split_millis(ms: nat)
    ensures
        ms == (ms / 1000 / 3600) * hour_ms() + ((ms / 1000 % 3600) / 60) * minute_ms() + (ms
            / 1000 % 60) * second_ms() + ms % 1000,
        (ms / 1000 % 3600) / 60 < 60,
        ms / 1000 % 60 < 60,
        ms % 1000 < 1000,
        ms <= 359_999_999_999 ==> ms / 1000 / 3600 < 100000,
{
    let secs = ms / 1000;
    assert(ms == secs * 1000 + ms % 1000);
    assert(secs == (secs / 3600) * 3600 + secs % 3600);
    assert(secs % 3600 == ((secs % 3600) / 60) * 60 + (secs % 3600) % 60);
    assert((secs % 3600) % 60 == secs % 60) by {
        vstd::arithmetic::div_mod::lemma_mod_mod(secs as int, 60, 60);
    }
    assert(ms == (secs / 3600) * 3600000 + ((secs % 3600) / 60) * 60000 + (secs % 60) * 1000 + ms
        % 1000) by (nonlinear_arith)
        requires
            ms == secs * 1000 + ms % 1000,
            secs == (secs / 3600) * 3600 + secs % 3600,
            secs % 3600 == ((secs % 3600) / 60) * 60 + secs % 60,
    ;
}

/// Ten to the power `n`.
pub open spec fn pow10(n: nat) -> nat
    decreases n,
{
    if n == 0 {
        1
    } else {
        10 * pow10((n - 1) as nat)
    }
}

/// A run of `n` digits denotes less than ten to the power `n`.
pub proof fn lemma_digits_value_bound(t: Seq<char>)
    ensures
        digits_value(t) < pow10(t.len()),
        t.len() <= 5 ==> digits_value(t) < 100000,
    decreases t.len(),
{
    if t.len() > 0 {
        lemma_digits_value_bound(t.drop_last());
        assert(digit_value(t.last()) <= 9);
        assert(pow10(t.len()) == 10 * pow10(t.drop_last().len()));
    }
    if t.len() <= 5 {
        lemma_pow10_monotone(t.len(), 5);
        reveal_with_fuel(pow10, 6);
    }
}

/// Ten to a greater power is greater.
pub proof fn lemma_pow10_monotone(a: nat, b: nat)
    requires
        a <= b,
    ensures
        pow10(a) <= pow10(b),
    decreases b,
{
    if a < b {
        lemma_pow10_monotone(a, (b - 1) as nat);
    }
}

/// Every component of a text counts less than 100000 of a unit of at most
/// an hour.
pub proof fn lemma_components_bounded(t: Seq<char>)
    ensures
        components(t) matches Some(c) ==> forall|i: int|
            0 <= i < c.len() ==> #[trigger] c[i].0 < 100000 && c[i].1 <= hour_ms(),
    decreases t.len(),
{
    if t.len() > 0 {
        let n = digit_run(t);
        if 0 < n <= 5 {
            lemma_digit_run_bound(t);
            match unit_at(t.skip(n as int)) {
                None => {},
                Some(u) => {
                    lemma_components_bounded(t.skip((n + u.1) as int));
                    lemma_digits_value_bound(t.take(n as int));
                    match components(t.skip((n + u.1) as int)) {
                        None => {},
                        Some(rest) => {
                            let c = seq![(digits_value(t.take(n as int)), u.0)] + rest;
                            assert forall|i: int| 0 <= i < c.len() implies #[trigger] c[i].0
                                < 100000 && c[i].1 <= hour_ms() by {
                                if i > 0 {
                                    assert(c[i] == rest[i - 1]);
                                }
                            }
                        },
                    }
                },
            }
        }
    }
}

/// Components of less than 100000 of a unit of at most an hour stand for
/// at most that many hours each.
pub proof fn lemma_components_value_bound(c: Seq<(nat, nat)>)
    requires
        forall|i: int| 0 <= i < c.len() ==> #[trigger] c[i].0 < 100000 && c[i].1 <= hour_ms(),
    ensures
        components_value(c) <= c.len() * 359_996_400_000,
    decreases c.len(),
{
    if c.len() > 0 {
        assert(c[0].0 < 100000 && c[0].1 <= hour_ms());
        assert forall|i: int| 0 <= i < c.drop_first().len() implies #[trigger] c.drop_first()[i].0
            < 100000 && c.drop_first()[i].1 <= hour_ms() by {
            assert(c.drop_first()[i] == c[i + 1]);
        }
        lemma_components_value_bound(c.drop_first());
        let a = c[0].0;
        let b = c[0].1;
        assert(a * b <= 359_996_400_000) by (nonlinear_arith)
            requires
                a < 100000,
                b <= 3_600_000,
        ;
    }
}

/// A text in the GEP-2257 format stands for at most four times 99999 hours.
pub proof fn lemma_value_bound(t: Seq<char>)
    requires
        gep2257_format(t),
    ensures
        gep2257_value(t) <= 1_439_985_600_000,
{
    lemma_components_bounded(t);
    lemma_components_value_bound(components(t).unwrap());
}

/// Whether `c` may stand in a text in the GEP-2257 format: an ASCII digit
/// or one of the letters of the units.
pub open spec fn is_format_char(c: char) -> bool {
    ('0' <= c && c <= '9') || c == 'h' || c == 'm' || c == 's'
}

/// The leading digits of `t` are digits.
pub proof fn lemma_digit_run_digits(t: Seq<char>, k: nat)
    requires
        k < digit_run(t),
    ensures
        k < t.len(),
        '0' <= t[k as int] && t[k as int] <= '9',
    decreases k,
{
    if k > 0 {
        lemma_digit_run_digits(t.drop_first(), (k - 1) as nat);
    }
}

/// A text made of components holds only digits and the letters of units.
pub proof fn lemma_components_chars(t: Seq<char>)
    ensures
        components(t) is Some ==> forall|i: int| 0 <= i < t.len() ==> is_format_char(#[trigger] t[i]),
    decreases t.len(),
{
    if t.len() > 0 && components(t) is Some {
        let n = digit_run(t);
        lemma_digit_run_bound(t);
        let u = unit_at(t.skip(n as int)).unwrap();
        let rest = t.skip((n + u.1) as int);
        lemma_components_chars(rest);
        assert forall|i: int| 0 <= i < t.len() implies is_format_char(#[trigger] t[i]) by {
            if i < n {
                lemma_digit_run_digits(t, i as nat);
            } else if i < n + u.1 {
                assert(t[i] == t.skip(n as int)[i - n]);
            } else {
                assert(t[i] == rest[i - n - u.1]);
            }
        }
    }
}

/// A text in the GEP-2257 format is not empty, starts with an ASCII digit
/// and holds only digits and the letters `h`, `m` and `s`.
pub proof fn lemma_format_shape(t: Seq<char>)
    ensures
        gep2257_format(t) ==> t.len() > 0 && '0' <= t[0] && t[0] <= '9' && forall|i: int|
            0 <= i < t.len() ==> is_format_char(#[trigger] t[i]),
{
    lemma_components_chars(t);
    if gep2257_format(t) {
        if t.len() == 0 {
            assert(components(t) == Some(Seq::<(nat, nat)>::empty()));
        } else {
            lemma_digit_run_digits(t, 0);
        }
    }
}

/// Whether each unit of `c` is below `bound` and greater than the units
/// after it: each unit at most once, greatest unit first.
pub open spec fn units_descending_below(c: Seq<(nat, nat)>, bound: nat) -> bool {
    &&& forall|i: int| 0 <= i < c.len() ==> #[trigger] c[i].1 < bound
    &&& forall|i: int, j: int| 0 <= i < j < c.len() ==> #[trigger] c[i].1 > #[trigger] c[j].1
}

/// A component in front with a greater unit keeps the units descending.
pub proof fn lemma_prepend_descending(count: nat, unit_ms: nat, c: Seq<(nat, nat)>, bound: nat)
    requires
        units_descending_below(c, unit_ms),
        unit_ms < bound,
    ensures
        units_descending_below(prepend_nonzero(count, unit_ms, c), bound),
{
    if count > 0 {
        let p = seq![(count, unit_ms)] + c;
        assert forall|i: int, j: int| 0 <= i < j < p.len() implies #[trigger] p[i].1 > #[trigger] p[j].1 by {
            assert(p[j] == c[j - 1]);
            if i > 0 {
                assert(p[i] == c[i - 1]);
            }
        }
        assert forall|i: int| 0 <= i < p.len() implies #[trigger] p[i].1 < bound by {
            if i > 0 {
                assert(p[i] == c[i - 1]);
            }
        }
    }
}

/// Whether every component of `c` counts at least one of its unit.
pub open spec fn counts_positive(c: Seq<(nat, nat)>) -> bool {
    forall|i: int| 0 <= i < c.len() ==> #[trigger] c[i].0 > 0
}

/// A component put in front only where its count is not zero keeps every
/// count positive.
pub proof fn lemma_prepend_positive(count: nat, unit_ms: nat, c: Seq<(nat, nat)>)
    requires
        counts_positive(c),
    ensures
        counts_positive(prepend_nonzero(count, unit_ms, c)),
{
    if count > 0 {
        let p = seq![(count, unit_ms)] + c;
        assert forall|i: int| 0 <= i < p.len() implies #[trigger] p[i].0 > 0 by {
            if i > 0 {
                assert(p[i] == c[i - 1]);
            }
        }
    }
}

/// Zero is written `0s`, a text in the format that stands for zero.
proof fn lemma_zero_text()
    ensures
        gep2257_format(gep2257_text(0)),
        gep2257_value(gep2257_text(0)) == 0,
        units_descending_below(components(gep2257_text(0)).unwrap(), hour_ms() + 1),
{
    let t = seq!['0', 's'];
    assert(is_digit(t[0]));
    assert(t.drop_first() =~= seq!['s']);
    assert(digit_run(t.drop_first()) == 0);
    assert(digit_run(t) == 1);
    assert(t.skip(1) =~= seq!['s']);
    assert(t.skip(2) =~= Seq::<char>::empty());
    let d = t.take(1);
    assert(d.drop_last() =~= Seq::<char>::empty());
    assert(digits_value(d.drop_last()) == 0);
    assert(d.last() == '0');
    assert(digits_value(d) == 0);
    assert(unit_at(t.skip(1)) == Some((second_ms(), 1nat)));
    assert(components(t.skip(2)) == Some(Seq::<(nat, nat)>::empty()));
    let c = seq![(0nat, second_ms())] + Seq::<(nat, nat)>::empty();
    assert(components(t) == Some(c));
    assert(c.drop_first() =~= Seq::<(nat, nat)>::empty());
    assert(c[0] == (0nat, second_ms()));
    assert(components_value(Seq::<(nat, nat)>::empty()) == 0);
    assert(c.len() == 1);
    assert(c[0].0 * c[0].1 == 0) by (nonlinear_arith)
        requires
            c[0].0 == 0,
    ;
    assert(units_descending_below(c, hour_ms() + 1));
}

/// Every duration that GEP-2257 can express is written in the GEP-2257
/// format, as a text that stands for that duration, with each unit at most
/// once and the greatest unit first.
#[verifier::rlimit(60)]
pub proof fn lemma_text_in_format(ms: nat)
    requires
        ms <= 359_999_999_999,
    ensures
        gep2257_format(gep2257_text(ms)),
        gep2257_value(gep2257_text(ms)) == ms,
        units_descending_below(components(gep2257_text(ms)).unwrap(), hour_ms() + 1),
        ms != 0 ==> counts_positive(components(gep2257_text(ms)).unwrap()),
{
    if ms == 0 {
        lemma_zero_text();
    } else {
        let secs = ms / 1000;
        let h = secs / 3600;
        let m = (secs % 3600) / 60;
        let s = secs % 60;
        let f = ms % 1000;
        lemma_split_millis(ms);
        let empty = Seq::<char>::empty();
        let c5 = Seq::<(nat, nat)>::empty();
        let c4 = prepend_nonzero(f, 1, c5);
        let c3 = prepend_nonzero(s, second_ms(), c4);
        let c2 = prepend_nonzero(m, minute_ms(), c3);
        let c1 = prepend_nonzero(h, hour_ms(), c2);
        let t4 = text_part(f, seq!['m', 's']) + empty;
        let t3 = text_part(s, seq!['s']) + t4;
        let t2 = text_part(m, seq!['m']) + t3;
        let t1 = text_part(h, seq!['h']) + t2;
        assert(seq!['m', 's'] + empty =~= seq!['m', 's']);
        lemma_text_part(f, seq!['m', 's'], 1, empty, c5);
        assert(unit_at(seq!['s'] + t4) == Some((second_ms(), 1nat)));
        lemma_text_part(s, seq!['s'], second_ms(), t4, c4);
        assert((seq!['m'] + t3)[0] == 'm');
        assert(unit_at(seq!['m'] + t3) == Some((minute_ms(), 1nat)));
        lemma_text_part(m, seq!['m'], minute_ms(), t3, c3);
        assert(unit_at(seq!['h'] + t2) == Some((hour_ms(), 1nat)));
        lemma_text_part(h, seq!['h'], hour_ms(), t2, c2);
        assert(t1 =~= gep2257_text(ms));
        lemma_prepend_value(f, 1, c5);
        lemma_prepend_value(s, second_ms(), c4);
        lemma_prepend_value(m, minute_ms(), c3);
        lemma_prepend_value(h, hour_ms(), c2);
        lemma_prepend_descending(f, 1, c5, second_ms());
        lemma_prepend_descending(s, second_ms(), c4, minute_ms());
        lemma_prepend_descending(m, minute_ms(), c3, hour_ms());
        lemma_prepend_descending(h, hour_ms(), c2, hour_ms() + 1);
        lemma_prepend_positive(f, 1, c5);
        lemma_prepend_positive(s, second_ms(), c4);
        lemma_prepend_positive(m, minute_ms(), c3);
        lemma_prepend_positive(h, hour_ms(), c2);
    }
}

/// The leading digits of `t` are the first `j` characters where these are
/// digits and the next is not.
pub proof fn lemma_digit_run_prefix(t: Seq<char>, j: nat)
    requires
        j <= t.len(),
        forall|k: int| 0 <= k < j ==> is_digit(#[trigger] t[k]),
    ensures
        digit_run(t) >= j,
        (j == t.len() || !is_digit(t[j as int])) ==> digit_run(t) == j,
    decreases j,
{
    if j > 0 {
        assert(is_digit(t[0]));
        assert forall|k: int| 0 <= k < j - 1 implies is_digit(#[trigger] t.drop_first()[k]) by {
            assert(t.drop_first()[k] == t[k + 1]);
        }
        lemma_digit_run_prefix(t.drop_first(), (j - 1) as nat);
    }
}

/// Whether `c` is an ASCII decimal digit.
fn is_ascii_digit(c: char) -> (r: bool)
    ensures
        r == is_digit(c),
{
    '0' <= c && c <= '9'
}

/// The number of digits in `text` from `start` on, counted up to six.
fn count_digits(text: &str, len: usize, start: usize) -> (n: usize)
    requires
        len == text@.len(),
        start <= len,
    ensures
        n <= 6,
        start + n <= len,
        n < 6 ==> n == digit_run(text@.skip(start as int)),
        n == 6 ==> digit_run(text@.skip(start as int)) >= 6,
{
    let ghost t = text@.skip(start as int);
    let mut n: usize = 0;
    loop
        invariant
            len == text@.len(),
            start <= len,
            t == text@.skip(start as int),
            n <= 6,
            start + n <= len,
            forall|k: int| 0 <= k < n ==> is_digit(#[trigger] t[k]),
        ensures
            n <= 6,
            start + n <= len,
            forall|k: int| 0 <= k < n ==> is_digit(#[trigger] t[k]),
            n == 6 || start + n == len || !is_digit(t[n as int]),
        decreases 6 - n,
    {
        if n == 6 || start + n == len {
            break;
        }
        if !is_ascii_digit(text.get_char(start + n)) {
            break;
        }
        n = n + 1;
    }
    proof {
        lemma_digit_run_prefix(t, n as nat);
    }
    n
}

/// The number of characters of the unit in `text` at `pos`, if there is one.
fn unit_length(text: &str, len: usize, pos: usize) -> (r: Option<usize>)
    requires
        len == text@.len(),
        pos <= len,
    ensures
        match (r, unit_at(text@.skip(pos as int))) {
            (Some(k), Some(u)) => k == u.1,
            (None, None) => true,
            _ => false,
        },
{
    let ghost t = text@.skip(pos as int);
    if pos == len {
        return None;
    }
    let c = text.get_char(pos);
    if c == 'm' {
        if pos + 1 < len && text.get_char(pos + 1) == 's' {
            Some(2)
        } else {
            Some(1)
        }
    } else if c == 'h' || c == 's' {
        Some(1)
    } else {
        None
    }
}

/// Whether `text` is in the GEP-2257 format,
/// `^([0-9]{1,5}(h|m|s|ms)){1,4}$`.
pub fn is_gep2257_format(text: &str) -> (r: bool)
    ensures
        r == gep2257_format(text@),
        r == matches_pattern(text@),
        r ==> text@.len() > 0 && '0' <= text@[0] && text@[0] <= '9',
        r ==> forall|i: int| 0 <= i < text@.len() ==> is_format_char(#[trigger] text@[i]),
{
    proof {
        lemma_format_shape(text@);
        law_format_is_pattern(text@);
    }
    let len = text.unicode_len();
    let ghost s = text@;
    let mut i: usize = 0;
    let mut count: usize = 0;
    assert(s.skip(0) =~= s);
    while i < len
        invariant
            len == s.len(),
            s == text@,
            gep2257_format(s) == matches_pattern(s),
            i <= len,
            count <= 4,
            components(s) is Some <==> components(s.skip(i as int)) is Some,
            components(s) is Some ==> components(s).unwrap().len() == count + components(
                s.skip(i as int),
            ).unwrap().len(),
        decreases len - i,
    {
        let ghost t = s.skip(i as int);
        let n = count_digits(text, len, i);
        if n == 0 || n > 5 {
            return false;
        }
        match unit_length(text, len, i + n) {
            None => {
                assert(t.skip(n as int) =~= s.skip((i + n) as int));
                return false;
            },
            Some(k) => {
                proof {
                    assert(t.skip(n as int) =~= s.skip((i + n) as int));
                    lemma_digit_run_bound(t);
                    assert(t.skip((n + k) as int) =~= s.skip((i + n + k) as int));
                }
                i = i + n + k;
                count = count + 1;
                if count > 4 {
                    return false;
                }
            },
        }
    }
    assert(s.skip(i as int) =~= Seq::<char>::empty());
    count >= 1
}

/// The text of the decimal digit `d`.
fn digit_text(d: u64) -> (s: &'static str)
    requires
        d < 10,
    ensures
        s@ == seq![digit_char(d as nat)],
{
    proof {
        reveal_strlit("0");
        reveal_strlit("1");
        reveal_strlit("2");
        reveal_strlit("3");
        reveal_strlit("4");
        reveal_strlit("5");
        reveal_strlit("6");
        reveal_strlit("7");
        reveal_strlit("8");
        reveal_strlit("9");
    }
    if d == 0 {
        "0"
    } else if d == 1 {
        "1"
    } else if d == 2 {
        "2"
    } else if d == 3 {
        "3"
    } else if d == 4 {
        "4"
    } else if d == 5 {
        "5"
    } else if d == 6 {
        "6"
    } else if d == 7 {
        "7"
    } else if d == 8 {
        "8"
    } else {
        "9"
    }
}

/// Appends the decimal numeral of `n` to `out`.
pub fn append_decimal(out: &mut String, n: u64)
    ensures
        final(out)@ == old(out)@ + decimal(n as nat),
    decreases n,
{
    if n >= 10 {
        append_decimal(out, n / 10);
    }
    out.append(digit_text(n % 10));
    proof {
        if n >= 10 {
            assert(decimal(n as nat) == decimal((n / 10) as nat).push(digit_char((n % 10) as nat)));
        }
    }
    assert(out@ =~= old(out)@ + decimal(n as nat));
}

/// Appends `count` followed by `unit` to `out`, or nothing where `count`
/// is zero.
pub fn append_part(out: &mut String, count: u64, unit: &str)
    ensures
        final(out)@ == old(out)@ + text_part(count as nat, unit@),
{
    if count > 0 {
        append_decimal(out, count);
        out.append(unit);
        assert(out@ =~= old(out)@ + text_part(count as nat, unit@));
    } else {
        assert(out@ =~= old(out)@ + text_part(count as nat, unit@));
    }
}

} // verus!
