//! The GEP-2257 pattern `^([0-9]{1,5}(h|m|s|ms)){1,4}$`, stated as the
//! regular expression reads, and its agreement with the format that the
//! library checks and parses.

use vstd::prelude::*;

use crate::text::{
    components, digit_run, gep2257_format, is_digit, lemma_components_digits_prefix,
    lemma_digit_run_bound, lemma_digit_run_digits, unit_at,
};

verus! {

/// Whether `u` is one of the units `h`, `m`, `s` and `ms`.
pub open spec fn is_pattern_unit(u: Seq<char>) -> bool {
    u == seq!['h'] || u == seq!['m'] || u == seq!['s'] || u == seq!['m', 's']
}

/// Whether `p` is one repetition of `[0-9]{1,5}(h|m|s|ms)`: one to five
/// ASCII digits, then a unit.
pub open spec fn is_pattern_piece(p: Seq<char>) -> bool {
    exists|n: int|
        #![trigger p.skip(n)]
        1 <= n <= 5 && n < p.len() && (forall|k: int| 0 <= k < n ==> '0' <= #[trigger] p[k] && p[k]
            <= '9') && is_pattern_unit(p.skip(n))
}

/// Whether `t` matches `^([0-9]{1,5}(h|m|s|ms)){1,4}$`: it is one to four
/// pieces, one after another, and nothing else.
pub open spec fn matches_pattern(t: Seq<char>) -> bool {
    exists|ps: Seq<Seq<char>>|
        1 <= ps.len() <= 4 && (forall|i: int| 0 <= i < ps.len() ==> is_pattern_piece(#[trigger] ps[i]))
            && #[trigger] ps.flatten() == t
}

/// The pieces that a text made of components is made of.
proof fn lemma_pieces_of(t: Seq<char>) -> (ps: Seq<Seq<char>>)
    requires
        components(t) is Some,
    ensures
        ps.len() == components(t).unwrap().len(),
        forall|i: int| 0 <= i < ps.len() ==> is_pattern_piece(#[trigger] ps[i]),
        ps.flatten() == t,
    decreases t.len(),
{
    if t.len() == 0 {
        assert(t =~= Seq::<char>::empty());
        Seq::empty()
    } else {
        let n = digit_run(t);
        lemma_digit_run_bound(t);
        let u = unit_at(t.skip(n as int)).unwrap();
        let rest = t.skip((n + u.1) as int);
        let rs = lemma_pieces_of(rest);
        let p = t.take((n + u.1) as int);
        assert forall|k: int| 0 <= k < n implies '0' <= #[trigger] p[k] && p[k] <= '9' by {
            lemma_digit_run_digits(t, k as nat);
        }
        assert(p.skip(n as int) =~= t.skip(n as int).take(u.1 as int));
        if u.1 == 2 {
            assert(p.skip(n as int) =~= seq!['m', 's']);
        } else if u.0 == 3_600_000 {
            assert(p.skip(n as int) =~= seq!['h']);
        } else if u.0 == 60_000 {
            assert(p.skip(n as int) =~= seq!['m']);
        } else {
            assert(p.skip(n as int) =~= seq!['s']);
        }
        assert(is_pattern_piece(p));
        let ps = seq![p] + rs;
        assert(ps.drop_first() =~= rs);
        assert(ps.first() == p);
        assert(p + rest =~= t);
        assert forall|i: int| 0 <= i < ps.len() implies is_pattern_piece(#[trigger] ps[i]) by {
            if i > 0 {
                assert(ps[i] == rs[i - 1]);
            }
        }
        ps
    }
}

/// Pieces one after another make a text of as many components, which is
/// empty or starts with a digit.
proof fn lemma_components_of_pieces(ps: Seq<Seq<char>>)
    requires
        forall|i: int| 0 <= i < ps.len() ==> is_pattern_piece(#[trigger] ps[i]),
    ensures
        components(ps.flatten()) is Some,
        components(ps.flatten()).unwrap().len() == ps.len(),
        ps.flatten().len() == 0 || is_digit(ps.flatten()[0]),
    decreases ps.len(),
{
    if ps.len() == 0 {
        assert(components(ps.flatten()) == Some(Seq::<(nat, nat)>::empty()));
    } else {
        let p = ps[0];
        let rs = ps.drop_first();
        assert forall|i: int| 0 <= i < rs.len() implies is_pattern_piece(#[trigger] rs[i]) by {
            assert(rs[i] == ps[i + 1]);
        }
        lemma_components_of_pieces(rs);
        let rest = rs.flatten();
        assert(is_pattern_piece(p));
        let n = choose|n: int|
            #![trigger p.skip(n)]
            1 <= n <= 5 && n < p.len() && (forall|k: int| 0 <= k < n ==> '0' <= #[trigger] p[k]
                && p[k] <= '9') && is_pattern_unit(p.skip(n));
        let d = p.take(n);
        let unit = p.skip(n);
        assert(p =~= d + unit);
        assert forall|k: int| 0 <= k < d.len() implies is_digit(#[trigger] d[k]) by {
            assert(d[k] == p[k]);
        }
        let unit_ms: nat = if unit == seq!['m', 's'] {
            1
        } else if unit == seq!['h'] {
            3_600_000
        } else if unit == seq!['m'] {
            60_000
        } else {
            1000
        };
        assert((unit + rest)[0] == unit[0]);
        if unit.len() == 1 && rest.len() > 0 {
            assert((unit + rest)[1] == rest[0]);
        }
        assert(unit_at(unit + rest) == Some((unit_ms, unit.len())));
        lemma_components_digits_prefix(d, unit, unit_ms, rest);
        assert(ps.flatten() == p + rest);
        assert(d + unit + rest =~= p + rest);
        let c = components(rest).unwrap();
        assert(components(ps.flatten()) == Some(seq![(crate::text::digits_value(d), unit_ms)] + c));
        assert(ps.flatten()[0] == d[0]);
    }
}

/// A text is in the format that the library checks exactly where it
/// matches `^([0-9]{1,5}(h|m|s|ms)){1,4}$`.
pub proof fn law_format_is_pattern(t: Seq<char>)
    ensures
        gep2257_format(t) <==> matches_pattern(t),
{
    if gep2257_format(t) {
        let ps = lemma_pieces_of(t);
        assert(ps.flatten() == t);
    }
    if matches_pattern(t) {
        let ps = choose|ps: Seq<Seq<char>>|
            1 <= ps.len() <= 4 && (forall|i: int|
                0 <= i < ps.len() ==> is_pattern_piece(#[trigger] ps[i])) && #[trigger] ps.flatten()
                == t;
        lemma_components_of_pieces(ps);
    }
}

} // verus!
