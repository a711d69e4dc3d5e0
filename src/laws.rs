//! Properties that hold across the parsers, stated over the grammars that
//! the parsers' contracts use.
use vstd::prelude::*;
use crate::parsers::creatures::{
    collect_all_pairs, first_group_of, fourth_group_of, fourth_view, last_value, second_group_of,
    speed_of, speed_pairs, speed_parts, third_group_of, FourthGroup,
};
use crate::parsers::spells::{
    entries_of, first_from, flatten, spell_first_group_of, spell_of, spell_second_group_of,
    spell_view, SpellView,
};
use crate::models::spells::Spell;
use crate::models::creatures::{HitPoints, HitPointsFormula};
use crate::number::{all_digits, digits_value, spec_parse_unsigned, unsigned_part};
use crate::parsers::creatures::{dice_of, hit_points_of, hp_formula_of};
use crate::text::{
    lemma_find_absent, lemma_find_after, spec_contains, spec_ends_with, spec_find, spec_split_once,
    spec_starts_with,
};
use crate::utils::error::{bounds_failure, outcome_by, Error, Failure};

verus! {

/// A creature group with the wrong number of lines is refused with a
/// cardinality violation that names the group's step and holds the lines
/// exactly as given: the identity group needs two lines, the combat and
/// ability-score groups three. So are a spell's identity group, which
/// needs two lines, and its mechanics group, which needs five.
pub proof fn lemma_wrong_line_count(g: Seq<Seq<char>>)
    ensures
        g.len() != 2 ==> (first_group_of(g) matches Err(f) && f == bounds_failure(g, (g.len() as u32) as int, "First group"@)),
        g.len() != 3 ==> (second_group_of(g) matches Err(f) && f == bounds_failure(g, (g.len() as u32) as int, "Second group parsing"@)),
        g.len() != 3 ==> (third_group_of(g) matches Err(f) && f == bounds_failure(g, (g.len() as u32) as int, "Ability scores"@)),
        g.len() == 0 ==> (spell_first_group_of(g) matches Err(f) && f == bounds_failure(g, 0, "Name"@)),
        g.len() == 1 ==> (spell_first_group_of(g) matches Err(f) && f == bounds_failure(g, 1, "Level and School"@)),
        g.len() > 2 ==> (spell_first_group_of(g) matches Err(f) && f == bounds_failure(g, (g.len() as u32) as int, "Identity group"@)),
        g.len() != 5 ==> (spell_second_group_of(g) matches Err(f) && f == bounds_failure(g, (g.len() as u32) as int, "Mechanics group"@)),
{
}

/// Parsing a traits group twice gives the same outcome: any two results
/// that meet `parse_fourth_group`'s contract for the same lines are equal
/// over views, errors included.
pub proof fn lemma_traits_reparse(
    g: Seq<Seq<char>>,
    a: Result<FourthGroup, Error>,
    b: Result<FourthGroup, Error>,
)
    requires
        outcome_by(a, |x: FourthGroup| fourth_view(x)) == fourth_group_of(g),
        outcome_by(b, |x: FourthGroup| fourth_view(x)) == fourth_group_of(g),
    ensures
        outcome_by(a, |x: FourthGroup| fourth_view(x)) == outcome_by(b, |x: FourthGroup| fourth_view(x)),
{
}

/// Parsing a spell twice gives the same outcome: any two results that meet
/// `parse_gm_binder`'s contract for the same text and source are equal over
/// views, the record or the error alike.
pub proof fn lemma_spell_reparse<'a>(
    text: Seq<char>,
    source: (Seq<char>, i16),
    a: Result<Spell<'a>, Error>,
    b: Result<Spell<'a>, Error>,
)
    requires
        outcome_by(a, |s: Spell<'a>| spell_view(s)) == spell_of(text, source),
        outcome_by(b, |s: Spell<'a>| spell_view(s)) == spell_of(text, source),
    ensures
        outcome_by(a, |s: Spell<'a>| spell_view(s)) == outcome_by(b, |s: Spell<'a>| spell_view(s)),
{
}

/// An optional line of the traits group that the text does not have is
/// absent from the result, and one that it has is present.
pub proof fn lemma_traits_optional_fields(g: Seq<Seq<char>>)
    requires
        fourth_group_of(g) is Ok,
    ensures
        ({
            let pairs = collect_all_pairs(g);
            let v = fourth_group_of(g)->Ok_0;
            &&& (v.0 is None <==> last_value(pairs, "saving throws"@) is None)
            &&& (v.1 is None <==> last_value(pairs, "skills"@) is None)
            &&& (v.2 is None <==> last_value(pairs, "damage resistances"@) is None)
            &&& (v.3 is None <==> last_value(pairs, "damage immunities"@) is None)
            &&& (v.4 is None <==> last_value(pairs, "damage vulnerabilities"@) is None)
            &&& (v.5 is None <==> last_value(pairs, "condition immunities"@) is None)
        }),
{
}

/// A speed that the line does not list is absent, never defaulted; one
/// that it lists is present.
pub proof fn lemma_speed_optional_fields(v: Seq<char>)
    requires
        speed_of(v) is Ok,
    ensures
        ({
            let pairs = speed_pairs(speed_parts(v).drop_first())->Ok_0;
            let s = speed_of(v)->Ok_0;
            &&& (s.burrow is None <==> last_value(pairs, "burrow"@) is None)
            &&& (s.climb is None <==> last_value(pairs, "climb"@) is None)
            &&& (s.crawl is None <==> last_value(pairs, "crawl"@) is None)
            &&& (s.fly is None <==> last_value(pairs, "fly"@) is None)
            &&& (s.swim is None <==> last_value(pairs, "swim"@) is None)
        }),
{
}

/// A spell's "at higher levels" text is absent exactly when none of its
/// entry lines is bold.
pub proof fn lemma_higher_levels_absent(gs: Seq<Seq<Seq<char>>>)
    requires
        entries_of(gs) is Ok,
    ensures
        ({
            let ls = flatten(gs);
            entries_of(gs)->Ok_0.2 is None <==> first_from(ls, 0, true) >= ls.len()
        }),
{
}

/// A non-empty run of digits is an unsigned number, read in base ten.
proof fn lemma_digits_parse(d: Seq<char>, max: nat)
    requires
        d.len() > 0,
        all_digits(d),
        digits_value(d) <= max,
    ensures
        spec_parse_unsigned(d, max) == Ok::<int, crate::number::IntErrorKind>(digits_value(d) as int),
{
    assert(unsigned_part(d, false) == d);
}

/// Hit points written by the grammar `<avg> (<n>d<die>)`, each a run of
/// digits in range, parse to those numbers with a zero modifier.
pub proof fn lemma_hit_points_well_formed(avg: Seq<char>, n: Seq<char>, die: Seq<char>)
    requires
        avg.len() > 0 && all_digits(avg) && digits_value(avg) <= 65535,
        n.len() > 0 && all_digits(n) && digits_value(n) <= 255,
        die.len() > 0 && all_digits(die) && digits_value(die) <= 255,
    ensures
        hit_points_of(avg + seq![' ', '('] + n + seq!['d'] + die + seq![')']) == Ok::<HitPoints, Failure>(
            HitPoints {
                average: digits_value(avg) as u16,
                formula: HitPointsFormula {
                    number_of_dice: digits_value(n) as u8,
                    die_size: digits_value(die) as u8,
                    modifier: 0,
                },
            },
        ),
{
    reveal_strlit(" ");
    reveal_strlit("(");
    reveal_strlit(")");
    reveal_strlit("d");
    reveal_strlit("+");
    reveal_strlit("-");
    assert(" "@ =~= seq![' ']);
    assert("("@ =~= seq!['(']);
    assert(")"@ =~= seq![')']);
    assert("d"@ =~= seq!['d']);
    assert("+"@ =~= seq!['+']);
    assert("-"@ =~= seq!['-']);
    let rest = seq!['('] + n + seq!['d'] + die + seq![')'];
    let v = avg + seq![' ', '('] + n + seq!['d'] + die + seq![')'];
    assert(v =~= avg + seq![' '] + rest);
    assert forall|j: int| 0 <= j < avg.len() implies avg[j] != ' ' by {
        assert(crate::number::is_digit(avg[j]));
    }
    lemma_find_after(avg, ' ', rest);
    assert((avg + seq![' '] + rest).subrange(0, avg.len() as int) =~= avg);
    assert((avg + seq![' '] + rest).subrange(avg.len() + 1 as int, v.len() as int) =~= rest);
    assert(spec_split_once(v, " "@) == Some((avg, rest)));
    lemma_digits_parse(avg, 65535);
    let f = n + seq!['d'] + die;
    assert(spec_starts_with(rest, "("@)) by {
        assert(rest.subrange(0, 1) =~= seq!['(']);
    }
    assert(rest.drop_first() =~= f + seq![')']);
    assert(spec_ends_with(rest.drop_first(), ")"@)) by {
        let t = rest.drop_first();
        assert(t.subrange(t.len() - 1, t.len() as int) =~= seq![')']);
    }
    assert(rest.drop_first().drop_last() =~= f);
    assert forall|j: int| 0 <= j < f.len() implies f[j] != '+' && f[j] != '-' by {
        if j < n.len() {
            assert(f[j] == n[j]);
            assert(crate::number::is_digit(n[j]));
        } else if j > n.len() {
            assert(f[j] == die[j - n.len() - 1]);
            assert(crate::number::is_digit(die[j - n.len() - 1]));
        }
    }
    lemma_find_absent(f, '+');
    lemma_find_absent(f, '-');
    assert(!spec_contains(f, "+"@));
    assert forall|j: int| 0 <= j < n.len() implies n[j] != 'd' by {
        assert(crate::number::is_digit(n[j]));
    }
    lemma_find_after(n, 'd', die);
    assert(f.subrange(0, n.len() as int) =~= n);
    assert(f.subrange(n.len() + 1 as int, f.len() as int) =~= die);
    assert(spec_split_once(f, "d"@) == Some((n, die)));
    lemma_digits_parse(n, 255);
    lemma_digits_parse(die, 255);
    assert(dice_of(f, rest) == Ok::<(u8, u8), Failure>((digits_value(n) as u8, digits_value(die) as u8)));
    assert(hp_formula_of(rest) == Ok::<HitPointsFormula, Failure>(
        HitPointsFormula { number_of_dice: digits_value(n) as u8, die_size: digits_value(die) as u8, modifier: 0 },
    ));
}

} // verus!
