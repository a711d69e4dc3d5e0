//! Creature stat blocks: segmentation into groups and the field grammars of
//! each group.
use vstd::prelude::*;
use vstd::string::*;
use crate::models::common::{
    all_damage_types, damage_type_word, spec_all_damage_types, DamageType, ability_score_word, moral_word, order_word, skill_word, status_condition_word, AbilityScore,
    Alignment, AlignmentAxis, AlignmentAxisMoral, AlignmentAxisOrder, NamedEntry, Skill,
    StatusCondition,
};
use crate::models::creatures::{
    creature_type_word, modifier_views, size_word, ArmorClass, ConditionalDamageModifier,
    DamageModifier, DamageModifierType, DamageModifierView, ChallengeRating, CreatureType, CreatureTypeEnum,
    AbilityScores, FlySpeed, HitPoints, HitPointsFormula, Size, Speed,
};
use crate::number::{parse_unsigned, parse_signed, spec_parse_signed, spec_parse_unsigned};
use crate::text::{
    contains, opt_views, split, split_once, splitn, replace, strip_prefix, strip_suffix, trim, views,
    lower_of, lowercase, spec_contains, spec_find, spec_join, spec_ends_with, spec_replacen, spec_rsplit_once, spec_starts_with, spec_replace, spec_split, spec_split_once, spec_splitn, spec_trim,
};
use crate::utils::error::{
    bounds_failure, collect_all, lexicon_outcome, outcome, outcome_by, parse_failure, parse_failure_with, Error,
    Failure, OutOfBoundsError, ParseError,
};

verus! {

impl TryFrom<&str> for Size {
    type Error = Error;

    fn try_from(value: &str) -> (r: Result<Size, Error>)
        ensures
            outcome(r) == lexicon_outcome(size_word(value@), value@, "Size"@),
    {
        match Size::from_word(value) {
            Some(v) => Ok(v),
            None => Err(Error::Parse(ParseError::new(value, "Size"))),
        }
    }
}

impl vstd::std_specs::convert::TryFromSpecImpl<&str> for Size {
    open spec fn obeys_try_from_spec() -> bool {
        false
    }

    open spec fn try_from_spec(v: &str) -> Result<Size, Error> {
        arbitrary()
    }
}

impl TryFrom<&str> for CreatureTypeEnum {
    type Error = Error;

    fn try_from(value: &str) -> (r: Result<CreatureTypeEnum, Error>)
        ensures
            outcome(r) == lexicon_outcome(creature_type_word(value@), value@, "Main creature type"@),
    {
        match CreatureTypeEnum::from_word(value) {
            Some(v) => Ok(v),
            None => Err(Error::Parse(ParseError::new(value, "Main creature type"))),
        }
    }
}

impl vstd::std_specs::convert::TryFromSpecImpl<&str> for CreatureTypeEnum {
    open spec fn obeys_try_from_spec() -> bool {
        false
    }

    open spec fn try_from_spec(v: &str) -> Result<CreatureTypeEnum, Error> {
        arbitrary()
    }
}

impl TryFrom<&str> for AlignmentAxisMoral {
    type Error = Error;

    fn try_from(value: &str) -> (r: Result<AlignmentAxisMoral, Error>)
        ensures
            outcome(r) == lexicon_outcome(moral_word(value@), value@, "AlignmentAxisMoral"@),
    {
        match AlignmentAxisMoral::from_word(value) {
            Some(v) => Ok(v),
            None => Err(Error::Parse(ParseError::new(value, "AlignmentAxisMoral"))),
        }
    }
}

impl vstd::std_specs::convert::TryFromSpecImpl<&str> for AlignmentAxisMoral {
    open spec fn obeys_try_from_spec() -> bool {
        false
    }

    open spec fn try_from_spec(v: &str) -> Result<AlignmentAxisMoral, Error> {
        arbitrary()
    }
}

impl TryFrom<&str> for AlignmentAxisOrder {
    type Error = Error;

    fn try_from(value: &str) -> (r: Result<AlignmentAxisOrder, Error>)
        ensures
            outcome(r) == lexicon_outcome(order_word(value@), value@, "AlignmentAxisOrder"@),
    {
        match AlignmentAxisOrder::from_word(value) {
            Some(v) => Ok(v),
            None => Err(Error::Parse(ParseError::new(value, "AlignmentAxisOrder"))),
        }
    }
}

impl vstd::std_specs::convert::TryFromSpecImpl<&str> for AlignmentAxisOrder {
    open spec fn obeys_try_from_spec() -> bool {
        false
    }

    open spec fn try_from_spec(v: &str) -> Result<AlignmentAxisOrder, Error> {
        arbitrary()
    }
}

impl TryFrom<&str> for AbilityScore {
    type Error = Error;

    fn try_from(value: &str) -> (r: Result<AbilityScore, Error>)
        ensures
            outcome(r) == lexicon_outcome(ability_score_word(value@), value@, "Ability score"@),
    {
        match AbilityScore::from_word(value) {
            Some(v) => Ok(v),
            None => Err(Error::Parse(ParseError::new(value, "Ability score"))),
        }
    }
}

impl vstd::std_specs::convert::TryFromSpecImpl<&str> for AbilityScore {
    open spec fn obeys_try_from_spec() -> bool {
        false
    }

    open spec fn try_from_spec(v: &str) -> Result<AbilityScore, Error> {
        arbitrary()
    }
}

impl TryFrom<&str> for Skill {
    type Error = Error;

    fn try_from(value: &str) -> (r: Result<Skill, Error>)
        ensures
            outcome(r) == lexicon_outcome(skill_word(value@), value@, "Skill"@),
    {
        match Skill::from_word(value) {
            Some(v) => Ok(v),
            None => Err(Error::Parse(ParseError::new(value, "Skill"))),
        }
    }
}

impl vstd::std_specs::convert::TryFromSpecImpl<&str> for Skill {
    open spec fn obeys_try_from_spec() -> bool {
        false
    }

    open spec fn try_from_spec(v: &str) -> Result<Skill, Error> {
        arbitrary()
    }
}

impl TryFrom<&str> for StatusCondition {
    type Error = Error;

    fn try_from(value: &str) -> (r: Result<StatusCondition, Error>)
        ensures
            outcome(r) == lexicon_outcome(status_condition_word(value@), value@, "Status Condition"@),
    {
        match StatusCondition::from_word(value) {
            Some(v) => Ok(v),
            None => Err(Error::Parse(ParseError::new(value, "Status Condition"))),
        }
    }
}

impl vstd::std_specs::convert::TryFromSpecImpl<&str> for StatusCondition {
    open spec fn obeys_try_from_spec() -> bool {
        false
    }

    open spec fn try_from_spec(v: &str) -> Result<StatusCondition, Error> {
        arbitrary()
    }
}

/// A position on either axis: the law/chaos vocabulary is tried first.
pub open spec fn axis_of(w: Seq<char>) -> Result<AlignmentAxis, Failure> {
    match order_word(w) {
        Some(o) => Ok(AlignmentAxis::Order(o)),
        None => match moral_word(w) {
            Some(m) => Ok(AlignmentAxis::Moral(m)),
            None => Err(parse_failure(w, "AlignmentAxisMoral"@)),
        },
    }
}

impl TryFrom<&str> for AlignmentAxis {
    type Error = Error;

    fn try_from(value: &str) -> (r: Result<AlignmentAxis, Error>)
        ensures
            outcome(r) == axis_of(value@),
    {
        match AlignmentAxisOrder::from_word(value) {
            Some(o) => Ok(AlignmentAxis::Order(o)),
            None => match AlignmentAxisMoral::from_word(value) {
                Some(m) => Ok(AlignmentAxis::Moral(m)),
                None => Err(Error::Parse(ParseError::new(value, "AlignmentAxisMoral"))),
            },
        }
    }
}

impl vstd::std_specs::convert::TryFromSpecImpl<&str> for AlignmentAxis {
    open spec fn obeys_try_from_spec() -> bool {
        false
    }

    open spec fn try_from_spec(v: &str) -> Result<AlignmentAxis, Error> {
        arbitrary()
    }
}

/// The words of an alignment phrase: up to three space-separated words,
/// leaving out those that contain "alignment".
pub open spec fn alignment_words(ws: Seq<Seq<char>>) -> Seq<Seq<char>>
    decreases ws.len(),
{
    if ws.len() == 0 {
        Seq::empty()
    } else if spec_contains(ws.last(), "alignment"@) {
        alignment_words(ws.drop_last())
    } else {
        alignment_words(ws.drop_last()).push(ws.last())
    }
}

/// An alignment phrase: "any", "unaligned", "neutral" alone (neutral on both
/// axes), "any <axis>" (one axis), or "<order> <moral>".
pub open spec fn alignment_of(v: Seq<char>) -> Result<Alignment, Failure> {
    let w = alignment_words(spec_splitn(v, " "@, 3));
    if w.len() == 1 && w[0] == "any"@ {
        Ok(Alignment::Any)
    } else if w.len() == 1 && w[0] == "unaligned"@ {
        Ok(Alignment::Unaligned)
    } else if w.len() == 1 && w[0] == "neutral"@ {
        Ok(Alignment::TwoAxes { order: AlignmentAxisOrder::Neutral, moral: AlignmentAxisMoral::Neutral })
    } else if w.len() == 2 && w[0] == "any"@ {
        match axis_of(w[1]) {
            Ok(a) => Ok(Alignment::OneAxis(a)),
            Err(f) => Err(f),
        }
    } else if w.len() == 2 {
        match lexicon_outcome(order_word(w[0]), w[0], "AlignmentAxisOrder"@) {
            Ok(o) => match lexicon_outcome(moral_word(w[1]), w[1], "AlignmentAxisMoral"@) {
                Ok(m) => Ok(Alignment::TwoAxes { order: o, moral: m }),
                Err(f) => Err(f),
            },
            Err(f) => Err(f),
        }
    } else {
        Err(parse_failure(v, "Alignment"@))
    }
}

fn alignment_words_exec(v: &str) -> (r: Vec<String>)
    ensures
        views(r@) == alignment_words(spec_splitn(v@, " "@, 3)),
{
    proof {
        reveal_strlit(" ");
    }
    let parts = splitn(v, " ", 3);
    let mut kept: Vec<String> = Vec::new();
    let mut i: usize = 0;
    while i < parts.len()
        invariant
            i <= parts.len(),
            views(kept@) == alignment_words(views(parts@).take(i as int)),
        decreases parts.len() - i,
    {
        proof {
            assert(views(parts@).take(i + 1).drop_last() =~= views(parts@).take(i as int));
        }
        if !contains(parts[i].as_str(), "alignment") {
            let w = parts[i].clone();
            proof {
                assert(views(kept@.push(w)) =~= views(kept@).push(w@));
            }
            kept.push(w);
        }
        i += 1;
    }
    proof {
        assert(views(parts@).take(i as int) =~= views(parts@));
    }
    kept
}

impl TryFrom<&str> for Alignment {
    type Error = Error;

    fn try_from(value: &str) -> (r: Result<Alignment, Error>)
        ensures
            outcome(r) == alignment_of(value@),
    {
        let w = alignment_words_exec(value);
        if w.len() == 1 && crate::text::eq_str(w[0].as_str(), "any") {
            Ok(Alignment::Any)
        } else if w.len() == 1 && crate::text::eq_str(w[0].as_str(), "unaligned") {
            Ok(Alignment::Unaligned)
        } else if w.len() == 1 && crate::text::eq_str(w[0].as_str(), "neutral") {
            Ok(Alignment::TwoAxes { order: AlignmentAxisOrder::Neutral, moral: AlignmentAxisMoral::Neutral })
        } else if w.len() == 2 && crate::text::eq_str(w[0].as_str(), "any") {
            let a = AlignmentAxis::try_from(w[1].as_str())?;
            Ok(Alignment::OneAxis(a))
        } else if w.len() == 2 {
            let o = AlignmentAxisOrder::try_from(w[0].as_str())?;
            let m = AlignmentAxisMoral::try_from(w[1].as_str())?;
            Ok(Alignment::TwoAxes { order: o, moral: m })
        } else {
            Err(Error::Parse(ParseError::new(value, "Alignment")))
        }
    }
}

impl vstd::std_specs::convert::TryFromSpecImpl<&str> for Alignment {
    open spec fn obeys_try_from_spec() -> bool {
        false
    }

    open spec fn try_from_spec(v: &str) -> Result<Alignment, Error> {
        arbitrary()
    }
}
/// A creature type: the main type, then optional subtypes after a space or
/// a slash, with parentheses dropped and split at ", ".
pub open spec fn creature_type_of(v: Seq<char>) -> Result<(CreatureTypeEnum, Option<Seq<Seq<char>>>), Failure> {
    let parts = spec_splitn(spec_replace(v, "/"@, " "@), " "@, 2);
    match lexicon_outcome(creature_type_word(parts[0]), parts[0], "Main creature type"@) {
        Err(f) => Err(f),
        Ok(m) => if parts.len() == 1 {
            Ok((m, None))
        } else {
            Ok((m, Some(spec_split(spec_replace(spec_replace(parts[1], "("@, ""@), ")"@, ""@), ", "@))))
        },
    }
}

pub open spec fn creature_type_view(c: CreatureType) -> (CreatureTypeEnum, Option<Seq<Seq<char>>>) {
    (c.main_type, opt_views(c.subtypes))
}

impl TryFrom<&str> for CreatureType {
    type Error = Error;

    fn try_from(value: &str) -> (r: Result<CreatureType, Error>)
        ensures
            outcome_by(r, |c: CreatureType| creature_type_view(c)) == creature_type_of(value@),
    {
        proof {
            reveal_strlit(" ");
            reveal_strlit("/");
            reveal_strlit("(");
            reveal_strlit(")");
            reveal_strlit(", ");
        }
        let replaced = replace(value, "/", " ");
        let parts = splitn(replaced.as_str(), " ", 2);
        proof {
            crate::text::lemma_splitn_len(replaced@, " "@, 2);
        }
        let main_type = CreatureTypeEnum::try_from(parts[0].as_str())?;
        if parts.len() == 1 {
            Ok(CreatureType { main_type, subtypes: None })
        } else {
            let open_dropped = replace(parts[1].as_str(), "(", "");
            let dropped = replace(open_dropped.as_str(), ")", "");
            let subtypes = split(dropped.as_str(), ", ");
            Ok(CreatureType { main_type, subtypes: Some(subtypes) })
        }
    }
}

impl vstd::std_specs::convert::TryFromSpecImpl<&str> for CreatureType {
    open spec fn obeys_try_from_spec() -> bool {
        false
    }

    open spec fn try_from_spec(v: &str) -> Result<CreatureType, Error> {
        arbitrary()
    }
}

/// Armor class: a number, optionally followed by a parenthesised list of
/// sources.
pub open spec fn armor_class_of(v: Seq<char>) -> Result<(u8, Option<Seq<Seq<char>>>), Failure> {
    match spec_split_once(v, " "@) {
        None => match spec_parse_unsigned(v, 255) {
            Ok(n) => Ok((n as u8, None)),
            Err(_) => Err(parse_failure_with(v, "Armor class"@, "Could not parse as u8"@)),
        },
        Some((ac, types)) => match spec_parse_unsigned(ac, 255) {
            Err(_) => Err(parse_failure_with(v, "Armor class"@, "Could not parse AC as u8"@)),
            Ok(n) => if !spec_starts_with(types, "("@) {
                Err(parse_failure_with(v, "Armor class"@, "No leading `(` found for armor type"@))
            } else if !spec_ends_with(types.drop_first(), ")"@) {
                Err(parse_failure_with(v, "Armor class"@, "No trailing `)` found for armor type"@))
            } else {
                Ok((n as u8, Some(spec_split(types.drop_first().drop_last(), ", "@))))
            },
        },
    }
}

pub open spec fn armor_class_view(a: ArmorClass) -> (u8, Option<Seq<Seq<char>>>) {
    (a.ac, opt_views(a.armor_type))
}

impl TryFrom<&str> for ArmorClass {
    type Error = Error;

    fn try_from(value: &str) -> (r: Result<ArmorClass, Error>)
        ensures
            outcome_by(r, |a: ArmorClass| armor_class_view(a)) == armor_class_of(value@),
    {
        proof {
            reveal_strlit(" ");
            reveal_strlit("(");
            reveal_strlit(")");
            reveal_strlit(", ");
        }
        match split_once(value, " ") {
            None => match parse_unsigned(value, 255) {
                Ok(n) => Ok(ArmorClass { ac: n as u8, armor_type: None }),
                Err(_) => Err(Error::Parse(ParseError::new_with_problem(value, "Armor class", "Could not parse as u8"))),
            },
            Some((ac, types)) => {
                let n = match parse_unsigned(ac.as_str(), 255) {
                    Ok(n) => n,
                    Err(_) => {
                        return Err(Error::Parse(ParseError::new_with_problem(value, "Armor class", "Could not parse AC as u8")));
                    },
                };
                let opened = match strip_prefix(types.as_str(), "(") {
                    Some(t) => t,
                    None => {
                        return Err(Error::Parse(ParseError::new_with_problem(value, "Armor class", "No leading `(` found for armor type")));
                    },
                };
                proof {
                    assert(opened@ =~= types@.drop_first());
                }
                let inner = match strip_suffix(opened.as_str(), ")") {
                    Some(t) => t,
                    None => {
                        return Err(Error::Parse(ParseError::new_with_problem(value, "Armor class", "No trailing `)` found for armor type")));
                    },
                };
                proof {
                    assert(inner@ =~= types@.drop_first().drop_last());
                }
                Ok(ArmorClass { ac: n as u8, armor_type: Some(split(inner.as_str(), ", ")) })
            },
        }
    }
}

impl vstd::std_specs::convert::TryFromSpecImpl<&str> for ArmorClass {
    open spec fn obeys_try_from_spec() -> bool {
        false
    }

    open spec fn try_from_spec(v: &str) -> Result<ArmorClass, Error> {
        arbitrary()
    }
}

/// The `<n>d<die>` part of a hit-dice formula; failures name the whole
/// formula `v`.
pub open spec fn dice_of(d: Seq<char>, v: Seq<char>) -> Result<(u8, u8), Failure> {
    match spec_split_once(d, "d"@) {
        None => Err(parse_failure_with(v, "Hit Points Formula"@, "No `d` found in die formula"@)),
        Some((a, b)) => match spec_parse_unsigned(a, 255) {
            Err(_) => Err(parse_failure_with(v, "Hit Points Formula"@, "Number of dice could not be parsed as u8"@)),
            Ok(x) => match spec_parse_unsigned(b, 255) {
                Err(_) => Err(parse_failure_with(v, "Hit Points Formula"@, "Die size could not be parsed as u8"@)),
                Ok(y) => Ok((x as u8, y as u8)),
            },
        },
    }
}

/// A parenthesised hit-dice formula `(<n>d<die> [+|-] <mod>)`; the modifier
/// is negated when the operator is `-`, and is 0 when there is none.
pub open spec fn hp_formula_of(v: Seq<char>) -> Result<HitPointsFormula, Failure> {
    let t = v.drop_first();
    let f = t.drop_last();
    let plus = spec_contains(f, "+"@);
    let sp = match spec_split_once(f, "+"@) {
        Some(p) => Some(p),
        None => spec_split_once(f, "-"@),
    };
    if !spec_starts_with(v, "("@) {
        Err(parse_failure_with(v, "Hit Points Formula"@, "No leading `(` found for hit points formula"@))
    } else if !spec_ends_with(t, ")"@) {
        Err(parse_failure_with(v, "Hit Points Formula"@, "No trailing `)` found for hit points formula"@))
    } else {
        match sp {
            None => match dice_of(f, v) {
                Ok((a, b)) => Ok(HitPointsFormula { number_of_dice: a, die_size: b, modifier: 0 }),
                Err(e) => Err(e),
            },
            Some((df, m)) => match dice_of(spec_trim(df), v) {
                Err(e) => Err(e),
                Ok((a, b)) => match spec_parse_signed(spec_trim(m), if plus { -32768 } else { -32767 }, 32767) {
                    Err(_) => Err(parse_failure_with(v, "Hit Points Formula"@, "Modifier could not be parsed as u8"@)),
                    Ok(x) => Ok(HitPointsFormula {
                        number_of_dice: a,
                        die_size: b,
                        modifier: (if plus { x } else { -x }) as i16,
                    }),
                },
            },
        }
    }
}

fn parse_dice(d: &str, value: &str) -> (r: Result<(u8, u8), Error>)
    ensures
        outcome(r) == dice_of(d@, value@),
{
    proof {
        reveal_strlit("d");
    }
    match split_once(d, "d") {
        None => Err(Error::Parse(ParseError::new_with_problem(value, "Hit Points Formula", "No `d` found in die formula"))),
        Some((a, b)) => match parse_unsigned(a.as_str(), 255) {
            Err(_) => Err(Error::Parse(ParseError::new_with_problem(value, "Hit Points Formula", "Number of dice could not be parsed as u8"))),
            Ok(x) => match parse_unsigned(b.as_str(), 255) {
                Err(_) => Err(Error::Parse(ParseError::new_with_problem(value, "Hit Points Formula", "Die size could not be parsed as u8"))),
                Ok(y) => Ok((x as u8, y as u8)),
            },
        },
    }
}

impl TryFrom<&str> for HitPointsFormula {
    type Error = Error;

    fn try_from(value: &str) -> (r: Result<HitPointsFormula, Error>)
        ensures
            outcome(r) == hp_formula_of(value@),
    {
        proof {
            reveal_strlit("(");
            reveal_strlit(")");
            reveal_strlit("+");
            reveal_strlit("-");
        }
        let opened = match strip_prefix(value, "(") {
            Some(t) => t,
            None => {
                return Err(Error::Parse(ParseError::new_with_problem(value, "Hit Points Formula", "No leading `(` found for hit points formula")));
            },
        };
        proof {
            assert(opened@ =~= value@.drop_first());
        }
        let formula = match strip_suffix(opened.as_str(), ")") {
            Some(t) => t,
            None => {
                return Err(Error::Parse(ParseError::new_with_problem(value, "Hit Points Formula", "No trailing `)` found for hit points formula")));
            },
        };
        proof {
            assert(formula@ =~= value@.drop_first().drop_last());
        }
        let plus = contains(formula.as_str(), "+");
        let sp = match split_once(formula.as_str(), "+") {
            Some(p) => Some(p),
            None => split_once(formula.as_str(), "-"),
        };
        match sp {
            None => {
                let (a, b) = parse_dice(formula.as_str(), value)?;
                Ok(HitPointsFormula { number_of_dice: a, die_size: b, modifier: 0 })
            },
            Some((df, m)) => {
                let dt = trim(df.as_str());
                let (a, b) = parse_dice(dt.as_str(), value)?;
                let mt = trim(m.as_str());
                let min: i64 = if plus { -32768 } else { -32767 };
                match parse_signed(mt.as_str(), min, 32767) {
                    Err(_) => Err(Error::Parse(ParseError::new_with_problem(value, "Hit Points Formula", "Modifier could not be parsed as u8"))),
                    Ok(x) => Ok(HitPointsFormula {
                        number_of_dice: a,
                        die_size: b,
                        modifier: if plus { x as i16 } else { (-x) as i16 },
                    }),
                }
            },
        }
    }
}

impl vstd::std_specs::convert::TryFromSpecImpl<&str> for HitPointsFormula {
    open spec fn obeys_try_from_spec() -> bool {
        false
    }

    open spec fn try_from_spec(v: &str) -> Result<HitPointsFormula, Error> {
        arbitrary()
    }
}

/// Hit points: `<average> <formula>`.
pub open spec fn hit_points_of(v: Seq<char>) -> Result<HitPoints, Failure> {
    match spec_split_once(v, " "@) {
        None => Err(parse_failure_with(v, "Hit Points"@, "No separating ` ` found"@)),
        Some((a, f)) => match spec_parse_unsigned(a, 65535) {
            Err(_) => Err(parse_failure_with(v, "Hit Points"@, "Could not parse average as u16"@)),
            Ok(n) => match hp_formula_of(f) {
                Ok(x) => Ok(HitPoints { average: n as u16, formula: x }),
                Err(e) => Err(e),
            },
        },
    }
}

impl TryFrom<&str> for HitPoints {
    type Error = Error;

    fn try_from(value: &str) -> (r: Result<HitPoints, Error>)
        ensures
            outcome(r) == hit_points_of(value@),
    {
        proof {
            reveal_strlit(" ");
        }
        match split_once(value, " ") {
            None => Err(Error::Parse(ParseError::new_with_problem(value, "Hit Points", "No separating ` ` found"))),
            Some((a, f)) => match parse_unsigned(a.as_str(), 65535) {
                Err(_) => Err(Error::Parse(ParseError::new_with_problem(value, "Hit Points", "Could not parse average as u16"))),
                Ok(n) => {
                    let formula = HitPointsFormula::try_from(f.as_str())?;
                    Ok(HitPoints { average: n as u16, formula })
                },
            },
        }
    }
}

impl vstd::std_specs::convert::TryFromSpecImpl<&str> for HitPoints {
    open spec fn obeys_try_from_spec() -> bool {
        false
    }

    open spec fn try_from_spec(v: &str) -> Result<HitPoints, Error> {
        arbitrary()
    }
}

/// A challenge rating word: one of the fractions "1/8", "1/4", "1/2", or a
/// whole number.
pub open spec fn challenge_rating_word(w: Seq<char>) -> Result<ChallengeRating, Failure> {
    if w == "1/8"@ {
        Ok(ChallengeRating::Eighth)
    } else if w == "1/4"@ {
        Ok(ChallengeRating::Quarter)
    } else if w == "1/2"@ {
        Ok(ChallengeRating::Half)
    } else {
        match spec_parse_unsigned(w, 255) {
            Ok(n) => Ok(ChallengeRating::WholeNumber(n as u8)),
            Err(k) => Err(parse_failure_with(w, "Challenge Rating"@, k.spec_message())),
        }
    }
}

impl TryFrom<&str> for ChallengeRating {
    type Error = Error;

    fn try_from(value: &str) -> (r: Result<ChallengeRating, Error>)
        ensures
            outcome(r) == challenge_rating_word(value@),
    {
        if crate::text::eq_str(value, "1/8") {
            Ok(ChallengeRating::Eighth)
        } else if crate::text::eq_str(value, "1/4") {
            Ok(ChallengeRating::Quarter)
        } else if crate::text::eq_str(value, "1/2") {
            Ok(ChallengeRating::Half)
        } else {
            match parse_unsigned(value, 255) {
                Ok(n) => Ok(ChallengeRating::WholeNumber(n as u8)),
                Err(k) => Err(Error::Parse(ParseError::from_intparse_error(value.to_owned(), "Challenge Rating".to_owned(), k))),
            }
        }
    }
}

impl vstd::std_specs::convert::TryFromSpecImpl<&str> for ChallengeRating {
    open spec fn obeys_try_from_spec() -> bool {
        false
    }

    open spec fn try_from_spec(v: &str) -> Result<ChallengeRating, Error> {
        arbitrary()
    }
}

/// The views of a sequence of string pairs.
pub open spec fn pair_views(v: Seq<(String, String)>) -> Seq<(Seq<char>, Seq<char>)> {
    v.map_values(|p: (String, String)| (p.0@, p.1@))
}

/// Each text trimmed.
pub open spec fn trim_all(ps: Seq<Seq<char>>) -> Seq<Seq<char>> {
    ps.map_values(|p: Seq<char>| spec_trim(p))
}

fn trim_each(v: &Vec<String>) -> (r: Vec<String>)
    ensures
        views(r@) == trim_all(views(v@)),
{
    let mut out: Vec<String> = Vec::new();
    let mut i: usize = 0;
    while i < v.len()
        invariant
            i <= v.len(),
            views(out@) =~= trim_all(views(v@).take(i as int)),
        decreases v.len() - i,
    {
        let t = trim(v[i].as_str());
        proof {
            assert(views(out@.push(t)) =~= views(out@).push(t@));
            assert(trim_all(views(v@).take(i + 1)) =~= trim_all(views(v@).take(i as int)).push(t@));
        }
        out.push(t);
        i += 1;
    }
    proof {
        assert(views(v@).take(i as int) =~= views(v@));
    }
    out
}

/// The value of the last pair whose label is `key`.
pub open spec fn last_value(pairs: Seq<(Seq<char>, Seq<char>)>, key: Seq<char>) -> Option<Seq<char>>
    decreases pairs.len(),
{
    if pairs.len() == 0 {
        None
    } else if pairs.last().0 == key {
        Some(pairs.last().1)
    } else {
        last_value(pairs.drop_last(), key)
    }
}

fn lookup(pairs: &Vec<(String, String)>, key: &str) -> (r: Option<String>)
    ensures
        crate::utils::error::opt_view(r) == last_value(pair_views(pairs@), key@),
{
    let mut j = pairs.len();
    assert(pair_views(pairs@).take(j as int) =~= pair_views(pairs@));
    while j > 0
        invariant
            j <= pairs.len(),
            last_value(pair_views(pairs@), key@) == last_value(pair_views(pairs@).take(j as int), key@),
        decreases j,
    {
        proof {
            assert(pair_views(pairs@).take(j as int).drop_last() =~= pair_views(pairs@).take(j - 1));
        }
        if crate::text::eq_str(pairs[j - 1].0.as_str(), key) {
            return Some(pairs[j - 1].1.clone());
        }
        j -= 1;
    }
    None
}

/// The labelled speeds after the walking speed: each part is
/// `<label> <value>`; the first part without a space fails.
pub open spec fn speed_pairs(parts: Seq<Seq<char>>) -> Result<Seq<(Seq<char>, Seq<char>)>, Failure>
    decreases parts.len(),
{
    if parts.len() == 0 {
        Ok(Seq::empty())
    } else {
        match speed_pairs(parts.drop_last()) {
            Err(e) => Err(e),
            Ok(prev) => match spec_split_once(parts.last(), " "@) {
                None => Err(parse_failure_with(parts.last(), "Speed types"@, "No separating ` ` found"@)),
                Some(p) => Ok(prev.push(p)),
            },
        }
    }
}

/// The speed labelled `key`, if present, as a number of feet.
pub open spec fn speed_value(pairs: Seq<(Seq<char>, Seq<char>)>, key: Seq<char>) -> Result<Option<u16>, Failure> {
    match last_value(pairs, key) {
        None => Ok(None),
        Some(s) => match spec_parse_unsigned(spec_trim(s), 65535) {
            Ok(n) => Ok(Some(n as u16)),
            Err(_) => Err(parse_failure_with(s, key + " speed"@, "Could not parse as u16"@)),
        },
    }
}

/// The flying speed: a plain number, or, when that fails, `<n> (hover)`.
pub open spec fn fly_of(pairs: Seq<(Seq<char>, Seq<char>)>) -> Result<Option<FlySpeed>, Failure> {
    match last_value(pairs, "fly"@) {
        None => Ok(None),
        Some(s) => match spec_parse_unsigned(spec_trim(s), 65535) {
            Ok(n) => Ok(Some(FlySpeed { speed: n as u16, hover: false })),
            Err(_) => match spec_split_once(s, " "@) {
                None => Err(parse_failure_with(s, "fly speed"@, "Could not parse as u16"@)),
                Some((sp, hv)) => if spec_contains(hv, "hover"@) {
                    match spec_parse_unsigned(sp, 65535) {
                        Ok(n) => Ok(Some(FlySpeed { speed: n as u16, hover: true })),
                        Err(_) => Err(parse_failure_with(sp, "flying speed"@, "Could not parse as u16"@)),
                    }
                } else {
                    Err(parse_failure_with(s, "flying speed"@, "Multiple words with no `hover`"@))
                },
            },
        },
    }
}

/// The comma-separated parts of a speed line with " ft." removed, trimmed.
pub open spec fn speed_parts(v: Seq<char>) -> Seq<Seq<char>> {
    trim_all(spec_split(spec_replace(v, " ft."@, ""@), ", "@))
}

/// A speed line: an unlabelled walking speed, then labelled speeds looked
/// up as fly, burrow, climb, crawl and swim.
pub open spec fn speed_of(v: Seq<char>) -> Result<Speed, Failure> {
    let parts = speed_parts(v);
    match spec_parse_unsigned(parts[0], 65535) {
        Err(_) => Err(parse_failure(v, "Walking speed"@)),
        Ok(w) => match speed_pairs(parts.drop_first()) {
            Err(e) => Err(e),
            Ok(pairs) => match fly_of(pairs) {
                Err(e) => Err(e),
                Ok(fly) => match speed_value(pairs, "burrow"@) {
                    Err(e) => Err(e),
                    Ok(burrow) => match speed_value(pairs, "climb"@) {
                        Err(e) => Err(e),
                        Ok(climb) => match speed_value(pairs, "crawl"@) {
                            Err(e) => Err(e),
                            Ok(crawl) => match speed_value(pairs, "swim"@) {
                                Err(e) => Err(e),
                                Ok(swim) => Ok(Speed { walk: w as u16, burrow, climb, crawl, fly, swim }),
                            },
                        },
                    },
                },
            },
        },
    }
}

fn labelled_pairs(parts: &Vec<String>) -> (r: Result<Vec<(String, String)>, Error>)
    ensures
        outcome_by(r, |v: Vec<(String, String)>| pair_views(v@)) == speed_pairs(views(parts@)),
{
    proof {
        reveal_strlit(" ");
    }
    let mut pairs: Vec<(String, String)> = Vec::new();
    let mut i: usize = 0;
    assert(views(parts@).take(0) =~= Seq::<Seq<char>>::empty());
    assert(pair_views(pairs@) =~= Seq::<(Seq<char>, Seq<char>)>::empty());
    while i < parts.len()
        invariant
            i <= parts.len(),
            speed_pairs(views(parts@).take(i as int)) == Ok::<Seq<(Seq<char>, Seq<char>)>, Failure>(pair_views(pairs@)),
        decreases parts.len() - i,
    {
        proof {
            assert(views(parts@).take(i + 1).drop_last() =~= views(parts@).take(i as int));
            assert(views(parts@).take(i + 1).last() == parts@[i as int]@);
        }
        match split_once(parts[i].as_str(), " ") {
            None => {
                proof {
                    lemma_speed_pairs_err(views(parts@), (i + 1) as nat);
                }
                return Err(Error::Parse(ParseError::new_with_problem(parts[i].as_str(), "Speed types", "No separating ` ` found")));
            },
            Some(p) => {
                proof {
                    assert(pair_views(pairs@.push(p)) =~= pair_views(pairs@).push((p.0@, p.1@)));
                }
                pairs.push(p);
            },
        }
        i += 1;
    }
    proof {
        assert(views(parts@).take(i as int) =~= views(parts@));
    }
    Ok(pairs)
}

/// A failure on a prefix is the failure of the whole.
proof fn lemma_speed_pairs_err(parts: Seq<Seq<char>>, n: nat)
    requires
        n <= parts.len(),
        speed_pairs(parts.take(n as int)) is Err,
    ensures
        speed_pairs(parts) == speed_pairs(parts.take(n as int)),
    decreases parts.len() - n,
{
    if n < parts.len() {
        assert(parts.take(n + 1 as int).drop_last() =~= parts.take(n as int));
        lemma_speed_pairs_err(parts, n + 1);
    } else {
        assert(parts.take(n as int) =~= parts);
    }
}

fn speed_value_exec(pairs: &Vec<(String, String)>, key: &str) -> (r: Result<Option<u16>, Error>)
    ensures
        outcome(r) == speed_value(pair_views(pairs@), key@),
{
    match lookup(pairs, key) {
        None => Ok(None),
        Some(s) => {
            let t = trim(s.as_str());
            match parse_unsigned(t.as_str(), 65535) {
                Ok(n) => Ok(Some(n as u16)),
                Err(_) => {
                    let mut step = key.to_owned();
                    step.append(" speed");
                    Err(Error::Parse(ParseError { string: s, parsing_step: step, problem: Some("Could not parse as u16".to_owned()) }))
                },
            }
        },
    }
}

fn fly_exec(pairs: &Vec<(String, String)>) -> (r: Result<Option<FlySpeed>, Error>)
    ensures
        outcome(r) == fly_of(pair_views(pairs@)),
{
    proof {
        reveal_strlit(" ");
    }
    match lookup(pairs, "fly") {
        None => Ok(None),
        Some(s) => {
            let t = trim(s.as_str());
            match parse_unsigned(t.as_str(), 65535) {
                Ok(n) => Ok(Some(FlySpeed { speed: n as u16, hover: false })),
                Err(_) => match split_once(s.as_str(), " ") {
                    None => Err(Error::Parse(ParseError::new_with_problem(s.as_str(), "fly speed", "Could not parse as u16"))),
                    Some((sp, hv)) => if contains(hv.as_str(), "hover") {
                        match parse_unsigned(sp.as_str(), 65535) {
                            Ok(n) => Ok(Some(FlySpeed { speed: n as u16, hover: true })),
                            Err(_) => Err(Error::Parse(ParseError::new_with_problem(sp.as_str(), "flying speed", "Could not parse as u16"))),
                        }
                    } else {
                        Err(Error::Parse(ParseError::new_with_problem(s.as_str(), "flying speed", "Multiple words with no `hover`")))
                    },
                },
            }
        },
    }
}

impl TryFrom<&str> for Speed {
    type Error = Error;

    fn try_from(value: &str) -> (r: Result<Speed, Error>)
        ensures
            outcome(r) == speed_of(value@),
    {
        proof {
            reveal_strlit(" ft.");
            reveal_strlit(", ");
        }
        let cleaned = replace(value, " ft.", "");
        let raw = split(cleaned.as_str(), ", ");
        let parts = trim_each(&raw);
        proof {
            crate::text::lemma_split_len(cleaned@, ", "@);
        }
        let walk = match parse_unsigned(parts[0].as_str(), 65535) {
            Ok(w) => w as u16,
            Err(_) => {
                return Err(Error::Parse(ParseError::new(value, "Walking speed")));
            },
        };
        let mut rest: Vec<String> = Vec::new();
        let mut i: usize = 1;
        while i < parts.len()
            invariant
                1 <= i <= parts.len(),
                views(rest@) =~= views(parts@).subrange(1, i as int),
            decreases parts.len() - i,
        {
            let p = parts[i].clone();
            proof {
                assert(views(rest@.push(p)) =~= views(rest@).push(p@));
            }
            rest.push(p);
            i += 1;
        }
        proof {
            assert(views(rest@) =~= speed_parts(value@).drop_first());
        }
        let pairs = labelled_pairs(&rest)?;
        let fly = fly_exec(&pairs)?;
        let burrow = speed_value_exec(&pairs, "burrow")?;
        let climb = speed_value_exec(&pairs, "climb")?;
        let crawl = speed_value_exec(&pairs, "crawl")?;
        let swim = speed_value_exec(&pairs, "swim")?;
        Ok(Speed { walk, burrow, climb, crawl, fly, swim })
    }
}

impl vstd::std_specs::convert::TryFromSpecImpl<&str> for Speed {
    open spec fn obeys_try_from_spec() -> bool {
        false
    }

    open spec fn try_from_spec(v: &str) -> Result<Speed, Error> {
        arbitrary()
    }
}

/// The views of a sequence of line groups.
pub open spec fn group_views(v: Seq<Vec<String>>) -> Seq<Seq<Seq<char>>> {
    v.map_values(|x: Vec<String>| views(x@))
}

/// A line of a stat block starts with the quoting marker.
pub open spec fn in_block(l: Seq<char>) -> bool {
    spec_starts_with(l, ">"@)
}

/// A stat-block line with its marker and surrounding white space removed.
pub open spec fn block_line(l: Seq<char>) -> Seq<char> {
    spec_trim(spec_replacen(l, ">"@, ""@, 1))
}

/// The stat blocks of a document's lines: each maximal run of quoted lines
/// is one group, cleaned line by line; other lines are dropped.
pub open spec fn stat_blocks_of(lines: Seq<Seq<char>>) -> Seq<Seq<Seq<char>>>
    decreases lines.len(),
{
    if lines.len() == 0 {
        Seq::empty()
    } else {
        let prev = stat_blocks_of(lines.drop_last());
        let l = lines.last();
        if !in_block(l) {
            prev
        } else if lines.len() >= 2 && in_block(lines[lines.len() - 2]) {
            prev.update(prev.len() - 1, prev.last().push(block_line(l)))
        } else {
            prev.push(seq![block_line(l)])
        }
    }
}

/// Splits a document into its stat blocks (the groups of a creature).
pub fn extract_stat_blocks(document: String) -> (r: Vec<Vec<String>>)
    ensures
        group_views(r@) == stat_blocks_of(spec_split(document@, "\n"@)),
{
    proof {
        reveal_strlit("\n");
        reveal_strlit(">");
    }
    let lines = split(document.as_str(), "\n");
    let ghost ls = views(lines@);
    let mut blocks: Vec<Vec<String>> = Vec::new();
    let mut current: Vec<String> = Vec::new();
    let mut prev_in = false;
    let mut i: usize = 0;
    assert(ls.take(0) =~= Seq::<Seq<char>>::empty());
    assert(group_views(blocks@) =~= Seq::<Seq<Seq<char>>>::empty());
    while i < lines.len()
        invariant
            i <= lines.len(),
            ls == views(lines@),
            prev_in == (i > 0 && in_block(ls[i - 1])),
            stat_blocks_of(ls.take(i as int)) == if prev_in {
                group_views(blocks@).push(views(current@))
            } else {
                group_views(blocks@)
            },
        decreases lines.len() - i,
    {
        let line = lines[i].as_str();
        proof {
            reveal_strlit(">");
            assert(ls.take(i + 1).drop_last() =~= ls.take(i as int));
            assert(ls.take(i + 1).last() == ls[i as int]);
            if i > 0 {
                assert(ls.take(i + 1)[i - 1] == ls[i - 1]);
            }
        }
        if crate::text::starts_with(line, ">") {
            let dropped = crate::text::replacen(line, ">", "", 1);
            let cleaned = trim(dropped.as_str());
            if prev_in {
                proof {
                    assert(views(current@.push(cleaned)) =~= views(current@).push(cleaned@));
                    assert(group_views(blocks@).push(views(current@)).update(
                        group_views(blocks@).len() as int,
                        views(current@).push(cleaned@),
                    ) =~= group_views(blocks@).push(views(current@).push(cleaned@)));
                }
                current.push(cleaned);
            } else {
                let mut fresh: Vec<String> = Vec::new();
                proof {
                    assert(views(fresh@.push(cleaned)) =~= seq![cleaned@]);
                }
                fresh.push(cleaned);
                current = fresh;
            }
            prev_in = true;
        } else {
            if prev_in {
                proof {
                    assert(group_views(blocks@.push(current)) =~= group_views(blocks@).push(
                        views(current@),
                    ));
                }
                blocks.push(current);
                current = Vec::new();
            }
            prev_in = false;
        }
        i += 1;
    }
    proof {
        assert(ls.take(i as int) =~= ls);
    }
    if prev_in {
        proof {
            assert(group_views(blocks@.push(current)) =~= group_views(blocks@).push(views(current@)));
        }
        blocks.push(current);
    }
    blocks
}

/// A labelled stat-block line `- **<Label>** <value>`: the label (lower
/// case, list marker dropped) and the trimmed value, split at the last `**`.
pub open spec fn clean_line_of(line: Seq<char>) -> Result<(Seq<char>, Seq<char>), Failure> {
    match spec_rsplit_once(line, "**"@) {
        Some((a, b)) => Ok((lower_of(spec_replacen(a, "- **"@, ""@, 1)), spec_trim(b))),
        None => Err(parse_failure(line, "Removing `**<line type def>**`"@)),
    }
}

pub fn clean_stat_block_line(line: &String) -> (r: Result<(String, String), Error>)
    ensures
        outcome_by(r, |p: (String, String)| (p.0@, p.1@)) == clean_line_of(line@),
{
    proof {
        reveal_strlit("- **");
    }
    match crate::text::rsplit_once(line.as_str(), "**") {
        Some((a, b)) => {
            let dropped = crate::text::replacen(a.as_str(), "- **", "", 1);
            Ok((lowercase(dropped.as_str()), trim(b.as_str())))
        },
        None => Err(Error::Parse(ParseError::new(line.as_str(), "Removing `**<line type def>**`"))),
    }
}

/// The identity group: a `## ` name line, then
/// `<size> <type>, <alignment>` (lower-cased, first two `*` dropped).
pub open spec fn first_group_of(g: Seq<Seq<char>>) -> Result<
    (Seq<char>, Size, (CreatureTypeEnum, Option<Seq<Seq<char>>>), Alignment),
    Failure,
> {
    if g.len() != 2 {
        Err(bounds_failure(g, (g.len() as u32) as int, "First group"@))
    } else if !spec_starts_with(g[0], "## "@) {
        Err(parse_failure_with(g[0], "Name"@, "Name line does not start with `## `"@))
    } else {
        let name = g[0].subrange(3, g[0].len() as int);
        let second = spec_replacen(lower_of(g[1]), "*"@, ""@, 2);
        let st = spec_splitn(second, ", "@, 2);
        if st.len() != 2 {
            Err(parse_failure_with(second, "Separating size and type from alignment"@, "No `, ` separation found."@))
        } else {
            match alignment_of(st[1]) {
                Err(e) => Err(e),
                Ok(al) => {
                    let sc = spec_splitn(st[0], " "@, 2);
                    if sc.len() != 2 {
                        Err(parse_failure_with(st[0], "Separating size and creature type"@, "Could not separate by ` `"@))
                    } else {
                        match lexicon_outcome(size_word(sc[0]), sc[0], "Size"@) {
                            Err(e) => Err(e),
                            Ok(size) => match creature_type_of(sc[1]) {
                                Err(e) => Err(e),
                                Ok(ct) => Ok((name, size, ct, al)),
                            },
                        }
                    }
                },
            }
        }
    }
}

pub fn parse_first_group(first_group: Vec<String>) -> (r: Result<(String, Size, CreatureType, Alignment), Error>)
    ensures
        outcome_by(r, |x: (String, Size, CreatureType, Alignment)| (x.0@, x.1, creature_type_view(x.2), x.3))
            == first_group_of(views(first_group@)),
{
    proof {
        reveal_strlit("## ");
        reveal_strlit("*");
        reveal_strlit(", ");
        reveal_strlit(" ");
    }
    if first_group.len() != 2 {
        let n = #[verifier::truncate] (first_group.len() as u32);
        return Err(Error::OutOfBounds(OutOfBoundsError::new(first_group, n, "First group")));
    }
    let name = match strip_prefix(first_group[0].as_str(), "## ") {
        Some(n) => n,
        None => {
            return Err(Error::Parse(ParseError::new_with_problem(first_group[0].as_str(), "Name", "Name line does not start with `## `")));
        },
    };
    let lower = lowercase(first_group[1].as_str());
    let second = crate::text::replacen(lower.as_str(), "*", "", 2);
    let st = splitn(second.as_str(), ", ", 2);
    if st.len() != 2 {
        return Err(Error::Parse(ParseError::new_with_problem(second.as_str(), "Separating size and type from alignment", "No `, ` separation found.")));
    }
    let alignment = Alignment::try_from(st[1].as_str())?;
    let sc = splitn(st[0].as_str(), " ", 2);
    if sc.len() != 2 {
        return Err(Error::Parse(ParseError::new_with_problem(st[0].as_str(), "Separating size and creature type", "Could not separate by ` `")));
    }
    let size = Size::try_from(sc[0].as_str())?;
    let creature_type = CreatureType::try_from(sc[1].as_str())?;
    Ok((name, size, creature_type, alignment))
}

/// The combat group: armor class, hit points and speed lines, each with its
/// label removed.
pub open spec fn second_group_of(g: Seq<Seq<char>>) -> Result<((u8, Option<Seq<Seq<char>>>), HitPoints, Speed), Failure> {
    if g.len() != 3 {
        Err(bounds_failure(g, (g.len() as u32) as int, "Second group parsing"@))
    } else {
        match clean_line_of(g[0]) {
            Err(e) => Err(e),
            Ok(ac_line) => match armor_class_of(ac_line.1) {
                Err(e) => Err(e),
                Ok(ac) => match clean_line_of(g[1]) {
                    Err(e) => Err(e),
                    Ok(hp_line) => match hit_points_of(hp_line.1) {
                        Err(e) => Err(e),
                        Ok(hp) => match clean_line_of(g[2]) {
                            Err(e) => Err(e),
                            Ok(speed_line) => match speed_of(speed_line.1) {
                                Err(e) => Err(e),
                                Ok(speed) => Ok((ac, hp, speed)),
                            },
                        },
                    },
                },
            },
        }
    }
}

pub fn parse_second_group(second_group: Vec<String>) -> (r: Result<(ArmorClass, HitPoints, Speed), Error>)
    ensures
        outcome_by(r, |x: (ArmorClass, HitPoints, Speed)| (armor_class_view(x.0), x.1, x.2))
            == second_group_of(views(second_group@)),
{
    if second_group.len() != 3 {
        let n = #[verifier::truncate] (second_group.len() as u32);
        return Err(Error::OutOfBounds(OutOfBoundsError::new(second_group, n, "Second group parsing")));
    }
    let (_, ac_text) = clean_stat_block_line(&second_group[0])?;
    let ac = ArmorClass::try_from(ac_text.as_str())?;
    let (_, hp_text) = clean_stat_block_line(&second_group[1])?;
    let hp = HitPoints::try_from(hp_text.as_str())?;
    let (_, speed_text) = clean_stat_block_line(&second_group[2])?;
    let speed = Speed::try_from(speed_text.as_str())?;
    Ok((ac, hp, speed))
}

/// A table row with its leading and trailing `|` removed.
pub open spec fn strip_bars_of(line: Seq<char>) -> Result<Seq<char>, Failure> {
    if !spec_starts_with(line, "|"@) {
        Err(parse_failure_with(line, "Ability scores"@, "No leading `|` found"@))
    } else if !spec_ends_with(line.drop_first(), "|"@) {
        Err(parse_failure_with(line, "Ability scores"@, "No trailing `|` found"@))
    } else {
        Ok(line.drop_first().drop_last())
    }
}

fn strip_bars(line: &String) -> (r: Result<String, Error>)
    ensures
        outcome_by(r, |s: String| s@) == strip_bars_of(line@),
{
    proof {
        reveal_strlit("|");
    }
    let opened = match strip_prefix(line.as_str(), "|") {
        Some(t) => t,
        None => {
            return Err(Error::Parse(ParseError::new_with_problem(line.as_str(), "Ability scores", "No leading `|` found")));
        },
    };
    proof {
        assert(opened@ =~= line@.drop_first());
    }
    match strip_suffix(opened.as_str(), "|") {
        Some(t) => {
            proof {
                assert(t@ =~= line@.drop_first().drop_last());
            }
            Ok(t)
        },
        None => Err(Error::Parse(ParseError::new_with_problem(line.as_str(), "Ability scores", "No trailing `|` found"))),
    }
}

/// A score cell `<score> (<modifier>)`: the score; the modifier is dropped.
pub open spec fn score_of(cell: Seq<char>) -> Result<u8, Failure> {
    match spec_split_once(cell, " "@) {
        None => Err(parse_failure_with(cell, "Ability scores"@, "Score should be formatted as `<score> (<modifier>)`"@)),
        Some((a, _)) => match spec_parse_unsigned(a, 255) {
            Ok(n) => Ok(n as u8),
            Err(_) => Err(parse_failure_with(cell, "Ability scores"@, "Score could not be parsed as u8"@)),
        },
    }
}

/// The first `n` header cells paired with their scores.
pub open spec fn score_pairs(headers: Seq<Seq<char>>, cells: Seq<Seq<char>>, n: nat) -> Result<Seq<(Seq<char>, u8)>, Failure>
    decreases n,
{
    if n == 0 {
        Ok(Seq::empty())
    } else {
        match score_pairs(headers, cells, (n - 1) as nat) {
            Err(e) => Err(e),
            Ok(p) => match score_of(cells[n - 1]) {
                Err(e) => Err(e),
                Ok(v) => Ok(p.push((headers[n - 1], v))),
            },
        }
    }
}

/// The score of the last pair whose header is `key`.
pub open spec fn last_score(pairs: Seq<(Seq<char>, u8)>, key: Seq<char>) -> Option<u8>
    decreases pairs.len(),
{
    if pairs.len() == 0 {
        None
    } else if pairs.last().0 == key {
        Some(pairs.last().1)
    } else {
        last_score(pairs.drop_last(), key)
    }
}

/// The headers of the pairs.
pub open spec fn score_keys(pairs: Seq<(Seq<char>, u8)>) -> Seq<Seq<char>> {
    pairs.map_values(|p: (Seq<char>, u8)| p.0)
}

/// One ability's score, looked up by its three-letter abbreviation.
pub open spec fn score_for(pairs: Seq<(Seq<char>, u8)>, key: Seq<char>) -> Result<u8, Failure> {
    match last_score(pairs, key) {
        Some(v) => Ok(v),
        None => Err(bounds_failure(score_keys(pairs), (pairs.len() as u32) as int, "Ability scores"@)),
    }
}

/// The six scores from the header/score pairs.
pub open spec fn scores_from(p: Seq<(Seq<char>, u8)>) -> Result<AbilityScores, Failure> {
    match score_for(p, "str"@) {
        Err(e) => Err(e),
        Ok(strength) => match score_for(p, "dex"@) {
            Err(e) => Err(e),
            Ok(dexterity) => match score_for(p, "con"@) {
                Err(e) => Err(e),
                Ok(constitution) => match score_for(p, "int"@) {
                    Err(e) => Err(e),
                    Ok(intelligence) => match score_for(p, "wis"@) {
                        Err(e) => Err(e),
                        Ok(wisdom) => match score_for(p, "cha"@) {
                            Err(e) => Err(e),
                            Ok(charisma) => Ok(AbilityScores {
                                strength,
                                dexterity,
                                constitution,
                                intelligence,
                                wisdom,
                                charisma,
                            }),
                        },
                    },
                },
            },
        },
    }
}

pub open spec fn min_nat(a: nat, b: nat) -> nat {
    if a < b {
        a
    } else {
        b
    }
}

/// The ability-score group: a header row, a separator row and a score
/// row, zipped cell by cell.
pub open spec fn third_group_of(g: Seq<Seq<char>>) -> Result<AbilityScores, Failure> {
    if g.len() != 3 {
        Err(bounds_failure(g, (g.len() as u32) as int, "Ability scores"@))
    } else {
        match strip_bars_of(g[0]) {
            Err(e) => Err(e),
            Ok(h) => match strip_bars_of(g[2]) {
                Err(e) => Err(e),
                Ok(sc) => {
                    let headers = spec_split(lower_of(h), "|"@);
                    let cells = spec_split(sc, "|"@);
                    match score_pairs(headers, cells, min_nat(headers.len(), cells.len())) {
                        Err(e) => Err(e),
                        Ok(p) => scores_from(p),
                    }
                },
            },
        }
    }
}

/// A failure on a prefix is the failure of the whole.
proof fn lemma_score_pairs_err(headers: Seq<Seq<char>>, cells: Seq<Seq<char>>, k: nat, n: nat)
    requires
        k <= n,
        score_pairs(headers, cells, k) is Err,
    ensures
        score_pairs(headers, cells, n) == score_pairs(headers, cells, k),
    decreases n - k,
{
    if k < n {
        lemma_score_pairs_err(headers, cells, k, (n - 1) as nat);
    }
}

fn score_for_exec(pairs: &Vec<(String, u8)>, key: &str) -> (r: Result<u8, Error>)
    ensures
        outcome(r) == score_for(score_views(pairs@), key@),
{
    let mut j = pairs.len();
    assert(score_views(pairs@).take(j as int) =~= score_views(pairs@));
    while j > 0
        invariant
            j <= pairs.len(),
            last_score(score_views(pairs@), key@) == last_score(score_views(pairs@).take(j as int), key@),
        decreases j,
    {
        proof {
            assert(score_views(pairs@).take(j as int).drop_last() =~= score_views(pairs@).take(j - 1));
        }
        if crate::text::eq_str(pairs[j - 1].0.as_str(), key) {
            return Ok(pairs[j - 1].1);
        }
        j -= 1;
    }
    let mut keys: Vec<String> = Vec::new();
    let mut i: usize = 0;
    while i < pairs.len()
        invariant
            i <= pairs.len(),
            views(keys@) =~= score_keys(score_views(pairs@)).take(i as int),
        decreases pairs.len() - i,
    {
        let k = pairs[i].0.clone();
        proof {
            assert(views(keys@.push(k)) =~= views(keys@).push(k@));
        }
        keys.push(k);
        i += 1;
    }
    proof {
        assert(score_keys(score_views(pairs@)).take(i as int) =~= score_keys(score_views(pairs@)));
    }
    let n = #[verifier::truncate] (pairs.len() as u32);
    Err(Error::OutOfBounds(OutOfBoundsError::new(keys, n, "Ability scores")))
}

pub open spec fn score_views(v: Seq<(String, u8)>) -> Seq<(Seq<char>, u8)> {
    v.map_values(|p: (String, u8)| (p.0@, p.1))
}

fn score_cell(cell: &str) -> (r: Result<u8, Error>)
    ensures
        outcome(r) == score_of(cell@),
{
    proof {
        reveal_strlit(" ");
    }
    match split_once(cell, " ") {
        None => Err(Error::Parse(ParseError::new_with_problem(cell, "Ability scores", "Score should be formatted as `<score> (<modifier>)`"))),
        Some((a, _)) => match parse_unsigned(a.as_str(), 255) {
            Ok(n) => Ok(n as u8),
            Err(_) => Err(Error::Parse(ParseError::new_with_problem(cell, "Ability scores", "Score could not be parsed as u8"))),
        },
    }
}

pub fn parse_third_group(third_group: Vec<String>) -> (r: Result<AbilityScores, Error>)
    ensures
        outcome(r) == third_group_of(views(third_group@)),
{
    proof {
        reveal_strlit("|");
    }
    if third_group.len() != 3 {
        let n = #[verifier::truncate] (third_group.len() as u32);
        return Err(Error::OutOfBounds(OutOfBoundsError::new(third_group, n, "Ability scores")));
    }
    let h = strip_bars(&third_group[0])?;
    let sc = strip_bars(&third_group[2])?;
    let lower = lowercase(h.as_str());
    let headers = split(lower.as_str(), "|");
    let cells = split(sc.as_str(), "|");
    let n = if headers.len() < cells.len() {
        headers.len()
    } else {
        cells.len()
    };
    let ghost hs = views(headers@);
    let ghost cs = views(cells@);
    let mut pairs: Vec<(String, u8)> = Vec::new();
    let mut i: usize = 0;
    assert(score_views(pairs@) =~= Seq::<(Seq<char>, u8)>::empty());
    assert(third_group_of(views(third_group@)) == match score_pairs(hs, cs, n as nat) {
        Err(e) => Err(e),
        Ok(p) => scores_from(p),
    });
    while i < n
        invariant
            third_group_of(views(third_group@)) == match score_pairs(hs, cs, n as nat) {
                Err(e) => Err(e),
                Ok(p) => scores_from(p),
            },
            i <= n,
            n <= headers.len(),
            n <= cells.len(),
            hs == views(headers@),
            cs == views(cells@),
            score_pairs(hs, cs, i as nat) == Ok::<Seq<(Seq<char>, u8)>, Failure>(score_views(pairs@)),
        decreases n - i,
    {
        proof {
            assert(cs[i as int] == cells@[i as int]@);
            assert(hs[i as int] == headers@[i as int]@);
        }
        match score_cell(cells[i].as_str()) {
            Err(e) => {
                proof {
                    assert(score_of(cs[i as int]) == Err::<u8, Failure>(e.failure()));
                    assert(score_pairs(hs, cs, (i + 1) as nat) == Err::<Seq<(Seq<char>, u8)>, Failure>(e.failure()));
                    lemma_score_pairs_err(hs, cs, (i + 1) as nat, n as nat);
                }
                return Err(e);
            },
            Ok(v) => {
                let k = headers[i].clone();
                proof {
                    assert(score_views(pairs@.push((k, v))) =~= score_views(pairs@).push((k@, v)));
                }
                pairs.push((k, v));
            },
        }
        i += 1;
    }
    let strength = score_for_exec(&pairs, "str")?;
    let dexterity = score_for_exec(&pairs, "dex")?;
    let constitution = score_for_exec(&pairs, "con")?;
    let intelligence = score_for_exec(&pairs, "int")?;
    let wisdom = score_for_exec(&pairs, "wis")?;
    let charisma = score_for_exec(&pairs, "cha")?;
    Ok(AbilityScores { strength, dexterity, constitution, intelligence, wisdom, charisma })
}

/// `<ability> <±n>`, the ability abbreviated in lower case.
pub open spec fn save_entry_of(s: Seq<char>) -> Result<(AbilityScore, i8), Failure> {
    match spec_split_once(s, " "@) {
        None => Err(parse_failure(s, "Saving throws"@)),
        Some((a, m)) => match lexicon_outcome(ability_score_word(a), a, "Ability score"@) {
            Err(e) => Err(e),
            Ok(ab) => match spec_parse_signed(m, -128, 127) {
                Ok(v) => Ok((ab, v as i8)),
                Err(k) => Err(parse_failure_with(m, "Saving_throws"@, k.spec_message())),
            },
        },
    }
}

pub open spec fn save_entry_fn() -> spec_fn(Seq<char>) -> Result<(AbilityScore, i8), Failure> {
    |s: Seq<char>| save_entry_of(s)
}

/// `<skill> <±n>`, the skill in lower case.
pub open spec fn skill_entry_of(s: Seq<char>) -> Result<(Skill, i8), Failure> {
    match spec_split_once(s, " "@) {
        None => Err(parse_failure(s, "Skills"@)),
        Some((a, m)) => match lexicon_outcome(skill_word(a), a, "Skill"@) {
            Err(e) => Err(e),
            Ok(sk) => match spec_parse_signed(m, -128, 127) {
                Ok(v) => Ok((sk, v as i8)),
                Err(k) => Err(parse_failure_with(m, "Skills"@, k.spec_message())),
            },
        },
    }
}

pub open spec fn skill_entry_fn() -> spec_fn(Seq<char>) -> Result<(Skill, i8), Failure> {
    |s: Seq<char>| skill_entry_of(s)
}

fn modifier_of(m: &str, step: &str) -> (r: Result<i8, Error>)
    ensures
        outcome(r) == match spec_parse_signed(m@, -128, 127) {
            Ok(v) => Ok(v as i8),
            Err(k) => Err(parse_failure_with(m@, step@, k.spec_message())),
        },
{
    match parse_signed(m, -128, 127) {
        Ok(v) => Ok(v as i8),
        Err(k) => Err(Error::Parse(ParseError::from_intparse_error(m.to_owned(), step.to_owned(), k))),
    }
}

/// Saving-throw modifiers: comma-separated `<abbr> <±n>` pairs, in the order
/// of the text; a later pair for the same ability overrides an earlier one.
pub fn parse_saving_throws(saving_throws_line: &str) -> (r: Result<Vec<(AbilityScore, i8)>, Error>)
    ensures
        outcome_by(r, |v: Vec<(AbilityScore, i8)>| v@) == collect_all(
            spec_split(lower_of(saving_throws_line@), ", "@),
            save_entry_fn(),
        ),
{
    proof {
        reveal_strlit(", ");
    }
    let lower = lowercase(saving_throws_line);
    let parts = split(lower.as_str(), ", ");
    let ghost ps = views(parts@);
    let mut out: Vec<(AbilityScore, i8)> = Vec::new();
    let mut i: usize = 0;
    assert(ps.take(0) =~= Seq::<Seq<char>>::empty());
    while i < parts.len()
        invariant
            i <= parts.len(),
            ps == views(parts@),
            ps == spec_split(lower_of(saving_throws_line@), ", "@),
            collect_all(ps.take(i as int), save_entry_fn()) == Ok::<Seq<(AbilityScore, i8)>, Failure>(out@),
        decreases parts.len() - i,
    {
        proof {
            reveal_strlit(" ");
            crate::utils::error::lemma_collect_step(ps, save_entry_fn(), i as nat);
            assert(ps[i as int] == parts@[i as int]@);
        }
        let s = parts[i].as_str();
        let entry = match split_once(s, " ") {
            None => Err(Error::Parse(ParseError::new(s, "Saving throws"))),
            Some((a, m)) => match AbilityScore::try_from(a.as_str()) {
                Err(e) => Err(e),
                Ok(ab) => match modifier_of(m.as_str(), "Saving_throws") {
                    Err(e) => Err(e),
                    Ok(v) => Ok((ab, v)),
                },
            },
        };
        proof {
            assert(save_entry_fn()(ps[i as int]) == save_entry_of(ps[i as int]));
            assert(outcome(entry) == save_entry_of(ps[i as int]));
        }
        match entry {
            Err(e) => {
                proof {
                    crate::utils::error::lemma_collect_err(ps, save_entry_fn(), (i + 1) as nat);
                }
                return Err(e);
            },
            Ok(x) => {
                out.push(x);
            },
        }
        i += 1;
    }
    proof {
        assert(ps.take(i as int) =~= ps);
    }
    Ok(out)
}

/// Skill modifiers: comma-separated `<skill> <±n>` pairs, in the order of
/// the text; a later pair for the same skill overrides an earlier one.
pub fn parse_skills(skills_line: &str) -> (r: Result<Vec<(Skill, i8)>, Error>)
    ensures
        outcome_by(r, |v: Vec<(Skill, i8)>| v@) == collect_all(
            spec_split(lower_of(skills_line@), ", "@),
            skill_entry_fn(),
        ),
{
    proof {
        reveal_strlit(", ");
    }
    let lower = lowercase(skills_line);
    let parts = split(lower.as_str(), ", ");
    let ghost ps = views(parts@);
    let mut out: Vec<(Skill, i8)> = Vec::new();
    let mut i: usize = 0;
    assert(ps.take(0) =~= Seq::<Seq<char>>::empty());
    while i < parts.len()
        invariant
            i <= parts.len(),
            ps == views(parts@),
            ps == spec_split(lower_of(skills_line@), ", "@),
            collect_all(ps.take(i as int), skill_entry_fn()) == Ok::<Seq<(Skill, i8)>, Failure>(out@),
        decreases parts.len() - i,
    {
        proof {
            reveal_strlit(" ");
            crate::utils::error::lemma_collect_step(ps, skill_entry_fn(), i as nat);
            assert(ps[i as int] == parts@[i as int]@);
        }
        let s = parts[i].as_str();
        let entry = match split_once(s, " ") {
            None => Err(Error::Parse(ParseError::new(s, "Skills"))),
            Some((a, m)) => match Skill::try_from(a.as_str()) {
                Err(e) => Err(e),
                Ok(sk) => match modifier_of(m.as_str(), "Skills") {
                    Err(e) => Err(e),
                    Ok(v) => Ok((sk, v)),
                },
            },
        };
        proof {
            assert(skill_entry_fn()(ps[i as int]) == skill_entry_of(ps[i as int]));
            assert(outcome(entry) == skill_entry_of(ps[i as int]));
        }
        match entry {
            Err(e) => {
                proof {
                    crate::utils::error::lemma_collect_err(ps, skill_entry_fn(), (i + 1) as nat);
                }
                return Err(e);
            },
            Ok(x) => {
                out.push(x);
            },
        }
        i += 1;
    }
    proof {
        assert(ps.take(i as int) =~= ps);
    }
    Ok(out)
}

pub open spec fn condition_fn() -> spec_fn(Seq<char>) -> Result<StatusCondition, Failure> {
    |w: Seq<char>| lexicon_outcome(status_condition_word(w), w, "Status Condition"@)
}

/// Condition immunities: a comma-separated list of status conditions.
pub fn parse_condition_immunities(condition_immunities_line: &str) -> (r: Result<Vec<StatusCondition>, Error>)
    ensures
        outcome_by(r, |v: Vec<StatusCondition>| v@) == collect_all(
            spec_split(lower_of(condition_immunities_line@), ", "@),
            condition_fn(),
        ),
{
    proof {
        reveal_strlit(", ");
    }
    let lower = lowercase(condition_immunities_line);
    let parts = split(lower.as_str(), ", ");
    let ghost ps = views(parts@);
    let mut out: Vec<StatusCondition> = Vec::new();
    let mut i: usize = 0;
    assert(ps.take(0) =~= Seq::<Seq<char>>::empty());
    while i < parts.len()
        invariant
            i <= parts.len(),
            ps == views(parts@),
            ps == spec_split(lower_of(condition_immunities_line@), ", "@),
            collect_all(ps.take(i as int), condition_fn()) == Ok::<Seq<StatusCondition>, Failure>(out@),
        decreases parts.len() - i,
    {
        proof {
            crate::utils::error::lemma_collect_step(ps, condition_fn(), i as nat);
            assert(ps[i as int] == parts@[i as int]@);
        }
        let entry = StatusCondition::try_from(parts[i].as_str());
        proof {
            assert(condition_fn()(ps[i as int]) == outcome(entry));
        }
        match entry {
            Err(e) => {
                proof {
                    crate::utils::error::lemma_collect_err(ps, condition_fn(), (i + 1) as nat);
                }
                return Err(e);
            },
            Ok(x) => {
                out.push(x);
            },
        }
        i += 1;
    }
    proof {
        assert(ps.take(i as int) =~= ps);
    }
    Ok(out)
}

/// The passive perception named by a sense, if it is one.
pub open spec fn passive_of(s: Seq<char>) -> Option<u8> {
    let l = lower_of(s);
    if spec_starts_with(l, "passive perception "@) {
        match spec_parse_unsigned(l.subrange(19, l.len() as int), 255) {
            Ok(v) => Some(v as u8),
            Err(_) => None,
        }
    } else {
        None
    }
}

/// The senses from index `j` on, scanned from the right: the first passive
/// perception found is taken out, every other part is kept, in the order
/// scanned.
pub open spec fn senses_scan(parts: Seq<Seq<char>>, j: int) -> (Option<u8>, Seq<Seq<char>>)
    decreases parts.len() - j,
{
    if j < 0 || j >= parts.len() {
        (None, Seq::empty())
    } else {
        let (pp, senses) = senses_scan(parts, j + 1);
        if pp is Some {
            (pp, senses.push(parts[j]))
        } else {
            match passive_of(parts[j]) {
                Some(v) => (Some(v), senses),
                None => (None, senses.push(parts[j])),
            }
        }
    }
}

/// The senses line: the passive perception and the other senses.
pub open spec fn senses_of(line: Seq<char>) -> Result<(u8, Seq<Seq<char>>), Failure> {
    let (pp, senses) = senses_scan(spec_split(line, ", "@), 0);
    match pp {
        Some(v) => Ok((v, senses)),
        None => Err(parse_failure_with(line, "Senses"@, "No passive perception found"@)),
    }
}

fn passive_exec(s: &str) -> (r: Option<u8>)
    ensures
        r == passive_of(s@),
{
    proof {
        reveal_strlit("passive perception ");
    }
    let l = lowercase(s);
    match strip_prefix(l.as_str(), "passive perception ") {
        Some(n) => match parse_unsigned(n.as_str(), 255) {
            Ok(v) => Some(v as u8),
            Err(_) => None,
        },
        None => None,
    }
}

pub fn parse_senses(senses_line: &str) -> (r: Result<(u8, Vec<String>), Error>)
    ensures
        outcome_by(r, |x: (u8, Vec<String>)| (x.0, views(x.1@))) == senses_of(senses_line@),
{
    proof {
        reveal_strlit(", ");
    }
    let parts = split(senses_line, ", ");
    let ghost ps = views(parts@);
    let mut pp: Option<u8> = None;
    let mut senses: Vec<String> = Vec::new();
    let mut j = parts.len();
    assert(views(senses@) =~= Seq::<Seq<char>>::empty());
    while j > 0
        invariant
            j <= parts.len(),
            ps == views(parts@),
            senses_scan(ps, j as int) == (pp, views(senses@)),
        decreases j,
    {
        let k = j - 1;
        proof {
            assert(ps[k as int] == parts@[k as int]@);
        }
        let s = parts[k].clone();
        proof {
            assert(views(senses@.push(s)) =~= views(senses@).push(s@));
        }
        if pp.is_some() {
            senses.push(s);
        } else {
            let found = passive_exec(s.as_str());
            if found.is_some() {
                pp = found;
            } else {
                senses.push(s);
            }
        }
        j = k;
    }
    match pp {
        Some(v) => Ok((v, senses)),
        None => Err(Error::Parse(ParseError::new_with_problem(senses_line, "Senses", "No passive perception found"))),
    }
}

/// Languages: the comma-separated parts of the line.
pub fn parse_languages(languages_line: &str) -> (r: Result<Vec<String>, Error>)
    ensures
        r matches Ok(v) && views(v@) == spec_split(languages_line@, ", "@),
{
    proof {
        reveal_strlit(", ");
    }
    Ok(split(languages_line, ", "))
}

/// The challenge line: the rating is its first word.
pub open spec fn challenge_line_of(line: Seq<char>) -> Result<ChallengeRating, Failure> {
    match spec_split_once(line, " "@) {
        None => Err(parse_failure_with(line, "Challenge Rating"@, "No separating ` ` found"@)),
        Some((w, _)) => challenge_rating_word(w),
    }
}

pub fn parse_challenge_rating(challenge_rating_line: &str) -> (r: Result<ChallengeRating, Error>)
    ensures
        outcome(r) == challenge_line_of(challenge_rating_line@),
{
    proof {
        reveal_strlit(" ");
    }
    match split_once(challenge_rating_line, " ") {
        None => Err(Error::Parse(ParseError::new_with_problem(challenge_rating_line, "Challenge Rating", "No separating ` ` found"))),
        Some((w, _)) => ChallengeRating::try_from(w.as_str()),
    }
}

pub open spec fn damage_type_fn() -> spec_fn(Seq<char>) -> Result<DamageType, Failure> {
    |w: Seq<char>| lexicon_outcome(damage_type_word(w), w, "DamageType"@)
}

pub open spec fn unconditional_fn() -> spec_fn(Seq<char>) -> Result<DamageModifierView, Failure> {
    |w: Seq<char>|
        match lexicon_outcome(damage_type_word(w), w, "DamageType"@) {
            Ok(d) => Ok(DamageModifierView::Unconditional(d)),
            Err(e) => Err(e),
        }
}

/// Unconditional entries: comma-separated damage types.
pub open spec fn unconditional_of(s: Seq<char>) -> Result<Seq<DamageModifierView>, Failure> {
    collect_all(trim_all(spec_split(s, ", "@)), unconditional_fn())
}

/// A conditional clause: the longest leading run of comma-separated damage
/// types (an "and " dropped), then the condition; when no type leads, the
/// clause is the condition and every damage type is modified.
pub open spec fn conditional_of(mt: DamageModifierType, c: Seq<char>) -> Result<DamageModifierView, Failure> {
    let cr = spec_replacen(c, "and "@, ""@, 1);
    if spec_contains(cr, ", "@) {
        match spec_rsplit_once(cr, ", "@) {
            None => Err(parse_failure_with(cr, "Damage modifier"@, "No `, ` found"@)),
            Some((ts, cwl)) => match spec_split_once(cwl, " "@) {
                None => Err(parse_failure_with(cwl, "Damage modifier"@, "Conditional without condition"@)),
                Some((last, cond)) => match collect_all(trim_all(spec_split(ts, ", "@).push(last)), damage_type_fn()) {
                    Err(e) => Err(e),
                    Ok(types) => Ok(DamageModifierView::Conditional { modifier_type: mt, damage_types: types, condition: cond }),
                },
            },
        }
    } else {
        match spec_split_once(cr, " "@) {
            None => Err(parse_failure_with(c, "Damage modifier"@, "Conditional without condition"@)),
            Some((d, cond)) => match damage_type_word(d) {
                Some(dt) => Ok(DamageModifierView::Conditional { modifier_type: mt, damage_types: seq![dt], condition: cond }),
                None => Ok(DamageModifierView::Conditional {
                    modifier_type: mt,
                    damage_types: spec_all_damage_types(),
                    condition: c,
                }),
            },
        }
    }
}

/// A damage-modifier line (lower-cased): one clause, conditional iff it
/// mentions "from" or "attack"; or an unconditional clause and a
/// conditional one separated by `;`.
pub open spec fn damage_modifier_of(mt: DamageModifierType, line: Seq<char>) -> Result<Seq<DamageModifierView>, Failure> {
    let parts = spec_split(lower_of(line), ";"@);
    if parts.len() == 1 {
        if spec_contains(parts[0], "from"@) || spec_contains(parts[0], "attack"@) {
            match conditional_of(mt, parts[0]) {
                Ok(c) => Ok(seq![c]),
                Err(e) => Err(e),
            }
        } else {
            unconditional_of(parts[0])
        }
    } else if parts.len() == 2 {
        match conditional_of(mt, parts[1]) {
            Err(e) => Err(e),
            Ok(c) => match unconditional_of(parts[0]) {
                Err(e) => Err(e),
                Ok(u) => Ok(u.push(c)),
            },
        }
    } else {
        Err(parse_failure_with(line, "Damage Modifier"@, "More than 2 types of modifiers"@))
    }
}

fn damage_type_exact(w: &str) -> (r: Result<DamageType, Error>)
    ensures
        outcome(r) == damage_type_fn()(w@),
{
    match DamageType::from_word(w) {
        Some(d) => Ok(d),
        None => Err(Error::Parse(ParseError::new(w, "DamageType"))),
    }
}

fn damage_types_exec(parts: &Vec<String>) -> (r: Result<Vec<DamageType>, Error>)
    ensures
        outcome_by(r, |v: Vec<DamageType>| v@) == collect_all(views(parts@), damage_type_fn()),
{
    let ghost ps = views(parts@);
    let mut out: Vec<DamageType> = Vec::new();
    let mut i: usize = 0;
    assert(ps.take(0) =~= Seq::<Seq<char>>::empty());
    while i < parts.len()
        invariant
            i <= parts.len(),
            ps == views(parts@),
            collect_all(ps.take(i as int), damage_type_fn()) == Ok::<Seq<DamageType>, Failure>(out@),
        decreases parts.len() - i,
    {
        proof {
            crate::utils::error::lemma_collect_step(ps, damage_type_fn(), i as nat);
            assert(ps[i as int] == parts@[i as int]@);
        }
        match damage_type_exact(parts[i].as_str()) {
            Err(e) => {
                proof {
                    crate::utils::error::lemma_collect_err(ps, damage_type_fn(), (i + 1) as nat);
                }
                return Err(e);
            },
            Ok(d) => {
                out.push(d);
            },
        }
        i += 1;
    }
    proof {
        assert(ps.take(i as int) =~= ps);
    }
    Ok(out)
}

fn unconditional_exec(s: &str) -> (r: Result<Vec<DamageModifier>, Error>)
    ensures
        outcome_by(r, |v: Vec<DamageModifier>| modifier_views(v@)) == unconditional_of(s@),
{
    proof {
        reveal_strlit(", ");
    }
    let raw = split(s, ", ");
    let parts = trim_each(&raw);
    let ghost ps = views(parts@);
    let mut out: Vec<DamageModifier> = Vec::new();
    let mut i: usize = 0;
    assert(ps.take(0) =~= Seq::<Seq<char>>::empty());
    assert(modifier_views(out@) =~= Seq::<DamageModifierView>::empty());
    while i < parts.len()
        invariant
            i <= parts.len(),
            ps == views(parts@),
            ps == trim_all(spec_split(s@, ", "@)),
            collect_all(ps.take(i as int), unconditional_fn()) == Ok::<Seq<DamageModifierView>, Failure>(modifier_views(out@)),
        decreases parts.len() - i,
    {
        proof {
            crate::utils::error::lemma_collect_step(ps, unconditional_fn(), i as nat);
            assert(ps[i as int] == parts@[i as int]@);
        }
        match damage_type_exact(parts[i].as_str()) {
            Err(e) => {
                proof {
                    crate::utils::error::lemma_collect_err(ps, unconditional_fn(), (i + 1) as nat);
                }
                return Err(e);
            },
            Ok(d) => {
                let m = DamageModifier::Unconditional(d);
                proof {
                    assert(modifier_views(out@.push(m)) =~= modifier_views(out@).push(m.view_of()));
                }
                out.push(m);
            },
        }
        i += 1;
    }
    proof {
        assert(ps.take(i as int) =~= ps);
    }
    Ok(out)
}

fn conditional_exec(mt: DamageModifierType, c: &str) -> (r: Result<DamageModifier, Error>)
    ensures
        outcome_by(r, |m: DamageModifier| m.view_of()) == conditional_of(mt, c@),
{
    proof {
        reveal_strlit("and ");
        reveal_strlit(", ");
        reveal_strlit(" ");
    }
    let cr = crate::text::replacen(c, "and ", "", 1);
    if contains(cr.as_str(), ", ") {
        match crate::text::rsplit_once(cr.as_str(), ", ") {
            None => Err(Error::Parse(ParseError::new_with_problem(cr.as_str(), "Damage modifier", "No `, ` found"))),
            Some((ts, cwl)) => match split_once(cwl.as_str(), " ") {
                None => Err(Error::Parse(ParseError::new_with_problem(cwl.as_str(), "Damage modifier", "Conditional without condition"))),
                Some((last, cond)) => {
                    let mut raw = split(ts.as_str(), ", ");
                    let ghost before = views(raw@);
                    raw.push(last);
                    proof {
                        assert(views(raw@) =~= before.push(last@));
                    }
                    let parts = trim_each(&raw);
                    let types = damage_types_exec(&parts)?;
                    Ok(DamageModifier::Conditional(ConditionalDamageModifier { modifier_type: mt, damage_types: types, condition: cond }))
                },
            },
        }
    } else {
        match split_once(cr.as_str(), " ") {
            None => Err(Error::Parse(ParseError::new_with_problem(c, "Damage modifier", "Conditional without condition"))),
            Some((d, cond)) => match DamageType::from_word(d.as_str()) {
                Some(dt) => {
                    let mut types: Vec<DamageType> = Vec::new();
                    types.push(dt);
                    proof {
                        assert(types@ =~= seq![dt]);
                    }
                    Ok(DamageModifier::Conditional(ConditionalDamageModifier { modifier_type: mt, damage_types: types, condition: cond }))
                },
                None => Ok(DamageModifier::Conditional(ConditionalDamageModifier {
                    modifier_type: mt,
                    damage_types: all_damage_types(),
                    condition: c.to_owned(),
                })),
            },
        }
    }
}

/// A resistance, immunity or vulnerability line.
pub fn parse_damage_modifier(modifier_type: DamageModifierType, damage_modifier_line: &str) -> (r: Result<Vec<DamageModifier>, Error>)
    ensures
        outcome_by(r, |v: Vec<DamageModifier>| modifier_views(v@)) == damage_modifier_of(modifier_type, damage_modifier_line@),
{
    proof {
        reveal_strlit(";");
    }
    let lower = lowercase(damage_modifier_line);
    let parts = split(lower.as_str(), ";");
    if parts.len() == 1 {
        if contains(parts[0].as_str(), "from") || contains(parts[0].as_str(), "attack") {
            let c = conditional_exec(modifier_type, parts[0].as_str())?;
            let mut out: Vec<DamageModifier> = Vec::new();
            out.push(c);
            proof {
                assert(modifier_views(out@) =~= seq![c.view_of()]);
            }
            Ok(out)
        } else {
            unconditional_exec(parts[0].as_str())
        }
    } else if parts.len() == 2 {
        let c = conditional_exec(modifier_type, parts[1].as_str())?;
        let mut out = unconditional_exec(parts[0].as_str())?;
        proof {
            assert(modifier_views(out@.push(c)) =~= modifier_views(out@).push(c.view_of()));
        }
        out.push(c);
        Ok(out)
    } else {
        Err(Error::Parse(ParseError::new_with_problem(damage_modifier_line, "Damage Modifier", "More than 2 types of modifiers")))
    }
}

/// The labelled lines of a traits group, as label and value.
pub open spec fn collect_all_pairs(g: Seq<Seq<char>>) -> Seq<(Seq<char>, Seq<char>)> {
    match collect_all(g, clean_line_fn()) {
        Ok(p) => p,
        Err(_) => Seq::empty(),
    }
}

pub open spec fn clean_line_fn() -> spec_fn(Seq<char>) -> Result<(Seq<char>, Seq<char>), Failure> {
    |l: Seq<char>| clean_line_of(l)
}

/// The field labelled `key`, parsed by `f`, if the group has it.
pub open spec fn optional_field<T>(
    pairs: Seq<(Seq<char>, Seq<char>)>,
    key: Seq<char>,
    f: spec_fn(Seq<char>) -> Result<T, Failure>,
) -> Result<Option<T>, Failure> {
    match last_value(pairs, key) {
        None => Ok(None),
        Some(v) => match f(v) {
            Ok(x) => Ok(Some(x)),
            Err(e) => Err(e),
        },
    }
}

/// The values of the traits group, over views.
pub type FourthGroupView = (
    Option<Seq<(AbilityScore, i8)>>,
    Option<Seq<(Skill, i8)>>,
    Option<Seq<DamageModifierView>>,
    Option<Seq<DamageModifierView>>,
    Option<Seq<DamageModifierView>>,
    Option<Seq<StatusCondition>>,
    Seq<Seq<char>>,
    u8,
    Seq<Seq<char>>,
    ChallengeRating,
);

/// The values of the traits group.
pub type FourthGroup = (
    Option<Vec<(AbilityScore, i8)>>,
    Option<Vec<(Skill, i8)>>,
    Option<Vec<DamageModifier>>,
    Option<Vec<DamageModifier>>,
    Option<Vec<DamageModifier>>,
    Option<Vec<StatusCondition>>,
    Vec<String>,
    u8,
    Vec<String>,
    ChallengeRating,
);

pub open spec fn opt_modifier_views(o: Option<Vec<DamageModifier>>) -> Option<Seq<DamageModifierView>> {
    match o {
        Some(v) => Some(modifier_views(v@)),
        None => None,
    }
}

pub open spec fn opt_seq<T>(o: Option<Vec<T>>) -> Option<Seq<T>> {
    match o {
        Some(v) => Some(v@),
        None => None,
    }
}

pub open spec fn fourth_view(x: FourthGroup) -> FourthGroupView {
    (
        opt_seq(x.0),
        opt_seq(x.1),
        opt_modifier_views(x.2),
        opt_modifier_views(x.3),
        opt_modifier_views(x.4),
        opt_seq(x.5),
        views(x.6@),
        x.7,
        views(x.8@),
        x.9,
    )
}

/// The traits group: labelled lines looked up by label; senses, languages
/// and challenge are required, the others are absent when their line is.
pub open spec fn fourth_group_of(g: Seq<Seq<char>>) -> Result<FourthGroupView, Failure> {
    match collect_all(g, clean_line_fn()) {
        Err(e) => Err(e),
        Ok(pairs) => match last_value(pairs, "senses"@) {
            None => Err(bounds_failure(g, 0, "Fourth group"@)),
            Some(sl) => match senses_of(sl) {
                Err(e) => Err(e),
                Ok((pp, senses)) => match optional_field(pairs, "saving throws"@, |l: Seq<char>| collect_all(spec_split(lower_of(l), ", "@), save_entry_fn())) {
                    Err(e) => Err(e),
                    Ok(saves) => match optional_field(pairs, "skills"@, |l: Seq<char>| collect_all(spec_split(lower_of(l), ", "@), skill_entry_fn())) {
                        Err(e) => Err(e),
                        Ok(skills) => match optional_field(pairs, "damage resistances"@, |l: Seq<char>| damage_modifier_of(DamageModifierType::Resistance, l)) {
                            Err(e) => Err(e),
                            Ok(dres) => match optional_field(pairs, "damage immunities"@, |l: Seq<char>| damage_modifier_of(DamageModifierType::Immunity, l)) {
                                Err(e) => Err(e),
                                Ok(dimm) => match optional_field(pairs, "damage vulnerabilities"@, |l: Seq<char>| damage_modifier_of(DamageModifierType::Vulnerability, l)) {
                                    Err(e) => Err(e),
                                    Ok(dvul) => match optional_field(pairs, "condition immunities"@, |l: Seq<char>| collect_all(spec_split(lower_of(l), ", "@), condition_fn())) {
                                        Err(e) => Err(e),
                                        Ok(cimm) => match last_value(pairs, "languages"@) {
                                            None => Err(bounds_failure(g, 0, "Fourth group"@)),
                                            Some(ll) => match last_value(pairs, "challenge"@) {
                                                None => Err(bounds_failure(g, 0, "Fourth group"@)),
                                                Some(cl) => match challenge_line_of(cl) {
                                                    Err(e) => Err(e),
                                                    Ok(cr) => Ok((saves, skills, dres, dimm, dvul, cimm, senses, pp, spec_split(ll, ", "@), cr)),
                                                },
                                            },
                                        },
                                    },
                                },
                            },
                        },
                    },
                },
            },
        },
    }
}

fn labelled_lines(group: &Vec<String>) -> (r: Result<Vec<(String, String)>, Error>)
    ensures
        outcome_by(r, |v: Vec<(String, String)>| pair_views(v@)) == collect_all(views(group@), clean_line_fn()),
{
    let ghost ps = views(group@);
    let mut out: Vec<(String, String)> = Vec::new();
    let mut i: usize = 0;
    assert(ps.take(0) =~= Seq::<Seq<char>>::empty());
    assert(pair_views(out@) =~= Seq::<(Seq<char>, Seq<char>)>::empty());
    while i < group.len()
        invariant
            i <= group.len(),
            ps == views(group@),
            collect_all(ps.take(i as int), clean_line_fn()) == Ok::<Seq<(Seq<char>, Seq<char>)>, Failure>(pair_views(out@)),
        decreases group.len() - i,
    {
        proof {
            crate::utils::error::lemma_collect_step(ps, clean_line_fn(), i as nat);
            assert(ps[i as int] == group@[i as int]@);
        }
        match clean_stat_block_line(&group[i]) {
            Err(e) => {
                proof {
                    crate::utils::error::lemma_collect_err(ps, clean_line_fn(), (i + 1) as nat);
                }
                return Err(e);
            },
            Ok(p) => {
                proof {
                    assert(pair_views(out@.push(p)) =~= pair_views(out@).push((p.0@, p.1@)));
                }
                out.push(p);
            },
        }
        i += 1;
    }
    proof {
        assert(ps.take(i as int) =~= ps);
    }
    Ok(out)
}

fn missing_line(group: &Vec<String>) -> (r: Error)
    ensures
        r.failure() == bounds_failure(views(group@), 0, "Fourth group"@),
{
    let mut copy: Vec<String> = Vec::new();
    let mut i: usize = 0;
    while i < group.len()
        invariant
            i <= group.len(),
            views(copy@) =~= views(group@).take(i as int),
        decreases group.len() - i,
    {
        let l = group[i].clone();
        proof {
            assert(views(copy@.push(l)) =~= views(copy@).push(l@));
        }
        copy.push(l);
        i += 1;
    }
    proof {
        assert(views(group@).take(i as int) =~= views(group@));
    }
    Error::OutOfBounds(OutOfBoundsError::new(copy, 0, "Fourth group"))
}

pub fn parse_fourth_group(fourth_group: Vec<String>) -> (r: Result<FourthGroup, Error>)
    ensures
        outcome_by(r, |x: FourthGroup| fourth_view(x)) == fourth_group_of(views(fourth_group@)),
{
    let pairs = labelled_lines(&fourth_group)?;
    let (passive_perception, senses) = match lookup(&pairs, "senses") {
        None => {
            return Err(missing_line(&fourth_group));
        },
        Some(l) => parse_senses(l.as_str())?,
    };
    let saving_throws = match lookup(&pairs, "saving throws") {
        None => None,
        Some(l) => Some(parse_saving_throws(l.as_str())?),
    };
    let skills = match lookup(&pairs, "skills") {
        None => None,
        Some(l) => Some(parse_skills(l.as_str())?),
    };
    let resistances = match lookup(&pairs, "damage resistances") {
        None => None,
        Some(l) => Some(parse_damage_modifier(DamageModifierType::Resistance, l.as_str())?),
    };
    let immunities = match lookup(&pairs, "damage immunities") {
        None => None,
        Some(l) => Some(parse_damage_modifier(DamageModifierType::Immunity, l.as_str())?),
    };
    let vulnerabilities = match lookup(&pairs, "damage vulnerabilities") {
        None => None,
        Some(l) => Some(parse_damage_modifier(DamageModifierType::Vulnerability, l.as_str())?),
    };
    let condition_immunities = match lookup(&pairs, "condition immunities") {
        None => None,
        Some(l) => Some(parse_condition_immunities(l.as_str())?),
    };
    let languages = match lookup(&pairs, "languages") {
        None => {
            return Err(missing_line(&fourth_group));
        },
        Some(l) => parse_languages(l.as_str())?,
    };
    let challenge_rating = match lookup(&pairs, "challenge") {
        None => {
            return Err(missing_line(&fourth_group));
        },
        Some(l) => parse_challenge_rating(l.as_str())?,
    };
    Ok((
        saving_throws,
        skills,
        resistances,
        immunities,
        vulnerabilities,
        condition_immunities,
        senses,
        passive_perception,
        languages,
        challenge_rating,
    ))
}

/// A named entry over views: name, body, and the sub-entries' names and
/// bodies (each with no sub-entries of its own).
pub type NamedEntryView = (Seq<char>, Seq<char>, Option<Seq<(Seq<char>, Seq<char>, bool)>>);

pub open spec fn sub_entry_view(e: NamedEntry) -> (Seq<char>, Seq<char>, bool) {
    (e.name@, e.entry@, e.sub_entries is None)
}

pub open spec fn named_entry_view(e: NamedEntry) -> NamedEntryView {
    (
        e.name@,
        e.entry@,
        match e.sub_entries {
            Some(v) => Some(v@.map_values(|s: NamedEntry| sub_entry_view(s))),
            None => None,
        },
    )
}

pub open spec fn named_entry_views(v: Seq<NamedEntry>) -> Seq<NamedEntryView> {
    v.map_values(|e: NamedEntry| named_entry_view(e))
}

/// A sub-entry line `**<name>** <body>`.
pub open spec fn sub_entry_of(line: Seq<char>) -> Result<(Seq<char>, Seq<char>, bool), Failure> {
    if !spec_starts_with(line, "**"@) {
        Err(parse_failure_with(line, "Named Entry (sub-entry)"@, "No leading `**` found"@))
    } else {
        match spec_split_once(line.subrange(2, line.len() as int), "** "@) {
            None => Err(parse_failure_with(line, "Named Entry (sub-entry)"@, "No second `**` found"@)),
            Some((n, e)) => Ok((n, e, true)),
        }
    }
}

pub open spec fn sub_entry_fn() -> spec_fn(Seq<char>) -> Result<(Seq<char>, Seq<char>, bool), Failure> {
    |l: Seq<char>| sub_entry_of(l)
}

/// A named entry `***<name>.*** <body>`, with sub-entries on following
/// lines that start with `* `.
pub open spec fn named_entry_of(entry: Seq<char>) -> Result<NamedEntryView, Failure> {
    let body = if spec_starts_with(entry, "***"@) {
        entry.subrange(3, entry.len() as int)
    } else {
        entry
    };
    match spec_split_once(body, "*** "@) {
        None => Err(parse_failure_with(entry, "Named Entry"@, "No second `***` found"@)),
        Some((name, entries)) => {
            let parts = spec_split(entries, "\n* "@);
            if parts.len() <= 1 {
                Ok((name, parts[0], None))
            } else {
                match collect_all(parts.drop_first(), sub_entry_fn()) {
                    Err(e) => Err(e),
                    Ok(subs) => Ok((name, parts[0], Some(subs))),
                }
            }
        },
    }
}

pub open spec fn named_entry_fn() -> spec_fn(Seq<char>) -> Result<NamedEntryView, Failure> {
    |e: Seq<char>| named_entry_of(e)
}

fn sub_entry_exec(line: &str) -> (r: Result<NamedEntry, Error>)
    ensures
        outcome_by(r, |e: NamedEntry| sub_entry_view(e)) == sub_entry_of(line@),
{
    proof {
        reveal_strlit("**");
        reveal_strlit("** ");
    }
    let rest = match strip_prefix(line, "**") {
        Some(t) => t,
        None => {
            return Err(Error::Parse(ParseError::new_with_problem(line, "Named Entry (sub-entry)", "No leading `**` found")));
        },
    };
    match split_once(rest.as_str(), "** ") {
        None => Err(Error::Parse(ParseError::new_with_problem(line, "Named Entry (sub-entry)", "No second `**` found"))),
        Some((name, entry)) => Ok(NamedEntry { name, entry, sub_entries: None }),
    }
}

pub fn parse_named_entry(entry: &str) -> (r: Result<NamedEntry, Error>)
    ensures
        outcome_by(r, |e: NamedEntry| named_entry_view(e)) == named_entry_of(entry@),
{
    proof {
        reveal_strlit("***");
        reveal_strlit("*** ");
        reveal_strlit("\n* ");
    }
    let body = match strip_prefix(entry, "***") {
        Some(t) => t,
        None => entry.to_owned(),
    };
    let (name, entries) = match split_once(body.as_str(), "*** ") {
        Some(p) => p,
        None => {
            return Err(Error::Parse(ParseError::new_with_problem(entry, "Named Entry", "No second `***` found")));
        },
    };
    let parts = split(entries.as_str(), "\n* ");
    proof {
        crate::text::lemma_split_len(entries@, "\n* "@);
    }
    let ghost ps = views(parts@);
    let main = parts[0].clone();
    if parts.len() <= 1 {
        return Ok(NamedEntry { name, entry: main, sub_entries: None });
    }
    let ghost rest = ps.drop_first();
    let ghost whole = named_entry_of(entry@);
    assert(whole == match collect_all(rest, sub_entry_fn()) {
        Err(e) => Err(e),
        Ok(subs) => Ok((name@, main@, Some(subs))),
    });
    let mut subs: Vec<NamedEntry> = Vec::new();
    let mut i: usize = 1;
    assert(rest.take(0) =~= Seq::<Seq<char>>::empty());
    assert(subs@.map_values(|s: NamedEntry| sub_entry_view(s)) =~= Seq::<(Seq<char>, Seq<char>, bool)>::empty());
    while i < parts.len()
        invariant
            1 <= i <= parts.len(),
            ps == views(parts@),
            rest == ps.drop_first(),
            whole == named_entry_of(entry@),
            whole == match collect_all(rest, sub_entry_fn()) {
                Err(e) => Err(e),
                Ok(subs) => Ok((name@, main@, Some(subs))),
            },
            collect_all(rest.take(i - 1), sub_entry_fn()) == Ok::<Seq<(Seq<char>, Seq<char>, bool)>, Failure>(
                subs@.map_values(|s: NamedEntry| sub_entry_view(s)),
            ),
        decreases parts.len() - i,
    {
        proof {
            crate::utils::error::lemma_collect_step(rest, sub_entry_fn(), (i - 1) as nat);
            assert(rest[i - 1] == parts@[i as int]@);
        }
        match sub_entry_exec(parts[i].as_str()) {
            Err(e) => {
                proof {
                    crate::utils::error::lemma_collect_err(rest, sub_entry_fn(), i as nat);
                }
                return Err(e);
            },
            Ok(s) => {
                proof {
                    assert(subs@.push(s).map_values(|s: NamedEntry| sub_entry_view(s)) =~= subs@.map_values(
                        |s: NamedEntry| sub_entry_view(s),
                    ).push(sub_entry_view(s)));
                }
                subs.push(s);
            },
        }
        i += 1;
    }
    proof {
        assert(rest.take(i - 1) =~= rest);
    }
    Ok(NamedEntry { name, entry: main, sub_entries: Some(subs) })
}

fn named_entries(parts: &Vec<String>, skip: usize) -> (r: Result<Vec<NamedEntry>, Error>)
    requires
        skip <= parts.len(),
    ensures
        outcome_by(r, |v: Vec<NamedEntry>| named_entry_views(v@)) == collect_all(views(parts@).skip(skip as int), named_entry_fn()),
{
    let ghost ps = views(parts@).skip(skip as int);
    let mut out: Vec<NamedEntry> = Vec::new();
    let mut i: usize = skip;
    assert(ps.take(0) =~= Seq::<Seq<char>>::empty());
    assert(named_entry_views(out@) =~= Seq::<NamedEntryView>::empty());
    while i < parts.len()
        invariant
            skip <= i <= parts.len(),
            ps == views(parts@).skip(skip as int),
            collect_all(ps.take(i - skip), named_entry_fn()) == Ok::<Seq<NamedEntryView>, Failure>(named_entry_views(out@)),
        decreases parts.len() - i,
    {
        proof {
            crate::utils::error::lemma_collect_step(ps, named_entry_fn(), (i - skip) as nat);
            assert(ps[i - skip] == parts@[i as int]@);
        }
        match parse_named_entry(parts[i].as_str()) {
            Err(e) => {
                proof {
                    crate::utils::error::lemma_collect_err(ps, named_entry_fn(), (i - skip + 1) as nat);
                }
                return Err(e);
            },
            Ok(x) => {
                proof {
                    assert(named_entry_views(out@.push(x)) =~= named_entry_views(out@).push(named_entry_view(x)));
                }
                out.push(x);
            },
        }
        i += 1;
    }
    proof {
        assert(ps.take(i - skip) =~= ps);
    }
    Ok(out)
}

/// The lines that are not empty, in order.
pub open spec fn nonempty_lines(g: Seq<Seq<char>>) -> Seq<Seq<char>>
    decreases g.len(),
{
    if g.len() == 0 {
        Seq::empty()
    } else if g.last().len() == 0 {
        nonempty_lines(g.drop_last())
    } else {
        nonempty_lines(g.drop_last()).push(g.last())
    }
}

/// A `### <Heading>` section: its heading (trimmed, lower case) and body.
pub open spec fn section_of(grp: Seq<char>) -> Result<(Seq<char>, Seq<char>), Failure> {
    match spec_split_once(grp, "\n"@) {
        None => Err(parse_failure_with(grp, "Fifth group"@, "Group does not have multiple lines"@)),
        Some((k, v)) => Ok((lower_of(spec_trim(k)), v)),
    }
}

pub open spec fn section_fn() -> spec_fn(Seq<char>) -> Result<(Seq<char>, Seq<char>), Failure> {
    |g: Seq<char>| section_of(g)
}

/// The entries of the section headed `key`, after dropping `skip`
/// introductory paragraphs.
pub open spec fn entry_list(pairs: Seq<(Seq<char>, Seq<char>)>, key: Seq<char>, skip: nat) -> Result<Option<Seq<NamedEntryView>>, Failure> {
    match last_value(pairs, key) {
        None => Ok(None),
        Some(v) => match collect_all(spec_split(v, "\n***"@).skip(skip as int), named_entry_fn()) {
            Ok(l) => Ok(Some(l)),
            Err(e) => Err(e),
        },
    }
}

/// The first line of a text.
pub open spec fn first_line(v: Seq<char>) -> Seq<char> {
    match spec_find(v, "\n"@) {
        Some(i) => v.subrange(0, i),
        None => v,
    }
}

/// The entries group, over views.
pub type FifthGroupView = (
    Option<Seq<NamedEntryView>>,
    Option<Seq<NamedEntryView>>,
    Option<Seq<NamedEntryView>>,
    Option<Seq<NamedEntryView>>,
    Option<Seq<NamedEntryView>>,
    Option<Seq<char>>,
    Option<Seq<NamedEntryView>>,
);

/// The entries group: traits, actions, bonus actions, reactions, legendary
/// actions, mythic header and mythic actions.
pub type FifthGroup = (
    Option<Vec<NamedEntry>>,
    Option<Vec<NamedEntry>>,
    Option<Vec<NamedEntry>>,
    Option<Vec<NamedEntry>>,
    Option<Vec<NamedEntry>>,
    Option<String>,
    Option<Vec<NamedEntry>>,
);

pub open spec fn opt_entry_views(o: Option<Vec<NamedEntry>>) -> Option<Seq<NamedEntryView>> {
    match o {
        Some(v) => Some(named_entry_views(v@)),
        None => None,
    }
}

pub open spec fn fifth_view(x: FifthGroup) -> FifthGroupView {
    (
        opt_entry_views(x.0),
        opt_entry_views(x.1),
        opt_entry_views(x.2),
        opt_entry_views(x.3),
        opt_entry_views(x.4),
        crate::utils::error::opt_view(x.5),
        opt_entry_views(x.6),
    )
}

/// The entries group: its non-empty lines joined, split into the traits
/// before the first `### ` heading and one section per heading; the
/// legendary and mythic sections drop one introductory paragraph.
pub open spec fn fifth_group_of(g: Seq<Seq<char>>) -> Result<FifthGroupView, Failure> {
    let joined = spec_join(nonempty_lines(g), "\n"@);
    let subs = spec_split(joined, "\n### "@);
    match collect_all(spec_split(subs[0], "\n***"@), named_entry_fn()) {
        Err(e) => Err(e),
        Ok(traits) => match collect_all(subs.drop_first(), section_fn()) {
            Err(e) => Err(e),
            Ok(pairs) => match entry_list(pairs, "actions"@, 0) {
                Err(e) => Err(e),
                Ok(actions) => match entry_list(pairs, "bonus actions"@, 0) {
                    Err(e) => Err(e),
                    Ok(bonus) => match entry_list(pairs, "reactions"@, 0) {
                        Err(e) => Err(e),
                        Ok(reactions) => match entry_list(pairs, "legendary actions"@, 1) {
                            Err(e) => Err(e),
                            Ok(legendary) => match entry_list(pairs, "mythic actions"@, 1) {
                                Err(e) => Err(e),
                                Ok(mythic) => Ok((
                                    if traits.len() == 0 {
                                        None
                                    } else {
                                        Some(traits)
                                    },
                                    actions,
                                    bonus,
                                    reactions,
                                    legendary,
                                    match last_value(pairs, "mythic actions"@) {
                                        Some(v) => Some(first_line(v)),
                                        None => None,
                                    },
                                    mythic,
                                )),
                            },
                        },
                    },
                },
            },
        },
    }
}

fn sections(parts: &Vec<String>) -> (r: Result<Vec<(String, String)>, Error>)
    requires
        parts.len() >= 1,
    ensures
        outcome_by(r, |v: Vec<(String, String)>| pair_views(v@)) == collect_all(views(parts@).drop_first(), section_fn()),
{
    let ghost ps = views(parts@).drop_first();
    let mut out: Vec<(String, String)> = Vec::new();
    let mut i: usize = 1;
    assert(ps.take(0) =~= Seq::<Seq<char>>::empty());
    assert(pair_views(out@) =~= Seq::<(Seq<char>, Seq<char>)>::empty());
    while i < parts.len()
        invariant
            1 <= i <= parts.len(),
            ps == views(parts@).drop_first(),
            collect_all(ps.take(i - 1), section_fn()) == Ok::<Seq<(Seq<char>, Seq<char>)>, Failure>(pair_views(out@)),
        decreases parts.len() - i,
    {
        proof {
            reveal_strlit("\n");
            crate::utils::error::lemma_collect_step(ps, section_fn(), (i - 1) as nat);
            assert(ps[i - 1] == parts@[i as int]@);
        }
        let grp = parts[i].as_str();
        match split_once(grp, "\n") {
            None => {
                proof {
                    crate::utils::error::lemma_collect_err(ps, section_fn(), i as nat);
                }
                return Err(Error::Parse(ParseError::new_with_problem(grp, "Fifth group", "Group does not have multiple lines")));
            },
            Some((k, v)) => {
                let key = trim(k.as_str());
                let p = (lowercase(key.as_str()), v);
                proof {
                    assert(pair_views(out@.push(p)) =~= pair_views(out@).push((p.0@, p.1@)));
                }
                out.push(p);
            },
        }
        i += 1;
    }
    proof {
        assert(ps.take(i - 1) =~= ps);
    }
    Ok(out)
}

fn entry_list_exec(pairs: &Vec<(String, String)>, key: &str, skip: usize) -> (r: Result<Option<Vec<NamedEntry>>, Error>)
    requires
        skip <= 1,
    ensures
        outcome_by(r, |o: Option<Vec<NamedEntry>>| opt_entry_views(o)) == entry_list(pair_views(pairs@), key@, skip as nat),
{
    proof {
        reveal_strlit("\n***");
    }
    match lookup(pairs, key) {
        None => Ok(None),
        Some(v) => {
            let parts = split(v.as_str(), "\n***");
            proof {
                crate::text::lemma_split_len(v@, "\n***"@);
            }
            let l = named_entries(&parts, skip)?;
            Ok(Some(l))
        },
    }
}

fn first_line_exec(v: &str) -> (r: String)
    ensures
        r@ == first_line(v@),
{
    proof {
        crate::text::lemma_find_from(v@, "\n"@, 0);
    }
    match crate::text::find(v, "\n") {
        Some(i) => crate::text::substr(v, 0, i),
        None => v.to_owned(),
    }
}

pub fn parse_fifth_group(fifth_group: Vec<String>) -> (r: Result<FifthGroup, Error>)
    ensures
        outcome_by(r, |x: FifthGroup| fifth_view(x)) == fifth_group_of(views(fifth_group@)),
{
    proof {
        reveal_strlit("\n### ");
        reveal_strlit("\n***");
    }
    let ghost g = views(fifth_group@);
    let mut kept: Vec<String> = Vec::new();
    let mut i: usize = 0;
    assert(g.take(0) =~= Seq::<Seq<char>>::empty());
    assert(views(kept@) =~= Seq::<Seq<char>>::empty());
    while i < fifth_group.len()
        invariant
            i <= fifth_group.len(),
            g == views(fifth_group@),
            views(kept@) == nonempty_lines(g.take(i as int)),
        decreases fifth_group.len() - i,
    {
        proof {
            assert(g.take(i + 1).drop_last() =~= g.take(i as int));
            assert(g.take(i + 1).last() == fifth_group@[i as int]@);
        }
        if fifth_group[i].as_str().unicode_len() != 0 {
            let l = fifth_group[i].clone();
            proof {
                assert(views(kept@.push(l)) =~= views(kept@).push(l@));
            }
            kept.push(l);
        }
        i += 1;
    }
    proof {
        assert(g.take(i as int) =~= g);
    }
    let joined = crate::text::join(&kept, "\n");
    let subs = split(joined.as_str(), "\n### ");
    proof {
        crate::text::lemma_split_len(joined@, "\n### "@);
    }
    let trait_parts = split(subs[0].as_str(), "\n***");
    proof {
        crate::text::lemma_split_len(subs@[0]@, "\n***"@);
        assert(views(trait_parts@).skip(0) =~= views(trait_parts@));
    }
    let traits = named_entries(&trait_parts, 0)?;
    let pairs = sections(&subs)?;
    let actions = entry_list_exec(&pairs, "actions", 0)?;
    let bonus_actions = entry_list_exec(&pairs, "bonus actions", 0)?;
    let reactions = entry_list_exec(&pairs, "reactions", 0)?;
    let legendary_actions = entry_list_exec(&pairs, "legendary actions", 1)?;
    let mythic_actions = entry_list_exec(&pairs, "mythic actions", 1)?;
    let mythic_header = match lookup(&pairs, "mythic actions") {
        Some(v) => Some(first_line_exec(v.as_str())),
        None => None,
    };
    let traits = if traits.len() == 0 {
        None
    } else {
        Some(traits)
    };
    Ok((traits, actions, bonus_actions, reactions, legendary_actions, mythic_header, mythic_actions))
}

} // verus!
