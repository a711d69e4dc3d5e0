//! Spell write-ups: sentinel-delimited groups and the field grammars of
//! casting time, range, components, duration, classes and entries.
use vstd::prelude::*;
use vstd::string::*;
use crate::models::common::{
    class_word, damage_type_word, range_unit_word, time_unit_word, ActionType, Classes,
    DamageType, Description, RangeUnit, Source, TimeUnit,
};
use crate::models::items::{currency_word, Currency, ItemValue};
use crate::models::spells::{
    school_word, target_type_word, CastingTime, CastingTimeUnit, Components, Duration,
    MagicSchool, MaterialComponent, Range, Spell, TargetType, TimedDuration,
};
use crate::number::{parse_unsigned, spec_parse_unsigned};
use crate::text::{
    contains, eq_str, join, lower_of, lowercase, split, spec_join, spec_replace, spec_split,
    spec_starts_with,
    starts_with, strip_prefix, views,
};
use crate::utils::error::{
    bounds_failure, lexicon_outcome, outcome, outcome_by, parse_failure, parse_failure_with,
    parse_outcome, Error, Failure, OutOfBoundsError, ParseError,
};

verus! {

impl TryFrom<&str> for MagicSchool {
    type Error = ParseError;

    fn try_from(value: &str) -> (r: Result<MagicSchool, ParseError>)
        ensures
            parse_outcome(r) == lexicon_outcome(school_word(lower_of(value@)), value@, "MagicSchool"@),
    {
        let lower = lowercase(value);
        match MagicSchool::from_word(lower.as_str()) {
            Some(v) => Ok(v),
            None => Err(ParseError::new(value, "MagicSchool")),
        }
    }
}

impl vstd::std_specs::convert::TryFromSpecImpl<&str> for MagicSchool {
    open spec fn obeys_try_from_spec() -> bool {
        false
    }

    open spec fn try_from_spec(v: &str) -> Result<MagicSchool, ParseError> {
        arbitrary()
    }
}

impl TryFrom<&str> for TimeUnit {
    type Error = ParseError;

    fn try_from(value: &str) -> (r: Result<TimeUnit, ParseError>)
        ensures
            parse_outcome(r) == lexicon_outcome(time_unit_word(lower_of(value@)), value@, "TimeUnit"@),
    {
        let lower = lowercase(value);
        match TimeUnit::from_word(lower.as_str()) {
            Some(v) => Ok(v),
            None => Err(ParseError::new(value, "TimeUnit")),
        }
    }
}

impl vstd::std_specs::convert::TryFromSpecImpl<&str> for TimeUnit {
    open spec fn obeys_try_from_spec() -> bool {
        false
    }

    open spec fn try_from_spec(v: &str) -> Result<TimeUnit, ParseError> {
        arbitrary()
    }
}

impl TryFrom<&str> for RangeUnit {
    type Error = ParseError;

    fn try_from(value: &str) -> (r: Result<RangeUnit, ParseError>)
        ensures
            parse_outcome(r) == lexicon_outcome(range_unit_word(lower_of(value@)), value@, "RangeUnit"@),
    {
        let lower = lowercase(value);
        match RangeUnit::from_word(lower.as_str()) {
            Some(v) => Ok(v),
            None => Err(ParseError::new(value, "RangeUnit")),
        }
    }
}

impl vstd::std_specs::convert::TryFromSpecImpl<&str> for RangeUnit {
    open spec fn obeys_try_from_spec() -> bool {
        false
    }

    open spec fn try_from_spec(v: &str) -> Result<RangeUnit, ParseError> {
        arbitrary()
    }
}

impl TryFrom<&str> for TargetType {
    type Error = ParseError;

    fn try_from(value: &str) -> (r: Result<TargetType, ParseError>)
        ensures
            parse_outcome(r) == lexicon_outcome(target_type_word(lower_of(value@)), value@, "TargetType"@),
    {
        let lower = lowercase(value);
        match TargetType::from_word(lower.as_str()) {
            Some(v) => Ok(v),
            None => Err(ParseError::new(value, "TargetType")),
        }
    }
}

impl vstd::std_specs::convert::TryFromSpecImpl<&str> for TargetType {
    open spec fn obeys_try_from_spec() -> bool {
        false
    }

    open spec fn try_from_spec(v: &str) -> Result<TargetType, ParseError> {
        arbitrary()
    }
}

impl TryFrom<&str> for Currency {
    type Error = ParseError;

    fn try_from(value: &str) -> (r: Result<Currency, ParseError>)
        ensures
            parse_outcome(r) == lexicon_outcome(currency_word(lower_of(value@)), value@, "Currency"@),
    {
        let lower = lowercase(value);
        match Currency::from_word(lower.as_str()) {
            Some(v) => Ok(v),
            None => Err(ParseError::new(value, "Currency")),
        }
    }
}

impl vstd::std_specs::convert::TryFromSpecImpl<&str> for Currency {
    open spec fn obeys_try_from_spec() -> bool {
        false
    }

    open spec fn try_from_spec(v: &str) -> Result<Currency, ParseError> {
        arbitrary()
    }
}

impl TryFrom<&str> for Classes {
    type Error = ParseError;

    fn try_from(value: &str) -> (r: Result<Classes, ParseError>)
        ensures
            parse_outcome(r) == lexicon_outcome(class_word(lower_of(value@)), value@, "Classes"@),
    {
        let lower = lowercase(value);
        match Classes::from_word(lower.as_str()) {
            Some(v) => Ok(v),
            None => Err(ParseError::new(value, "Classes")),
        }
    }
}

impl vstd::std_specs::convert::TryFromSpecImpl<&str> for Classes {
    open spec fn obeys_try_from_spec() -> bool {
        false
    }

    open spec fn try_from_spec(v: &str) -> Result<Classes, ParseError> {
        arbitrary()
    }
}

impl TryFrom<&str> for DamageType {
    type Error = ParseError;

    fn try_from(value: &str) -> (r: Result<DamageType, ParseError>)
        ensures
            parse_outcome(r) == lexicon_outcome(damage_type_word(lower_of(value@)), value@, "DamageType"@),
    {
        let lower = lowercase(value);
        match DamageType::from_word(lower.as_str()) {
            Some(v) => Ok(v),
            None => Err(ParseError::new(value, "DamageType")),
        }
    }
}

impl vstd::std_specs::convert::TryFromSpecImpl<&str> for DamageType {
    open spec fn obeys_try_from_spec() -> bool {
        false
    }

    open spec fn try_from_spec(v: &str) -> Result<DamageType, ParseError> {
        arbitrary()
    }
}

/// The unit of a casting time, over views: an action type (a reaction with
/// its trigger) or a span of time.
pub enum CastingUnitView {
    Action,
    BonusAction,
    Reaction(Seq<char>),
    Time(TimeUnit),
}

pub open spec fn casting_unit_view(u: CastingTimeUnit) -> CastingUnitView {
    match u {
        CastingTimeUnit::Action(ActionType::Action) => CastingUnitView::Action,
        CastingTimeUnit::Action(ActionType::BonusAction) => CastingUnitView::BonusAction,
        CastingTimeUnit::Action(ActionType::Reaction { condition }) => CastingUnitView::Reaction(condition@),
        CastingTimeUnit::Time(t) => CastingUnitView::Time(t),
    }
}

/// An action type word, any case.
pub open spec fn action_type_of(w: Seq<char>) -> Result<CastingUnitView, Failure> {
    let l = lower_of(w);
    if l == "bonus"@ || l == "bonus action"@ {
        Ok(CastingUnitView::BonusAction)
    } else if l == "action"@ {
        Ok(CastingUnitView::Action)
    } else if l == "reaction"@ {
        Ok(CastingUnitView::Reaction(Seq::empty()))
    } else {
        Err(parse_failure(w, "ActionType"@))
    }
}

/// A casting-time unit word: an action type, else a time unit.
pub open spec fn casting_unit_of(w: Seq<char>) -> Result<CastingUnitView, Failure> {
    match action_type_of(w) {
        Ok(a) => Ok(a),
        Err(_) => match time_unit_word(lower_of(w)) {
            Some(t) => Ok(CastingUnitView::Time(t)),
            None => Err(parse_failure_with(w, "CastingTimeUnit"@, "Neither ActionType nor TimeUnit"@)),
        },
    }
}

impl TryFrom<&str> for ActionType {
    type Error = ParseError;

    fn try_from(value: &str) -> (r: Result<ActionType, ParseError>)
        ensures
            match r {
                Ok(a) => action_type_of(value@) == Ok::<CastingUnitView, Failure>(casting_unit_view(CastingTimeUnit::Action(a))),
                Err(e) => action_type_of(value@) == Err::<CastingUnitView, Failure>(e.failure()),
            },
    {
        proof {
            reveal_strlit("bonus");
            reveal_strlit("bonus action");
            reveal_strlit("action");
            reveal_strlit("reaction");
        }
        let lower = lowercase(value);
        match ActionType::from_word(lower.as_str()) {
            Some(a) => {
                proof {
                    assert("reaction"@.len() == 8 && "action"@.len() == 6);
                    assert("bonus"@.len() == 5 && "bonus action"@.len() == 12);
                    if a is Reaction {
                        assert(a->condition@ =~= Seq::<char>::empty());
                    }
                }
                Ok(a)
            },
            None => Err(ParseError::new(value, "ActionType")),
        }
    }
}

impl vstd::std_specs::convert::TryFromSpecImpl<&str> for ActionType {
    open spec fn obeys_try_from_spec() -> bool {
        false
    }

    open spec fn try_from_spec(v: &str) -> Result<ActionType, ParseError> {
        arbitrary()
    }
}

impl TryFrom<&str> for CastingTimeUnit {
    type Error = ParseError;

    fn try_from(value: &str) -> (r: Result<CastingTimeUnit, ParseError>)
        ensures
            match r {
                Ok(u) => casting_unit_of(value@) == Ok::<CastingUnitView, Failure>(casting_unit_view(u)),
                Err(e) => casting_unit_of(value@) == Err::<CastingUnitView, Failure>(e.failure()),
            },
    {
        match ActionType::try_from(value) {
            Ok(a) => Ok(CastingTimeUnit::Action(a)),
            Err(_) => match TimeUnit::try_from(value) {
                Ok(t) => Ok(CastingTimeUnit::Time(t)),
                Err(_) => Err(ParseError::new_with_problem(value, "CastingTimeUnit", "Neither ActionType nor TimeUnit")),
            },
        }
    }
}

impl vstd::std_specs::convert::TryFromSpecImpl<&str> for CastingTimeUnit {
    open spec fn obeys_try_from_spec() -> bool {
        false
    }

    open spec fn try_from_spec(v: &str) -> Result<CastingTimeUnit, ParseError> {
        arbitrary()
    }
}

/// A casting time `<n> <unit>[ <trigger…>]`; a reaction keeps the words
/// after its unit as its trigger.
pub open spec fn casting_time_of(s: Seq<char>) -> Result<(u8, CastingUnitView), Failure> {
    let ws = spec_split(s, " "@);
    match spec_parse_unsigned(ws[0], 255) {
        Err(k) => Err(parse_failure_with(s, "CastingTime: amount"@, k.spec_message())),
        Ok(n) => if ws.len() < 2 {
            Err(bounds_failure(ws, 1, "CastingTime: unit"@))
        } else {
            match casting_unit_of(ws[1]) {
                Err(f) => Err(f),
                Ok(CastingUnitView::Reaction(_)) => Ok(
                    (n as u8, CastingUnitView::Reaction(spec_join(ws.subrange(2, ws.len() as int), " "@))),
                ),
                Ok(u) => Ok((n as u8, u)),
            }
        },
    }
}

pub open spec fn casting_time_view(c: CastingTime) -> (u8, CastingUnitView) {
    (c.number, casting_unit_view(c.unit))
}

/// The pieces of `v` from index `from` on, as a new vector.
fn tail_of(v: &Vec<String>, from: usize) -> (r: Vec<String>)
    requires
        from <= v.len(),
    ensures
        views(r@) == views(v@).subrange(from as int, v.len() as int),
{
    let mut out: Vec<String> = Vec::new();
    let mut i = from;
    while i < v.len()
        invariant
            from <= i <= v.len(),
            views(out@) =~= views(v@).subrange(from as int, i as int),
        decreases v.len() - i,
    {
        let x = v[i].clone();
        proof {
            assert(views(out@.push(x)) =~= views(out@).push(x@));
        }
        out.push(x);
        i += 1;
    }
    out
}

pub fn parse_casting_time(casting_time_str: &str) -> (r: Result<CastingTime, Error>)
    ensures
        outcome_by(r, |c: CastingTime| casting_time_view(c)) == casting_time_of(casting_time_str@),
{
    proof {
        reveal_strlit(" ");
    }
    let words = split(casting_time_str, " ");
    proof {
        crate::text::lemma_split_len(casting_time_str@, " "@);
    }
    let number = match parse_unsigned(words[0].as_str(), 255) {
        Ok(n) => n as u8,
        Err(k) => {
            return Err(Error::Parse(ParseError::from_intparse_error(casting_time_str.to_owned(), "CastingTime: amount".to_owned(), k)));
        },
    };
    if words.len() < 2 {
        return Err(Error::OutOfBounds(OutOfBoundsError::new(words, 1, "CastingTime: unit")));
    }
    let unit = match CastingTimeUnit::try_from(words[1].as_str()) {
        Ok(u) => u,
        Err(e) => {
            return Err(Error::Parse(e));
        },
    };
    let unit = match unit {
        CastingTimeUnit::Action(ActionType::Reaction { condition: _ }) => {
            let rest = tail_of(&words, 2);
            CastingTimeUnit::Action(ActionType::Reaction { condition: join(&rest, " ") })
        },
        other => other,
    };
    Ok(CastingTime { number, unit })
}

/// A range: "touch", "special", "self" alone, `self <n> <unit> <shape>`,
/// or `<n> <unit>` (a point).
pub open spec fn range_of(s: Seq<char>) -> Result<Range, Failure> {
    let ws = spec_split(s, " "@);
    if ws[0] == "touch"@ {
        Ok(Range::Touch)
    } else if ws[0] == "special"@ {
        Ok(Range::Special)
    } else if ws[0] == "self"@ {
        if ws.len() == 1 {
            Ok(Range::Self_)
        } else {
            match spec_parse_unsigned(ws[1], 65535) {
                Err(k) => Err(parse_failure_with(ws[1], "Range (self): amount"@, k.spec_message())),
                Ok(n) => if ws.len() < 3 {
                    Err(bounds_failure(ws, 2, "Range (self): unit"@))
                } else {
                    match lexicon_outcome(range_unit_word(lower_of(ws[2])), ws[2], "RangeUnit"@) {
                        Err(f) => Err(f),
                        Ok(u) => if ws.len() < 4 {
                            Err(bounds_failure(ws, 3, "Range (self): type"@))
                        } else {
                            match lexicon_outcome(target_type_word(lower_of(ws[3])), ws[3], "TargetType"@) {
                                Err(f) => Err(f),
                                Ok(t) => Ok(Range::Ranged { type_: t, range: n as u16, unit: u }),
                            }
                        },
                    }
                },
            }
        }
    } else {
        match spec_parse_unsigned(ws[0], 65535) {
            Err(k) => Err(parse_failure_with(ws[0], "Range (point): amount"@, k.spec_message())),
            Ok(n) => if ws.len() < 2 {
                Err(bounds_failure(ws, 2, "Range (point): unit"@))
            } else {
                match lexicon_outcome(range_unit_word(lower_of(ws[1])), ws[1], "RangeUnit"@) {
                    Err(f) => Err(f),
                    Ok(u) => Ok(Range::Ranged { type_: TargetType::Point, range: n as u16, unit: u }),
                }
            },
        }
    }
}

fn range_unit_exec(w: &str) -> (r: Result<RangeUnit, Error>)
    ensures
        outcome(r) == lexicon_outcome(range_unit_word(lower_of(w@)), w@, "RangeUnit"@),
{
    match RangeUnit::try_from(w) {
        Ok(u) => Ok(u),
        Err(e) => Err(Error::Parse(e)),
    }
}

pub fn parse_range(range_str: &str) -> (r: Result<Range, Error>)
    ensures
        outcome(r) == range_of(range_str@),
{
    proof {
        reveal_strlit(" ");
    }
    let words = split(range_str, " ");
    proof {
        crate::text::lemma_split_len(range_str@, " "@);
    }
    let first = words[0].as_str();
    if eq_str(first, "touch") {
        Ok(Range::Touch)
    } else if eq_str(first, "special") {
        Ok(Range::Special)
    } else if eq_str(first, "self") {
        if words.len() == 1 {
            return Ok(Range::Self_);
        }
        let n = match parse_unsigned(words[1].as_str(), 65535) {
            Ok(n) => n as u16,
            Err(k) => {
                return Err(Error::Parse(ParseError::from_intparse_error(words[1].clone(), "Range (self): amount".to_owned(), k)));
            },
        };
        if words.len() < 3 {
            return Err(Error::OutOfBounds(OutOfBoundsError::new(words, 2, "Range (self): unit")));
        }
        let unit = range_unit_exec(words[2].as_str())?;
        if words.len() < 4 {
            return Err(Error::OutOfBounds(OutOfBoundsError::new(words, 3, "Range (self): type")));
        }
        let type_ = match TargetType::try_from(words[3].as_str()) {
            Ok(t) => t,
            Err(e) => {
                return Err(Error::Parse(e));
            },
        };
        Ok(Range::Ranged { type_, range: n, unit })
    } else {
        let n = match parse_unsigned(first, 65535) {
            Ok(n) => n as u16,
            Err(k) => {
                return Err(Error::Parse(ParseError::from_intparse_error(words[0].clone(), "Range (point): amount".to_owned(), k)));
            },
        };
        if words.len() < 2 {
            return Err(Error::OutOfBounds(OutOfBoundsError::new(words, 2, "Range (point): unit")));
        }
        let unit = range_unit_exec(words[1].as_str())?;
        Ok(Range::Ranged { type_: TargetType::Point, range: n, unit })
    }
}

/// The first index at or after `k` whose word is an amount (a `u8`).
pub open spec fn first_amount_from(ws: Seq<Seq<char>>, k: int) -> Option<int>
    decreases ws.len() - k,
{
    if k < 0 || k >= ws.len() {
        None
    } else if spec_parse_unsigned(ws[k], 255) is Ok {
        Some(k)
    } else {
        first_amount_from(ws, k + 1)
    }
}

/// A duration: "instantaneous"; "concentration …<n> <unit>"; or a timed
/// `…<n> <unit>`, the amount being the first word that is a number.
pub open spec fn duration_of(s: Seq<char>) -> Result<Duration, Failure> {
    let ws = spec_split(s, " "@);
    let concentration = ws[0] == "concentration"@;
    let amount_step = if concentration {
        "Duration (concentration): amount"@
    } else {
        "Duration (Timed): amount"@
    };
    let amount_problem = if concentration {
        "No number after 'concentration' can be parsed as u8."@
    } else {
        "No number can be parsed as u8."@
    };
    let unit_step = if concentration {
        "Duration (concentration): unit"@
    } else {
        "Duration (Timed): unit"@
    };
    if ws[0] == "instantaneous"@ {
        Ok(Duration::Instantaneous)
    } else {
        match first_amount_from(ws, 0) {
            None => Err(parse_failure_with(s, amount_step, amount_problem)),
            Some(k) => if k + 1 >= ws.len() {
                Err(bounds_failure(ws, ((k + 1) as u32) as int, unit_step))
            } else {
                match lexicon_outcome(time_unit_word(lower_of(ws[k + 1])), ws[k + 1], "TimeUnit"@) {
                    Err(f) => Err(f),
                    Ok(u) => match spec_parse_unsigned(ws[k], 255) {
                        Ok(n) => Ok(Duration::Timed(TimedDuration { number: n as u8, unit: u, concentration })),
                        Err(_) => Err(parse_failure(s, amount_step)),
                    },
                }
            },
        }
    }
}

pub fn parse_duration(duration_str: String) -> (r: Result<Duration, Error>)
    ensures
        outcome(r) == duration_of(duration_str@),
{
    proof {
        reveal_strlit(" ");
    }
    let words = split(duration_str.as_str(), " ");
    proof {
        crate::text::lemma_split_len(duration_str@, " "@);
    }
    let ghost ws = views(words@);
    if eq_str(words[0].as_str(), "instantaneous") {
        return Ok(Duration::Instantaneous);
    }
    let concentration = eq_str(words[0].as_str(), "concentration");
    let mut k: usize = 0;
    let mut found: Option<u8> = None;
    while k < words.len() && found.is_none()
        invariant
            k <= words.len(),
            ws == views(words@),
            found is None ==> first_amount_from(ws, 0) == first_amount_from(ws, k as int),
            found matches Some(n) ==> k < words.len() && first_amount_from(ws, 0) == Some(k as int)
                && spec_parse_unsigned(ws[k as int], 255) == Ok::<int, crate::number::IntErrorKind>(n as int),
        decreases words.len() - k + (if found is None { 1int } else { 0int }),
    {
        proof {
            assert(ws[k as int] == words@[k as int]@);
        }
        match parse_unsigned(words[k].as_str(), 255) {
            Ok(n) => {
                found = Some(n as u8);
            },
            Err(_) => {
                k += 1;
            },
        }
    }
    let number = match found {
        Some(n) => n,
        None => {
            let (step, problem) = if concentration {
                ("Duration (concentration): amount", "No number after 'concentration' can be parsed as u8.")
            } else {
                ("Duration (Timed): amount", "No number can be parsed as u8.")
            };
            return Err(Error::Parse(ParseError::new_with_problem(duration_str.as_str(), step, problem)));
        },
    };
    proof {
        assert(ws[k as int] == words@[k as int]@);
    }
    if k + 1 >= words.len() {
        let step = if concentration {
            "Duration (concentration): unit"
        } else {
            "Duration (Timed): unit"
        };
        let index = #[verifier::truncate] ((k + 1) as u32);
        return Err(Error::OutOfBounds(OutOfBoundsError::new(words, index, step)));
    }
    proof {
        assert(ws[k + 1] == words@[k + 1]@);
    }
    let unit = match TimeUnit::try_from(words[k + 1].as_str()) {
        Ok(u) => u,
        Err(e) => {
            return Err(Error::Parse(e));
        },
    };
    Ok(Duration::Timed(TimedDuration { number, unit, concentration }))
}

pub open spec fn found_classes(ws: Seq<Seq<char>>) -> Seq<Classes>
    decreases ws.len(),
{
    if ws.len() == 0 {
        Seq::empty()
    } else {
        match class_word(lower_of(ws.last())) {
            Some(c) => found_classes(ws.drop_last()).push(c),
            None => found_classes(ws.drop_last()),
        }
    }
}

/// The classes line: every word that names a class; none is an error.
pub open spec fn classes_of(s: Seq<char>) -> Result<Seq<Classes>, Failure> {
    let found = found_classes(spec_split(s, " "@));
    if found.len() == 0 {
        Err(parse_failure_with(s, "Classes"@, "No classes could be parsed."@))
    } else {
        Ok(found)
    }
}

pub fn parse_classes(classes_str: String) -> (r: Result<Vec<Classes>, Error>)
    ensures
        outcome_by(r, |v: Vec<Classes>| v@) == classes_of(classes_str@),
{
    proof {
        reveal_strlit(" ");
    }
    let words = split(classes_str.as_str(), " ");
    let ghost ws = views(words@);
    let mut found: Vec<Classes> = Vec::new();
    let mut i: usize = 0;
    assert(ws.take(0) =~= Seq::<Seq<char>>::empty());
    while i < words.len()
        invariant
            i <= words.len(),
            ws == views(words@),
            found@ == found_classes(ws.take(i as int)),
        decreases words.len() - i,
    {
        proof {
            assert(ws.take(i + 1).drop_last() =~= ws.take(i as int));
            assert(ws.take(i + 1).last() == words@[i as int]@);
        }
        match Classes::try_from(words[i].as_str()) {
            Ok(c) => {
                found.push(c);
            },
            Err(_) => {},
        }
        i += 1;
    }
    proof {
        assert(ws.take(i as int) =~= ws);
    }
    if found.len() == 0 {
        Err(Error::Parse(ParseError::new_with_problem(classes_str.as_str(), "Classes", "No classes could be parsed.")))
    } else {
        Ok(found)
    }
}

/// What `Regex::replace_all` returns: every leftmost-first match of
/// `pattern` in `text` replaced by `replacement`.
pub uninterp spec fn regex_replaced(pattern: Seq<char>, text: Seq<char>, replacement: Seq<char>) -> Seq<char>;

/// Relies on `regex::Regex::new`, which compiles `pattern` or fails (only
/// on a syntax error or a size limit, neither of which the symbol pattern
/// below meets), and on `Regex::replace_all`, which replaces every
/// non-overlapping match in `text` by `replacement` (read literally when it
/// holds no `$`).
#[verifier::external_body]
fn replace_all_matches(pattern: &str, text: &str, replacement: &str) -> (r: Option<String>)
    ensures
        r matches Some(s) ==> s@ == regex_replaced(pattern@, text@, replacement@),
        pattern@ == "(.*:|[^a-zA-Z\\d])+"@ ==> r is Some,
{
    match regex::Regex::new(pattern) {
        Ok(re) => Some(re.replace_all(text, replacement).into_owned()),
        Err(_) => None,
    }
}

/// A line reduced to lower-case words: label and symbols replaced by single
/// spaces, one leading space dropped.
pub open spec fn stripped_of(s: Seq<char>) -> Seq<char> {
    let l = lower_of(regex_replaced("(.*:|[^a-zA-Z\\d])+"@, s, " "@));
    if spec_starts_with(l, " "@) {
        l.drop_first()
    } else {
        l
    }
}

/// Reduces a line to lower-case words: everything up to the last `:` and
/// every run of characters other than ASCII letters and digits become one
/// space, and one leading space is dropped.
pub fn strip_str(s: &str) -> (r: String)
    ensures
        r@ == stripped_of(s@),
{
    match replace_all_matches("(.*:|[^a-zA-Z\\d])+", s, " ") {
        None => String::new(),
        Some(replaced) => {
            let lower = lowercase(replaced.as_str());
            match strip_prefix(lower.as_str(), " ") {
                Some(t) => {
                    proof {
                        reveal_strlit(" ");
                        assert(t@ =~= lower@.drop_first());
                    }
                    t
                },
                None => lower,
            }
        },
    }
}

/// The words after the first "m" (any case).
pub open spec fn after_m(ws: Seq<Seq<char>>) -> Seq<Seq<char>>
    decreases ws.len(),
{
    if ws.len() == 0 {
        Seq::empty()
    } else if lower_of(ws[0]) == "m"@ {
        ws.drop_first()
    } else {
        after_m(ws.drop_first())
    }
}

/// A word with its parentheses removed.
pub open spec fn unparen(w: Seq<char>) -> Seq<char> {
    spec_replace(spec_replace(w, "("@, ""@), ")"@, ""@)
}

/// The material description's words, from the raw line.
pub open spec fn material_words(raw: Seq<char>) -> Seq<Seq<char>> {
    after_m(spec_split(raw, " "@)).map_values(|w: Seq<char>| unparen(w))
}

pub open spec fn any_consume(ws: Seq<Seq<char>>) -> bool {
    exists|i: int| 0 <= i < ws.len() && spec_starts_with(lower_of(#[trigger] ws[i]), "consume"@)
}

pub open spec fn has_worth(ws: Seq<Seq<char>>) -> bool {
    exists|i: int| 0 <= i < ws.len() && #[trigger] ws[i] == "worth"@
}

/// The first index at or after `k` whose word is a `u32`.
pub open spec fn first_u32_from(ws: Seq<Seq<char>>, k: int) -> Option<int>
    decreases ws.len() - k,
{
    if k < 0 || k >= ws.len() {
        None
    } else if spec_parse_unsigned(ws[k], 4294967295) is Ok {
        Some(k)
    } else {
        first_u32_from(ws, k + 1)
    }
}

/// A cost: the first number among the words and the currency after it.
pub open spec fn cost_of(ws: Seq<Seq<char>>) -> Result<ItemValue, Failure> {
    match first_u32_from(ws, 0) {
        None => Err(parse_failure_with(spec_join(ws, " "@), "Components (material): value"@, "No word found that parses as u32."@)),
        Some(k) => if k + 1 >= ws.len() {
            Err(bounds_failure(ws, ((k + 1) as u32) as int, "Components (material): currency"@))
        } else {
            match lexicon_outcome(currency_word(lower_of(ws[k + 1])), ws[k + 1], "Currency"@) {
                Err(f) => Err(f),
                Ok(c) => match spec_parse_unsigned(ws[k], 4294967295) {
                    Ok(v) => Ok(ItemValue { value: v as u32, unit: c }),
                    Err(_) => Err(parse_failure(ws[k], "Components (material): value"@)),
                },
            }
        },
    }
}

/// Components over views: verbal, somatic, and the material description,
/// cost and consumption.
pub type ComponentsView = (bool, bool, Option<(Seq<char>, Option<ItemValue>, bool)>);

pub open spec fn components_view(c: Components) -> ComponentsView {
    (
        c.verbal,
        c.somatic,
        match c.material {
            Some(m) => Some((m.component@, m.value, m.consumed)),
            None => None,
        },
    )
}

/// The components from word `i` of the stripped line on: "v", "s" and "m"
/// scanned left to right; the material takes its description from the
/// raw line.
pub open spec fn components_from(ws: Seq<Seq<char>>, i: int, raw: Seq<char>) -> Result<ComponentsView, Failure>
    decreases ws.len() - i,
{
    if i < 0 || i >= ws.len() {
        Ok((false, false, None))
    } else if ws[i] == "v"@ {
        match components_from(ws, i + 1, raw) {
            Ok((_, s, m)) => Ok((true, s, m)),
            Err(e) => Err(e),
        }
    } else if ws[i] == "s"@ {
        match components_from(ws, i + 1, raw) {
            Ok((_, _, m)) => Ok((false, true, m)),
            Err(e) => Err(e),
        }
    } else if ws[i] == "m"@ {
        let mw = material_words(raw);
        if has_worth(mw) {
            match cost_of(ws.subrange(i, ws.len() as int)) {
                Err(e) => Err(e),
                Ok(v) => Ok((false, false, Some((spec_join(mw, " "@), Some(v), any_consume(mw))))),
            }
        } else {
            Ok((false, false, Some((spec_join(mw, " "@), None, any_consume(mw)))))
        }
    } else {
        Ok((false, false, None))
    }
}

/// The components line, given its stripped form: at least one component
/// is required.
pub open spec fn components_of(stripped: Seq<char>, raw: Seq<char>) -> Result<ComponentsView, Failure> {
    match components_from(spec_split(stripped, " "@), 0, raw) {
        Err(e) => Err(e),
        Ok(c) => if c.0 || c.1 || c.2 is Some {
            Ok(c)
        } else {
            Err(parse_failure_with(raw, "Components"@, "No components could be parsed."@))
        },
    }
}

fn material_words_exec(raw: &str) -> (r: Vec<String>)
    ensures
        views(r@) == material_words(raw@),
{
    proof {
        reveal_strlit(" ");
        reveal_strlit("(");
        reveal_strlit(")");
    }
    let words = split(raw, " ");
    let ghost ws = views(words@);
    let mut k: usize = 0;
    let mut found = false;
    assert(ws.subrange(0, ws.len() as int) =~= ws);
    while k < words.len() && !found
        invariant
            k <= words.len(),
            ws == views(words@),
            !found ==> after_m(ws) == after_m(ws.subrange(k as int, ws.len() as int)),
            found ==> k < words.len() && after_m(ws) == ws.subrange(k + 1, ws.len() as int),
        decreases words.len() - k + (if found { 0int } else { 1int }),
    {
        let l = lowercase(words[k].as_str());
        proof {
            assert(ws.subrange(k as int, ws.len() as int)[0] == words@[k as int]@);
            assert(ws.subrange(k as int, ws.len() as int).drop_first() =~= ws.subrange(k + 1, ws.len() as int));
        }
        if eq_str(l.as_str(), "m") {
            found = true;
        } else {
            k += 1;
        }
    }
    let ghost rest = if found {
        ws.subrange(k + 1, ws.len() as int)
    } else {
        Seq::<Seq<char>>::empty()
    };
    assert(after_m(ws) == rest) by {
        if !found {
            assert(ws.subrange(k as int, ws.len() as int) =~= Seq::<Seq<char>>::empty());
        }
    }
    if !found {
        let out: Vec<String> = Vec::new();
        assert(views(out@) =~= material_words(raw@));
        return out;
    }
    let mut out: Vec<String> = Vec::new();
    let mut i: usize = k + 1;
    assert(rest.take(0) =~= Seq::<Seq<char>>::empty());
    while i < words.len()
        invariant
            k < i <= words.len(),
            ws == views(words@),
            rest == ws.subrange(k + 1, ws.len() as int),
            views(out@) =~= rest.take(i - k - 1).map_values(|w: Seq<char>| unparen(w)),
        decreases words.len() - i,
    {
        proof {
            reveal_strlit("(");
            reveal_strlit(")");
        }
        let a = crate::text::replace(words[i].as_str(), "(", "");
        let b = crate::text::replace(a.as_str(), ")", "");
        proof {
            assert(rest[i - k - 1] == words@[i as int]@);
            assert(rest.take(i - k).map_values(|w: Seq<char>| unparen(w)) =~= rest.take(i - k - 1).map_values(
                |w: Seq<char>| unparen(w),
            ).push(unparen(rest[i - k - 1])));
            assert(views(out@.push(b)) =~= views(out@).push(b@));
        }
        out.push(b);
        i += 1;
    }
    proof {
        assert(rest.take(i - k - 1) =~= rest);
    }
    out
}

fn consume_exec(ws: &Vec<String>) -> (r: bool)
    ensures
        r == any_consume(views(ws@)),
{
    let mut i: usize = 0;
    while i < ws.len()
        invariant
            i <= ws.len(),
            forall|j: int| 0 <= j < i ==> !spec_starts_with(lower_of(#[trigger] views(ws@)[j]), "consume"@),
        decreases ws.len() - i,
    {
        let l = lowercase(ws[i].as_str());
        if starts_with(l.as_str(), "consume") {
            assert(views(ws@)[i as int] == ws@[i as int]@);
            return true;
        }
        assert(views(ws@)[i as int] == ws@[i as int]@);
        i += 1;
    }
    false
}

fn worth_exec(ws: &Vec<String>) -> (r: bool)
    ensures
        r == has_worth(views(ws@)),
{
    let mut i: usize = 0;
    while i < ws.len()
        invariant
            i <= ws.len(),
            forall|j: int| 0 <= j < i ==> #[trigger] views(ws@)[j] != "worth"@,
        decreases ws.len() - i,
    {
        assert(views(ws@)[i as int] == ws@[i as int]@);
        if eq_str(ws[i].as_str(), "worth") {
            return true;
        }
        i += 1;
    }
    false
}

fn cost_exec(ws: &Vec<String>, from: usize) -> (r: Result<ItemValue, Error>)
    requires
        from <= ws.len(),
    ensures
        outcome(r) == cost_of(views(ws@).subrange(from as int, ws.len() as int)),
{
    let rest = tail_of(ws, from);
    let ghost rs = views(rest@);
    let mut k: usize = 0;
    let mut found: Option<u32> = None;
    while k < rest.len() && found.is_none()
        invariant
            k <= rest.len(),
            rs == views(rest@),
            found is None ==> first_u32_from(rs, 0) == first_u32_from(rs, k as int),
            found matches Some(n) ==> k < rest.len() && first_u32_from(rs, 0) == Some(k as int)
                && spec_parse_unsigned(rs[k as int], 4294967295) == Ok::<int, crate::number::IntErrorKind>(n as int),
        decreases rest.len() - k + (if found is None { 1int } else { 0int }),
    {
        proof {
            assert(rs[k as int] == rest@[k as int]@);
        }
        match parse_unsigned(rest[k].as_str(), 4294967295) {
            Ok(n) => {
                found = Some(n as u32);
            },
            Err(_) => {
                k += 1;
            },
        }
    }
    let value = match found {
        Some(n) => n,
        None => {
            let text = join(&rest, " ");
            return Err(Error::Parse(ParseError::new_with_problem(text.as_str(), "Components (material): value", "No word found that parses as u32.")));
        },
    };
    if k + 1 >= rest.len() {
        let index = #[verifier::truncate] ((k + 1) as u32);
        return Err(Error::OutOfBounds(OutOfBoundsError::new(rest, index, "Components (material): currency")));
    }
    proof {
        assert(rs[k + 1] == rest@[k + 1]@);
    }
    let unit = match Currency::try_from(rest[k + 1].as_str()) {
        Ok(c) => c,
        Err(e) => {
            return Err(Error::Parse(e));
        },
    };
    Ok(ItemValue { value, unit })
}

fn components_from_exec(ws: &Vec<String>, i: usize, raw: &str) -> (r: Result<Components, Error>)
    requires
        i <= ws.len(),
    ensures
        outcome_by(r, |c: Components| components_view(c)) == components_from(views(ws@), i as int, raw@),
    decreases ws.len() - i,
{
    if i >= ws.len() {
        return Ok(Components { verbal: false, somatic: false, material: None });
    }
    proof {
        assert(views(ws@)[i as int] == ws@[i as int]@);
    }
    let w = ws[i].as_str();
    if eq_str(w, "v") {
        let other = components_from_exec(ws, i + 1, raw)?;
        Ok(Components { verbal: true, somatic: other.somatic, material: other.material })
    } else if eq_str(w, "s") {
        let other = components_from_exec(ws, i + 1, raw)?;
        Ok(Components { verbal: false, somatic: true, material: other.material })
    } else if eq_str(w, "m") {
        let mw = material_words_exec(raw);
        let component = join(&mw, " ");
        let consumed = consume_exec(&mw);
        let value = if worth_exec(&mw) {
            Some(cost_exec(ws, i)?)
        } else {
            None
        };
        Ok(Components { verbal: false, somatic: false, material: Some(MaterialComponent { component, value, consumed }) })
    } else {
        Ok(Components { verbal: false, somatic: false, material: None })
    }
}

/// Components from a line already reduced to lower-case words, with the
/// raw line for the material description.
pub fn parse_stripped_components(stripped: &str, raw: &str) -> (r: Result<Components, Error>)
    ensures
        outcome_by(r, |c: Components| components_view(c)) == components_of(stripped@, raw@),
{
    proof {
        reveal_strlit(" ");
    }
    let words = split(stripped, " ");
    let c = components_from_exec(&words, 0, raw)?;
    if c.verbal || c.somatic || c.material.is_some() {
        Ok(c)
    } else {
        Err(Error::Parse(ParseError::new_with_problem(raw, "Components", "No components could be parsed.")))
    }
}

/// The components line: `v`, `s` and `m <description…>`.
pub fn parse_components(components_str: String) -> (r: Result<Components, Error>)
    ensures
        outcome_by(r, |c: Components| components_view(c)) == components_of(
            stripped_of(components_str@),
            components_str@,
        ),
{
    let stripped = strip_str(components_str.as_str());
    parse_stripped_components(stripped.as_str(), components_str.as_str())
}

/// A line that is left out of a spell: an empty one, or one that starts
/// with `<` (markup).
pub open spec fn excluded(l: Seq<char>) -> bool {
    l.len() == 0 || l[0] == '<'
}

/// The lines that are not left out, in order.
pub open spec fn kept_lines(ls: Seq<Seq<char>>) -> Seq<Seq<char>>
    decreases ls.len(),
{
    if ls.len() == 0 {
        Seq::empty()
    } else if excluded(ls.last()) {
        kept_lines(ls.drop_last())
    } else {
        kept_lines(ls.drop_last()).push(ls.last())
    }
}

/// The sentinel line between the sections of a spell.
pub open spec fn is_divider(l: Seq<char>) -> bool {
    l == "___"@
}

/// The maximal runs of lines that are not the sentinel.
pub open spec fn spell_groups_of(ls: Seq<Seq<char>>) -> Seq<Seq<Seq<char>>>
    decreases ls.len(),
{
    if ls.len() == 0 {
        Seq::empty()
    } else {
        let prev = spell_groups_of(ls.drop_last());
        let l = ls.last();
        if is_divider(l) {
            prev
        } else if ls.len() >= 2 && !is_divider(ls[ls.len() - 2]) {
            prev.update(prev.len() - 1, prev.last().push(l))
        } else {
            prev.push(seq![l])
        }
    }
}

fn kept_lines_exec(spell: &str) -> (r: Vec<String>)
    ensures
        views(r@) == kept_lines(spec_split(spell@, "\n"@)),
{
    proof {
        reveal_strlit("\n");
    }
    let lines = split(spell, "\n");
    let ghost ls = views(lines@);
    let mut kept: Vec<String> = Vec::new();
    let mut i: usize = 0;
    assert(ls.take(0) =~= Seq::<Seq<char>>::empty());
    assert(views(kept@) =~= Seq::<Seq<char>>::empty());
    while i < lines.len()
        invariant
            i <= lines.len(),
            ls == views(lines@),
            views(kept@) == kept_lines(ls.take(i as int)),
        decreases lines.len() - i,
    {
        proof {
            assert(ls.take(i + 1).drop_last() =~= ls.take(i as int));
            assert(ls.take(i + 1).last() == lines@[i as int]@);
        }
        let l = lines[i].as_str();
        let n = l.unicode_len();
        if n != 0 && l.get_char(0) != '<' {
            let x = lines[i].clone();
            proof {
                assert(views(kept@.push(x)) =~= views(kept@).push(x@));
            }
            kept.push(x);
        }
        i += 1;
    }
    proof {
        assert(ls.take(i as int) =~= ls);
    }
    kept
}

/// Splits a spell into its sections: markup and empty lines are dropped,
/// then the rest is split at sentinel lines.
pub fn split_spell_into_groups(spell: &str) -> (r: Vec<Vec<String>>)
    ensures
        crate::parsers::creatures::group_views(r@) == spell_groups_of(kept_lines(spec_split(spell@, "\n"@))),
{
    let lines = kept_lines_exec(spell);
    let ghost ls = views(lines@);
    let mut groups: Vec<Vec<String>> = Vec::new();
    let mut current: Vec<String> = Vec::new();
    let mut open = false;
    let mut i: usize = 0;
    assert(ls.take(0) =~= Seq::<Seq<char>>::empty());
    assert(crate::parsers::creatures::group_views(groups@) =~= Seq::<Seq<Seq<char>>>::empty());
    while i < lines.len()
        invariant
            i <= lines.len(),
            ls == views(lines@),
            open == (i > 0 && !is_divider(ls[i - 1])),
            spell_groups_of(ls.take(i as int)) == if open {
                crate::parsers::creatures::group_views(groups@).push(views(current@))
            } else {
                crate::parsers::creatures::group_views(groups@)
            },
        decreases lines.len() - i,
    {
        proof {
            assert(ls.take(i + 1).drop_last() =~= ls.take(i as int));
            assert(ls.take(i + 1).last() == ls[i as int]);
            if i > 0 {
                assert(ls.take(i + 1)[i - 1] == ls[i - 1]);
            }
            assert(ls[i as int] == lines@[i as int]@);
        }
        if !eq_str(lines[i].as_str(), "___") {
            let x = lines[i].clone();
            if open {
                proof {
                    assert(views(current@.push(x)) =~= views(current@).push(x@));
                    assert(crate::parsers::creatures::group_views(groups@).push(views(current@)).update(
                        crate::parsers::creatures::group_views(groups@).len() as int,
                        views(current@).push(x@),
                    ) =~= crate::parsers::creatures::group_views(groups@).push(views(current@).push(x@)));
                }
                current.push(x);
            } else {
                let mut fresh: Vec<String> = Vec::new();
                proof {
                    assert(views(fresh@.push(x)) =~= seq![x@]);
                }
                fresh.push(x);
                current = fresh;
            }
            open = true;
        } else {
            if open {
                proof {
                    assert(crate::parsers::creatures::group_views(groups@.push(current)) =~= crate::parsers::creatures::group_views(
                        groups@,
                    ).push(views(current@)));
                }
                groups.push(current);
                current = Vec::new();
            }
            open = false;
        }
        i += 1;
    }
    proof {
        assert(ls.take(i as int) =~= ls);
    }
    if open {
        proof {
            assert(crate::parsers::creatures::group_views(groups@.push(current)) =~= crate::parsers::creatures::group_views(
                groups@,
            ).push(views(current@)));
        }
        groups.push(current);
    }
    groups
}

/// All lines of the groups, in order.
pub open spec fn flatten(gs: Seq<Seq<Seq<char>>>) -> Seq<Seq<char>>
    decreases gs.len(),
{
    if gs.len() == 0 {
        Seq::empty()
    } else {
        flatten(gs.drop_last()) + gs.last()
    }
}

pub open spec fn is_bold(l: Seq<char>) -> bool {
    spec_starts_with(l, "**"@)
}

pub open spec fn is_list_item(l: Seq<char>) -> bool {
    spec_starts_with(l, "- "@)
}

/// The first index at or after `k` whose line is (`bold`) or is not bold.
pub open spec fn first_from(ls: Seq<Seq<char>>, k: int, bold: bool) -> int
    decreases ls.len() - k,
{
    if k < 0 || k >= ls.len() {
        ls.len() as int
    } else if is_bold(ls[k]) == bold {
        k
    } else {
        first_from(ls, k + 1, bold)
    }
}

/// The damage types named by the words, in order.
pub open spec fn types_in_words(ws: Seq<Seq<char>>) -> Seq<DamageType>
    decreases ws.len(),
{
    if ws.len() == 0 {
        Seq::empty()
    } else {
        match damage_type_word(lower_of(ws.last())) {
            Some(d) => types_in_words(ws.drop_last()).push(d),
            None => types_in_words(ws.drop_last()),
        }
    }
}

/// The damage types named by the words of the lines, in order.
pub open spec fn types_in_lines(ls: Seq<Seq<char>>) -> Seq<DamageType>
    decreases ls.len(),
{
    if ls.len() == 0 {
        Seq::empty()
    } else {
        types_in_lines(ls.drop_last()) + types_in_words(spec_split(ls.last(), " "@))
    }
}

/// Each element once, at its first position.
pub open spec fn dedup(s: Seq<DamageType>) -> Seq<DamageType>
    decreases s.len(),
{
    if s.len() == 0 {
        Seq::empty()
    } else if dedup(s.drop_last()).contains(s.last()) {
        dedup(s.drop_last())
    } else {
        dedup(s.drop_last()).push(s.last())
    }
}

/// A description over views; list items carry whether they are plain
/// entries.
pub enum DescriptionView {
    Entry(Seq<char>),
    List(Seq<(Seq<char>, bool)>),
}

pub open spec fn item_view(d: Description) -> (Seq<char>, bool) {
    match d {
        Description::Entry(s) => (s@, true),
        Description::List(_) => (Seq::empty(), false),
    }
}

pub open spec fn description_view(d: Description) -> DescriptionView {
    match d {
        Description::Entry(s) => DescriptionView::Entry(s@),
        Description::List(v) => DescriptionView::List(v@.map_values(|x: Description| item_view(x))),
    }
}

pub open spec fn description_views(v: Seq<Description>) -> Seq<DescriptionView> {
    v.map_values(|d: Description| description_view(d))
}

/// Paragraphs and lists: each run of `- ` lines becomes one list of their
/// texts; every other line is a paragraph.
pub open spec fn descriptions_of(ls: Seq<Seq<char>>) -> Seq<DescriptionView>
    decreases ls.len(),
{
    if ls.len() == 0 {
        Seq::empty()
    } else {
        let prev = descriptions_of(ls.drop_last());
        let l = ls.last();
        let item = (l.subrange(2, l.len() as int), true);
        if !is_list_item(l) {
            prev.push(DescriptionView::Entry(l))
        } else if ls.len() >= 2 && is_list_item(ls[ls.len() - 2]) {
            match prev.last() {
                DescriptionView::List(items) => prev.update(prev.len() - 1, DescriptionView::List(items.push(item))),
                DescriptionView::Entry(_) => prev,
            }
        } else {
            prev.push(DescriptionView::List(seq![item]))
        }
    }
}

/// The "at higher levels" line without its three-word bold label, with
/// runs of spaces collapsed.
pub open spec fn higher_text(l: Seq<char>) -> Seq<char> {
    let ws = crate::parsers::creatures::nonempty_lines(spec_split(l, " "@));
    if ws.len() <= 3 {
        Seq::empty()
    } else {
        spec_join(ws.subrange(3, ws.len() as int), " "@)
    }
}

/// The entries over views: damage types, descriptions, higher-level text.
pub type EntriesView = (Option<Seq<DamageType>>, Seq<DescriptionView>, Option<Seq<char>>);

/// The entries: every line that does not start with the bold marker is
/// description, in order; the first bold line, if any, is the "at higher
/// levels" text; damage types are those the description names. Without a
/// description line the entries are refused.
pub open spec fn entries_of(gs: Seq<Seq<Seq<char>>>) -> Result<EntriesView, Failure> {
    let ls = flatten(gs);
    let main = plain_lines(ls);
    let b = first_from(ls, 0, true);
    let types = dedup(types_in_lines(main));
    if main.len() == 0 {
        Err(parse_failure_with(spec_join(ls, "\n"@), "Entries: main entries"@, "No entries found."@))
    } else {
        Ok((
            if types.len() == 0 {
                None
            } else {
                Some(types)
            },
            descriptions_of(main),
            if b < ls.len() {
                Some(higher_text(ls[b]))
            } else {
                None
            },
        ))
    }
}

/// The lines that do not start with the bold marker, in order.
pub open spec fn plain_lines(ls: Seq<Seq<char>>) -> Seq<Seq<char>>
    decreases ls.len(),
{
    if ls.len() == 0 {
        Seq::empty()
    } else if is_bold(ls.last()) {
        plain_lines(ls.drop_last())
    } else {
        plain_lines(ls.drop_last()).push(ls.last())
    }
}

pub open spec fn entries_view(x: (Option<Vec<DamageType>>, Vec<Description>, Option<String>)) -> EntriesView {
    (
        match x.0 {
            Some(v) => Some(v@),
            None => None,
        },
        description_views(x.1@),
        crate::utils::error::opt_view(x.2),
    )
}

fn flatten_exec(groups: &Vec<Vec<String>>) -> (r: Vec<String>)
    ensures
        views(r@) == flatten(crate::parsers::creatures::group_views(groups@)),
{
    let ghost gs = crate::parsers::creatures::group_views(groups@);
    let mut out: Vec<String> = Vec::new();
    let mut i: usize = 0;
    assert(gs.take(0) =~= Seq::<Seq<Seq<char>>>::empty());
    assert(views(out@) =~= Seq::<Seq<char>>::empty());
    while i < groups.len()
        invariant
            i <= groups.len(),
            gs == crate::parsers::creatures::group_views(groups@),
            views(out@) == flatten(gs.take(i as int)),
        decreases groups.len() - i,
    {
        proof {
            assert(gs.take(i + 1).drop_last() =~= gs.take(i as int));
            assert(gs.take(i + 1).last() == views(groups@[i as int]@));
        }
        let ghost before = views(out@);
        let mut j: usize = 0;
        while j < groups[i].len()
            invariant
                i < groups.len(),
                j <= groups@[i as int].len(),
                views(out@) =~= before + views(groups@[i as int]@).take(j as int),
            decreases groups@[i as int].len() - j,
        {
            let x = groups[i][j].clone();
            proof {
                assert(views(out@.push(x)) =~= views(out@).push(x@));
            }
            out.push(x);
            j += 1;
        }
        proof {
            assert(views(groups@[i as int]@).take(j as int) =~= views(groups@[i as int]@));
        }
        i += 1;
    }
    proof {
        assert(gs.take(i as int) =~= gs);
    }
    out
}

fn contains_type(v: &Vec<DamageType>, d: DamageType) -> (r: bool)
    ensures
        r == v@.contains(d),
{
    let mut i: usize = 0;
    while i < v.len()
        invariant
            i <= v.len(),
            forall|j: int| 0 <= j < i ==> v@[j] != d,
        decreases v.len() - i,
    {
        if v[i] == d {
            return true;
        }
        i += 1;
    }
    false
}

fn damage_types_in(main: &Vec<String>) -> (r: Vec<DamageType>)
    ensures
        r@ == dedup(types_in_lines(views(main@))),
{
    proof {
        reveal_strlit(" ");
    }
    let ghost ms = views(main@);
    let mut found: Vec<DamageType> = Vec::new();
    let mut i: usize = 0;
    assert(ms.take(0) =~= Seq::<Seq<char>>::empty());
    while i < main.len()
        invariant
            i <= main.len(),
            ms == views(main@),
            found@ == dedup(types_in_lines(ms.take(i as int))),
        decreases main.len() - i,
    {
        proof {
            reveal_strlit(" ");
            assert(ms.take(i + 1).drop_last() =~= ms.take(i as int));
            assert(ms.take(i + 1).last() == main@[i as int]@);
        }
        let words = split(main[i].as_str(), " ");
        let ghost ws = views(words@);
        let ghost base = types_in_lines(ms.take(i as int));
        let mut j: usize = 0;
        assert(ws.take(0) =~= Seq::<Seq<char>>::empty());
        assert(base + types_in_words(ws.take(0)) =~= base);
        while j < words.len()
            invariant
                j <= words.len(),
                ws == views(words@),
                found@ == dedup(base + types_in_words(ws.take(j as int))),
            decreases words.len() - j,
        {
            proof {
                assert(ws.take(j + 1).drop_last() =~= ws.take(j as int));
                assert(ws.take(j + 1).last() == words@[j as int]@);
            }
            match DamageType::try_from(words[j].as_str()) {
                Ok(d) => {
                    proof {
                        assert(base + types_in_words(ws.take(j + 1)) =~= (base + types_in_words(ws.take(j as int))).push(d));
                        assert((base + types_in_words(ws.take(j + 1))).drop_last() =~= base + types_in_words(ws.take(j as int)));
                    }
                    if !contains_type(&found, d) {
                        found.push(d);
                    }
                },
                Err(_) => {
                    proof {
                        assert(base + types_in_words(ws.take(j + 1)) =~= base + types_in_words(ws.take(j as int)));
                    }
                },
            }
            j += 1;
        }
        proof {
            assert(ws.take(j as int) =~= ws);
        }
        i += 1;
    }
    proof {
        assert(ms.take(i as int) =~= ms);
    }
    found
}

fn descriptions_exec(main: &Vec<String>) -> (r: Vec<Description>)
    ensures
        description_views(r@) == descriptions_of(views(main@)),
{
    proof {
        reveal_strlit("- ");
    }
    let ghost ms = views(main@);
    let mut out: Vec<Description> = Vec::new();
    let mut items: Vec<Description> = Vec::new();
    let mut in_list = false;
    let mut i: usize = 0;
    assert(ms.take(0) =~= Seq::<Seq<char>>::empty());
    assert(description_views(out@) =~= Seq::<DescriptionView>::empty());
    while i < main.len()
        invariant
            i <= main.len(),
            ms == views(main@),
            in_list == (i > 0 && is_list_item(ms[i - 1])),
            descriptions_of(ms.take(i as int)) == if in_list {
                description_views(out@).push(DescriptionView::List(items@.map_values(|x: Description| item_view(x))))
            } else {
                description_views(out@)
            },
        decreases main.len() - i,
    {
        proof {
            reveal_strlit("- ");
            assert(ms.take(i + 1).drop_last() =~= ms.take(i as int));
            assert(ms.take(i + 1).last() == ms[i as int]);
            if i > 0 {
                assert(ms.take(i + 1)[i - 1] == ms[i - 1]);
            }
            assert(ms[i as int] == main@[i as int]@);
        }
        let line = main[i].as_str();
        match strip_prefix(line, "- ") {
            Some(text) => {
                let item = Description::Entry(text);
                proof {
                    assert(items@.push(item).map_values(|x: Description| item_view(x)) =~= items@.map_values(
                        |x: Description| item_view(x),
                    ).push(item_view(item)));
                }
                if in_list {
                    items.push(item);
                } else {
                    let mut fresh: Vec<Description> = Vec::new();
                    fresh.push(item);
                    proof {
                        assert(fresh@.map_values(|x: Description| item_view(x)) =~= seq![item_view(item)]);
                    }
                    items = fresh;
                }
                in_list = true;
            },
            None => {
                if in_list {
                    let list = Description::List(items);
                    proof {
                        assert(description_views(out@.push(list)) =~= description_views(out@).push(description_view(list)));
                    }
                    out.push(list);
                    items = Vec::new();
                }
                let entry = Description::Entry(main[i].clone());
                proof {
                    assert(description_views(out@.push(entry)) =~= description_views(out@).push(description_view(entry)));
                }
                out.push(entry);
                in_list = false;
            },
        }
        i += 1;
    }
    proof {
        assert(ms.take(i as int) =~= ms);
    }
    if in_list {
        let list = Description::List(items);
        proof {
            assert(description_views(out@.push(list)) =~= description_views(out@).push(description_view(list)));
        }
        out.push(list);
    }
    out
}

fn higher_text_exec(l: &str) -> (r: String)
    ensures
        r@ == higher_text(l@),
{
    proof {
        reveal_strlit(" ");
    }
    let words = split(l, " ");
    let ghost ws = views(words@);
    let mut kept: Vec<String> = Vec::new();
    let mut i: usize = 0;
    assert(ws.take(0) =~= Seq::<Seq<char>>::empty());
    assert(views(kept@) =~= Seq::<Seq<char>>::empty());
    while i < words.len()
        invariant
            i <= words.len(),
            ws == views(words@),
            views(kept@) == crate::parsers::creatures::nonempty_lines(ws.take(i as int)),
        decreases words.len() - i,
    {
        proof {
            assert(ws.take(i + 1).drop_last() =~= ws.take(i as int));
            assert(ws.take(i + 1).last() == words@[i as int]@);
        }
        if words[i].as_str().unicode_len() != 0 {
            let x = words[i].clone();
            proof {
                assert(views(kept@.push(x)) =~= views(kept@).push(x@));
            }
            kept.push(x);
        }
        i += 1;
    }
    proof {
        assert(ws.take(i as int) =~= ws);
    }
    if kept.len() <= 3 {
        return String::new();
    }
    let rest = tail_of(&kept, 3);
    join(&rest, " ")
}

/// The description entries of a spell, its damage types, and its "at
/// higher levels" text.
pub fn parse_entries(all_entries: &Vec<Vec<String>>) -> (r: Result<(Option<Vec<DamageType>>, Vec<Description>, Option<String>), Error>)
    ensures
        outcome_by(r, |x: (Option<Vec<DamageType>>, Vec<Description>, Option<String>)| entries_view(x))
            == entries_of(crate::parsers::creatures::group_views(all_entries@)),
{
    proof {
        reveal_strlit("**");
    }
    let lines = flatten_exec(all_entries);
    let ghost ls = views(lines@);
    let mut main: Vec<String> = Vec::new();
    let mut bold_at: Option<usize> = None;
    let mut i: usize = 0;
    assert(ls.take(0) =~= Seq::<Seq<char>>::empty());
    assert(views(main@) =~= Seq::<Seq<char>>::empty());
    while i < lines.len()
        invariant
            i <= lines.len(),
            ls == views(lines@),
            views(main@) == plain_lines(ls.take(i as int)),
            bold_at is None ==> first_from(ls, 0, true) == first_from(ls, i as int, true),
            bold_at matches Some(b) ==> b < i && first_from(ls, 0, true) == b,
        decreases lines.len() - i,
    {
        proof {
            reveal_strlit("**");
            assert(ls.take(i + 1).drop_last() =~= ls.take(i as int));
            assert(ls.take(i + 1).last() == ls[i as int]);
            assert(ls[i as int] == lines@[i as int]@);
        }
        if starts_with(lines[i].as_str(), "**") {
            if bold_at.is_none() {
                bold_at = Some(i);
            }
        } else {
            let x = lines[i].clone();
            proof {
                assert(views(main@.push(x)) =~= views(main@).push(x@));
            }
            main.push(x);
        }
        i += 1;
    }
    proof {
        assert(ls.take(i as int) =~= ls);
    }
    if main.len() == 0 {
        let text = join(&lines, "\n");
        return Err(Error::Parse(ParseError::new_with_problem(text.as_str(), "Entries: main entries", "No entries found.")));
    }
    let higher = match bold_at {
        Some(b) => {
            proof {
                assert(ls[b as int] == lines@[b as int]@);
            }
            Some(higher_text_exec(lines[b].as_str()))
        },
        None => None,
    };
    let types = damage_types_in(&main);
    let descriptions = descriptions_exec(&main);
    let types = if types.len() == 0 {
        None
    } else {
        Some(types)
    };
    Ok((types, descriptions, higher))
}

/// The value of the first decimal digit of `s`, or 0 when there is none.
pub open spec fn first_digit(s: Seq<char>) -> u8
    decreases s.len(),
{
    if s.len() == 0 {
        0
    } else if '0' <= s[0] && s[0] <= '9' {
        (s[0] as u32 - '0' as u32) as u8
    } else {
        first_digit(s.drop_first())
    }
}

/// The first word that names a school.
pub open spec fn school_in(ws: Seq<Seq<char>>) -> Option<MagicSchool>
    decreases ws.len(),
{
    if ws.len() == 0 {
        None
    } else {
        match school_word(lower_of(ws[0])) {
            Some(s) => Some(s),
            None => school_in(ws.drop_first()),
        }
    }
}

/// The identity group of a spell: a `#### ` name line, then level, school
/// and ritual tag.
pub open spec fn spell_first_group_of(g: Seq<Seq<char>>) -> Result<(Seq<char>, u8, MagicSchool, bool), Failure> {
    if g.len() == 0 {
        Err(bounds_failure(g, 0, "Name"@))
    } else if g.len() == 1 {
        Err(bounds_failure(g, 1, "Level and School"@))
    } else if g.len() > 2 {
        Err(bounds_failure(g, (g.len() as u32) as int, "Identity group"@))
    } else {
        identity_of(g[0], stripped_of(g[1]))
    }
}

/// The name line and the level-and-school line (already reduced to
/// lower-case words): the name without its heading marker, the first digit
/// as the level (0 when there is none), the first school named, and whether
/// the word "ritual" is there.
pub open spec fn identity_of(name_line: Seq<char>, las: Seq<char>) -> Result<(Seq<char>, u8, MagicSchool, bool), Failure> {
    let name = spec_replace(name_line, "#### "@, ""@);
    let ws = spec_split(las, " "@);
    match school_in(ws) {
        None => Err(parse_failure(las, "School of Magic"@)),
        Some(school) => Ok((name, first_digit(las), school, ws.contains("ritual"@))),
    }
}

fn first_digit_exec(s: &str) -> (r: u8)
    ensures
        r == first_digit(s@),
{
    let cs = crate::text::chars_of(s);
    let mut i: usize = 0;
    assert(s@.subrange(0, s@.len() as int) =~= s@);
    while i < cs.len()
        invariant
            i <= cs.len(),
            cs@ == s@,
            first_digit(s@) == first_digit(s@.subrange(i as int, s@.len() as int)),
        decreases cs.len() - i,
    {
        proof {
            assert(s@.subrange(i as int, s@.len() as int).drop_first() =~= s@.subrange(i + 1, s@.len() as int));
            assert(s@.subrange(i as int, s@.len() as int)[0] == cs@[i as int]);
        }
        let c = cs[i];
        if '0' <= c && c <= '9' {
            return ((c as u32) - ('0' as u32)) as u8;
        }
        i += 1;
    }
    proof {
        assert(s@.subrange(i as int, s@.len() as int) =~= Seq::<char>::empty());
    }
    0
}

/// Parses a spell's identity group into name, level, school and ritual tag.
pub fn parse_first_group(group: &Vec<String>) -> (r: Result<(String, u8, MagicSchool, bool), Error>)
    ensures
        outcome_by(r, |x: (String, u8, MagicSchool, bool)| (x.0@, x.1, x.2, x.3)) == spell_first_group_of(views(group@)),
{
    if group.len() == 0 {
        return Err(Error::OutOfBounds(OutOfBoundsError::new(group.clone(), 0, "Name")));
    }
    if group.len() < 2 {
        let copy = tail_of(group, 0);
        proof {
            assert(views(group@).subrange(0, group.len() as int) =~= views(group@));
        }
        return Err(Error::OutOfBounds(OutOfBoundsError::new(copy, 1, "Level and School")));
    }
    if group.len() > 2 {
        let copy = tail_of(group, 0);
        proof {
            assert(views(group@).subrange(0, group.len() as int) =~= views(group@));
        }
        let n = #[verifier::truncate] (group.len() as u32);
        return Err(Error::OutOfBounds(OutOfBoundsError::new(copy, n, "Identity group")));
    }
    let las = strip_str(group[1].as_str());
    parse_identity(group[0].as_str(), las.as_str())
}

/// The identity of a spell from its name line and its level-and-school
/// line already reduced to lower-case words.
pub fn parse_identity(name_line: &str, level_and_school: &str) -> (r: Result<(String, u8, MagicSchool, bool), Error>)
    ensures
        outcome_by(r, |x: (String, u8, MagicSchool, bool)| (x.0@, x.1, x.2, x.3)) == identity_of(name_line@, level_and_school@),
{
    proof {
        reveal_strlit("#### ");
        reveal_strlit(" ");
    }
    let name = crate::text::replace(name_line, "#### ", "");
    let words = split(level_and_school, " ");
    let ghost ws = views(words@);
    let mut i: usize = 0;
    let mut school: Option<MagicSchool> = None;
    assert(ws.subrange(0, ws.len() as int) =~= ws);
    while i < words.len() && school.is_none()
        invariant
            i <= words.len(),
            ws == views(words@),
            school is None ==> school_in(ws) == school_in(ws.subrange(i as int, ws.len() as int)),
            school is Some ==> school_in(ws) == school,
        decreases words.len() - i + (if school is None { 1int } else { 0int }),
    {
        proof {
            assert(ws.subrange(i as int, ws.len() as int)[0] == words@[i as int]@);
            assert(ws.subrange(i as int, ws.len() as int).drop_first() =~= ws.subrange(i + 1, ws.len() as int));
        }
        match MagicSchool::try_from(words[i].as_str()) {
            Ok(s) => {
                school = Some(s);
            },
            Err(_) => {
                i += 1;
            },
        }
    }
    proof {
        if school is None {
            assert(ws.subrange(i as int, ws.len() as int) =~= Seq::<Seq<char>>::empty());
        }
    }
    let school = match school {
        Some(s) => s,
        None => {
            return Err(Error::Parse(ParseError::new(level_and_school, "School of Magic")));
        },
    };
    let level = first_digit_exec(level_and_school);
    let mut ritual = false;
    let mut j: usize = 0;
    while j < words.len()
        invariant
            j <= words.len(),
            ws == views(words@),
            ritual == (exists|t: int| 0 <= t < j && ws[t] == "ritual"@),
        decreases words.len() - j,
    {
        proof {
            assert(ws[j as int] == words@[j as int]@);
        }
        if eq_str(words[j].as_str(), "ritual") {
            ritual = true;
        }
        j += 1;
    }
    proof {
        if ritual {
            let t = choose|t: int| 0 <= t < j && ws[t] == "ritual"@;
            assert(ws[t] == "ritual"@);
        } else {
            assert forall|t: int| 0 <= t < ws.len() implies ws[t] != "ritual"@ by {}
        }
    }
    Ok((name, level, school, ritual))
}

/// The mechanics group over views.
pub type SecondGroupView = ((u8, CastingUnitView), Range, ComponentsView, Duration, Seq<Classes>);

pub type SecondGroup = (CastingTime, Range, Components, Duration, Vec<Classes>);

pub open spec fn second_view(x: SecondGroup) -> SecondGroupView {
    (casting_time_view(x.0), x.1, components_view(x.2), x.3, x.4@)
}

/// Each line reduced to lower-case words.
pub open spec fn stripped_lines(g: Seq<Seq<char>>) -> Seq<Seq<char>> {
    g.map_values(|l: Seq<char>| stripped_of(l))
}

/// The mechanics group: casting time, range, components, duration and
/// classes, one line each; the components are read from the raw line.
pub open spec fn spell_second_group_of(g: Seq<Seq<char>>) -> Result<SecondGroupView, Failure> {
    if g.len() != 5 {
        Err(bounds_failure(g, (g.len() as u32) as int, "Mechanics group"@))
    } else {
        mechanics_of(g, stripped_lines(g))
    }
}

/// The five mechanics lines `g`, given the same lines reduced to lower-case
/// words `st`: casting time, range, components (read from the line as
/// given), duration and classes.
pub open spec fn mechanics_of(g: Seq<Seq<char>>, st: Seq<Seq<char>>) -> Result<SecondGroupView, Failure> {
    match casting_time_of(st[0]) {
        Err(e) => Err(e),
        Ok(ct) => match range_of(st[1]) {
            Err(e) => Err(e),
            Ok(range) => match components_of(st[2], g[2]) {
                Err(e) => Err(e),
                Ok(comps) => match duration_of(st[3]) {
                    Err(e) => Err(e),
                    Ok(d) => match classes_of(st[4]) {
                        Err(e) => Err(e),
                        Ok(cl) => Ok((ct, range, comps, d, cl)),
                    },
                },
            },
        },
    }
}

fn strip_all(group: &Vec<String>) -> (r: Vec<String>)
    ensures
        views(r@) == stripped_lines(views(group@)),
{
    let mut out: Vec<String> = Vec::new();
    let mut i: usize = 0;
    while i < group.len()
        invariant
            i <= group.len(),
            views(out@) =~= stripped_lines(views(group@)).take(i as int),
        decreases group.len() - i,
    {
        let t = strip_str(group[i].as_str());
        proof {
            assert(views(out@.push(t)) =~= views(out@).push(t@));
        }
        out.push(t);
        i += 1;
    }
    proof {
        assert(stripped_lines(views(group@)).take(i as int) =~= stripped_lines(views(group@)));
    }
    out
}

/// Parses a spell's mechanics group: exactly five lines, checked before
/// any field is read.
pub fn parse_second_group(group: &Vec<String>) -> (r: Result<SecondGroup, Error>)
    ensures
        outcome_by(r, |x: SecondGroup| second_view(x)) == spell_second_group_of(views(group@)),
{
    if group.len() != 5 {
        let copy = tail_of(group, 0);
        proof {
            assert(views(group@).subrange(0, group.len() as int) =~= views(group@));
        }
        let n = #[verifier::truncate] (group.len() as u32);
        return Err(Error::OutOfBounds(OutOfBoundsError::new(copy, n, "Mechanics group")));
    }
    let st = strip_all(group);
    proof {
        assert(views(st@).len() == st@.len());
    }
    parse_mechanics(group, &st)
}

/// The mechanics of a spell from its five lines and the same lines already
/// reduced to lower-case words.
pub fn parse_mechanics(group: &Vec<String>, stripped: &Vec<String>) -> (r: Result<SecondGroup, Error>)
    requires
        group.len() == 5,
        stripped.len() == 5,
    ensures
        outcome_by(r, |x: SecondGroup| second_view(x)) == mechanics_of(views(group@), views(stripped@)),
{
    proof {
        assert(views(stripped@)[0] == stripped@[0]@);
        assert(views(stripped@)[1] == stripped@[1]@);
        assert(views(stripped@)[2] == stripped@[2]@);
        assert(views(stripped@)[3] == stripped@[3]@);
        assert(views(stripped@)[4] == stripped@[4]@);
        assert(views(group@)[2] == group@[2]@);
    }
    let casting_time = parse_casting_time(stripped[0].as_str())?;
    let range = parse_range(stripped[1].as_str())?;
    let components = parse_stripped_components(stripped[2].as_str(), group[2].as_str())?;
    let duration = parse_duration(stripped[3].clone())?;
    let classes = parse_classes(stripped[4].clone())?;
    Ok((casting_time, range, components, duration, classes))
}

/// A spell record over views.
pub struct SpellView {
    pub source: (Seq<char>, i16),
    pub name: Seq<char>,
    pub level: u8,
    pub school: MagicSchool,
    pub casting_time: (u8, CastingUnitView),
    pub ritual: bool,
    pub duration: Duration,
    pub range: Range,
    pub components: ComponentsView,
    pub damage_types: Option<Seq<DamageType>>,
    pub description: Seq<DescriptionView>,
    pub at_higher_levels: Option<Seq<char>>,
    pub classes: Seq<Classes>,
}

pub open spec fn spell_view(s: Spell) -> SpellView {
    SpellView {
        source: (s.source.source_book@, s.source.page),
        name: s.name@,
        level: s.level,
        school: s.school,
        casting_time: casting_time_view(s.casting_time),
        ritual: s.ritual,
        duration: s.duration,
        range: s.range,
        components: components_view(s.components),
        damage_types: match s.damage_types {
            Some(v) => Some(v@),
            None => None,
        },
        description: description_views(s.description@),
        at_higher_levels: crate::utils::error::opt_view(s.at_higher_levels),
        classes: s.classes@,
    }
}

/// The sections of a spell's text.
pub open spec fn spell_sections(text: Seq<char>) -> Seq<Seq<Seq<char>>> {
    spell_groups_of(kept_lines(spec_split(text, "\n"@)))
}

/// A whole spell: the identity section, the mechanics section, and the
/// entries in the sections after them.
pub open spec fn spell_of(text: Seq<char>, source: (Seq<char>, i16)) -> Result<SpellView, Failure> {
    let gs = spell_sections(text);
    let joined = gs.map_values(|g: Seq<Seq<char>>| spec_join(g, "\n"@));
    if gs.len() < 1 {
        Err(bounds_failure(joined, 0, "First group parsing"@))
    } else {
        match spell_first_group_of(gs[0]) {
            Err(e) => Err(e),
            Ok((name, level, school, ritual)) => if gs.len() < 2 {
                Err(bounds_failure(joined, 1, "Second group parsing"@))
            } else {
                match spell_second_group_of(gs[1]) {
                    Err(e) => Err(e),
                    Ok((casting_time, range, components, duration, classes)) => match entries_of(
                        gs.subrange(2, gs.len() as int),
                    ) {
                        Err(e) => Err(e),
                        Ok((damage_types, description, at_higher_levels)) => Ok(
                            SpellView {
                                source,
                                name,
                                level,
                                school,
                                casting_time,
                                ritual,
                                duration,
                                range,
                                components,
                                damage_types,
                                description,
                                at_higher_levels,
                                classes,
                            },
                        ),
                    },
                }
            },
        }
    }
}

fn joined_groups(groups: &Vec<Vec<String>>) -> (r: Vec<String>)
    ensures
        views(r@) == crate::parsers::creatures::group_views(groups@).map_values(
            |g: Seq<Seq<char>>| spec_join(g, "\n"@),
        ),
{
    let mut out: Vec<String> = Vec::new();
    let mut i: usize = 0;
    while i < groups.len()
        invariant
            i <= groups.len(),
            views(out@) =~= crate::parsers::creatures::group_views(groups@).map_values(
                |g: Seq<Seq<char>>| spec_join(g, "\n"@),
            ).take(i as int),
        decreases groups.len() - i,
    {
        let j = join(&groups[i], "\n");
        proof {
            assert(views(out@.push(j)) =~= views(out@).push(j@));
        }
        out.push(j);
        i += 1;
    }
    out
}

/// Parses one spell write-up into a spell record.
pub fn parse_gm_binder<'a>(source_file: String, source_book: Source<'a>) -> (r: Result<Spell<'a>, Error>)
    ensures
        outcome_by(r, |s: Spell<'a>| spell_view(s)) == spell_of(
            source_file@,
            (source_book.source_book@, source_book.page),
        ),
{
    let mut groups = split_spell_into_groups(source_file.as_str());
    if groups.len() < 1 {
        let joined = joined_groups(&groups);
        return Err(Error::OutOfBounds(OutOfBoundsError::new(joined, 0, "First group parsing")));
    }
    proof {
        assert(crate::parsers::creatures::group_views(groups@)[0] == views(groups@[0]@));
    }
    let (name, level, school, ritual) = parse_first_group(&groups[0])?;
    if groups.len() < 2 {
        let joined = joined_groups(&groups);
        return Err(Error::OutOfBounds(OutOfBoundsError::new(joined, 1, "Second group parsing")));
    }
    proof {
        assert(crate::parsers::creatures::group_views(groups@)[1] == views(groups@[1]@));
    }
    let (casting_time, range, components, duration, classes) = parse_second_group(&groups[1])?;
    let ghost all = groups@;
    let rest = groups.split_off(2);
    proof {
        assert(crate::parsers::creatures::group_views(rest@) =~= crate::parsers::creatures::group_views(all).subrange(
            2,
            all.len() as int,
        ));
    }
    let (damage_types, description, at_higher_levels) = parse_entries(&rest)?;
    Ok(Spell {
        source: source_book,
        name,
        level,
        school,
        casting_time,
        ritual,
        duration,
        range,
        components,
        damage_types,
        description,
        at_higher_levels,
        classes,
    })
}

/// The failures that only say that a text is not a spell at all: a batch
/// caller skips these silently and reports every other one. They are a
/// missing or malformed identity group (no group, one line, more than two
/// lines) and a name or school step that fails.
pub open spec fn not_a_spell(f: Failure) -> bool {
    match f {
        Failure::OutOfBounds { step, .. } => step == "First group parsing"@ || step
            == "Level and School"@ || step == "Identity group"@,
        Failure::Parse { step, .. } => spec_starts_with(step, "Name"@) || spec_starts_with(
            step,
            "School of Magic"@,
        ),
    }
}

/// Whether a failure only says that the text is not a spell.
pub fn is_not_a_spell(err: &Error) -> (r: bool)
    ensures
        r == not_a_spell(err.failure()),
{
    match err {
        Error::OutOfBounds(o) => {
            let step = o.parsing_step.as_str();
            eq_str(step, "First group parsing") || eq_str(step, "Level and School") || eq_str(
                step,
                "Identity group",
            )
        },
        Error::Parse(p) => {
            let step = p.parsing_step.as_str();
            starts_with(step, "Name") || starts_with(step, "School of Magic")
        },
    }
}

} // verus!
