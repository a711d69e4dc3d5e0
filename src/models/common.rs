//! Shared vocabularies and entry types: damage types, classes, conditions,
//! ability scores, skills, alignments, and named text entries.
use vstd::prelude::*;
use vstd::string::*;
use crate::text::eq_str;

verus! {

/// A description entry: a paragraph, or a bulleted list of entries.
#[derive(Debug, PartialEq, Eq)]
pub enum Description {
    Entry(String),
    List(Vec<Description>),
}

/// Where a record was published: a book abbreviation and a page, stored
/// as given.
#[derive(Debug, Clone, PartialEq, Eq)]
pub struct Source<'a> {
    pub source_book: &'a str,
    pub page: i16,
}

/// The kind of action an activity takes; a reaction carries its trigger.
#[derive(Debug, PartialEq, Eq, Clone)]
pub enum ActionType {
    Action,
    BonusAction,
    Reaction { condition: String },
}

/// `w` names an action type: `Action` for "action", `BonusAction` for
/// "bonus" or "bonus action", and a reaction with an empty trigger for
/// "reaction".
pub open spec fn action_type_word(w: Seq<char>, a: ActionType) -> bool {
    match a {
        ActionType::Action => w == "action"@,
        ActionType::BonusAction => w == "bonus"@ || w == "bonus action"@,
        ActionType::Reaction { condition } => w == "reaction"@ && condition@.len() == 0,
    }
}

pub open spec fn is_action_type_word(w: Seq<char>) -> bool {
    w == "action"@ || w == "bonus"@ || w == "bonus action"@ || w == "reaction"@
}

impl ActionType {
    /// The action type spelled `w`, if any.
    pub fn from_word(w: &str) -> (r: Option<ActionType>)
        ensures
            match r {
                Some(a) => action_type_word(w@, a),
                None => !is_action_type_word(w@),
            },
    {
        if eq_str(w, "bonus") || eq_str(w, "bonus action") {
            Some(ActionType::BonusAction)
        } else if eq_str(w, "action") {
            Some(ActionType::Action)
        } else if eq_str(w, "reaction") {
            Some(ActionType::Reaction { condition: String::new() })
        } else {
            None
        }
    }
}

/// A unit of game time.
#[derive(Clone, Copy, Debug, PartialEq, Eq, Structural, Hash)]
pub enum TimeUnit {
    Round,
    Minute,
    Hour,
    Day,
    Year,
}

/// The time unit spelled `w`, singular or plural.
pub open spec fn time_unit_word(w: Seq<char>) -> Option<TimeUnit> {
    if w == "rounds"@ || w == "round"@ {
        Some(TimeUnit::Round)
    } else if w == "minute"@ || w == "minutes"@ {
        Some(TimeUnit::Minute)
    } else if w == "hour"@ || w == "hours"@ {
        Some(TimeUnit::Hour)
    } else if w == "day"@ || w == "days"@ {
        Some(TimeUnit::Day)
    } else if w == "year"@ || w == "years"@ {
        Some(TimeUnit::Year)
    } else {
        None
    }
}

impl TimeUnit {
    /// The entry of the vocabulary spelled `w`, if any.
    pub fn from_word(w: &str) -> (r: Option<TimeUnit>)
        ensures
            r == time_unit_word(w@),
    {
        if eq_str(w, "rounds") || eq_str(w, "round") {
            Some(TimeUnit::Round)
        } else if eq_str(w, "minute") || eq_str(w, "minutes") {
            Some(TimeUnit::Minute)
        } else if eq_str(w, "hour") || eq_str(w, "hours") {
            Some(TimeUnit::Hour)
        } else if eq_str(w, "day") || eq_str(w, "days") {
            Some(TimeUnit::Day)
        } else if eq_str(w, "year") || eq_str(w, "years") {
            Some(TimeUnit::Year)
        } else {
            None
        }
    }
}

/// A unit of distance.
#[derive(Clone, Copy, Debug, PartialEq, Eq, Structural, Hash)]
pub enum RangeUnit {
    Feet,
    Miles,
}

/// The distance unit spelled `w`, singular or plural.
pub open spec fn range_unit_word(w: Seq<char>) -> Option<RangeUnit> {
    if w == "foot"@ || w == "feet"@ {
        Some(RangeUnit::Feet)
    } else if w == "mile"@ || w == "miles"@ {
        Some(RangeUnit::Miles)
    } else {
        None
    }
}

impl RangeUnit {
    /// The entry of the vocabulary spelled `w`, if any.
    pub fn from_word(w: &str) -> (r: Option<RangeUnit>)
        ensures
            r == range_unit_word(w@),
    {
        if eq_str(w, "foot") || eq_str(w, "feet") {
            Some(RangeUnit::Feet)
        } else if eq_str(w, "mile") || eq_str(w, "miles") {
            Some(RangeUnit::Miles)
        } else {
            None
        }
    }
}

/// A type of damage.
#[derive(Clone, Copy, Debug, PartialEq, Eq, Structural, Hash)]
pub enum DamageType {
    Acid,
    Bludgeoning,
    Cold,
    Fire,
    Force,
    Lightning,
    Necrotic,
    Piercing,
    Poison,
    Psychic,
    Radiant,
    Slashing,
    Thunder,
}

/// The damage type spelled `w` in lower case.
pub open spec fn damage_type_word(w: Seq<char>) -> Option<DamageType> {
    if w == "acid"@ {
        Some(DamageType::Acid)
    } else if w == "bludgeoning"@ {
        Some(DamageType::Bludgeoning)
    } else if w == "cold"@ {
        Some(DamageType::Cold)
    } else if w == "fire"@ {
        Some(DamageType::Fire)
    } else if w == "force"@ {
        Some(DamageType::Force)
    } else if w == "lightning"@ {
        Some(DamageType::Lightning)
    } else if w == "necrotic"@ {
        Some(DamageType::Necrotic)
    } else if w == "piercing"@ {
        Some(DamageType::Piercing)
    } else if w == "poison"@ {
        Some(DamageType::Poison)
    } else if w == "psychic"@ {
        Some(DamageType::Psychic)
    } else if w == "radiant"@ {
        Some(DamageType::Radiant)
    } else if w == "slashing"@ {
        Some(DamageType::Slashing)
    } else if w == "thunder"@ {
        Some(DamageType::Thunder)
    } else {
        None
    }
}

impl DamageType {
    /// The entry of the vocabulary spelled `w`, if any.
    pub fn from_word(w: &str) -> (r: Option<DamageType>)
        ensures
            r == damage_type_word(w@),
    {
        if eq_str(w, "acid") {
            Some(DamageType::Acid)
        } else if eq_str(w, "bludgeoning") {
            Some(DamageType::Bludgeoning)
        } else if eq_str(w, "cold") {
            Some(DamageType::Cold)
        } else if eq_str(w, "fire") {
            Some(DamageType::Fire)
        } else if eq_str(w, "force") {
            Some(DamageType::Force)
        } else if eq_str(w, "lightning") {
            Some(DamageType::Lightning)
        } else if eq_str(w, "necrotic") {
            Some(DamageType::Necrotic)
        } else if eq_str(w, "piercing") {
            Some(DamageType::Piercing)
        } else if eq_str(w, "poison") {
            Some(DamageType::Poison)
        } else if eq_str(w, "psychic") {
            Some(DamageType::Psychic)
        } else if eq_str(w, "radiant") {
            Some(DamageType::Radiant)
        } else if eq_str(w, "slashing") {
            Some(DamageType::Slashing)
        } else if eq_str(w, "thunder") {
            Some(DamageType::Thunder)
        } else {
            None
        }
    }
}

/// Every damage type, in the order of declaration.
pub open spec fn spec_all_damage_types() -> Seq<DamageType> {
    seq![DamageType::Acid, DamageType::Bludgeoning, DamageType::Cold, DamageType::Fire, DamageType::Force, DamageType::Lightning, DamageType::Necrotic, DamageType::Piercing, DamageType::Poison, DamageType::Psychic, DamageType::Radiant, DamageType::Slashing, DamageType::Thunder]
}

/// Every damage type, in the order of declaration.
pub fn all_damage_types() -> (r: Vec<DamageType>)
    ensures
        r@ == spec_all_damage_types(),
{
    let mut v: Vec<DamageType> = Vec::new();
    v.push(DamageType::Acid);
    v.push(DamageType::Bludgeoning);
    v.push(DamageType::Cold);
    v.push(DamageType::Fire);
    v.push(DamageType::Force);
    v.push(DamageType::Lightning);
    v.push(DamageType::Necrotic);
    v.push(DamageType::Piercing);
    v.push(DamageType::Poison);
    v.push(DamageType::Psychic);
    v.push(DamageType::Radiant);
    v.push(DamageType::Slashing);
    v.push(DamageType::Thunder);
    assert(v@ =~= spec_all_damage_types());
    v
}

/// A character class.
#[derive(Clone, Copy, Debug, PartialEq, Eq, Structural, Hash)]
pub enum Classes {
    Artificer,
    Barbarian,
    Bard,
    Cleric,
    Druid,
    Fighter,
    Monk,
    Paladin,
    Ranger,
    Rogue,
    Sorcerer,
    Warlock,
    Wizard,
}

/// The class spelled `w` in lower case.
pub open spec fn class_word(w: Seq<char>) -> Option<Classes> {
    if w == "artificer"@ {
        Some(Classes::Artificer)
    } else if w == "barbarian"@ {
        Some(Classes::Barbarian)
    } else if w == "bard"@ {
        Some(Classes::Bard)
    } else if w == "cleric"@ {
        Some(Classes::Cleric)
    } else if w == "druid"@ {
        Some(Classes::Druid)
    } else if w == "fighter"@ {
        Some(Classes::Fighter)
    } else if w == "monk"@ {
        Some(Classes::Monk)
    } else if w == "paladin"@ {
        Some(Classes::Paladin)
    } else if w == "ranger"@ {
        Some(Classes::Ranger)
    } else if w == "rogue"@ {
        Some(Classes::Rogue)
    } else if w == "sorcerer"@ {
        Some(Classes::Sorcerer)
    } else if w == "warlock"@ {
        Some(Classes::Warlock)
    } else if w == "wizard"@ {
        Some(Classes::Wizard)
    } else {
        None
    }
}

impl Classes {
    /// The entry of the vocabulary spelled `w`, if any.
    pub fn from_word(w: &str) -> (r: Option<Classes>)
        ensures
            r == class_word(w@),
    {
        if eq_str(w, "artificer") {
            Some(Classes::Artificer)
        } else if eq_str(w, "barbarian") {
            Some(Classes::Barbarian)
        } else if eq_str(w, "bard") {
            Some(Classes::Bard)
        } else if eq_str(w, "cleric") {
            Some(Classes::Cleric)
        } else if eq_str(w, "druid") {
            Some(Classes::Druid)
        } else if eq_str(w, "fighter") {
            Some(Classes::Fighter)
        } else if eq_str(w, "monk") {
            Some(Classes::Monk)
        } else if eq_str(w, "paladin") {
            Some(Classes::Paladin)
        } else if eq_str(w, "ranger") {
            Some(Classes::Ranger)
        } else if eq_str(w, "rogue") {
            Some(Classes::Rogue)
        } else if eq_str(w, "sorcerer") {
            Some(Classes::Sorcerer)
        } else if eq_str(w, "warlock") {
            Some(Classes::Warlock)
        } else if eq_str(w, "wizard") {
            Some(Classes::Wizard)
        } else {
            None
        }
    }
}

impl Classes {
    /// The abbreviation of the book that publishes the class.
    pub fn source_book(self) -> (r: String)
        ensures
            r@ == (if self == Classes::Artificer {
                "TCE"@
            } else {
                "PHB"@
            }),
    {
        match self {
            Classes::Artificer => "TCE".to_owned(),
            _ => "PHB".to_owned(),
        }
    }
}

/// A status condition.
#[derive(Clone, Copy, Debug, PartialEq, Eq, Structural, Hash)]
pub enum StatusCondition {
    Blinded,
    Charmed,
    Deafened,
    Exhaustion,
    Frightened,
    Grappled,
    Incapacitated,
    Invisible,
    Paralyzed,
    Petrified,
    Poisoned,
    Prone,
    Restrained,
    Stunned,
}

/// The condition spelled `w` in lower case.
pub open spec fn status_condition_word(w: Seq<char>) -> Option<StatusCondition> {
    if w == "blinded"@ {
        Some(StatusCondition::Blinded)
    } else if w == "charmed"@ {
        Some(StatusCondition::Charmed)
    } else if w == "deafened"@ {
        Some(StatusCondition::Deafened)
    } else if w == "exhaustion"@ {
        Some(StatusCondition::Exhaustion)
    } else if w == "frightened"@ {
        Some(StatusCondition::Frightened)
    } else if w == "grappled"@ {
        Some(StatusCondition::Grappled)
    } else if w == "incapacitated"@ {
        Some(StatusCondition::Incapacitated)
    } else if w == "invisible"@ {
        Some(StatusCondition::Invisible)
    } else if w == "paralyzed"@ {
        Some(StatusCondition::Paralyzed)
    } else if w == "petrified"@ {
        Some(StatusCondition::Petrified)
    } else if w == "poisoned"@ {
        Some(StatusCondition::Poisoned)
    } else if w == "prone"@ {
        Some(StatusCondition::Prone)
    } else if w == "restrained"@ {
        Some(StatusCondition::Restrained)
    } else if w == "stunned"@ {
        Some(StatusCondition::Stunned)
    } else {
        None
    }
}

impl StatusCondition {
    /// The entry of the vocabulary spelled `w`, if any.
    pub fn from_word(w: &str) -> (r: Option<StatusCondition>)
        ensures
            r == status_condition_word(w@),
    {
        if eq_str(w, "blinded") {
            Some(StatusCondition::Blinded)
        } else if eq_str(w, "charmed") {
            Some(StatusCondition::Charmed)
        } else if eq_str(w, "deafened") {
            Some(StatusCondition::Deafened)
        } else if eq_str(w, "exhaustion") {
            Some(StatusCondition::Exhaustion)
        } else if eq_str(w, "frightened") {
            Some(StatusCondition::Frightened)
        } else if eq_str(w, "grappled") {
            Some(StatusCondition::Grappled)
        } else if eq_str(w, "incapacitated") {
            Some(StatusCondition::Incapacitated)
        } else if eq_str(w, "invisible") {
            Some(StatusCondition::Invisible)
        } else if eq_str(w, "paralyzed") {
            Some(StatusCondition::Paralyzed)
        } else if eq_str(w, "petrified") {
            Some(StatusCondition::Petrified)
        } else if eq_str(w, "poisoned") {
            Some(StatusCondition::Poisoned)
        } else if eq_str(w, "prone") {
            Some(StatusCondition::Prone)
        } else if eq_str(w, "restrained") {
            Some(StatusCondition::Restrained)
        } else if eq_str(w, "stunned") {
            Some(StatusCondition::Stunned)
        } else {
            None
        }
    }
}

/// One of the six abilities.
#[derive(Clone, Copy, Debug, PartialEq, Eq, Structural, Hash)]
pub enum AbilityScore {
    Strength,
    Dexterity,
    Constitution,
    Intelligence,
    Wisdom,
    Charisma,
}

/// The ability abbreviated `w` (its first three letters, lower case).
pub open spec fn ability_score_word(w: Seq<char>) -> Option<AbilityScore> {
    if w == "str"@ {
        Some(AbilityScore::Strength)
    } else if w == "dex"@ {
        Some(AbilityScore::Dexterity)
    } else if w == "con"@ {
        Some(AbilityScore::Constitution)
    } else if w == "int"@ {
        Some(AbilityScore::Intelligence)
    } else if w == "wis"@ {
        Some(AbilityScore::Wisdom)
    } else if w == "cha"@ {
        Some(AbilityScore::Charisma)
    } else {
        None
    }
}

impl AbilityScore {
    /// The entry of the vocabulary spelled `w`, if any.
    pub fn from_word(w: &str) -> (r: Option<AbilityScore>)
        ensures
            r == ability_score_word(w@),
    {
        if eq_str(w, "str") {
            Some(AbilityScore::Strength)
        } else if eq_str(w, "dex") {
            Some(AbilityScore::Dexterity)
        } else if eq_str(w, "con") {
            Some(AbilityScore::Constitution)
        } else if eq_str(w, "int") {
            Some(AbilityScore::Intelligence)
        } else if eq_str(w, "wis") {
            Some(AbilityScore::Wisdom)
        } else if eq_str(w, "cha") {
            Some(AbilityScore::Charisma)
        } else {
            None
        }
    }
}

/// A skill.
#[derive(Clone, Copy, Debug, PartialEq, Eq, Structural, Hash)]
pub enum Skill {
    Acrobatics,
    AnimalHandling,
    Arcana,
    Athletics,
    Deception,
    History,
    Insight,
    Intimidation,
    Investigation,
    Medicine,
    Nature,
    Perception,
    Performance,
    Persuasion,
    Religion,
    SleightOfHand,
    Stealth,
    Survival,
}

/// The skill spelled `w` in lower case.
pub open spec fn skill_word(w: Seq<char>) -> Option<Skill> {
    if w == "acrobatics"@ {
        Some(Skill::Acrobatics)
    } else if w == "animal handling"@ {
        Some(Skill::AnimalHandling)
    } else if w == "arcana"@ {
        Some(Skill::Arcana)
    } else if w == "athletics"@ {
        Some(Skill::Athletics)
    } else if w == "deception"@ {
        Some(Skill::Deception)
    } else if w == "history"@ {
        Some(Skill::History)
    } else if w == "insight"@ {
        Some(Skill::Insight)
    } else if w == "intimidation"@ {
        Some(Skill::Intimidation)
    } else if w == "investigation"@ {
        Some(Skill::Investigation)
    } else if w == "medicine"@ {
        Some(Skill::Medicine)
    } else if w == "nature"@ {
        Some(Skill::Nature)
    } else if w == "perception"@ {
        Some(Skill::Perception)
    } else if w == "performance"@ {
        Some(Skill::Performance)
    } else if w == "persuasion"@ {
        Some(Skill::Persuasion)
    } else if w == "religion"@ {
        Some(Skill::Religion)
    } else if w == "sleight of hand"@ {
        Some(Skill::SleightOfHand)
    } else if w == "stealth"@ {
        Some(Skill::Stealth)
    } else if w == "survival"@ {
        Some(Skill::Survival)
    } else {
        None
    }
}

impl Skill {
    /// The entry of the vocabulary spelled `w`, if any.
    pub fn from_word(w: &str) -> (r: Option<Skill>)
        ensures
            r == skill_word(w@),
    {
        if eq_str(w, "acrobatics") {
            Some(Skill::Acrobatics)
        } else if eq_str(w, "animal handling") {
            Some(Skill::AnimalHandling)
        } else if eq_str(w, "arcana") {
            Some(Skill::Arcana)
        } else if eq_str(w, "athletics") {
            Some(Skill::Athletics)
        } else if eq_str(w, "deception") {
            Some(Skill::Deception)
        } else if eq_str(w, "history") {
            Some(Skill::History)
        } else if eq_str(w, "insight") {
            Some(Skill::Insight)
        } else if eq_str(w, "intimidation") {
            Some(Skill::Intimidation)
        } else if eq_str(w, "investigation") {
            Some(Skill::Investigation)
        } else if eq_str(w, "medicine") {
            Some(Skill::Medicine)
        } else if eq_str(w, "nature") {
            Some(Skill::Nature)
        } else if eq_str(w, "perception") {
            Some(Skill::Perception)
        } else if eq_str(w, "performance") {
            Some(Skill::Performance)
        } else if eq_str(w, "persuasion") {
            Some(Skill::Persuasion)
        } else if eq_str(w, "religion") {
            Some(Skill::Religion)
        } else if eq_str(w, "sleight of hand") {
            Some(Skill::SleightOfHand)
        } else if eq_str(w, "stealth") {
            Some(Skill::Stealth)
        } else if eq_str(w, "survival") {
            Some(Skill::Survival)
        } else {
            None
        }
    }
}

/// A standard or exotic language.
#[derive(Clone, Copy, Debug, PartialEq, Eq, Structural, Hash)]
pub enum Language {
    Common,
    Dwarvish,
    Elvish,
    Giant,
    Gnomish,
    Goblin,
    Halfling,
    Orc,
    Abyssal,
    Celestial,
    Draconic,
    DeepSpeech,
    Infernal,
    Primordial,
    Sylvan,
    Undercommon,
}

/// The law/chaos axis of alignment.
#[derive(Clone, Copy, Debug, PartialEq, Eq, Structural, Hash)]
pub enum AlignmentAxisOrder {
    Lawful,
    Neutral,
    Chaotic,
}

/// The position on the law/chaos axis spelled `w`.
pub open spec fn order_word(w: Seq<char>) -> Option<AlignmentAxisOrder> {
    if w == "lawful"@ {
        Some(AlignmentAxisOrder::Lawful)
    } else if w == "neutral"@ {
        Some(AlignmentAxisOrder::Neutral)
    } else if w == "chaotic"@ {
        Some(AlignmentAxisOrder::Chaotic)
    } else {
        None
    }
}

impl AlignmentAxisOrder {
    /// The entry of the vocabulary spelled `w`, if any.
    pub fn from_word(w: &str) -> (r: Option<AlignmentAxisOrder>)
        ensures
            r == order_word(w@),
    {
        if eq_str(w, "lawful") {
            Some(AlignmentAxisOrder::Lawful)
        } else if eq_str(w, "neutral") {
            Some(AlignmentAxisOrder::Neutral)
        } else if eq_str(w, "chaotic") {
            Some(AlignmentAxisOrder::Chaotic)
        } else {
            None
        }
    }
}

/// The good/evil axis of alignment.
#[derive(Clone, Copy, Debug, PartialEq, Eq, Structural, Hash)]
pub enum AlignmentAxisMoral {
    Good,
    Neutral,
    Evil,
}

/// The position on the good/evil axis spelled `w`.
pub open spec fn moral_word(w: Seq<char>) -> Option<AlignmentAxisMoral> {
    if w == "good"@ {
        Some(AlignmentAxisMoral::Good)
    } else if w == "neutral"@ {
        Some(AlignmentAxisMoral::Neutral)
    } else if w == "evil"@ {
        Some(AlignmentAxisMoral::Evil)
    } else {
        None
    }
}

impl AlignmentAxisMoral {
    /// The entry of the vocabulary spelled `w`, if any.
    pub fn from_word(w: &str) -> (r: Option<AlignmentAxisMoral>)
        ensures
            r == moral_word(w@),
    {
        if eq_str(w, "good") {
            Some(AlignmentAxisMoral::Good)
        } else if eq_str(w, "neutral") {
            Some(AlignmentAxisMoral::Neutral)
        } else if eq_str(w, "evil") {
            Some(AlignmentAxisMoral::Evil)
        } else {
            None
        }
    }
}

/// A position on one of the two axes.
#[derive(Debug, Clone, Copy, PartialEq, Eq, Structural)]
pub enum AlignmentAxis {
    Order(AlignmentAxisOrder),
    Moral(AlignmentAxisMoral),
}

/// A creature's alignment: one axis, both axes, any, or none.
#[derive(Debug, Clone, Copy, PartialEq, Eq, Structural)]
pub enum Alignment {
    OneAxis(AlignmentAxis),
    TwoAxes { order: AlignmentAxisOrder, moral: AlignmentAxisMoral },
    Any,
    Unaligned,
}

/// A named block of text (a trait or an action), with optional named
/// sub-entries.
#[derive(Debug, PartialEq, Eq)]
pub struct NamedEntry {
    pub name: String,
    pub entry: String,
    pub sub_entries: Option<Vec<NamedEntry>>,
}

} // verus!
