//! The creature record and its field types.
use vstd::prelude::*;
use vstd::string::*;
use crate::models::common::{
    AbilityScore, Alignment, DamageType, NamedEntry, Skill, Source, StatusCondition,
};
use crate::text::eq_str;

verus! {

/// A creature's size category.
#[derive(Clone, Copy, Debug, PartialEq, Eq, Structural, Hash)]
pub enum Size {
    Tiny,
    Small,
    Medium,
    Large,
    Huge,
    Gargantuan,
}

/// The size spelled `w` in lower case.
pub open spec fn size_word(w: Seq<char>) -> Option<Size> {
    if w == "tiny"@ {
        Some(Size::Tiny)
    } else if w == "small"@ {
        Some(Size::Small)
    } else if w == "medium"@ {
        Some(Size::Medium)
    } else if w == "large"@ {
        Some(Size::Large)
    } else if w == "huge"@ {
        Some(Size::Huge)
    } else if w == "gargantuan"@ {
        Some(Size::Gargantuan)
    } else {
        None
    }
}

impl Size {
    /// The entry of the vocabulary spelled `w`, if any.
    pub fn from_word(w: &str) -> (r: Option<Size>)
        ensures
            r == size_word(w@),
    {
        if eq_str(w, "tiny") {
            Some(Size::Tiny)
        } else if eq_str(w, "small") {
            Some(Size::Small)
        } else if eq_str(w, "medium") {
            Some(Size::Medium)
        } else if eq_str(w, "large") {
            Some(Size::Large)
        } else if eq_str(w, "huge") {
            Some(Size::Huge)
        } else if eq_str(w, "gargantuan") {
            Some(Size::Gargantuan)
        } else {
            None
        }
    }
}

/// A creature's main type.
#[derive(Clone, Copy, Debug, PartialEq, Eq, Structural, Hash)]
pub enum CreatureTypeEnum {
    Aberration,
    Beast,
    Celestial,
    Construct,
    Dragon,
    Elemental,
    Fey,
    Fiend,
    Giant,
    Humanoid,
    Monstrosity,
    Ooze,
    Plant,
    Undead,
}

/// The creature type spelled `w` in lower case.
pub open spec fn creature_type_word(w: Seq<char>) -> Option<CreatureTypeEnum> {
    if w == "aberration"@ {
        Some(CreatureTypeEnum::Aberration)
    } else if w == "beast"@ {
        Some(CreatureTypeEnum::Beast)
    } else if w == "celestial"@ {
        Some(CreatureTypeEnum::Celestial)
    } else if w == "construct"@ {
        Some(CreatureTypeEnum::Construct)
    } else if w == "dragon"@ {
        Some(CreatureTypeEnum::Dragon)
    } else if w == "elemental"@ {
        Some(CreatureTypeEnum::Elemental)
    } else if w == "fey"@ {
        Some(CreatureTypeEnum::Fey)
    } else if w == "fiend"@ {
        Some(CreatureTypeEnum::Fiend)
    } else if w == "giant"@ {
        Some(CreatureTypeEnum::Giant)
    } else if w == "humanoid"@ {
        Some(CreatureTypeEnum::Humanoid)
    } else if w == "monstrosity"@ {
        Some(CreatureTypeEnum::Monstrosity)
    } else if w == "ooze"@ {
        Some(CreatureTypeEnum::Ooze)
    } else if w == "plant"@ {
        Some(CreatureTypeEnum::Plant)
    } else if w == "undead"@ {
        Some(CreatureTypeEnum::Undead)
    } else {
        None
    }
}

impl CreatureTypeEnum {
    /// The entry of the vocabulary spelled `w`, if any.
    pub fn from_word(w: &str) -> (r: Option<CreatureTypeEnum>)
        ensures
            r == creature_type_word(w@),
    {
        if eq_str(w, "aberration") {
            Some(CreatureTypeEnum::Aberration)
        } else if eq_str(w, "beast") {
            Some(CreatureTypeEnum::Beast)
        } else if eq_str(w, "celestial") {
            Some(CreatureTypeEnum::Celestial)
        } else if eq_str(w, "construct") {
            Some(CreatureTypeEnum::Construct)
        } else if eq_str(w, "dragon") {
            Some(CreatureTypeEnum::Dragon)
        } else if eq_str(w, "elemental") {
            Some(CreatureTypeEnum::Elemental)
        } else if eq_str(w, "fey") {
            Some(CreatureTypeEnum::Fey)
        } else if eq_str(w, "fiend") {
            Some(CreatureTypeEnum::Fiend)
        } else if eq_str(w, "giant") {
            Some(CreatureTypeEnum::Giant)
        } else if eq_str(w, "humanoid") {
            Some(CreatureTypeEnum::Humanoid)
        } else if eq_str(w, "monstrosity") {
            Some(CreatureTypeEnum::Monstrosity)
        } else if eq_str(w, "ooze") {
            Some(CreatureTypeEnum::Ooze)
        } else if eq_str(w, "plant") {
            Some(CreatureTypeEnum::Plant)
        } else if eq_str(w, "undead") {
            Some(CreatureTypeEnum::Undead)
        } else {
            None
        }
    }
}

/// A hit-dice formula: `number_of_dice` dice of `die_size` sides plus a
/// signed modifier.
#[derive(Debug, Clone, Copy, PartialEq, Eq, Structural)]
pub struct HitPointsFormula {
    pub number_of_dice: u8,
    pub die_size: u8,
    pub modifier: i16,
}

/// Average hit points and the formula they come from.
#[derive(Debug, Clone, Copy, PartialEq, Eq, Structural)]
pub struct HitPoints {
    pub average: u16,
    pub formula: HitPointsFormula,
}

/// A flying speed, possibly with the ability to hover.
#[derive(Debug, Clone, Copy, PartialEq, Eq, Structural)]
pub struct FlySpeed {
    pub speed: u16,
    pub hover: bool,
}

/// Movement speeds in feet; walking is always present.
#[derive(Debug, Clone, Copy, PartialEq, Eq, Structural)]
pub struct Speed {
    pub walk: u16,
    pub burrow: Option<u16>,
    pub climb: Option<u16>,
    pub crawl: Option<u16>,
    pub fly: Option<FlySpeed>,
    pub swim: Option<u16>,
}

/// The six ability scores.
#[derive(Debug, Clone, Copy, PartialEq, Eq, Structural)]
pub struct AbilityScores {
    pub strength: u8,
    pub dexterity: u8,
    pub constitution: u8,
    pub intelligence: u8,
    pub wisdom: u8,
    pub charisma: u8,
}

/// Which of the three damage-modifier lists an entry belongs to.
#[derive(Debug, Clone, Copy, PartialEq, Eq, Structural)]
pub enum DamageModifierType {
    Immunity,
    Resistance,
    Vulnerability,
}

impl DamageModifierType {
    pub open spec fn spec_name(self) -> Seq<char> {
        match self {
            DamageModifierType::Immunity => "immune"@,
            DamageModifierType::Resistance => "resist"@,
            DamageModifierType::Vulnerability => "vulnerable"@,
        }
    }

    /// The short name of the list.
    pub fn to_string(&self) -> (r: String)
        ensures
            r@ == self.spec_name(),
    {
        match self {
            DamageModifierType::Immunity => "immune".to_owned(),
            DamageModifierType::Resistance => "resist".to_owned(),
            DamageModifierType::Vulnerability => "vulnerable".to_owned(),
        }
    }
}

/// A damage modifier that holds only under a stated condition.
#[derive(Debug, Clone, PartialEq, Eq)]
pub struct ConditionalDamageModifier {
    pub modifier_type: DamageModifierType,
    pub damage_types: Vec<DamageType>,
    pub condition: String,
}

/// One entry of a resistance, immunity or vulnerability list.
#[derive(Debug, Clone, PartialEq, Eq)]
pub enum DamageModifier {
    Conditional(ConditionalDamageModifier),
    Unconditional(DamageType),
}

/// A damage-modifier entry over views.
pub enum DamageModifierView {
    Conditional { modifier_type: DamageModifierType, damage_types: Seq<DamageType>, condition: Seq<char> },
    Unconditional(DamageType),
}

impl DamageModifier {
    pub open spec fn view_of(self) -> DamageModifierView {
        match self {
            DamageModifier::Conditional(c) => DamageModifierView::Conditional {
                modifier_type: c.modifier_type,
                damage_types: c.damage_types@,
                condition: c.condition@,
            },
            DamageModifier::Unconditional(d) => DamageModifierView::Unconditional(d),
        }
    }
}

pub open spec fn modifier_views(v: Seq<DamageModifier>) -> Seq<DamageModifierView> {
    v.map_values(|m: DamageModifier| m.view_of())
}

/// A main creature type with optional subtype tags.
#[derive(Debug, Clone, PartialEq, Eq)]
pub struct CreatureType {
    pub main_type: CreatureTypeEnum,
    pub subtypes: Option<Vec<String>>,
}

/// Armor class with the optional list of what grants it.
#[derive(Debug, Clone, PartialEq, Eq)]
pub struct ArmorClass {
    pub ac: u8,
    pub armor_type: Option<Vec<String>>,
}

/// A challenge rating: a whole number or one of three fractions.
#[derive(Debug, Clone, Copy, PartialEq, Eq, Structural)]
pub enum ChallengeRating {
    WholeNumber(u8),
    Half,
    Quarter,
    Eighth,
}

/// A complete creature record. Optional fields absent from the source text
/// are `None`.
#[derive(Debug, PartialEq, Eq)]
pub struct Creature<'a> {
    pub name: String,
    pub source: Source<'a>,
    pub size: Size,
    pub creature_type: CreatureType,
    pub alignment: Alignment,
    pub armor_class: ArmorClass,
    pub hit_points: HitPoints,
    pub speed: Speed,
    pub ability_scores: AbilityScores,
    pub saving_throws: Option<Vec<(AbilityScore, i8)>>,
    pub skills: Option<Vec<(Skill, i8)>>,
    pub senses: Vec<String>,
    pub passive_perception: u8,
    pub damage_resistance: Option<Vec<DamageModifier>>,
    pub damage_immunity: Option<Vec<DamageModifier>>,
    pub damage_vulnerability: Option<Vec<DamageModifier>>,
    pub condition_immunities: Option<Vec<StatusCondition>>,
    pub languages: Vec<String>,
    pub challenge_rating: ChallengeRating,
    pub abilities: Option<Vec<NamedEntry>>,
    pub actions: Option<Vec<NamedEntry>>,
    pub bonus_actions: Option<Vec<NamedEntry>>,
    pub reactions: Option<Vec<NamedEntry>>,
    pub legendary_actions: Option<Vec<NamedEntry>>,
    pub mythic_actions: Option<Vec<NamedEntry>>,
    pub mythic_header: Option<String>,
}

} // verus!
