//! The spell record and its field types.
use vstd::prelude::*;
use vstd::string::*;
use crate::models::common::{ActionType, Classes, DamageType, Description, RangeUnit, Source, TimeUnit};
use crate::models::items::ItemValue;
use crate::text::eq_str;

verus! {

/// A school of magic.
#[derive(Clone, Copy, Debug, PartialEq, Eq, Structural, Hash)]
pub enum MagicSchool {
    Abjuration,
    Conjuration,
    Divination,
    Enchantment,
    Evocation,
    Illusion,
    Necromancy,
    Transmutation,
}

/// The school spelled `w` in lower case.
pub open spec fn school_word(w: Seq<char>) -> Option<MagicSchool> {
    if w == "abjuration"@ {
        Some(MagicSchool::Abjuration)
    } else if w == "conjuration"@ {
        Some(MagicSchool::Conjuration)
    } else if w == "divination"@ {
        Some(MagicSchool::Divination)
    } else if w == "enchantment"@ {
        Some(MagicSchool::Enchantment)
    } else if w == "evocation"@ {
        Some(MagicSchool::Evocation)
    } else if w == "illusion"@ {
        Some(MagicSchool::Illusion)
    } else if w == "necromancy"@ {
        Some(MagicSchool::Necromancy)
    } else if w == "transmutation"@ {
        Some(MagicSchool::Transmutation)
    } else {
        None
    }
}

impl MagicSchool {
    /// The entry of the vocabulary spelled `w`, if any.
    pub fn from_word(w: &str) -> (r: Option<MagicSchool>)
        ensures
            r == school_word(w@),
    {
        if eq_str(w, "abjuration") {
            Some(MagicSchool::Abjuration)
        } else if eq_str(w, "conjuration") {
            Some(MagicSchool::Conjuration)
        } else if eq_str(w, "divination") {
            Some(MagicSchool::Divination)
        } else if eq_str(w, "enchantment") {
            Some(MagicSchool::Enchantment)
        } else if eq_str(w, "evocation") {
            Some(MagicSchool::Evocation)
        } else if eq_str(w, "illusion") {
            Some(MagicSchool::Illusion)
        } else if eq_str(w, "necromancy") {
            Some(MagicSchool::Necromancy)
        } else if eq_str(w, "transmutation") {
            Some(MagicSchool::Transmutation)
        } else {
            None
        }
    }
}

/// The unit of a casting time: an action type or a span of time.
#[derive(Debug, PartialEq, Eq, Clone)]
pub enum CastingTimeUnit {
    Action(ActionType),
    Time(TimeUnit),
}

/// The shape of what a ranged spell targets.
#[derive(Clone, Copy, Debug, PartialEq, Eq, Structural, Hash)]
pub enum TargetType {
    Point,
    Radius,
    Cone,
}

/// The target shape spelled `w` in lower case.
pub open spec fn target_type_word(w: Seq<char>) -> Option<TargetType> {
    if w == "point"@ {
        Some(TargetType::Point)
    } else if w == "radius"@ {
        Some(TargetType::Radius)
    } else if w == "cone"@ {
        Some(TargetType::Cone)
    } else {
        None
    }
}

impl TargetType {
    /// The entry of the vocabulary spelled `w`, if any.
    pub fn from_word(w: &str) -> (r: Option<TargetType>)
        ensures
            r == target_type_word(w@),
    {
        if eq_str(w, "point") {
            Some(TargetType::Point)
        } else if eq_str(w, "radius") {
            Some(TargetType::Radius)
        } else if eq_str(w, "cone") {
            Some(TargetType::Cone)
        } else {
            None
        }
    }
}

/// A spell's range.
#[derive(Clone, Copy, Debug, PartialEq, Eq, Structural)]
pub enum Range {
    Self_,
    Touch,
    Ranged { type_: TargetType, range: u16, unit: RangeUnit },
    Special,
}

/// A material component: its description, optional cost, and whether the
/// spell consumes it.
#[derive(Debug, Clone, PartialEq, Eq)]
pub struct MaterialComponent {
    pub component: String,
    pub value: Option<ItemValue>,
    pub consumed: bool,
}

/// The verbal, somatic and material components of a spell.
#[derive(Clone, Debug, PartialEq, Eq)]
pub struct Components {
    pub verbal: bool,
    pub somatic: bool,
    pub material: Option<MaterialComponent>,
}

/// How long a spell lasts.
#[derive(Clone, Copy, Debug, PartialEq, Eq, Structural)]
pub enum Duration {
    Instantaneous,
    Timed(TimedDuration),
}

/// A timed duration, possibly requiring concentration.
#[derive(Clone, Copy, Debug, PartialEq, Eq, Structural)]
pub struct TimedDuration {
    pub number: u8,
    pub unit: TimeUnit,
    pub concentration: bool,
}

/// How long a spell takes to cast.
#[derive(Clone, Debug, PartialEq, Eq)]
pub struct CastingTime {
    pub number: u8,
    pub unit: CastingTimeUnit,
}

/// A complete spell record.
#[derive(Debug, PartialEq, Eq)]
pub struct Spell<'a> {
    pub source: Source<'a>,
    pub name: String,
    pub level: u8,
    pub school: MagicSchool,
    pub casting_time: CastingTime,
    pub ritual: bool,
    pub duration: Duration,
    pub range: Range,
    pub components: Components,
    pub damage_types: Option<Vec<DamageType>>,
    pub description: Vec<Description>,
    pub at_higher_levels: Option<String>,
    pub classes: Vec<Classes>,
}

} // verus!
