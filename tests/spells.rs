use dnd_document_parser::models::common::{
    ActionType, Classes, DamageType, Description, RangeUnit, Source, TimeUnit,
};
use dnd_document_parser::models::items::{Currency, ItemValue};
use dnd_document_parser::models::spells::{
    CastingTime, CastingTimeUnit, Components, Duration, MagicSchool, MaterialComponent, Range,
    TargetType, TimedDuration,
};
use dnd_document_parser::parsers::spells::{
    parse_casting_time, parse_classes, parse_components, parse_duration, parse_entries,
    parse_first_group, parse_gm_binder, parse_identity, parse_mechanics, parse_range,
    is_not_a_spell, parse_second_group, split_spell_into_groups, strip_str,
};
use dnd_document_parser::utils::error::{Error, OutOfBoundsError, ParseError};
use dnd_document_parser::models::spells::CastingTimeUnit::{Action, Time};
use dnd_document_parser::models::common::TimeUnit::{Hour};
use dnd_document_parser::models::common::Classes::{Artificer, Warlock, Wizard};
use dnd_document_parser::models::common::DamageType::{Acid, Necrotic};
use dnd_document_parser::models::common::Description::{Entry, List};

fn groups(v: Vec<Vec<&str>>) -> Vec<Vec<String>> {
    v.into_iter()
        .map(|g| g.into_iter().map(|s| s.to_string()).collect())
        .collect()
}

#[test]
fn casting_time_unit_parse_test() {
    type Res = Result<CastingTimeUnit, ParseError>;
    let action: Res = "action".try_into();
    let reaction: Res = "reaction".try_into();
    let hour: Res = "hour".try_into();
    let fail: Res = "fail".try_into();

    assert_eq!(action, Ok(Action(ActionType::Action)));
    assert_eq!(
        reaction,
        Ok(Action(ActionType::Reaction {
            condition: String::new()
        }))
    );
    assert_eq!(hour, Ok(Time(Hour)));
    assert_eq!(
        fail,
        Err(ParseError {
            string: "fail".to_owned(),
            parsing_step: "CastingTimeUnit".to_owned(),
            problem: Some("Neither ActionType nor TimeUnit".to_owned())
        })
    );
}

#[test]
fn casting_time_parse_test() {
    assert_eq!(
        parse_casting_time("1 action"),
        Ok(CastingTime {
            number: 1,
            unit: CastingTimeUnit::Action(ActionType::Action)
        }),
    );
    assert_eq!(
        parse_casting_time("10 minutes"),
        Ok(CastingTime {
            number: 10,
            unit: CastingTimeUnit::Time(TimeUnit::Minute),
        }),
    );
    assert_eq!(
        parse_casting_time("1 reaction when condition is met"),
        Ok(CastingTime {
            number: 1,
            unit: CastingTimeUnit::Action(ActionType::Reaction {
                condition: "when condition is met".to_owned()
            }),
        }),
    );
}

#[test]
fn range_parse_test() {
    assert_eq!(
        parse_range("60 feet"),
        Ok(Range::Ranged {
            type_: TargetType::Point,
            range: 60,
            unit: RangeUnit::Feet
        })
    );
    assert_eq!(
        parse_range("self 60 mile radius"),
        Ok(Range::Ranged {
            type_: TargetType::Radius,
            range: 60,
            unit: RangeUnit::Miles
        })
    );
    assert_eq!(parse_range("self"), Ok(Range::Self_));
    assert_eq!(parse_range("touch"), Ok(Range::Touch));
    assert_eq!(
        parse_range("self 10 foot cone"),
        Ok(Range::Ranged {
            type_: TargetType::Cone,
            range: 10,
            unit: RangeUnit::Feet
        })
    );
}

#[test]
fn components_parse_test() {
    assert_eq!(
        parse_components("v s".to_owned()),
        Ok(Components {
            verbal: true,
            somatic: true,
            material: None
        })
    );
    assert_eq!(
        parse_components("s".to_owned()),
        Ok(Components {
            verbal: false,
            somatic: true,
            material: None
        })
    );
    assert_eq!(
        parse_components("v".to_owned()),
        Ok(Components {
            verbal: true,
            somatic: false,
            material: None
        })
    );
    assert_eq!(
        parse_components("v s m component".to_owned()),
        Ok(Components {
            verbal: true,
            somatic: true,
            material: Some(MaterialComponent {
                component: "component".to_owned(),
                value: None,
                consumed: false
            })
        })
    );
    assert_eq!(
        parse_components("v s m component which the spell consumes".to_owned()),
        Ok(Components {
            verbal: true,
            somatic: true,
            material: Some(MaterialComponent {
                component: "component which the spell consumes".to_owned(),
                value: None,
                consumed: true
            })
        })
    );
    assert_eq!(
        parse_components("m component worth 40 pp which the spell consumes".to_owned()),
        Ok(Components {
            verbal: false,
            somatic: false,
            material: Some(MaterialComponent {
                component: "component worth 40 pp which the spell consumes".to_owned(),
                value: Some(ItemValue {
                    value: 40,
                    unit: Currency::Platinum
                }),
                consumed: true
            })
        })
    );
}

#[test]
fn parse_duration_test() {
    assert_eq!(
        parse_duration("instantaneous".to_owned()),
        Ok(Duration::Instantaneous)
    );
    assert_eq!(
        parse_duration("1 round".to_owned()),
        Ok(Duration::Timed(TimedDuration {
            number: 1,
            unit: TimeUnit::Round,
            concentration: false
        }))
    );
    assert_eq!(
        parse_duration("Up to 5 minutes".to_owned()),
        Ok(Duration::Timed(TimedDuration {
            number: 5,
            unit: TimeUnit::Minute,
            concentration: false
        }))
    );
    assert_eq!(
        parse_duration("concentration up to 10 minutes".to_owned()),
        Ok(Duration::Timed(TimedDuration {
            number: 10,
            unit: TimeUnit::Minute,
            concentration: true
        }))
    );
}

#[test]
fn parse_classes_test() {
    assert_eq!(
        parse_classes("wizard warlock".to_owned()),
        Ok(vec![Wizard, Warlock])
    );
    assert_eq!(parse_classes("artificer".to_owned()), Ok(vec![Artificer]));
    assert_eq!(
        parse_classes("non_existing_class".to_owned()),
        Err(ParseError {
            string: "non_existing_class".to_owned(),
            parsing_step: "Classes".to_owned(),
            problem: Some("No classes could be parsed.".to_owned())
        }
        .into())
    );
}

#[test]
fn parse_entries_test() {
    assert_eq!(
        parse_entries(&groups(vec![
            vec!["entry 1"],
            vec!["entry 2"],
            vec!["**At higher levels.**  Entry 3"],
        ])),
        Ok((
            None,
            vec![Entry("entry 1".to_owned()), Entry("entry 2".to_owned())],
            Some("Entry 3".to_owned())
        )),
    );
    assert_eq!(
        parse_entries(&groups(vec![
            vec!["AcId 1"],
            vec!["entry neCRotic 2"],
            vec!["**At higher levels.** Entry 3"],
        ])),
        Ok((
            Some(vec![Acid, Necrotic]),
            vec![
                Entry("AcId 1".to_owned()),
                Entry("entry neCRotic 2".to_owned())
            ],
            Some("Entry 3".to_owned())
        )),
    );
    assert_eq!(
        parse_entries(&groups(vec![vec!["entry 1"], vec!["entry 2"],])),
        Ok((
            None,
            vec![Entry("entry 1".to_owned()), Entry("entry 2".to_owned())],
            None
        )),
    );
    assert_eq!(
        parse_entries(&groups(vec![
            vec!["- Line 1"],
            vec!["- Line 2 acid"],
            vec!["**At higher levels.** Entry 3"],
        ])),
        Ok((
            Some(vec![Acid]),
            vec![List(vec![
                Entry("Line 1".to_owned()),
                Entry("Line 2 acid".to_owned())
            ])],
            Some("Entry 3".to_owned()),
        ))
    );
}

const REVIVIFY: &str = "<div class='spell'>
#### Revivify
*3rd-level necromancy*
___
- **Casting Time:** 1 action
- **Range:** Touch
- **Components:** V, S, M (diamonds worth 300 gp, which the spell consumes)
- **Duration:** Instantaneous
- **Classes:** Cleric, Paladin, Artificer
___
You touch a creature that has died within the last minute. That creature returns to life with 1 hit point.
</div>";

#[test]
fn strip_str_reduces_lines_to_words() {
    assert_eq!(strip_str("- **Casting Time:** 1 action"), "1 action");
    assert_eq!(strip_str("*3rd-level Necromancy*"), "3rd level necromancy ");
    assert_eq!(
        strip_str("- **Duration:** Concentration, up to 1 minute"),
        "concentration up to 1 minute"
    );
}

#[test]
fn split_spell_groups() {
    let g = split_spell_into_groups(REVIVIFY);
    assert_eq!(g.len(), 3);
    assert_eq!(g[0], vec!["#### Revivify".to_owned(), "*3rd-level necromancy*".to_owned()]);
    assert_eq!(g[1].len(), 5);
    assert_eq!(g[2].len(), 1);
    assert_eq!(split_spell_into_groups(""), Vec::<Vec<String>>::new());
}

#[test]
fn whole_spell() {
    let source = Source { source_book: "PHB", page: 272 };
    let spell = parse_gm_binder(REVIVIFY.to_owned(), source.clone()).unwrap();
    assert_eq!(spell.source, source);
    assert_eq!(spell.name, "Revivify");
    assert_eq!(spell.level, 3);
    assert_eq!(spell.school, MagicSchool::Necromancy);
    assert!(!spell.ritual);
    assert_eq!(
        spell.casting_time,
        CastingTime { number: 1, unit: CastingTimeUnit::Action(ActionType::Action) }
    );
    assert_eq!(spell.range, Range::Touch);
    assert_eq!(
        spell.components,
        Components {
            verbal: true,
            somatic: true,
            material: Some(MaterialComponent {
                component: "diamonds worth 300 gp, which the spell consumes".to_owned(),
                value: Some(ItemValue { value: 300, unit: Currency::Gold }),
                consumed: true,
            }),
        }
    );
    assert_eq!(spell.components.material.unwrap().value.unwrap().in_copper(), 30000);
    assert_eq!(spell.duration, Duration::Instantaneous);
    assert_eq!(spell.classes, vec![Classes::Cleric, Classes::Paladin, Classes::Artificer]);
    assert_eq!(spell.damage_types, None);
    assert_eq!(spell.at_higher_levels, None);
    assert_eq!(spell.description.len(), 1);
}

#[test]
fn reparsing_a_spell_gives_the_same_record() {
    let source = Source { source_book: "PHB", page: 272 };
    assert_eq!(
        parse_gm_binder(REVIVIFY.to_owned(), source.clone()),
        parse_gm_binder(REVIVIFY.to_owned(), source)
    );
}

#[test]
fn spell_missing_sections() {
    let source = Source { source_book: "X", page: 0 };
    assert_eq!(
        parse_gm_binder("just some text".to_owned(), source.clone()),
        Err(Error::OutOfBounds(OutOfBoundsError {
            array: vec!["just some text".to_owned()],
            index: 1,
            parsing_step: "Level and School".to_owned(),
        }))
    );
    let r = parse_gm_binder("".to_owned(), source.clone());
    assert_eq!(
        r,
        Err(Error::OutOfBounds(OutOfBoundsError {
            array: vec![],
            index: 0,
            parsing_step: "First group parsing".to_owned(),
        }))
    );
    let g = vec!["#### Name".to_owned()];
    assert_eq!(
        parse_first_group(&g),
        Err(Error::OutOfBounds(OutOfBoundsError {
            array: g.clone(),
            index: 1,
            parsing_step: "Level and School".to_owned(),
        }))
    );
    let g = vec!["#### Name".to_owned(), "*1st-level fakery*".to_owned()];
    assert_eq!(
        parse_first_group(&g),
        Err(Error::Parse(ParseError {
            string: "1st level fakery ".to_owned(),
            parsing_step: "School of Magic".to_owned(),
            problem: None,
        }))
    );
    let g = vec!["- **Casting Time:** 1 action".to_owned(), "- **Range:** Self".to_owned()];
    assert_eq!(
        parse_second_group(&g),
        Err(Error::OutOfBounds(OutOfBoundsError {
            array: g.clone(),
            index: 2,
            parsing_step: "Mechanics group".to_owned(),
        }))
    );
    let g = vec![
        "#### Name".to_owned(),
        "*1st-level abjuration*".to_owned(),
        "stray line".to_owned(),
    ];
    assert_eq!(
        parse_first_group(&g),
        Err(Error::OutOfBounds(OutOfBoundsError {
            array: g.clone(),
            index: 3,
            parsing_step: "Identity group".to_owned(),
        }))
    );
}

#[test]
fn ritual_cantrip_and_errors() {
    let g = vec!["#### Alarm".to_owned(), "*1st-level abjuration (ritual)*".to_owned()];
    assert_eq!(
        parse_first_group(&g),
        Ok(("Alarm".to_owned(), 1, MagicSchool::Abjuration, true))
    );
    let g = vec!["#### Light".to_owned(), "*Evocation cantrip*".to_owned()];
    assert_eq!(parse_first_group(&g), Ok(("Light".to_owned(), 0, MagicSchool::Evocation, false)));
    assert_eq!(
        parse_casting_time("x action"),
        Err(Error::Parse(ParseError {
            string: "x action".to_owned(),
            parsing_step: "CastingTime: amount".to_owned(),
            problem: Some("invalid digit found in string".to_owned()),
        }))
    );
    assert_eq!(
        parse_casting_time("1"),
        Err(Error::OutOfBounds(OutOfBoundsError {
            array: vec!["1".to_owned()],
            index: 1,
            parsing_step: "CastingTime: unit".to_owned(),
        }))
    );
    assert_eq!(
        parse_duration("forever".to_owned()),
        Err(Error::Parse(ParseError {
            string: "forever".to_owned(),
            parsing_step: "Duration (Timed): amount".to_owned(),
            problem: Some("No number can be parsed as u8.".to_owned()),
        }))
    );
    assert_eq!(
        parse_components("x".to_owned()),
        Err(Error::Parse(ParseError {
            string: "x".to_owned(),
            parsing_step: "Components".to_owned(),
            problem: Some("No components could be parsed.".to_owned()),
        }))
    );
    assert_eq!(
        parse_range("self 10"),
        Err(Error::OutOfBounds(OutOfBoundsError {
            array: vec!["self".to_owned(), "10".to_owned()],
            index: 2,
            parsing_step: "Range (self): unit".to_owned(),
        }))
    );
    assert_eq!(parse_range("special"), Ok(Range::Special));
}

#[test]
fn identity_and_mechanics_from_stripped_lines() {
    assert_eq!(
        parse_identity("#### Fireball", "3rd level evocation "),
        Ok(("Fireball".to_owned(), 3, MagicSchool::Evocation, false))
    );
    let raw = vec![
        "1 action".to_owned(),
        "150 feet".to_owned(),
        "V, S, M (a tiny ball of bat guano and sulfur)".to_owned(),
        "Instantaneous".to_owned(),
        "Sorcerer, Wizard".to_owned(),
    ];
    let stripped = vec![
        "1 action".to_owned(),
        "150 feet".to_owned(),
        "v s m a tiny ball of bat guano and sulfur ".to_owned(),
        "instantaneous".to_owned(),
        "sorcerer wizard".to_owned(),
    ];
    let (casting_time, range, components, duration, classes) = parse_mechanics(&raw, &stripped).unwrap();
    assert_eq!(casting_time, CastingTime { number: 1, unit: CastingTimeUnit::Action(ActionType::Action) });
    assert_eq!(range, Range::Ranged { type_: TargetType::Point, range: 150, unit: RangeUnit::Feet });
    assert_eq!(
        components.material,
        Some(MaterialComponent {
            component: "a tiny ball of bat guano and sulfur".to_owned(),
            value: None,
            consumed: false,
        })
    );
    assert_eq!(duration, Duration::Instantaneous);
    assert_eq!(classes, vec![Classes::Sorcerer, Classes::Wizard]);
}

#[test]
fn six_mechanics_lines_are_refused_before_parsing() {
    let g: Vec<String> = vec!["not a time", "x", "y", "z", "w", "v"]
        .into_iter()
        .map(|s| s.to_owned())
        .collect();
    assert_eq!(
        parse_second_group(&g),
        Err(Error::OutOfBounds(OutOfBoundsError {
            array: g.clone(),
            index: 6,
            parsing_step: "Mechanics group".to_owned(),
        }))
    );
}

#[test]
fn every_bold_and_plain_entry_line_is_kept() {
    assert_eq!(
        parse_entries(&groups(vec![vec!["**x y z w", "a"]])),
        Ok((None, vec![Entry("a".to_owned())], Some("w".to_owned())))
    );
    assert_eq!(
        parse_entries(&groups(vec![
            vec!["fire 1"],
            vec!["**At Higher Levels.** More damage."],
            vec!["cold 2", "**second bold**"],
        ])),
        Ok((
            Some(vec![DamageType::Fire, DamageType::Cold]),
            vec![Entry("fire 1".to_owned()), Entry("cold 2".to_owned())],
            Some("More damage.".to_owned())
        ))
    );
    assert_eq!(
        parse_entries(&groups(vec![vec!["**only bold**"]])),
        Err(Error::Parse(ParseError {
            string: "**only bold**".to_owned(),
            parsing_step: "Entries: main entries".to_owned(),
            problem: Some("No entries found.".to_owned()),
        }))
    );
}

#[test]
fn batch_skip_rule() {
    let oob = |step: &str| {
        Error::OutOfBounds(OutOfBoundsError { array: vec![], index: 0, parsing_step: step.to_owned() })
    };
    let parse = |step: &str| {
        Error::Parse(ParseError { string: String::new(), parsing_step: step.to_owned(), problem: None })
    };
    assert!(is_not_a_spell(&oob("First group parsing")));
    assert!(is_not_a_spell(&oob("Level and School")));
    assert!(is_not_a_spell(&oob("Identity group")));
    assert!(is_not_a_spell(&parse("Name")));
    assert!(is_not_a_spell(&parse("School of Magic")));
    assert!(!is_not_a_spell(&oob("Mechanics group")));
    assert!(!is_not_a_spell(&oob("Second group parsing")));
    assert!(!is_not_a_spell(&parse("Classes")));
    assert!(!is_not_a_spell(&parse("CastingTime: amount")));
}
