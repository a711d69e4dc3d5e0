use std::collections::HashMap;

use dnd_document_parser::models::common::{
    all_damage_types, AbilityScore, Alignment, AlignmentAxis, AlignmentAxisMoral,
    AlignmentAxisOrder, DamageType, Skill, StatusCondition,
};
use dnd_document_parser::models::creatures::{
    AbilityScores, ArmorClass, ChallengeRating, ConditionalDamageModifier, CreatureType,
    CreatureTypeEnum, DamageModifier, DamageModifierType, FlySpeed, HitPoints, HitPointsFormula,
    Size, Speed,
};
use dnd_document_parser::parsers::creatures::{
    extract_stat_blocks, parse_challenge_rating, parse_condition_immunities,
    parse_damage_modifier, parse_fifth_group, parse_first_group, parse_fourth_group,
    parse_languages, parse_named_entry, parse_saving_throws, parse_second_group, parse_senses,
    parse_skills, parse_third_group,
};
use dnd_document_parser::utils::error::{Error, OutOfBoundsError, ParseError};
use dnd_document_parser::models::common::AbilityScore::{Charisma, Constitution, Strength, Wisdom};
use dnd_document_parser::models::creatures::DamageModifier::{Conditional, Unconditional};
use dnd_document_parser::models::common::DamageType::{Acid, Cold, Fire, Piercing};
use dnd_document_parser::models::common::Skill::{Athletics, Perception};
use dnd_document_parser::models::common::StatusCondition::{Charmed, Frightened};
use dnd_document_parser::models::common::Alignment::{Any, OneAxis, TwoAxes, Unaligned};
use dnd_document_parser::models::common::AlignmentAxis::{Order};
use dnd_document_parser::models::common::AlignmentAxisMoral::{Evil};
use dnd_document_parser::models::common::AlignmentAxisOrder::{Chaotic};
use dnd_document_parser::models::creatures::DamageModifierType::{Resistance, Vulnerability};
use dnd_document_parser::models::creatures::ChallengeRating::{Quarter, WholeNumber};

fn strings(v: &[&str]) -> Vec<String> {
    v.iter().map(|s| s.to_string()).collect()
}

#[test]
fn parse_first_group_test() {
    let first_group = vec![
        "## test".to_string(),
        "*Medium beast, unaligned*".to_string(),
    ];
    let expected_result = Ok((
        "test".to_string(),
        Size::Medium,
        CreatureType {
            main_type: CreatureTypeEnum::Beast,
            subtypes: None,
        },
        Alignment::Unaligned,
    ));

    assert_eq!(parse_first_group(first_group), expected_result);

    assert!(parse_first_group(vec![
        "Unparsable entity".to_string(),
        "With multiple lines".to_string()
    ])
    .is_err());
}

#[test]
fn parse_second_group_test() {
    assert_eq!(
        parse_second_group(vec![
            "- **Armor Class** 10".to_string(),
            "- **Hit Points** 10 (1d10 + 4)".to_string(),
            "- **Speed** 30 ft.".to_string(),
        ]),
        Ok((
            ArmorClass {
                ac: 10,
                armor_type: None,
            },
            HitPoints {
                average: 10,
                formula: HitPointsFormula {
                    number_of_dice: 1,
                    die_size: 10,
                    modifier: 4,
                },
            },
            Speed {
                walk: 30,
                burrow: None,
                climb: None,
                crawl: None,
                fly: None,
                swim: None,
            }
        ))
    )
}

#[test]
fn parse_third_group_test() {
    assert_eq!(
        parse_third_group(vec![
            "|STR|DEX|CON|INT|WIS|CHA|".to_string(),
            "|:---:|:---:|:---:|:---:|:---:|:---:|".to_string(),
            "|25 (+7)|11 (+0)|21 (+5)|15 (+2)|15 (+2)|4 (-3)|".to_string(),
        ]),
        Ok(AbilityScores {
            strength: 25,
            dexterity: 11,
            constitution: 21,
            intelligence: 15,
            wisdom: 15,
            charisma: 4,
        })
    )
}

#[test]
fn parse_fourth_group_test() {
    let (saves, skills, damres, damimm, damvul, condimm, senses, passperc, langs, cr) =
        match parse_fourth_group(vec![
            "- **Saving Throws** CON +3, WIS +2".to_string(),
            "- **Skills** Athletics +5, Perception +3".to_string(),
            "- **Damage Resistances** Piercing from non-magical attacks".to_string(),
            "- **Damage Immunities** Cold".to_string(),
            "- **Damage Vulnerabilities** Fire".to_string(),
            "- **Condition Immunities** Charmed, Frightened".to_string(),
            "- **Senses** Passive Perception 15, blindsight 60 ft.".to_string(),
            "- **Languages** Common, Giant".to_string(),
            "- **Challenge** 16 (15,000 XP)".to_string(),
        ]) {
            Ok(ret) => ret,
            Err(err) => panic!("{err:?}"),
        };

    assert_eq!(
        saves.map(|v| v.into_iter().collect::<HashMap<_, _>>()),
        Some(HashMap::from_iter(vec![
            (Constitution, 3 as i8),
            (Wisdom, 2 as i8),
        ]))
    );

    assert_eq!(
        skills.map(|v| v.into_iter().collect::<HashMap<_, _>>()),
        Some(HashMap::from_iter(vec![
            (Athletics, 5 as i8),
            (Perception, 3 as i8),
        ]))
    );

    assert_eq!(
        damres,
        Some(vec![Conditional(ConditionalDamageModifier {
            modifier_type: DamageModifierType::Resistance,
            damage_types: vec![Piercing],
            condition: "from non-magical attacks".to_string(),
        })]),
    );

    assert_eq!(damimm, Some(vec![Unconditional(Cold)]));

    assert_eq!(damvul, Some(vec![Unconditional(Fire)]));

    assert_eq!(condimm, Some(vec![Charmed, Frightened]));

    assert_eq!(senses, vec!["blindsight 60 ft.".to_string()]);

    assert_eq!(passperc, 15);

    assert_eq!(langs, vec!["Common".to_string(), "Giant".to_string()]);

    assert_eq!(cr, ChallengeRating::WholeNumber(16));

    let (saves, skills, damres, damimm, damvul, condimm, senses, passperc, langs, cr) =
        match parse_fourth_group(vec![
            "- **Damage Resistances** Piercing from non-magical attacks".to_string(),
            "- **Damage Vulnerabilities** Fire".to_string(),
            "- **Senses** Passive Perception 15, blindsight 60 ft.".to_string(),
            "- **Languages** Common, Giant".to_string(),
            "- **Challenge** 16 (15,000 XP)".to_string(),
        ]) {
            Ok(ret) => ret,
            Err(err) => panic!("{err:?}"),
        };

    assert_eq!(saves, None);

    assert_eq!(skills, None);

    assert_eq!(
        damres,
        Some(vec![Conditional(ConditionalDamageModifier {
            modifier_type: DamageModifierType::Resistance,
            damage_types: vec![Piercing],
            condition: "from non-magical attacks".to_string(),
        })]),
    );

    assert_eq!(damimm, None);

    assert_eq!(damvul, Some(vec![Unconditional(Fire)]));

    assert_eq!(condimm, None);

    assert_eq!(senses, vec!["blindsight 60 ft.".to_string()]);

    assert_eq!(passperc, 15);

    assert_eq!(langs, vec!["Common".to_string(), "Giant".to_string()]);

    assert_eq!(cr, ChallengeRating::WholeNumber(16));
}

#[test]
fn tests_creature_type() {
    assert_eq!(
        "fiend (demon)".try_into(),
        Ok(CreatureType {
            main_type: CreatureTypeEnum::Fiend,
            subtypes: Some(vec!["demon".to_string()])
        })
    );

    assert_eq!(
        "fiend/undead".try_into(),
        Ok(CreatureType {
            main_type: CreatureTypeEnum::Fiend,
            subtypes: Some(vec!["undead".to_string()])
        })
    );

    assert_eq!(
        "fiend".try_into(),
        Ok(CreatureType {
            main_type: CreatureTypeEnum::Fiend,
            subtypes: None,
        })
    );
}

#[test]
fn alignment() {

    assert_eq!(
        "chaotic evil".try_into(),
        Ok(TwoAxes {
            order: Chaotic,
            moral: Evil,
        })
    );

    assert_eq!(
        "any chaotic alignment".try_into(),
        Ok(OneAxis(Order(Chaotic)))
    );

    assert_eq!("any alignment".try_into(), Ok(Any));

    assert_eq!("unaligned".try_into(), Ok(Unaligned));

    assert_eq!(
        "neutral".try_into(),
        Ok(TwoAxes {
            order: AlignmentAxisOrder::Neutral,
            moral: AlignmentAxisMoral::Neutral,
        })
    )
}

#[test]
fn tests_armor_class() {
    assert_eq!(
        "10".try_into(),
        Ok(ArmorClass {
            ac: 10,
            armor_type: None,
        })
    );

    assert_eq!(
        "10 (Natural Armor, Shield)".try_into(),
        Ok(ArmorClass {
            ac: 10,
            armor_type: Some(vec!["Natural Armor".to_string(), "Shield".to_string()]),
        })
    );
}

#[test]
fn tests_hit_points() {
    assert_eq!(
        "10 (1d10 + 4)".try_into(),
        Ok(HitPoints {
            average: 10,
            formula: HitPointsFormula {
                number_of_dice: 1,
                die_size: 10,
                modifier: 4,
            }
        })
    );

    assert_eq!(
        "2 (1d10-4)".try_into(),
        Ok(HitPoints {
            average: 2,
            formula: HitPointsFormula {
                number_of_dice: 1,
                die_size: 10,
                modifier: -4,
            }
        })
    );

    assert_eq!(
        "6 (1d10)".try_into(),
        Ok(HitPoints {
            average: 6,
            formula: HitPointsFormula {
                number_of_dice: 1,
                die_size: 10,
                modifier: 0,
            }
        })
    );
}

#[test]
fn tests_speed() {
    assert_eq!(
        "30 ft.".try_into(),
        Ok(Speed {
            walk: 30,
            burrow: None,
            climb: None,
            crawl: None,
            fly: None,
            swim: None,
        })
    );

    assert_eq!(
        "30 ft., climb 30 ft., burrow 30 ft.".try_into(),
        Ok(Speed {
            walk: 30,
            burrow: Some(30),
            climb: Some(30),
            crawl: None,
            fly: None,
            swim: None,
        })
    );

    assert_eq!(
        "30 ft., burrow 30 ft., climb 30 ft., crawl 30 ft., fly 30 ft. (hover), swim 30 ft."
            .try_into(),
        Ok(Speed {
            walk: 30,
            burrow: Some(30),
            climb: Some(30),
            crawl: Some(30),
            fly: Some(FlySpeed {
                speed: 30,
                hover: true,
            }),
            swim: Some(30),
        })
    );
}

#[test]
fn saving_throws() {
    assert_eq!(
        parse_saving_throws("STR +3, CHA -2").map(|v| v.into_iter().collect::<HashMap<_, _>>()),
        Ok(HashMap::from([(Strength, 3), (Charisma, -2)]))
    );
}

#[test]
fn skills() {
    assert_eq!(
        parse_skills("Athletics +3, Perception -2").map(|v| v.into_iter().collect::<HashMap<_, _>>()),
        Ok(HashMap::from([(Athletics, 3), (Perception, -2)]))
    );
}

#[test]
fn damage_modifier() {

    assert_eq!(
        parse_damage_modifier(Resistance, "Fire, Cold"),
        Ok(vec![Unconditional(Fire), Unconditional(Cold)]),
    );

    assert_eq!(
        parse_damage_modifier(
            Vulnerability,
            "Fire; Cold, and Acid from non-magical attacks"
        ),
        Ok(vec![
            Unconditional(Fire),
            Conditional(ConditionalDamageModifier {
                modifier_type: Vulnerability,
                damage_types: vec![Cold, Acid],
                condition: "from non-magical attacks".to_string(),
            })
        ])
    );

    assert_eq!(
        parse_damage_modifier(Resistance, "Attacks made with disadvantage"),
        Ok(vec![Conditional(ConditionalDamageModifier {
            modifier_type: Resistance,
            damage_types: all_damage_types(),
            condition: "attacks made with disadvantage".to_string(),
        })])
    )
}

#[test]
fn condition_immunities() {
    assert_eq!(
        parse_condition_immunities("Charmed, frightened"),
        Ok(vec![Charmed, Frightened])
    )
}

#[test]
fn senses() {
    assert_eq!(
        parse_senses("Darkvision 60 ft., Passive Perception 17"),
        Ok((17, vec!["Darkvision 60 ft.".to_string()]))
    )
}

#[test]
fn languages() {
    assert_eq!(
        parse_languages("Common, Auran"),
        Ok(vec!["Common".to_string(), "Auran".to_string()])
    )
}

#[test]
fn challenge_rating() {
    assert_eq!(parse_challenge_rating("11 (7,200 XP)"), Ok(WholeNumber(11)));
    assert_eq!(parse_challenge_rating("1/4 (400 XP)"), Ok(Quarter));
}

#[test]
fn extract_stat_blocks_inline() {
    let document = "# Heading\n> Unparsable entity\n>   With multiple lines\n\nText between\n> ## Second\n> *Small fey, any alignment*\n";
    let blocks = extract_stat_blocks(document.to_string());
    assert_eq!(blocks.len(), 2);
    assert_eq!(blocks[0], strings(&["Unparsable entity", "With multiple lines"]));
    assert_eq!(blocks[1], strings(&["## Second", "*Small fey, any alignment*"]));
}

#[test]
fn extract_stat_blocks_empty_document() {
    assert_eq!(extract_stat_blocks(String::new()), Vec::<Vec<String>>::new());
    assert_eq!(
        extract_stat_blocks("no quoted lines\nat all".to_string()),
        Vec::<Vec<String>>::new()
    );
}

#[test]
fn wrong_line_counts_are_cardinality_errors() {
    let one = strings(&["## lonely"]);
    assert_eq!(
        parse_first_group(one.clone()),
        Err(Error::OutOfBounds(OutOfBoundsError {
            array: one.clone(),
            index: 1,
            parsing_step: "First group".to_string(),
        }))
    );
    assert_eq!(
        parse_second_group(one.clone()),
        Err(Error::OutOfBounds(OutOfBoundsError {
            array: one.clone(),
            index: 1,
            parsing_step: "Second group parsing".to_string(),
        }))
    );
    let four = strings(&["|STR|", "|:-:|", "|1 (-5)|", "extra"]);
    assert_eq!(
        parse_third_group(four.clone()),
        Err(Error::OutOfBounds(OutOfBoundsError {
            array: four,
            index: 4,
            parsing_step: "Ability scores".to_string(),
        }))
    );
}

#[test]
fn reparsing_gives_identical_records() {
    let group = strings(&[
        "- **Senses** darkvision 60 ft., Passive Perception 12",
        "- **Languages** Common",
        "- **Challenge** 1/2 (100 XP)",
        "- **Damage Resistances** Fire; Cold, and Acid from non-magical attacks",
    ]);
    assert_eq!(parse_fourth_group(group.clone()), parse_fourth_group(group));
    let first = strings(&["## Imp", "*Tiny fiend (devil), lawful evil*"]);
    assert_eq!(parse_first_group(first.clone()), parse_first_group(first));
}

#[test]
fn absent_optional_fields_stay_absent() {
    let (saves, skills, res, imm, vul, cond, senses, pp, langs, cr) = parse_fourth_group(strings(&[
        "- **Senses** Passive Perception 10",
        "- **Languages** —",
        "- **Challenge** 0 (10 XP)",
    ]))
    .unwrap();
    assert_eq!((saves, skills, res, imm, vul, cond), (None, None, None, None, None, None));
    assert_eq!(senses, Vec::<String>::new());
    assert_eq!(pp, 10);
    assert_eq!(langs, strings(&["—"]));
    assert_eq!(cr, ChallengeRating::WholeNumber(0));
}

#[test]
fn missing_required_line_is_cardinality_error() {
    let group = strings(&["- **Languages** Common", "- **Challenge** 1 (200 XP)"]);
    assert_eq!(
        parse_fourth_group(group.clone()),
        Err(Error::OutOfBounds(OutOfBoundsError {
            array: group,
            index: 0,
            parsing_step: "Fourth group".to_string(),
        }))
    );
}

#[test]
fn hit_point_errors_name_their_step() {
    let r: Result<HitPoints, Error> = "10 1d10".try_into();
    assert_eq!(
        r,
        Err(Error::Parse(ParseError {
            string: "1d10".to_string(),
            parsing_step: "Hit Points Formula".to_string(),
            problem: Some("No leading `(` found for hit points formula".to_string()),
        }))
    );
    let r: Result<HitPoints, Error> = "ten (1d10)".try_into();
    assert_eq!(
        r,
        Err(Error::Parse(ParseError {
            string: "ten (1d10)".to_string(),
            parsing_step: "Hit Points".to_string(),
            problem: Some("Could not parse average as u16".to_string()),
        }))
    );
}

#[test]
fn speed_errors() {
    let r: Result<Speed, Error> = "fast".try_into();
    assert_eq!(
        r,
        Err(Error::Parse(ParseError {
            string: "fast".to_string(),
            parsing_step: "Walking speed".to_string(),
            problem: None,
        }))
    );
    let r: Result<Speed, Error> = "30 ft., fly 60 ft. (gliding)".try_into();
    assert_eq!(
        r,
        Err(Error::Parse(ParseError {
            string: "60 (gliding)".to_string(),
            parsing_step: "flying speed".to_string(),
            problem: Some("Multiple words with no `hover`".to_string()),
        }))
    );
    let r: Result<Speed, Error> = "30 ft., fly 60 ft.".try_into();
    assert_eq!(r.unwrap().fly, Some(FlySpeed { speed: 60, hover: false }));
}

#[test]
fn alignment_errors() {
    let r: Result<Alignment, Error> = "any purple alignment".try_into();
    assert_eq!(
        r,
        Err(Error::Parse(ParseError {
            string: "purple".to_string(),
            parsing_step: "AlignmentAxisMoral".to_string(),
            problem: None,
        }))
    );
    let r: Result<Alignment, Error> = "any good alignment".try_into();
    assert_eq!(r, Ok(Alignment::OneAxis(AlignmentAxis::Moral(AlignmentAxisMoral::Good))));
}

#[test]
fn challenge_rating_errors() {
    assert_eq!(
        parse_challenge_rating("16"),
        Err(Error::Parse(ParseError {
            string: "16".to_string(),
            parsing_step: "Challenge Rating".to_string(),
            problem: Some("No separating ` ` found".to_string()),
        }))
    );
    assert_eq!(
        parse_challenge_rating("300 (lots)"),
        Err(Error::Parse(ParseError {
            string: "300".to_string(),
            parsing_step: "Challenge Rating".to_string(),
            problem: Some("number too large to fit in target type".to_string()),
        }))
    );
    assert_eq!(parse_challenge_rating("1/8 (25 XP)"), Ok(ChallengeRating::Eighth));
    assert_eq!(parse_challenge_rating("1/2 (100 XP)"), Ok(ChallengeRating::Half));
}

#[test]
fn damage_modifier_with_three_clauses_fails() {
    assert_eq!(
        parse_damage_modifier(DamageModifierType::Immunity, "fire; cold; acid"),
        Err(Error::Parse(ParseError {
            string: "fire; cold; acid".to_string(),
            parsing_step: "Damage Modifier".to_string(),
            problem: Some("More than 2 types of modifiers".to_string()),
        }))
    );
}

#[test]
fn senses_without_passive_perception_fail() {
    assert_eq!(
        parse_senses("darkvision 60 ft."),
        Err(Error::Parse(ParseError {
            string: "darkvision 60 ft.".to_string(),
            parsing_step: "Senses".to_string(),
            problem: Some("No passive perception found".to_string()),
        }))
    );
}

#[test]
fn named_entries_and_sections() {
    let e = parse_named_entry("***Multiattack.*** The dragon makes three attacks.").unwrap();
    assert_eq!(e.name, "Multiattack.");
    assert_eq!(e.entry, "The dragon makes three attacks.");
    assert_eq!(e.sub_entries, None);

    let e = parse_named_entry("***Breath.*** It breathes.\n* **Fire.** Hot.\n* **Cold.** Chilly.").unwrap();
    let subs = e.sub_entries.unwrap();
    assert_eq!(subs.len(), 2);
    assert_eq!(subs[0].name, "Fire.");
    assert_eq!(subs[1].entry, "Chilly.");

    let (traits, actions, bonus, reactions, legendary, header, mythic) = parse_fifth_group(strings(&[
        "***Keen Smell.*** It smells well.",
        "",
        "### Actions",
        "***Bite.*** Melee Weapon Attack.",
        "### Legendary Actions",
        "The dragon can take 3 legendary actions.",
        "***Detect.*** It makes a check.",
    ]))
    .unwrap();
    assert_eq!(traits.unwrap()[0].name, "Keen Smell.");
    assert_eq!(actions.unwrap()[0].name, "Bite.");
    assert_eq!(bonus, None);
    assert_eq!(reactions, None);
    let legendary = legendary.unwrap();
    assert_eq!(legendary.len(), 1);
    assert_eq!(legendary[0].name, "Detect.");
    assert_eq!(header, None);
    assert_eq!(mythic, None);
}
