use gladiator_war::batlog::Batlog;
use gladiator_war::fighter::{Class, Fighter, StatDice};
use gladiator_war::round::{Arena, Modifier};

fn fighter(class: Class, st: i32, sp: i32, sk: i32) -> Fighter {
    Fighter::new(String::from("f"), String::from("o"), class, st, sp, sk)
}

fn dice() -> StatDice {
    StatDice { swarm: (2, 4), mutant_slot: 1, mutant: (3, 9), plain: (1, 5, 10) }
}

fn strings(v: &[&str]) -> Vec<String> {
    v.iter().map(|s| String::from(*s)).collect()
}

#[test]
fn new_fighter_has_an_empty_record() {
    let f = fighter(Class::Cleric, 3, -2, 9);
    assert_eq!((f.strength, f.speed, f.skill), (3, -2, 9));
    assert_eq!((f.rating, f.kills, f.battles_won, f.battles_fought, f.unspent_points), (0, 0, 0, 0, 0));
    assert!(!f.dead && !f.pre_matched);
    assert_eq!(f.total(), 10);
    assert_eq!(Class::default(), Class::Mutant);
}

#[test]
fn total_counts_unspent_points() {
    let mut f = fighter(Class::Naked, 1, 2, 3);
    f.unspent_points = -10;
    assert_eq!(f.total(), -4);
}

#[test]
fn injury_table() {
    let base = fighter(Class::Naked, 5, 6, 7);
    for r in [-3, 0] {
        let mut f = base.clone();
        f.apply_injury(r);
        assert!(f.dead);
        assert_eq!((f.strength, f.speed, f.skill), (5, 6, 7));
    }
    let mut f = base.clone();
    f.apply_injury(1);
    assert_eq!((f.strength, f.speed, f.skill, f.dead), (4, 5, 6, false));
    let mut f = base.clone();
    f.apply_injury(2);
    assert_eq!((f.strength, f.speed, f.skill, f.dead), (4, 6, 7, false));
    let mut f = base.clone();
    f.apply_injury(3);
    assert_eq!((f.strength, f.speed, f.skill), (5, 5, 7));
    let mut f = base.clone();
    f.apply_injury(4);
    assert_eq!((f.strength, f.speed, f.skill), (5, 6, 6));
    for r in [5, 6, 7] {
        let mut f = base.clone();
        f.apply_injury(r);
        assert_eq!((f.strength, f.speed, f.skill, f.dead), (5, 6, 7, false));
    }
}

#[test]
fn tank_keeps_the_better_injury_roll() {
    let tank = fighter(Class::Tank, 1, 1, 1);
    assert_eq!(tank.injury_roll(&Arena::Hills, 2, 6), 6);
    assert_eq!(tank.injury_roll(&Arena::Hills, 6, 2), 6);
    assert_eq!(tank.injury_roll(&Arena::Siphon, 2, 6), 2);
    let other = fighter(Class::Naked, 1, 1, 1);
    assert_eq!(other.injury_roll(&Arena::Hills, 2, 6), 2);
}

#[test]
fn injure_records_in_the_log() {
    let mut log = Batlog::new(1);
    log.advance_to_next_battle(0, 1);
    let mut f = fighter(Class::Naked, 5, 5, 5);
    assert_eq!(f.injure_with(&Arena::Ampitheater, &mut log, false, 0, 0), None);
    assert!(!f.dead);
    assert_eq!(f.injure_with(&Arena::Ampitheater, &mut log, true, 4, 0), Some(4));
    assert_eq!(f.skill, 4);
    assert_eq!((log.fights[0].injury_1, log.fights[0].injury_2), (None, Some(4)));
    for _ in 0..30 {
        let mut log = Batlog::new(1);
        log.advance_to_next_battle(0, 1);
        let mut g = fighter(Class::Tank, 5, 5, 5);
        let r = g.injure(&Arena::Ampitheater, &Modifier::Rulebook, &mut log, true).unwrap();
        assert!((0..8).contains(&r));
        assert_eq!(log.fights[0].injury_1, Some(r));
        assert_eq!(g.dead, r <= 0);
    }
}

#[test]
fn stats_from_dice_by_arena_and_class() {
    let naked = fighter(Class::Naked, 4, 3, 8);
    assert_eq!(naked.stats_from_dice(&Arena::Ampitheater, &dice()), vec![5, 8, 18]);
    assert_eq!(naked.stats_from_dice(&Arena::Hills, &dice()), vec![5, 11, 18]);
    assert_eq!(naked.stats_from_dice(&Arena::Library, &dice()), vec![9, 13, 18]);
    let swarm = fighter(Class::Swarm, 4, 3, 8);
    assert_eq!(swarm.stats_from_dice(&Arena::Ampitheater, &dice()), vec![10, 3, 8]);
    assert_eq!(swarm.stats_from_dice(&Arena::Siphon, &dice()), vec![5, 8, 18]);
    let mutant = fighter(Class::Mutant, 4, 3, 8);
    assert_eq!(mutant.stats_from_dice(&Arena::Ampitheater, &dice()), vec![5, 9, 18]);
    assert_eq!(mutant.stats_from_dice(&Arena::Siphon, &dice()), vec![5, 8, 18]);
}

#[test]
fn rolled_stats_stay_in_range() {
    let mut seen = Vec::new();
    for _ in 0..100 {
        let f = fighter(Class::Naked, 0, 0, 0);
        let r = f.roll_for_stats(&Arena::Ampitheater, &Modifier::Rulebook);
        assert_eq!(r.len(), 3);
        assert!(r.iter().all(|x| (1..=10).contains(x)));
        seen.push(r[0]);
        let s = fighter(Class::Swarm, 0, 0, 0).roll_for_stats(&Arena::Hills, &Modifier::Rulebook);
        assert!((2..=10).contains(&s[0]) && s[1] == 0 && s[2] == 0);
    }
    assert!(seen.iter().any(|x| *x != seen[0]));
}

#[test]
fn class_names_parse_in_any_case() {
    assert_eq!("DOM".parse::<Class>(), Ok(Class::Dom));
    assert_eq!("Skeleton".parse::<Class>(), Ok(Class::Dom));
    assert_eq!("chicken".parse::<Class>(), Ok(Class::Tank));
    assert_eq!("Senator".parse::<Class>(), Ok(Class::Naked));
    assert_eq!("swarm".parse::<Class>(), Ok(Class::Swarm));
    assert_eq!("wizard".parse::<Class>(), Err(String::from("class wizard failed to parse!")));
    assert_eq!(Class::from_name("DOM"), None);
    assert_eq!(Class::from_name("cleric"), Some(Class::Cleric));
    assert_eq!(Class::Dom.name(), "skeleton");
    assert_eq!(Class::Tank.name(), "chicken");
    assert_eq!(Class::Mutant.name(), "mutant");
}

#[test]
fn fighter_from_fields() {
    let f = Fighter::from_vec(&strings(&["Grog", "ann", "Turtle", "3", "-12", "+7"])).unwrap();
    assert_eq!(f.name, "Grog");
    assert_eq!(f.owner, "ann");
    assert_eq!(f.class, Class::Turtle);
    assert_eq!((f.strength, f.speed, f.skill), (3, -12, 7));
    assert_eq!(
        Fighter::from_vec(&strings(&["a", "b", "naked", "1", "2"])).unwrap_err(),
        "fighter vec parsing requires vec of length 6"
    );
    assert_eq!(
        Fighter::from_vec(&strings(&["a", "b", "elf", "1", "2", "3"])).unwrap_err(),
        "class elf failed to parse!"
    );
    assert_eq!(
        Fighter::from_vec(&strings(&["a", "b", "naked", "1", "x2", "3"])).unwrap_err(),
        "strength value x2 failed to parse!"
    );
    assert_eq!(
        Fighter::from_vec(&strings(&["a", "b", "naked", "1", "2", "99999999999"])).unwrap_err(),
        "strength value 99999999999 failed to parse!"
    );
}

#[test]
fn spending_points_raises_stats() {
    let mut f = fighter(Class::Naked, 1, 2, 3);
    f.unspent_points = 4;
    assert_eq!(f.add_stats(2, 0, 1), Ok(()));
    assert_eq!((f.strength, f.speed, f.skill, f.unspent_points), (3, 2, 4, 1));
    assert_eq!(f.add_stats(1, 1, 1), Ok(()));
    assert_eq!(f.unspent_points, -2);
    assert_eq!(f.add_stats(i32::MAX, 0, 0), Err(String::from("stats out of range!")));
    assert_eq!((f.strength, f.unspent_points), (4, -2));
}
