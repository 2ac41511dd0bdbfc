use gladiator_war::batlog::Batlog;
use gladiator_war::battle::{
    battle, battle_with_dice, get_result, gunfire, points_from_stats, reward_win, BattleDice, BattleResult,
};
use gladiator_war::fighter::{Class, Fighter, StatDice};
use gladiator_war::round::{Arena, Modifier};

fn fighter(name: &str, class: Class, st: i32, sp: i32, sk: i32) -> Fighter {
    Fighter::new(String::from(name), String::from("owner"), class, st, sp, sk)
}

fn plain_dice(a: i32, b: i32, c: i32) -> StatDice {
    StatDice { swarm: (1, 1), mutant_slot: 0, mutant: (1, 1), plain: (a, b, c) }
}

#[test]
fn test_pts_from_stats() {
    assert_eq!(points_from_stats(&Class::Naked, 1, &Class::Naked, 0, &Arena::Ampitheater, &Modifier::Rulebook, 0), (1, None));
    assert_eq!(points_from_stats(&Class::Naked, 0, &Class::Naked, 1, &Arena::Ampitheater, &Modifier::Rulebook, 0), (-1, None));
    assert_eq!(points_from_stats(&Class::Naked, 5, &Class::Naked, 0, &Arena::Ampitheater, &Modifier::Rulebook, 0), (2, None));
    assert_eq!(points_from_stats(&Class::Naked, 1, &Class::Naked, 7, &Arena::Ampitheater, &Modifier::Rulebook, 0), (-2, None));
    assert_eq!(points_from_stats(&Class::Dom, 5, &Class::Naked, 0, &Arena::Ampitheater, &Modifier::Rulebook, 0), (3, None));
    assert_eq!(points_from_stats(&Class::Dom, 0, &Class::Dom, 5, &Arena::Ampitheater, &Modifier::Rulebook, 0), (-3, None));
    assert_eq!(points_from_stats(&Class::Naked, 5, &Class::Turtle, 0, &Arena::Ampitheater, &Modifier::Rulebook, 0), (1, None));
    assert_eq!(points_from_stats(&Class::Turtle, 0, &Class::Naked, 5, &Arena::Ampitheater, &Modifier::Rulebook, 0), (-1, None));
    assert_eq!(points_from_stats(&Class::Naked, 5, &Class::Naked, 0, &Arena::ClimbingWall, &Modifier::Rulebook, 0), (1000001, Some(String::from("f1 wins instantly"))));
    assert_eq!(points_from_stats(&Class::Naked, 0, &Class::Naked, 5, &Arena::ClimbingWall, &Modifier::Rulebook, 0), (-1000001, Some(String::from("f2 wins instantly"))));
}

#[test]
fn equal_stats_score_nothing() {
    let classes = [Class::Swarm, Class::Dom, Class::Turtle, Class::Tank, Class::Mutant, Class::Cleric, Class::Naked];
    let arenas = [Arena::Ampitheater, Arena::ClimbingWall, Arena::Hills, Arena::CrocPit];
    for c1 in classes {
        for c2 in classes {
            for a in arenas {
                for slot in 0..3 {
                    assert_eq!(points_from_stats(&c1, 9, &c2, 9, &a, &Modifier::Rulebook, slot), (0, None));
                }
            }
        }
    }
    assert_eq!(points_from_stats(&Class::Dom, i32::MIN, &Class::Turtle, i32::MIN, &Arena::ClimbingWall, &Modifier::Rulebook, 0), (0, None));
}

#[test]
fn naked_points_are_skew_symmetric() {
    let arenas = [Arena::Ampitheater, Arena::ClimbingWall, Arena::Siphon];
    for a in arenas {
        for slot in 0..3 {
            for (s1, s2) in [(0, 1), (3, 9), (12, 2), (-4, 4), (7, 7)] {
                let (p, _) = points_from_stats(&Class::Naked, s1, &Class::Naked, s2, &a, &Modifier::Rulebook, slot);
                let (q, _) = points_from_stats(&Class::Naked, s2, &Class::Naked, s1, &a, &Modifier::Rulebook, slot);
                assert_eq!(p, -q);
            }
        }
    }
}

#[test]
fn climbing_wall_strength_domination_wins_instantly() {
    let (p, e) = points_from_stats(&Class::Turtle, 20, &Class::Turtle, 15, &Arena::ClimbingWall, &Modifier::Rulebook, 0);
    assert!(p > 999990);
    assert_eq!(e, Some(String::from("f1 wins instantly")));
    let (p, e) = points_from_stats(&Class::Dom, 2, &Class::Dom, 40, &Arena::ClimbingWall, &Modifier::Rulebook, 0);
    assert!(p < -999990);
    assert_eq!(p, -1000002);
    assert_eq!(e, Some(String::from("f2 wins instantly")));
    // Speed and skill never win instantly.
    assert_eq!(points_from_stats(&Class::Naked, 20, &Class::Naked, 0, &Arena::ClimbingWall, &Modifier::Rulebook, 1), (2, None));
    // Extreme stats do not overflow the difference.
    assert_eq!(points_from_stats(&Class::Naked, i32::MAX, &Class::Naked, i32::MIN, &Arena::Ampitheater, &Modifier::Rulebook, 2), (2, None));
}

#[test]
fn resolve_ties_by_cleric() {
    assert_eq!(get_result(0, &Class::Cleric, &Class::Naked), BattleResult::F1WinFromCleric);
    assert_eq!(get_result(0, &Class::Naked, &Class::Cleric), BattleResult::F2WinFromCleric);
    assert_eq!(get_result(0, &Class::Cleric, &Class::Cleric), BattleResult::DrawFromCleric);
    assert_eq!(get_result(0, &Class::Naked, &Class::Naked), BattleResult::Draw);
    assert_eq!(get_result(3, &Class::Naked, &Class::Cleric), BattleResult::F1Win);
    assert_eq!(get_result(-1, &Class::Cleric, &Class::Naked), BattleResult::F2Win);
    assert_eq!(BattleResult::default(), BattleResult::Draw);
}

#[test]
fn gunfire_overrides_the_result() {
    let a = fighter("alice", Class::Naked, 1, 1, 1);
    let b = fighter("bob", Class::Naked, 1, 1, 1);
    assert_eq!(gunfire(BattleResult::F1Win, &a, &b, true, true), (BattleResult::Draw, Some(String::from("both fighters got shot"))));
    assert_eq!(gunfire(BattleResult::F1Win, &a, &b, true, false), (BattleResult::F2Win, Some(String::from("alice got shot"))));
    assert_eq!(gunfire(BattleResult::F2Win, &a, &b, false, true), (BattleResult::F1Win, Some(String::from("bob got shot"))));
    assert_eq!(gunfire(BattleResult::DrawFromCleric, &a, &b, false, false), (BattleResult::DrawFromCleric, None));
}

#[test]
fn rewards_depend_on_the_rating_gap() {
    // Ordinary win.
    let mut w = fighter("w", Class::Naked, 1, 1, 1);
    let mut l = fighter("l", Class::Naked, 1, 1, 1);
    reward_win(&mut w, &mut l, 5, &Modifier::Rulebook);
    assert_eq!((w.rating, w.unspent_points, w.battles_won, l.rating), (1, 1, 1, -1));
    // Underdog win: loser rated more than 3 above.
    let mut w = fighter("w", Class::Naked, 1, 1, 1);
    let mut l = fighter("l", Class::Naked, 1, 1, 1);
    l.rating = 4;
    reward_win(&mut w, &mut l, 5, &Modifier::Rulebook);
    assert_eq!((w.rating, w.unspent_points, w.battles_won, l.rating), (2, 2, 1, 2));
    // Heavy favourite: no rating moves.
    let mut w = fighter("w", Class::Naked, 1, 1, 1);
    let mut l = fighter("l", Class::Naked, 1, 1, 1);
    w.rating = 10;
    reward_win(&mut w, &mut l, 5, &Modifier::Rulebook);
    assert_eq!((w.rating, w.unspent_points, w.battles_won, l.rating), (10, 1, 1, 0));
    // A kill under the crowd's demand for blood earns a bonus point.
    let mut w = fighter("w", Class::Naked, 1, 1, 1);
    let mut l = fighter("l", Class::Naked, 1, 1, 1);
    reward_win(&mut w, &mut l, 0, &Modifier::TheCrowdDemandsBlood);
    assert_eq!(w.unspent_points, 2);
    let mut w = fighter("w", Class::Naked, 1, 1, 1);
    let mut l = fighter("l", Class::Naked, 1, 1, 1);
    reward_win(&mut w, &mut l, 0, &Modifier::Rulebook);
    assert_eq!(w.unspent_points, 1);
}

#[test]
fn battle_with_dice_f1_win() {
    let mut f1 = fighter("strong", Class::Naked, 10, 10, 10);
    let mut f2 = fighter("weak", Class::Naked, 0, 0, 0);
    let mut log = Batlog::new(1);
    log.advance_to_next_battle(0, 1);
    let dice = BattleDice {
        stats_1: plain_dice(1, 1, 1),
        stats_2: plain_dice(1, 1, 1),
        gun_1: 5,
        gun_2: 5,
        injury_1: (0, 0),
        injury_2: (3, 7),
    };
    battle_with_dice(&mut f1, &mut f2, &Arena::Ampitheater, &Modifier::Rulebook, &mut log, &dice);
    assert_eq!((f1.rating, f1.unspent_points, f1.battles_won, f1.battles_fought), (1, 1, 1, 1));
    assert_eq!((f2.rating, f2.battles_won, f2.battles_fought), (-1, 0, 1));
    assert_eq!((f2.strength, f2.speed, f2.skill, f2.dead), (0, -1, 0, false));
    assert_eq!((f1.strength, f1.speed, f1.skill), (10, 10, 10));
    let b = &log.fights[0];
    assert_eq!(b.points, 6);
    assert_eq!(b.rolls_1, vec![11, 11, 11]);
    assert_eq!(b.rolls_2, vec![1, 1, 1]);
    assert_eq!((b.injury_1, b.injury_2), (None, Some(3)));
    assert_eq!(b.result, BattleResult::F1Win);
    assert!(b.other_events.is_empty());
    assert_eq!(log.count, 0);
}

#[test]
fn battle_with_dice_gun_and_climbing_wall() {
    let mut f1 = fighter("ann", Class::Naked, 20, 0, 0);
    let mut f2 = fighter("ben", Class::Tank, 0, 0, 0);
    let mut log = Batlog::new(2);
    log.advance_to_next_battle(3, 4);
    let dice = BattleDice {
        stats_1: plain_dice(1, 1, 1),
        stats_2: plain_dice(1, 1, 1),
        gun_1: 0,
        gun_2: 4,
        injury_1: (6, 0),
        injury_2: (0, 0),
    };
    battle_with_dice(&mut f1, &mut f2, &Arena::ClimbingWall, &Modifier::OhShitSheHasAGun, &mut log, &dice);
    let b = &log.fights[0];
    assert_eq!(b.points, 1000001);
    assert_eq!(b.result, BattleResult::F2Win);
    assert_eq!(b.other_events, vec![String::from("f1 wins instantly"), String::from("ann got shot")]);
    assert_eq!((b.injury_1, b.injury_2), (Some(6), None));
    assert_eq!((f2.rating, f2.battles_won, f1.rating), (1, 1, -1));
    assert!(!f1.dead);
}

#[test]
fn battle_with_dice_croc_pit_draw_injures_both() {
    let mut f1 = fighter("x", Class::Naked, 5, 5, 5);
    let mut f2 = fighter("y", Class::Naked, 5, 5, 5);
    let mut log = Batlog::new(1);
    log.advance_to_next_battle(0, 1);
    let dice = BattleDice {
        stats_1: plain_dice(2, 3, 4),
        stats_2: plain_dice(2, 3, 4),
        gun_1: 1,
        gun_2: 1,
        injury_1: (0, 0),
        injury_2: (1, 0),
    };
    battle_with_dice(&mut f1, &mut f2, &Arena::CrocPit, &Modifier::Rulebook, &mut log, &dice);
    assert_eq!(log.fights[0].result, BattleResult::Draw);
    assert!(f1.dead);
    assert_eq!((f2.strength, f2.speed, f2.skill), (4, 4, 4));
    assert_eq!((f1.rating, f2.rating), (0, 0));
}

#[test]
fn random_battle_keeps_its_records_consistent() {
    for _ in 0..50 {
        let mut f1 = fighter("p", Class::Mutant, 5, 6, 7);
        let mut f2 = fighter("q", Class::Tank, 7, 6, 5);
        let mut log = Batlog::new(1);
        log.advance_to_next_battle(0, 1);
        battle(&mut f1, &mut f2, &Arena::Ampitheater, &Modifier::OhShitSheHasAGun, &mut log);
        assert_eq!((f1.battles_fought, f2.battles_fought), (1, 1));
        assert_eq!(f1.rating + f2.rating, 0);
        let b = &log.fights[0];
        assert_eq!((b.rolls_1.len(), b.rolls_2.len()), (3, 3));
        match b.result {
            BattleResult::Draw | BattleResult::DrawFromCleric => assert!(b.injury_1.is_none() && b.injury_2.is_none()),
            _ => assert!(b.injury_1.is_some() != b.injury_2.is_some()),
        }
        for inj in [b.injury_1, b.injury_2].into_iter().flatten() {
            assert!((0..8).contains(&inj));
        }
    }
}
