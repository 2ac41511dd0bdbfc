use gladiator_war::batlog::Batlog;
use gladiator_war::battle::BattleResult;
use gladiator_war::fighter::{Class, Fighter};
use gladiator_war::game::GameState;
use gladiator_war::round::{Arena, Modifier, Round};

fn season(n: usize) -> GameState {
    let mut g = GameState::new_game("spring");
    for i in 0..n {
        g.add_fighter(Fighter::new(format!("f{}", i), String::from("o"), Class::Naked, 5, 5, 5));
    }
    g
}

#[test]
fn new_game_is_empty() {
    let g = GameState::new_game("autumn cup");
    assert_eq!(g.season_name, "autumn cup");
    assert!(g.fighters.is_empty() && g.prev_rounds.is_empty() && g.pre_matches.is_empty());
    assert!(g.next_round.is_none());
    assert_eq!(g.num_rounds, 0);
}

#[test]
fn arrange_match_checks_its_fighters() {
    let mut g = season(3);
    assert_eq!(g.arrange_match(0, 5), Err(String::from("fighter index out of range!")));
    g.fighters[1].dead = true;
    assert_eq!(g.arrange_match(0, 1), Err(String::from("cannot prematch dead fighters!")));
    assert_eq!(g.arrange_match(0, 2), Ok(()));
    assert!(g.fighters[0].pre_matched && g.fighters[2].pre_matched);
    assert_eq!(g.pre_matches, vec![(0, 2)]);
    g.new_round(Some(Arena::Ampitheater), Some(Modifier::Rulebook));
    assert!(g.pre_matches.is_empty());
    assert_eq!(g.arrange_match(0, 2), Err(String::from("cannot prematch while a round is scheduled!")));
}

#[test]
fn run_round_without_a_round_fails() {
    let mut g = season(2);
    assert_eq!(g.run_round(), Err(String::from("next round not yet generated!")));
    assert_eq!(g.num_rounds, 0);
}

#[test]
fn a_round_is_scheduled_run_and_kept() {
    let mut g = season(5);
    g.new_round(Some(Arena::CrocPit), Some(Modifier::OlympicInspector));
    match &g.next_round {
        Some(Round::Standard(r)) => {
            assert_eq!(r.matchups.len(), 2);
            assert!(r.sitting_out.is_some());
            assert_eq!(r.log.round_no, 1);
        },
        _ => panic!("no round scheduled"),
    }
    assert_eq!(g.run_round(), Ok(()));
    assert!(g.next_round.is_none());
    assert_eq!(g.num_rounds, 1);
    assert_eq!(g.prev_rounds.len(), 1);
    let sitting_out = match &g.prev_rounds[0] {
        Round::Standard(r) => {
            assert_eq!(r.log.fights.len(), 2);
            for (k, b) in r.log.fights.iter().enumerate() {
                assert_eq!((b.fighter_1, b.fighter_2), r.matchups[k]);
                assert_eq!(b.rolls_1.len(), 3);
            }
            r.sitting_out.unwrap()
        },
        _ => panic!("not a standard round"),
    };
    assert_eq!(g.fighters[sitting_out].battles_fought, 0);
    let fought: i32 = g.fighters.iter().map(|f| f.battles_fought).sum();
    assert_eq!(fought, 4);
    let rating_sum: i32 = g.fighters.iter().map(|f| f.rating).sum();
    assert_eq!(rating_sum, 0);
    assert!(g.fighters.iter().all(|f| !f.pre_matched));
}

#[test]
fn arranged_fighters_are_released_after_the_round() {
    let mut g = season(4);
    assert_eq!(g.arrange_match(1, 3), Ok(()));
    g.new_round(Some(Arena::Siphon), Some(Modifier::Rulebook));
    assert_eq!(g.run_round(), Ok(()));
    assert!(g.fighters.iter().all(|f| !f.pre_matched && f.battles_fought == 1));
}

#[test]
fn cancel_drops_the_scheduled_round() {
    let mut g = season(2);
    g.new_round(None, None);
    assert!(g.next_round.is_some());
    g.cancel_next_round();
    assert!(g.next_round.is_none());
    assert_eq!(g.run_round(), Err(String::from("next round not yet generated!")));
}

#[test]
fn a_round_out_of_range_is_refused() {
    let mut g = season(2);
    g.fighters[0].rating = i32::MAX;
    g.new_round(Some(Arena::Hills), Some(Modifier::Rulebook));
    assert!(g.run_round().is_err());
    assert!(g.next_round.is_some());
    assert_eq!(g.num_rounds, 0);
}

#[test]
fn batlog_alternates_sides() {
    let mut log = Batlog::new(3);
    log.advance_to_next_battle(4, 7);
    log.set_rolls(vec![1, 2, 3]);
    log.set_rolls(vec![4, 5, 6]);
    log.set_injury(Some(2));
    log.set_injury(None);
    log.set_points(-3);
    log.set_result(BattleResult::F2Win);
    log.add_events(String::from("first"));
    log.add_events(String::from("second"));
    let b = &log.fights[0];
    assert_eq!((b.fighter_1, b.fighter_2), (4, 7));
    assert_eq!(b.rolls_1, vec![1, 2, 3]);
    assert_eq!(b.rolls_2, vec![4, 5, 6]);
    assert_eq!((b.injury_1, b.injury_2), (Some(2), None));
    assert_eq!(b.points, -3);
    assert_eq!(b.result, BattleResult::F2Win);
    assert_eq!(b.other_events, vec![String::from("first"), String::from("second")]);
    assert_eq!(log.round_no, 3);
    log.advance_to_next_battle(0, 1);
    log.set_rolls(vec![9]);
    assert_eq!(log.fights[1].rolls_1, vec![9]);
    assert!(log.fights[1].rolls_2.is_empty());
    assert_eq!(log.fights.len(), 2);
}

#[test]
fn fighters_outside_the_round_do_not_block_it() {
    let mut g = season(3);
    g.fighters[2].dead = true;
    g.fighters[2].rating = i32::MAX;
    g.new_round(Some(Arena::Hills), Some(Modifier::Rulebook));
    assert_eq!(g.run_round(), Ok(()));
    assert_eq!(g.fighters[2].rating, i32::MAX);
    assert_eq!(g.fighters[0].battles_fought + g.fighters[1].battles_fought, 2);
}
