use gladiator_war::batlog::Batlog;
use gladiator_war::fighter::{Class, Fighter};
use gladiator_war::round::{
    generate_matchups, generate_olympics, pair_up, seed_pairs, sort_by_rating, Arena, GameRound, Modifier,
};

fn fighters_with_ratings(ratings: &[i32]) -> Vec<Fighter> {
    ratings
        .iter()
        .map(|r| {
            let mut f = Fighter::new(String::from("f"), String::from("o"), Class::Naked, 1, 1, 1);
            f.rating = *r;
            f
        })
        .collect()
}

fn covered(pairs: &[(usize, usize)], sitting_out: Option<usize>) -> Vec<usize> {
    let mut v: Vec<usize> = pairs.iter().flat_map(|p| [p.0, p.1]).collect();
    v.extend(sitting_out);
    v.sort();
    v
}

#[test]
fn matchups_cover_each_eligible_fighter_once() {
    let mut fs = fighters_with_ratings(&[0, 0, 0, 0, 0, 0, 0, 0]);
    fs[1].dead = true;
    fs[6].pre_matched = true;
    for _ in 0..20 {
        let (pairs, out) = generate_matchups(&fs);
        assert_eq!(pairs.len(), 3);
        assert_eq!(out, None);
        assert_eq!(covered(&pairs, out), vec![0, 2, 3, 4, 5, 7]);
    }
    fs[7].dead = true;
    for _ in 0..20 {
        let (pairs, out) = generate_matchups(&fs);
        assert_eq!(pairs.len(), 2);
        assert!(out.is_some());
        assert_eq!(covered(&pairs, out), vec![0, 2, 3, 4, 5]);
    }
}

#[test]
fn matchups_of_nobody() {
    let (pairs, out) = generate_matchups(&[]);
    assert!(pairs.is_empty() && out.is_none());
    let fs = fighters_with_ratings(&[3]);
    let (pairs, out) = generate_matchups(&fs);
    assert!(pairs.is_empty());
    assert_eq!(out, Some(0));
}

#[test]
fn matchups_are_shuffled() {
    let fs = fighters_with_ratings(&[0; 10]);
    let in_order: Vec<(usize, usize)> = vec![(0, 1), (2, 3), (4, 5), (6, 7), (8, 9)];
    let mut differs = false;
    for _ in 0..20 {
        let (pairs, _) = generate_matchups(&fs);
        if pairs != in_order {
            differs = true;
        }
    }
    assert!(differs);
}

#[test]
fn olympics_pairs_neighbours_in_rating() {
    let fs = fighters_with_ratings(&[1, 5, 2, 8]);
    for _ in 0..10 {
        let (pairs, out) = generate_olympics(&fs);
        assert_eq!(pairs, vec![(0, 2), (1, 3)]);
        assert_eq!(out, None);
    }
    assert_eq!(sort_by_rating(&fs, &vec![0, 1, 2, 3]), vec![0, 2, 1, 3]);
}

#[test]
fn olympics_with_an_odd_count() {
    let fs = fighters_with_ratings(&[9, 3, 6, 1, 4]);
    let (pairs, out) = seed_pairs(&fs, &vec![0, 1, 2, 3, 4]);
    assert_eq!(out, Some(4));
    assert_eq!(pairs, vec![(3, 1), (2, 0)]);
    let (pairs, out) = generate_olympics(&fs);
    assert_eq!(pairs.len(), 2);
    let mut all = covered(&pairs, out);
    all.dedup();
    assert_eq!(all, vec![0, 1, 2, 3, 4]);
    let ratings: Vec<i32> = pairs.iter().flat_map(|p| [fs[p.0].rating, fs[p.1].rating]).collect();
    assert!(ratings.windows(2).all(|w| w[0] <= w[1]));
}

#[test]
fn equal_ratings_keep_their_order() {
    let fs = fighters_with_ratings(&[2, 1, 2, 1]);
    assert_eq!(sort_by_rating(&fs, &vec![0, 1, 2, 3]), vec![1, 3, 0, 2]);
    assert_eq!(sort_by_rating(&fs, &vec![2, 3, 0, 1]), vec![3, 1, 2, 0]);
    assert_eq!(seed_pairs(&fs, &vec![2, 3, 0, 1]), (vec![(3, 1), (2, 0)], None));
}

#[test]
fn pair_up_in_sequence() {
    assert_eq!(pair_up(&vec![4, 2, 7, 1]), (vec![(4, 2), (7, 1)], None));
    assert_eq!(pair_up(&vec![4, 2, 7]), (vec![(4, 2)], Some(7)));
    assert_eq!(pair_up(&vec![]), (vec![], None));
}

#[test]
fn new_round_appends_arranged_matchups() {
    let mut fs = fighters_with_ratings(&[0, 0, 0, 0]);
    fs[2].pre_matched = true;
    fs[3].pre_matched = true;
    let mut pre = vec![(2, 3)];
    let r = GameRound::new(&fs, &mut pre, 4, Some(Arena::Hills), Some(Modifier::Rulebook));
    assert!(pre.is_empty());
    assert_eq!(r.arena, Arena::Hills);
    assert_eq!(r.modifier, Modifier::Rulebook);
    assert_eq!(r.matchups.len(), 2);
    assert_eq!(r.matchups[1], (2, 3));
    assert!(r.matchups[0] == (0, 1) || r.matchups[0] == (1, 0));
    assert_eq!(r.sitting_out, None);
    assert_eq!(r.log.round_no, 4);
    assert!(r.log.fights.is_empty());
    let _ = GameRound::new(&fs, &mut Vec::new(), 1, None, None);
    let _: Batlog = r.log;
}

#[test]
fn arena_and_modifier_names() {
    assert_eq!("Amp".parse::<Arena>(), Ok(Arena::Ampitheater));
    assert_eq!("MECHS".parse::<Arena>(), Ok(Arena::Library));
    assert_eq!("softplay".parse::<Arena>(), Ok(Arena::SoftPlayArea));
    assert_eq!("lava".parse::<Arena>(), Err(String::from("arena lava failed to parse!")));
    assert_eq!("GUN".parse::<Modifier>(), Ok(Modifier::OhShitSheHasAGun));
    assert_eq!("Inspector".parse::<Modifier>(), Ok(Modifier::OlympicInspector));
    assert_eq!("blood".parse::<Modifier>(), Ok(Modifier::TheCrowdDemandsBlood));
    assert_eq!("none".parse::<Modifier>(), Err(String::from("modifier none failed to parse!")));
    assert_eq!(Arena::Library.name(), "mech suits");
    assert_eq!(Arena::CrocPit.name(), "crocodile pit");
    assert_eq!(Modifier::OhShitSheHasAGun.name(), "oh shit the empress has a gun");
    assert_eq!(Arena::from_index(2), Arena::ClimbingWall);
    assert_eq!(Modifier::from_index(5), Modifier::OlympicInspector);
}
