//! A season: its fighters, the rounds fought so far, the round scheduled
//! next, and the matchups arranged for it.

use vstd::prelude::*;
use crate::batlog::{fresh_battle, Batlog, BatlogView};
use crate::battle::{battle, fighters_after, log_after, record_opt_event, BattleDice};
use crate::fighter::Fighter;
use crate::round::{Arena, GameRound, Modifier, Round};

verus! {

/// The largest size any number of a fighter may have when a round is run.
pub const STAT_LIMIT: i32 = 1_000_000_000;

/// The most matchups a round may have to be run.
pub const MATCHUP_LIMIT: usize = 1_000_000;

/// A season of the game.
#[derive(Clone, Debug)]
pub struct GameState {
    pub fighters: Vec<Fighter>,
    pub prev_rounds: Vec<Round>,
    /// The round scheduled next, if any.
    pub next_round: Option<Round>,
    pub num_rounds: i32,
    pub season_name: String,
    /// Matchups arranged for the next round, as indices into `fighters`.
    pub pre_matches: Vec<(usize, usize)>,
}

/// No number of the fighter is larger in size than `b` (counters that only
/// grow are bounded above only).
pub open spec fn within(f: Fighter, b: int) -> bool {
    &&& -b <= f.strength <= b
    &&& -b <= f.speed <= b
    &&& -b <= f.skill <= b
    &&& -b <= f.rating <= b
    &&& f.unspent_points <= b
    &&& f.battles_won <= b
    &&& f.battles_fought <= b
}

/// `b` is the same fighter as `a`: same name, owner and class, and the same
/// kill count, which no battle changes.
pub open spec fn same_fighter(a: Fighter, b: Fighter) -> bool {
    &&& b.name == a.name
    &&& b.owner == a.owner
    &&& b.class == a.class
    &&& b.kills == a.kills
}

/// Whether fighter `j` is in one of the matchups.
pub open spec fn in_matchups(ms: Seq<(usize, usize)>, j: int) -> bool {
    exists|t: int| 0 <= t < ms.len() && (ms[t].0 == j || ms[t].1 == j)
}

/// A round that can be run on `fighters`: its matchups name fighters of the
/// list and are not too many, and no fighter in a matchup has numbers near
/// the limits of `i32`.
pub open spec fn runnable(fighters: Seq<Fighter>, g: GameRound) -> bool {
    &&& g.matchups@.len() <= MATCHUP_LIMIT
    &&& forall|t: int|
        0 <= t < g.matchups@.len() ==> {
            &&& (#[trigger] g.matchups@[t]).0 < fighters.len()
            &&& g.matchups@[t].1 < fighters.len()
            &&& within(fighters[g.matchups@[t].0 as int], STAT_LIMIT as int)
            &&& within(fighters[g.matchups@[t].1 as int], STAT_LIMIT as int)
        }
}

/// One matchup of a round fought with dice `d`: a fresh record is started
/// in the log, both fighters enter with `pre_matched` cleared, the battle is
/// fought, and both are written back (fighter 2 last).
pub open spec fn round_step(fs: Seq<Fighter>, m: (usize, usize), arena: Arena, modifier: Modifier, d: BattleDice, log: BatlogView) -> (Seq<Fighter>, BatlogView) {
    let started = BatlogView { fights: log.fights.push(fresh_battle(m.0, m.1)), ..log };
    let f1 = Fighter { pre_matched: false, ..fs[m.0 as int] };
    let f2 = Fighter { pre_matched: false, ..fs[m.1 as int] };
    let after = fighters_after(f1, f2, arena, modifier, d);
    (fs.update(m.0 as int, after.0).update(m.1 as int, after.1), log_after(f1, f2, arena, modifier, d, started))
}

/// The fighters and the log after the matchups `ms` are fought in order, the
/// `t`th with dice `ds[t]`.
pub open spec fn round_after(fs: Seq<Fighter>, ms: Seq<(usize, usize)>, arena: Arena, modifier: Modifier, ds: Seq<BattleDice>, log: BatlogView) -> (Seq<Fighter>, BatlogView)
    decreases ms.len(),
{
    if ms.len() == 0 || ds.len() == 0 {
        (fs, log)
    } else {
        let before = round_after(fs, ms.drop_last(), arena, modifier, ds.drop_last(), log);
        round_step(before.0, ms.last(), arena, modifier, ds.last(), before.1)
    }
}

/// A fighter whose numbers are within the limit for a battle in the `k`th
/// matchup of a round is ready for that battle in any arena.
proof fn lemma_within_ready(f: Fighter, k: int, arena: Arena)
    requires
        0 <= k <= MATCHUP_LIMIT,
        within(f, STAT_LIMIT + 3 * k),
    ensures
        f.ready_for_battle(arena),
{
}

/// A battle moves each number of a fighter by at most 3.
proof fn lemma_battle_moves_little(f1: Fighter, f2: Fighter, arena: Arena, modifier: Modifier, d: crate::battle::BattleDice, b: int)
    requires
        b >= 0,
        within(f1, b),
        within(f2, b),
    ensures
        within(fighters_after(f1, f2, arena, modifier, d).0, b + 3),
        within(fighters_after(f1, f2, arena, modifier, d).1, b + 3),
        fighters_after(f1, f2, arena, modifier, d).0.pre_matched == f1.pre_matched,
        fighters_after(f1, f2, arena, modifier, d).1.pre_matched == f2.pre_matched,
        same_fighter(f1, fighters_after(f1, f2, arena, modifier, d).0),
        same_fighter(f2, fighters_after(f1, f2, arena, modifier, d).1),
{
}

/// `b` differs from `a` at most in the latest battle's record, and names the
/// same two fighters there.
pub open spec fn same_frame(a: BatlogView, b: BatlogView) -> bool {
    &&& b.fights.len() == a.fights.len()
    &&& b.round_no == a.round_no
    &&& forall|i: int| 0 <= i < a.fights.len() - 1 ==> b.fights[i] == a.fights[i]
    &&& b.latest().fighter_1 == a.latest().fighter_1
    &&& b.latest().fighter_2 == a.latest().fighter_2
}

/// Recording into the latest battle keeps the frame of the log.
proof fn lemma_record_frame(log: BatlogView, e: Option<Seq<char>>, rolls: Seq<i32>, injury: Option<i32>, points: i32, result: crate::battle::BattleResult)
    requires
        log.fights.len() > 0,
    ensures
        same_frame(log, record_opt_event(log, e)),
        same_frame(log, log.record_rolls(rolls)),
        same_frame(log, log.record_injury(injury)),
        same_frame(log, log.record_points(points)),
        same_frame(log, log.record_result(result)),
{
}

/// A battle changes only the latest battle's record, which keeps naming the
/// same two fighters.
proof fn lemma_battle_log_frame(f1: Fighter, f2: Fighter, arena: Arena, modifier: Modifier, d: BattleDice, log: BatlogView)
    requires
        log.fights.len() > 0,
    ensures
        same_frame(log, log_after(f1, f2, arena, modifier, d, log)),
{
    let (r1, r2) = crate::battle::battle_rolls(f1, f2, arena, d);
    let result = crate::battle::battle_result(f1, f2, arena, modifier, d);
    let (hurt_1, hurt_2) = crate::battle::injured_sides(result, arena);
    let i1 = crate::fighter::kept_injury_roll(f1.class, arena, d.injury_1.0, d.injury_1.1);
    let i2 = crate::fighter::kept_injury_roll(f2.class, arena, d.injury_2.0, d.injury_2.1);
    let gun_event = if modifier == Modifier::OhShitSheHasAGun {
        crate::battle::gunfire_event(f1.name@, f2.name@, d.gun_1 == 0, d.gun_2 == 0)
    } else {
        None
    };
    let l1 = record_opt_event(log, crate::battle::slot_event(r1[0] as int, r2[0] as int, arena, 0));
    let l2 = record_opt_event(l1, crate::battle::slot_event(r1[1] as int, r2[1] as int, arena, 1));
    let l3 = record_opt_event(l2, crate::battle::slot_event(r1[2] as int, r2[2] as int, arena, 2));
    let l4 = l3.record_points(crate::battle::total_points(f1.class, r1, f2.class, r2, arena) as i32);
    let l5 = l4.record_rolls(r1);
    let l6 = l5.record_rolls(r2);
    let l7 = record_opt_event(l6, gun_event);
    let l8 = l7.record_injury(if hurt_1 { Some(i1) } else { None });
    let l9 = l8.record_injury(if hurt_2 { Some(i2) } else { None });
    let l10 = l9.record_result(result);
    lemma_record_frame(log, crate::battle::slot_event(r1[0] as int, r2[0] as int, arena, 0), r1, None, 0, result);
    lemma_record_frame(l1, crate::battle::slot_event(r1[1] as int, r2[1] as int, arena, 1), r1, None, 0, result);
    lemma_record_frame(l2, crate::battle::slot_event(r1[2] as int, r2[2] as int, arena, 2), r1, None, 0, result);
    lemma_record_frame(l3, None, r1, None, crate::battle::total_points(f1.class, r1, f2.class, r2, arena) as i32, result);
    lemma_record_frame(l4, None, r1, None, 0, result);
    lemma_record_frame(l5, None, r2, None, 0, result);
    lemma_record_frame(l6, gun_event, r2, None, 0, result);
    lemma_record_frame(l7, None, r2, if hurt_1 { Some(i1) } else { None }, 0, result);
    lemma_record_frame(l8, None, r2, if hurt_2 { Some(i2) } else { None }, 0, result);
    lemma_record_frame(l9, None, r2, None, 0, result);
    assert(l10 == log_after(f1, f2, arena, modifier, d, log));
}

/// Fights a battle between two fighters whose numbers are within the limit
/// for the `k`th matchup of a round, leaving them within the limit for the
/// next one.
fn fight_within(f1: &mut Fighter, f2: &mut Fighter, arena: &Arena, modifier: &Modifier, log: &mut Batlog, k: usize)
    requires
        k < MATCHUP_LIMIT,
        within(*old(f1), STAT_LIMIT + 3 * k),
        within(*old(f2), STAT_LIMIT + 3 * k),
        old(log).fights.len() > 0,
    ensures
        within(*final(f1), STAT_LIMIT + 3 * (k + 1)),
        within(*final(f2), STAT_LIMIT + 3 * (k + 1)),
        final(f1).pre_matched == old(f1).pre_matched,
        final(f2).pre_matched == old(f2).pre_matched,
        same_fighter(*old(f1), *final(f1)),
        same_fighter(*old(f2), *final(f2)),
        final(log).fights.len() == old(log).fights.len(),
        same_frame(old(log)@, final(log)@),
        exists|d: BattleDice|
            {
                &&& d.valid()
                &&& (*final(f1), *final(f2)) == fighters_after(*old(f1), *old(f2), *arena, *modifier, d)
                &&& final(log)@ == log_after(*old(f1), *old(f2), *arena, *modifier, d, old(log)@)
            },
{
    proof {
        lemma_within_ready(*f1, k as int, *arena);
        lemma_within_ready(*f2, k as int, *arena);
    }
    let ghost (b1, b2, l0) = (*f1, *f2, log@);
    battle(f1, f2, arena, modifier, log);
    proof {
        let d = choose|d: BattleDice|
            {
                &&& d.valid()
                &&& (*f1, *f2) == fighters_after(b1, b2, *arena, *modifier, d)
                &&& log@ == log_after(b1, b2, *arena, *modifier, d, l0)
            };
        lemma_battle_moves_little(b1, b2, *arena, *modifier, d, STAT_LIMIT + 3 * k);
        lemma_battle_log_frame(b1, b2, *arena, *modifier, d, l0);
    }
}

/// An exact copy of a fighter.
fn copy_fighter(f: &Fighter) -> (r: Fighter)
    ensures
        r == *f,
{
    Fighter {
        name: f.name.clone(),
        owner: f.owner.clone(),
        class: f.class,
        strength: f.strength,
        speed: f.speed,
        skill: f.skill,
        dead: f.dead,
        rating: f.rating,
        kills: f.kills,
        battles_won: f.battles_won,
        battles_fought: f.battles_fought,
        unspent_points: f.unspent_points,
        pre_matched: f.pre_matched,
    }
}

/// Whether no number of `f` is larger in size than `STAT_LIMIT`.
fn fighter_within(f: &Fighter) -> (r: bool)
    ensures
        r == within(*f, STAT_LIMIT as int),
{
    !(f.strength < -STAT_LIMIT || f.strength > STAT_LIMIT || f.speed < -STAT_LIMIT || f.speed > STAT_LIMIT
        || f.skill < -STAT_LIMIT || f.skill > STAT_LIMIT || f.rating < -STAT_LIMIT || f.rating > STAT_LIMIT
        || f.unspent_points > STAT_LIMIT || f.battles_won > STAT_LIMIT || f.battles_fought > STAT_LIMIT)
}

/// Whether `g` can be run on `fighters`.
fn check_runnable(fighters: &Vec<Fighter>, g: &GameRound) -> (r: bool)
    ensures
        r == runnable(fighters@, *g),
{
    if g.matchups.len() > MATCHUP_LIMIT {
        return false;
    }
    let mut t: usize = 0;
    while t < g.matchups.len()
        invariant
            t <= g.matchups@.len(),
            forall|u: int|
                0 <= u < t ==> {
                    &&& (#[trigger] g.matchups@[u]).0 < fighters@.len()
                    &&& g.matchups@[u].1 < fighters@.len()
                    &&& within(fighters@[g.matchups@[u].0 as int], STAT_LIMIT as int)
                    &&& within(fighters@[g.matchups@[u].1 as int], STAT_LIMIT as int)
                },
        decreases g.matchups@.len() - t,
    {
        let (a, b) = g.matchups[t];
        if a >= fighters.len() || b >= fighters.len() {
            return false;
        }
        if !fighter_within(&fighters[a]) || !fighter_within(&fighters[b]) {
            return false;
        }
        t = t + 1;
    }
    true
}

/// Fights every matchup of `g` in order, recording each battle in `g`'s log.
fn fight_all(fighters: &mut Vec<Fighter>, g: &mut GameRound)
    requires
        runnable(old(fighters)@, *old(g)),
    ensures
        final(fighters)@.len() == old(fighters)@.len(),
        final(g).matchups == old(g).matchups,
        final(g).sitting_out == old(g).sitting_out,
        final(g).arena == old(g).arena,
        final(g).modifier == old(g).modifier,
        final(g).log@.round_no == old(g).log@.round_no,
        final(g).log@.fights.len() == old(g).log@.fights.len() + old(g).matchups@.len(),
        forall|t: int|
            0 <= t < old(g).matchups@.len() ==> {
                &&& (#[trigger] final(g).log@.fights[old(g).log@.fights.len() + t]).fighter_1 == old(g).matchups@[t].0
                &&& final(g).log@.fights[old(g).log@.fights.len() + t].fighter_2 == old(g).matchups@[t].1
            },
        forall|j: int|
            0 <= j < old(fighters)@.len() && !in_matchups(old(g).matchups@, j) ==> final(fighters)@[j] == old(fighters)@[j],
        forall|j: int| 0 <= j < old(fighters)@.len() && in_matchups(old(g).matchups@, j) ==> !final(fighters)@[j].pre_matched,
        forall|j: int| 0 <= j < old(fighters)@.len() ==> same_fighter(old(fighters)@[j], #[trigger] final(fighters)@[j]),
        exists|ds: Seq<BattleDice>|
            {
                &&& ds.len() == old(g).matchups@.len()
                &&& forall|t: int| 0 <= t < ds.len() ==> (#[trigger] ds[t]).valid()
                &&& (final(fighters)@, final(g).log@) == round_after(
                    old(fighters)@,
                    old(g).matchups@,
                    old(g).arena,
                    old(g).modifier,
                    ds,
                    old(g).log@,
                )
            },
{
    let n = g.matchups.len();
    let ghost mut ds: Seq<BattleDice> = Seq::empty();
    assert forall|j: int| 0 <= j < fighters@.len() && in_matchups(g.matchups@, j) implies within(
        #[trigger] fighters@[j],
        STAT_LIMIT + 3 * 0,
    ) by {
        let t = choose|t: int| 0 <= t < g.matchups@.len() && (g.matchups@[t].0 == j || g.matchups@[t].1 == j);
        assert(g.matchups@[t] == g.matchups@[t]);
    }
    assert(g.matchups@.subrange(0, 0) =~= Seq::<(usize, usize)>::empty());
    let mut k: usize = 0;
    while k < n
        invariant
            n == g.matchups@.len(),
            n <= MATCHUP_LIMIT,
            k <= n,
            g.matchups == old(g).matchups,
            g.sitting_out == old(g).sitting_out,
            g.arena == old(g).arena,
            g.modifier == old(g).modifier,
            g.log@.round_no == old(g).log@.round_no,
            g.log@.fights.len() == old(g).log@.fights.len() + k,
            forall|t: int|
                0 <= t < k ==> {
                    &&& (#[trigger] g.log@.fights[old(g).log@.fights.len() + t]).fighter_1 == g.matchups@[t].0
                    &&& g.log@.fights[old(g).log@.fights.len() + t].fighter_2 == g.matchups@[t].1
                },
            fighters@.len() == old(fighters)@.len(),
            forall|j: int| 0 <= j < fighters@.len() ==> same_fighter(old(fighters)@[j], #[trigger] fighters@[j]),
            forall|j: int|
                0 <= j < fighters@.len() && in_matchups(g.matchups@.subrange(0, k as int), j) ==> !fighters@[j].pre_matched,
            forall|t: int|
                0 <= t < n ==> (#[trigger] g.matchups@[t]).0 < fighters@.len() && g.matchups@[t].1 < fighters@.len(),
            forall|j: int|
                0 <= j < fighters@.len() && in_matchups(g.matchups@, j) ==> within(#[trigger] fighters@[j], STAT_LIMIT + 3 * k),
            ds.len() == k,
            forall|t: int| 0 <= t < ds.len() ==> (#[trigger] ds[t]).valid(),
            (fighters@, g.log@) == round_after(old(fighters)@, g.matchups@.subrange(0, k as int), g.arena, g.modifier, ds, old(g).log@),
            forall|j: int|
                0 <= j < fighters@.len() && !in_matchups(g.matchups@.subrange(0, k as int), j)
                    ==> fighters@[j] == old(fighters)@[j],
        decreases n - k,
    {
        let (i1, i2) = g.matchups[k];
        let ghost log0 = g.log@;
        g.log.advance_to_next_battle(i1, i2);
        let ghost log1 = g.log@;
        let mut f1 = copy_fighter(&fighters[i1]);
        let mut f2 = copy_fighter(&fighters[i2]);
        f1.pre_matched = false;
        f2.pre_matched = false;
        let ghost (fs0, e1, e2) = (fighters@, f1, f2);
        assert(in_matchups(g.matchups@, i1 as int) && in_matchups(g.matchups@, i2 as int)) by {
            assert(g.matchups@[k as int] == (i1, i2));
        }
        fight_within(&mut f1, &mut f2, &g.arena, &g.modifier, &mut g.log, k);
        let ghost d = choose|d: BattleDice|
            {
                &&& d.valid()
                &&& (f1, f2) == fighters_after(e1, e2, g.arena, g.modifier, d)
                &&& g.log@ == log_after(e1, e2, g.arena, g.modifier, d, log1)
            };
        assert forall|t: int| 0 <= t < k + 1 implies {
            &&& (#[trigger] g.log@.fights[old(g).log@.fights.len() + t]).fighter_1 == g.matchups@[t].0
            &&& g.log@.fights[old(g).log@.fights.len() + t].fighter_2 == g.matchups@[t].1
        } by {
            if t < k {
                assert(g.log@.fights[old(g).log@.fights.len() + t] == log1.fights[old(g).log@.fights.len() + t]);
                assert(log1.fights[old(g).log@.fights.len() + t] == log0.fights[old(g).log@.fights.len() + t]);
            }
        }
        let ghost before = fighters@;
        fighters.set(i1, f1);
        fighters.set(i2, f2);
        assert forall|j: int|
            0 <= j < fighters@.len() && !in_matchups(g.matchups@.subrange(0, k + 1), j) implies fighters@[j]
            == old(fighters)@[j] by {
            if in_matchups(g.matchups@.subrange(0, k as int), j) {
                let t = choose|t: int|
                    0 <= t < k && (g.matchups@.subrange(0, k as int)[t].0 == j || g.matchups@.subrange(
                        0,
                        k as int,
                    )[t].1 == j);
                assert(g.matchups@.subrange(0, k + 1)[t] == g.matchups@.subrange(0, k as int)[t]);
            }
            assert(g.matchups@.subrange(0, k + 1)[k as int] == (i1, i2));
        }
        assert forall|j: int|
            0 <= j < fighters@.len() && in_matchups(g.matchups@.subrange(0, k + 1), j) implies !fighters@[j].pre_matched by {
            let t = choose|t: int|
                0 <= t < k + 1 && ((#[trigger] g.matchups@.subrange(0, k + 1)[t]).0 == j || g.matchups@.subrange(
                    0,
                    k + 1,
                )[t].1 == j);
            if t < k {
                assert(g.matchups@.subrange(0, k as int)[t] == g.matchups@.subrange(0, k + 1)[t]);
                assert(in_matchups(g.matchups@.subrange(0, k as int), j));
            }
        }
        proof {
            let ms = g.matchups@.subrange(0, k + 1);
            assert(ms.drop_last() =~= g.matchups@.subrange(0, k as int));
            assert(ms.last() == (i1, i2));
            assert(ds.push(d).drop_last() =~= ds);
            assert(log1 == (BatlogView { fights: log0.fights.push(fresh_battle(i1, i2)), ..log0 }));
            assert(e1 == (Fighter { pre_matched: false, ..fs0[i1 as int] }));
            assert(e2 == (Fighter { pre_matched: false, ..fs0[i2 as int] }));
            ds = ds.push(d);
        }
        k = k + 1;
    }
    assert(g.matchups@.subrange(0, n as int) =~= g.matchups@);
}

impl GameState {
    /// A new, empty season called `season_name`.
    pub fn new_game(season_name: &str) -> (r: GameState)
        ensures
            r.fighters@.len() == 0,
            r.prev_rounds@.len() == 0,
            r.next_round is None,
            r.num_rounds == 0,
            r.season_name@ == season_name@,
            r.pre_matches@.len() == 0,
    {
        GameState {
            fighters: Vec::new(),
            prev_rounds: Vec::new(),
            next_round: None,
            num_rounds: 0,
            season_name: String::from_str(season_name),
            pre_matches: Vec::new(),
        }
    }

    /// Adds a fighter to the season.
    pub fn add_fighter(&mut self, f: Fighter)
        ensures
            final(self).fighters@ == old(self).fighters@.push(f),
            final(self).prev_rounds == old(self).prev_rounds,
            final(self).next_round == old(self).next_round,
            final(self).num_rounds == old(self).num_rounds,
            final(self).season_name == old(self).season_name,
            final(self).pre_matches == old(self).pre_matches,
    {
        self.fighters.push(f);
    }

    /// Arranges a matchup between fighters `f1i` and `f2i` for the next
    /// round. Both must exist and be alive, and no round may be scheduled.
    pub fn arrange_match(&mut self, f1i: usize, f2i: usize) -> (r: Result<(), String>)
        ensures
            r is Ok <==> (f1i < old(self).fighters@.len() && f2i < old(self).fighters@.len() && !old(self).fighters@[f1i as int].dead && !old(self).fighters@[f2i as int].dead && old(self).next_round is None),
            r matches Err(e) ==> {
                &&& *final(self) == *old(self)
                &&& (f1i >= old(self).fighters@.len() || f2i >= old(self).fighters@.len()) ==> e@
                    == "fighter index out of range!"@
                &&& (f1i < old(self).fighters@.len() && f2i < old(self).fighters@.len() && (old(self).fighters@[f1i as int].dead || old(self).fighters@[f2i as int].dead)) ==> e@
                    == "cannot prematch dead fighters!"@
                &&& (f1i < old(self).fighters@.len() && f2i < old(self).fighters@.len() && !old(self).fighters@[f1i as int].dead
                    && !old(self).fighters@[f2i as int].dead) ==> e@ == "cannot prematch while a round is scheduled!"@
            },
            r is Ok ==> {
                &&& final(self).pre_matches@ == old(self).pre_matches@.push((f1i, f2i))
                &&& final(self).fighters@ == old(self).fighters@.update(
                    f1i as int,
                    Fighter { pre_matched: true, ..old(self).fighters@[f1i as int] },
                ).update(
                    f2i as int,
                    Fighter { pre_matched: true, ..old(self).fighters@.update(
                        f1i as int,
                        Fighter { pre_matched: true, ..old(self).fighters@[f1i as int] },
                    )[f2i as int] },
                )
                &&& final(self).prev_rounds == old(self).prev_rounds
                &&& final(self).next_round == old(self).next_round
                &&& final(self).num_rounds == old(self).num_rounds
                &&& final(self).season_name == old(self).season_name
            },
    {
        if f1i >= self.fighters.len() || f2i >= self.fighters.len() {
            return Err(String::from_str("fighter index out of range!"));
        }
        if self.fighters[f1i].dead || self.fighters[f2i].dead {
            return Err(String::from_str("cannot prematch dead fighters!"));
        }
        if self.next_round.is_some() {
            return Err(String::from_str("cannot prematch while a round is scheduled!"));
        }
        let mut f1 = copy_fighter(&self.fighters[f1i]);
        f1.pre_matched = true;
        self.fighters.set(f1i, f1);
        let mut f2 = copy_fighter(&self.fighters[f2i]);
        f2.pre_matched = true;
        self.fighters.set(f2i, f2);
        self.pre_matches.push((f1i, f2i));
        Ok(())
    }

    /// Schedules the next round in `arena` under `modifier` (each chosen at
    /// random when not given), taking in the arranged matchups; it replaces
    /// any round already scheduled.
    pub fn new_round(&mut self, arena: Option<Arena>, modifier: Option<Modifier>)
        requires
            old(self).num_rounds < i32::MAX,
        ensures
            (final(self).next_round matches Some(Round::Standard(g)) && {
                &&& g.log@.round_no == old(self).num_rounds + 1
                &&& g.log@.fights.len() == 0
                &&& arena matches Some(a) ==> g.arena == a
                &&& modifier matches Some(m) ==> g.modifier == m
                &&& g.matchups@.len() >= old(self).pre_matches@.len()
                &&& g.matchups@.subrange(
                    g.matchups@.len() - old(self).pre_matches@.len(),
                    g.matchups@.len() as int,
                ) == old(self).pre_matches@
                &&& crate::round::draws_all_eligible(
                    old(self).fighters@,
                    crate::round::drawn_part(g.matchups@, old(self).pre_matches@.len()),
                    g.sitting_out,
                )
                &&& g.modifier == Modifier::OlympicInspector ==> crate::round::rating_sorted(
                    old(self).fighters@,
                    crate::round::paired(crate::round::drawn_part(g.matchups@, old(self).pre_matches@.len())),
                )
            }),
            final(self).pre_matches@.len() == 0,
            final(self).fighters == old(self).fighters,
            final(self).prev_rounds == old(self).prev_rounds,
            final(self).num_rounds == old(self).num_rounds,
            final(self).season_name == old(self).season_name,
    {
        let round = GameRound::new(&self.fighters, &mut self.pre_matches, self.num_rounds + 1, arena, modifier);
        self.next_round = Some(Round::Standard(round));
    }

    /// Drops the scheduled round, if any.
    pub fn cancel_next_round(&mut self)
        ensures
            final(self).next_round is None,
            final(self).fighters == old(self).fighters,
            final(self).prev_rounds == old(self).prev_rounds,
            final(self).num_rounds == old(self).num_rounds,
            final(self).season_name == old(self).season_name,
            final(self).pre_matches == old(self).pre_matches,
    {
        self.next_round = None;
    }

    /// Runs the scheduled round: fights its matchups in order, moves it to
    /// the history and counts it.
    ///
    /// Fails, changing nothing, when no round is scheduled, when it is a boss
    /// round, when it cannot be run on the fighters (see `runnable`), or when
    /// the round count is at its limit.
    pub fn run_round(&mut self) -> (r: Result<(), String>)
        ensures
            r is Ok <==> ((old(self).next_round matches Some(Round::Standard(g)) && runnable(old(self).fighters@, g))
                && old(self).num_rounds < i32::MAX),
            old(self).next_round is None ==> (r matches Err(e) && e@ == "next round not yet generated!"@),
            r is Err ==> *final(self) == *old(self),
            r is Ok ==> (old(self).next_round matches Some(Round::Standard(g)) && {
                &&& final(self).next_round is None
                &&& final(self).num_rounds == old(self).num_rounds + 1
                &&& final(self).prev_rounds@.len() == old(self).prev_rounds@.len() + 1
                &&& final(self).prev_rounds@.drop_last() == old(self).prev_rounds@
                &&& (final(self).prev_rounds@.last() matches Round::Standard(done) && {
                    &&& done.matchups == g.matchups
                    &&& done.sitting_out == g.sitting_out
                    &&& done.arena == g.arena
                    &&& done.modifier == g.modifier
                    &&& done.log@.round_no == g.log@.round_no
                    &&& done.log@.fights.len() == g.log@.fights.len() + g.matchups@.len()
                    &&& forall|t: int|
                        0 <= t < g.matchups@.len() ==> {
                            &&& (#[trigger] done.log@.fights[g.log@.fights.len() + t]).fighter_1 == g.matchups@[t].0
                            &&& done.log@.fights[g.log@.fights.len() + t].fighter_2 == g.matchups@[t].1
                        }
                })
                &&& final(self).fighters@.len() == old(self).fighters@.len()
                &&& forall|j: int|
                    0 <= j < old(self).fighters@.len() && !in_matchups(g.matchups@, j) ==> final(self).fighters@[j] == old(self).fighters@[j]
                &&& forall|j: int|
                    0 <= j < old(self).fighters@.len() && in_matchups(g.matchups@, j) ==> !final(self).fighters@[j].pre_matched
                &&& forall|j: int|
                    0 <= j < old(self).fighters@.len() ==> same_fighter(old(self).fighters@[j], #[trigger] final(self).fighters@[j])
                &&& (final(self).prev_rounds@.last() matches Round::Standard(done) && exists|ds: Seq<BattleDice>|
                    {
                        &&& ds.len() == g.matchups@.len()
                        &&& forall|t: int| 0 <= t < ds.len() ==> (#[trigger] ds[t]).valid()
                        &&& (final(self).fighters@, done.log@) == round_after(
                            old(self).fighters@,
                            g.matchups@,
                            g.arena,
                            g.modifier,
                            ds,
                            g.log@,
                        )
                    })
                &&& final(self).season_name == old(self).season_name
                &&& final(self).pre_matches == old(self).pre_matches
            }),
    {
        let pending = self.next_round.take();
        let mut g = match pending {
            Some(Round::Standard(g)) => g,
            Some(Round::Boss(b)) => {
                self.next_round = Some(Round::Boss(b));
                return Err(String::from_str("boss rounds cannot be run!"));
            },
            None => {
                return Err(String::from_str("next round not yet generated!"));
            },
        };
        if !check_runnable(&self.fighters, &g) {
            self.next_round = Some(Round::Standard(g));
            return Err(String::from_str("round cannot be run: a matchup or a fighter's numbers are out of range!"));
        }
        if self.num_rounds == i32::MAX {
            self.next_round = Some(Round::Standard(g));
            return Err(String::from_str("round count is at its limit!"));
        }
        fight_all(&mut self.fighters, &mut g);
        self.prev_rounds.push(Round::Standard(g));
        self.num_rounds = self.num_rounds + 1;
        Ok(())
    }
}

} // verus!
