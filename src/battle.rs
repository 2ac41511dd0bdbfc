//! Scoring a battle, deciding its result, and applying the consequences.

use vstd::prelude::*;
use crate::batlog::{Batlog, BatlogView};
use crate::dice::draw;
use crate::fighter::{kept_injury_roll, Class, Fighter, StatDice};
use crate::round::{Arena, Modifier};

verus! {

/// How a battle ended.
#[derive(Clone, Copy, Debug, PartialEq, Eq, Structural)]
pub enum BattleResult {
    F1Win,
    F2Win,
    F1WinFromCleric,
    F2WinFromCleric,
    Draw,
    DrawFromCleric,
}

impl Default for BattleResult {
    fn default() -> (r: BattleResult)
        ensures
            r == BattleResult::Draw,
    {
        BattleResult::Draw
    }
}

/// Points needed on a strength comparison in the `ClimbingWall` for an
/// instant win.
pub const INSTANT_WIN_POINTS: i32 = 999999;

/// The points that comparing one stat contributes (positive for fighter 1,
/// negative for fighter 2).
///
/// A higher stat scores 1. A lead of 5 or more dominates and scores 1 more;
/// dominating on strength (slot 0) in the `ClimbingWall` adds
/// `INSTANT_WIN_POINTS`; a dominating `Dom` adds 1, and a dominated `Turtle`
/// takes 1 back.
pub open spec fn slot_points(c1: Class, stat_1: int, c2: Class, stat_2: int, arena: Arena, slot: int) -> int {
    let diff = stat_1 - stat_2;
    let instant = slot == 0 && arena == Arena::ClimbingWall;
    if diff == 0 {
        0
    } else if diff > 0 {
        1 + if diff >= 5 {
            1 + (if instant { INSTANT_WIN_POINTS as int } else { 0 }) + (if c1 == Class::Dom { 1int } else { 0 })
                - (if c2 == Class::Turtle { 1int } else { 0 })
        } else {
            0
        }
    } else {
        -1 - if diff <= -5 {
            1 + (if instant { INSTANT_WIN_POINTS as int } else { 0 }) + (if c2 == Class::Dom { 1int } else { 0 })
                - (if c1 == Class::Turtle { 1int } else { 0 })
        } else {
            0
        }
    }
}

/// The event that comparing one stat reports: an instant win when strength
/// is dominated in the `ClimbingWall`.
pub open spec fn slot_event(stat_1: int, stat_2: int, arena: Arena, slot: int) -> Option<Seq<char>> {
    if slot == 0 && arena == Arena::ClimbingWall && stat_1 - stat_2 >= 5 {
        Some("f1 wins instantly"@)
    } else if slot == 0 && arena == Arena::ClimbingWall && stat_1 - stat_2 <= -5 {
        Some("f2 wins instantly"@)
    } else {
        None
    }
}

/// The result for a point total: its sign decides, and a tie goes to a lone
/// `Cleric`.
pub open spec fn result_of(points: int, c1: Class, c2: Class) -> BattleResult {
    if points < 0 {
        BattleResult::F2Win
    } else if points > 0 {
        BattleResult::F1Win
    } else if c1 == Class::Cleric && c2 == Class::Cleric {
        BattleResult::DrawFromCleric
    } else if c1 == Class::Cleric {
        BattleResult::F1WinFromCleric
    } else if c2 == Class::Cleric {
        BattleResult::F2WinFromCleric
    } else {
        BattleResult::Draw
    }
}

/// The result after the gun: a shot fighter loses, and if both are shot the
/// battle is a draw.
pub open spec fn after_gunfire(result: BattleResult, f1_shot: bool, f2_shot: bool) -> BattleResult {
    if f1_shot && f2_shot {
        BattleResult::Draw
    } else if f1_shot {
        BattleResult::F2Win
    } else if f2_shot {
        BattleResult::F1Win
    } else {
        result
    }
}

/// The event reported when the gun goes off.
pub open spec fn gunfire_event(f1_name: Seq<char>, f2_name: Seq<char>, f1_shot: bool, f2_shot: bool) -> Option<Seq<char>> {
    if f1_shot && f2_shot {
        Some("both fighters got shot"@)
    } else if f1_shot {
        Some(f1_name + " got shot"@)
    } else if f2_shot {
        Some(f2_name + " got shot"@)
    } else {
        None
    }
}

/// Whether fighter 1 won, on points or on a tie.
pub open spec fn is_f1_win(r: BattleResult) -> bool {
    r == BattleResult::F1Win || r == BattleResult::F1WinFromCleric
}

/// Whether fighter 2 won, on points or on a tie.
pub open spec fn is_f2_win(r: BattleResult) -> bool {
    r == BattleResult::F2Win || r == BattleResult::F2WinFromCleric
}

/// Winner and loser after the rating exchange and rewards of a win.
///
/// The winner gains a rating point and a reward point and the loser loses a
/// rating point; an underdog winner (the loser rated more than 3 above) gains
/// one more of each and the loser loses one more; a heavy favourite (rated
/// more than 3 above the loser) exchanges no rating at all. A kill under
/// `TheCrowdDemandsBlood` earns the winner one more reward point.
pub open spec fn win_rewards(winner: Fighter, loser: Fighter, loser_injury: int, modifier: Modifier) -> (Fighter, Fighter) {
    let rdiff = loser.rating - winner.rating;
    let swing: int = if rdiff > 3 {
        2
    } else if rdiff < -3 {
        0
    } else {
        1
    };
    let bonus: int = 1 + (if rdiff > 3 { 1int } else { 0 }) + (if loser_injury < 1 && modifier
        == Modifier::TheCrowdDemandsBlood {
        1int
    } else {
        0
    });
    (
        Fighter {
            rating: (winner.rating + swing) as i32,
            unspent_points: (winner.unspent_points + bonus) as i32,
            battles_won: (winner.battles_won + 1) as i32,
            ..winner
        },
        Fighter { rating: (loser.rating - swing) as i32, ..loser },
    )
}

impl Fighter {
    /// Every counter that a battle changes has room in `i32` for it, and the
    /// stats can be rolled in `arena` and injured.
    pub open spec fn ready_for_battle(self, arena: Arena) -> bool {
        &&& self.rolls_fit(arena)
        &&& self.can_take_injury()
        &&& i32::MIN + 2 <= self.rating <= i32::MAX - 2
        &&& self.unspent_points <= i32::MAX - 3
        &&& self.battles_won < i32::MAX
        &&& self.battles_fought < i32::MAX
    }
}

/// Every die a battle may need.
#[derive(Clone, Copy, Debug)]
pub struct BattleDice {
    pub stats_1: StatDice,
    pub stats_2: StatDice,
    /// Fighter 1 is shot under the gun when this ten-sided draw is 0.
    pub gun_1: i32,
    pub gun_2: i32,
    /// The two injury draws of fighter 1.
    pub injury_1: (i32, i32),
    pub injury_2: (i32, i32),
}

impl BattleDice {
    /// Every die shows a face it has.
    pub open spec fn valid(self) -> bool {
        &&& self.stats_1.valid()
        &&& self.stats_2.valid()
        &&& 0 <= self.gun_1 < 10
        &&& 0 <= self.gun_2 < 10
        &&& 0 <= self.injury_1.0 < 8
        &&& 0 <= self.injury_1.1 < 8
        &&& 0 <= self.injury_2.0 < 8
        &&& 0 <= self.injury_2.1 < 8
    }
}

/// The point total of a battle with rolls `r1` and `r2`.
pub open spec fn total_points(c1: Class, r1: Seq<i32>, c2: Class, r2: Seq<i32>, arena: Arena) -> int {
    slot_points(c1, r1[0] as int, c2, r2[0] as int, arena, 0) + slot_points(c1, r1[1] as int, c2, r2[1] as int, arena, 1)
        + slot_points(c1, r1[2] as int, c2, r2[2] as int, arena, 2)
}

/// The log with `e` appended to the latest battle's events, if there is one.
pub open spec fn record_opt_event(log: BatlogView, e: Option<Seq<char>>) -> BatlogView {
    match e {
        Some(x) => log.record_event(x),
        None => log,
    }
}

/// Fighter 1's and fighter 2's rolls in a battle with dice `d`.
pub open spec fn battle_rolls(f1: Fighter, f2: Fighter, arena: Arena, d: BattleDice) -> (Seq<i32>, Seq<i32>) {
    (f1.rolled_stats(arena, d.stats_1), f2.rolled_stats(arena, d.stats_2))
}

/// The point total of a battle with dice `d`.
pub open spec fn battle_points(f1: Fighter, f2: Fighter, arena: Arena, d: BattleDice) -> int {
    let (r1, r2) = battle_rolls(f1, f2, arena, d);
    total_points(f1.class, r1, f2.class, r2, arena)
}

/// The result of a battle with dice `d`.
pub open spec fn battle_result(f1: Fighter, f2: Fighter, arena: Arena, modifier: Modifier, d: BattleDice) -> BattleResult {
    let base = result_of(battle_points(f1, f2, arena, d), f1.class, f2.class);
    if modifier == Modifier::OhShitSheHasAGun {
        after_gunfire(base, d.gun_1 == 0, d.gun_2 == 0)
    } else {
        base
    }
}

/// Whether each fighter is injured after a battle that ended in `result`:
/// the loser of a win, and both fighters of a draw in the `CrocPit`.
pub open spec fn injured_sides(result: BattleResult, arena: Arena) -> (bool, bool) {
    if is_f1_win(result) {
        (false, true)
    } else if is_f2_win(result) {
        (true, false)
    } else {
        (arena == Arena::CrocPit, arena == Arena::CrocPit)
    }
}

/// The log after recording the stat comparisons of a battle with rolls `r1`
/// and `r2`: their events, the point total, then fighter 1's and fighter 2's
/// rolls.
pub open spec fn scores_logged(log: BatlogView, c1: Class, r1: Seq<i32>, c2: Class, r2: Seq<i32>, arena: Arena) -> BatlogView {
    let l0 = record_opt_event(
        record_opt_event(
            record_opt_event(log, slot_event(r1[0] as int, r2[0] as int, arena, 0)),
            slot_event(r1[1] as int, r2[1] as int, arena, 1),
        ),
        slot_event(r1[2] as int, r2[2] as int, arena, 2),
    );
    l0.record_points(total_points(c1, r1, c2, r2, arena) as i32).record_rolls(r1).record_rolls(r2)
}

/// Both fighters after the injuries and rewards of a battle that ended in
/// `result`, with injury draws from `d`.
pub open spec fn settled(f1: Fighter, f2: Fighter, arena: Arena, modifier: Modifier, result: BattleResult, d: BattleDice) -> (Fighter, Fighter) {
    let i1 = kept_injury_roll(f1.class, arena, d.injury_1.0, d.injury_1.1) as int;
    let i2 = kept_injury_roll(f2.class, arena, d.injury_2.0, d.injury_2.1) as int;
    let (hurt_1, hurt_2) = injured_sides(result, arena);
    let b1 = if hurt_1 { f1.injured(i1) } else { f1 };
    let b2 = if hurt_2 { f2.injured(i2) } else { f2 };
    if is_f1_win(result) {
        win_rewards(b1, b2, i2, modifier)
    } else if is_f2_win(result) {
        let (w, l) = win_rewards(b2, b1, i1, modifier);
        (l, w)
    } else {
        (b1, b2)
    }
}

/// The log after recording both fighters' injuries, fighter 1's first, for a
/// battle that ended in `result`.
pub open spec fn injuries_logged(log: BatlogView, f1: Fighter, f2: Fighter, arena: Arena, result: BattleResult, d: BattleDice) -> BatlogView {
    let (hurt_1, hurt_2) = injured_sides(result, arena);
    let i1 = kept_injury_roll(f1.class, arena, d.injury_1.0, d.injury_1.1);
    let i2 = kept_injury_roll(f2.class, arena, d.injury_2.0, d.injury_2.1);
    log.record_injury(if hurt_1 { Some(i1) } else { None }).record_injury(if hurt_2 { Some(i2) } else { None })
}

/// The two fighters after a battle with dice `d`: each has fought one more
/// battle, and then the battle is settled.
pub open spec fn fighters_after(f1: Fighter, f2: Fighter, arena: Arena, modifier: Modifier, d: BattleDice) -> (Fighter, Fighter) {
    let a1 = Fighter { battles_fought: (f1.battles_fought + 1) as i32, ..f1 };
    let a2 = Fighter { battles_fought: (f2.battles_fought + 1) as i32, ..f2 };
    settled(a1, a2, arena, modifier, battle_result(f1, f2, arena, modifier, d), d)
}

/// The log after a battle with dice `d`: the stat comparisons, the gun's
/// event, both fighters' injuries and the result, in that order, all in the
/// latest battle.
pub open spec fn log_after(f1: Fighter, f2: Fighter, arena: Arena, modifier: Modifier, d: BattleDice, log: BatlogView) -> BatlogView {
    let (r1, r2) = battle_rolls(f1, f2, arena, d);
    let result = battle_result(f1, f2, arena, modifier, d);
    let gun_event = if modifier == Modifier::OhShitSheHasAGun {
        gunfire_event(f1.name@, f2.name@, d.gun_1 == 0, d.gun_2 == 0)
    } else {
        None
    };
    let scored = scores_logged(log, f1.class, r1, f2.class, r2, arena);
    injuries_logged(record_opt_event(scored, gun_event), f1, f2, arena, result, d).record_result(result)
}

/// Equal stats score no points and report no event, whatever the classes,
/// the arena and the stat compared.
pub proof fn lemma_equal_stats_score_nothing(c1: Class, c2: Class, stat: int, arena: Arena, slot: int)
    ensures
        slot_points(c1, stat, c2, stat, arena, slot) == 0,
        slot_event(stat, stat, arena, slot) is None,
{
}

/// Between two `Naked` fighters, swapping the sides negates the points of a
/// stat comparison.
pub proof fn lemma_naked_points_skew_symmetric(stat_1: int, stat_2: int, arena: Arena, slot: int)
    ensures
        slot_points(Class::Naked, stat_1, Class::Naked, stat_2, arena, slot) == -slot_points(
            Class::Naked,
            stat_2,
            Class::Naked,
            stat_1,
            arena,
            slot,
        ),
{
}

/// In the `ClimbingWall`, dominating on strength by 5 or more scores more
/// than 999990 points for the dominating side, in that comparison and in the
/// battle's total, and reports that side's instant win.
pub proof fn lemma_climbing_wall_strength_domination(c1: Class, r1: Seq<i32>, c2: Class, r2: Seq<i32>)
    requires
        r1.len() == 3,
        r2.len() == 3,
        r1[0] - r2[0] >= 5 || r1[0] - r2[0] <= -5,
    ensures
        r1[0] - r2[0] >= 5 ==> {
            &&& slot_points(c1, r1[0] as int, c2, r2[0] as int, Arena::ClimbingWall, 0) > 999990
            &&& total_points(c1, r1, c2, r2, Arena::ClimbingWall) > 999990
            &&& slot_event(r1[0] as int, r2[0] as int, Arena::ClimbingWall, 0) == Some("f1 wins instantly"@)
        },
        r1[0] - r2[0] <= -5 ==> {
            &&& slot_points(c1, r1[0] as int, c2, r2[0] as int, Arena::ClimbingWall, 0) < -999990
            &&& total_points(c1, r1, c2, r2, Arena::ClimbingWall) < -999990
            &&& slot_event(r1[0] as int, r2[0] as int, Arena::ClimbingWall, 0) == Some("f2 wins instantly"@)
        },
{
}

/// The points and event of comparing stat `stat` (0 strength, 1 speed,
/// 2 skill) of fighter 1 against fighter 2.
#[allow(unused_variables)]
pub fn points_from_stats(c1: &Class, stat_1: i32, c2: &Class, stat_2: i32, arena: &Arena, modifier: &Modifier, stat: usize) -> (r: (i32, Option<String>))
    ensures
        r.0 == slot_points(*c1, stat_1 as int, *c2, stat_2 as int, *arena, stat as int),
        r.1 matches Some(e) ==> slot_event(stat_1 as int, stat_2 as int, *arena, stat as int) == Some(e@),
        r.1 is None ==> slot_event(stat_1 as int, stat_2 as int, *arena, stat as int) is None,
{
    let diff: i64 = stat_1 as i64 - stat_2 as i64;
    if diff == 0 {
        return (0, None);
    }
    let instant = stat == 0 && *arena == Arena::ClimbingWall;
    let mut pts: i32 = 0;
    let mut event: Option<String> = None;
    if diff > 0 {
        pts = pts + 1;
    } else {
        pts = pts - 1;
    }
    if diff >= 5 {
        pts = pts + 1;
        if instant {
            pts = pts + INSTANT_WIN_POINTS;
            event = Some(String::from_str("f1 wins instantly"));
        }
        if *c1 == Class::Dom {
            pts = pts + 1;
        }
        if *c2 == Class::Turtle {
            pts = pts - 1;
        }
    }
    if diff <= -5 {
        pts = pts - 1;
        if instant {
            pts = pts - INSTANT_WIN_POINTS;
            event = Some(String::from_str("f2 wins instantly"));
        }
        if *c2 == Class::Dom {
            pts = pts - 1;
        }
        if *c1 == Class::Turtle {
            pts = pts + 1;
        }
    }
    (pts, event)
}

/// The result for a point total `points`: fighter 2 wins below 0, fighter 1
/// above; at 0 a lone `Cleric` wins, two `Cleric`s draw, and otherwise it is a
/// draw.
pub fn get_result(points: i32, c1: &Class, c2: &Class) -> (r: BattleResult)
    ensures
        r == result_of(points as int, *c1, *c2),
{
    if points < 0 {
        BattleResult::F2Win
    } else if points > 0 {
        BattleResult::F1Win
    } else if *c1 == Class::Cleric {
        if *c2 == Class::Cleric {
            BattleResult::DrawFromCleric
        } else {
            BattleResult::F1WinFromCleric
        }
    } else if *c2 == Class::Cleric {
        BattleResult::F2WinFromCleric
    } else {
        BattleResult::Draw
    }
}

/// The result and event once the gun has gone off (or not) at each fighter.
pub fn gunfire(result: BattleResult, f1: &Fighter, f2: &Fighter, f1_shot: bool, f2_shot: bool) -> (r: (BattleResult, Option<String>))
    ensures
        r.0 == after_gunfire(result, f1_shot, f2_shot),
        r.1 matches Some(e) ==> gunfire_event(f1.name@, f2.name@, f1_shot, f2_shot) == Some(e@),
        r.1 is None ==> gunfire_event(f1.name@, f2.name@, f1_shot, f2_shot) is None,
{
    if f1_shot && f2_shot {
        (BattleResult::Draw, Some(String::from_str("both fighters got shot")))
    } else if f1_shot {
        let mut e = f1.name.clone();
        e.append(" got shot");
        (BattleResult::F2Win, Some(e))
    } else if f2_shot {
        let mut e = f2.name.clone();
        e.append(" got shot");
        (BattleResult::F1Win, Some(e))
    } else {
        (result, None)
    }
}

/// Applies the rating exchange and rewards of a win to `winner` and `loser`,
/// whose injury roll was `loser_injury`.
pub fn reward_win(winner: &mut Fighter, loser: &mut Fighter, loser_injury: i32, modifier: &Modifier)
    requires
        i32::MIN + 2 <= old(winner).rating <= i32::MAX - 2,
        i32::MIN + 2 <= old(loser).rating <= i32::MAX - 2,
        old(winner).unspent_points <= i32::MAX - 3,
        old(winner).battles_won < i32::MAX,
    ensures
        (*final(winner), *final(loser)) == win_rewards(*old(winner), *old(loser), loser_injury as int, *modifier),
{
    let rdiff: i64 = loser.rating as i64 - winner.rating as i64;
    let swing: i32 = if rdiff > 3 {
        2
    } else if rdiff < -3 {
        0
    } else {
        1
    };
    let mut bonus: i32 = 1;
    if rdiff > 3 {
        bonus = bonus + 1;
    }
    if loser_injury < 1 && *modifier == Modifier::TheCrowdDemandsBlood {
        bonus = bonus + 1;
    }
    winner.rating = winner.rating + swing;
    winner.unspent_points = winner.unspent_points + bonus;
    winner.battles_won = winner.battles_won + 1;
    loser.rating = loser.rating - swing;
}

/// Adds `event`, if there is one, to the latest battle of `log`.
fn log_event(log: &mut Batlog, event: Option<String>)
    requires
        old(log).fights.len() > 0,
    ensures
        final(log).fights.len() == old(log).fights.len(),
        final(log)@ == record_opt_event(old(log)@, match event {
            Some(e) => Some(e@),
            None => None,
        }),
{
    if let Some(e) = event {
        log.add_events(e);
    }
}

/// Compares the rolls `r1` and `r2` stat by stat, recording the events, the
/// point total and both rolls in the latest battle of `log`; returns the total.
fn record_scores(c1: &Class, r1: Vec<i32>, c2: &Class, r2: Vec<i32>, arena: &Arena, modifier: &Modifier, log: &mut Batlog) -> (points: i32)
    requires
        r1@.len() == 3,
        r2@.len() == 3,
        old(log).fights.len() > 0,
    ensures
        points == total_points(*c1, r1@, *c2, r2@, *arena),
        final(log).fights.len() == old(log).fights.len(),
        final(log)@ == scores_logged(old(log)@, *c1, r1@, *c2, r2@, *arena),
{
    let (pts_0, event_0) = points_from_stats(c1, r1[0], c2, r2[0], arena, modifier, 0);
    log_event(log, event_0);
    let (pts_1, event_1) = points_from_stats(c1, r1[1], c2, r2[1], arena, modifier, 1);
    log_event(log, event_1);
    let (pts_2, event_2) = points_from_stats(c1, r1[2], c2, r2[2], arena, modifier, 2);
    log_event(log, event_2);
    let points = pts_0 + pts_1 + pts_2;
    log.set_points(points);
    log.set_rolls(r1);
    log.set_rolls(r2);
    points
}

/// Injures and rewards the fighters of a battle that ended in `result`,
/// recording the injuries in the latest battle of `log`.
fn settle(f1: &mut Fighter, f2: &mut Fighter, arena: &Arena, modifier: &Modifier, log: &mut Batlog, result: BattleResult, dice: &BattleDice)
    requires
        dice.valid(),
        old(f1).can_take_injury(),
        old(f2).can_take_injury(),
        i32::MIN + 2 <= old(f1).rating <= i32::MAX - 2,
        i32::MIN + 2 <= old(f2).rating <= i32::MAX - 2,
        old(f1).unspent_points <= i32::MAX - 3,
        old(f2).unspent_points <= i32::MAX - 3,
        old(f1).battles_won < i32::MAX,
        old(f2).battles_won < i32::MAX,
        old(log).fights.len() > 0,
    ensures
        (*final(f1), *final(f2)) == settled(*old(f1), *old(f2), *arena, *modifier, result, *dice),
        final(log).fights.len() == old(log).fights.len(),
        final(log)@ == injuries_logged(old(log)@, *old(f1), *old(f2), *arena, result, *dice),
{
    match result {
        BattleResult::F1Win | BattleResult::F1WinFromCleric => {
            f1.injure_with(arena, log, false, dice.injury_1.0, dice.injury_1.1);
            let inj = f2.injure_with(arena, log, true, dice.injury_2.0, dice.injury_2.1);
            reward_win(f1, f2, inj.unwrap(), modifier);
        },
        BattleResult::F2Win | BattleResult::F2WinFromCleric => {
            let inj = f1.injure_with(arena, log, true, dice.injury_1.0, dice.injury_1.1);
            f2.injure_with(arena, log, false, dice.injury_2.0, dice.injury_2.1);
            reward_win(f2, f1, inj.unwrap(), modifier);
        },
        BattleResult::Draw | BattleResult::DrawFromCleric => {
            let hurt = *arena == Arena::CrocPit;
            f1.injure_with(arena, log, hurt, dice.injury_1.0, dice.injury_1.1);
            f2.injure_with(arena, log, hurt, dice.injury_2.0, dice.injury_2.1);
        },
    }
}

/// Fights a battle between `f1` and `f2` with the dice `dice`, recording it in
/// the latest battle of `log`.
///
/// Both fighters' stats are rolled and compared stat by stat; the point total
/// decides the result, which the gun may override. The loser of a win is
/// injured and the winner rewarded; a draw injures both fighters in the
/// `CrocPit` and neither elsewhere.
#[verifier::rlimit(60)]
pub fn battle_with_dice(f1: &mut Fighter, f2: &mut Fighter, arena: &Arena, modifier: &Modifier, log: &mut Batlog, dice: &BattleDice)
    requires
        dice.valid(),
        old(f1).ready_for_battle(*arena),
        old(f2).ready_for_battle(*arena),
        old(log).fights.len() > 0,
    ensures
        (*final(f1), *final(f2)) == fighters_after(*old(f1), *old(f2), *arena, *modifier, *dice),
        final(log)@ == log_after(*old(f1), *old(f2), *arena, *modifier, *dice, old(log)@),
{
    let f1_stats = f1.stats_from_dice(arena, &dice.stats_1);
    let f2_stats = f2.stats_from_dice(arena, &dice.stats_2);
    f1.battles_fought = f1.battles_fought + 1;
    f2.battles_fought = f2.battles_fought + 1;

    let points = record_scores(&f1.class, f1_stats, &f2.class, f2_stats, arena, modifier, log);
    let mut result = get_result(points, &f1.class, &f2.class);
    if *modifier == Modifier::OhShitSheHasAGun {
        let (r, event) = gunfire(result, f1, f2, dice.gun_1 == 0, dice.gun_2 == 0);
        result = r;
        log_event(log, event);
    }
    settle(f1, f2, arena, modifier, log, result, dice);
    log.set_result(result);
}

/// Draws a fighter's two injury draws: the second only counts for a `Tank`
/// outside the `Siphon`, and is drawn only then.
fn draw_injury(f: &Fighter, arena: &Arena) -> (r: (i32, i32))
    ensures
        0 <= r.0 < 8,
        0 <= r.1 < 8,
{
    let first = draw(0, 8);
    let second = match (arena, f.class) {
        (Arena::Siphon, _) => first,
        (_, Class::Tank) => draw(0, 8),
        _ => first,
    };
    (first, second)
}

/// Draws every die a battle between `f1` and `f2` may need.
fn draw_battle_dice(f1: &Fighter, f2: &Fighter, arena: &Arena, modifier: &Modifier) -> (d: BattleDice)
    ensures
        d.valid(),
{
    let stats_1 = f1.roll_stat_dice(arena);
    let stats_2 = f2.roll_stat_dice(arena);
    let (gun_1, gun_2) = if *modifier == Modifier::OhShitSheHasAGun {
        (draw(0, 10), draw(0, 10))
    } else {
        (1, 1)
    };
    let injury_1 = draw_injury(f1, arena);
    let injury_2 = draw_injury(f2, arena);
    BattleDice { stats_1, stats_2, gun_1, gun_2, injury_1, injury_2 }
}

/// Fights a battle between `f1` and `f2`, recording it in the latest battle
/// of `log`: the outcome of `battle_with_dice` for some valid dice.
pub fn battle(f1: &mut Fighter, f2: &mut Fighter, arena: &Arena, modifier: &Modifier, log: &mut Batlog)
    requires
        old(f1).ready_for_battle(*arena),
        old(f2).ready_for_battle(*arena),
        old(log).fights.len() > 0,
    ensures
        exists|d: BattleDice|
            {
                &&& d.valid()
                &&& (*final(f1), *final(f2)) == fighters_after(*old(f1), *old(f2), *arena, *modifier, d)
                &&& final(log)@ == log_after(*old(f1), *old(f2), *arena, *modifier, d, old(log)@)
            },
{
    let dice = draw_battle_dice(f1, f2, arena, modifier);
    battle_with_dice(f1, f2, arena, modifier, log, &dice);
}

} // verus!
