//! The record of a round: one `Battle` per matchup, filled in as the battle
//! is fought.
//!
//! Rolls and injuries are recorded in pairs: the first call of a pair writes
//! fighter 1's side of the latest battle, the second writes fighter 2's side.
//! `count` remembers which side comes next.

use vstd::prelude::*;
use crate::battle::BattleResult;

verus! {

/// The log of one round.
#[derive(Clone, Debug)]
pub struct Batlog {
    pub fights: Vec<Battle>,
    /// 0 when the next paired call writes fighter 1's side, else fighter 2's.
    pub count: i32,
    pub round_no: i32,
}

/// What happened in one battle.
#[derive(Clone, Debug)]
pub struct Battle {
    /// Index of fighter 1 in the season's fighter list.
    pub fighter_1: usize,
    pub rolls_1: Vec<i32>,
    /// The injury roll of fighter 1, or `None` if fighter 1 was not injured.
    pub injury_1: Option<i32>,
    /// Index of fighter 2 in the season's fighter list.
    pub fighter_2: usize,
    pub rolls_2: Vec<i32>,
    pub injury_2: Option<i32>,
    pub points: i32,
    pub result: BattleResult,
    pub other_events: Vec<String>,
}

/// A battle record as plain values.
pub struct BattleView {
    pub fighter_1: usize,
    pub rolls_1: Seq<i32>,
    pub injury_1: Option<i32>,
    pub fighter_2: usize,
    pub rolls_2: Seq<i32>,
    pub injury_2: Option<i32>,
    pub points: i32,
    pub result: BattleResult,
    pub other_events: Seq<Seq<char>>,
}

/// A round log as plain values.
pub struct BatlogView {
    pub fights: Seq<BattleView>,
    pub count: i32,
    pub round_no: i32,
}

impl View for Battle {
    type V = BattleView;

    open spec fn view(&self) -> BattleView {
        BattleView {
            fighter_1: self.fighter_1,
            rolls_1: self.rolls_1@,
            injury_1: self.injury_1,
            fighter_2: self.fighter_2,
            rolls_2: self.rolls_2@,
            injury_2: self.injury_2,
            points: self.points,
            result: self.result,
            other_events: self.other_events@.map_values(|e: String| e@),
        }
    }
}

impl View for Batlog {
    type V = BatlogView;

    open spec fn view(&self) -> BatlogView {
        BatlogView {
            fights: self.fights@.map_values(|b: Battle| b@),
            count: self.count,
            round_no: self.round_no,
        }
    }
}

/// A fresh battle record between two fighters: no rolls, no injuries, no
/// points, a draw, no events.
pub open spec fn fresh_battle(f1: usize, f2: usize) -> BattleView {
    BattleView {
        fighter_1: f1,
        rolls_1: Seq::empty(),
        injury_1: None,
        fighter_2: f2,
        rolls_2: Seq::empty(),
        injury_2: None,
        points: 0,
        result: BattleResult::Draw,
        other_events: Seq::empty(),
    }
}

impl BatlogView {
    /// The record of the battle being fought.
    pub open spec fn latest(self) -> BattleView {
        self.fights.last()
    }

    /// The log with its latest battle replaced by `b`.
    pub open spec fn with_latest(self, b: BattleView) -> BatlogView {
        BatlogView { fights: self.fights.update(self.fights.len() - 1, b), ..self }
    }

    /// The value of `count` after a paired call: the other side.
    pub open spec fn next_count(self) -> i32 {
        if self.count == 0 {
            1
        } else {
            0
        }
    }

    /// The log after one side's rolls are recorded in the latest battle.
    pub open spec fn record_rolls(self, rolls: Seq<i32>) -> BatlogView {
        let b = self.latest();
        let nb = if self.count == 0 {
            BattleView { rolls_1: rolls, ..b }
        } else {
            BattleView { rolls_2: rolls, ..b }
        };
        BatlogView { count: self.next_count(), ..self.with_latest(nb) }
    }

    /// The log after one side's injury is recorded in the latest battle.
    pub open spec fn record_injury(self, injury: Option<i32>) -> BatlogView {
        let b = self.latest();
        let nb = if self.count == 0 {
            BattleView { injury_1: injury, ..b }
        } else {
            BattleView { injury_2: injury, ..b }
        };
        BatlogView { count: self.next_count(), ..self.with_latest(nb) }
    }

    /// The log after the latest battle's point total is recorded.
    pub open spec fn record_points(self, points: i32) -> BatlogView {
        self.with_latest(BattleView { points, ..self.latest() })
    }

    /// The log after the latest battle's result is recorded.
    pub open spec fn record_result(self, r: BattleResult) -> BatlogView {
        self.with_latest(BattleView { result: r, ..self.latest() })
    }

    /// The log after an event is appended to the latest battle.
    pub open spec fn record_event(self, e: Seq<char>) -> BatlogView {
        let b = self.latest();
        self.with_latest(BattleView { other_events: b.other_events.push(e), ..b })
    }
}

impl Battle {
    /// A fresh record of a battle between fighters `fighter_1` and `fighter_2`.
    pub fn new(fighter_1: usize, fighter_2: usize) -> (r: Battle)
        ensures
            r@ == fresh_battle(fighter_1, fighter_2),
    {
        let r = Battle {
            fighter_1,
            rolls_1: Vec::new(),
            injury_1: None,
            fighter_2,
            rolls_2: Vec::new(),
            injury_2: None,
            points: 0,
            result: BattleResult::Draw,
            other_events: Vec::new(),
        };
        assert(r@.other_events =~= Seq::<Seq<char>>::empty());
        r
    }
}

impl Batlog {
    /// An empty log for round `round_no`.
    pub fn new(round_no: i32) -> (r: Batlog)
        ensures
            r@.fights.len() == 0,
            r@.count == 0,
            r@.round_no == round_no,
    {
        Batlog { fights: Vec::new(), count: 0, round_no }
    }

    /// Starts the record of the next battle, between `f1` and `f2`.
    pub fn advance_to_next_battle(&mut self, f1: usize, f2: usize)
        ensures
            final(self).fights.len() == old(self).fights.len() + 1,
            final(self)@ == (BatlogView {
                fights: old(self)@.fights.push(fresh_battle(f1, f2)),
                ..old(self)@
            }),
    {
        let b = Battle::new(f1, f2);
        self.fights.push(b);
        assert(self@.fights =~= old(self)@.fights.push(fresh_battle(f1, f2)));
    }

    /// Takes the latest battle out of the log, to be changed and put back.
    fn take_latest(&mut self) -> (b: Battle)
        requires
            old(self).fights.len() > 0,
        ensures
            b@ == old(self)@.latest(),
            final(self)@.fights == old(self)@.fights.drop_last(),
            final(self).fights.len() == old(self).fights.len() - 1,
            final(self).count == old(self).count,
            final(self).round_no == old(self).round_no,
    {
        let b = self.fights.pop().unwrap();
        assert(self@.fights =~= old(self)@.fights.drop_last());
        b
    }

    /// Puts `b` back as the latest battle.
    fn put_latest(&mut self, b: Battle, ghost_before: Ghost<BatlogView>)
        requires
            ghost_before@.fights.len() > 0,
            old(self)@.fights == ghost_before@.fights.drop_last(),
        ensures
            final(self)@.fights == ghost_before@.with_latest(b@).fights,
            final(self).fights.len() == old(self).fights.len() + 1,
            final(self).count == old(self).count,
            final(self).round_no == old(self).round_no,
    {
        self.fights.push(b);
        assert(self@.fights =~= old(self)@.fights.push(b@));
        assert(self@.fights =~= ghost_before@.with_latest(b@).fights);
    }

    /// Records one side's rolls in the latest battle: fighter 1's if `count`
    /// is 0, else fighter 2's; then moves on to the other side.
    pub fn set_rolls(&mut self, rolls: Vec<i32>)
        requires
            old(self).fights.len() > 0,
        ensures
            final(self).fights.len() == old(self).fights.len(),
            final(self)@ == old(self)@.record_rolls(rolls@),
    {
        let ghost before = self@;
        let mut b = self.take_latest();
        if self.count == 0 {
            b.rolls_1 = rolls;
            self.count = 1;
        } else {
            b.rolls_2 = rolls;
            self.count = 0;
        }
        self.put_latest(b, Ghost(before));
    }

    /// Records one side's injury in the latest battle, alternating sides as
    /// `set_rolls` does.
    pub fn set_injury(&mut self, injury: Option<i32>)
        requires
            old(self).fights.len() > 0,
        ensures
            final(self).fights.len() == old(self).fights.len(),
            final(self)@ == old(self)@.record_injury(injury),
    {
        let ghost before = self@;
        let mut b = self.take_latest();
        if self.count == 0 {
            b.injury_1 = injury;
            self.count = 1;
        } else {
            b.injury_2 = injury;
            self.count = 0;
        }
        self.put_latest(b, Ghost(before));
    }

    /// Records the point total of the latest battle.
    pub fn set_points(&mut self, points: i32)
        requires
            old(self).fights.len() > 0,
        ensures
            final(self).fights.len() == old(self).fights.len(),
            final(self)@ == old(self)@.record_points(points),
    {
        let ghost before = self@;
        let mut b = self.take_latest();
        b.points = points;
        self.put_latest(b, Ghost(before));
    }

    /// Records the result of the latest battle.
    pub fn set_result(&mut self, r: BattleResult)
        requires
            old(self).fights.len() > 0,
        ensures
            final(self).fights.len() == old(self).fights.len(),
            final(self)@ == old(self)@.record_result(r),
    {
        let ghost before = self@;
        let mut b = self.take_latest();
        b.result = r;
        self.put_latest(b, Ghost(before));
    }

    /// Appends an event to the latest battle.
    pub fn add_events(&mut self, event: String)
        requires
            old(self).fights.len() > 0,
        ensures
            final(self).fights.len() == old(self).fights.len(),
            final(self)@ == old(self)@.record_event(event@),
    {
        let ghost before = self@;
        let mut b = self.take_latest();
        b.other_events.push(event);
        assert(b@.other_events =~= before.latest().other_events.push(event@));
        self.put_latest(b, Ghost(before));
    }
}

} // verus!
