//! Fighters, their classes, how their stats are rolled for a battle, and what
//! an injury does to them.

use vstd::prelude::*;
use crate::batlog::Batlog;
use crate::dice::draw;
use crate::round::{Arena, Modifier};
use crate::utils::{
    failed_to_parse, larger, lower_of, lowercase, parse_failure, parse_i32, same_text, select_largest,
    written_i32,
};

verus! {

/// A fighter's combat archetype.
#[derive(Clone, Copy, Debug, PartialEq, Eq, Structural)]
pub enum Class {
    /// Two five-sided bonus dice on strength instead of the usual rolls.
    Swarm,
    /// An extra point when dominating a stat (shown as "skeleton").
    Dom,
    /// Denies the opponent's domination bonus.
    Turtle,
    /// Best of two injury rolls (shown as "chicken").
    Tank,
    /// Best of two rolls on one random stat.
    Mutant,
    /// Wins a drawn battle.
    Cleric,
    /// No special rule (shown as "senator").
    Naked,
}

impl Default for Class {
    fn default() -> (r: Class)
        ensures
            r == Class::Mutant,
    {
        Class::Mutant
    }
}

/// The class that a lowercase name stands for; some classes have two names.
pub open spec fn class_named(t: Seq<char>) -> Option<Class> {
    if t == "swarm"@ {
        Some(Class::Swarm)
    } else if t == "dom"@ || t == "skeleton"@ {
        Some(Class::Dom)
    } else if t == "turtle"@ {
        Some(Class::Turtle)
    } else if t == "tank"@ || t == "chicken"@ {
        Some(Class::Tank)
    } else if t == "mutant"@ {
        Some(Class::Mutant)
    } else if t == "cleric"@ {
        Some(Class::Cleric)
    } else if t == "naked"@ || t == "senator"@ {
        Some(Class::Naked)
    } else {
        None
    }
}

/// The name a class is shown by.
pub open spec fn class_shown(c: Class) -> Seq<char> {
    match c {
        Class::Cleric => "cleric"@,
        Class::Dom => "skeleton"@,
        Class::Turtle => "turtle"@,
        Class::Tank => "chicken"@,
        Class::Mutant => "mutant"@,
        Class::Swarm => "swarm"@,
        Class::Naked => "senator"@,
    }
}

/// What parsing the name `s` of a class gives: the class its lowercase form
/// stands for, or a message naming `s`.
pub open spec fn class_parsed(s: Seq<char>, r: Result<Class, String>) -> bool {
    match class_named(lower_of(s)) {
        Some(c) => r == Ok::<Class, String>(c),
        None => (r matches Err(e) && e@ == parse_failure("class"@, s)),
    }
}

impl Class {
    /// The class that the lowercase name `t` stands for.
    pub fn from_name(t: &str) -> (r: Option<Class>)
        ensures
            r == class_named(t@),
    {
        if same_text(t, "swarm") {
            Some(Class::Swarm)
        } else if same_text(t, "dom") || same_text(t, "skeleton") {
            Some(Class::Dom)
        } else if same_text(t, "turtle") {
            Some(Class::Turtle)
        } else if same_text(t, "tank") || same_text(t, "chicken") {
            Some(Class::Tank)
        } else if same_text(t, "mutant") {
            Some(Class::Mutant)
        } else if same_text(t, "cleric") {
            Some(Class::Cleric)
        } else if same_text(t, "naked") || same_text(t, "senator") {
            Some(Class::Naked)
        } else {
            None
        }
    }

    /// The class named by `s`, in any case.
    pub fn parse_name(s: &str) -> (r: Result<Class, String>)
        ensures
            class_parsed(s@, r),
    {
        let l = lowercase(s);
        match Class::from_name(l.as_str()) {
            Some(c) => Ok(c),
            None => Err(failed_to_parse("class", s)),
        }
    }

    /// The name this class is shown by.
    pub fn name(&self) -> (r: String)
        ensures
            r@ == class_shown(*self),
    {
        String::from_str(
            match self {
                Class::Cleric => "cleric",
                Class::Dom => "skeleton",
                Class::Turtle => "turtle",
                Class::Tank => "chicken",
                Class::Mutant => "mutant",
                Class::Swarm => "swarm",
                Class::Naked => "senator",
            },
        )
    }
}

impl std::str::FromStr for Class {
    type Err = String;

    fn from_str(s: &str) -> Result<Class, String> {
        Class::parse_name(s)
    }
}

/// A fighter of the season.
#[derive(Clone, Debug)]
pub struct Fighter {
    pub name: String,
    pub owner: String,
    pub class: Class,
    pub strength: i32,
    pub speed: i32,
    pub skill: i32,
    pub dead: bool,
    pub rating: i32,
    /// Kept in the record; no rule of the game changes it.
    pub kills: i32,
    pub battles_won: i32,
    pub battles_fought: i32,
    /// Reward points not yet spent on stats.
    pub unspent_points: i32,
    /// Whether the fighter is in a pre-arranged matchup for the next round.
    pub pre_matched: bool,
}

/// The dice behind one fighter's stat roll.
#[derive(Clone, Copy, Debug)]
pub struct StatDice {
    /// The two five-sided dice of a `Swarm` fighter.
    pub swarm: (i32, i32),
    /// The stat (0 strength, 1 speed, 2 skill) that a `Mutant` rolls twice for.
    pub mutant_slot: usize,
    /// The two ten-sided dice of a `Mutant`'s chosen stat.
    pub mutant: (i32, i32),
    /// The ten-sided die added to strength, speed and skill.
    pub plain: (i32, i32, i32),
}

impl StatDice {
    /// Every die shows a face it has, and the mutant slot is a stat.
    pub open spec fn valid(self) -> bool {
        &&& 1 <= self.swarm.0 <= 5
        &&& 1 <= self.swarm.1 <= 5
        &&& self.mutant_slot < 3
        &&& 1 <= self.mutant.0 <= 10
        &&& 1 <= self.mutant.1 <= 10
        &&& 1 <= self.plain.0 <= 10
        &&& 1 <= self.plain.1 <= 10
        &&& 1 <= self.plain.2 <= 10
    }
}

/// The injury roll kept from two draws: the better one for a `Tank` outside
/// the `Siphon`, else the first.
pub open spec fn kept_injury_roll(class: Class, arena: Arena, first: i32, second: i32) -> i32 {
    if arena != Arena::Siphon && class == Class::Tank {
        larger(first as int, second as int) as i32
    } else {
        first
    }
}

/// An injury roll of at most 0 kills and changes nothing else; a roll of 2
/// costs exactly one point of strength and nothing else; a roll of 5, 6 or 7
/// changes nothing.
pub proof fn lemma_injury_table(f: Fighter, roll: int)
    requires
        f.injury_fits(roll),
    ensures
        roll <= 0 ==> f.injured(roll) == (Fighter { dead: true, ..f }),
        roll == 2 ==> {
            &&& f.injured(roll).strength == f.strength - 1
            &&& f.injured(roll) == (Fighter { strength: f.injured(roll).strength, ..f })
        },
        5 <= roll <= 7 ==> f.injured(roll) == f,
{
}

impl Fighter {
    /// The sum of the three stats and the unspent reward points.
    pub open spec fn total_spec(self) -> int {
        self.strength + self.speed + self.skill + self.unspent_points
    }

    /// The fighter after an injury roll of `roll`: at most 0 kills, 1 costs a
    /// point of every stat, 2, 3 and 4 cost a point of strength, speed and
    /// skill respectively, and 5 or more do nothing.
    pub open spec fn injured(self, roll: int) -> Fighter {
        if roll <= 0 {
            Fighter { dead: true, ..self }
        } else if roll == 1 {
            Fighter {
                strength: (self.strength - 1) as i32,
                speed: (self.speed - 1) as i32,
                skill: (self.skill - 1) as i32,
                ..self
            }
        } else if roll == 2 {
            Fighter { strength: (self.strength - 1) as i32, ..self }
        } else if roll == 3 {
            Fighter { speed: (self.speed - 1) as i32, ..self }
        } else if roll == 4 {
            Fighter { skill: (self.skill - 1) as i32, ..self }
        } else {
            self
        }
    }

    /// The stats that an injury roll of `roll` lowers are above the least `i32`.
    pub open spec fn injury_fits(self, roll: int) -> bool {
        &&& (roll == 1 || roll == 2) ==> self.strength > i32::MIN
        &&& (roll == 1 || roll == 3) ==> self.speed > i32::MIN
        &&& (roll == 1 || roll == 4) ==> self.skill > i32::MIN
    }

    /// No stat is at the least `i32`, so any injury can be taken.
    pub open spec fn can_take_injury(self) -> bool {
        &&& self.strength > i32::MIN
        &&& self.speed > i32::MIN
        &&& self.skill > i32::MIN
    }

    /// Strength, speed and skill after the arena's adjustment: the `Hills`
    /// double speed, the `Library` raises strength and speed to at least skill.
    pub open spec fn arena_base(self, arena: Arena) -> (int, int, int) {
        if arena == Arena::Hills {
            (self.strength as int, 2 * self.speed, self.skill as int)
        } else if arena == Arena::Library {
            (
                larger(self.strength as int, self.skill as int),
                larger(self.speed as int, self.skill as int),
                self.skill as int,
            )
        } else {
            (self.strength as int, self.speed as int, self.skill as int)
        }
    }

    /// Every stat after the arena's adjustment, and after adding any die to
    /// it, is an `i32`.
    pub open spec fn rolls_fit(self, arena: Arena) -> bool {
        let (a, b, c) = self.arena_base(arena);
        &&& i32::MIN <= a && a + 10 <= i32::MAX
        &&& i32::MIN <= b && b + 10 <= i32::MAX
        &&& i32::MIN <= c && c + 10 <= i32::MAX
    }

    /// The rolled stats (strength, speed, skill) for the dice `d`.
    ///
    /// Outside the `Siphon`, a `Swarm` fighter adds both five-sided dice to
    /// strength and rolls nothing else; a `Mutant` takes the better of its two
    /// ten-sided dice in place of the chosen stat and adds a plain die to the
    /// other two. Everyone else, and everyone in the `Siphon`, adds a plain die
    /// to each stat.
    pub open spec fn rolled_stats(self, arena: Arena, d: StatDice) -> Seq<i32> {
        let (a, b, c) = self.arena_base(arena);
        if arena != Arena::Siphon && self.class == Class::Swarm {
            seq![(a + d.swarm.0 + d.swarm.1) as i32, b as i32, c as i32]
        } else if arena != Arena::Siphon && self.class == Class::Mutant {
            let best = larger(d.mutant.0 as int, d.mutant.1 as int);
            seq![
                (if d.mutant_slot == 0 { best } else { a + d.plain.0 }) as i32,
                (if d.mutant_slot == 1 { best } else { b + d.plain.1 }) as i32,
                (if d.mutant_slot == 2 { best } else { c + d.plain.2 }) as i32,
            ]
        } else {
            seq![(a + d.plain.0) as i32, (b + d.plain.1) as i32, (c + d.plain.2) as i32]
        }
    }

    /// A new fighter with the given stats and an empty record.
    pub open spec fn new_spec(name: String, owner: String, class: Class, strength: i32, speed: i32, skill: i32) -> Fighter {
        Fighter {
            name,
            owner,
            class,
            strength,
            speed,
            skill,
            dead: false,
            rating: 0,
            kills: 0,
            battles_won: 0,
            battles_fought: 0,
            unspent_points: 0,
            pre_matched: false,
        }
    }

    /// A new fighter with the given stats and an empty record.
    pub fn new(name: String, owner: String, class: Class, strength: i32, speed: i32, skill: i32) -> (r: Fighter)
        ensures
            r == Fighter::new_spec(name, owner, class, strength, speed, skill),
    {
        Fighter {
            name,
            owner,
            class,
            strength,
            speed,
            skill,
            dead: false,
            rating: 0,
            kills: 0,
            battles_won: 0,
            battles_fought: 0,
            unspent_points: 0,
            pre_matched: false,
        }
    }

    /// The fighter that six fields describe (name, owner, class, strength,
    /// speed, skill), or the first problem with them.
    pub fn from_vec(v: &[String]) -> (r: Result<Fighter, String>)
        ensures
            v@.len() != 6 ==> (r matches Err(e) && e@ == "fighter vec parsing requires vec of length 6"@),
            v@.len() == 6 ==> match r {
                Ok(f) => {
                    &&& class_named(lower_of(v@[2]@)) == Some(f.class)
                    &&& written_i32(v@[3]@) == Some(f.strength)
                    &&& written_i32(v@[4]@) == Some(f.speed)
                    &&& written_i32(v@[5]@) == Some(f.skill)
                    &&& f == Fighter::new_spec(v@[0], v@[1], f.class, f.strength, f.speed, f.skill)
                },
                Err(e) => {
                    ||| class_named(lower_of(v@[2]@)) is None && e@ == parse_failure("class"@, v@[2]@)
                    ||| class_named(lower_of(v@[2]@)) is Some && written_i32(v@[3]@) is None
                        && e@ == parse_failure("strength value"@, v@[3]@)
                    ||| class_named(lower_of(v@[2]@)) is Some && written_i32(v@[3]@) is Some
                        && written_i32(v@[4]@) is None && e@ == parse_failure("strength value"@, v@[4]@)
                    ||| class_named(lower_of(v@[2]@)) is Some && written_i32(v@[3]@) is Some
                        && written_i32(v@[4]@) is Some && written_i32(v@[5]@) is None
                        && e@ == parse_failure("strength value"@, v@[5]@)
                },
            },
    {
        if v.len() != 6 {
            return Err(String::from_str("fighter vec parsing requires vec of length 6"));
        }
        let class = match Class::parse_name(v[2].as_str()) {
            Ok(c) => c,
            Err(e) => return Err(e),
        };
        let strength = match parse_i32(v[3].as_str()) {
            Some(x) => x,
            None => return Err(failed_to_parse("strength value", v[3].as_str())),
        };
        let speed = match parse_i32(v[4].as_str()) {
            Some(x) => x,
            None => return Err(failed_to_parse("strength value", v[4].as_str())),
        };
        let skill = match parse_i32(v[5].as_str()) {
            Some(x) => x,
            None => return Err(failed_to_parse("strength value", v[5].as_str())),
        };
        Ok(Fighter::new(v[0].clone(), v[1].clone(), class, strength, speed, skill))
    }

    /// The fighter after spending reward points on stats: each stat rises by
    /// its amount and the unspent points fall by their sum.
    pub open spec fn stats_added(self, strength: int, speed: int, skill: int) -> Fighter {
        Fighter {
            strength: (self.strength + strength) as i32,
            speed: (self.speed + speed) as i32,
            skill: (self.skill + skill) as i32,
            unspent_points: (self.unspent_points - (strength + speed + skill)) as i32,
            ..self
        }
    }

    /// Every number that spending changes stays an `i32`.
    pub open spec fn can_add_stats(self, strength: int, speed: int, skill: int) -> bool {
        &&& i32::MIN <= self.strength + strength <= i32::MAX
        &&& i32::MIN <= self.speed + speed <= i32::MAX
        &&& i32::MIN <= self.skill + skill <= i32::MAX
        &&& i32::MIN <= self.unspent_points - (strength + speed + skill) <= i32::MAX
    }

    /// Spends reward points on stats (the unspent points may go below zero).
    /// Fails, changing nothing, when a number would leave the range of `i32`.
    pub fn add_stats(&mut self, strength: i32, speed: i32, skill: i32) -> (r: Result<(), String>)
        ensures
            r is Ok <==> old(self).can_add_stats(strength as int, speed as int, skill as int),
            r is Ok ==> *final(self) == old(self).stats_added(strength as int, speed as int, skill as int),
            r matches Err(e) ==> *final(self) == *old(self) && e@ == "stats out of range!"@,
    {
        let st = self.strength as i64 + strength as i64;
        let sp = self.speed as i64 + speed as i64;
        let sk = self.skill as i64 + skill as i64;
        let spent = strength as i64 + speed as i64 + skill as i64;
        let left = self.unspent_points as i64 - spent;
        let lo = i32::MIN as i64;
        let hi = i32::MAX as i64;
        if st < lo || st > hi || sp < lo || sp > hi || sk < lo || sk > hi || left < lo || left > hi {
            return Err(String::from_str("stats out of range!"));
        }
        self.strength = st as i32;
        self.speed = sp as i32;
        self.skill = sk as i32;
        self.unspent_points = left as i32;
        Ok(())
    }

    /// Strength, speed, skill and unspent points together.
    pub fn total(&self) -> (r: i32)
        requires
            i32::MIN <= self.total_spec() <= i32::MAX,
        ensures
            r == self.total_spec(),
    {
        let a = self.strength as i64 + self.speed as i64;
        let b = self.skill as i64 + self.unspent_points as i64;
        (a + b) as i32
    }

    /// Applies the injury table to this fighter for a roll of `roll`.
    pub fn apply_injury(&mut self, roll: i32)
        requires
            old(self).injury_fits(roll as int),
        ensures
            *final(self) == old(self).injured(roll as int),
    {
        if roll <= 0 {
            self.dead = true;
        } else if roll == 1 {
            self.strength = self.strength - 1;
            self.speed = self.speed - 1;
            self.skill = self.skill - 1;
        } else if roll == 2 {
            self.strength = self.strength - 1;
        } else if roll == 3 {
            self.speed = self.speed - 1;
        } else if roll == 4 {
            self.skill = self.skill - 1;
        }
    }

    /// The injury roll this fighter keeps from the draws `first` and `second`.
    pub fn injury_roll(&self, arena: &Arena, first: i32, second: i32) -> (r: i32)
        ensures
            r == kept_injury_roll(self.class, *arena, first, second),
    {
        match arena {
            Arena::Siphon => first,
            _ => match self.class {
                Class::Tank => select_largest(first, second),
                _ => first,
            },
        }
    }

    /// Injures this fighter if `will_injure`, keeping a roll from the draws
    /// `first` and `second`, and records the roll in the latest battle of
    /// `batlog` (`None` when not injured).
    pub fn injure_with(&mut self, arena: &Arena, batlog: &mut Batlog, will_injure: bool, first: i32, second: i32) -> (r: Option<i32>)
        requires
            old(batlog).fights.len() > 0,
            will_injure ==> old(self).injury_fits(kept_injury_roll(old(self).class, *arena, first, second) as int),
        ensures
            r == (if will_injure { Some(kept_injury_roll(old(self).class, *arena, first, second)) } else { None }),
            *final(self) == (if will_injure { old(self).injured(kept_injury_roll(old(self).class, *arena, first, second) as int) } else { *old(self) }),
            final(batlog).fights.len() == old(batlog).fights.len(),
            final(batlog)@ == old(batlog)@.record_injury(r),
    {
        if !will_injure {
            batlog.set_injury(None);
            return None;
        }
        let roll = self.injury_roll(arena, first, second);
        batlog.set_injury(Some(roll));
        self.apply_injury(roll);
        Some(roll)
    }

    /// Injures this fighter if `will_injure`, recording the outcome in the
    /// latest battle of `batlog` (`None` when not injured).
    ///
    /// An injury draws a roll from 0 to 7 (a `Tank` outside the `Siphon` keeps
    /// the better of two) and applies the injury table to it.
    #[allow(unused_variables)]
    pub fn injure(&mut self, arena: &Arena, modifier: &Modifier, batlog: &mut Batlog, will_injure: bool) -> (r: Option<i32>)
        requires
            old(batlog).fights.len() > 0,
            will_injure ==> old(self).can_take_injury(),
        ensures
            r is Some <==> will_injure,
            r is None ==> *final(self) == *old(self),
            r matches Some(x) ==> 0 <= x <= 7 && *final(self) == old(self).injured(x as int),
            final(batlog).fights.len() == old(batlog).fights.len(),
            final(batlog)@ == old(batlog)@.record_injury(r),
    {
        if !will_injure {
            return self.injure_with(arena, batlog, false, 0, 0);
        }
        let first = draw(0, 8);
        let second = match (arena, self.class) {
            (Arena::Siphon, _) => first,
            (_, Class::Tank) => draw(0, 8),
            _ => first,
        };
        self.injure_with(arena, batlog, true, first, second)
    }

    /// The rolled stats (strength, speed, skill) for the dice `dice`.
    pub fn stats_from_dice(&self, arena: &Arena, dice: &StatDice) -> (r: Vec<i32>)
        requires
            dice.valid(),
            self.rolls_fit(*arena),
        ensures
            r@ == self.rolled_stats(*arena, *dice),
    {
        let (mut a, mut b, c) = (self.strength, self.speed, self.skill);
        match arena {
            Arena::Hills => {
                b = b * 2;
            },
            Arena::Library => {
                a = select_largest(a, c);
                b = select_largest(b, c);
            },
            _ => {},
        }
        let class_effects = match arena {
            Arena::Siphon => false,
            _ => true,
        };
        let r: Vec<i32> = if class_effects && self.class == Class::Swarm {
            vec![a + dice.swarm.0 + dice.swarm.1, b, c]
        } else if class_effects && self.class == Class::Mutant {
            let best = select_largest(dice.mutant.0, dice.mutant.1);
            vec![
                if dice.mutant_slot == 0 { best } else { a + dice.plain.0 },
                if dice.mutant_slot == 1 { best } else { b + dice.plain.1 },
                if dice.mutant_slot == 2 { best } else { c + dice.plain.2 },
            ]
        } else {
            vec![a + dice.plain.0, b + dice.plain.1, c + dice.plain.2]
        };
        assert(r@ =~= self.rolled_stats(*arena, *dice));
        r
    }

    /// Draws the dice for this fighter's stat roll in `arena`.
    pub fn roll_stat_dice(&self, arena: &Arena) -> (d: StatDice)
        ensures
            d.valid(),
    {
        let class_effects = match arena {
            Arena::Siphon => false,
            _ => true,
        };
        if class_effects && self.class == Class::Swarm {
            let s1 = draw(1, 6);
            let s2 = draw(1, 6);
            StatDice { swarm: (s1, s2), mutant_slot: 0, mutant: (1, 1), plain: (1, 1, 1) }
        } else if class_effects && self.class == Class::Mutant {
            let slot = draw(0, 3) as usize;
            let m1 = draw(1, 11);
            let m2 = draw(1, 11);
            let d0 = if slot == 0 { 1 } else { draw(1, 11) };
            let d1 = if slot == 1 { 1 } else { draw(1, 11) };
            let d2 = if slot == 2 { 1 } else { draw(1, 11) };
            StatDice { swarm: (1, 1), mutant_slot: slot, mutant: (m1, m2), plain: (d0, d1, d2) }
        } else {
            let d0 = draw(1, 11);
            let d1 = draw(1, 11);
            let d2 = draw(1, 11);
            StatDice { swarm: (1, 1), mutant_slot: 0, mutant: (1, 1), plain: (d0, d1, d2) }
        }
    }

    /// Rolls this fighter's stats for a battle in `arena`: the stats for some
    /// valid dice.
    #[allow(unused_variables)]
    pub fn roll_for_stats(&self, arena: &Arena, modifier: &Modifier) -> (r: Vec<i32>)
        requires
            self.rolls_fit(*arena),
        ensures
            exists|d: StatDice| d.valid() && r@ == self.rolled_stats(*arena, d),
    {
        let dice = self.roll_stat_dice(arena);
        self.stats_from_dice(arena, &dice)
    }
}

} // verus!
