//! Arenas, modifiers, rounds and matchmaking.

use vstd::prelude::*;
use vstd::multiset::Multiset;
use crate::batlog::{Batlog, BatlogView};
use crate::dice::{draw, shuffle};
use crate::fighter::Fighter;
use crate::utils::{failed_to_parse, lower_of, lowercase, parse_failure, same_text};

verus! {

/// Where a battle takes place.
#[derive(Clone, Copy, Debug, PartialEq, Eq, Structural)]
pub enum Arena {
    /// No special rule.
    Ampitheater,
    /// No class effects on rolls.
    Siphon,
    /// Dominating on strength wins instantly.
    ClimbingWall,
    /// Speed is doubled.
    Hills,
    /// Strength and speed are raised to at least skill (shown as "mech suits").
    Library,
    /// A draw injures both fighters.
    CrocPit,
    SoftPlayArea,
}

/// A rule that holds for a whole round.
#[derive(Clone, Copy, Debug, PartialEq, Eq, Structural)]
pub enum Modifier {
    /// No special rule.
    Rulebook,
    /// A kill earns the winner a bonus reward point.
    TheCrowdDemandsBlood,
    MedicalAssistance,
    /// Each fighter may be shot, losing instantly.
    OhShitSheHasAGun,
    PumpkinSpiceEyeExams,
    /// Fighters are matched with those of similar rating.
    OlympicInspector,
}

/// How many arenas there are.
pub const ARENA_COUNT: usize = 7;

/// How many modifiers there are.
pub const MODIFIER_COUNT: usize = 6;

/// The arenas in order.
pub open spec fn arena_at(i: int) -> Arena {
    if i == 0 {
        Arena::Ampitheater
    } else if i == 1 {
        Arena::Siphon
    } else if i == 2 {
        Arena::ClimbingWall
    } else if i == 3 {
        Arena::Hills
    } else if i == 4 {
        Arena::Library
    } else if i == 5 {
        Arena::CrocPit
    } else {
        Arena::SoftPlayArea
    }
}

/// The modifiers in order.
pub open spec fn modifier_at(i: int) -> Modifier {
    if i == 0 {
        Modifier::Rulebook
    } else if i == 1 {
        Modifier::TheCrowdDemandsBlood
    } else if i == 2 {
        Modifier::MedicalAssistance
    } else if i == 3 {
        Modifier::OhShitSheHasAGun
    } else if i == 4 {
        Modifier::PumpkinSpiceEyeExams
    } else {
        Modifier::OlympicInspector
    }
}

/// The arena that a lowercase name stands for.
pub open spec fn arena_named(t: Seq<char>) -> Option<Arena> {
    if t == "amphitheater"@ || t == "amp"@ || t == "amphithetre"@ {
        Some(Arena::Ampitheater)
    } else if t == "siphon"@ {
        Some(Arena::Siphon)
    } else if t == "climbingwall"@ {
        Some(Arena::ClimbingWall)
    } else if t == "hills"@ {
        Some(Arena::Hills)
    } else if t == "library"@ || t == "mechsuits"@ || t == "mechs"@ {
        Some(Arena::Library)
    } else if t == "crocpit"@ {
        Some(Arena::CrocPit)
    } else if t == "softplayarea"@ || t == "softplay"@ {
        Some(Arena::SoftPlayArea)
    } else {
        None
    }
}

/// The name an arena is shown by.
pub open spec fn arena_shown(a: Arena) -> Seq<char> {
    match a {
        Arena::Ampitheater => "amphitheatre"@,
        Arena::Siphon => "siphon"@,
        Arena::ClimbingWall => "climbing wall"@,
        Arena::Hills => "hills"@,
        Arena::Library => "mech suits"@,
        Arena::CrocPit => "crocodile pit"@,
        Arena::SoftPlayArea => "soft play area"@,
    }
}

/// The modifier that a lowercase name stands for.
pub open spec fn modifier_named(t: Seq<char>) -> Option<Modifier> {
    if t == "rulebook"@ || t == "rules"@ {
        Some(Modifier::Rulebook)
    } else if t == "medicalassistance"@ || t == "meds"@ {
        Some(Modifier::MedicalAssistance)
    } else if t == "thecrowddemandsblood"@ || t == "blood"@ {
        Some(Modifier::TheCrowdDemandsBlood)
    } else if t == "pumpkinspiceeyeexams"@ || t == "eyeexams"@ || t == "eyes"@ {
        Some(Modifier::PumpkinSpiceEyeExams)
    } else if t == "ohshitshehasagun"@ || t == "ohshit"@ || t == "gun"@ {
        Some(Modifier::OhShitSheHasAGun)
    } else if t == "olympicinspector"@ || t == "olympic"@ || t == "inspector"@ {
        Some(Modifier::OlympicInspector)
    } else {
        None
    }
}

/// The name a modifier is shown by.
pub open spec fn modifier_shown(m: Modifier) -> Seq<char> {
    match m {
        Modifier::Rulebook => "rulebook"@,
        Modifier::MedicalAssistance => "medical assistance"@,
        Modifier::TheCrowdDemandsBlood => "the crowd demands blood"@,
        Modifier::PumpkinSpiceEyeExams => "pumpkin spice eye exams"@,
        Modifier::OhShitSheHasAGun => "oh shit the empress has a gun"@,
        Modifier::OlympicInspector => "olympic inspector"@,
    }
}

impl Arena {
    /// The arena at position `i` of the list of arenas.
    pub fn from_index(i: usize) -> (r: Arena)
        requires
            i < ARENA_COUNT,
        ensures
            r == arena_at(i as int),
    {
        match i {
            0 => Arena::Ampitheater,
            1 => Arena::Siphon,
            2 => Arena::ClimbingWall,
            3 => Arena::Hills,
            4 => Arena::Library,
            5 => Arena::CrocPit,
            _ => Arena::SoftPlayArea,
        }
    }

    /// An arena drawn uniformly at random.
    pub fn random() -> (r: Arena) {
        Arena::from_index(draw(0, ARENA_COUNT as i32) as usize)
    }

    /// The arena that the lowercase name `t` stands for.
    pub fn from_name(t: &str) -> (r: Option<Arena>)
        ensures
            r == arena_named(t@),
    {
        if same_text(t, "amphitheater") || same_text(t, "amp") || same_text(t, "amphithetre") {
            Some(Arena::Ampitheater)
        } else if same_text(t, "siphon") {
            Some(Arena::Siphon)
        } else if same_text(t, "climbingwall") {
            Some(Arena::ClimbingWall)
        } else if same_text(t, "hills") {
            Some(Arena::Hills)
        } else if same_text(t, "library") || same_text(t, "mechsuits") || same_text(t, "mechs") {
            Some(Arena::Library)
        } else if same_text(t, "crocpit") {
            Some(Arena::CrocPit)
        } else if same_text(t, "softplayarea") || same_text(t, "softplay") {
            Some(Arena::SoftPlayArea)
        } else {
            None
        }
    }

    /// The arena named by `s`, in any case.
    pub fn parse_name(s: &str) -> (r: Result<Arena, String>)
        ensures
            match arena_named(lower_of(s@)) {
                Some(a) => r == Ok::<Arena, String>(a),
                None => (r matches Err(e) && e@ == parse_failure("arena"@, s@)),
            },
    {
        let l = lowercase(s);
        match Arena::from_name(l.as_str()) {
            Some(a) => Ok(a),
            None => Err(failed_to_parse("arena", s)),
        }
    }

    /// The name this arena is shown by.
    pub fn name(&self) -> (r: String)
        ensures
            r@ == arena_shown(*self),
    {
        String::from_str(
            match self {
                Arena::Ampitheater => "amphitheatre",
                Arena::Siphon => "siphon",
                Arena::ClimbingWall => "climbing wall",
                Arena::Hills => "hills",
                Arena::Library => "mech suits",
                Arena::CrocPit => "crocodile pit",
                Arena::SoftPlayArea => "soft play area",
            },
        )
    }
}

impl std::str::FromStr for Arena {
    type Err = String;

    fn from_str(s: &str) -> Result<Arena, String> {
        Arena::parse_name(s)
    }
}

impl Modifier {
    /// The modifier at position `i` of the list of modifiers.
    pub fn from_index(i: usize) -> (r: Modifier)
        requires
            i < MODIFIER_COUNT,
        ensures
            r == modifier_at(i as int),
    {
        match i {
            0 => Modifier::Rulebook,
            1 => Modifier::TheCrowdDemandsBlood,
            2 => Modifier::MedicalAssistance,
            3 => Modifier::OhShitSheHasAGun,
            4 => Modifier::PumpkinSpiceEyeExams,
            _ => Modifier::OlympicInspector,
        }
    }

    /// A modifier drawn uniformly at random.
    pub fn random() -> (r: Modifier) {
        Modifier::from_index(draw(0, MODIFIER_COUNT as i32) as usize)
    }

    /// The modifier that the lowercase name `t` stands for.
    pub fn from_name(t: &str) -> (r: Option<Modifier>)
        ensures
            r == modifier_named(t@),
    {
        if same_text(t, "rulebook") || same_text(t, "rules") {
            Some(Modifier::Rulebook)
        } else if same_text(t, "medicalassistance") || same_text(t, "meds") {
            Some(Modifier::MedicalAssistance)
        } else if same_text(t, "thecrowddemandsblood") || same_text(t, "blood") {
            Some(Modifier::TheCrowdDemandsBlood)
        } else if same_text(t, "pumpkinspiceeyeexams") || same_text(t, "eyeexams") || same_text(t, "eyes") {
            Some(Modifier::PumpkinSpiceEyeExams)
        } else if same_text(t, "ohshitshehasagun") || same_text(t, "ohshit") || same_text(t, "gun") {
            Some(Modifier::OhShitSheHasAGun)
        } else if same_text(t, "olympicinspector") || same_text(t, "olympic") || same_text(t, "inspector") {
            Some(Modifier::OlympicInspector)
        } else {
            None
        }
    }

    /// The modifier named by `s`, in any case.
    pub fn parse_name(s: &str) -> (r: Result<Modifier, String>)
        ensures
            match modifier_named(lower_of(s@)) {
                Some(m) => r == Ok::<Modifier, String>(m),
                None => (r matches Err(e) && e@ == parse_failure("modifier"@, s@)),
            },
    {
        let l = lowercase(s);
        match Modifier::from_name(l.as_str()) {
            Some(m) => Ok(m),
            None => Err(failed_to_parse("modifier", s)),
        }
    }

    /// The name this modifier is shown by.
    pub fn name(&self) -> (r: String)
        ensures
            r@ == modifier_shown(*self),
    {
        String::from_str(
            match self {
                Modifier::Rulebook => "rulebook",
                Modifier::MedicalAssistance => "medical assistance",
                Modifier::TheCrowdDemandsBlood => "the crowd demands blood",
                Modifier::PumpkinSpiceEyeExams => "pumpkin spice eye exams",
                Modifier::OhShitSheHasAGun => "oh shit the empress has a gun",
                Modifier::OlympicInspector => "olympic inspector",
            },
        )
    }
}

impl std::str::FromStr for Modifier {
    type Err = String;

    fn from_str(s: &str) -> Result<Modifier, String> {
        Modifier::parse_name(s)
    }
}

/// Matchups as pairs of indices into the fighter list.
pub type Matchups = Vec<(usize, usize)>;

/// A fighter that can be matched automatically: alive and not in a
/// pre-arranged matchup.
pub open spec fn eligible(f: Fighter) -> bool {
    !f.dead && !f.pre_matched
}

/// The indices below `n` of eligible fighters, in increasing order.
pub open spec fn eligible_upto(fs: Seq<Fighter>, n: int) -> Seq<usize>
    decreases n,
{
    if n <= 0 {
        Seq::empty()
    } else if eligible(fs[n - 1]) {
        eligible_upto(fs, n - 1).push((n - 1) as usize)
    } else {
        eligible_upto(fs, n - 1)
    }
}

/// The indices of all eligible fighters, in increasing order.
pub open spec fn eligible_indices(fs: Seq<Fighter>) -> Seq<usize> {
    eligible_upto(fs, fs.len() as int)
}

/// The fighters of the matchups, in order, two per matchup.
pub open spec fn paired(pairs: Seq<(usize, usize)>) -> Seq<usize>
    decreases pairs.len(),
{
    if pairs.len() == 0 {
        Seq::empty()
    } else {
        paired(pairs.drop_last()) + seq![pairs.last().0, pairs.last().1]
    }
}

/// The fighters of the matchups followed by the one sitting out, if any.
pub open spec fn covered(pairs: Seq<(usize, usize)>, sitting_out: Option<usize>) -> Seq<usize> {
    match sitting_out {
        Some(x) => paired(pairs).push(x),
        None => paired(pairs),
    }
}

/// The ratings of the fighters at `order` never decrease.
pub open spec fn rating_sorted(fs: Seq<Fighter>, order: Seq<usize>) -> bool {
    forall|i: int, j: int|
        0 <= i < j < order.len() ==> fs[order[i] as int].rating <= fs[order[j] as int].rating
}

/// The fighters of `order` whose rating is `v`, in their order there.
pub open spec fn with_rating(fs: Seq<Fighter>, order: Seq<usize>, v: i32) -> Seq<usize>
    decreases order.len(),
{
    if order.len() == 0 {
        Seq::empty()
    } else if fs[order.last() as int].rating == v {
        with_rating(fs, order.drop_last(), v).push(order.last())
    } else {
        with_rating(fs, order.drop_last(), v)
    }
}

/// Picking the fighters of one rating distributes over concatenation.
proof fn lemma_with_rating_concat(fs: Seq<Fighter>, a: Seq<usize>, b: Seq<usize>, v: i32)
    ensures
        with_rating(fs, a + b, v) == with_rating(fs, a, v) + with_rating(fs, b, v),
    decreases b.len(),
{
    if b.len() == 0 {
        assert(a + b =~= a);
        assert(with_rating(fs, a, v) + with_rating(fs, b, v) =~= with_rating(fs, a, v));
    } else {
        lemma_with_rating_concat(fs, a, b.drop_last(), v);
        assert((a + b).drop_last() =~= a + b.drop_last());
        if fs[b.last() as int].rating == v {
            assert(with_rating(fs, a, v) + with_rating(fs, b, v) =~= (with_rating(fs, a, v) + with_rating(
                fs,
                b.drop_last(),
                v,
            )).push(b.last()));
        }
    }
}

/// No fighter of `order` has rating `v`, so none is picked.
proof fn lemma_with_rating_none(fs: Seq<Fighter>, order: Seq<usize>, v: i32)
    requires
        forall|i: int| 0 <= i < order.len() ==> fs[order[i] as int].rating != v,
    ensures
        with_rating(fs, order, v) == Seq::<usize>::empty(),
    decreases order.len(),
{
    if order.len() > 0 {
        lemma_with_rating_none(fs, order.drop_last(), v);
    }
}

/// Every index of `order` is a fighter of `fs`.
pub open spec fn indices_in(fs: Seq<Fighter>, order: Seq<usize>) -> bool {
    forall|i: int| 0 <= i < order.len() ==> order[i] < fs.len()
}

/// Matchups and a sit-out drawn from the eligible fighters of `fs`: every
/// eligible fighter is in exactly one matchup or is the one sitting out, no
/// other fighter appears, someone sits out exactly when the number of
/// eligible fighters is odd, and there are half as many matchups as eligible
/// fighters, rounded down.
pub open spec fn draws_all_eligible(fs: Seq<Fighter>, pairs: Seq<(usize, usize)>, sitting_out: Option<usize>) -> bool {
    let n = eligible_indices(fs).len();
    &&& pairs.len() == n / 2
    &&& (sitting_out is Some <==> n % 2 == 1)
    &&& covered(pairs, sitting_out).to_multiset() == eligible_indices(fs).to_multiset()
    &&& forall|x: usize|
        #[trigger] covered(pairs, sitting_out).to_multiset().count(x) == (if (x as int) < fs.len() && eligible(
            fs[x as int],
        ) {
            1nat
        } else {
            0nat
        })
}

/// How often an index occurs among the eligible fighters: once for an
/// eligible fighter, never for anything else.
proof fn lemma_eligible_count(fs: Seq<Fighter>, n: int, x: usize)
    requires
        0 <= n <= fs.len(),
        fs.len() <= usize::MAX,
    ensures
        eligible_upto(fs, n).to_multiset().count(x) == (if (x as int) < n && eligible(fs[x as int]) { 1nat } else { 0nat }),
        indices_in(fs, eligible_upto(fs, n)),
    decreases n,
{
    broadcast use vstd::seq_lib::group_to_multiset_ensures;
    broadcast use vstd::multiset::group_multiset_axioms;

    if n > 0 {
        lemma_eligible_count(fs, n - 1, x);
        let prev = eligible_upto(fs, n - 1);
        if eligible(fs[n - 1]) {
            assert(eligible_upto(fs, n) == prev.push((n - 1) as usize));
            vstd::seq_lib::to_multiset_build(prev, (n - 1) as usize);
        } else {
            assert(eligible_upto(fs, n) == prev);
        }
    } else {
        assert(eligible_upto(fs, n).to_multiset() =~= Multiset::empty());
    }
}

/// The indices of the eligible fighters of `fighters`, in increasing order.
pub fn eligible_fighters(fighters: &[Fighter]) -> (r: Vec<usize>)
    ensures
        r@ == eligible_indices(fighters@),
{
    let mut r: Vec<usize> = Vec::new();
    let mut i: usize = 0;
    while i < fighters.len()
        invariant
            i <= fighters@.len(),
            r@ == eligible_upto(fighters@, i as int),
        decreases fighters@.len() - i,
    {
        if !fighters[i].dead && !fighters[i].pre_matched {
            r.push(i);
        }
        i = i + 1;
    }
    r
}

/// Pairs `order` up in sequence (first with second, third with fourth, and so
/// on); with an odd count the last one sits out.
pub fn pair_up(order: &Vec<usize>) -> (r: (Matchups, Option<usize>))
    ensures
        r.0@.len() == order@.len() / 2,
        r.1 is Some <==> order@.len() % 2 == 1,
        covered(r.0@, r.1) == order@,
{
    let n = order.len();
    let even = n - n % 2;
    let mut pairs: Matchups = Vec::new();
    let mut k: usize = 0;
    while k < even
        invariant
            n == order@.len(),
            even == n - n % 2,
            k % 2 == 0,
            k <= even,
            pairs@.len() == k / 2,
            paired(pairs@) == order@.subrange(0, k as int),
        decreases even - k,
    {
        let ghost before = pairs@;
        pairs.push((order[k], order[k + 1]));
        assert(pairs@.drop_last() =~= before);
        assert(paired(pairs@) =~= order@.subrange(0, k + 2));
        k = k + 2;
    }
    if n % 2 == 1 {
        assert(order@ =~= order@.subrange(0, even as int).push(order@[n - 1]));
        (pairs, Some(order[n - 1]))
    } else {
        assert(order@ =~= order@.subrange(0, even as int));
        (pairs, None)
    }
}

/// `order` sorted by the fighters' ratings, lowest first; fighters of equal
/// rating keep their order.
pub fn sort_by_rating(fighters: &[Fighter], order: &Vec<usize>) -> (r: Vec<usize>)
    requires
        indices_in(fighters@, order@),
    ensures
        r@.to_multiset() == order@.to_multiset(),
        r@.len() == order@.len(),
        rating_sorted(fighters@, r@),
        forall|v: i32| #[trigger] with_rating(fighters@, r@, v) == with_rating(fighters@, order@, v),
        indices_in(fighters@, r@),
{
    broadcast use vstd::seq_lib::group_to_multiset_ensures;

    let mut sorted: Vec<usize> = Vec::new();
    let mut k: usize = 0;
    while k < order.len()
        invariant
            k <= order@.len(),
            indices_in(fighters@, order@),
            indices_in(fighters@, sorted@),
            sorted@.len() == k,
            sorted@.to_multiset() == order@.subrange(0, k as int).to_multiset(),
            rating_sorted(fighters@, sorted@),
            forall|v: i32|
                #[trigger] with_rating(fighters@, sorted@, v) == with_rating(fighters@, order@.subrange(0, k as int), v),
        decreases order@.len() - k,
    {
        let x = order[k];
        let key = fighters[x].rating;
        let mut p: usize = 0;
        while p < sorted.len() && fighters[sorted[p]].rating <= key
            invariant
                p <= sorted@.len(),
                indices_in(fighters@, sorted@),
                forall|i: int| 0 <= i < p ==> fighters@[sorted@[i] as int].rating <= key,
            decreases sorted@.len() - p,
        {
            p = p + 1;
        }
        let ghost before = sorted@;
        sorted.insert(p, x);
        assert(sorted@.to_multiset() == before.to_multiset().insert(x)) by {
            vstd::seq_lib::to_multiset_insert(before, p as int, x);
        }
        assert(order@.subrange(0, k + 1) =~= order@.subrange(0, k as int).push(x));
        proof {
            vstd::seq_lib::to_multiset_build(order@.subrange(0, k as int), x);
        }
        assert forall|i: int, j: int| 0 <= i < j < sorted@.len() implies fighters@[sorted@[i] as int].rating
            <= fighters@[sorted@[j] as int].rating by {
            if p < before.len() {
                assert(fighters@[before[p as int] as int].rating > key);
            }
        }
        assert forall|v: i32| #[trigger] with_rating(fighters@, sorted@, v) == with_rating(
            fighters@,
            order@.subrange(0, k + 1),
            v,
        ) by {
            let head = before.subrange(0, p as int);
            let tail = before.subrange(p as int, before.len() as int);
            assert(before =~= head + tail);
            assert(sorted@ =~= (head + seq![x]) + tail);
            lemma_with_rating_concat(fighters@, head, tail, v);
            lemma_with_rating_concat(fighters@, head + seq![x], tail, v);
            lemma_with_rating_concat(fighters@, head, seq![x], v);
            assert(seq![x].drop_last() =~= Seq::<usize>::empty());
            assert(with_rating(fighters@, Seq::<usize>::empty(), v) == Seq::<usize>::empty());
            let wx = with_rating(fighters@, seq![x], v);
            assert(order@.subrange(0, k as int).push(x).drop_last() =~= order@.subrange(0, k as int));
            if v == key {
                assert forall|i: int| 0 <= i < tail.len() implies fighters@[tail[i] as int].rating != v by {
                    assert(tail[i] == before[p + i]);
                    assert(fighters@[before[p as int] as int].rating > key);
                    if i > 0 {
                        assert(fighters@[before[p as int] as int].rating <= fighters@[before[p + i] as int].rating);
                    }
                }
                lemma_with_rating_none(fighters@, tail, v);
                assert(wx =~= seq![x]);
                assert(with_rating(fighters@, sorted@, v) =~= with_rating(fighters@, before, v).push(x));
            } else {
                assert(wx =~= Seq::<usize>::empty());
                assert(with_rating(fighters@, sorted@, v) =~= with_rating(fighters@, before, v));
            }
        }
        k = k + 1;
    }
    assert(order@.subrange(0, order@.len() as int) =~= order@);
    sorted
}

/// Random matchups among the eligible fighters: they are shuffled and paired
/// up in sequence, and with an odd count one of them sits out.
pub fn generate_matchups(fighters: &[Fighter]) -> (r: (Matchups, Option<usize>))
    ensures
        draws_all_eligible(fighters@, r.0@, r.1),
{
    let n = fighters.len();
    let mut order = eligible_fighters(fighters);
    shuffle(&mut order);
    let r = pair_up(&order);
    assert forall|x: usize| #[trigger] covered(r.0@, r.1).to_multiset().count(x) == (if (x as int) < fighters@.len()
        && eligible(fighters@[x as int]) {
        1nat
    } else {
        0nat
    }) by {
        lemma_eligible_count(fighters@, n as int, x);
    }
    r
}

/// Matchups by rating among the eligible fighters, given them in the order
/// `order`: with an odd count the last sits out, and the rest are sorted by
/// rating and paired up in sequence, so that neighbours in rating meet.
pub fn seed_pairs(fighters: &[Fighter], order: &Vec<usize>) -> (r: (Matchups, Option<usize>))
    requires
        indices_in(fighters@, order@),
    ensures
        r.0@.len() == order@.len() / 2,
        r.1 == (if order@.len() % 2 == 1 { Some(order@.last()) } else { None::<usize> }),
        paired(r.0@).to_multiset() == (if order@.len() % 2 == 1 { order@.drop_last() } else { order@ }).to_multiset(),
        rating_sorted(fighters@, paired(r.0@)),
        forall|v: i32|
            #[trigger] with_rating(fighters@, paired(r.0@), v) == with_rating(
                fighters@,
                if order@.len() % 2 == 1 { order@.drop_last() } else { order@ },
                v,
            ),
{
    let mut rest = order.clone();
    assert(rest@ == order@);
    let sitting_out = if rest.len() % 2 == 1 {
        rest.pop()
    } else {
        None
    };
    let sorted = sort_by_rating(fighters, &rest);
    let (pairs, _) = pair_up(&sorted);
    (pairs, sitting_out)
}

/// Matchups by rating among the eligible fighters: they are shuffled, with an
/// odd count one of them sits out, and the rest are paired by rating.
pub fn generate_olympics(fighters: &[Fighter]) -> (r: (Matchups, Option<usize>))
    ensures
        draws_all_eligible(fighters@, r.0@, r.1),
        rating_sorted(fighters@, paired(r.0@)),
{
    broadcast use vstd::seq_lib::group_to_multiset_ensures;

    let n = fighters.len();
    let mut order = eligible_fighters(fighters);
    proof {
        lemma_eligible_count(fighters@, n as int, 0);
    }
    let ghost eligible_order = order@;
    shuffle(&mut order);
    assert forall|i: int| 0 <= i < order@.len() implies order@[i] < fighters@.len() by {
        assert(order@.to_multiset().count(order@[i]) > 0);
        assert(eligible_order.contains(order@[i]));
    }
    let r = seed_pairs(fighters, &order);
    if order.len() % 2 == 1 {
        assert(order@ =~= order@.drop_last().push(order@.last()));
    }
    assert forall|x: usize| #[trigger] covered(r.0@, r.1).to_multiset().count(x) == (if (x as int) < fighters@.len()
        && eligible(fighters@[x as int]) {
        1nat
    } else {
        0nat
    }) by {
        lemma_eligible_count(fighters@, n as int, x);
    }
    r
}

/// A boss round. It is kept in a season's history but cannot be run.
#[derive(Clone, Debug)]
pub struct BossRound {
    pub ver: i32,
    /// Groups of indices into the fighter list.
    pub matchups: Vec<Vec<usize>>,
}

/// A scheduled or fought round.
#[derive(Clone, Debug)]
pub struct GameRound {
    /// Pairs of indices into the fighter list.
    pub matchups: Matchups,
    pub sitting_out: Option<usize>,
    pub arena: Arena,
    pub modifier: Modifier,
    pub log: Batlog,
}

/// A round of a season.
#[derive(Clone, Debug)]
pub enum Round {
    Standard(GameRound),
    Boss(BossRound),
}

/// The matchups drawn for a round that also holds `pre` pre-arranged ones at
/// its end.
pub open spec fn drawn_part(matchups: Seq<(usize, usize)>, pre: nat) -> Seq<(usize, usize)> {
    matchups.subrange(0, matchups.len() - pre)
}

impl GameRound {
    /// A new round, numbered `round_no`, in `arena` under `modifier`, each
    /// chosen at random when not given.
    ///
    /// The eligible fighters are matched at random, or by rating under the
    /// `OlympicInspector`; the pre-arranged matchups follow, and are taken out
    /// of `pre_matches`.
    pub fn new(fighters: &Vec<Fighter>, pre_matches: &mut Vec<(usize, usize)>, round_no: i32, arena: Option<Arena>, modifier: Option<Modifier>) -> (r: GameRound)
        ensures
            arena matches Some(a) ==> r.arena == a,
            modifier matches Some(m) ==> r.modifier == m,
            final(pre_matches)@.len() == 0,
            r.log@ == (BatlogView { fights: Seq::empty(), count: 0, round_no }),
            r.matchups@.len() >= old(pre_matches)@.len(),
            r.matchups@.subrange(r.matchups@.len() - old(pre_matches)@.len(), r.matchups@.len() as int) == old(pre_matches)@,
            draws_all_eligible(fighters@, drawn_part(r.matchups@, old(pre_matches)@.len()), r.sitting_out),
            r.modifier == Modifier::OlympicInspector ==> rating_sorted(
                fighters@,
                paired(drawn_part(r.matchups@, old(pre_matches)@.len())),
            ),
    {
        let modifier = match modifier {
            Some(m) => m,
            None => Modifier::random(),
        };
        let (mut matchups, sitting_out) = match modifier {
            Modifier::OlympicInspector => generate_olympics(fighters.as_slice()),
            _ => generate_matchups(fighters.as_slice()),
        };
        let ghost drawn = matchups@;
        matchups.append(pre_matches);
        assert(drawn_part(matchups@, old(pre_matches)@.len()) =~= drawn);
        assert(matchups@.subrange(matchups@.len() - old(pre_matches)@.len(), matchups@.len() as int) =~= old(pre_matches)@);
        let arena = match arena {
            Some(a) => a,
            None => Arena::random(),
        };
        let log = Batlog::new(round_no);
        assert(log@.fights =~= Seq::empty());
        GameRound { matchups, sitting_out, arena, modifier, log }
    }
}

} // verus!
