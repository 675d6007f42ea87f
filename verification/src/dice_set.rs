//! Dice and sets of dice, and what a throw of them can give.

use vstd::prelude::*;

verus! {

/// One entry of a throw: `dice_count` dice of `face` sides each, and an optional constant
/// that is added to their sum.
#[derive(Clone, Copy, Debug, Hash, PartialEq, Eq)]
pub struct Dice {
    pub dice_count: u64,
    pub face: u64,
    pub modifier: Option<u64>,
}

/// A fresh `u64` from `rand::random`. Every value of the type may come back, so the
/// contract promises nothing of it.
#[verifier::external_body]
fn random_u64() -> (draw: u64) {
    rand::random::<u64>()
}

/// The face that a die of `face` sides shows for the random number `draw`.
pub fn face_shown(draw: u64, face: u64) -> (shown: u64)
    requires
        face > 0,
    ensures
        shown == draw % face + 1,
        1 <= shown <= face,
{
    draw % face + 1
}

impl Dice {
    pub fn new(dice_count: u64, face: u64, modifier: Option<u64>) -> (dice: Dice)
        ensures
            dice.dice_count == dice_count,
            dice.face == face,
            dice.modifier == modifier,
    {
        Dice { dice_count, face, modifier }
    }

    /// The constant added to the sum of the faces: 0 where there is none.
    pub open spec fn modifier_value(self) -> nat {
        match self.modifier {
            Some(m) => m as nat,
            None => 0,
        }
    }

    /// The least total of a throw: every die shows 1.
    pub open spec fn min_total(self) -> nat {
        self.dice_count as nat + self.modifier_value()
    }

    /// The greatest total of a throw: every die shows `face`.
    pub open spec fn max_total(self) -> nat {
        self.dice_count as nat * self.face as nat + self.modifier_value()
    }

    /// A die that can be thrown: it has a face to show, and no total of it overflows.
    pub open spec fn rollable(self) -> bool {
        &&& self.dice_count > 0 ==> self.face > 0
        &&& self.max_total() <= u64::MAX
    }

    /// Equality of two entries, field by field.
    pub fn same_as(&self, other: &Dice) -> (same: bool)
        ensures
            same == (*self == *other),
    {
        let same_modifier = match (self.modifier, other.modifier) {
            (Some(a), Some(b)) => a == b,
            (None, None) => true,
            _ => false,
        };
        self.dice_count == other.dice_count && self.face == other.face && same_modifier
    }

    /// Throws the dice: the sum of the faces shown plus the modifier.
    pub fn roll(&self) -> (result: u64)
        requires
            self.rollable(),
        ensures
            self.min_total() <= result <= self.max_total(),
    {
        let mut result: u64 = 0;
        let mut thrown: u64 = 0;
        while thrown < self.dice_count
            invariant
                thrown <= self.dice_count,
                self.rollable(),
                thrown <= result <= thrown as nat * self.face as nat,
            decreases self.dice_count - thrown,
        {
            let draw = random_u64();
            let shown = face_shown(draw, self.face);
            proof {
                assert((thrown as nat + 1) * self.face as nat == thrown as nat * self.face as nat
                    + self.face as nat) by (nonlinear_arith);
                assert((thrown as nat + 1) * self.face as nat <= self.dice_count as nat
                    * self.face as nat) by (nonlinear_arith)
                    requires
                        thrown as nat + 1 <= self.dice_count as nat,
                ;
            }
            result = result + shown;
            thrown = thrown + 1;
        }
        match self.modifier {
            Some(m) => result + m,
            None => result,
        }
    }
}

/// The entries of `dice` without repetitions, each at the place of its first occurrence.
pub open spec fn first_occurrences(dice: Seq<Dice>) -> Seq<Dice>
    decreases dice.len(),
{
    if dice.len() == 0 {
        Seq::empty()
    } else {
        let before = first_occurrences(dice.drop_last());
        if before.contains(dice.last()) {
            before
        } else {
            before.push(dice.last())
        }
    }
}

/// The sum of the totals in `entries`.
pub open spec fn sum_of_totals(entries: Seq<(Dice, u64)>) -> nat
    decreases entries.len(),
{
    if entries.len() == 0 {
        0
    } else {
        sum_of_totals(entries.drop_last()) + entries.last().1 as nat
    }
}

/// The sum of the greatest totals of `dice`.
pub open spec fn sum_of_max(dice: Seq<Dice>) -> nat
    decreases dice.len(),
{
    if dice.len() == 0 {
        0
    } else {
        sum_of_max(dice.drop_last()) + dice.last().max_total()
    }
}

/// Every die of `dice` can be thrown, and the sum of all totals cannot overflow.
pub open spec fn can_be_rolled(dice: Seq<Dice>) -> bool {
    &&& forall|i: int| 0 <= i < dice.len() ==> (#[trigger] dice[i]).rollable()
    &&& sum_of_max(dice) <= u64::MAX
}

/// `first_occurrences` keeps exactly the entries of its argument, each once.
pub proof fn lemma_first_occurrences(dice: Seq<Dice>)
    ensures
        first_occurrences(dice).no_duplicates(),
        first_occurrences(dice).len() <= dice.len(),
        forall|d: Dice| first_occurrences(dice).contains(d) <==> dice.contains(d),
    decreases dice.len(),
{
    if dice.len() > 0 {
        let front = dice.drop_last();
        let before = first_occurrences(front);
        lemma_first_occurrences(front);
        assert forall|d: Dice| first_occurrences(dice).contains(d) <==> dice.contains(d) by {
            if dice.contains(d) {
                let i = choose|i: int| 0 <= i < dice.len() && dice[i] == d;
                if i < dice.len() - 1 {
                    assert(front[i] == d);
                    assert(front.contains(d));
                    assert(before.contains(d));
                    let j = choose|j: int| 0 <= j < before.len() && before[j] == d;
                    assert(first_occurrences(dice)[j] == d);
                } else {
                    if before.contains(d) {
                    } else {
                        assert(first_occurrences(dice)[before.len() as int] == d);
                    }
                }
            }
            if first_occurrences(dice).contains(d) {
                let j = choose|j: int|
                    0 <= j < first_occurrences(dice).len() && first_occurrences(dice)[j] == d;
                if j < before.len() {
                    assert(before[j] == d);
                    assert(before.contains(d));
                    assert(front.contains(d));
                    let i = choose|i: int| 0 <= i < front.len() && front[i] == d;
                    assert(dice[i] == d);
                } else {
                    assert(dice[dice.len() - 1] == d);
                }
            }
        }
    }
}

/// A set of dice with the total that each entry gave at the last throw, and the sum of
/// those totals. No entry occurs twice.
#[derive(Clone, Debug)]
pub struct DiceSet {
    pub dice_map: Vec<(Dice, u64)>,
    pub result: u64,
}

impl DiceSet {
    /// The dice of the set, in the order in which they are held.
    pub open spec fn dice(self) -> Seq<Dice> {
        self.dice_map@.map_values(|entry: (Dice, u64)| entry.0)
    }

    /// No entry occurs twice.
    pub open spec fn wf(self) -> bool {
        self.dice().no_duplicates()
    }

    /// Every entry can be thrown, and the sum of all totals cannot overflow.
    pub open spec fn rollable(self) -> bool {
        can_be_rolled(self.dice())
    }

    /// Whether the set can be thrown.
    pub fn can_roll(&self) -> (can: bool)
        ensures
            can == self.rollable(),
    {
        let mut sum: u128 = 0;
        let mut i: usize = 0;
        while i < self.dice_map.len()
            invariant
                i <= self.dice_map.len(),
                can_be_rolled(self.dice().take(i as int)),
                sum == sum_of_max(self.dice().take(i as int)),
            decreases self.dice_map.len() - i,
        {
            let dice = self.dice_map[i].0;
            proof {
                assert(self.dice()[i as int] == dice);
                assert(self.dice().take(i as int + 1).drop_last() == self.dice().take(i as int));
                assert(self.dice().take(i as int + 1).last() == dice);
                lemma_sum_of_max_prefix(self.dice(), i as int + 1);
                assert(dice.dice_count as nat * dice.face as nat <= 0xffff_ffff_ffff_ffff
                    * 0xffff_ffff_ffff_ffff) by (nonlinear_arith)
                    requires
                        dice.dice_count as nat <= 0xffff_ffff_ffff_ffff,
                        dice.face as nat <= 0xffff_ffff_ffff_ffff,
                ;
            }
            let modifier: u128 = match dice.modifier {
                Some(m) => m as u128,
                None => 0,
            };
            let most: u128 = (dice.dice_count as u128) * (dice.face as u128) + modifier;
            if (dice.dice_count > 0 && dice.face == 0) || most > u64::MAX as u128 || sum + most
                > u64::MAX as u128 {
                return false;
            }
            sum = sum + most;
            i = i + 1;
        }
        proof {
            assert(self.dice().take(i as int) == self.dice());
        }
        true
    }

    /// The set of the distinct entries of `dice`, none thrown yet.
    pub fn new(dice: &[Dice]) -> (set: DiceSet)
        ensures
            set.wf(),
            set.dice() == first_occurrences(dice@),
            forall|i: int| 0 <= i < set.dice_map@.len() ==> (#[trigger] set.dice_map@[i]).1 == 0,
            set.result == 0,
    {
        let mut dice_map: Vec<(Dice, u64)> = Vec::new();
        let mut i: usize = 0;
        while i < dice.len()
            invariant
                i <= dice.len(),
                dice_map@.map_values(|entry: (Dice, u64)| entry.0) == first_occurrences(
                    dice@.take(i as int),
                ),
                forall|k: int| 0 <= k < dice_map@.len() ==> (#[trigger] dice_map@[k]).1 == 0,
            decreases dice.len() - i,
        {
            let next = dice[i];
            let ghost held = dice_map@.map_values(|entry: (Dice, u64)| entry.0);
            let mut found = false;
            let mut k: usize = 0;
            while k < dice_map.len()
                invariant
                    k <= dice_map.len(),
                    held == dice_map@.map_values(|entry: (Dice, u64)| entry.0),
                    found == held.take(k as int).contains(next),
                decreases dice_map.len() - k,
            {
                let same = dice_map[k].0.same_as(&next);
                proof {
                    let upto = held.take(k as int);
                    let more = held.take(k as int + 1);
                    assert(more == upto.push(held[k as int]));
                    assert(held[k as int] == dice_map@[k as int].0);
                    if upto.contains(next) {
                        let w = choose|w: int| 0 <= w < upto.len() && upto[w] == next;
                        assert(more[w] == next);
                    }
                    if same {
                        assert(more[k as int] == next);
                    }
                    if more.contains(next) && !same {
                        let w = choose|w: int| 0 <= w < more.len() && more[w] == next;
                        assert(upto[w] == next);
                    }
                }
                if same {
                    found = true;
                }
                k = k + 1;
            }
            proof {
                assert(held.take(k as int) == held);
                assert(dice@.take(i as int + 1).drop_last() == dice@.take(i as int));
                assert(dice@.take(i as int + 1).last() == next);
            }
            if !found {
                dice_map.push((next, 0));
                proof {
                    assert(dice_map@.map_values(|entry: (Dice, u64)| entry.0) == held.push(next));
                }
            }
            i = i + 1;
        }
        proof {
            assert(dice@.take(i as int) == dice@);
            lemma_first_occurrences(dice@);
        }
        DiceSet { dice_map, result: 0 }
    }

    /// Throws every entry of the set, and sums the totals.
    pub fn roll(&mut self)
        requires
            old(self).rollable(),
        ensures
            final(self).dice() == old(self).dice(),
            forall|i: int|
                0 <= i < final(self).dice_map@.len() ==> {
                    let entry = #[trigger] final(self).dice_map@[i];
                    entry.0.min_total() <= entry.1 <= entry.0.max_total()
                },
            final(self).result == sum_of_totals(final(self).dice_map@),
    {
        let mut thrown: Vec<(Dice, u64)> = Vec::new();
        let mut sum: u64 = 0;
        let mut i: usize = 0;
        while i < self.dice_map.len()
            invariant
                i <= self.dice_map.len(),
                self.rollable(),
                *self == *old(self),
                thrown@.len() == i,
                forall|k: int| 0 <= k < i ==> (#[trigger] thrown@[k]).0 == self.dice_map@[k].0,
                forall|k: int|
                    0 <= k < i ==> {
                        let entry = #[trigger] thrown@[k];
                        entry.0.min_total() <= entry.1 <= entry.0.max_total()
                    },
                sum == sum_of_totals(thrown@),
                sum <= sum_of_max(self.dice().take(i as int)),
            decreases self.dice_map.len() - i,
        {
            let dice = self.dice_map[i].0;
            proof {
                assert(self.dice()[i as int] == dice);
                lemma_sum_of_max_prefix(self.dice(), i as int + 1);
                assert(self.dice().take(i as int + 1).drop_last() == self.dice().take(i as int));
                assert(self.dice().take(i as int + 1).last() == dice);
            }
            let total = dice.roll();
            let ghost before = thrown@;
            thrown.push((dice, total));
            proof {
                assert(thrown@.drop_last() == before);
            }
            sum = sum + total;
            i = i + 1;
        }
        proof {
            assert(thrown@.map_values(|entry: (Dice, u64)| entry.0) == old(self).dice());
        }
        self.dice_map = thrown;
        self.result = sum;
    }
}

/// The greatest totals of a prefix sum to no more than those of the whole.
pub proof fn lemma_sum_of_max_prefix(dice: Seq<Dice>, n: int)
    requires
        0 <= n <= dice.len(),
    ensures
        sum_of_max(dice.take(n)) <= sum_of_max(dice),
    decreases dice.len(),
{
    if n < dice.len() {
        lemma_sum_of_max_prefix(dice.drop_last(), n);
        assert(dice.drop_last().take(n) == dice.take(n));
    } else {
        assert(dice.take(n) == dice);
    }
}

} // verus!
