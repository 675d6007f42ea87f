//! Reading dice from text and throwing them. A die is written `<count>d<face>`, with
//! `+<modifier>` behind it where a constant is added; the numbers are unsigned decimals.

use crate::dice_set::{first_occurrences, Dice, DiceSet};
use crate::text::{
    is_u64_text, lowercase_text, parse_u64, split_at_only, split_once, to_lowercase,
    u64_parse_error, u64_value,
};
use std::num::ParseIntError;
use vstd::prelude::*;
use vstd::string::StringExecFns;

verus! {

/// Why a text was not read as dice, or why dice that were read cannot be thrown.
#[derive(Debug, PartialEq, Eq)]
pub enum DiceError {
    ParseDiceCountError(ParseIntError),
    ParseFaceError(ParseIntError),
    ParseModifierError(ParseIntError),
    InvalidDiceString(String),
    /// A die has no face to show, or the total of the throw does not fit in a `u64`.
    CannotRoll,
}

/// A `DiceError` with its text as a sequence of characters.
pub enum DiceErrorView {
    ParseDiceCountError(ParseIntError),
    ParseFaceError(ParseIntError),
    ParseModifierError(ParseIntError),
    InvalidDiceString(Seq<char>),
    CannotRoll,
}

impl View for DiceError {
    type V = DiceErrorView;

    open spec fn view(&self) -> DiceErrorView {
        match *self {
            DiceError::ParseDiceCountError(e) => DiceErrorView::ParseDiceCountError(e),
            DiceError::ParseFaceError(e) => DiceErrorView::ParseFaceError(e),
            DiceError::ParseModifierError(e) => DiceErrorView::ParseModifierError(e),
            DiceError::InvalidDiceString(s) => DiceErrorView::InvalidDiceString(s@),
            DiceError::CannotRoll => DiceErrorView::CannotRoll,
        }
    }
}

/// A result with its error taken by its view.
pub open spec fn outcome<T>(result: Result<T, DiceError>) -> Result<T, DiceErrorView> {
    match result {
        Ok(value) => Ok(value),
        Err(error) => Err(error@),
    }
}

/// The count and the face that the lower-case text `lowered` writes. `given` is the text
/// before it was put in lower case, which the error for a malformed text carries.
pub open spec fn count_and_face_of(lowered: Seq<char>, given: Seq<char>) -> Result<
    (u64, u64),
    DiceErrorView,
> {
    match split_once(lowered, 'd') {
        None => Err(DiceErrorView::InvalidDiceString(given)),
        Some((count, face)) => {
            if !is_u64_text(count) {
                Err(DiceErrorView::ParseDiceCountError(u64_parse_error(count)))
            } else if !is_u64_text(face) {
                Err(DiceErrorView::ParseFaceError(u64_parse_error(face)))
            } else {
                Ok((u64_value(count) as u64, u64_value(face) as u64))
            }
        },
    }
}

/// The die that `text` writes.
pub open spec fn dice_of(text: Seq<char>) -> Result<Dice, DiceErrorView> {
    if !text.contains('+') {
        match count_and_face_of(lowercase_text(text), text) {
            Ok((dice_count, face)) => Ok(Dice { dice_count, face, modifier: None }),
            Err(error) => Err(error),
        }
    } else {
        match split_once(text, '+') {
            None => Err(DiceErrorView::InvalidDiceString(text)),
            Some((dice, modifier)) => match count_and_face_of(lowercase_text(dice), dice) {
                Err(error) => Err(error),
                Ok((dice_count, face)) => {
                    if !is_u64_text(modifier) {
                        Err(DiceErrorView::ParseModifierError(u64_parse_error(modifier)))
                    } else {
                        Ok(
                            Dice {
                                dice_count,
                                face,
                                modifier: Some(u64_value(modifier) as u64),
                            },
                        )
                    }
                },
            },
        }
    }
}

/// The dice that the first `n` of `texts` write, or the error of the first text among
/// them that writes none.
pub open spec fn dice_of_all(texts: Seq<String>, n: int) -> Result<Seq<Dice>, DiceErrorView>
    decreases n,
{
    if n <= 0 {
        Ok(Seq::empty())
    } else {
        match dice_of_all(texts, n - 1) {
            Err(error) => Err(error),
            Ok(dice) => match dice_of(texts[n - 1]@) {
                Err(error) => Err(error),
                Ok(next) => Ok(dice.push(next)),
            },
        }
    }
}

/// Whoever throws the dice that texts write.
pub trait DiceInterface {
    fn roll(&self, dice_sets: Vec<String>) -> Result<DiceSet, DiceError>;
}

/// Reads dice from text and throws them with the random numbers of the process.
pub struct DiceImplementation {}

impl DiceImplementation {
    pub fn new() -> (dice: DiceImplementation) {
        DiceImplementation {  }
    }

    /// Reads the count and the face from `lowered`, the lower-case form of `dice_string`.
    pub fn parse_lowered_count_and_face(&self, lowered: &str, dice_string: &str) -> (parsed:
        Result<(u64, u64), DiceError>)
        ensures
            outcome(parsed) == count_and_face_of(lowered@, dice_string@),
    {
        match split_at_only(lowered, 'd') {
            None => Err(DiceError::InvalidDiceString(String::from_str(dice_string))),
            Some((count, face)) => {
                let dice_count = match parse_u64(count) {
                    Ok(dice_count) => dice_count,
                    Err(error) => { return Err(DiceError::ParseDiceCountError(error)); },
                };
                let face = match parse_u64(face) {
                    Ok(face) => face,
                    Err(error) => { return Err(DiceError::ParseFaceError(error)); },
                };
                Ok((dice_count, face))
            },
        }
    }

    /// Reads the count and the face of `<count>d<face>`, in either case of the `d`.
    pub fn parse_dice_count_and_face(&self, dice_string: &str) -> (parsed: Result<
        (u64, u64),
        DiceError,
    >)
        ensures
            outcome(parsed) == count_and_face_of(lowercase_text(dice_string@), dice_string@),
    {
        let lowered = to_lowercase(dice_string);
        self.parse_lowered_count_and_face(lowered.as_str(), dice_string)
    }

    /// Reads one die, with or without a modifier.
    pub fn parse_dice_string(&self, dice_string: &str) -> (parsed: Result<Dice, DiceError>)
        ensures
            outcome(parsed) == dice_of(dice_string@),
    {
        match crate::text::find_from(dice_string, '+', 0) {
            None => {
                assert(!dice_string@.contains('+'));
                match self.parse_dice_count_and_face(dice_string) {
                    Ok((dice_count, face)) => Ok(Dice { dice_count, face, modifier: None }),
                    Err(error) => Err(error),
                }
            },
            Some(at) => {
                assert(dice_string@.contains('+')) by {
                    assert(dice_string@[at as int] == '+');
                }
                match split_at_only(dice_string, '+') {
                    None => Err(DiceError::InvalidDiceString(String::from_str(dice_string))),
                    Some((dice, modifier)) => {
                        let (dice_count, face) = match self.parse_dice_count_and_face(dice) {
                            Ok(pair) => pair,
                            Err(error) => { return Err(error); },
                        };
                        match parse_u64(modifier) {
                            Ok(modifier) => Ok(
                                Dice { dice_count, face, modifier: Some(modifier) },
                            ),
                            Err(error) => Err(DiceError::ParseModifierError(error)),
                        }
                    },
                }
            },
        }
    }

    /// Reads every text of `dice_set_string`, and makes the set of the dice they write.
    /// The first text that writes no die gives the error.
    pub fn parse(&self, dice_set_string: Vec<String>) -> (parsed: Result<DiceSet, DiceError>)
        ensures
            match parsed {
                Ok(set) => {
                    &&& dice_of_all(dice_set_string@, dice_set_string@.len() as int) is Ok
                    &&& set.dice() == first_occurrences(
                        dice_of_all(dice_set_string@, dice_set_string@.len() as int)->Ok_0,
                    )
                    &&& set.wf()
                    &&& set.result == 0
                    &&& forall|i: int|
                        0 <= i < set.dice_map@.len() ==> (#[trigger] set.dice_map@[i]).1 == 0
                },
                Err(error) => dice_of_all(dice_set_string@, dice_set_string@.len() as int)
                    == Err::<Seq<Dice>, DiceErrorView>(error@),
            },
    {
        let mut dice_vec: Vec<Dice> = Vec::new();
        let mut i: usize = 0;
        while i < dice_set_string.len()
            invariant
                i <= dice_set_string.len(),
                dice_of_all(dice_set_string@, i as int) == Ok::<Seq<Dice>, DiceErrorView>(
                    dice_vec@,
                ),
            decreases dice_set_string.len() - i,
        {
            match self.parse_dice_string(dice_set_string[i].as_str()) {
                Ok(dice) => {
                    dice_vec.push(dice);
                },
                Err(error) => {
                    proof {
                        lemma_first_error_stays(
                            dice_set_string@,
                            i as int + 1,
                            dice_set_string@.len() as int,
                        );
                    }
                    return Err(error);
                },
            }
            i = i + 1;
        }
        Ok(DiceSet::new(dice_vec.as_slice()))
    }
}

/// A shorter name for the reader and thrower of dice.
pub type DiceRoll = DiceImplementation;

/// A shorter name for the errors of reading and throwing dice.
pub type DiceRollError = DiceError;

/// Once a text has given an error, more texts behind it change nothing.
pub proof fn lemma_first_error_stays(texts: Seq<String>, n: int, m: int)
    requires
        0 <= n <= m,
        dice_of_all(texts, n) is Err,
    ensures
        dice_of_all(texts, m) == dice_of_all(texts, n),
    decreases m - n,
{
    if n < m {
        lemma_first_error_stays(texts, n, m - 1);
    }
}

impl DiceInterface for DiceImplementation {
    /// Reads the dice and throws them. Dice that were read but cannot be thrown give
    /// `CannotRoll`.
    fn roll(&self, dice_set_string: Vec<String>) -> (rolled: Result<DiceSet, DiceError>)
        ensures
            match rolled {
                Ok(set) => {
                    &&& dice_of_all(dice_set_string@, dice_set_string@.len() as int) is Ok
                    &&& set.dice() == first_occurrences(
                        dice_of_all(dice_set_string@, dice_set_string@.len() as int)->Ok_0,
                    )
                    &&& set.rollable()
                    &&& set.result == crate::dice_set::sum_of_totals(set.dice_map@)
                    &&& forall|i: int|
                        0 <= i < set.dice_map@.len() ==> {
                            let entry = #[trigger] set.dice_map@[i];
                            entry.0.min_total() <= entry.1 <= entry.0.max_total()
                        }
                },
                Err(error) => match dice_of_all(dice_set_string@, dice_set_string@.len() as int) {
                    Err(parse_error) => error@ == parse_error,
                    Ok(dice) => error@ == DiceErrorView::CannotRoll && !crate::dice_set::can_be_rolled(
                        first_occurrences(dice),
                    ),
                },
            },
    {
        let mut dice_set = match self.parse(dice_set_string) {
            Ok(dice_set) => dice_set,
            Err(error) => { return Err(error); },
        };
        if !dice_set.can_roll() {
            return Err(DiceError::CannotRoll);
        }
        dice_set.roll();
        Ok(dice_set)
    }
}

impl Default for DiceImplementation {
    fn default() -> (dice: DiceImplementation) {
        DiceImplementation::new()
    }
}

} // verus!
