//! The sex of a generated person.

use crate::random::{pick_at, random_bool, random_index};
use vstd::prelude::*;

verus! {

#[derive(Clone, Copy, Debug, PartialEq, Eq, Hash, Structural)]
pub enum Sex {
    Female,
    Male,
}

impl Sex {
    /// The lowercase word that stands for the sex in output and in the address of the name
    /// list.
    pub open spec fn spec_token(self) -> Seq<char> {
        match self {
            Sex::Female => "female"@,
            Sex::Male => "male"@,
        }
    }

    pub fn token(&self) -> (r: &'static str)
        ensures
            r@ == self.spec_token(),
    {
        match self {
            Sex::Female => "female",
            Sex::Male => "male",
        }
    }

    /// The sex that a side of a coin stands for: heads is female, tails is male.
    pub open spec fn of_coin(heads: bool) -> Sex {
        if heads {
            Sex::Female
        } else {
            Sex::Male
        }
    }

    /// The sex that a coin flip stands for: heads is female, tails is male.
    pub fn from_coin(heads: bool) -> (r: Self)
        ensures
            r == Sex::of_coin(heads),
    {
        if heads {
            Sex::Female
        } else {
            Sex::Male
        }
    }

    /// The two sexes, in the order in which they stand when one of them is drawn.
    pub open spec fn both() -> Seq<Sex> {
        seq![Sex::Female, Sex::Male]
    }

    /// The sex that stands at a place among the two: female at the first, male at the second.
    pub fn from_index(index: usize) -> (r: Self)
        requires
            index < Sex::both().len(),
        ensures
            r == Sex::both()[index as int],
    {
        let both = [Sex::Female, Sex::Male];
        assert(both@ == Sex::both());
        *pick_at(&both, index)
    }

    /// Draws a sex by the flip of a fair coin.
    pub fn sample() -> Self {
        Self::from_coin(random_bool())
    }

    /// Draws a sex, each of the two with the same chance.
    pub fn gen() -> (r: Self)
        ensures
            Sex::both().contains(r),
    {
        gen_sex()
    }
}

/// Draws a sex, each of the two with the same chance: it draws one of the two places of
/// [`Sex::both`].
pub fn gen_sex() -> (r: Sex)
    ensures
        Sex::both().contains(r),
{
    Sex::from_index(random_index(2))
}

/// Both sexes can be drawn: each stands at a place of its own among the two that a draw
/// chooses from, and a coin shows each of them on one of its sides.
pub proof fn lemma_both_sexes_are_drawn(sex: Sex)
    ensures
        Sex::both().len() == 2,
        Sex::both()[0] == Sex::Female,
        Sex::both()[1] == Sex::Male,
        Sex::both().contains(sex),
        exists|index: int| 0 <= index < Sex::both().len() && Sex::both()[index] == sex,
        exists|heads: bool| Sex::of_coin(heads) == sex,
{
    match sex {
        Sex::Female => {
            assert(Sex::both()[0] == sex);
            assert(Sex::of_coin(true) == sex);
        },
        Sex::Male => {
            assert(Sex::both()[1] == sex);
            assert(Sex::of_coin(false) == sex);
        },
    }
}

} // verus!
