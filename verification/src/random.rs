//! Random choices, drawn from the thread-local generator of the `rand` crate.
//!
//! The four functions that call `rand` are not proved: each states what
//! `rand` documents of the call it makes, and the rest of the library is
//! verified against that.

use rand::Rng;
use rand::seq::SliceRandom;
use vstd::prelude::*;

verus! {

/// A chance of `numerator` in `denominator`, with `numerator <= denominator` and a
/// `denominator` that is not zero.
#[derive(Clone, Copy, Debug)]
pub struct Probability {
    numerator: u32,
    denominator: u32,
}

impl Probability {
    #[verifier::type_invariant]
    spec fn well_formed(self) -> bool {
        self.denominator > 0 && self.numerator <= self.denominator
    }

    /// The number of favourable cases.
    pub closed spec fn numerator(self) -> nat {
        self.numerator as nat
    }

    /// The number of cases.
    pub closed spec fn denominator(self) -> nat {
        self.denominator as nat
    }

    /// The event never happens.
    pub open spec fn is_never(self) -> bool {
        self.numerator() == 0
    }

    /// The event always happens.
    pub open spec fn is_always(self) -> bool {
        self.numerator() == self.denominator()
    }

    /// A chance of `numerator` in `denominator`, or `None` where that is no
    /// probability: the denominator is zero or smaller than the numerator.
    pub fn new(numerator: u32, denominator: u32) -> (r: Option<Probability>)
        ensures
            r is Some <==> denominator > 0 && numerator <= denominator,
            r matches Some(p) ==> p.numerator() == numerator && p.denominator() == denominator,
    {
        if denominator > 0 && numerator <= denominator {
            Some(Probability { numerator, denominator })
        } else {
            None
        }
    }

    /// The probability of an event that never happens.
    pub fn never() -> (p: Probability)
        ensures
            p.numerator() == 0,
            p.denominator() == 1,
    {
        Probability { numerator: 0, denominator: 1 }
    }

    /// The probability of an event that always happens.
    pub fn always() -> (p: Probability)
        ensures
            p.numerator() == 1,
            p.denominator() == 1,
    {
        Probability { numerator: 1, denominator: 1 }
    }

    /// The probability of a fair coin showing heads.
    pub fn half() -> (p: Probability)
        ensures
            p.numerator() == 1,
            p.denominator() == 2,
    {
        Probability { numerator: 1, denominator: 2 }
    }

    /// Decides at random whether the event happens this time.
    ///
    /// The outcome is fixed only at the two ends of the scale.
    pub fn sample(&self) -> (happened: bool)
        ensures
            self.is_never() ==> !happened,
            self.is_always() ==> happened,
    {
        proof {
            use_type_invariant(self);
        }
        random_ratio(self.numerator, self.denominator)
    }
}

/// Calls `Rng::gen_ratio` on the thread-local generator.
///
/// `rand` documents that the call panics on a zero denominator or a numerator
/// above it, that it returns `true` when both are equal and `false` when the
/// numerator is zero. Nothing is claimed of the outcomes in between.
#[verifier::external_body]
fn random_ratio(numerator: u32, denominator: u32) -> (happened: bool)
    requires
        denominator > 0,
        numerator <= denominator,
    ensures
        numerator == 0 ==> !happened,
        numerator == denominator ==> happened,
{
    rand::thread_rng().gen_ratio(numerator, denominator)
}

/// Calls `Rng::gen_range` on the thread-local generator, with the half-open
/// range from zero to `bound`.
///
/// `rand` documents that the call panics on an empty range and returns a value
/// inside the range otherwise.
#[verifier::external_body]
pub(crate) fn random_index(bound: usize) -> (index: usize)
    requires
        bound > 0,
    ensures
        index < bound,
{
    rand::thread_rng().gen_range(0..bound)
}

/// Calls `SliceRandom::shuffle` on the thread-local generator.
///
/// The call swaps elements of the slice in place, so afterwards the vector
/// holds the same elements as before, each as often as before. Nothing is
/// claimed of their order.
#[verifier::external_body]
pub(crate) fn shuffle<T>(items: &mut Vec<T>)
    ensures
        final(items)@.to_multiset() == old(items)@.to_multiset(),
{
    items.shuffle(&mut rand::thread_rng());
}

/// Calls `SliceRandom::choose` on the thread-local generator.
///
/// `rand` documents that the call returns `None` for an empty slice and one of
/// the slice's elements otherwise. Nothing is claimed of which one.
#[verifier::external_body]
pub(crate) fn choose_one<T: Copy>(items: &Vec<T>) -> (chosen: Option<T>)
    ensures
        items@.len() == 0 ==> chosen is None,
        items@.len() > 0 ==> chosen is Some && items@.contains(chosen->0),
{
    items.choose(&mut rand::thread_rng()).copied()
}

} // verus!
