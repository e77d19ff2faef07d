use vstd::prelude::*;

use crate::domain::{DrawHandicap, OfferType, Outcome, Side, WinHandicap};
use crate::lookup::{distinct, holds, lemma_distinct_within_is_shorter, HashLookup, Keyed};
use crate::text::{decimal_text, offer_type_text, outcome_text, push_decimal, push_offer_type, push_outcome};

verus! {

/// Every element of `needles` is held in `hay`.
pub open spec fn all_held(needles: Seq<Outcome>, hay: Seq<Outcome>) -> bool {
    forall|i: int| 0 <= i < needles.len() ==> holds(hay, #[trigger] needles[i])
}

/// `k` is the first position of `needles` whose element `hay` lacks.
pub open spec fn first_unheld(needles: Seq<Outcome>, hay: Seq<Outcome>, k: int) -> bool {
    &&& 0 <= k < needles.len()
    &&& !holds(hay, needles[k])
    &&& forall|j: int| 0 <= j < k ==> holds(hay, #[trigger] needles[j])
}

/// The number of outcomes differs from the number of probabilities.
#[derive(Debug)]
pub struct MisalignedOffer {
    pub outcomes: usize,
    pub probs: usize,
    pub offer_type: OfferType,
}

impl MisalignedOffer {
    pub open spec fn message(self) -> Seq<char> {
        decimal_text(self.outcomes as nat) + ":"@ + decimal_text(self.probs as nat)
            + " outcomes:probabilities mapped for "@ + offer_type_text(self.offer_type)
    }

    pub fn to_string(&self) -> (text: String)
        ensures
            text@ == self.message(),
    {
        let mut text = String::new();
        push_decimal(&mut text, self.outcomes as u64);
        text.append(":");
        push_decimal(&mut text, self.probs as u64);
        text.append(" outcomes:probabilities mapped for ");
        push_offer_type(&mut text, &self.offer_type);
        proof {
            assert(text@ =~= self.message());
        }
        text
    }
}

pub struct OfferAlignmentAssertion;

impl OfferAlignmentAssertion {
    /// Checks that an offer has one probability per outcome; `probs` is the
    /// number of probabilities.
    pub fn check(outcomes: &[Outcome], probs: usize, offer_type: &OfferType) -> (result: Result<
        (),
        MisalignedOffer,
    >)
        ensures
            result is Ok <==> outcomes@.len() == probs,
            result matches Err(e) ==> e == (MisalignedOffer {
                outcomes: outcomes@.len() as usize,
                probs,
                offer_type: *offer_type,
            }),
    {
        if outcomes.len() != probs {
            Err(MisalignedOffer { outcomes: outcomes.len(), probs, offer_type: *offer_type })
        } else {
            Ok(())
        }
    }
}

/// An outcome that the offer type requires is absent.
#[derive(Debug)]
pub struct MissingOutcome {
    pub outcome: Outcome,
    pub offer_type: OfferType,
}

impl MissingOutcome {
    pub open spec fn message(self) -> Seq<char> {
        outcome_text(self.outcome) + " missing from "@ + offer_type_text(self.offer_type)
    }

    pub fn to_string(&self) -> (text: String)
        ensures
            text@ == self.message(),
    {
        let mut text = String::new();
        push_outcome(&mut text, &self.outcome);
        text.append(" missing from ");
        push_offer_type(&mut text, &self.offer_type);
        proof {
            assert(text@ =~= self.message());
        }
        text
    }
}

/// An outcome that does not belong to the offer type.
#[derive(Debug)]
pub struct ExtraneousOutcome {
    pub outcome: Outcome,
    pub offer_type: OfferType,
}

impl ExtraneousOutcome {
    pub open spec fn message(self) -> Seq<char> {
        outcome_text(self.outcome) + " does not belong in "@ + offer_type_text(self.offer_type)
    }

    pub fn to_string(&self) -> (text: String)
        ensures
            text@ == self.message(),
    {
        let mut text = String::new();
        push_outcome(&mut text, &self.outcome);
        text.append(" does not belong in ");
        push_offer_type(&mut text, &self.offer_type);
        proof {
            assert(text@ =~= self.message());
        }
        text
    }
}

#[derive(Debug)]
pub enum InvalidOutcome {
    MissingOutcome(MissingOutcome),
    ExtraneousOutcome(ExtraneousOutcome),
}

impl InvalidOutcome {
    pub open spec fn message(self) -> Seq<char> {
        match self {
            InvalidOutcome::MissingOutcome(e) => e.message(),
            InvalidOutcome::ExtraneousOutcome(e) => e.message(),
        }
    }

    pub fn to_string(&self) -> (text: String)
        ensures
            text@ == self.message(),
    {
        match self {
            InvalidOutcome::MissingOutcome(e) => e.to_string(),
            InvalidOutcome::ExtraneousOutcome(e) => e.to_string(),
        }
    }
}

/// The earlier name of [`InvalidOutcome`].
pub type IncompleteOutcomes = InvalidOutcome;

/// An offer type whose parameters do not describe a real offer.
#[derive(Debug)]
pub struct InvalidOfferType {
    pub offer_type: OfferType,
}

impl InvalidOfferType {
    pub open spec fn message(self) -> Seq<char> {
        offer_type_text(self.offer_type) + " is not a valid offer type"@
    }

    pub fn to_string(&self) -> (text: String)
        ensures
            text@ == self.message(),
    {
        let mut text = String::new();
        push_offer_type(&mut text, &self.offer_type);
        text.append(" is not a valid offer type");
        text
    }
}

/// Requires every one of `outcomes` to be present.
#[derive(Debug)]
pub struct OutcomesIntactAssertion<'a> {
    pub outcomes: &'a [Outcome],
}

impl<'a> OutcomesIntactAssertion<'a> {
    pub fn check(&self, outcomes: &HashLookup<Outcome>, offer_type: &OfferType) -> (result: Result<
        (),
        MissingOutcome,
    >)
        ensures
            result is Ok <==> all_held(self.outcomes@, outcomes@),
            result matches Err(e) ==> e.offer_type == *offer_type && exists|k: int|
                first_unheld(self.outcomes@, outcomes@, k) && e.outcome == self.outcomes@[k],
    {
        let mut i: usize = 0;
        while i < self.outcomes.len()
            invariant
                0 <= i <= self.outcomes@.len(),
                forall|j: int| 0 <= j < i ==> holds(outcomes@, #[trigger] self.outcomes@[j]),
            decreases self.outcomes@.len() - i,
        {
            if outcomes.index_of(&self.outcomes[i]).is_none() {
                assert(first_unheld(self.outcomes@, outcomes@, i as int));
                return Err(
                    MissingOutcome { outcome: self.outcomes[i].clone(), offer_type: *offer_type },
                );
            }
            i = i + 1;
        }
        Ok(())
    }
}

/// Requires every outcome to satisfy `matcher`.
pub struct OutcomesMatchAssertion<F: Fn(&Outcome) -> bool> {
    pub matcher: F,
}

impl<F: Fn(&Outcome) -> bool> OutcomesMatchAssertion<F> {
    pub fn check(&mut self, outcomes: &[Outcome], offer_type: &OfferType) -> (result: Result<
        (),
        ExtraneousOutcome,
    >)
        requires
            forall|i: int|
                0 <= i < outcomes@.len() ==> call_requires(
                    old(self).matcher,
                    (&#[trigger] outcomes@[i],),
                ),
        ensures
            *final(self) == *old(self),
            result is Ok ==> forall|i: int|
                0 <= i < outcomes@.len() ==> call_ensures(
                    old(self).matcher,
                    (&#[trigger] outcomes@[i],),
                    true,
                ),
            result matches Err(e) ==> e.offer_type == *offer_type && exists|k: int|
                0 <= k < outcomes@.len() && e.outcome == outcomes@[k] && call_ensures(
                    old(self).matcher,
                    (&outcomes@[k],),
                    false,
                ) && forall|j: int|
                    0 <= j < k ==> call_ensures(old(self).matcher, (&#[trigger] outcomes@[j],), true),
    {
        let mut i: usize = 0;
        while i < outcomes.len()
            invariant
                0 <= i <= outcomes@.len(),
                *self == *old(self),
                forall|j: int|
                    0 <= j < outcomes@.len() ==> call_requires(
                        self.matcher,
                        (&#[trigger] outcomes@[j],),
                    ),
                forall|j: int|
                    0 <= j < i ==> call_ensures(self.matcher, (&#[trigger] outcomes@[j],), true),
            decreases outcomes@.len() - i,
        {
            let matched = (self.matcher)(&outcomes[i]);
            if !matched {
                return Err(
                    ExtraneousOutcome { outcome: outcomes[i].clone(), offer_type: *offer_type },
                );
            }
            i = i + 1;
        }
        Ok(())
    }
}

/// What checking that `given` holds exactly the outcomes `expected` answers:
/// the first expected outcome that is missing; else, where the counts
/// differ, the first given outcome that is not expected; else success.
pub open spec fn completeness_verdict(
    expected: Seq<Outcome>,
    given: Seq<Outcome>,
    offer_type: OfferType,
    result: Result<(), InvalidOutcome>,
) -> bool {
    &&& result is Ok <==> all_held(expected, given) && given.len() == expected.len()
    &&& !all_held(expected, given) ==> (result matches Err(InvalidOutcome::MissingOutcome(e))
        && e.offer_type == offer_type && exists|k: int|
        first_unheld(expected, given, k) && e.outcome == expected[k])
    &&& all_held(expected, given) && given.len() != expected.len() ==> (result matches Err(
        InvalidOutcome::ExtraneousOutcome(e),
    ) && e.offer_type == offer_type && exists|k: int|
        first_unheld(given, expected, k) && e.outcome == given[k])
}

/// Requires exactly `outcomes` to be present: none missing, none extra.
#[derive(Debug)]
pub struct OutcomesCompleteAssertion<'a> {
    pub outcomes: &'a [Outcome],
}

impl<'a> OutcomesCompleteAssertion<'a> {
    /// The inputs that leave the assertion undecided: all required outcomes
    /// present and every present outcome required, yet the counts differ
    /// (the required outcomes repeat a key).
    pub open spec fn undecided(self, outcomes: Seq<Outcome>) -> bool {
        &&& all_held(self.outcomes@, outcomes)
        &&& outcomes.len() != self.outcomes@.len()
        &&& all_held(outcomes, self.outcomes@)
    }

    pub fn check(&self, outcomes: &HashLookup<Outcome>, offer_type: &OfferType) -> (result: Result<
        (),
        InvalidOutcome,
    >)
        requires
            !self.undecided(outcomes@),
        ensures
            completeness_verdict(self.outcomes@, outcomes@, *offer_type, result),
    {
        match (OutcomesIntactAssertion { outcomes: self.outcomes }).check(outcomes, offer_type) {
            Err(e) => {
                return Err(InvalidOutcome::MissingOutcome(e));
            },
            Ok(()) => {},
        }
        if outcomes.len() != self.outcomes.len() {
            let items = outcomes.items();
            let mut i: usize = 0;
            while i < items.len()
                invariant
                    items@ == outcomes@,
                    0 <= i <= items@.len(),
                    all_held(self.outcomes@, outcomes@),
                    outcomes@.len() != self.outcomes@.len(),
                    !self.undecided(outcomes@),
                    forall|j: int| 0 <= j < i ==> holds(self.outcomes@, #[trigger] items@[j]),
                decreases items@.len() - i,
            {
                if !contains(self.outcomes, &items[i]) {
                    assert(first_unheld(outcomes@, self.outcomes@, i as int));
                    return Err(
                        InvalidOutcome::ExtraneousOutcome(
                            ExtraneousOutcome { outcome: items[i].clone(), offer_type: *offer_type },
                        ),
                    );
                }
                i = i + 1;
            }
            assert(false);
            Ok(())
        } else {
            Ok(())
        }
    }
}

impl OfferType {
    /// The parameters on which checking the type reaches a verdict without
    /// overflowing a `u8`; a split handicap that pairs a draw handicap ahead
    /// by more than nothing with a win handicap from behind has none.
    pub open spec fn type_checkable(self) -> bool {
        match self {
            OfferType::SplitHandicap(_, draw, win) => match (draw, win) {
                (DrawHandicap::Ahead(ahead), WinHandicap::AheadOver(ahead_over)) => ahead
                    == ahead_over || ahead_over < u8::MAX,
                (DrawHandicap::Ahead(ahead), WinHandicap::BehindUnder(_)) => ahead == 0,
                (DrawHandicap::Behind(behind), WinHandicap::BehindUnder(behind_under)) => behind
                    == behind_under || behind < u8::MAX,
                (DrawHandicap::Behind(_), WinHandicap::AheadOver(_)) => true,
            },
            _ => true,
        }
    }

    /// Whether the type's parameters describe a real offer. A draw-no-bet is
    /// never `Behind(0)` (a level handicap is written `Ahead(0)`); a split
    /// handicap joins a draw handicap with a win handicap half a goal away
    /// (the `x.25` and `x.75` lines).
    pub open spec fn valid(self) -> bool {
        match self {
            OfferType::DrawNoBet(draw) => draw != DrawHandicap::Behind(0),
            OfferType::SplitHandicap(_, draw, win) => match (draw, win) {
                (DrawHandicap::Ahead(ahead), WinHandicap::AheadOver(ahead_over)) => ahead
                    == ahead_over || ahead == ahead_over + 1,
                (DrawHandicap::Ahead(ahead), WinHandicap::BehindUnder(behind_under)) => ahead == 0
                    && (behind_under == 0 || behind_under == 1),
                (DrawHandicap::Behind(behind), WinHandicap::BehindUnder(behind_under)) => behind
                    == behind_under || behind + 1 == behind_under,
                (DrawHandicap::Behind(_), WinHandicap::AheadOver(_)) => false,
            },
            _ => true,
        }
    }

    pub fn validate(&self) -> (result: Result<(), InvalidOfferType>)
        requires
            self.type_checkable(),
        ensures
            result is Ok <==> self.valid(),
            result matches Err(e) ==> e.offer_type == *self,
    {
        match self {
            OfferType::DrawNoBet(draw) => match draw {
                DrawHandicap::Behind(0) => Err(InvalidOfferType { offer_type: *self }),
                _ => Ok(()),
            },
            OfferType::SplitHandicap(_, draw, win) => {
                let valid = match (draw, win) {
                    (DrawHandicap::Ahead(ahead), WinHandicap::AheadOver(ahead_over)) => {
                        if ahead == ahead_over {
                            true
                        } else {
                            *ahead == ahead_over + 1
                        }
                    },
                    (_, WinHandicap::BehindUnder(behind_under)) => {
                        let behind = match draw {
                            DrawHandicap::Ahead(_) => 0,
                            DrawHandicap::Behind(by) => *by,
                        };
                        if behind == *behind_under {
                            true
                        } else {
                            behind + 1 == *behind_under
                        }
                    },
                    _ => false,
                };
                if valid {
                    Ok(())
                } else {
                    Err(InvalidOfferType { offer_type: *self })
                }
            },
            _ => Ok(()),
        }
    }

    /// Whether the offer type restricts its outcomes to a fixed set.
    pub open spec fn constrains_outcomes(self) -> bool {
        self is HeadToHead || self is TotalGoals || self is AsianHandicap || self is DrawNoBet
            || self is SplitHandicap
    }

    /// Whether the fixed outcomes of the type can be written in `u8`
    /// handicaps and goal counts.
    pub open spec fn outcomes_defined(self) -> bool {
        match self {
            OfferType::TotalGoals(_, over) => over.0 < u8::MAX,
            OfferType::AsianHandicap(_, win) => win.flips_asian(),
            OfferType::SplitHandicap(_, draw, win) => draw != DrawHandicap::Behind(0)
                && win.flips_asian(),
            _ => true,
        }
    }

    /// The outcomes that an offer of this type consists of, home side first.
    pub open spec fn valid_outcomes(self) -> Seq<Outcome> {
        match self {
            OfferType::HeadToHead(_, draw) => seq![
                Outcome::Win(Side::Home, draw.to_win_handicap_spec()),
                Outcome::Win(Side::Away, draw.to_win_handicap_spec().flip_european_spec()),
                Outcome::Draw(draw),
            ],
            OfferType::TotalGoals(_, over) => seq![
                Outcome::Over(over.0),
                Outcome::Under((over.0 + 1) as u8),
            ],
            OfferType::AsianHandicap(_, win) => seq![
                Outcome::Win(Side::Home, win),
                Outcome::Win(Side::Away, win.flip_asian_spec()),
            ],
            OfferType::DrawNoBet(draw) => seq![
                Outcome::Win(Side::Home, draw.to_win_handicap_spec()),
                Outcome::Win(Side::Away, draw.to_win_handicap_spec().flip_european_spec()),
            ],
            OfferType::SplitHandicap(_, draw, win) => seq![
                Outcome::SplitWin(Side::Home, draw, win),
                Outcome::SplitWin(Side::Away, draw.flip_spec(), win.flip_asian_spec()),
            ],
            _ => Seq::empty(),
        }
    }

    proof fn lemma_valid_outcomes_distinct(self)
        ensures
            distinct(self.valid_outcomes()),
    {
    }

    fn valid_outcome_list(&self) -> (outcomes: Vec<Outcome>)
        requires
            self.outcomes_defined(),
            self.constrains_outcomes(),
        ensures
            outcomes@ == self.valid_outcomes(),
    {
        match self {
            OfferType::HeadToHead(_, draw) => vec![
                Outcome::Win(Side::Home, draw.to_win_handicap()),
                Outcome::Win(Side::Away, draw.to_win_handicap().flip_european()),
                Outcome::Draw(*draw),
            ],
            OfferType::TotalGoals(_, over) => vec![Outcome::Over(over.0), Outcome::Under(over.0 + 1)],
            OfferType::AsianHandicap(_, win) => vec![
                Outcome::Win(Side::Home, *win),
                Outcome::Win(Side::Away, win.flip_asian()),
            ],
            OfferType::DrawNoBet(draw) => vec![
                Outcome::Win(Side::Home, draw.to_win_handicap()),
                Outcome::Win(Side::Away, draw.to_win_handicap().flip_european()),
            ],
            OfferType::SplitHandicap(_, draw, win) => vec![
                Outcome::SplitWin(Side::Home, *draw, *win),
                Outcome::SplitWin(Side::Away, draw.flip(), win.flip_asian()),
            ],
            _ => Vec::new(),
        }
    }

    /// Checks that `outcomes` are exactly the type's outcomes; types without
    /// a fixed set of outcomes accept any.
    pub fn validate_outcomes(&self, outcomes: &HashLookup<Outcome>) -> (result: Result<
        (),
        InvalidOutcome,
    >)
        requires
            self.outcomes_defined(),
        ensures
            self.constrains_outcomes() ==> completeness_verdict(
                self.valid_outcomes(),
                outcomes@,
                *self,
                result,
            ),
            !self.constrains_outcomes() ==> result is Ok,
    {
        if !self.is_constraining() {
            return Ok(());
        }
        let valid = self.valid_outcome_list();
        let assertion = OutcomesCompleteAssertion { outcomes: valid.as_slice() };
        let _ = outcomes.len();
        proof {
            self.lemma_valid_outcomes_distinct();
            if all_held(valid@, outcomes@) && all_held(outcomes@, valid@) {
                lemma_distinct_within_is_shorter(valid@, outcomes@);
                lemma_distinct_within_is_shorter(outcomes@, valid@);
            }
        }
        assertion.check(outcomes, self)
    }

    /// Checks that `outcome` is one of the type's outcomes; types without a
    /// fixed set of outcomes accept any.
    pub fn validate_outcome(&self, outcome: &Outcome) -> (result: Result<(), InvalidOutcome>)
        requires
            self.outcomes_defined(),
        ensures
            result is Ok <==> !self.constrains_outcomes() || holds(self.valid_outcomes(), *outcome),
            result matches Err(e) ==> e == InvalidOutcome::ExtraneousOutcome(
                ExtraneousOutcome { outcome: *outcome, offer_type: *self },
            ),
    {
        if !self.is_constraining() {
            return Ok(());
        }
        let valid = self.valid_outcome_list();
        if contains(valid.as_slice(), outcome) {
            Ok(())
        } else {
            Err(
                InvalidOutcome::ExtraneousOutcome(
                    ExtraneousOutcome { outcome: outcome.clone(), offer_type: *self },
                ),
            )
        }
    }

    fn is_constraining(&self) -> (constraining: bool)
        ensures
            constraining == self.constrains_outcomes(),
    {
        match self {
            OfferType::HeadToHead(_, _)
            | OfferType::TotalGoals(_, _)
            | OfferType::AsianHandicap(_, _)
            | OfferType::DrawNoBet(_)
            | OfferType::SplitHandicap(_, _, _) => true,
            _ => false,
        }
    }
}

/// Whether `outcomes` holds `outcome`.
fn contains(outcomes: &[Outcome], outcome: &Outcome) -> (found: bool)
    ensures
        found == holds(outcomes@, *outcome),
{
    let mut i: usize = 0;
    while i < outcomes.len()
        invariant
            0 <= i <= outcomes@.len(),
            forall|j: int| 0 <= j < i ==> !(#[trigger] outcomes@[j]).same(*outcome),
        decreases outcomes@.len() - i,
    {
        if outcomes[i].same_as(outcome) {
            return true;
        }
        i = i + 1;
    }
    false
}

} // verus!
