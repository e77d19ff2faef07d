use vstd::prelude::*;

use crate::domain::{DrawHandicap, OfferCategory, OfferType, Outcome, Period, Player, Side, WinHandicap};
use core::ops::AddAssign;

use crate::interval::{Expansions, NUM_PLAYERS};
use crate::lookup::{holds, HashLookup, Keyed};
use crate::query::{explorable, requirements, requirements_of};
use crate::text::{
    decimal_text, offer_category_text, offer_type_text, outcome_text, player_text, push_decimal,
    push_offer_category, push_offer_type, push_outcome, push_player,
};
use crate::validation::{all_held, completeness_verdict, ExtraneousOutcome, InvalidOfferType, InvalidOutcome};

verus! {

#[derive(Debug)]
pub enum MissingOffer {
    Type(OfferType),
    Category(OfferCategory),
}

impl MissingOffer {
    pub open spec fn message(self) -> Seq<char> {
        match self {
            MissingOffer::Type(offer_type) => "missing type "@ + offer_type_text(offer_type),
            MissingOffer::Category(category) => "missing category "@ + offer_category_text(
                category,
            ),
        }
    }

    pub fn to_string(&self) -> (text: String)
        ensures
            text@ == self.message(),
    {
        let mut text = String::new();
        match self {
            MissingOffer::Type(offer_type) => {
                text.append("missing type ");
                push_offer_type(&mut text, offer_type);
            },
            MissingOffer::Category(category) => {
                text.append("missing category ");
                push_offer_category(&mut text, category);
            },
        }
        text
    }
}

#[derive(Debug, PartialEq, Eq)]
pub struct NoSelections;

impl NoSelections {
    pub open spec fn message(self) -> Seq<char> {
        "no selections specified"@
    }

    pub fn to_string(&self) -> (text: String)
        ensures
            text@ == self.message(),
    {
        String::from_str("no selections specified")
    }
}

#[derive(Debug, PartialEq, Eq)]
pub struct TooManyPlayers {
    pub capacity: usize,
}

impl TooManyPlayers {
    pub open spec fn message(self) -> Seq<char> {
        "at most "@ + decimal_text(self.capacity as nat) + " players supported"@
    }

    pub fn to_string(&self) -> (text: String)
        ensures
            text@ == self.message(),
    {
        let mut text = String::from_str("at most ");
        push_decimal(&mut text, self.capacity as u64);
        text.append(" players supported");
        text
    }
}

#[derive(Debug, PartialEq, Eq)]
pub struct MissingDerivative {
    pub offer_type: OfferType,
    pub outcome: Outcome,
}

impl MissingDerivative {
    pub open spec fn message(self) -> Seq<char> {
        "missing "@ + offer_type_text(self.offer_type) + "/"@ + outcome_text(self.outcome)
            + " among derivatives"@
    }

    pub fn to_string(&self) -> (text: String)
        ensures
            text@ == self.message(),
    {
        let mut text = String::from_str("missing ");
        push_offer_type(&mut text, &self.offer_type);
        text.append("/");
        push_outcome(&mut text, &self.outcome);
        text.append(" among derivatives");
        proof {
            assert(text@ =~= self.message());
        }
        text
    }
}

#[derive(Debug, PartialEq, Eq)]
pub struct AuxiliaryOffer {
    pub offer_type: OfferType,
}

impl AuxiliaryOffer {
    pub open spec fn message(self) -> Seq<char> {
        "auxiliary "@ + offer_type_text(self.offer_type)
    }

    pub fn to_string(&self) -> (text: String)
        ensures
            text@ == self.message(),
    {
        let mut text = String::from_str("auxiliary ");
        push_offer_type(&mut text, &self.offer_type);
        text
    }
}

#[derive(Debug)]
pub enum UnmetRequirement {
    TeamGoalProbabilities,
    TeamAssistProbabilities,
    PlayerGoalProbability(Player),
    PlayerAssistProbability(Player),
}

impl UnmetRequirement {
    pub open spec fn message(self) -> Seq<char> {
        match self {
            UnmetRequirement::TeamGoalProbabilities => "missing team goal probabilities"@,
            UnmetRequirement::TeamAssistProbabilities => "missing team assist probabilities"@,
            UnmetRequirement::PlayerGoalProbability(player) => "missing goal probability for "@
                + player_text(player),
            UnmetRequirement::PlayerAssistProbability(player) => "missing assist probability for "@
                + player_text(player),
        }
    }

    pub fn to_string(&self) -> (text: String)
        ensures
            text@ == self.message(),
    {
        match self {
            UnmetRequirement::TeamGoalProbabilities => String::from_str(
                "missing team goal probabilities",
            ),
            UnmetRequirement::TeamAssistProbabilities => String::from_str(
                "missing team assist probabilities",
            ),
            UnmetRequirement::PlayerGoalProbability(player) => {
                let mut text = String::from_str("missing goal probability for ");
                push_player(&mut text, player);
                text
            },
            UnmetRequirement::PlayerAssistProbability(player) => {
                let mut text = String::from_str("missing assist probability for ");
                push_player(&mut text, player);
                text
            },
        }
    }
}

#[derive(Debug)]
pub enum SingleDerivationError {
    UnmetRequirement(UnmetRequirement),
    InvalidOutcome(InvalidOutcome),
    MissingOffer(MissingOffer),
    InvalidOfferType(InvalidOfferType),
}

impl SingleDerivationError {
    pub open spec fn message(self) -> Seq<char> {
        match self {
            SingleDerivationError::UnmetRequirement(e) => e.message(),
            SingleDerivationError::InvalidOutcome(e) => e.message(),
            SingleDerivationError::MissingOffer(e) => e.message(),
            SingleDerivationError::InvalidOfferType(e) => e.message(),
        }
    }

    pub fn to_string(&self) -> (text: String)
        ensures
            text@ == self.message(),
    {
        match self {
            SingleDerivationError::UnmetRequirement(e) => e.to_string(),
            SingleDerivationError::InvalidOutcome(e) => e.to_string(),
            SingleDerivationError::MissingOffer(e) => e.to_string(),
            SingleDerivationError::InvalidOfferType(e) => e.to_string(),
        }
    }
}

#[derive(Debug)]
pub enum MultiDerivationError {
    NoSelections(NoSelections),
    UnmetRequirement(UnmetRequirement),
    InvalidOutcome(InvalidOutcome),
    TooManyPlayers(TooManyPlayers),
    MissingDerivative(MissingDerivative),
    AuxiliaryOffer(AuxiliaryOffer),
    InvalidOfferType(InvalidOfferType),
}

impl MultiDerivationError {
    pub open spec fn message(self) -> Seq<char> {
        match self {
            MultiDerivationError::NoSelections(e) => e.message(),
            MultiDerivationError::UnmetRequirement(e) => e.message(),
            MultiDerivationError::InvalidOutcome(e) => e.message(),
            MultiDerivationError::TooManyPlayers(e) => e.message(),
            MultiDerivationError::MissingDerivative(e) => e.message(),
            MultiDerivationError::AuxiliaryOffer(e) => e.message(),
            MultiDerivationError::InvalidOfferType(e) => e.message(),
        }
    }

    pub fn to_string(&self) -> (text: String)
        ensures
            text@ == self.message(),
    {
        match self {
            MultiDerivationError::NoSelections(e) => e.to_string(),
            MultiDerivationError::UnmetRequirement(e) => e.to_string(),
            MultiDerivationError::InvalidOutcome(e) => e.to_string(),
            MultiDerivationError::TooManyPlayers(e) => e.to_string(),
            MultiDerivationError::MissingDerivative(e) => e.to_string(),
            MultiDerivationError::AuxiliaryOffer(e) => e.to_string(),
            MultiDerivationError::InvalidOfferType(e) => e.to_string(),
        }
    }
}

/// A model configuration that cannot be used, with the reason.
#[derive(Debug)]
pub struct ValidationError(pub String);

impl ValidationError {
    pub fn to_string(&self) -> (text: String)
        ensures
            text@ == self.0@,
    {
        self.0.clone()
    }
}

pub const MIN_INTERVALS: u8 = 4;

pub const MIN_MAX_TOTAL_GOALS: u16 = 6;

/// How finely a match is simulated: the number of intervals, and the most
/// goals a simulated match may have.
#[derive(Debug, Clone, Copy, PartialEq, Eq, Structural)]
pub struct Config {
    pub intervals: u8,
    pub max_total_goals: u16,
}

impl Config {
    pub open spec fn intervals_message() -> Seq<char> {
        "number of intervals cannot be less than "@ + decimal_text(MIN_INTERVALS as nat)
    }

    pub open spec fn max_total_goals_message() -> Seq<char> {
        "max total goals cannot be less than "@ + decimal_text(MIN_MAX_TOTAL_GOALS as nat)
    }

    pub fn validate(&self) -> (result: Result<(), ValidationError>)
        ensures
            result is Ok <==> self.intervals >= MIN_INTERVALS && self.max_total_goals
                >= MIN_MAX_TOTAL_GOALS,
            self.intervals < MIN_INTERVALS ==> (result matches Err(e) && e.0@
                == Config::intervals_message()),
            self.intervals >= MIN_INTERVALS && self.max_total_goals < MIN_MAX_TOTAL_GOALS ==> (
            result matches Err(e) && e.0@ == Config::max_total_goals_message()),
    {
        if self.intervals < MIN_INTERVALS {
            let mut text = String::from_str("number of intervals cannot be less than ");
            push_decimal(&mut text, MIN_INTERVALS as u64);
            return Err(ValidationError(text));
        }
        if self.max_total_goals < MIN_MAX_TOTAL_GOALS {
            let mut text = String::from_str("max total goals cannot be less than ");
            push_decimal(&mut text, MIN_MAX_TOTAL_GOALS as u64);
            return Err(ValidationError(text));
        }
        Ok(())
    }
}

/// Offer types whose outcomes are still priced as fringes when the
/// selections already hold an outcome of the same type.
pub open spec fn fringe_supported(offer_type: OfferType) -> bool {
    offer_type is AnytimeAssist || offer_type is AnytimeGoalscorer
}

pub fn is_fringe_supported(offer_type: &OfferType) -> (supported: bool)
    ensures
        supported == fringe_supported(*offer_type),
{
    match offer_type {
        OfferType::AnytimeAssist | OfferType::AnytimeGoalscorer => true,
        _ => false,
    }
}

pub fn selections_contain_offer_type(
    selections: &[(OfferType, Outcome)],
    search_offer_type: &OfferType,
) -> (found: bool)
    ensures
        found == exists|i: int|
            0 <= i < selections@.len() && (#[trigger] selections@[i]).0 == *search_offer_type,
{
    let mut i: usize = 0;
    while i < selections.len()
        invariant
            0 <= i <= selections@.len(),
            forall|j: int| 0 <= j < i ==> (#[trigger] selections@[j]).0 != *search_offer_type,
        decreases selections@.len() - i,
    {
        if selections[i].0 == *search_offer_type {
            return true;
        }
        i = i + 1;
    }
    false
}

pub fn selections_contains(
    selections: &[(OfferType, Outcome)],
    search_offer_type: &OfferType,
    search_outcome: &Outcome,
) -> (found: bool)
    ensures
        found == exists|i: int|
            0 <= i < selections@.len() && (#[trigger] selections@[i]).0 == *search_offer_type
                && selections@[i].1.same(*search_outcome),
{
    let mut i: usize = 0;
    while i < selections.len()
        invariant
            0 <= i <= selections@.len(),
            forall|j: int|
                0 <= j < i ==> !((#[trigger] selections@[j]).0 == *search_offer_type
                    && selections@[j].1.same(*search_outcome)),
        decreases selections@.len() - i,
    {
        if selections[i].0 == *search_offer_type && selections[i].1.same_as(search_outcome) {
            return true;
        }
        i = i + 1;
    }
    false
}

/// The fitted probabilities that a model holds, as far as deriving offers
/// depends on them: whether the team goal and assist probabilities are
/// fitted, and the players with a fitted goal or assist probability.
pub struct Fitted {
    pub team_goals: bool,
    pub team_assists: bool,
    pub player_goals: HashLookup<Player>,
    pub player_assists: HashLookup<Player>,
}

/// The first team probability that `reqs` needs and the model lacks.
pub open spec fn unmet_team_requirement(
    team_goals: bool,
    team_assists: bool,
    reqs: Expansions,
) -> Option<UnmetRequirement> {
    if reqs.needs_team_goal_probs() && !team_goals {
        Some(UnmetRequirement::TeamGoalProbabilities)
    } else if reqs.needs_team_assist_probs() && !team_assists {
        Some(UnmetRequirement::TeamAssistProbabilities)
    } else {
        None
    }
}

/// The first probability of `player` that `reqs` needs and the model lacks.
pub open spec fn unmet_player_requirement(
    goals: Seq<Player>,
    assists: Seq<Player>,
    reqs: Expansions,
    player: Player,
) -> Option<UnmetRequirement> {
    if reqs.needs_player_goal_probs() && !holds(goals, player) {
        Some(UnmetRequirement::PlayerGoalProbability(player))
    } else if reqs.needs_player_assist_probs() && !holds(assists, player) {
        Some(UnmetRequirement::PlayerAssistProbability(player))
    } else {
        None
    }
}

pub open spec fn as_result<E>(error: Option<E>) -> Result<(), E> {
    match error {
        Some(e) => Err(e),
        None => Ok(()),
    }
}

/// Checks that the model holds the team probabilities that `reqs` needs.
pub fn ensure_team_requirements(fitted: &Fitted, reqs: &Expansions) -> (result: Result<
    (),
    UnmetRequirement,
>)
    ensures
        result == as_result(unmet_team_requirement(fitted.team_goals, fitted.team_assists, *reqs)),
{
    if reqs.requires_team_goal_probs() && !fitted.team_goals {
        return Err(UnmetRequirement::TeamGoalProbabilities);
    }
    if reqs.requires_team_assist_probs() && !fitted.team_assists {
        return Err(UnmetRequirement::TeamAssistProbabilities);
    }
    Ok(())
}

/// Checks that the model holds the probabilities of `player` that `reqs`
/// needs, the goal probability first.
pub fn ensure_player_requirements(fitted: &Fitted, reqs: &Expansions, player: &Player) -> (result:
    Result<(), UnmetRequirement>)
    ensures
        result == as_result(
            unmet_player_requirement(
                fitted.player_goals@,
                fitted.player_assists@,
                *reqs,
                *player,
            ),
        ),
{
    if reqs.requires_player_goal_probs() && fitted.player_goals.index_of(player).is_none() {
        return Err(UnmetRequirement::PlayerGoalProbability(player.clone()));
    }
    if reqs.requires_player_assist_probs() && fitted.player_assists.index_of(player).is_none() {
        return Err(UnmetRequirement::PlayerAssistProbability(player.clone()));
    }
    Ok(())
}

/// What stops one selection of a multi from being priced, short of the
/// offer it comes from: an invalid offer type, an outcome that the type
/// does not have, or a player probability that the model lacks.
pub open spec fn selection_error(
    goals: Seq<Player>,
    assists: Seq<Player>,
    offer_type: OfferType,
    outcome: Outcome,
) -> Option<MultiDerivationError> {
    if !offer_type.valid() {
        Some(MultiDerivationError::InvalidOfferType(InvalidOfferType { offer_type }))
    } else if offer_type.constrains_outcomes() && !holds(offer_type.valid_outcomes(), outcome) {
        Some(
            MultiDerivationError::InvalidOutcome(
                InvalidOutcome::ExtraneousOutcome(ExtraneousOutcome { outcome, offer_type }),
            ),
        )
    } else {
        match outcome {
            Outcome::Player(player) => match unmet_player_requirement(
                goals,
                assists,
                requirements_of(offer_type),
                player,
            ) {
                Some(e) => Some(MultiDerivationError::UnmetRequirement(e)),
                None => None,
            },
            _ => None,
        }
    }
}

/// The players whose probabilities an exploration uses, after a selection
/// of `outcome` is added: its player, where the type needs player
/// probabilities and the player is not there yet.
pub open spec fn players_after(players: Seq<Player>, offer_type: OfferType, outcome: Outcome) -> Seq<
    Player,
> {
    let reqs = requirements_of(offer_type);
    match outcome {
        Outcome::Player(player) => if (reqs.needs_player_goal_probs()
            || reqs.needs_player_assist_probs()) && !holds(players, player) {
            players.push(player)
        } else {
            players
        },
        _ => players,
    }
}

/// Checks one selection of a multi before it is priced: its offer type must
/// be valid, its outcome one of the type's, and the model must hold the
/// probabilities of the outcome's player that the type needs. The type's
/// requirements are then joined into `agg_reqs` and the player, where one
/// is needed, added to `agg_players`; on an error both are left alone.
pub fn collect_requirements(
    offer_type: &OfferType,
    outcome: &Outcome,
    fitted: &Fitted,
    agg_reqs: &mut Expansions,
    agg_players: &mut HashLookup<Player>,
) -> (result: Result<(), MultiDerivationError>)
    requires
        explorable(*offer_type),
        offer_type.type_checkable(),
        offer_type.outcomes_defined(),
    ensures
        result == as_result(
            selection_error(fitted.player_goals@, fitted.player_assists@, *offer_type, *outcome),
        ),
        result is Ok ==> *final(agg_reqs) == old(agg_reqs).join(requirements_of(*offer_type))
            && final(agg_players)@ == players_after(old(agg_players)@, *offer_type, *outcome),
        result is Err ==> *final(agg_reqs) == *old(agg_reqs) && final(agg_players)@ == old(
            agg_players,
        )@,
{
    match offer_type.validate() {
        Err(e) => {
            return Err(MultiDerivationError::InvalidOfferType(e));
        },
        Ok(()) => {},
    }
    match offer_type.validate_outcome(outcome) {
        Err(e) => {
            return Err(MultiDerivationError::InvalidOutcome(e));
        },
        Ok(()) => {},
    }
    let reqs = requirements(offer_type);
    if reqs.requires_player_goal_probs() || reqs.requires_player_assist_probs() {
        match outcome.get_player() {
            None => {},
            Some(player) => {
                match ensure_player_requirements(fitted, &reqs, player) {
                    Err(e) => {
                        return Err(MultiDerivationError::UnmetRequirement(e));
                    },
                    Ok(()) => {},
                }
                agg_players.push(player.clone());
            },
        }
    }
    agg_reqs.add_assign(reqs);
    Ok(())
}

/// `offers[index]` is the first of `offers` of type `offer_type`.
pub open spec fn first_offer_at(
    offers: Seq<(OfferType, HashLookup<Outcome>)>,
    offer_type: OfferType,
    index: int,
) -> bool {
    &&& 0 <= index < offers.len()
    &&& offers[index].0 == offer_type
    &&& forall|j: int| 0 <= j < index ==> (#[trigger] offers[j]).0 != offer_type
}

/// The model has derived an offer of `offer_type`, and `outcome` is one of
/// its outcomes.
pub open spec fn derivable(
    offers: Seq<(OfferType, HashLookup<Outcome>)>,
    offer_type: OfferType,
    outcome: Outcome,
) -> bool {
    exists|index: int| first_offer_at(offers, offer_type, index) && holds(offers[index].1@, outcome)
}

/// What stops one selection of a multi from being priced: an auxiliary
/// offer type, one of the checks of `selection_error`, or no derived offer
/// with the outcome.
pub open spec fn selection_check(
    goals: Seq<Player>,
    assists: Seq<Player>,
    offers: Seq<(OfferType, HashLookup<Outcome>)>,
    selection: (OfferType, Outcome),
) -> Option<MultiDerivationError> {
    let (offer_type, outcome) = selection;
    if offer_type.auxiliary() {
        Some(MultiDerivationError::AuxiliaryOffer(AuxiliaryOffer { offer_type }))
    } else {
        match selection_error(goals, assists, offer_type, outcome) {
            Some(e) => Some(e),
            None => if derivable(offers, offer_type, outcome) {
                None
            } else {
                Some(MultiDerivationError::MissingDerivative(MissingDerivative { offer_type, outcome }))
            },
        }
    }
}

/// `position` is where the outcome of `selection` stands in the first
/// derived offer of its type.
pub open spec fn located(
    offers: Seq<(OfferType, HashLookup<Outcome>)>,
    selection: (OfferType, Outcome),
    position: usize,
) -> bool {
    exists|index: int|
        first_offer_at(offers, selection.0, index) && position < offers[index].1@.len()
            && offers[index].1@[position as int].same(selection.1)
}

/// The first error among `selections`, checked in order.
pub open spec fn multi_error(
    goals: Seq<Player>,
    assists: Seq<Player>,
    offers: Seq<(OfferType, HashLookup<Outcome>)>,
    selections: Seq<(OfferType, Outcome)>,
) -> Option<MultiDerivationError>
    decreases selections.len(),
{
    if selections.len() == 0 {
        None
    } else {
        match multi_error(goals, assists, offers, selections.drop_last()) {
            Some(e) => Some(e),
            None => selection_check(goals, assists, offers, selections.last()),
        }
    }
}

/// The expansions that an exploration of all of `selections` needs.
pub open spec fn multi_requirements(selections: Seq<(OfferType, Outcome)>) -> Expansions
    decreases selections.len(),
{
    if selections.len() == 0 {
        Expansions::none()
    } else {
        multi_requirements(selections.drop_last()).join(requirements_of(selections.last().0))
    }
}

/// The players whose probabilities an exploration of all of `selections`
/// uses, in the order in which they first come.
pub open spec fn multi_players(selections: Seq<(OfferType, Outcome)>) -> Seq<Player>
    decreases selections.len(),
{
    if selections.len() == 0 {
        Seq::empty()
    } else {
        players_after(multi_players(selections.drop_last()), selections.last().0, selections.last().1)
    }
}

/// Once a prefix of the selections fails, the selections fail with the
/// same error.
proof fn lemma_multi_error_stays(
    goals: Seq<Player>,
    assists: Seq<Player>,
    offers: Seq<(OfferType, HashLookup<Outcome>)>,
    selections: Seq<(OfferType, Outcome)>,
    k: int,
)
    requires
        0 <= k <= selections.len(),
        multi_error(goals, assists, offers, selections.subrange(0, k)) is Some,
    ensures
        multi_error(goals, assists, offers, selections) == multi_error(
            goals,
            assists,
            offers,
            selections.subrange(0, k),
        ),
    decreases selections.len() - k,
{
    if k < selections.len() {
        assert(selections.subrange(0, k + 1).drop_last() == selections.subrange(0, k));
        lemma_multi_error_stays(goals, assists, offers, selections, k + 1);
    } else {
        assert(selections.subrange(0, k) == selections);
    }
}

/// What pricing a multi needs once its selections pass the checks: the
/// expansions of the joint exploration, the players whose probabilities it
/// uses, and the position of each selection's outcome in its offer.
pub struct MultiPlan {
    pub requirements: Expansions,
    pub players: HashLookup<Player>,
    pub outcome_indices: Vec<usize>,
}

/// The position in `offers` of the first offer of `offer_type`.
fn find_offer(offers: &[(OfferType, HashLookup<Outcome>)], offer_type: &OfferType) -> (index:
    Option<usize>)
    ensures
        match index {
            Some(i) => first_offer_at(offers@, *offer_type, i as int),
            None => forall|j: int| 0 <= j < offers@.len() ==> (#[trigger] offers@[j]).0 != *offer_type,
        },
{
    let mut i: usize = 0;
    while i < offers.len()
        invariant
            0 <= i <= offers@.len(),
            forall|j: int| 0 <= j < i ==> (#[trigger] offers@[j]).0 != *offer_type,
        decreases offers@.len() - i,
    {
        if offers[i].0 == *offer_type {
            return Some(i);
        }
        i = i + 1;
    }
    None
}

/// Checks the selections of a multi, in order, before they are priced
/// together, and gathers what pricing them needs. `offers` are the offers
/// that the model has derived, each with its outcomes, and `fitted` what it
/// has fitted. An empty multi, an auxiliary offer type, an invalid
/// selection, a selection with no derived offer, and more players than an
/// exploration can follow are each refused.
pub fn plan_multi(
    selections: &[(OfferType, Outcome)],
    fitted: &Fitted,
    offers: &[(OfferType, HashLookup<Outcome>)],
) -> (result: Result<MultiPlan, MultiDerivationError>)
    requires
        forall|k: int|
            0 <= k < selections@.len() ==> (#[trigger] selections@[k]).0.auxiliary() || (explorable(
                selections@[k].0,
            ) && selections@[k].0.outcomes_defined()),
    ensures
        selections@.len() == 0 ==> result == Err::<MultiPlan, _>(
            MultiDerivationError::NoSelections(NoSelections),
        ),
        selections@.len() > 0 ==> match multi_error(
            fitted.player_goals@,
            fitted.player_assists@,
            offers@,
            selections@,
        ) {
            Some(e) => result == Err::<MultiPlan, _>(e),
            None => true,
        },
        selections@.len() > 0 && multi_error(
            fitted.player_goals@,
            fitted.player_assists@,
            offers@,
            selections@,
        ) is None && multi_players(selections@).len() > NUM_PLAYERS ==> result == Err::<
            MultiPlan,
            _,
        >(MultiDerivationError::TooManyPlayers(TooManyPlayers { capacity: NUM_PLAYERS })),
        result is Ok <==> selections@.len() > 0 && multi_error(
            fitted.player_goals@,
            fitted.player_assists@,
            offers@,
            selections@,
        ) is None && multi_players(selections@).len() <= NUM_PLAYERS,
        result matches Ok(plan) ==> {
            &&& plan.requirements == multi_requirements(selections@)
            &&& plan.players@ == multi_players(selections@)
            &&& plan.outcome_indices@.len() == selections@.len()
            &&& forall|k: int|
                0 <= k < selections@.len() ==> located(
                    offers@,
                    #[trigger] selections@[k],
                    plan.outcome_indices@[k],
                )
        },
{
    if selections.len() == 0 {
        return Err(MultiDerivationError::NoSelections(NoSelections));
    }
    let ghost goals = fitted.player_goals@;
    let ghost assists = fitted.player_assists@;
    let mut agg_reqs = Expansions::empty();
    let mut agg_players: HashLookup<Player> = HashLookup::new();
    let mut outcome_indices: Vec<usize> = Vec::new();
    let mut k: usize = 0;
    while k < selections.len()
        invariant
            0 <= k <= selections@.len(),
            goals == fitted.player_goals@,
            assists == fitted.player_assists@,
            forall|k: int|
                0 <= k < selections@.len() ==> (#[trigger] selections@[k]).0.auxiliary() || (
                explorable(selections@[k].0) && selections@[k].0.outcomes_defined()),
            multi_error(goals, assists, offers@, selections@.subrange(0, k as int)) is None,
            agg_reqs == multi_requirements(selections@.subrange(0, k as int)),
            agg_players@ == multi_players(selections@.subrange(0, k as int)),
            outcome_indices@.len() == k,
            forall|j: int|
                0 <= j < k ==> located(offers@, #[trigger] selections@[j], outcome_indices@[j]),
        decreases selections@.len() - k,
    {
        let ghost prefix = selections@.subrange(0, k + 1);
        proof {
            assert(prefix.drop_last() == selections@.subrange(0, k as int));
            assert(prefix.last() == selections@[k as int]);
        }
        let (offer_type, outcome) = &selections[k];
        if offer_type.is_auxiliary() {
            proof {
                lemma_multi_error_stays(goals, assists, offers@, selections@, k + 1);
            }
            return Err(
                MultiDerivationError::AuxiliaryOffer(AuxiliaryOffer { offer_type: *offer_type }),
            );
        }
        match collect_requirements(offer_type, outcome, fitted, &mut agg_reqs, &mut agg_players) {
            Err(e) => {
                proof {
                    lemma_multi_error_stays(goals, assists, offers@, selections@, k + 1);
                }
                return Err(e);
            },
            Ok(()) => {},
        }
        let offer_index = find_offer(offers, offer_type);
        let found = match offer_index {
            Some(index) => match offers[index].1.index_of(outcome) {
                Some(position) => Some((index, position)),
                None => None,
            },
            None => None,
        };
        match found {
            None => {
                proof {
                    if derivable(offers@, *offer_type, *outcome) {
                        let index = choose|index: int|
                            first_offer_at(offers@, *offer_type, index) && holds(
                                offers@[index].1@,
                                *outcome,
                            );
                        if let Some(i) = offer_index {
                            assert(i == index);
                        }
                    }
                    lemma_multi_error_stays(goals, assists, offers@, selections@, k + 1);
                }
                return Err(
                    MultiDerivationError::MissingDerivative(
                        MissingDerivative { offer_type: *offer_type, outcome: outcome.clone() },
                    ),
                );
            },
            Some((index, position)) => {
                let ghost before = outcome_indices@;
                outcome_indices.push(position);
                proof {
                    assert(*outcome == selections@[k as int].1);
                    assert(first_offer_at(offers@, selections@[k as int].0, index as int)
                        && position < offers@[index as int].1@.len()
                        && offers@[index as int].1@[position as int].same(selections@[k as int].1));
                    assert(located(offers@, selections@[k as int], position));
                    assert forall|j: int| 0 <= j < k + 1 implies located(
                        offers@,
                        #[trigger] selections@[j],
                        outcome_indices@[j],
                    ) by {
                        if j < k {
                            assert(outcome_indices@[j] == before[j]);
                        }
                    }
                }
            },
        }
        k = k + 1;
    }
    proof {
        assert(selections@.subrange(0, selections@.len() as int) == selections@);
    }
    if agg_players.len() > NUM_PLAYERS {
        return Err(MultiDerivationError::TooManyPlayers(TooManyPlayers { capacity: NUM_PLAYERS }));
    }
    Ok(MultiPlan { requirements: agg_reqs, players: agg_players, outcome_indices })
}

/// The four ways a split handicap joins a European and an Asian line.
#[derive(Clone, Copy, Debug, PartialEq, Eq, Structural)]
pub enum SplitHandicapCase {
    /// `-x.25`: ahead by `x` with ahead over `x`.
    AheadQuarter,
    /// `-x.75`: ahead by `x + 1` with ahead over `x`.
    AheadThreeQuarters,
    /// `+x.75`: behind by `x` with behind under `x`.
    BehindThreeQuarters,
    /// `+x.25`: behind by `x` with behind under `x + 1`.
    BehindQuarter,
}

pub open spec fn split_handicap_case_of(draw: DrawHandicap, win: WinHandicap) -> SplitHandicapCase {
    match (draw, win) {
        (DrawHandicap::Ahead(ahead), WinHandicap::AheadOver(ahead_over)) => if ahead == ahead_over {
            SplitHandicapCase::AheadQuarter
        } else {
            SplitHandicapCase::AheadThreeQuarters
        },
        (DrawHandicap::Ahead(_), WinHandicap::BehindUnder(behind_under)) => if behind_under == 0 {
            SplitHandicapCase::BehindThreeQuarters
        } else {
            SplitHandicapCase::BehindQuarter
        },
        (DrawHandicap::Behind(behind), WinHandicap::BehindUnder(behind_under)) => if behind
            == behind_under {
            SplitHandicapCase::BehindThreeQuarters
        } else {
            SplitHandicapCase::BehindQuarter
        },
        (DrawHandicap::Behind(_), WinHandicap::AheadOver(_)) => SplitHandicapCase::AheadQuarter,
    }
}

/// Which formula prices a valid split handicap.
pub fn split_handicap_case(draw: &DrawHandicap, win: &WinHandicap) -> (case: SplitHandicapCase)
    requires
        OfferType::SplitHandicap(crate::domain::Period::FullTime, *draw, *win).type_checkable(),
        OfferType::SplitHandicap(crate::domain::Period::FullTime, *draw, *win).valid(),
    ensures
        case == split_handicap_case_of(*draw, *win),
{
    match (draw, win) {
        (DrawHandicap::Ahead(ahead), WinHandicap::AheadOver(ahead_over)) => {
            if ahead == ahead_over {
                SplitHandicapCase::AheadQuarter
            } else {
                SplitHandicapCase::AheadThreeQuarters
            }
        },
        (_, WinHandicap::BehindUnder(behind_under)) => {
            let behind = match draw {
                DrawHandicap::Ahead(_) => 0,
                DrawHandicap::Behind(by) => *by,
            };
            if behind == *behind_under {
                SplitHandicapCase::BehindThreeQuarters
            } else {
                SplitHandicapCase::BehindQuarter
            }
        },
        _ => SplitHandicapCase::AheadQuarter,
    }
}

/// The offers that an auxiliary offer is priced from, in the order in which
/// they are looked up: the European head-to-head of the same handicap and,
/// for a split handicap, the Asian handicap of its win handicap.
pub open spec fn auxiliary_source_types(offer_type: OfferType) -> Seq<OfferType> {
    match offer_type {
        OfferType::DrawNoBet(draw) => seq![OfferType::HeadToHead(Period::FullTime, draw)],
        OfferType::SplitHandicap(period, draw, win) => seq![
            OfferType::HeadToHead(period, draw),
            OfferType::AsianHandicap(period, win),
        ],
        _ => Seq::empty(),
    }
}

/// The source outcomes whose probabilities price an auxiliary offer. A
/// draw-no-bet takes the two wins of its head-to-head; a split handicap
/// takes the draw of its head-to-head and one more probability, which its
/// case picks: the home win of the Asian line (`-x.25`), the home win of
/// the European line (`-x.75`), the away win of the European line
/// (`+x.75`) or the away win of the Asian line (`+x.25`).
pub open spec fn auxiliary_sources(offer_type: OfferType) -> Seq<(OfferType, Outcome)> {
    match offer_type {
        OfferType::DrawNoBet(draw) => {
            let euro = OfferType::HeadToHead(Period::FullTime, draw);
            seq![
                (euro, Outcome::Win(Side::Home, draw.to_win_handicap_spec())),
                (euro, Outcome::Win(Side::Away, draw.to_win_handicap_spec().flip_european_spec())),
            ]
        },
        OfferType::SplitHandicap(period, draw, win) => {
            let euro = OfferType::HeadToHead(period, draw);
            let asian = OfferType::AsianHandicap(period, win);
            seq![
                (euro, Outcome::Draw(draw)),
                match split_handicap_case_of(draw, win) {
                    SplitHandicapCase::AheadQuarter => (asian, Outcome::Win(Side::Home, win)),
                    SplitHandicapCase::AheadThreeQuarters => (
                        euro,
                        Outcome::Win(Side::Home, draw.to_win_handicap_spec()),
                    ),
                    SplitHandicapCase::BehindThreeQuarters => (
                        euro,
                        Outcome::Win(Side::Away, draw.to_win_handicap_spec().flip_european_spec()),
                    ),
                    SplitHandicapCase::BehindQuarter => (
                        asian,
                        Outcome::Win(Side::Away, win.flip_asian_spec()),
                    ),
                },
            ]
        },
        _ => Seq::empty(),
    }
}

/// The source outcomes whose probabilities price an auxiliary offer, each
/// with the offer it is read from.
pub fn source_outcomes(offer_type: &OfferType) -> (sources: Vec<(OfferType, Outcome)>)
    requires
        offer_type.type_checkable(),
        offer_type.valid(),
        offer_type.outcomes_defined(),
    ensures
        sources@ == auxiliary_sources(*offer_type),
{
    let mut sources: Vec<(OfferType, Outcome)> = Vec::new();
    match offer_type {
        OfferType::DrawNoBet(draw) => {
            let euro = OfferType::HeadToHead(Period::FullTime, *draw);
            sources.push((euro, Outcome::Win(Side::Home, draw.to_win_handicap())));
            sources.push((euro, Outcome::Win(Side::Away, draw.to_win_handicap().flip_european())));
        },
        OfferType::SplitHandicap(period, draw, win) => {
            let euro = OfferType::HeadToHead(*period, *draw);
            let asian = OfferType::AsianHandicap(*period, *win);
            sources.push((euro, Outcome::Draw(*draw)));
            let second = match split_handicap_case(draw, win) {
                SplitHandicapCase::AheadQuarter => (asian, Outcome::Win(Side::Home, *win)),
                SplitHandicapCase::AheadThreeQuarters => (
                    euro,
                    Outcome::Win(Side::Home, draw.to_win_handicap()),
                ),
                SplitHandicapCase::BehindThreeQuarters => (
                    euro,
                    Outcome::Win(Side::Away, draw.to_win_handicap().flip_european()),
                ),
                SplitHandicapCase::BehindQuarter => (asian, Outcome::Win(Side::Away, win.flip_asian())),
            };
            sources.push(second);
        },
        _ => {},
    }
    proof {
        assert(sources@ =~= auxiliary_sources(*offer_type));
    }
    sources
}

/// What stops `outcome` of an offer from being priced: a probability of its
/// player that `reqs` needs and the model lacks.
pub open spec fn unmet_outcome_requirement(
    goals: Seq<Player>,
    assists: Seq<Player>,
    reqs: Expansions,
    outcome: Outcome,
) -> Option<UnmetRequirement> {
    match outcome {
        Outcome::Player(player) => unmet_player_requirement(goals, assists, reqs, player),
        _ => None,
    }
}

/// `outcomes` holds exactly the outcomes of `offer_type`, where the type
/// fixes them.
pub open spec fn complete_outcomes(offer_type: OfferType, outcomes: Seq<Outcome>) -> bool {
    offer_type.constrains_outcomes() ==> all_held(offer_type.valid_outcomes(), outcomes)
        && outcomes.len() == offer_type.valid_outcomes().len()
}

/// A stub passes the checks that `derive` makes of it before pricing it:
/// a valid type, exactly the type's outcomes and, for a type that is priced
/// from an exploration, the fitted probabilities that it needs.
pub open spec fn stub_passes(fitted: FittedView, stub: (OfferType, HashLookup<Outcome>)) -> bool {
    let (offer_type, outcomes) = stub;
    let reqs = requirements_of(offer_type);
    &&& offer_type.valid()
    &&& complete_outcomes(offer_type, outcomes@)
    &&& !offer_type.auxiliary() ==> {
        &&& unmet_team_requirement(fitted.team_goals, fitted.team_assists, reqs) is None
        &&& forall|i: int|
            0 <= i < outcomes@.len() ==> unmet_outcome_requirement(
                fitted.goals,
                fitted.assists,
                reqs,
                #[trigger] outcomes@[i],
            ) is None
    }
}

/// `outcomes[k]` is the first of `outcomes` whose player lacks a
/// probability that `reqs` needs.
pub open spec fn first_unmet_outcome(
    fitted: FittedView,
    reqs: Expansions,
    outcomes: Seq<Outcome>,
    k: int,
) -> bool {
    &&& 0 <= k < outcomes.len()
    &&& unmet_outcome_requirement(fitted.goals, fitted.assists, reqs, outcomes[k]) is Some
    &&& forall|j: int|
        0 <= j < k ==> unmet_outcome_requirement(
            fitted.goals,
            fitted.assists,
            reqs,
            #[trigger] outcomes[j],
        ) is None
}

/// The error with which `derive` refuses a stub that fails its checks: the
/// invalid type, else what the completeness check answers, else the first
/// missing team probability, else the first missing probability of the
/// players of its outcomes, in their order.
pub open spec fn stub_failure(
    fitted: FittedView,
    stub: (OfferType, HashLookup<Outcome>),
    error: SingleDerivationError,
) -> bool {
    let (offer_type, outcomes) = stub;
    let reqs = requirements_of(offer_type);
    if !offer_type.valid() {
        error == SingleDerivationError::InvalidOfferType(InvalidOfferType { offer_type })
    } else if !complete_outcomes(offer_type, outcomes@) {
        error matches SingleDerivationError::InvalidOutcome(e) && completeness_verdict(
            offer_type.valid_outcomes(),
            outcomes@,
            offer_type,
            Err(e),
        )
    } else {
        match unmet_team_requirement(fitted.team_goals, fitted.team_assists, reqs) {
            Some(unmet) => error == SingleDerivationError::UnmetRequirement(unmet),
            None => exists|k: int|
                {
                    &&& #[trigger] first_unmet_outcome(fitted, reqs, outcomes@, k)
                    &&& unmet_outcome_requirement(
                        fitted.goals,
                        fitted.assists,
                        reqs,
                        outcomes@[k],
                    ) matches Some(unmet)
                    &&& error == SingleDerivationError::UnmetRequirement(unmet)
                },
        }
    }
}

/// A model's fitted probabilities, as the contracts see them.
pub struct FittedView {
    pub team_goals: bool,
    pub team_assists: bool,
    pub goals: Seq<Player>,
    pub assists: Seq<Player>,
}

impl View for Fitted {
    type V = FittedView;

    open spec fn view(&self) -> FittedView {
        FittedView {
            team_goals: self.team_goals,
            team_assists: self.team_assists,
            goals: self.player_goals@,
            assists: self.player_assists@,
        }
    }
}

/// An offer of `offer_type` is at hand when auxiliary offers are priced:
/// one of the stubs derives it, or the model held it already.
pub open spec fn offer_at_hand(
    stubs: Seq<(OfferType, HashLookup<Outcome>)>,
    offers: Seq<(OfferType, HashLookup<Outcome>)>,
    offer_type: OfferType,
) -> bool {
    (exists|k: int| 0 <= k < stubs.len() && (#[trigger] stubs[k]).0 == offer_type) || (exists|
        i: int,
    | 0 <= i < offers.len() && (#[trigger] offers[i]).0 == offer_type)
}

/// Where no stub derives the source offer, the offer of that type that the
/// model holds has the source outcome: its probability is read.
pub open spec fn source_held(
    stubs: Seq<(OfferType, HashLookup<Outcome>)>,
    offers: Seq<(OfferType, HashLookup<Outcome>)>,
    source: (OfferType, Outcome),
) -> bool {
    (forall|k: int| 0 <= k < stubs.len() ==> (#[trigger] stubs[k]).0 != source.0) ==> forall|i: int|
        0 <= i < offers.len() && (#[trigger] offers[i]).0 == source.0 ==> holds(offers[i].1@, source.1)
}

/// Every offer that an auxiliary offer of `offer_type` is priced from is at
/// hand.
pub open spec fn sources_at_hand(
    stubs: Seq<(OfferType, HashLookup<Outcome>)>,
    offers: Seq<(OfferType, HashLookup<Outcome>)>,
    offer_type: OfferType,
) -> bool {
    forall|j: int|
        0 <= j < auxiliary_source_types(offer_type).len() ==> offer_at_hand(
            stubs,
            offers,
            #[trigger] auxiliary_source_types(offer_type)[j],
        )
}

/// `stubs[k]` is the first stub that fails its checks.
pub open spec fn first_failing_stub(
    fitted: FittedView,
    stubs: Seq<(OfferType, HashLookup<Outcome>)>,
    k: int,
) -> bool {
    &&& 0 <= k < stubs.len()
    &&& !stub_passes(fitted, stubs[k])
    &&& forall|j: int| 0 <= j < k ==> stub_passes(fitted, #[trigger] stubs[j])
}

/// `stubs[k]` is the first auxiliary stub with a source that is not at
/// hand, and `j` the position of its first such source.
pub open spec fn first_missing_source(
    stubs: Seq<(OfferType, HashLookup<Outcome>)>,
    offers: Seq<(OfferType, HashLookup<Outcome>)>,
    k: int,
    j: int,
) -> bool {
    let sources = auxiliary_source_types(stubs[k].0);
    &&& 0 <= k < stubs.len()
    &&& stubs[k].0.auxiliary()
    &&& forall|m: int|
        0 <= m < k && (#[trigger] stubs[m]).0.auxiliary() ==> sources_at_hand(stubs, offers, stubs[m].0)
    &&& 0 <= j < sources.len()
    &&& !offer_at_hand(stubs, offers, sources[j])
    &&& forall|m: int| 0 <= m < j ==> offer_at_hand(stubs, offers, #[trigger] sources[m])
}

/// The positions of the stubs that are (or are not) auxiliary, in order.
pub open spec fn stubs_where(stubs: Seq<(OfferType, HashLookup<Outcome>)>, auxiliary: bool) -> Seq<
    usize,
>
    decreases stubs.len(),
{
    if stubs.len() == 0 {
        Seq::empty()
    } else {
        let before = stubs_where(stubs.drop_last(), auxiliary);
        if stubs.last().0.auxiliary() == auxiliary {
            before.push((stubs.len() - 1) as usize)
        } else {
            before
        }
    }
}

/// The order in which `derive` prices its stubs: those priced from an
/// exploration first, then the auxiliary ones, each group in the given
/// order.
pub open spec fn derivation_order(stubs: Seq<(OfferType, HashLookup<Outcome>)>) -> Seq<usize> {
    stubs_where(stubs, false) + stubs_where(stubs, true)
}

/// Checks the stubs of a derivation the way `derive` does, and answers the
/// order in which they are priced. First each stub in turn: its type must
/// be valid, its outcomes exactly the type's and, where it is priced from
/// an exploration, the model must hold the team and player probabilities
/// that this needs. Then each auxiliary stub in turn: the offers that it is
/// priced from must be derived by a stub or held by the model already
/// (`offers`). An offer that the model holds and that an auxiliary stub is
/// priced from must have the outcomes that are read from it.
pub fn plan_derivation(
    stubs: &[(OfferType, HashLookup<Outcome>)],
    fitted: &Fitted,
    offers: &[(OfferType, HashLookup<Outcome>)],
) -> (result: Result<Vec<usize>, SingleDerivationError>)
    requires
        forall|k: int|
            0 <= k < stubs@.len() ==> {
                &&& (#[trigger] stubs@[k]).0.type_checkable()
                &&& stubs@[k].0.outcomes_defined()
                &&& stubs@[k].0.auxiliary() || explorable(stubs@[k].0)
            },
        forall|k: int, j: int|
            0 <= k < stubs@.len() && 0 <= j < auxiliary_sources(stubs@[k].0).len()
                ==> #[trigger] source_held(
                stubs@,
                offers@,
                auxiliary_sources(stubs@[k].0)[j],
            ),
    ensures
        result is Ok <==> (forall|k: int| 0 <= k < stubs@.len() ==> stub_passes(fitted@, #[trigger] stubs@[k]))
            && (forall|k: int|
            0 <= k < stubs@.len() && (#[trigger] stubs@[k]).0.auxiliary() ==> sources_at_hand(
                stubs@,
                offers@,
                stubs@[k].0,
            )),
        result matches Ok(order) ==> order@ == derivation_order(stubs@),
        forall|k: int|
            first_failing_stub(fitted@, stubs@, k) ==> (result matches Err(e) && stub_failure(
                fitted@,
                #[trigger] stubs@[k],
                e,
            )),
        forall|k: int, j: int|
            (forall|m: int| 0 <= m < stubs@.len() ==> stub_passes(fitted@, #[trigger] stubs@[m]))
                && #[trigger] first_missing_source(stubs@, offers@, k, j) ==> result == Err::<
                Vec<usize>,
                _,
            >(
                SingleDerivationError::MissingOffer(
                    MissingOffer::Type(auxiliary_source_types(stubs@[k].0)[j]),
                ),
            ),
{
    let ghost view = fitted@;
    let mut explored: Vec<usize> = Vec::new();
    let mut auxiliaries: Vec<usize> = Vec::new();
    let mut k: usize = 0;
    while k < stubs.len()
        invariant
            0 <= k <= stubs@.len(),
            view == fitted@,
            forall|k: int|
                0 <= k < stubs@.len() ==> {
                    &&& (#[trigger] stubs@[k]).0.type_checkable()
                    &&& stubs@[k].0.outcomes_defined()
                    &&& stubs@[k].0.auxiliary() || explorable(stubs@[k].0)
                },
            forall|j: int| 0 <= j < k ==> stub_passes(view, #[trigger] stubs@[j]),
            explored@ == stubs_where(stubs@.subrange(0, k as int), false),
            auxiliaries@ == stubs_where(stubs@.subrange(0, k as int), true),
        decreases stubs@.len() - k,
    {
        let (offer_type, outcomes) = &stubs[k];
        proof {
            assert(stubs@[k as int] == (*offer_type, *outcomes));
        }
        match check_stub(offer_type, outcomes, fitted) {
            Err(e) => {
                proof {
                    assert(first_failing_stub(view, stubs@, k as int));
                    assert forall|m: int| first_failing_stub(view, stubs@, m) implies m == k by {
                        if m < k {
                            assert(stub_passes(view, stubs@[m]));
                        } else if m > k {
                            assert(stub_passes(view, stubs@[k as int]));
                        }
                    }
                }
                return Err(e);
            },
            Ok(()) => {},
        }
        proof {
            let prefix = stubs@.subrange(0, k + 1);
            assert(prefix.drop_last() == stubs@.subrange(0, k as int));
            assert(prefix.last() == stubs@[k as int]);
        }
        if offer_type.is_auxiliary() {
            auxiliaries.push(k);
        } else {
            explored.push(k);
        }
        k = k + 1;
    }
    proof {
        assert(stubs@.subrange(0, stubs@.len() as int) == stubs@);
    }
    let mut k: usize = 0;
    while k < stubs.len()
        invariant
            0 <= k <= stubs@.len(),
            view == fitted@,
            forall|j: int| 0 <= j < stubs@.len() ==> stub_passes(view, #[trigger] stubs@[j]),
            forall|m: int|
                0 <= m < k && (#[trigger] stubs@[m]).0.auxiliary() ==> sources_at_hand(
                    stubs@,
                    offers@,
                    stubs@[m].0,
                ),
        decreases stubs@.len() - k,
    {
        let offer_type = &stubs[k].0;
        if offer_type.is_auxiliary() {
            let sources = source_types(offer_type);
            let mut j: usize = 0;
            while j < sources.len()
                invariant
                    0 <= j <= sources@.len(),
                    k < stubs@.len(),
                    *offer_type == stubs@[k as int].0,
                    offer_type.auxiliary(),
                    sources@ == auxiliary_source_types(*offer_type),
                    forall|m: int| 0 <= m < j ==> offer_at_hand(stubs@, offers@, #[trigger] sources@[m]),
                    view == fitted@,
                    forall|j: int| 0 <= j < stubs@.len() ==> stub_passes(view, #[trigger] stubs@[j]),
                    forall|m: int|
                        0 <= m < k && (#[trigger] stubs@[m]).0.auxiliary() ==> sources_at_hand(
                            stubs@,
                            offers@,
                            stubs@[m].0,
                        ),
                decreases sources@.len() - j,
            {
                if !at_hand(stubs, offers, &sources[j]) {
                    proof {
                        let types = auxiliary_source_types(stubs@[k as int].0);
                        assert(types == sources@);
                        assert forall|m: int| 0 <= m < j implies offer_at_hand(
                            stubs@,
                            offers@,
                            #[trigger] types[m],
                        ) by {
                            assert(offer_at_hand(stubs@, offers@, sources@[m]));
                        }
                        assert(!offer_at_hand(stubs@, offers@, types[j as int]));
                        assert(first_missing_source(stubs@, offers@, k as int, j as int));
                        assert forall|m: int| !first_failing_stub(fitted@, stubs@, m) by {
                            if 0 <= m < stubs@.len() {
                                assert(stub_passes(view, stubs@[m]));
                            }
                        }
                        assert forall|k2: int, j2: int|
                            #[trigger] first_missing_source(stubs@, offers@, k2, j2) implies k2 == k
                            && j2 == j by {
                            if k2 < k {
                                assert(sources_at_hand(stubs@, offers@, stubs@[k2].0));
                            } else if k2 > k {
                                assert(stubs@[k as int].0.auxiliary());
                            }
                            if k2 == k && j2 < j {
                                assert(offer_at_hand(stubs@, offers@, sources@[j2]));
                            }
                        }
                    }
                    return Err(SingleDerivationError::MissingOffer(MissingOffer::Type(sources[j])));
                }
                j = j + 1;
            }
        }
        k = k + 1;
    }
    let mut order = explored;
    let mut rest = auxiliaries;
    order.append(&mut rest);
    Ok(order)
}

/// The offer types that an auxiliary offer is priced from.
fn source_types(offer_type: &OfferType) -> (types: Vec<OfferType>)
    ensures
        types@ == auxiliary_source_types(*offer_type),
{
    let mut types: Vec<OfferType> = Vec::new();
    match offer_type {
        OfferType::DrawNoBet(draw) => {
            types.push(OfferType::HeadToHead(Period::FullTime, *draw));
        },
        OfferType::SplitHandicap(period, draw, win) => {
            types.push(OfferType::HeadToHead(*period, *draw));
            types.push(OfferType::AsianHandicap(*period, *win));
        },
        _ => {},
    }
    proof {
        assert(types@ =~= auxiliary_source_types(*offer_type));
    }
    types
}

/// Whether an offer of `offer_type` is at hand once the stubs are derived.
fn at_hand(
    stubs: &[(OfferType, HashLookup<Outcome>)],
    offers: &[(OfferType, HashLookup<Outcome>)],
    offer_type: &OfferType,
) -> (found: bool)
    ensures
        found == offer_at_hand(stubs@, offers@, *offer_type),
{
    let mut k: usize = 0;
    while k < stubs.len()
        invariant
            0 <= k <= stubs@.len(),
            forall|j: int| 0 <= j < k ==> (#[trigger] stubs@[j]).0 != *offer_type,
        decreases stubs@.len() - k,
    {
        if stubs[k].0 == *offer_type {
            return true;
        }
        k = k + 1;
    }
    let mut i: usize = 0;
    while i < offers.len()
        invariant
            0 <= i <= offers@.len(),
            forall|j: int| 0 <= j < stubs@.len() ==> (#[trigger] stubs@[j]).0 != *offer_type,
            forall|j: int| 0 <= j < i ==> (#[trigger] offers@[j]).0 != *offer_type,
        decreases offers@.len() - i,
    {
        if offers[i].0 == *offer_type {
            return true;
        }
        i = i + 1;
    }
    false
}

/// The checks that `derive` makes of one stub before pricing it.
fn check_stub(offer_type: &OfferType, outcomes: &HashLookup<Outcome>, fitted: &Fitted) -> (result:
    Result<(), SingleDerivationError>)
    requires
        offer_type.type_checkable(),
        offer_type.outcomes_defined(),
        offer_type.auxiliary() || explorable(*offer_type),
    ensures
        result is Ok <==> stub_passes(fitted@, (*offer_type, *outcomes)),
        result matches Err(e) ==> stub_failure(fitted@, (*offer_type, *outcomes), e),
{
    match offer_type.validate() {
        Err(e) => {
            return Err(SingleDerivationError::InvalidOfferType(e));
        },
        Ok(()) => {},
    }
    match offer_type.validate_outcomes(outcomes) {
        Err(e) => {
            return Err(SingleDerivationError::InvalidOutcome(e));
        },
        Ok(()) => {},
    }
    if offer_type.is_auxiliary() {
        return Ok(());
    }
    let reqs = requirements(offer_type);
    match ensure_team_requirements(fitted, &reqs) {
        Err(e) => {
            return Err(SingleDerivationError::UnmetRequirement(e));
        },
        Ok(()) => {},
    }
    let items = outcomes.items();
    let mut i: usize = 0;
    while i < items.len()
        invariant
            0 <= i <= items@.len(),
            items@ == outcomes@,
            reqs == requirements_of(*offer_type),
            offer_type.valid(),
            complete_outcomes(*offer_type, outcomes@),
            !offer_type.auxiliary(),
            unmet_team_requirement(fitted.team_goals, fitted.team_assists, reqs) is None,
            forall|j: int|
                0 <= j < i ==> unmet_outcome_requirement(
                    fitted.player_goals@,
                    fitted.player_assists@,
                    reqs,
                    #[trigger] items@[j],
                ) is None,
        decreases items@.len() - i,
    {
        match items[i].get_player() {
            Some(player) => match ensure_player_requirements(fitted, &reqs, player) {
                Err(e) => {
                    proof {
                        assert(first_unmet_outcome(fitted@, reqs, outcomes@, i as int));
                        assert(unmet_outcome_requirement(
                            fitted@.goals,
                            fitted@.assists,
                            reqs,
                            outcomes@[i as int],
                        ) == Some(e));
                        assert(unmet_team_requirement(fitted@.team_goals, fitted@.team_assists, reqs)
                            is None);
                        assert(stub_failure(
                            fitted@,
                            (*offer_type, *outcomes),
                            SingleDerivationError::UnmetRequirement(e),
                        ));
                    }
                    return Err(SingleDerivationError::UnmetRequirement(e));
                },
                Ok(()) => {},
            },
            None => {},
        }
        i = i + 1;
    }
    Ok(())
}

} // verus!
