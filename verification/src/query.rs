use vstd::prelude::*;

use crate::domain::{DrawHandicap, OfferType, Outcome, Period, Player, Side, WinHandicap};
use crate::interval::{Expansions, Prospect, ProspectView};
use crate::lookup::{holds, HashLookup, Keyed};

verus! {

/// What to look for in a prospect to decide one outcome of an offer.
#[derive(Debug)]
pub enum QuerySpec {
    Nil,
    Generic(OfferType, Outcome),
    PlayerLookup(usize),
    NoFirstGoalscorer,
    NoAnytimeGoalscorer,
    NoAnytimeAssist,
}

/// Offer types that are priced from an exploration of the match; the
/// auxiliary ones and player shots on target are not.
pub open spec fn explorable(offer_type: OfferType) -> bool {
    !(offer_type is DrawNoBet || offer_type is SplitHandicap || offer_type is PlayerShotsOnTarget)
}

pub open spec fn period_requirements(period: Period) -> Expansions {
    Expansions {
        ht_score: period != Period::FullTime,
        ft_score: period != Period::FirstHalf,
        ..Expansions::none()
    }
}

/// The expansions that an exploration needs to price an offer of the type.
pub open spec fn requirements_of(offer_type: OfferType) -> Expansions {
    match offer_type {
        OfferType::HeadToHead(period, _) => period_requirements(period),
        OfferType::TotalGoals(period, _) => period_requirements(period),
        OfferType::CorrectScore(period) => period_requirements(period),
        OfferType::AsianHandicap(period, _) => period_requirements(period),
        OfferType::FirstGoalscorer => Expansions { first_goalscorer: true, ..Expansions::none() },
        OfferType::AnytimeGoalscorer => Expansions { max_player_goals: 1, ..Expansions::none() },
        OfferType::AnytimeAssist => Expansions { max_player_assists: 1, ..Expansions::none() },
        _ => Expansions::none(),
    }
}

fn period_expansions(period: &Period) -> (expansions: Expansions)
    ensures
        expansions == period_requirements(*period),
{
    match period {
        Period::FirstHalf => Expansions {
            ht_score: true,
            ft_score: false,
            max_player_goals: 0,
            player_split_goal_stats: false,
            max_player_assists: 0,
            first_goalscorer: false,
        },
        Period::SecondHalf => Expansions {
            ht_score: true,
            ft_score: true,
            max_player_goals: 0,
            player_split_goal_stats: false,
            max_player_assists: 0,
            first_goalscorer: false,
        },
        Period::FullTime => Expansions {
            ht_score: false,
            ft_score: true,
            max_player_goals: 0,
            player_split_goal_stats: false,
            max_player_assists: 0,
            first_goalscorer: false,
        },
    }
}

pub fn requirements(offer_type: &OfferType) -> (expansions: Expansions)
    requires
        explorable(*offer_type),
    ensures
        expansions == requirements_of(*offer_type),
{
    match offer_type {
        OfferType::HeadToHead(period, _) => period_expansions(period),
        OfferType::TotalGoals(period, _) => period_expansions(period),
        OfferType::CorrectScore(period) => period_expansions(period),
        OfferType::AsianHandicap(period, _) => period_expansions(period),
        OfferType::FirstGoalscorer => Expansions {
            ht_score: false,
            ft_score: false,
            max_player_goals: 0,
            player_split_goal_stats: false,
            max_player_assists: 0,
            first_goalscorer: true,
        },
        OfferType::AnytimeGoalscorer => Expansions {
            ht_score: false,
            ft_score: false,
            max_player_goals: 1,
            player_split_goal_stats: false,
            max_player_assists: 0,
            first_goalscorer: false,
        },
        _ => Expansions {
            ht_score: false,
            ft_score: false,
            max_player_goals: 0,
            player_split_goal_stats: false,
            max_player_assists: 1,
            first_goalscorer: false,
        },
    }
}

/// A period's goals can be read off the prospect: the second half's are the
/// full-time goals less the half-time ones.
pub open spec fn period_known(period: Period, prospect: ProspectView) -> bool {
    period == Period::SecondHalf ==> prospect.ft_score.home >= prospect.ht_score.home
        && prospect.ft_score.away >= prospect.ht_score.away
}

/// The home and away goals of `period` in the prospect.
pub open spec fn period_goals(period: Period, prospect: ProspectView) -> (int, int) {
    match period {
        Period::FirstHalf => (prospect.ht_score.home as int, prospect.ht_score.away as int),
        Period::SecondHalf => (
            prospect.ft_score.home - prospect.ht_score.home,
            prospect.ft_score.away - prospect.ht_score.away,
        ),
        Period::FullTime => (prospect.ft_score.home as int, prospect.ft_score.away as int),
    }
}

/// A side that leads by `margin` (negative when behind) wins with the
/// handicap: ahead by more than `n`, or behind by less than `n`.
pub open spec fn wins_by(margin: int, handicap: WinHandicap) -> bool {
    match handicap {
        WinHandicap::AheadOver(by) => margin > by,
        WinHandicap::BehindUnder(by) => margin > -by,
    }
}

/// The home side's lead is exactly the handicap's.
pub open spec fn draws_at(home_margin: int, handicap: DrawHandicap) -> bool {
    match handicap {
        DrawHandicap::Ahead(by) => home_margin == by,
        DrawHandicap::Behind(by) => home_margin == -by,
    }
}

/// Whether `outcome` of an offer of `offer_type` comes true when the period
/// ends `home`:`away`.
pub open spec fn outcome_on_goals(offer_type: OfferType, outcome: Outcome, home: int, away: int) -> bool {
    match (offer_type, outcome) {
        (OfferType::HeadToHead(_, _), Outcome::Win(Side::Home, handicap)) => wins_by(home - away, handicap),
        (OfferType::HeadToHead(_, _), Outcome::Win(Side::Away, handicap)) => wins_by(away - home, handicap),
        (OfferType::HeadToHead(_, _), Outcome::Draw(handicap)) => draws_at(home - away, handicap),
        (OfferType::AsianHandicap(_, _), Outcome::Win(Side::Home, handicap)) => wins_by(home - away, handicap),
        (OfferType::AsianHandicap(_, _), Outcome::Win(Side::Away, handicap)) => wins_by(away - home, handicap),
        (OfferType::TotalGoals(_, _), Outcome::Over(goals)) => home + away > goals,
        (OfferType::TotalGoals(_, _), Outcome::Under(goals)) => home + away < goals,
        (OfferType::CorrectScore(_), Outcome::Score(score)) => home == score.home && away == score.away,
        _ => false,
    }
}

/// The period that an offer settles on.
pub open spec fn settles_on(offer_type: OfferType) -> Period {
    match offer_type {
        OfferType::HeadToHead(period, _) => period,
        OfferType::TotalGoals(period, _) => period,
        OfferType::CorrectScore(period) => period,
        OfferType::AsianHandicap(period, _) => period,
        _ => Period::FullTime,
    }
}

/// Offer types whose outcomes are decided by the score of a period.
pub open spec fn score_based(offer_type: OfferType) -> bool {
    offer_type is HeadToHead || offer_type is TotalGoals || offer_type is CorrectScore
        || offer_type is AsianHandicap
}

/// The outcome kinds that each score-based offer type queries.
pub open spec fn outcome_supported(offer_type: OfferType, outcome: Outcome) -> bool {
    match (offer_type, outcome) {
        (OfferType::HeadToHead(_, _), Outcome::Win(_, _)) => true,
        (OfferType::HeadToHead(_, _), Outcome::Draw(_)) => true,
        (OfferType::AsianHandicap(_, _), Outcome::Win(_, _)) => true,
        (OfferType::TotalGoals(_, _), Outcome::Over(_)) => true,
        (OfferType::TotalGoals(_, _), Outcome::Under(_)) => true,
        (OfferType::CorrectScore(_), Outcome::Score(_)) => true,
        _ => false,
    }
}

/// Whether a prospect satisfies the query made for an offer of `offer_type`.
pub open spec fn query_holds(offer_type: OfferType, query: QuerySpec, prospect: ProspectView) -> bool {
    match query {
        QuerySpec::Generic(queried, outcome) => {
            let (home, away) = period_goals(settles_on(queried), prospect);
            outcome_on_goals(queried, outcome, home, away)
        },
        QuerySpec::PlayerLookup(player) => match offer_type {
            OfferType::FirstGoalscorer => prospect.first_scorer == Some(player),
            OfferType::AnytimeGoalscorer => prospect.stats[player as int].h1.goals > 0
                || prospect.stats[player as int].h2.goals > 0,
            _ => prospect.stats[player as int].assists > 0,
        },
        QuerySpec::NoFirstGoalscorer => prospect.first_scorer is None,
        QuerySpec::NoAnytimeGoalscorer => forall|i: int|
            0 <= i < prospect.stats.len() ==> !((#[trigger] prospect.stats[i]).h1.goals > 0
                || prospect.stats[i].h2.goals > 0),
        QuerySpec::NoAnytimeAssist => forall|i: int|
            0 <= i < prospect.stats.len() ==> !((#[trigger] prospect.stats[i]).assists > 0),
        QuerySpec::Nil => false,
    }
}

/// The queries that each offer type can answer on a prospect.
pub open spec fn filterable(offer_type: OfferType, query: QuerySpec, prospect: ProspectView) -> bool {
    match offer_type {
        OfferType::HeadToHead(_, _) => query matches QuerySpec::Generic(queried, outcome)
            && queried is HeadToHead && outcome_supported(queried, outcome) && period_known(
            settles_on(queried),
            prospect,
        ),
        OfferType::AsianHandicap(_, _) => query matches QuerySpec::Generic(queried, outcome)
            && queried is AsianHandicap && outcome_supported(queried, outcome) && period_known(
            settles_on(queried),
            prospect,
        ),
        OfferType::TotalGoals(_, _) => query matches QuerySpec::Generic(queried, outcome)
            && queried is TotalGoals && outcome_supported(queried, outcome) && period_known(
            settles_on(queried),
            prospect,
        ),
        OfferType::CorrectScore(_) => query matches QuerySpec::Generic(queried, outcome)
            && queried is CorrectScore && outcome_supported(queried, outcome) && period_known(
            settles_on(queried),
            prospect,
        ),
        OfferType::FirstGoalscorer => query is PlayerLookup || query is NoFirstGoalscorer,
        OfferType::AnytimeGoalscorer => (query matches QuerySpec::PlayerLookup(player) && player
            < prospect.stats.len()) || query is NoAnytimeGoalscorer,
        OfferType::AnytimeAssist => (query matches QuerySpec::PlayerLookup(player) && player
            < prospect.stats.len()) || query is NoAnytimeAssist,
        _ => false,
    }
}

fn period_scores(period: &Period, prospect: &Prospect) -> (goals: (u8, u8))
    requires
        period_known(*period, prospect@),
    ensures
        (goals.0 as int, goals.1 as int) == period_goals(*period, prospect@),
{
    match period {
        Period::FirstHalf => (prospect.ht_score.home, prospect.ht_score.away),
        Period::SecondHalf => {
            let h2_score = prospect.h2_score();
            (h2_score.home, h2_score.away)
        },
        Period::FullTime => (prospect.ft_score.home, prospect.ft_score.away),
    }
}

fn wins(handicap: &WinHandicap, goals_for: u8, goals_against: u8) -> (won: bool)
    ensures
        won == wins_by(goals_for - goals_against, *handicap),
{
    match handicap {
        WinHandicap::AheadOver(by) => goals_for.saturating_sub(goals_against) > *by,
        WinHandicap::BehindUnder(by) => goals_for > goals_against || goals_against - goals_for < *by,
    }
}

fn score_filter(query: &QuerySpec, prospect: &Prospect) -> (satisfied: bool)
    requires
        *query matches QuerySpec::Generic(queried, outcome) && score_based(queried)
            && outcome_supported(queried, outcome) && period_known(settles_on(queried), prospect@),
    ensures
        satisfied == query_holds(OfferType::AnytimeAssist, *query, prospect@),
{
    match query {
        QuerySpec::Generic(queried, outcome) => {
            let period = match queried {
                OfferType::HeadToHead(period, _) => period,
                OfferType::TotalGoals(period, _) => period,
                OfferType::CorrectScore(period) => period,
                OfferType::AsianHandicap(period, _) => period,
                _ => {
                    assert(false);
                    return false;
                },
            };
            let (home_goals, away_goals) = period_scores(period, prospect);
            match outcome {
                Outcome::Win(Side::Home, handicap) => wins(handicap, home_goals, away_goals),
                Outcome::Win(Side::Away, handicap) => wins(handicap, away_goals, home_goals),
                Outcome::Draw(DrawHandicap::Ahead(by)) => home_goals >= away_goals && home_goals
                    - away_goals == *by,
                Outcome::Draw(DrawHandicap::Behind(by)) => away_goals >= home_goals && away_goals
                    - home_goals == *by,
                Outcome::Over(goals) => home_goals as u16 + away_goals as u16 > *goals as u16,
                Outcome::Under(goals) => (home_goals as u16 + away_goals as u16) < *goals as u16,
                Outcome::Score(score) => score.home == home_goals && score.away == away_goals,
                _ => {
                    assert(false);
                    false
                },
            }
        },
        _ => {
            assert(false);
            false
        },
    }
}

/// Whether `prospect` satisfies `query`, made for an offer of `offer_type`.
pub fn filter(offer_type: &OfferType, query: &QuerySpec, prospect: &Prospect) -> (satisfied: bool)
    requires
        filterable(*offer_type, *query, prospect@),
    ensures
        satisfied == query_holds(*offer_type, *query, prospect@),
{
    match offer_type {
        OfferType::HeadToHead(_, _)
        | OfferType::AsianHandicap(_, _)
        | OfferType::TotalGoals(_, _)
        | OfferType::CorrectScore(_) => score_filter(query, prospect),
        OfferType::FirstGoalscorer => match query {
            QuerySpec::PlayerLookup(target_player) => match prospect.first_scorer {
                None => false,
                Some(scorer) => scorer == *target_player,
            },
            _ => prospect.first_scorer.is_none(),
        },
        OfferType::AnytimeGoalscorer => match query {
            QuerySpec::PlayerLookup(target_player) => {
                let stats = &prospect.stats[*target_player];
                stats.h1.goals > 0 || stats.h2.goals > 0
            },
            _ => {
                let mut i: usize = 0;
                while i < prospect.stats.len()
                    invariant
                        0 <= i <= prospect.stats@.len(),
                        *offer_type is AnytimeGoalscorer,
                        *query is NoAnytimeGoalscorer,
                        forall|j: int|
                            0 <= j < i ==> !(#[trigger] prospect.stats@[j].h1.goals > 0
                                || prospect.stats@[j].h2.goals > 0),
                    decreases prospect.stats@.len() - i,
                {
                    if prospect.stats[i].h1.goals > 0 || prospect.stats[i].h2.goals > 0 {
                        assert(prospect@.stats[i as int] == prospect.stats@[i as int]);
                        return false;
                    }
                    i = i + 1;
                }
                true
            },
        },
        _ => match query {
            QuerySpec::PlayerLookup(target_player) => prospect.stats[*target_player].assists > 0,
            _ => {
                let mut i: usize = 0;
                while i < prospect.stats.len()
                    invariant
                        0 <= i <= prospect.stats@.len(),
                        *offer_type is AnytimeAssist,
                        *query is NoAnytimeAssist,
                        forall|j: int| 0 <= j < i ==> !(#[trigger] prospect.stats@[j].assists > 0),
                    decreases prospect.stats@.len() - i,
                {
                    if prospect.stats[i].assists > 0 {
                        assert(prospect@.stats[i as int] == prospect.stats@[i as int]);
                        return false;
                    }
                    i = i + 1;
                }
                true
            },
        },
    }
}

/// The outcomes that can be queried on an offer of `offer_type`: an
/// outcome of the kind that the type settles, or, for the player offers, a
/// player of `players` or no player.
pub open spec fn preparable(offer_type: OfferType, outcome: Outcome, players: Seq<Player>) -> bool {
    match offer_type {
        OfferType::FirstGoalscorer | OfferType::AnytimeGoalscorer | OfferType::AnytimeAssist => match outcome {
            Outcome::Player(player) => holds(players, player),
            Outcome::Nil => true,
            _ => false,
        },
        _ => explorable(offer_type),
    }
}

/// The query made for `outcome` of an offer of `offer_type`.
pub open spec fn prepared(offer_type: OfferType, outcome: Outcome, players: Seq<Player>, query: QuerySpec) -> bool {
    match offer_type {
        OfferType::FirstGoalscorer | OfferType::AnytimeGoalscorer | OfferType::AnytimeAssist => match outcome {
            Outcome::Player(player) => query matches QuerySpec::PlayerLookup(index) && index
                < players.len() && players[index as int].same(player),
            _ => query == if offer_type is FirstGoalscorer {
                QuerySpec::NoFirstGoalscorer
            } else if offer_type is AnytimeGoalscorer {
                QuerySpec::NoAnytimeGoalscorer
            } else {
                QuerySpec::NoAnytimeAssist
            },
        },
        _ => query == QuerySpec::Generic(offer_type, outcome),
    }
}

pub fn prepare(offer_type: &OfferType, outcome: &Outcome, player_lookup: &HashLookup<Player>) -> (query: QuerySpec)
    requires
        preparable(*offer_type, *outcome, player_lookup@),
    ensures
        prepared(*offer_type, *outcome, player_lookup@, query),
{
    match offer_type {
        OfferType::FirstGoalscorer | OfferType::AnytimeGoalscorer | OfferType::AnytimeAssist => match outcome {
            Outcome::Player(player) => match player_lookup.index_of(player) {
                Some(index) => QuerySpec::PlayerLookup(index),
                None => {
                    assert(false);
                    QuerySpec::Nil
                },
            },
            _ => match offer_type {
                OfferType::FirstGoalscorer => QuerySpec::NoFirstGoalscorer,
                OfferType::AnytimeGoalscorer => QuerySpec::NoAnytimeGoalscorer,
                _ => QuerySpec::NoAnytimeAssist,
            },
        },
        _ => QuerySpec::Generic(*offer_type, outcome.clone()),
    }
}

/// Whether `prospect` satisfies every one of `queries`, each made for an
/// offer of the type beside it: the prospects that count towards the
/// probability of a multi.
pub fn filter_all(queries: &[(OfferType, QuerySpec)], prospect: &Prospect) -> (satisfied: bool)
    requires
        forall|i: int|
            0 <= i < queries@.len() ==> filterable(
                (#[trigger] queries@[i]).0,
                queries@[i].1,
                prospect@,
            ),
    ensures
        satisfied == forall|i: int|
            0 <= i < queries@.len() ==> query_holds(
                (#[trigger] queries@[i]).0,
                queries@[i].1,
                prospect@,
            ),
{
    let mut i: usize = 0;
    while i < queries.len()
        invariant
            0 <= i <= queries@.len(),
            forall|i: int|
                0 <= i < queries@.len() ==> filterable(
                    (#[trigger] queries@[i]).0,
                    queries@[i].1,
                    prospect@,
                ),
            forall|j: int|
                0 <= j < i ==> query_holds((#[trigger] queries@[j]).0, queries@[j].1, prospect@),
        decreases queries@.len() - i,
    {
        let (offer_type, query) = &queries[i];
        if !filter(offer_type, query, prospect) {
            return false;
        }
        i = i + 1;
    }
    true
}

} // verus!
