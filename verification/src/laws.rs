use vstd::prelude::*;

use crate::data::{feed_market_convertible, feed_offer_type, feed_outcomes, FeedMarket, PlayerMarket};
use crate::domain::{DrawHandicap, OfferType, Outcome, WinHandicap};
use crate::interval::{Expansions, PartialProspect, Half, ProspectView, merged, mergeable};
use crate::domain::{Period, Score, Side};
use crate::lookup::{distinct, first_occurrences, holds, lemma_distinct_within_is_shorter, HashLookup, Keyed};
use crate::model::{
    auxiliary_sources, derivation_order, multi_requirements, split_handicap_case_of, stubs_where,
    SplitHandicapCase,
};
use crate::query::{
    explorable, outcome_on_goals, wins_by, period_goals, period_known, query_holds, requirements_of, settles_on,
    QuerySpec,
};
use crate::validation::all_held;

verus! {

/// Flipping a European handicap twice gives it back.
pub proof fn lemma_flip_european_involutive(handicap: WinHandicap)
    ensures
        handicap.flip_european_spec().flip_european_spec() == handicap,
{
}

/// Flipping an Asian handicap twice gives it back, wherever the flip exists.
pub proof fn lemma_flip_asian_involutive(handicap: WinHandicap)
    requires
        handicap.flips_asian(),
    ensures
        handicap.flip_asian_spec().flips_asian(),
        handicap.flip_asian_spec().flip_asian_spec() == handicap,
{
}

/// Flipping a draw handicap twice gives it back; `Behind(0)` has no flip.
pub proof fn lemma_draw_flip_involutive(handicap: DrawHandicap)
    requires
        handicap != DrawHandicap::Behind(0),
    ensures
        handicap.flip_spec() != DrawHandicap::Behind(0),
        handicap.flip_spec().flip_spec() == handicap,
{
}

/// Whether `outcome` of an offer of `offer_type` comes true in `prospect`.
pub open spec fn settles(offer_type: OfferType, outcome: Outcome, prospect: ProspectView) -> bool {
    query_holds(offer_type, QuerySpec::Generic(offer_type, outcome), prospect)
}

/// Exactly one of `outcomes` comes true in `prospect`.
pub open spec fn exactly_one_settles(
    offer_type: OfferType,
    outcomes: Seq<Outcome>,
    prospect: ProspectView,
) -> bool {
    exists|i: int|
        0 <= i < outcomes.len() && settles(offer_type, #[trigger] outcomes[i], prospect) && forall|
            j: int,
        | 0 <= j < outcomes.len() && j != i ==> !settles(offer_type, #[trigger] outcomes[j], prospect)
}

/// The outcomes of a head-to-head (with any handicap), an Asian handicap or
/// a total-goals offer cover every match state once: in every prospect
/// exactly one of them comes true. This is why their probabilities add up
/// to one.
pub proof fn lemma_outcomes_partition(offer_type: OfferType, prospect: ProspectView)
    requires
        offer_type is HeadToHead || offer_type is AsianHandicap || offer_type is TotalGoals,
        offer_type.outcomes_defined(),
        period_known(settles_on(offer_type), prospect),
    ensures
        exactly_one_settles(offer_type, offer_type.valid_outcomes(), prospect),
{
    let outcomes = offer_type.valid_outcomes();
    let (home, away) = period_goals(settles_on(offer_type), prospect);
    if settles(offer_type, outcomes[0], prospect) {
        assert(forall|j: int|
            0 <= j < outcomes.len() && j != 0 ==> !settles(offer_type, #[trigger] outcomes[j], prospect));
    } else if settles(offer_type, outcomes[1], prospect) {
        assert(forall|j: int|
            0 <= j < outcomes.len() && j != 1 ==> !settles(offer_type, #[trigger] outcomes[j], prospect));
    } else {
        assert(outcomes.len() == 3);
        assert(settles(offer_type, outcomes[2], prospect));
        assert(forall|j: int|
            0 <= j < outcomes.len() && j != 2 ==> !settles(offer_type, #[trigger] outcomes[j], prospect));
    }
}

/// "No goalscorer" comes true exactly when no player scores.
pub proof fn lemma_no_anytime_goalscorer_complements_players(prospect: ProspectView)
    requires
        prospect.stats.len() <= usize::MAX,
    ensures
        query_holds(OfferType::AnytimeGoalscorer, QuerySpec::NoAnytimeGoalscorer, prospect) <==> forall|
            player: usize,
        |
            player < prospect.stats.len() ==> !#[trigger] query_holds(
                OfferType::AnytimeGoalscorer,
                QuerySpec::PlayerLookup(player),
                prospect,
            ),
{
    if !query_holds(OfferType::AnytimeGoalscorer, QuerySpec::NoAnytimeGoalscorer, prospect) {
        let i = choose|i: int|
            0 <= i < prospect.stats.len() && ((#[trigger] prospect.stats[i]).h1.goals > 0
                || prospect.stats[i].h2.goals > 0);
        assert(query_holds(
            OfferType::AnytimeGoalscorer,
            QuerySpec::PlayerLookup(i as usize),
            prospect,
        ));
    }
}

/// "No assist" comes true exactly when no player assists.
pub proof fn lemma_no_anytime_assist_complements_players(prospect: ProspectView)
    requires
        prospect.stats.len() <= usize::MAX,
    ensures
        query_holds(OfferType::AnytimeAssist, QuerySpec::NoAnytimeAssist, prospect) <==> forall|
            player: usize,
        |
            player < prospect.stats.len() ==> !#[trigger] query_holds(
                OfferType::AnytimeAssist,
                QuerySpec::PlayerLookup(player),
                prospect,
            ),
{
    if !query_holds(OfferType::AnytimeAssist, QuerySpec::NoAnytimeAssist, prospect) {
        let i = choose|i: int|
            0 <= i < prospect.stats.len() && (#[trigger] prospect.stats[i]).assists > 0;
        assert(query_holds(OfferType::AnytimeAssist, QuerySpec::PlayerLookup(i as usize), prospect));
    }
}

/// "No first goalscorer" comes true exactly when no player scores first,
/// and at most one player scores first.
pub proof fn lemma_first_goalscorer_unique(prospect: ProspectView, a: usize, b: usize)
    ensures
        query_holds(OfferType::FirstGoalscorer, QuerySpec::NoFirstGoalscorer, prospect) <==> forall|
            player: usize,
        | !#[trigger] query_holds(OfferType::FirstGoalscorer, QuerySpec::PlayerLookup(player), prospect),
        query_holds(OfferType::FirstGoalscorer, QuerySpec::PlayerLookup(a), prospect) && query_holds(
            OfferType::FirstGoalscorer,
            QuerySpec::PlayerLookup(b),
            prospect,
        ) ==> a == b,
{
    if let Some(first) = prospect.first_scorer {
        assert(query_holds(OfferType::FirstGoalscorer, QuerySpec::PlayerLookup(first), prospect));
    }
}

/// The expansions that each explorable offer type asks for can drive an
/// exploration.
pub proof fn lemma_requirements_valid(offer_type: OfferType)
    requires
        explorable(offer_type),
    ensures
        requirements_of(offer_type).valid(),
{
}

/// Joining expansions is commutative, associative and idempotent, with no
/// expansions as its unit and all expansions absorbing.
pub proof fn lemma_join_is_semilattice(a: Expansions, b: Expansions, c: Expansions)
    ensures
        a.join(b) == b.join(a),
        a.join(b).join(c) == a.join(b.join(c)),
        a.join(a) == a,
        a.join(Expansions::none()) == a,
        a.join(Expansions::all()) == Expansions::all(),
{
}

/// What a joined set of expansions needs is what either part needs.
pub proof fn lemma_join_requirements(a: Expansions, b: Expansions)
    ensures
        a.join(b).needs_team_goal_probs() == (a.needs_team_goal_probs() || b.needs_team_goal_probs()),
        a.join(b).needs_team_assist_probs() == (a.needs_team_assist_probs()
            || b.needs_team_assist_probs()),
        a.join(b).needs_player_goal_probs() == (a.needs_player_goal_probs()
            || b.needs_player_goal_probs()),
        a.join(b).needs_player_assist_probs() == (a.needs_player_assist_probs()
            || b.needs_player_assist_probs()),
{
}

/// Where the full-time score is kept, each goal of an interval adds one to
/// it, and nothing else changes it.
pub proof fn lemma_merge_counts_goals(
    expansions: Expansions,
    half: Half,
    current: ProspectView,
    partial: PartialProspect,
)
    requires
        expansions.ft_score,
        mergeable(expansions, half, current, partial),
    ensures
        merged(expansions, half, current, partial).ft_score.home == current.ft_score.home + (
        if partial.home_scorer is Some {
            1int
        } else {
            0int
        }),
        merged(expansions, half, current, partial).ft_score.away == current.ft_score.away + (
        if partial.away_scorer is Some {
            1int
        } else {
            0int
        }),
        merged(expansions, half, current, partial).stats.len() == current.stats.len(),
{
}

/// An offer's outcomes that pass the completeness check are each one of the
/// type's outcomes: `validate_outcomes` accepting a lookup implies
/// `validate_outcome` accepting every outcome in it.
pub proof fn lemma_complete_outcomes_each_valid(offer_type: OfferType, given: Seq<Outcome>)
    requires
        offer_type.constrains_outcomes(),
        offer_type.outcomes_defined(),
        distinct(given),
        all_held(offer_type.valid_outcomes(), given),
        given.len() == offer_type.valid_outcomes().len(),
    ensures
        all_held(given, offer_type.valid_outcomes()),
{
    let valid = offer_type.valid_outcomes();
    assert(distinct(valid));
    assert forall|k: int| 0 <= k < given.len() implies holds(valid, #[trigger] given[k]) by {
        if !holds(valid, given[k]) {
            let rest = given.remove(k);
            assert forall|i: int| 0 <= i < valid.len() implies holds(rest, #[trigger] valid[i]) by {
                assert(holds(given, valid[i]));
                let j = choose|j: int| 0 <= j < given.len() && #[trigger] given[j].same(valid[i]);
                if j == k {
                    Outcome::lemma_same_is_equivalence(given[k], valid[i], valid[i]);
                } else if j < k {
                    assert(rest[j] == given[j]);
                } else {
                    assert(rest[j - 1] == given[j]);
                }
            }
            lemma_distinct_within_is_shorter(valid, rest);
        }
    }
}

/// The outcomes that a feed's head-to-head, draw-no-bet or handicap market
/// becomes are its offer type's outcomes, in order, as are those of a goals
/// market whose line lies between two goal counts; such offers pass the
/// completeness check.
pub proof fn lemma_feed_outcomes_are_valid(market: FeedMarket)
    requires
        feed_market_convertible(market),
        market is HeadToHead || market is DrawNoBet || market is TwoWayHandicap
            || market is ThreeWayHandicap || (market matches FeedMarket::GoalsOverUnder(
            _,
            over,
            under,
        ) && under == over + 1),
    ensures
        feed_offer_type(market) matches Some(offer_type) && offer_type.outcomes_defined()
            && offer_type.constrains_outcomes() && feed_outcomes(market)
            == offer_type.valid_outcomes(),
{
    assert(feed_outcomes(market) =~= feed_offer_type(market).unwrap().valid_outcomes());
}

/// A correct score decides every head-to-head outcome of the same period:
/// where the score comes true, a head-to-head outcome comes true exactly
/// when that score satisfies it. So a score and an outcome it implies hold
/// together, and a score and an outcome it excludes never do.
pub proof fn lemma_correct_score_decides_head_to_head(
    period: Period,
    score: Score,
    draw: DrawHandicap,
    outcome: Outcome,
    prospect: ProspectView,
)
    requires
        period_known(period, prospect),
        settles(OfferType::CorrectScore(period), Outcome::Score(score), prospect),
    ensures
        settles(OfferType::HeadToHead(period, draw), outcome, prospect) <==> outcome_on_goals(
            OfferType::HeadToHead(period, draw),
            outcome,
            score.home as int,
            score.away as int,
        ),
{
}

/// Merging an interval never takes anything away: the kept scores and every
/// player's statistics do not decrease, a first goalscorer once decided
/// stays, and statistics grow past their caps only where they already were.
pub proof fn lemma_merge_monotone(
    expansions: Expansions,
    half: Half,
    current: ProspectView,
    partial: PartialProspect,
)
    requires
        mergeable(expansions, half, current, partial),
    ensures
        ({
            let next = merged(expansions, half, current, partial);
            &&& next.stats.len() == current.stats.len()
            &&& next.ft_score.home >= current.ft_score.home
            &&& next.ft_score.away >= current.ft_score.away
            &&& next.ht_score.home >= current.ht_score.home
            &&& next.ht_score.away >= current.ht_score.away
            &&& current.first_scorer is Some ==> next.first_scorer == current.first_scorer
            &&& forall|i: int|
                0 <= i < current.stats.len() ==> {
                    &&& (#[trigger] next.stats[i]).h1.goals >= current.stats[i].h1.goals
                    &&& next.stats[i].h2.goals >= current.stats[i].h2.goals
                    &&& next.stats[i].assists >= current.stats[i].assists
                    &&& next.stats[i].h1.goals <= current.stats[i].h1.goals
                        || next.stats[i].h1.goals <= expansions.max_player_goals
                    &&& next.stats[i].h2.goals <= current.stats[i].h2.goals
                        || next.stats[i].h2.goals <= expansions.max_player_goals
                    &&& next.stats[i].assists <= current.stats[i].assists
                        || next.stats[i].assists <= expansions.max_player_assists
                }
        }),
{
}

/// Building a lookup keeps every key of the items once: the result holds no
/// key twice and holds exactly the keys that the items hold.
pub proof fn lemma_first_occurrences_keep_keys<T: Keyed>(items: Seq<T>)
    ensures
        distinct(first_occurrences(items)),
        forall|x: T| holds(first_occurrences(items), x) <==> holds(items, x),
    decreases items.len(),
{
    if items.len() > 0 {
        let prefix = items.drop_last();
        let last = items.last();
        lemma_first_occurrences_keep_keys(prefix);
        let kept = first_occurrences(prefix);
        let r = first_occurrences(items);
        assert(prefix.len() + 1 == items.len());
        assert forall|i: int| 0 <= i < prefix.len() implies #[trigger] prefix[i] == items[i] by {}
        assert forall|x: T| #[trigger] holds(r, x) implies holds(items, x) by {
            let j = choose|j: int| 0 <= j < r.len() && #[trigger] r[j].same(x);
            if j < kept.len() {
                assert(r[j] == kept[j]);
                assert(holds(kept, x));
                assert(holds(prefix, x));
                let i = choose|i: int| 0 <= i < prefix.len() && #[trigger] prefix[i].same(x);
                assert(items[i] == prefix[i]);
                assert(items[i].same(x));
            } else {
                assert(r[j] == last);
                assert(items[items.len() - 1] == last);
                assert(items[items.len() - 1].same(x));
            }
        }
        assert forall|x: T| #[trigger] holds(items, x) implies holds(r, x) by {
            let i = choose|i: int| 0 <= i < items.len() && #[trigger] items[i].same(x);
            if i < prefix.len() {
                assert(prefix[i] == items[i]);
                assert(prefix[i].same(x));
                assert(holds(prefix, x));
                assert(holds(kept, x));
                let j = choose|j: int| 0 <= j < kept.len() && #[trigger] kept[j].same(x);
                assert(r[j] == kept[j]);
                assert(r[j].same(x));
            } else if holds(kept, last) {
                assert(items[i] == last);
                let j = choose|j: int| 0 <= j < kept.len() && #[trigger] kept[j].same(last);
                T::lemma_same_is_equivalence(kept[j], last, x);
                assert(r[j] == kept[j]);
                assert(r[j].same(x));
            } else {
                assert(items[i] == last);
                assert(r[kept.len() as int] == last);
                assert(r[kept.len() as int].same(x));
            }
        }
        if !holds(kept, last) {
            assert forall|i: int, j: int|
                0 <= i < r.len() && 0 <= j < r.len() && i != j implies !(#[trigger] r[i]).same(
                #[trigger] r[j],
            ) by {
                if i == kept.len() {
                    assert(r[i] == last);
                    assert(r[j] == kept[j]);
                    if last.same(kept[j]) {
                        T::lemma_same_is_equivalence(last, kept[j], last);
                        assert(kept[j].same(last));
                    }
                } else if j == kept.len() {
                    assert(r[j] == last);
                    assert(r[i] == kept[i]);
                } else {
                    assert(r[i] == kept[i] && r[j] == kept[j]);
                }
            }
        }
    }
}

/// The expansions that a multi of explorable selections needs can drive an
/// exploration: joining the needs of its selections keeps them valid.
pub proof fn lemma_multi_requirements_valid(selections: Seq<(OfferType, Outcome)>)
    requires
        selections.len() > 0,
        forall|k: int| 0 <= k < selections.len() ==> explorable((#[trigger] selections[k]).0),
    ensures
        multi_requirements(selections).valid(),
    decreases selections.len(),
{
    let last = selections.last();
    assert(explorable(selections[selections.len() - 1].0));
    lemma_requirements_valid(last.0);
    if selections.len() > 1 {
        let prefix = selections.drop_last();
        assert forall|k: int| 0 <= k < prefix.len() implies explorable((#[trigger] prefix[k]).0) by {
            assert(prefix[k] == selections[k]);
        }
        lemma_multi_requirements_valid(prefix);
    } else {
        assert(selections.drop_last().len() == 0);
    }
}

/// A derivation prices every stub exactly once: its order lists each
/// position of the stubs once.
pub proof fn lemma_derivation_order_is_permutation(stubs: Seq<(OfferType, HashLookup<Outcome>)>)
    requires
        stubs.len() <= usize::MAX,
    ensures
        derivation_order(stubs).len() == stubs.len(),
        forall|k: usize| k < stubs.len() ==> #[trigger] derivation_order(stubs).contains(k),
        forall|i: int, j: int|
            0 <= i < j < stubs.len() ==> derivation_order(stubs)[i] != derivation_order(stubs)[j],
{
    lemma_stubs_where(stubs, false);
    lemma_stubs_where(stubs, true);
    let explored = stubs_where(stubs, false);
    let auxiliaries = stubs_where(stubs, true);
    let order = derivation_order(stubs);
    assert forall|k: usize| k < stubs.len() implies #[trigger] order.contains(k) by {
        if stubs[k as int].0.auxiliary() {
            let p = choose|p: int| 0 <= p < auxiliaries.len() && auxiliaries[p] == k;
            assert(order[explored.len() + p] == k);
        } else {
            let p = choose|p: int| 0 <= p < explored.len() && explored[p] == k;
            assert(order[p] == k);
        }
    }
    assert forall|i: int, j: int| 0 <= i < j < order.len() implies order[i] != order[j] by {
        if j < explored.len() {
        } else if i >= explored.len() {
            assert(order[i] == auxiliaries[i - explored.len()]);
            assert(order[j] == auxiliaries[j - explored.len()]);
        } else {
            assert(order[i] == explored[i]);
            assert(order[j] == auxiliaries[j - explored.len()]);
            assert(!stubs[order[i] as int].0.auxiliary());
            assert(stubs[order[j] as int].0.auxiliary());
        }
    }
}

/// The positions of the stubs that are (or are not) auxiliary, in order:
/// increasing, each such position once, and together with the other kind
/// as many as the stubs.
proof fn lemma_stubs_where(stubs: Seq<(OfferType, HashLookup<Outcome>)>, auxiliary: bool)
    requires
        stubs.len() <= usize::MAX,
    ensures
        forall|p: int|
            0 <= p < stubs_where(stubs, auxiliary).len() ==> #[trigger] stubs_where(stubs, auxiliary)[p]
                < stubs.len(),
        forall|p: int|
            0 <= p < stubs_where(stubs, auxiliary).len() ==> (#[trigger] stubs[stubs_where(
                stubs,
                auxiliary,
            )[p] as int]).0.auxiliary() == auxiliary,
        forall|p: int, q: int|
            0 <= p < q < stubs_where(stubs, auxiliary).len() ==> #[trigger] stubs_where(
                stubs,
                auxiliary,
            )[p] < #[trigger] stubs_where(stubs, auxiliary)[q],
        forall|k: int|
            0 <= k < stubs.len() && (#[trigger] stubs[k]).0.auxiliary() == auxiliary ==> exists|p: int|
                0 <= p < stubs_where(stubs, auxiliary).len() && stubs_where(stubs, auxiliary)[p] == k,
        stubs_where(stubs, auxiliary).len() + stubs_where(stubs, !auxiliary).len() == stubs.len(),
    decreases stubs.len(),
{
    if stubs.len() > 0 {
        let prefix = stubs.drop_last();
        let n = prefix.len() as int;
        lemma_stubs_where(prefix, auxiliary);
        lemma_stubs_where(prefix, !auxiliary);
        let before = stubs_where(prefix, auxiliary);
        let r = stubs_where(stubs, auxiliary);
        let pushed = stubs.last().0.auxiliary() == auxiliary;
        if pushed {
            assert(r == before.push(n as usize));
        } else {
            assert(r == before);
        }
        assert forall|p: int| 0 <= p < r.len() implies #[trigger] r[p] < stubs.len() && stubs[r[p] as int].0.auxiliary() == auxiliary by {
            if p < before.len() {
                assert(r[p] == before[p]);
                assert(stubs[before[p] as int] == prefix[before[p] as int]);
                assert(prefix[before[p] as int].0.auxiliary() == auxiliary);
            } else {
                assert(r[p] == n);
            }
        }
        assert forall|p: int, q: int| 0 <= p < q < r.len() implies r[p] < r[q] by {
            assert(r[p] == before[p]);
            if q < before.len() {
                assert(r[q] == before[q]);
            } else {
                assert(r[q] == n);
                assert(prefix[before[p] as int].0.auxiliary() == auxiliary);
            }
        }
        assert forall|k: int|
            0 <= k < stubs.len() && (#[trigger] stubs[k]).0.auxiliary() == auxiliary implies exists|
                p: int,
            | 0 <= p < r.len() && r[p] == k by {
            if k < n {
                assert(prefix[k] == stubs[k]);
                assert(prefix[k].0.auxiliary() == auxiliary);
                let p = choose|p: int| 0 <= p < before.len() && before[p] == k;
                assert(r[p] == k);
            } else {
                assert(stubs[k] == stubs.last());
                assert(r[before.len() as int] == k);
            }
        }
    }
}

/// Exactly one correct score of a period comes true: the period's own
/// score, wherever its goals are known.
pub proof fn lemma_one_correct_score(period: Period, prospect: ProspectView, a: Score, b: Score)
    requires
        period_known(period, prospect),
    ensures
        settles(OfferType::CorrectScore(period), Outcome::Score(a), prospect) && settles(
            OfferType::CorrectScore(period),
            Outcome::Score(b),
            prospect,
        ) ==> a == b,
        ({
            let (home, away) = period_goals(period, prospect);
            settles(
                OfferType::CorrectScore(period),
                Outcome::Score(Score { home: home as u8, away: away as u8 }),
                prospect,
            )
        }),
{
}

/// The home side's lead at which a draw handicap draws.
pub open spec fn draw_line(draw: DrawHandicap) -> int {
    match draw {
        DrawHandicap::Ahead(by) => by as int,
        DrawHandicap::Behind(by) => -(by as int),
    }
}

/// Twice the line of a win handicap, as a lead of the side that holds it:
/// `AheadOver(n)` lies at `n + 1/2`, `BehindUnder(n)` at `-n + 1/2`.
pub open spec fn win_line_doubled(win: WinHandicap) -> int {
    match win {
        WinHandicap::AheadOver(by) => 2 * by + 1,
        WinHandicap::BehindUnder(by) => 1 - 2 * by,
    }
}

/// A side wins with a win handicap exactly when its lead is above the
/// handicap's line.
pub proof fn lemma_win_line(win: WinHandicap, lead: int)
    ensures
        wins_by(lead, win) <==> 2 * lead > win_line_doubled(win),
{
}

/// A split handicap is valid exactly when its win line lies half a goal to
/// one side of its draw line (the `x.25` and `x.75` lines), a level draw
/// line paired with a win line ahead being written `Ahead(0)`.
pub proof fn lemma_split_handicap_valid(period: Period, draw: DrawHandicap, win: WinHandicap)
    requires
        OfferType::SplitHandicap(period, draw, win).type_checkable(),
    ensures
        OfferType::SplitHandicap(period, draw, win).valid() <==> {
            &&& win_line_doubled(win) - 2 * draw_line(draw) == 1 || win_line_doubled(win) - 2
                * draw_line(draw) == -1
            &&& !(draw is Behind && win is AheadOver)
        },
{
}

/// The two probabilities that price a draw-no-bet are read where the home
/// side leads by more than the draw line and where it leads by less, from
/// the full-time head-to-head of the same handicap.
pub proof fn lemma_draw_no_bet_sources(draw: DrawHandicap, prospect: ProspectView)
    requires
        OfferType::DrawNoBet(draw).valid(),
    ensures
        ({
            let sources = auxiliary_sources(OfferType::DrawNoBet(draw));
            let margin = prospect.ft_score.home - prospect.ft_score.away;
            &&& sources.len() == 2
            &&& sources[0].0 == OfferType::HeadToHead(Period::FullTime, draw)
            &&& sources[1].0 == OfferType::HeadToHead(Period::FullTime, draw)
            &&& sources[0].0.valid_outcomes().contains(sources[0].1)
            &&& sources[1].0.valid_outcomes().contains(sources[1].1)
            &&& settles(sources[0].0, sources[0].1, prospect) <==> margin > draw_line(draw)
            &&& settles(sources[1].0, sources[1].1, prospect) <==> margin < draw_line(draw)
        }),
{
    let sources = auxiliary_sources(OfferType::DrawNoBet(draw));
    let outcomes = sources[0].0.valid_outcomes();
    assert(outcomes[0] == sources[0].1);
    assert(outcomes[1] == sources[1].1);
}

/// The two probabilities that price a split handicap are read from the
/// head-to-head of its draw handicap and the Asian handicap of its win
/// handicap: first where the home side's lead is the draw line, then where
/// the side that gives the start wins outright, that is where the home
/// lead is above the draw line when the win handicap is ahead, and below it
/// when the win handicap is behind.
pub proof fn lemma_split_handicap_sources(
    period: Period,
    draw: DrawHandicap,
    win: WinHandicap,
    prospect: ProspectView,
)
    requires
        OfferType::SplitHandicap(period, draw, win).type_checkable(),
        OfferType::SplitHandicap(period, draw, win).valid(),
        OfferType::SplitHandicap(period, draw, win).outcomes_defined(),
        period_known(period, prospect),
    ensures
        ({
            let sources = auxiliary_sources(OfferType::SplitHandicap(period, draw, win));
            let (home, away) = period_goals(period, prospect);
            let margin = home - away;
            &&& sources.len() == 2
            &&& forall|i: int|
                0 <= i < 2 ==> ((#[trigger] sources[i]).0 == OfferType::HeadToHead(period, draw)
                    || sources[i].0 == OfferType::AsianHandicap(period, win))
                    && sources[i].0.valid_outcomes().contains(sources[i].1)
            &&& settles(sources[0].0, sources[0].1, prospect) <==> margin == draw_line(draw)
            &&& settles(sources[1].0, sources[1].1, prospect) <==> if win is AheadOver {
                margin > draw_line(draw)
            } else {
                margin < draw_line(draw)
            }
        }),
{
    let offer_type = OfferType::SplitHandicap(period, draw, win);
    let sources = auxiliary_sources(offer_type);
    let euro = OfferType::HeadToHead(period, draw).valid_outcomes();
    let asian = OfferType::AsianHandicap(period, win).valid_outcomes();
    assert(euro[2] == sources[0].1);
    assert(sources[0].0.valid_outcomes().contains(sources[0].1));
    match split_handicap_case_of(draw, win) {
        SplitHandicapCase::AheadQuarter => {
            assert(asian[0] == sources[1].1);
        },
        SplitHandicapCase::AheadThreeQuarters => {
            assert(euro[0] == sources[1].1);
        },
        SplitHandicapCase::BehindThreeQuarters => {
            assert(euro[1] == sources[1].1);
        },
        SplitHandicapCase::BehindQuarter => {
            assert(asian[1] == sources[1].1);
        },
    }
    assert(sources[1].0.valid_outcomes().contains(sources[1].1));
}

/// A player market of a feed becomes an offer whose player outcomes come
/// true as the market's kind says: an anytime goalscorer scores in either
/// half, a first goalscorer scores the first goal, and an assister (at
/// least one assist) makes an assist.
pub proof fn lemma_player_markets_settle(
    kind: PlayerMarket,
    players: Vec<(Option<Side>, String)>,
    prospect: ProspectView,
    player: usize,
)
    requires
        player < prospect.stats.len(),
        !(kind matches PlayerMarket::Assist(at_least) && at_least != 1),
    ensures
        feed_offer_type(FeedMarket::Players(kind, players)) matches Some(offer_type) && (query_holds(
            offer_type,
            QuerySpec::PlayerLookup(player),
            prospect,
        ) <==> match kind {
            PlayerMarket::AnytimeGoalscorer => prospect.stats[player as int].h1.goals > 0
                || prospect.stats[player as int].h2.goals > 0,
            PlayerMarket::FirstGoalscorer => prospect.first_scorer == Some(player),
            PlayerMarket::Assist(_) => prospect.stats[player as int].assists > 0,
        }),
{
}

} // verus!
