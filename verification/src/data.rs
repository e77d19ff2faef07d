use vstd::prelude::*;

use crate::domain::{DrawHandicap, OfferType, Outcome, Over, Period, Player, Score, Side, WinHandicap};

verus! {

/// The draw handicap of a three-way handicap market quoted as a signed
/// goal count: positive is a start for the home side.
pub open spec fn draw_handicap_of(handicap: i8) -> DrawHandicap {
    if handicap > 0 {
        DrawHandicap::Behind(handicap as u8)
    } else {
        DrawHandicap::Ahead((-handicap) as u8)
    }
}

pub fn to_draw_handicap(handicap: i8) -> (draw_handicap: DrawHandicap)
    requires
        handicap > i8::MIN,
    ensures
        draw_handicap == draw_handicap_of(handicap),
{
    if handicap > 0 {
        DrawHandicap::Behind(handicap as u8)
    } else {
        DrawHandicap::Ahead((-handicap) as u8)
    }
}

/// The player markets of a feed.
#[derive(Clone, Copy, Debug, PartialEq, Eq, Structural)]
pub enum PlayerMarket {
    AnytimeGoalscorer,
    FirstGoalscorer,
    /// Players to make at least this many assists.
    Assist(u8),
}

/// A market of a scraped contest, holding what deciding its offer reads;
/// the prices stay with the caller, in the order of the outcomes built.
#[derive(Debug)]
pub enum FeedMarket {
    /// Home, away and draw prices, in that order.
    HeadToHead(Period),
    /// Home and away prices.
    DrawNoBet,
    /// One price per scoreline, home and away goals as quoted.
    CorrectScore(Period, Vec<(usize, usize)>),
    /// Over and under prices; the goal counts round the line down and up.
    GoalsOverUnder(Period, u8, u8),
    /// One price per player; a player without a side stands for no player.
    Players(PlayerMarket, Vec<(Option<Side>, String)>),
    /// Home and away prices of an Asian handicap, home side's handicap given.
    TwoWayHandicap(Period, WinHandicap),
    /// Home, away and draw prices of a full-time European handicap.
    ThreeWayHandicap(i8),
    /// Markets that no offer type covers.
    Other,
}

/// The offer type that a feed market becomes, if any.
pub open spec fn feed_offer_type(market: FeedMarket) -> Option<OfferType> {
    match market {
        FeedMarket::HeadToHead(period) => Some(OfferType::HeadToHead(period, DrawHandicap::Ahead(0))),
        FeedMarket::DrawNoBet => Some(OfferType::DrawNoBet(DrawHandicap::Ahead(0))),
        FeedMarket::CorrectScore(period, _) => Some(OfferType::CorrectScore(period)),
        FeedMarket::GoalsOverUnder(period, over, _) => Some(OfferType::TotalGoals(period, Over(over))),
        FeedMarket::Players(PlayerMarket::AnytimeGoalscorer, _) => Some(OfferType::AnytimeGoalscorer),
        FeedMarket::Players(PlayerMarket::FirstGoalscorer, _) => Some(OfferType::FirstGoalscorer),
        FeedMarket::Players(PlayerMarket::Assist(at_least), _) => if at_least == 1 {
            Some(OfferType::AnytimeAssist)
        } else {
            None
        },
        FeedMarket::TwoWayHandicap(period, handicap) => Some(OfferType::AsianHandicap(period, handicap)),
        FeedMarket::ThreeWayHandicap(handicap) => Some(
            OfferType::HeadToHead(Period::FullTime, draw_handicap_of(handicap)),
        ),
        FeedMarket::Other => None,
    }
}

/// The outcome of a player quoted in a feed.
pub open spec fn feed_player_outcome(entry: (Option<Side>, String)) -> Outcome {
    match entry.0 {
        Some(side) => Outcome::Player(Player::Named(side, entry.1)),
        None => Outcome::Nil,
    }
}

/// The outcomes that a feed market's prices are for, in price order.
pub open spec fn feed_outcomes(market: FeedMarket) -> Seq<Outcome> {
    match market {
        FeedMarket::HeadToHead(_) => seq![
            Outcome::Win(Side::Home, WinHandicap::AheadOver(0)),
            Outcome::Win(Side::Away, WinHandicap::BehindUnder(0)),
            Outcome::Draw(DrawHandicap::Ahead(0)),
        ],
        FeedMarket::DrawNoBet => seq![
            Outcome::Win(Side::Home, WinHandicap::AheadOver(0)),
            Outcome::Win(Side::Away, WinHandicap::BehindUnder(0)),
        ],
        FeedMarket::CorrectScore(_, scores) => Seq::new(
            scores@.len(),
            |i: int|
                Outcome::Score(
                    Score {
                        home: (scores@[i].0 % 256) as u8,
                        away: (scores@[i].1 % 256) as u8,
                    },
                ),
        ),
        FeedMarket::GoalsOverUnder(_, over, under) => seq![Outcome::Over(over), Outcome::Under(under)],
        FeedMarket::Players(_, players) => Seq::new(
            players@.len(),
            |i: int| feed_player_outcome(players@[i]),
        ),
        FeedMarket::TwoWayHandicap(_, handicap) => seq![
            Outcome::Win(Side::Home, handicap),
            Outcome::Win(Side::Away, handicap.flip_asian_spec()),
        ],
        FeedMarket::ThreeWayHandicap(handicap) => seq![
            Outcome::Win(Side::Home, draw_handicap_of(handicap).to_win_handicap_spec()),
            Outcome::Win(
                Side::Away,
                draw_handicap_of(handicap).to_win_handicap_spec().flip_european_spec(),
            ),
            Outcome::Draw(draw_handicap_of(handicap)),
        ],
        FeedMarket::Other => Seq::empty(),
    }
}

/// The markets whose outcomes can be written: handicaps within range.
pub open spec fn feed_market_convertible(market: FeedMarket) -> bool {
    match market {
        FeedMarket::TwoWayHandicap(_, handicap) => handicap.flips_asian(),
        FeedMarket::ThreeWayHandicap(handicap) => handicap > i8::MIN,
        _ => true,
    }
}

/// The offer type and outcomes that a feed market becomes, outcomes in the
/// order of the market's prices; `None` for markets that no offer covers.
pub fn to_offering(market: &FeedMarket) -> (offering: Option<(OfferType, Vec<Outcome>)>)
    requires
        feed_market_convertible(*market),
    ensures
        match offering {
            Some((offer_type, outcomes)) => feed_offer_type(*market) == Some(offer_type)
                && outcomes@ == feed_outcomes(*market),
            None => feed_offer_type(*market) is None,
        },
{
    match market {
        FeedMarket::HeadToHead(period) => Some(
            (
                OfferType::HeadToHead(*period, DrawHandicap::Ahead(0)),
                vec![
                    Outcome::Win(Side::Home, WinHandicap::AheadOver(0)),
                    Outcome::Win(Side::Away, WinHandicap::BehindUnder(0)),
                    Outcome::Draw(DrawHandicap::Ahead(0)),
                ],
            ),
        ),
        FeedMarket::DrawNoBet => {
            let draw_handicap = DrawHandicap::Ahead(0);
            Some(
                (
                    OfferType::DrawNoBet(draw_handicap),
                    vec![
                        Outcome::Win(Side::Home, draw_handicap.to_win_handicap()),
                        Outcome::Win(Side::Away, draw_handicap.to_win_handicap().flip_european()),
                    ],
                ),
            )
        },
        FeedMarket::CorrectScore(period, scores) => {
            let mut outcomes: Vec<Outcome> = Vec::new();
            let mut i: usize = 0;
            while i < scores.len()
                invariant
                    0 <= i <= scores@.len(),
                    outcomes@ =~= feed_outcomes(*market).subrange(0, i as int),
                    *market == FeedMarket::CorrectScore(*period, *scores),
                decreases scores@.len() - i,
            {
                let (home, away) = scores[i];
                outcomes.push(
                    Outcome::Score(Score { home: (home % 256) as u8, away: (away % 256) as u8 }),
                );
                i = i + 1;
            }
            Some((OfferType::CorrectScore(*period), outcomes))
        },
        FeedMarket::GoalsOverUnder(period, over, under) => Some(
            (
                OfferType::TotalGoals(*period, Over(*over)),
                vec![Outcome::Over(*over), Outcome::Under(*under)],
            ),
        ),
        FeedMarket::Players(kind, players) => {
            let offer_type = match kind {
                PlayerMarket::AnytimeGoalscorer => OfferType::AnytimeGoalscorer,
                PlayerMarket::FirstGoalscorer => OfferType::FirstGoalscorer,
                PlayerMarket::Assist(at_least) => {
                    if *at_least == 1 {
                        OfferType::AnytimeAssist
                    } else {
                        return None;
                    }
                },
            };
            let mut outcomes: Vec<Outcome> = Vec::new();
            let mut i: usize = 0;
            while i < players.len()
                invariant
                    0 <= i <= players@.len(),
                    outcomes@ =~= feed_outcomes(*market).subrange(0, i as int),
                    *market == FeedMarket::Players(*kind, *players),
                decreases players@.len() - i,
            {
                let outcome = match &players[i].0 {
                    Some(side) => Outcome::Player(Player::Named(*side, players[i].1.clone())),
                    None => Outcome::Nil,
                };
                outcomes.push(outcome);
                i = i + 1;
            }
            Some((offer_type, outcomes))
        },
        FeedMarket::TwoWayHandicap(period, handicap) => Some(
            (
                OfferType::AsianHandicap(*period, *handicap),
                vec![
                    Outcome::Win(Side::Home, *handicap),
                    Outcome::Win(Side::Away, handicap.flip_asian()),
                ],
            ),
        ),
        FeedMarket::ThreeWayHandicap(handicap) => {
            let draw_handicap = to_draw_handicap(*handicap);
            let win_handicap = draw_handicap.to_win_handicap();
            Some(
                (
                    OfferType::HeadToHead(Period::FullTime, draw_handicap),
                    vec![
                        Outcome::Win(Side::Home, win_handicap),
                        Outcome::Win(Side::Away, win_handicap.flip_european()),
                        Outcome::Draw(draw_handicap),
                    ],
                ),
            )
        },
        FeedMarket::Other => None,
    }
}

/// A feed's name of a data provider.
#[derive(Clone, Copy, Debug, PartialEq, Eq, Structural)]
pub enum ProviderName {
    Ladbrokes,
    PointsBet,
}

/// A provider name that no provider answers to.
#[derive(Debug)]
pub struct ProviderParseError(pub String);

impl ProviderParseError {
    pub fn to_string(&self) -> (text: String)
        ensures
            text@ == self.0@,
    {
        self.0.clone()
    }
}

/// std's lower-case mapping of a string (`str::to_lowercase`).
pub uninterp spec fn lowercase(s: Seq<char>) -> Seq<char>;

/// Calls `str::to_lowercase`. Claimed: the result is `lowercase` of the
/// characters, as std's mapping depends on the characters alone.
#[verifier::external_body]
fn to_lowercase(s: &str) -> (lower: String)
    ensures
        lower@ == lowercase(s@),
{
    s.to_lowercase()
}

/// Reads a provider's name, in any case.
pub fn parse_provider(s: &str) -> (provider: Result<ProviderName, ProviderParseError>)
    ensures
        lowercase(s@) == "ladbrokes"@ ==> provider matches Ok(ProviderName::Ladbrokes),
        lowercase(s@) == "pointsbet"@ ==> provider matches Ok(ProviderName::PointsBet),
        lowercase(s@) != "ladbrokes"@ && lowercase(s@) != "pointsbet"@ ==> (provider matches Err(e)
            && e.0@ == "unsupported provider "@ + s@),
{
    let lower = to_lowercase(s);
    proof {
        reveal_strlit("ladbrokes");
        reveal_strlit("pointsbet");
        assert("ladbrokes"@[0] != "pointsbet"@[0]);
    }
    if lower.eq(&String::from_str("ladbrokes")) {
        Ok(ProviderName::Ladbrokes)
    } else if lower.eq(&String::from_str("pointsbet")) {
        Ok(ProviderName::PointsBet)
    } else {
        let mut message = String::from_str("unsupported provider ");
        message.append(s);
        Err(ProviderParseError(message))
    }
}

} // verus!
