use vstd::prelude::*;

verus! {

/// A scoreline: goals scored by the home and by the away side.
#[derive(Clone, Copy, Debug, Hash, PartialEq, Eq, PartialOrd, Ord, Structural)]
pub struct Score {
    pub home: u8,
    pub away: u8,
}

impl Score {
    pub fn new(home: u8, away: u8) -> (score: Self)
        ensures
            score == (Score { home, away }),
    {
        Self { home, away }
    }

    pub fn nil_all() -> (score: Self)
        ensures
            score == (Score { home: 0, away: 0 }),
    {
        Self { home: 0, away: 0 }
    }

    /// Total number of goals in the score.
    pub open spec fn goals(self) -> int {
        self.home + self.away
    }

    /// The sum is taken in `u8`, so it must fit there.
    pub fn total(&self) -> (total: u16)
        requires
            self.goals() <= u8::MAX,
        ensures
            total == self.goals(),
    {
        (self.home + self.away) as u16
    }
}

#[derive(Clone, Copy, Debug, Hash, PartialEq, Eq, PartialOrd, Ord, Structural)]
pub struct Over(pub u8);

#[derive(Clone, Copy, Debug, Hash, PartialEq, Eq, PartialOrd, Ord, Structural)]
pub struct Under(pub u8);

#[derive(Clone, Copy, Debug, Hash, PartialEq, Eq, PartialOrd, Ord, Structural)]
pub enum Period {
    FirstHalf,
    SecondHalf,
    FullTime,
}

/// A European (three-way) handicap, from the home side's point of view:
/// `Ahead(n)` gives the home side a head start of `-n`, `Behind(n)` of `+n`.
#[derive(Clone, Copy, Debug, Hash, PartialEq, Eq, PartialOrd, Ord, Structural)]
pub enum DrawHandicap {
    Ahead(u8),
    Behind(u8),
}

/// A two-way handicap: `AheadOver(n)` wins when the side is ahead by more
/// than `n`; `BehindUnder(n)` wins when the side is behind by less than `n`
/// (or is level or ahead).
#[derive(Clone, Copy, Debug, Hash, PartialEq, Eq, PartialOrd, Ord, Structural)]
pub enum WinHandicap {
    AheadOver(u8),
    BehindUnder(u8),
}

impl DrawHandicap {
    pub open spec fn to_win_handicap_spec(self) -> WinHandicap {
        match self {
            DrawHandicap::Ahead(by) => WinHandicap::AheadOver(by),
            DrawHandicap::Behind(by) => WinHandicap::BehindUnder(by),
        }
    }

    pub fn to_win_handicap(&self) -> (handicap: WinHandicap)
        ensures
            handicap == self.to_win_handicap_spec(),
    {
        match self {
            DrawHandicap::Ahead(by) => WinHandicap::AheadOver(*by),
            DrawHandicap::Behind(by) => WinHandicap::BehindUnder(*by),
        }
    }

    /// The same handicap seen from the other side. `Behind(0)` has no flip:
    /// a level handicap is always written `Ahead(0)`.
    pub open spec fn flip_spec(self) -> DrawHandicap {
        match self {
            DrawHandicap::Ahead(0) => DrawHandicap::Ahead(0),
            DrawHandicap::Ahead(by) => DrawHandicap::Behind(by),
            DrawHandicap::Behind(by) => DrawHandicap::Ahead(by),
        }
    }

    pub fn flip(&self) -> (flipped: DrawHandicap)
        requires
            *self != DrawHandicap::Behind(0),
        ensures
            flipped == self.flip_spec(),
    {
        match self {
            DrawHandicap::Ahead(0) => DrawHandicap::Ahead(0),
            DrawHandicap::Ahead(by) => DrawHandicap::Behind(*by),
            DrawHandicap::Behind(by) => DrawHandicap::Ahead(*by),
        }
    }
}

impl WinHandicap {
    pub open spec fn flip_european_spec(self) -> WinHandicap {
        match self {
            WinHandicap::AheadOver(by) => WinHandicap::BehindUnder(by),
            WinHandicap::BehindUnder(by) => WinHandicap::AheadOver(by),
        }
    }

    pub fn flip_european(&self) -> (flipped: WinHandicap)
        ensures
            flipped == self.flip_european_spec(),
    {
        match self {
            WinHandicap::AheadOver(by) => WinHandicap::BehindUnder(*by),
            WinHandicap::BehindUnder(by) => WinHandicap::AheadOver(*by),
        }
    }

    /// Whether the Asian flip of this handicap exists in `u8`.
    pub open spec fn flips_asian(self) -> bool {
        match self {
            WinHandicap::AheadOver(by) => by < u8::MAX,
            WinHandicap::BehindUnder(by) => by > 0,
        }
    }

    pub open spec fn flip_asian_spec(self) -> WinHandicap {
        match self {
            WinHandicap::AheadOver(by) => WinHandicap::BehindUnder((by + 1) as u8),
            WinHandicap::BehindUnder(by) => WinHandicap::AheadOver((by - 1) as u8),
        }
    }

    pub fn flip_asian(&self) -> (flipped: WinHandicap)
        requires
            self.flips_asian(),
        ensures
            flipped == self.flip_asian_spec(),
    {
        match self {
            WinHandicap::AheadOver(by) => WinHandicap::BehindUnder(*by + 1),
            WinHandicap::BehindUnder(by) => WinHandicap::AheadOver(*by - 1),
        }
    }
}

#[derive(Clone, Copy, Debug, Hash, PartialEq, Eq, PartialOrd, Ord, Structural)]
pub enum OfferType {
    HeadToHead(Period, DrawHandicap),
    TotalGoals(Period, Over),
    CorrectScore(Period),
    AsianHandicap(Period, WinHandicap),
    DrawNoBet(DrawHandicap),
    SplitHandicap(Period, DrawHandicap, WinHandicap),
    AnytimeGoalscorer,
    FirstGoalscorer,
    PlayerShotsOnTarget(Over),
    AnytimeAssist,
}

#[derive(Clone, Copy, Debug, Hash, PartialEq, Eq, PartialOrd, Ord, Structural)]
pub enum OfferCategory {
    HeadToHead,
    TotalGoals,
    CorrectScore,
    AsianHandicap,
    DrawNoBet,
    SplitHandicap,
    AnytimeGoalscorer,
    FirstGoalscorer,
    PlayerShotsOnTarget,
    AnytimeAssist,
}

impl OfferType {
    pub open spec fn category_spec(self) -> OfferCategory {
        match self {
            OfferType::HeadToHead(_, _) => OfferCategory::HeadToHead,
            OfferType::TotalGoals(_, _) => OfferCategory::TotalGoals,
            OfferType::CorrectScore(_) => OfferCategory::CorrectScore,
            OfferType::AsianHandicap(_, _) => OfferCategory::AsianHandicap,
            OfferType::DrawNoBet(_) => OfferCategory::DrawNoBet,
            OfferType::SplitHandicap(_, _, _) => OfferCategory::SplitHandicap,
            OfferType::AnytimeGoalscorer => OfferCategory::AnytimeGoalscorer,
            OfferType::FirstGoalscorer => OfferCategory::FirstGoalscorer,
            OfferType::PlayerShotsOnTarget(_) => OfferCategory::PlayerShotsOnTarget,
            OfferType::AnytimeAssist => OfferCategory::AnytimeAssist,
        }
    }

    pub fn category(&self) -> (category: OfferCategory)
        ensures
            category == self.category_spec(),
    {
        match self {
            OfferType::HeadToHead(_, _) => OfferCategory::HeadToHead,
            OfferType::TotalGoals(_, _) => OfferCategory::TotalGoals,
            OfferType::CorrectScore(_) => OfferCategory::CorrectScore,
            OfferType::AsianHandicap(_, _) => OfferCategory::AsianHandicap,
            OfferType::DrawNoBet(_) => OfferCategory::DrawNoBet,
            OfferType::SplitHandicap(_, _, _) => OfferCategory::SplitHandicap,
            OfferType::AnytimeGoalscorer => OfferCategory::AnytimeGoalscorer,
            OfferType::FirstGoalscorer => OfferCategory::FirstGoalscorer,
            OfferType::PlayerShotsOnTarget(_) => OfferCategory::PlayerShotsOnTarget,
            OfferType::AnytimeAssist => OfferCategory::AnytimeAssist,
        }
    }

    /// Auxiliary offers are derived from other offers rather than from the
    /// match simulation.
    pub open spec fn auxiliary(self) -> bool {
        self is DrawNoBet || self is SplitHandicap
    }

    pub fn is_auxiliary(&self) -> (auxiliary: bool)
        ensures
            auxiliary == self.auxiliary(),
    {
        match self {
            OfferType::DrawNoBet(_) | OfferType::SplitHandicap(_, _, _) => true,
            _ => false,
        }
    }
}

#[derive(Clone, Copy, Debug, Hash, PartialEq, Eq, PartialOrd, Ord, Structural)]
pub enum Side {
    Home,
    Away,
}

#[derive(Debug, Hash, PartialEq, Eq, PartialOrd, Ord)]
pub enum Player {
    Named(Side, String),
    Other,
}

impl Clone for Player {
    fn clone(&self) -> (player: Self)
        ensures
            player == *self,
    {
        match self {
            Player::Named(side, name) => Player::Named(*side, name.clone()),
            Player::Other => Player::Other,
        }
    }
}

#[derive(Debug, Hash, PartialEq, Eq, PartialOrd, Ord)]
pub enum Outcome {
    Win(Side, WinHandicap),
    Draw(DrawHandicap),
    SplitWin(Side, DrawHandicap, WinHandicap),
    Under(u8),
    Over(u8),
    Score(Score),
    Player(Player),
    Nil,
}

impl Clone for Outcome {
    fn clone(&self) -> (outcome: Self)
        ensures
            outcome == *self,
    {
        match self {
            Outcome::Win(side, handicap) => Outcome::Win(*side, *handicap),
            Outcome::Draw(handicap) => Outcome::Draw(*handicap),
            Outcome::SplitWin(side, draw, win) => Outcome::SplitWin(*side, *draw, *win),
            Outcome::Under(goals) => Outcome::Under(*goals),
            Outcome::Over(goals) => Outcome::Over(*goals),
            Outcome::Score(score) => Outcome::Score(*score),
            Outcome::Player(player) => Outcome::Player(player.clone()),
            Outcome::Nil => Outcome::Nil,
        }
    }
}

impl Outcome {
    pub fn get_player(&self) -> (player: Option<&Player>)
        ensures
            match *self {
                Outcome::Player(p) => player == Some(&p),
                _ => player is None,
            },
    {
        match self {
            Outcome::Player(player) => Some(player),
            _ => None,
        }
    }
}

} // verus!
