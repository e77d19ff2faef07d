use vstd::prelude::*;

use crate::domain::{Score, Side};

verus! {

pub const NUM_PLAYERS: usize = 3;

pub const NUM_PLAYER_STATS: usize = NUM_PLAYERS + 1;

/// Which parts of a match state the exploration of a match keeps apart.
#[derive(Clone, Copy, Debug, PartialEq, Eq, Structural)]
pub struct Expansions {
    pub ht_score: bool,
    pub ft_score: bool,
    pub max_player_goals: u8,
    pub player_split_goal_stats: bool,
    pub max_player_assists: u8,
    pub first_goalscorer: bool,
}

/// Why a set of expansions cannot drive an exploration.
#[derive(Clone, Copy, Debug, PartialEq, Eq, Structural)]
pub enum InvalidExpansions {
    /// Split goal statistics were asked for without player goals.
    SplitGoalStatsWithoutPlayerGoals,
    /// Nothing at all would be expanded.
    NothingExpanded,
}

impl InvalidExpansions {
    pub open spec fn message(self) -> Seq<char> {
        match self {
            InvalidExpansions::SplitGoalStatsWithoutPlayerGoals => "cannot expand player split goal stats without player goals"@,
            InvalidExpansions::NothingExpanded => "at least one expansion must be enabled"@,
        }
    }

    pub fn to_string(&self) -> (text: String)
        ensures
            text@ == self.message(),
    {
        match self {
            InvalidExpansions::SplitGoalStatsWithoutPlayerGoals => String::from_str(
                "cannot expand player split goal stats without player goals",
            ),
            InvalidExpansions::NothingExpanded => String::from_str(
                "at least one expansion must be enabled",
            ),
        }
    }
}

impl Expansions {
    pub open spec fn expands_anything(self) -> bool {
        self.ft_score || self.ht_score || self.max_player_goals > 0 || self.first_goalscorer
            || self.max_player_assists > 0
    }

    /// Split goal statistics need player goals, and something must be
    /// expanded.
    pub open spec fn valid(self) -> bool {
        &&& self.player_split_goal_stats ==> self.max_player_goals > 0
        &&& self.expands_anything()
    }

    /// Checks the expansions, naming the first rule broken.
    pub fn validate(&self) -> (result: Result<(), InvalidExpansions>)
        ensures
            result is Ok <==> self.valid(),
            result == Err::<(), _>(InvalidExpansions::SplitGoalStatsWithoutPlayerGoals) <==> (
            self.player_split_goal_stats && self.max_player_goals == 0),
            result == Err::<(), _>(InvalidExpansions::NothingExpanded) <==> (
            !self.player_split_goal_stats || self.max_player_goals > 0) && !self.expands_anything(),
    {
        if self.player_split_goal_stats && self.max_player_goals == 0 {
            return Err(InvalidExpansions::SplitGoalStatsWithoutPlayerGoals);
        }
        if !(self.ft_score || self.ht_score || self.max_player_goals > 0 || self.first_goalscorer
            || self.max_player_assists > 0) {
            return Err(InvalidExpansions::NothingExpanded);
        }
        Ok(())
    }

    pub open spec fn needs_team_goal_probs(self) -> bool {
        self.ht_score || self.ft_score || self.max_player_goals > 0 || self.first_goalscorer
            || self.max_player_assists > 0
    }

    pub open spec fn needs_team_assist_probs(self) -> bool {
        self.max_player_assists > 0
    }

    pub open spec fn needs_player_goal_probs(self) -> bool {
        self.max_player_goals > 0 || self.first_goalscorer
    }

    pub open spec fn needs_player_assist_probs(self) -> bool {
        self.max_player_assists > 0
    }

    pub fn requires_team_goal_probs(&self) -> (required: bool)
        ensures
            required == self.needs_team_goal_probs(),
    {
        self.ht_score || self.ft_score || self.max_player_goals > 0 || self.first_goalscorer
            || self.max_player_assists > 0
    }

    pub fn requires_team_assist_probs(&self) -> (required: bool)
        ensures
            required == self.needs_team_assist_probs(),
    {
        self.max_player_assists > 0
    }

    pub fn requires_player_goal_probs(&self) -> (required: bool)
        ensures
            required == self.needs_player_goal_probs(),
    {
        self.max_player_goals > 0 || self.first_goalscorer
    }

    pub fn requires_player_assist_probs(&self) -> (required: bool)
        ensures
            required == self.needs_player_assist_probs(),
    {
        self.max_player_assists > 0
    }

    pub open spec fn none() -> Expansions {
        Expansions {
            ht_score: false,
            ft_score: false,
            max_player_goals: 0,
            player_split_goal_stats: false,
            max_player_assists: 0,
            first_goalscorer: false,
        }
    }

    pub open spec fn all() -> Expansions {
        Expansions {
            ht_score: true,
            ft_score: true,
            max_player_goals: u8::MAX,
            player_split_goal_stats: true,
            max_player_assists: u8::MAX,
            first_goalscorer: true,
        }
    }

    pub fn empty() -> (expansions: Self)
        ensures
            expansions == Expansions::none(),
    {
        Self {
            ht_score: false,
            ft_score: false,
            max_player_goals: 0,
            player_split_goal_stats: false,
            max_player_assists: 0,
            first_goalscorer: false,
        }
    }

    /// The least expansions that cover both `self` and `other`.
    pub open spec fn join(self, other: Expansions) -> Expansions {
        Expansions {
            ht_score: self.ht_score || other.ht_score,
            ft_score: self.ft_score || other.ft_score,
            max_player_goals: if self.max_player_goals >= other.max_player_goals {
                self.max_player_goals
            } else {
                other.max_player_goals
            },
            player_split_goal_stats: self.player_split_goal_stats || other.player_split_goal_stats,
            max_player_assists: if self.max_player_assists >= other.max_player_assists {
                self.max_player_assists
            } else {
                other.max_player_assists
            },
            first_goalscorer: self.first_goalscorer || other.first_goalscorer,
        }
    }
}

impl Default for Expansions {
    fn default() -> (expansions: Self)
        ensures
            expansions == Expansions::all(),
    {
        Self {
            ft_score: true,
            ht_score: true,
            max_player_goals: u8::MAX,
            player_split_goal_stats: true,
            max_player_assists: u8::MAX,
            first_goalscorer: true,
        }
    }
}

impl core::ops::AddAssign for Expansions {
    fn add_assign(&mut self, rhs: Self)
        ensures
            *final(self) == old(self).join(rhs),
    {
        self.ht_score = self.ht_score || rhs.ht_score;
        self.ft_score = self.ft_score || rhs.ft_score;
        if rhs.max_player_goals > self.max_player_goals {
            self.max_player_goals = rhs.max_player_goals;
        }
        self.player_split_goal_stats = self.player_split_goal_stats || rhs.player_split_goal_stats;
        if rhs.max_player_assists > self.max_player_assists {
            self.max_player_assists = rhs.max_player_assists;
        }
        self.first_goalscorer = self.first_goalscorer || rhs.first_goalscorer;
    }
}

#[derive(Clone, Copy, Debug, Hash, PartialEq, Eq, Default, Structural)]
pub struct PeriodStats {
    pub goals: u8,
}

#[derive(Clone, Copy, Debug, Hash, PartialEq, Eq, Default, Structural)]
pub struct PlayerStats {
    pub h1: PeriodStats,
    pub h2: PeriodStats,
    pub assists: u8,
}

impl PlayerStats {
    pub open spec fn zero() -> PlayerStats {
        PlayerStats { h1: PeriodStats { goals: 0 }, h2: PeriodStats { goals: 0 }, assists: 0 }
    }
}

/// A match state reached by the exploration: the scores it keeps, each
/// player's statistics (the last entry standing for all other players) and
/// the index of the first goalscorer.
#[derive(Debug, Hash, PartialEq, Eq)]
pub struct Prospect {
    pub ht_score: Score,
    pub ft_score: Score,
    pub stats: Vec<PlayerStats>,
    pub first_scorer: Option<usize>,
}

impl Clone for Prospect {
    fn clone(&self) -> (prospect: Self)
        ensures
            prospect.ht_score == self.ht_score,
            prospect.ft_score == self.ft_score,
            prospect.stats@ == self.stats@,
            prospect.first_scorer == self.first_scorer,
    {
        let stats = self.stats.clone();
        proof {
            assert(stats@ =~= self.stats@);
        }
        Prospect {
            ht_score: self.ht_score,
            ft_score: self.ft_score,
            stats,
            first_scorer: self.first_scorer,
        }
    }
}

impl Prospect {
    /// The state before kick-off, for `players` players.
    pub fn init(players: usize) -> (prospect: Prospect)
        requires
            players <= NUM_PLAYER_STATS,
        ensures
            prospect.ht_score == (Score { home: 0, away: 0 }),
            prospect.ft_score == (Score { home: 0, away: 0 }),
            prospect.stats@ == Seq::new(players as nat, |i: int| PlayerStats::zero()),
            prospect.first_scorer is None,
    {
        let mut stats: Vec<PlayerStats> = Vec::new();
        let mut i: usize = 0;
        while i < players
            invariant
                0 <= i <= players,
                stats@ == Seq::new(i as nat, |j: int| PlayerStats::zero()),
            decreases players - i,
        {
            stats.push(
                PlayerStats { h1: PeriodStats { goals: 0 }, h2: PeriodStats { goals: 0 }, assists: 0 },
            );
            i = i + 1;
            proof {
                assert(stats@ =~= Seq::new(i as nat, |j: int| PlayerStats::zero()));
            }
        }
        Prospect { ht_score: Score::nil_all(), ft_score: Score::nil_all(), stats, first_scorer: None }
    }

    /// The second half is known when the full-time score includes the
    /// half-time score.
    pub open spec fn halves_consistent(self) -> bool {
        self.ft_score.home >= self.ht_score.home && self.ft_score.away >= self.ht_score.away
    }

    pub fn h2_score(&self) -> (score: Score)
        requires
            self.halves_consistent(),
        ensures
            score.home == self.ft_score.home - self.ht_score.home,
            score.away == self.ft_score.away - self.ht_score.away,
    {
        Score {
            home: self.ft_score.home - self.ht_score.home,
            away: self.ft_score.away - self.ht_score.away,
        }
    }

    /// The goals counted so far, by whichever score is kept.
    pub open spec fn goals_so_far(self) -> int {
        if self.ht_score.goals() >= self.ft_score.goals() {
            self.ht_score.goals()
        } else {
            self.ft_score.goals()
        }
    }

    pub fn total_goals(&self) -> (total: u16)
        requires
            self.ht_score.goals() <= u8::MAX,
            self.ft_score.goals() <= u8::MAX,
        ensures
            total == self.goals_so_far(),
    {
        let ht = self.ht_score.total();
        let ft = self.ft_score.total();
        if ht >= ft {
            ht
        } else {
            ft
        }
    }
}

#[derive(Clone, Copy, Debug, PartialEq, Eq, Structural)]
pub enum Half {
    First,
    Second,
}

/// What happens in one interval: who scores and assists for either side,
/// and which side scores first when both do.
#[derive(Clone, Copy, Debug, PartialEq, Eq, Structural)]
pub struct PartialProspect {
    pub home_scorer: Option<usize>,
    pub away_scorer: Option<usize>,
    pub home_assister: Option<usize>,
    pub away_assister: Option<usize>,
    pub first_scoring_side: Option<Side>,
}

/// The statistics of a player who scores in `half`, kept as far as the
/// expansions ask.
pub open spec fn credit_goal(expansions: Expansions, half: Half, stats: PlayerStats) -> PlayerStats {
    if expansions.player_split_goal_stats {
        match half {
            Half::First => if stats.h1.goals < expansions.max_player_goals {
                PlayerStats { h1: PeriodStats { goals: (stats.h1.goals + 1) as u8 }, ..stats }
            } else {
                stats
            },
            Half::Second => if stats.h2.goals < expansions.max_player_goals {
                PlayerStats { h2: PeriodStats { goals: (stats.h2.goals + 1) as u8 }, ..stats }
            } else {
                stats
            },
        }
    } else if stats.h2.goals < expansions.max_player_goals {
        PlayerStats { h2: PeriodStats { goals: (stats.h2.goals + 1) as u8 }, ..stats }
    } else {
        stats
    }
}

pub open spec fn credit_assist(expansions: Expansions, stats: PlayerStats) -> PlayerStats {
    if stats.assists < expansions.max_player_assists {
        PlayerStats { assists: (stats.assists + 1) as u8, ..stats }
    } else {
        stats
    }
}

/// The abstract content of a prospect.
pub struct ProspectView {
    pub ht_score: Score,
    pub ft_score: Score,
    pub stats: Seq<PlayerStats>,
    pub first_scorer: Option<usize>,
}

impl View for Prospect {
    type V = ProspectView;

    open spec fn view(&self) -> ProspectView {
        ProspectView {
            ht_score: self.ht_score,
            ft_score: self.ft_score,
            stats: self.stats@,
            first_scorer: self.first_scorer,
        }
    }
}

/// `prospect` after `player` scores for `side` in `half`; `first_scoring_side`
/// is the side that scores first in the interval.
pub open spec fn after_goal(
    expansions: Expansions,
    half: Half,
    prospect: ProspectView,
    side: Side,
    player: usize,
    first_scoring_side: Option<Side>,
) -> ProspectView {
    ProspectView {
        stats: prospect.stats.update(
            player as int,
            credit_goal(expansions, half, prospect.stats[player as int]),
        ),
        ft_score: if !expansions.ft_score {
            prospect.ft_score
        } else if side == Side::Home {
            Score { home: (prospect.ft_score.home + 1) as u8, ..prospect.ft_score }
        } else {
            Score { away: (prospect.ft_score.away + 1) as u8, ..prospect.ft_score }
        },
        ht_score: if !(expansions.ht_score && half == Half::First) {
            prospect.ht_score
        } else if side == Side::Home {
            Score { home: (prospect.ht_score.home + 1) as u8, ..prospect.ht_score }
        } else {
            Score { away: (prospect.ht_score.away + 1) as u8, ..prospect.ht_score }
        },
        first_scorer: if expansions.first_goalscorer && prospect.first_scorer is None
            && first_scoring_side == Some(side) {
            Some(player)
        } else {
            prospect.first_scorer
        },
    }
}

/// `prospect` after `player` assists.
pub open spec fn after_assist(expansions: Expansions, prospect: ProspectView, player: usize) -> ProspectView {
    ProspectView {
        stats: prospect.stats.update(
            player as int,
            credit_assist(expansions, prospect.stats[player as int]),
        ),
        ..prospect
    }
}

/// A goal can be added for `side` without a kept score overflowing, and the
/// scorer has statistics.
pub open spec fn goal_fits(
    expansions: Expansions,
    half: Half,
    prospect: ProspectView,
    side: Side,
    player: usize,
) -> bool {
    &&& player < prospect.stats.len()
    &&& expansions.ft_score ==> if side == Side::Home {
        prospect.ft_score.home < u8::MAX
    } else {
        prospect.ft_score.away < u8::MAX
    }
    &&& expansions.ht_score && half == Half::First ==> if side == Side::Home {
        prospect.ht_score.home < u8::MAX
    } else {
        prospect.ht_score.away < u8::MAX
    }
}

pub open spec fn apply_goal(
    expansions: Expansions,
    half: Half,
    prospect: ProspectView,
    side: Side,
    scorer: Option<usize>,
    first_scoring_side: Option<Side>,
) -> ProspectView {
    match scorer {
        Some(player) => after_goal(expansions, half, prospect, side, player, first_scoring_side),
        None => prospect,
    }
}

pub open spec fn apply_assist(
    expansions: Expansions,
    prospect: ProspectView,
    assister: Option<usize>,
) -> ProspectView {
    match assister {
        Some(player) => after_assist(expansions, prospect, player),
        None => prospect,
    }
}

/// The state that `current` moves to in an interval where `partial` happens:
/// the home goal, then the away goal, then the two assists.
pub open spec fn merged(
    expansions: Expansions,
    half: Half,
    current: ProspectView,
    partial: PartialProspect,
) -> ProspectView {
    let home = apply_goal(
        expansions,
        half,
        current,
        Side::Home,
        partial.home_scorer,
        partial.first_scoring_side,
    );
    let away = apply_goal(
        expansions,
        half,
        home,
        Side::Away,
        partial.away_scorer,
        partial.first_scoring_side,
    );
    apply_assist(expansions, apply_assist(expansions, away, partial.home_assister), partial.away_assister)
}

/// The interval can be merged into `current` without a kept score
/// overflowing, with statistics for every player named, and with a first
/// scoring side wherever the first goalscorer is still to be decided.
pub open spec fn mergeable(
    expansions: Expansions,
    half: Half,
    current: ProspectView,
    partial: PartialProspect,
) -> bool {
    let home = apply_goal(
        expansions,
        half,
        current,
        Side::Home,
        partial.home_scorer,
        partial.first_scoring_side,
    );
    &&& partial.home_scorer matches Some(p) ==> goal_fits(expansions, half, current, Side::Home, p)
    &&& partial.away_scorer matches Some(p) ==> goal_fits(expansions, half, home, Side::Away, p)
    &&& partial.home_assister matches Some(p) ==> p < current.stats.len()
    &&& partial.away_assister matches Some(p) ==> p < current.stats.len()
    &&& expansions.first_goalscorer && current.first_scorer is None && (partial.home_scorer is Some
        || partial.away_scorer is Some) ==> partial.first_scoring_side is Some
}

fn credit_goal_exec(expansions: &Expansions, half: Half, stats: PlayerStats) -> (credited: PlayerStats)
    ensures
        credited == credit_goal(*expansions, half, stats),
{
    let mut stats = stats;
    if expansions.player_split_goal_stats {
        match half {
            Half::First => {
                if stats.h1.goals < expansions.max_player_goals {
                    stats.h1.goals = stats.h1.goals + 1;
                }
            },
            Half::Second => {
                if stats.h2.goals < expansions.max_player_goals {
                    stats.h2.goals = stats.h2.goals + 1;
                }
            },
        }
    } else if stats.h2.goals < expansions.max_player_goals {
        stats.h2.goals = stats.h2.goals + 1;
    }
    stats
}

fn add_goal(
    expansions: &Expansions,
    half: Half,
    prospect: &mut Prospect,
    side: Side,
    player: usize,
    first_scoring_side: Option<Side>,
)
    requires
        goal_fits(*expansions, half, old(prospect)@, side, player),
        expansions.first_goalscorer && old(prospect).first_scorer is None ==> first_scoring_side is Some,
    ensures
        final(prospect)@ == after_goal(*expansions, half, old(prospect)@, side, player, first_scoring_side),
{
    let credited = credit_goal_exec(expansions, half, prospect.stats[player]);
    prospect.stats.set(player, credited);
    if expansions.ft_score {
        match side {
            Side::Home => prospect.ft_score.home = prospect.ft_score.home + 1,
            Side::Away => prospect.ft_score.away = prospect.ft_score.away + 1,
        }
    }
    if expansions.ht_score && half == Half::First {
        match side {
            Side::Home => prospect.ht_score.home = prospect.ht_score.home + 1,
            Side::Away => prospect.ht_score.away = prospect.ht_score.away + 1,
        }
    }
    if expansions.first_goalscorer && prospect.first_scorer.is_none() && first_scoring_side.unwrap()
        == side {
        prospect.first_scorer = Some(player);
    }
    proof {
        assert(prospect.stats@ =~= old(prospect).stats@.update(
            player as int,
            credit_goal(*expansions, half, old(prospect).stats@[player as int]),
        ));
    }
}

fn add_assist(expansions: &Expansions, prospect: &mut Prospect, player: usize)
    requires
        player < old(prospect).stats@.len(),
    ensures
        final(prospect)@ == after_assist(*expansions, old(prospect)@, player),
{
    let mut stats = prospect.stats[player];
    if stats.assists < expansions.max_player_assists {
        stats.assists = stats.assists + 1;
    }
    prospect.stats.set(player, stats);
    proof {
        assert(prospect.stats@ =~= old(prospect).stats@.update(
            player as int,
            credit_assist(*expansions, old(prospect).stats@[player as int]),
        ));
    }
}

/// The prospect that `current_prospect` moves to in an interval of `half`
/// in which `partial` happens.
pub fn merge(
    expansions: &Expansions,
    half: &Half,
    current_prospect: &Prospect,
    partial: &PartialProspect,
) -> (merged_prospect: Prospect)
    requires
        mergeable(*expansions, *half, current_prospect@, *partial),
    ensures
        merged_prospect@ == merged(*expansions, *half, current_prospect@, *partial),
{
    let mut merged_prospect = current_prospect.clone();
    proof {
        assert(merged_prospect@ == current_prospect@);
    }
    if let Some(player) = partial.home_scorer {
        add_goal(expansions, *half, &mut merged_prospect, Side::Home, player, partial.first_scoring_side);
    }
    if let Some(player) = partial.away_scorer {
        add_goal(expansions, *half, &mut merged_prospect, Side::Away, player, partial.first_scoring_side);
    }
    if let Some(player) = partial.home_assister {
        add_assist(expansions, &mut merged_prospect, player);
    }
    if let Some(player) = partial.away_assister {
        add_assist(expansions, &mut merged_prospect, player);
    }
    merged_prospect
}

} // verus!
