use brumby_soccer::interval::{
    merge, Expansions, Half, InvalidExpansions, PartialProspect, PeriodStats, PlayerStats, Prospect,
};
use brumby_soccer::query::{filter, filter_all, prepare, requirements, QuerySpec};
use brumby_soccer::{DrawHandicap, HashLookup, OfferType, Outcome, Over, Period, Player, Score, Side, WinHandicap};

fn full_time(home: u8, away: u8) -> Prospect {
    Prospect {
        ht_score: Score::nil_all(),
        ft_score: Score { home, away },
        stats: vec![],
        first_scorer: None,
    }
}

fn settles(offer_type: &OfferType, outcome: &Outcome, prospect: &Prospect) -> bool {
    let query = prepare(offer_type, outcome, &HashLookup::new());
    filter(offer_type, &query, prospect)
}

#[test]
fn head_to_head_outcomes_partition_scores() {
    for draw in [DrawHandicap::Ahead(0), DrawHandicap::Ahead(1), DrawHandicap::Behind(2)] {
        let offer_type = OfferType::HeadToHead(Period::FullTime, draw);
        let outcomes = [
            Outcome::Win(Side::Home, draw.to_win_handicap()),
            Outcome::Win(Side::Away, draw.to_win_handicap().flip_european()),
            Outcome::Draw(draw),
        ];
        for home in 0..5 {
            for away in 0..5 {
                let prospect = full_time(home, away);
                let settled = outcomes
                    .iter()
                    .filter(|outcome| settles(&offer_type, outcome, &prospect))
                    .count();
                assert_eq!(1, settled, "{draw:?} at {home}:{away}");
            }
        }
    }
}

#[test]
fn win_with_handicap() {
    let offer_type = OfferType::HeadToHead(Period::FullTime, DrawHandicap::Ahead(1));
    assert!(settles(&offer_type, &Outcome::Win(Side::Home, WinHandicap::AheadOver(1)), &full_time(3, 1)));
    assert!(!settles(&offer_type, &Outcome::Win(Side::Home, WinHandicap::AheadOver(1)), &full_time(2, 1)));
    assert!(settles(&offer_type, &Outcome::Draw(DrawHandicap::Ahead(1)), &full_time(2, 1)));
    assert!(settles(&offer_type, &Outcome::Win(Side::Away, WinHandicap::BehindUnder(1)), &full_time(1, 1)));
    assert!(settles(&offer_type, &Outcome::Win(Side::Away, WinHandicap::BehindUnder(1)), &full_time(0, 3)));
}

#[test]
fn asian_handicap_complements() {
    let handicap = WinHandicap::BehindUnder(2);
    let offer_type = OfferType::AsianHandicap(Period::FullTime, handicap);
    for home in 0..5 {
        for away in 0..5 {
            let prospect = full_time(home, away);
            assert_ne!(
                settles(&offer_type, &Outcome::Win(Side::Home, handicap), &prospect),
                settles(&offer_type, &Outcome::Win(Side::Away, handicap.flip_asian()), &prospect)
            );
        }
    }
}

#[test]
fn total_goals_and_correct_score() {
    let offer_type = OfferType::TotalGoals(Period::SecondHalf, Over(1));
    let prospect = Prospect {
        ht_score: Score::new(1, 0),
        ft_score: Score::new(2, 1),
        stats: vec![],
        first_scorer: None,
    };
    assert!(settles(&offer_type, &Outcome::Over(1), &prospect));
    assert!(!settles(&offer_type, &Outcome::Under(2), &prospect));
    let correct_score = OfferType::CorrectScore(Period::SecondHalf);
    assert!(settles(&correct_score, &Outcome::Score(Score::new(1, 1)), &prospect));
    assert!(!settles(&correct_score, &Outcome::Score(Score::new(2, 1)), &prospect));
    assert!(settles(
        &OfferType::CorrectScore(Period::FirstHalf),
        &Outcome::Score(Score::new(1, 0)),
        &prospect
    ));
}

#[test]
fn player_queries() {
    let alice = Player::Named(Side::Home, "Alice".into());
    let bob = Player::Named(Side::Away, "Bob".into());
    let players = HashLookup::from(vec![alice.clone(), bob.clone(), Player::Other]);
    let prospect = Prospect {
        ht_score: Score::nil_all(),
        ft_score: Score::new(1, 0),
        stats: vec![
            PlayerStats { h1: PeriodStats { goals: 0 }, h2: PeriodStats { goals: 1 }, assists: 0 },
            PlayerStats { h1: PeriodStats { goals: 0 }, h2: PeriodStats { goals: 0 }, assists: 1 },
            PlayerStats::default(),
        ],
        first_scorer: Some(0),
    };
    let query = prepare(&OfferType::AnytimeGoalscorer, &Outcome::Player(bob.clone()), &players);
    assert!(matches!(query, QuerySpec::PlayerLookup(1)));
    assert!(!filter(&OfferType::AnytimeGoalscorer, &query, &prospect));
    let query = prepare(&OfferType::AnytimeGoalscorer, &Outcome::Player(alice.clone()), &players);
    assert!(filter(&OfferType::AnytimeGoalscorer, &query, &prospect));
    let query = prepare(&OfferType::AnytimeGoalscorer, &Outcome::Nil, &players);
    assert!(matches!(query, QuerySpec::NoAnytimeGoalscorer));
    assert!(!filter(&OfferType::AnytimeGoalscorer, &query, &prospect));
    let query = prepare(&OfferType::FirstGoalscorer, &Outcome::Player(alice), &players);
    assert!(filter(&OfferType::FirstGoalscorer, &query, &prospect));
    assert!(!filter(&OfferType::FirstGoalscorer, &QuerySpec::NoFirstGoalscorer, &prospect));
    let query = prepare(&OfferType::AnytimeAssist, &Outcome::Player(bob), &players);
    assert!(filter(&OfferType::AnytimeAssist, &query, &prospect));
    assert!(!filter(&OfferType::AnytimeAssist, &QuerySpec::NoAnytimeAssist, &prospect));
}

#[test]
fn requirements_by_offer() {
    let reqs = requirements(&OfferType::HeadToHead(Period::SecondHalf, DrawHandicap::Ahead(0)));
    assert!(reqs.ht_score && reqs.ft_score);
    assert!(reqs.requires_team_goal_probs());
    assert!(!reqs.requires_player_goal_probs());
    let reqs = requirements(&OfferType::FirstGoalscorer);
    assert!(reqs.first_goalscorer && reqs.requires_player_goal_probs());
    let reqs = requirements(&OfferType::AnytimeAssist);
    assert_eq!(1, reqs.max_player_assists);
    assert!(reqs.requires_team_assist_probs() && reqs.requires_player_assist_probs());
    for offer_type in [
        OfferType::CorrectScore(Period::FirstHalf),
        OfferType::TotalGoals(Period::FullTime, Over(2)),
        OfferType::AsianHandicap(Period::FullTime, WinHandicap::AheadOver(0)),
        OfferType::AnytimeGoalscorer,
    ] {
        assert_eq!(Ok(()), requirements(&offer_type).validate());
    }
}

#[test]
fn expansions_join_and_validate() {
    let mut agg = Expansions::empty();
    assert_eq!(Err(InvalidExpansions::NothingExpanded), agg.validate());
    agg += requirements(&OfferType::FirstGoalscorer);
    agg += requirements(&OfferType::AnytimeGoalscorer);
    assert!(agg.first_goalscorer);
    assert_eq!(1, agg.max_player_goals);
    assert_eq!(Ok(()), agg.validate());
    let mut split = Expansions::empty();
    split.player_split_goal_stats = true;
    split.ft_score = true;
    assert_eq!(Err(InvalidExpansions::SplitGoalStatsWithoutPlayerGoals), split.validate());
    assert_eq!(
        "cannot expand player split goal stats without player goals",
        InvalidExpansions::SplitGoalStatsWithoutPlayerGoals.to_string()
    );
    let mut all = Expansions::default();
    all += Expansions::empty();
    assert_eq!(Expansions::default(), all);
}

#[test]
fn merging_goals_and_assists() {
    let expansions = Expansions {
        ht_score: true,
        ft_score: true,
        max_player_goals: 1,
        player_split_goal_stats: true,
        max_player_assists: 1,
        first_goalscorer: true,
    };
    let start = Prospect::init(3);
    assert_eq!(3, start.stats.len());
    let partial = PartialProspect {
        home_scorer: Some(0),
        away_scorer: Some(2),
        home_assister: Some(1),
        away_assister: None,
        first_scoring_side: Some(Side::Away),
    };
    let after = merge(&expansions, &Half::First, &start, &partial);
    assert_eq!(Score::new(1, 1), after.ft_score);
    assert_eq!(Score::new(1, 1), after.ht_score);
    assert_eq!(Some(2), after.first_scorer);
    assert_eq!(1, after.stats[0].h1.goals);
    assert_eq!(1, after.stats[1].assists);
    let later = merge(&expansions, &Half::Second, &after, &partial);
    assert_eq!(Score::new(2, 2), later.ft_score);
    assert_eq!(Score::new(1, 1), later.ht_score);
    assert_eq!(Some(2), later.first_scorer);
    assert_eq!(1, later.stats[0].h2.goals);
    assert_eq!(1, later.stats[1].assists);
    assert_eq!(Score::new(1, 1), later.h2_score());
    assert_eq!(4, later.total_goals());
}

#[test]
fn correct_score_decides_head_to_head() {
    let offer_type = OfferType::HeadToHead(Period::FullTime, DrawHandicap::Ahead(0));
    let correct_score = OfferType::CorrectScore(Period::FullTime);
    let prospect = full_time(2, 1);
    assert!(settles(&correct_score, &Outcome::Score(Score::new(2, 1)), &prospect));
    assert!(settles(&offer_type, &Outcome::Win(Side::Home, WinHandicap::AheadOver(0)), &prospect));
    assert!(!settles(&offer_type, &Outcome::Draw(DrawHandicap::Ahead(0)), &prospect));
    assert!(!settles(&offer_type, &Outcome::Win(Side::Away, WinHandicap::BehindUnder(0)), &prospect));
}

#[test]
fn merging_never_takes_goals_away() {
    let expansions = Expansions {
        ht_score: false,
        ft_score: true,
        max_player_goals: 0,
        player_split_goal_stats: false,
        max_player_assists: 0,
        first_goalscorer: false,
    };
    let start = Prospect::init(2);
    let partial = PartialProspect {
        home_scorer: Some(0),
        away_scorer: None,
        home_assister: None,
        away_assister: None,
        first_scoring_side: Some(Side::Home),
    };
    let after = merge(&expansions, &Half::First, &start, &partial);
    assert_eq!(Score::new(1, 0), after.ft_score);
    assert_eq!(Score::nil_all(), after.ht_score);
    assert_eq!(None, after.first_scorer);
    assert_eq!(0, after.stats[0].h1.goals);
    let later = merge(&expansions, &Half::Second, &after, &partial);
    assert_eq!(Score::new(2, 0), later.ft_score);
    assert_eq!(0, later.stats[0].h2.goals);
}

#[test]
fn multi_queries_all_hold() {
    let head_to_head = OfferType::HeadToHead(Period::FullTime, DrawHandicap::Ahead(0));
    let total_goals = OfferType::TotalGoals(Period::FullTime, Over(2));
    let queries = vec![
        (head_to_head, prepare(&head_to_head, &Outcome::Win(Side::Home, WinHandicap::AheadOver(0)), &HashLookup::new())),
        (total_goals, prepare(&total_goals, &Outcome::Over(2), &HashLookup::new())),
    ];
    assert!(filter_all(&queries, &full_time(3, 1)));
    assert!(!filter_all(&queries, &full_time(2, 0)));
    assert!(!filter_all(&queries, &full_time(1, 3)));
    assert!(filter_all(&[], &full_time(0, 0)));
}
