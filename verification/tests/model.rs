use brumby_soccer::data::{parse_provider, to_draw_handicap, to_offering, FeedMarket, PlayerMarket, ProviderName};
use brumby_soccer::interval::Expansions;
use brumby_soccer::model::{
    collect_requirements, ensure_player_requirements, ensure_team_requirements, is_fringe_supported, plan_derivation,
    plan_multi, selections_contain_offer_type, selections_contains, source_outcomes, split_handicap_case,
    AuxiliaryOffer, Config, Fitted, MissingDerivative, MissingOffer, MultiDerivationError, NoSelections,
    SingleDerivationError, SplitHandicapCase, TooManyPlayers, UnmetRequirement,
};
use brumby_soccer::{HashLookup, DrawHandicap, OfferCategory, OfferType, Outcome, Over, Period, Player, Score, Side, WinHandicap};

#[test]
fn config_validation() {
    Config { intervals: 4, max_total_goals: 6 }.validate().unwrap();
    assert_eq!(
        "number of intervals cannot be less than 4",
        Config { intervals: 3, max_total_goals: 6 }.validate().unwrap_err().to_string()
    );
    assert_eq!(
        "max total goals cannot be less than 6",
        Config { intervals: 18, max_total_goals: 5 }.validate().unwrap_err().to_string()
    );
}

#[test]
fn error_messages() {
    assert_eq!("no selections specified", NoSelections.to_string());
    assert_eq!("at most 3 players supported", TooManyPlayers { capacity: 3 }.to_string());
    assert_eq!(
        "missing FirstGoalscorer/Player(Other) among derivatives",
        MissingDerivative { offer_type: OfferType::FirstGoalscorer, outcome: Outcome::Player(Player::Other) }
            .to_string()
    );
    assert_eq!(
        "auxiliary DrawNoBet(Ahead(0))",
        AuxiliaryOffer { offer_type: OfferType::DrawNoBet(DrawHandicap::Ahead(0)) }.to_string()
    );
    assert_eq!(
        "missing type CorrectScore(FullTime)",
        MissingOffer::Type(OfferType::CorrectScore(Period::FullTime)).to_string()
    );
    assert_eq!(
        "missing category AsianHandicap",
        MissingOffer::Category(OfferCategory::AsianHandicap).to_string()
    );
    assert_eq!("missing team goal probabilities", UnmetRequirement::TeamGoalProbabilities.to_string());
    assert_eq!(
        "missing assist probability for Named(Home, \"Alice\")",
        UnmetRequirement::PlayerAssistProbability(Player::Named(Side::Home, "Alice".into())).to_string()
    );
    assert_eq!(
        "Score(Score { home: 10, away: 0 }) does not belong in TotalGoals(FullTime, Over(254))",
        OfferType::TotalGoals(Period::FullTime, Over(254))
            .validate_outcome(&Outcome::Score(Score::new(10, 0)))
            .map(|_| String::new())
            .unwrap_or_else(|e| e.to_string())
    );
}

#[test]
fn selections_lookup() {
    let selections = vec![
        (OfferType::AnytimeGoalscorer, Outcome::Player(Player::Named(Side::Away, "Bob".into()))),
        (OfferType::TotalGoals(Period::FullTime, Over(2)), Outcome::Over(2)),
    ];
    assert!(selections_contain_offer_type(&selections, &OfferType::AnytimeGoalscorer));
    assert!(!selections_contain_offer_type(&selections, &OfferType::FirstGoalscorer));
    assert!(selections_contains(
        &selections,
        &OfferType::AnytimeGoalscorer,
        &Outcome::Player(Player::Named(Side::Away, "Bob".into()))
    ));
    assert!(!selections_contains(
        &selections,
        &OfferType::AnytimeGoalscorer,
        &Outcome::Player(Player::Named(Side::Home, "Bob".into()))
    ));
    assert!(is_fringe_supported(&OfferType::AnytimeAssist));
    assert!(!is_fringe_supported(&OfferType::FirstGoalscorer));
}

fn alice() -> Player {
    Player::Named(Side::Home, "Alice".into())
}

fn bob() -> Player {
    Player::Named(Side::Away, "Bob".into())
}

fn fitted() -> Fitted {
    Fitted {
        team_goals: true,
        team_assists: true,
        player_goals: HashLookup::from(vec![alice(), bob()]),
        player_assists: HashLookup::from(vec![alice()]),
    }
}

fn head_to_head() -> OfferType {
    OfferType::HeadToHead(Period::FullTime, DrawHandicap::Ahead(0))
}

fn head_to_head_outcomes() -> HashLookup<Outcome> {
    HashLookup::from(vec![
        Outcome::Win(Side::Home, WinHandicap::AheadOver(0)),
        Outcome::Win(Side::Away, WinHandicap::BehindUnder(0)),
        Outcome::Draw(DrawHandicap::Ahead(0)),
    ])
}

#[test]
fn selection_requirements_collected() {
    let mut agg = Expansions::empty();
    let mut players = HashLookup::new();
    collect_requirements(
        &OfferType::HeadToHead(Period::FirstHalf, DrawHandicap::Ahead(0)),
        &Outcome::Draw(DrawHandicap::Ahead(0)),
        &fitted(),
        &mut agg,
        &mut players,
    )
    .unwrap();
    assert!(agg.ht_score && !agg.ft_score);
    assert_eq!(0, players.len());
    match collect_requirements(
        &OfferType::HeadToHead(Period::FullTime, DrawHandicap::Ahead(0)),
        &Outcome::Over(2),
        &fitted(),
        &mut agg,
        &mut players,
    ) {
        Err(MultiDerivationError::InvalidOutcome(e)) => assert_eq!(
            "Over(2) does not belong in HeadToHead(FullTime, Ahead(0))",
            e.to_string()
        ),
        other => panic!("unexpected {other:?}"),
    }
    assert!(!agg.ft_score);
    collect_requirements(&OfferType::AnytimeAssist, &Outcome::Player(alice()), &fitted(), &mut agg, &mut players)
        .unwrap();
    assert_eq!(1, agg.max_player_assists);
    assert_eq!(&[alice()], players.items());
    match collect_requirements(&OfferType::AnytimeAssist, &Outcome::Player(bob()), &fitted(), &mut agg, &mut players) {
        Err(MultiDerivationError::UnmetRequirement(e)) => assert_eq!(
            "missing assist probability for Named(Away, \"Bob\")",
            e.to_string()
        ),
        other => panic!("unexpected {other:?}"),
    }
    assert_eq!(1, players.len());
}

#[test]
fn team_and_player_requirements() {
    let none = Fitted {
        team_goals: false,
        team_assists: true,
        player_goals: HashLookup::new(),
        player_assists: HashLookup::new(),
    };
    let goals = Expansions { ft_score: true, ..Expansions::empty() };
    match ensure_team_requirements(&none, &goals) {
        Err(UnmetRequirement::TeamGoalProbabilities) => {}
        other => panic!("unexpected {other:?}"),
    }
    assert!(ensure_team_requirements(&fitted(), &goals).is_ok());
    assert!(ensure_team_requirements(&none, &Expansions::empty()).is_ok());
    let assists = Expansions { max_player_assists: 1, ..Expansions::empty() };
    assert!(ensure_player_requirements(&fitted(), &assists, &alice()).is_ok());
    match ensure_player_requirements(&fitted(), &assists, &Player::Other) {
        Err(UnmetRequirement::PlayerAssistProbability(Player::Other)) => {}
        other => panic!("unexpected {other:?}"),
    }
}

#[test]
fn multi_planned() {
    let offers = vec![
        (head_to_head(), head_to_head_outcomes()),
        (OfferType::AnytimeGoalscorer, HashLookup::from(vec![Outcome::Player(alice()), Outcome::Player(bob())])),
    ];
    let selections = vec![
        (OfferType::AnytimeGoalscorer, Outcome::Player(bob())),
        (head_to_head(), Outcome::Draw(DrawHandicap::Ahead(0))),
    ];
    let plan = plan_multi(&selections, &fitted(), &offers).unwrap();
    assert_eq!(vec![1, 2], plan.outcome_indices);
    assert_eq!(&[bob()], plan.players.items());
    assert!(plan.requirements.ft_score);
    assert_eq!(1, plan.requirements.max_player_goals);
    plan.requirements.validate().unwrap();

    match plan_multi(&[], &fitted(), &offers) {
        Err(MultiDerivationError::NoSelections(e)) => assert_eq!("no selections specified", e.to_string()),
        other => panic!("unexpected {:?}", other.map(|_| ())),
    }
    match plan_multi(&[(OfferType::DrawNoBet(DrawHandicap::Ahead(0)), Outcome::Draw(DrawHandicap::Ahead(0)))], &fitted(), &offers) {
        Err(MultiDerivationError::AuxiliaryOffer(e)) => assert_eq!("auxiliary DrawNoBet(Ahead(0))", e.to_string()),
        other => panic!("unexpected {:?}", other.map(|_| ())),
    }
    match plan_multi(&[(OfferType::FirstGoalscorer, Outcome::Player(alice()))], &fitted(), &offers) {
        Err(MultiDerivationError::MissingDerivative(e)) => assert_eq!(
            "missing FirstGoalscorer/Player(Named(Home, \"Alice\")) among derivatives",
            e.to_string()
        ),
        other => panic!("unexpected {:?}", other.map(|_| ())),
    }
    let crowd = vec![
        (OfferType::AnytimeGoalscorer, Outcome::Player(alice())),
        (OfferType::AnytimeGoalscorer, Outcome::Player(bob())),
        (OfferType::AnytimeGoalscorer, Outcome::Player(Player::Named(Side::Home, "Carol".into()))),
        (OfferType::AnytimeGoalscorer, Outcome::Player(Player::Named(Side::Away, "Dave".into()))),
    ];
    let many = Fitted {
        player_goals: HashLookup::from(crowd.iter().map(|(_, outcome)| outcome.get_player().unwrap().clone()).collect()),
        ..fitted()
    };
    let crowd_offer = (
        OfferType::AnytimeGoalscorer,
        HashLookup::from(crowd.iter().map(|(_, outcome)| outcome.clone()).collect()),
    );
    match plan_multi(&crowd, &many, &[crowd_offer]) {
        Err(MultiDerivationError::TooManyPlayers(e)) => assert_eq!("at most 3 players supported", e.to_string()),
        other => panic!("unexpected {:?}", other.map(|_| ())),
    }
}

#[test]
fn derivation_planned() {
    let draw_no_bet = (
        OfferType::DrawNoBet(DrawHandicap::Ahead(0)),
        HashLookup::from(vec![
            Outcome::Win(Side::Home, WinHandicap::AheadOver(0)),
            Outcome::Win(Side::Away, WinHandicap::BehindUnder(0)),
        ]),
    );
    let stubs = vec![draw_no_bet, (head_to_head(), head_to_head_outcomes())];
    assert_eq!(vec![1, 0], plan_derivation(&stubs, &fitted(), &[]).unwrap());

    let lone = vec![stubs[0].0, ];
    let lone_stubs: Vec<_> = lone.iter().map(|offer_type| (*offer_type, HashLookup::from(vec![
        Outcome::Win(Side::Home, WinHandicap::AheadOver(0)),
        Outcome::Win(Side::Away, WinHandicap::BehindUnder(0)),
    ]))).collect();
    match plan_derivation(&lone_stubs, &fitted(), &[]) {
        Err(SingleDerivationError::MissingOffer(e)) => {
            assert_eq!("missing type HeadToHead(FullTime, Ahead(0))", e.to_string())
        }
        other => panic!("unexpected {:?}", other),
    }
    assert_eq!(
        vec![0],
        plan_derivation(&lone_stubs, &fitted(), &[(head_to_head(), head_to_head_outcomes())]).unwrap()
    );

    let unfitted = Fitted { team_goals: false, ..fitted() };
    match plan_derivation(&[(head_to_head(), head_to_head_outcomes())], &unfitted, &[]) {
        Err(SingleDerivationError::UnmetRequirement(UnmetRequirement::TeamGoalProbabilities)) => {}
        other => panic!("unexpected {:?}", other),
    }
    let incomplete = HashLookup::from(vec![Outcome::Win(Side::Home, WinHandicap::AheadOver(0))]);
    match plan_derivation(&[(head_to_head(), incomplete)], &fitted(), &[]) {
        Err(SingleDerivationError::InvalidOutcome(e)) => assert_eq!(
            "Win(Away, BehindUnder(0)) missing from HeadToHead(FullTime, Ahead(0))",
            e.to_string()
        ),
        other => panic!("unexpected {:?}", other),
    }
    let scorers = HashLookup::from(vec![Outcome::Player(alice()), Outcome::Player(Player::Other)]);
    match plan_derivation(&[(OfferType::AnytimeGoalscorer, scorers)], &fitted(), &[]) {
        Err(SingleDerivationError::UnmetRequirement(e)) => {
            assert_eq!("missing goal probability for Other", e.to_string())
        }
        other => panic!("unexpected {:?}", other),
    }
}

#[test]
fn auxiliary_source_outcomes() {
    assert_eq!(
        vec![
            (head_to_head(), Outcome::Win(Side::Home, WinHandicap::AheadOver(0))),
            (head_to_head(), Outcome::Win(Side::Away, WinHandicap::BehindUnder(0))),
        ],
        source_outcomes(&OfferType::DrawNoBet(DrawHandicap::Ahead(0)))
    );
    let euro = OfferType::HeadToHead(Period::FullTime, DrawHandicap::Ahead(0));
    let asian = OfferType::AsianHandicap(Period::FullTime, WinHandicap::BehindUnder(1));
    assert_eq!(
        vec![
            (euro, Outcome::Draw(DrawHandicap::Ahead(0))),
            (asian, Outcome::Win(Side::Away, WinHandicap::AheadOver(0))),
        ],
        source_outcomes(&OfferType::SplitHandicap(Period::FullTime, DrawHandicap::Ahead(0), WinHandicap::BehindUnder(1)))
    );
}

#[test]
fn split_handicap_cases() {
    assert_eq!(
        SplitHandicapCase::AheadQuarter,
        split_handicap_case(&DrawHandicap::Ahead(2), &WinHandicap::AheadOver(2))
    );
    assert_eq!(
        SplitHandicapCase::AheadThreeQuarters,
        split_handicap_case(&DrawHandicap::Ahead(3), &WinHandicap::AheadOver(2))
    );
    assert_eq!(
        SplitHandicapCase::BehindThreeQuarters,
        split_handicap_case(&DrawHandicap::Behind(3), &WinHandicap::BehindUnder(3))
    );
    assert_eq!(
        SplitHandicapCase::BehindQuarter,
        split_handicap_case(&DrawHandicap::Ahead(0), &WinHandicap::BehindUnder(1))
    );
}

#[test]
fn feed_markets_to_offerings() {
    assert_eq!(DrawHandicap::Behind(2), to_draw_handicap(2));
    assert_eq!(DrawHandicap::Ahead(1), to_draw_handicap(-1));
    assert_eq!(DrawHandicap::Ahead(0), to_draw_handicap(0));
    let (offer_type, outcomes) = to_offering(&FeedMarket::ThreeWayHandicap(-1)).unwrap();
    assert_eq!(OfferType::HeadToHead(Period::FullTime, DrawHandicap::Ahead(1)), offer_type);
    assert_eq!(
        vec![
            Outcome::Win(Side::Home, WinHandicap::AheadOver(1)),
            Outcome::Win(Side::Away, WinHandicap::BehindUnder(1)),
            Outcome::Draw(DrawHandicap::Ahead(1)),
        ],
        outcomes
    );
    let (offer_type, outcomes) = to_offering(&FeedMarket::CorrectScore(Period::FirstHalf, vec![(1, 0), (258, 3)])).unwrap();
    assert_eq!(OfferType::CorrectScore(Period::FirstHalf), offer_type);
    assert_eq!(vec![Outcome::Score(Score::new(1, 0)), Outcome::Score(Score::new(2, 3))], outcomes);
    let (offer_type, outcomes) = to_offering(&FeedMarket::Players(
        PlayerMarket::Assist(1),
        vec![(Some(Side::Home), "Alice".into()), (None, "No assist".into())],
    ))
    .unwrap();
    assert_eq!(OfferType::AnytimeAssist, offer_type);
    assert_eq!(vec![Outcome::Player(Player::Named(Side::Home, "Alice".into())), Outcome::Nil], outcomes);
    assert!(to_offering(&FeedMarket::Players(PlayerMarket::Assist(2), vec![])).is_none());
    assert!(to_offering(&FeedMarket::Other).is_none());
    let (offer_type, outcomes) = to_offering(&FeedMarket::TwoWayHandicap(Period::FullTime, WinHandicap::AheadOver(0))).unwrap();
    assert_eq!(OfferType::AsianHandicap(Period::FullTime, WinHandicap::AheadOver(0)), offer_type);
    assert_eq!(
        vec![
            Outcome::Win(Side::Home, WinHandicap::AheadOver(0)),
            Outcome::Win(Side::Away, WinHandicap::BehindUnder(1)),
        ],
        outcomes
    );
}

#[test]
fn provider_names() {
    assert_eq!(ProviderName::Ladbrokes, parse_provider("LadBrokes").unwrap());
    assert_eq!(ProviderName::PointsBet, parse_provider("pointsbet").unwrap());
    assert_eq!("unsupported provider Tab", parse_provider("Tab").unwrap_err().to_string());
}
