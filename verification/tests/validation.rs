use brumby_soccer::validation::{
    InvalidOutcome, OfferAlignmentAssertion, OutcomesCompleteAssertion, OutcomesIntactAssertion,
    OutcomesMatchAssertion,
};
use brumby_soccer::{DrawHandicap, HashLookup, OfferType, Outcome, Over, Period, Player, Side, WinHandicap};

#[test]
fn tests_alignment_correct() {
    OfferAlignmentAssertion::check(
        &[
            Outcome::Win(Side::Home, WinHandicap::AheadOver(0)),
            Outcome::Win(Side::Away, WinHandicap::BehindUnder(0)),
        ],
        [0.5, 0.5].len(),
        &OfferType::DrawNoBet(DrawHandicap::Ahead(0)),
    )
    .unwrap();
}

#[test]
fn tests_alignment_incorrect() {
    let err = OfferAlignmentAssertion::check(
        &[Outcome::Win(Side::Home, WinHandicap::AheadOver(0))],
        [0.5, 0.5].len(),
        &OfferType::DrawNoBet(DrawHandicap::Ahead(0)),
    )
    .unwrap_err();
    assert_eq!(
        "1:2 outcomes:probabilities mapped for DrawNoBet(Ahead(0))",
        err.to_string()
    );
}

#[test]
fn tests_outcomes_intact() {
    let assertion = OutcomesIntactAssertion {
        outcomes: &[
            Outcome::Win(Side::Home, WinHandicap::AheadOver(0)),
            Outcome::Win(Side::Away, WinHandicap::BehindUnder(0)),
        ],
    };
    assertion
        .check(
            &HashLookup::from(vec![
                Outcome::Win(Side::Home, WinHandicap::AheadOver(0)),
                Outcome::Win(Side::Away, WinHandicap::BehindUnder(0)),
            ]),
            &OfferType::DrawNoBet(DrawHandicap::Ahead(0)),
        )
        .unwrap();
}

#[test]
fn tests_outcome_missing() {
    let assertion = OutcomesIntactAssertion {
        outcomes: &[
            Outcome::Win(Side::Home, WinHandicap::AheadOver(0)),
            Outcome::Win(Side::Away, WinHandicap::BehindUnder(0)),
        ],
    };
    let err = assertion
        .check(
            &HashLookup::from(vec![Outcome::Win(Side::Home, WinHandicap::AheadOver(0))]),
            &OfferType::DrawNoBet(DrawHandicap::Ahead(0)),
        )
        .unwrap_err();
    assert_eq!(
        "Win(Away, BehindUnder(0)) missing from DrawNoBet(Ahead(0))",
        err.to_string()
    );
}

#[test]
fn tests_outcomes_match() {
    let mut assertion = OutcomesMatchAssertion {
        matcher: |outcome: &Outcome| matches!(outcome, Outcome::Win(_, _) | Outcome::Draw(_)),
    };
    assertion
        .check(
            &[
                Outcome::Win(Side::Home, WinHandicap::AheadOver(0)),
                Outcome::Win(Side::Away, WinHandicap::BehindUnder(0)),
                Outcome::Draw(DrawHandicap::Ahead(0)),
            ],
            &OfferType::HeadToHead(Period::FullTime, DrawHandicap::Ahead(0)),
        )
        .unwrap();
}

#[test]
fn tests_outcome_does_not_match() {
    let mut assertion = OutcomesMatchAssertion {
        matcher: |outcome: &Outcome| matches!(outcome, Outcome::Win(_, _) | Outcome::Draw(_)),
    };
    let err = assertion
        .check(
            &[Outcome::Win(Side::Home, WinHandicap::AheadOver(0)), Outcome::Nil],
            &OfferType::HeadToHead(Period::FullTime, DrawHandicap::Ahead(0)),
        )
        .unwrap_err();
    assert_eq!(
        "None does not belong in HeadToHead(FullTime, Ahead(0))",
        err.to_string()
    );
}

#[test]
fn tests_outcomes_complete() {
    let assertion = OutcomesCompleteAssertion {
        outcomes: &[
            Outcome::Win(Side::Home, WinHandicap::AheadOver(0)),
            Outcome::Win(Side::Away, WinHandicap::BehindUnder(0)),
        ],
    };
    assertion
        .check(
            &HashLookup::from(vec![
                Outcome::Win(Side::Home, WinHandicap::AheadOver(0)),
                Outcome::Win(Side::Away, WinHandicap::BehindUnder(0)),
            ]),
            &OfferType::DrawNoBet(DrawHandicap::Ahead(0)),
        )
        .unwrap();
}

#[test]
fn tests_outcomes_incomplete() {
    let assertion = OutcomesCompleteAssertion {
        outcomes: &[
            Outcome::Win(Side::Home, WinHandicap::AheadOver(0)),
            Outcome::Win(Side::Away, WinHandicap::BehindUnder(0)),
        ],
    };
    {
        let err = assertion
            .check(
                &HashLookup::from(vec![Outcome::Win(Side::Home, WinHandicap::AheadOver(0))]),
                &OfferType::DrawNoBet(DrawHandicap::Ahead(0)),
            )
            .unwrap_err();
        assert_eq!(
            "Win(Away, BehindUnder(0)) missing from DrawNoBet(Ahead(0))",
            err.to_string()
        );
    }
    {
        let err = assertion
            .check(
                &HashLookup::from(vec![
                    Outcome::Win(Side::Home, WinHandicap::AheadOver(0)),
                    Outcome::Win(Side::Away, WinHandicap::BehindUnder(0)),
                    Outcome::Draw(DrawHandicap::Ahead(0)),
                ]),
                &OfferType::DrawNoBet(DrawHandicap::Ahead(0)),
            )
            .unwrap_err();
        assert_eq!(
            "Draw(Ahead(0)) does not belong in DrawNoBet(Ahead(0))",
            err.to_string()
        );
    }
}

fn lookup(outcomes: Vec<Outcome>) -> HashLookup<Outcome> {
    HashLookup::from(outcomes)
}

#[test]
fn head_to_head_outcomes_validated() {
    let offer_type = OfferType::HeadToHead(Period::FullTime, DrawHandicap::Ahead(2));
    offer_type
        .validate_outcomes(&lookup(vec![
            Outcome::Win(Side::Home, WinHandicap::AheadOver(2)),
            Outcome::Win(Side::Away, WinHandicap::BehindUnder(2)),
            Outcome::Draw(DrawHandicap::Ahead(2)),
        ]))
        .unwrap();
    assert_eq!(
        "Draw(Ahead(2)) missing from HeadToHead(FullTime, Ahead(2))",
        offer_type
            .validate_outcomes(&lookup(vec![
                Outcome::Win(Side::Home, WinHandicap::AheadOver(2)),
                Outcome::Win(Side::Away, WinHandicap::BehindUnder(2)),
            ]))
            .unwrap_err()
            .to_string()
    );
    assert_eq!(
        "None does not belong in HeadToHead(FullTime, Ahead(2))",
        offer_type
            .validate_outcomes(&lookup(vec![
                Outcome::Win(Side::Home, WinHandicap::AheadOver(2)),
                Outcome::Win(Side::Away, WinHandicap::BehindUnder(2)),
                Outcome::Draw(DrawHandicap::Ahead(2)),
                Outcome::Nil,
            ]))
            .unwrap_err()
            .to_string()
    );
}

#[test]
fn total_goals_outcomes_validated() {
    let offer_type = OfferType::TotalGoals(Period::FullTime, Over(2));
    offer_type
        .validate_outcomes(&lookup(vec![Outcome::Over(2), Outcome::Under(3)]))
        .unwrap();
    assert_eq!(
        "Under(3) missing from TotalGoals(FullTime, Over(2))",
        offer_type
            .validate_outcomes(&lookup(vec![Outcome::Over(2)]))
            .unwrap_err()
            .to_string()
    );
}

#[test]
fn asian_handicap_outcomes_validated() {
    let offer_type = OfferType::AsianHandicap(Period::FullTime, WinHandicap::AheadOver(2));
    offer_type
        .validate_outcomes(&lookup(vec![
            Outcome::Win(Side::Home, WinHandicap::AheadOver(2)),
            Outcome::Win(Side::Away, WinHandicap::BehindUnder(3)),
        ]))
        .unwrap();
    assert_eq!(
        "Win(Away, BehindUnder(3)) missing from AsianHandicap(FullTime, AheadOver(2))",
        offer_type
            .validate_outcomes(&lookup(vec![Outcome::Win(Side::Home, WinHandicap::AheadOver(2))]))
            .unwrap_err()
            .to_string()
    );
}

#[test]
fn draw_no_bet_validated() {
    let offer_type = OfferType::DrawNoBet(DrawHandicap::Ahead(2));
    offer_type.validate().unwrap();
    offer_type
        .validate_outcomes(&lookup(vec![
            Outcome::Win(Side::Home, WinHandicap::AheadOver(2)),
            Outcome::Win(Side::Away, WinHandicap::BehindUnder(2)),
        ]))
        .unwrap();
    assert_eq!(
        "Draw(Ahead(2)) does not belong in DrawNoBet(Ahead(2))",
        offer_type
            .validate_outcomes(&lookup(vec![
                Outcome::Win(Side::Home, WinHandicap::AheadOver(2)),
                Outcome::Win(Side::Away, WinHandicap::BehindUnder(2)),
                Outcome::Draw(DrawHandicap::Ahead(2)),
            ]))
            .unwrap_err()
            .to_string()
    );
    assert_eq!(
        "DrawNoBet(Behind(0)) is not a valid offer type",
        OfferType::DrawNoBet(DrawHandicap::Behind(0))
            .validate()
            .unwrap_err()
            .to_string()
    );
}

#[test]
fn split_handicap_validated() {
    for (draw, win) in [
        (DrawHandicap::Ahead(2), WinHandicap::AheadOver(2)),
        (DrawHandicap::Ahead(3), WinHandicap::AheadOver(2)),
        (DrawHandicap::Behind(2), WinHandicap::BehindUnder(3)),
        (DrawHandicap::Behind(3), WinHandicap::BehindUnder(3)),
    ] {
        OfferType::SplitHandicap(Period::FullTime, draw, win).validate().unwrap();
    }
    let offer_type = OfferType::SplitHandicap(Period::FullTime, DrawHandicap::Ahead(2), WinHandicap::AheadOver(2));
    offer_type
        .validate_outcomes(&lookup(vec![
            Outcome::SplitWin(Side::Home, DrawHandicap::Ahead(2), WinHandicap::AheadOver(2)),
            Outcome::SplitWin(Side::Away, DrawHandicap::Behind(2), WinHandicap::BehindUnder(3)),
        ]))
        .unwrap();
    assert_eq!(
        "SplitWin(Away, Behind(2), BehindUnder(3)) missing from SplitHandicap(FullTime, Ahead(2), AheadOver(2))",
        offer_type
            .validate_outcomes(&lookup(vec![Outcome::SplitWin(
                Side::Home,
                DrawHandicap::Ahead(2),
                WinHandicap::AheadOver(2)
            )]))
            .unwrap_err()
            .to_string()
    );
    assert_eq!(
        "SplitHandicap(FullTime, Ahead(2), AheadOver(3)) is not a valid offer type",
        OfferType::SplitHandicap(Period::FullTime, DrawHandicap::Ahead(2), WinHandicap::AheadOver(3))
            .validate()
            .unwrap_err()
            .to_string()
    );
    assert_eq!(
        "SplitHandicap(FullTime, Behind(2), BehindUnder(1)) is not a valid offer type",
        OfferType::SplitHandicap(Period::FullTime, DrawHandicap::Behind(2), WinHandicap::BehindUnder(1))
            .validate()
            .unwrap_err()
            .to_string()
    );
}

#[test]
fn single_outcome_validated() {
    let offer_type = OfferType::HeadToHead(Period::FirstHalf, DrawHandicap::Behind(1));
    offer_type
        .validate_outcome(&Outcome::Win(Side::Away, WinHandicap::AheadOver(1)))
        .unwrap();
    match offer_type.validate_outcome(&Outcome::Win(Side::Away, WinHandicap::BehindUnder(1))) {
        Err(InvalidOutcome::ExtraneousOutcome(e)) => assert_eq!(
            "Win(Away, BehindUnder(1)) does not belong in HeadToHead(FirstHalf, Behind(1))",
            e.to_string()
        ),
        other => panic!("unexpected {other:?}"),
    }
    OfferType::FirstGoalscorer
        .validate_outcome(&Outcome::Player(Player::Named(Side::Home, "Alice".into())))
        .unwrap();
}

#[test]
fn player_outcome_rendered_with_quoted_name() {
    let err = OfferType::CorrectScore(Period::FullTime)
        .validate_outcome(&Outcome::Nil)
        .map(|_| ());
    assert!(err.is_ok());
    let err = OfferType::TotalGoals(Period::FullTime, Over(1))
        .validate_outcome(&Outcome::Player(Player::Named(Side::Away, "Bo \"B\"".into())))
        .unwrap_err();
    assert_eq!(
        "Player(Named(Away, \"Bo \\\"B\\\"\")) does not belong in TotalGoals(FullTime, Over(1))",
        err.to_string()
    );
}

#[test]
fn lookup_keeps_first_occurrences() {
    let lookup = HashLookup::from(vec![
        Outcome::Over(1),
        Outcome::Player(Player::Named(Side::Home, "Alice".into())),
        Outcome::Over(1),
        Outcome::Player(Player::Named(Side::Home, "Alice".into())),
        Outcome::Under(2),
    ]);
    assert_eq!(3, lookup.len());
    assert_eq!(Some(1), lookup.index_of(&Outcome::Player(Player::Named(Side::Home, "Alice".into()))));
    assert_eq!(None, lookup.index_of(&Outcome::Player(Player::Named(Side::Away, "Alice".into()))));
    assert_eq!(Some(2), lookup.index_of(&Outcome::Under(2)));
}
