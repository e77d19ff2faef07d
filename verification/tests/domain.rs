use brumby_soccer::cf::{Factor, FACTOR_COUNT};
use brumby_soccer::{
    DrawHandicap, OfferCategory, OfferType, Outcome, Over, Period, Player, Score, Side, WinHandicap,
};

#[test]
fn score_totals() {
    assert_eq!(Score { home: 2, away: 3 }, Score::new(2, 3));
    assert_eq!(Score { home: 0, away: 0 }, Score::nil_all());
    assert_eq!(5, Score::new(2, 3).total());
    assert_eq!(255, Score::new(200, 55).total());
}

#[test]
fn draw_handicap_flips() {
    assert_eq!(WinHandicap::AheadOver(2), DrawHandicap::Ahead(2).to_win_handicap());
    assert_eq!(WinHandicap::BehindUnder(1), DrawHandicap::Behind(1).to_win_handicap());
    assert_eq!(DrawHandicap::Ahead(0), DrawHandicap::Ahead(0).flip());
    assert_eq!(DrawHandicap::Behind(3), DrawHandicap::Ahead(3).flip());
    assert_eq!(DrawHandicap::Ahead(3), DrawHandicap::Behind(3).flip());
    assert_eq!(DrawHandicap::Ahead(3), DrawHandicap::Ahead(3).flip().flip());
}

#[test]
fn win_handicap_flips() {
    assert_eq!(WinHandicap::BehindUnder(2), WinHandicap::AheadOver(2).flip_european());
    assert_eq!(WinHandicap::AheadOver(2), WinHandicap::BehindUnder(2).flip_european());
    assert_eq!(WinHandicap::BehindUnder(3), WinHandicap::AheadOver(2).flip_asian());
    assert_eq!(WinHandicap::AheadOver(1), WinHandicap::BehindUnder(2).flip_asian());
    assert_eq!(
        WinHandicap::AheadOver(0),
        WinHandicap::AheadOver(0).flip_asian().flip_asian()
    );
}

#[test]
fn offer_categories() {
    assert_eq!(
        OfferCategory::SplitHandicap,
        OfferType::SplitHandicap(Period::FullTime, DrawHandicap::Ahead(1), WinHandicap::AheadOver(1))
            .category()
    );
    assert_eq!(OfferCategory::TotalGoals, OfferType::TotalGoals(Period::FirstHalf, Over(1)).category());
    assert_eq!(OfferCategory::AnytimeAssist, OfferType::AnytimeAssist.category());
    assert!(OfferType::DrawNoBet(DrawHandicap::Ahead(0)).is_auxiliary());
    assert!(!OfferType::HeadToHead(Period::FullTime, DrawHandicap::Ahead(0)).is_auxiliary());
}

#[test]
fn outcome_player() {
    let alice = Player::Named(Side::Home, "Alice".into());
    assert_eq!(Some(&alice), Outcome::Player(alice.clone()).get_player());
    assert_eq!(None, Outcome::Nil.get_player());
    assert_eq!(None, Outcome::Over(2).get_player());
}

#[test]
fn factor_indices() {
    let factors = Factor::all();
    assert_eq!(FACTOR_COUNT, factors.len());
    for (index, factor) in factors.iter().enumerate() {
        assert_eq!(index, factor.ordinal());
        assert_eq!(index, factor.as_index());
        assert_eq!(index, usize::from(*factor));
    }
    assert_eq!("Weight2", Factor::Weight2.to_string());
}
