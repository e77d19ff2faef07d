use vstd::prelude::*;

use crate::domain::{
    DrawHandicap, OfferCategory, OfferType, Outcome, Period, Player, Score, Side, WinHandicap,
};

verus! {

// The textual forms below are those of the types' `Debug` rendering, which
// the messages of the library's errors are made of.

pub open spec fn digit_text(d: nat) -> Seq<char> {
    if d == 0 {
        "0"@
    } else if d == 1 {
        "1"@
    } else if d == 2 {
        "2"@
    } else if d == 3 {
        "3"@
    } else if d == 4 {
        "4"@
    } else if d == 5 {
        "5"@
    } else if d == 6 {
        "6"@
    } else if d == 7 {
        "7"@
    } else if d == 8 {
        "8"@
    } else {
        "9"@
    }
}

/// Decimal notation of `n`, without leading zeros.
pub open spec fn decimal_text(n: nat) -> Seq<char>
    decreases n,
{
    if n < 10 {
        digit_text(n)
    } else {
        decimal_text(n / 10) + digit_text(n % 10)
    }
}

/// std's `Debug` rendering of a string: the characters in double quotes,
/// with the escapes that `str::escape_debug` makes.
pub uninterp spec fn debug_string(s: Seq<char>) -> Seq<char>;

/// Calls `format!("{:?}", ..)` on a `String`, that is `<str as Debug>::fmt`.
/// Claimed: the result is `debug_string` of the characters, which holds as
/// that rendering depends on the characters alone.
#[verifier::external_body]
fn debug_quoted(s: &String) -> (quoted: String)
    ensures
        quoted@ == debug_string(s@),
{
    format!("{:?}", s)
}

pub open spec fn side_text(side: Side) -> Seq<char> {
    match side {
        Side::Home => "Home"@,
        Side::Away => "Away"@,
    }
}

pub open spec fn period_text(period: Period) -> Seq<char> {
    match period {
        Period::FirstHalf => "FirstHalf"@,
        Period::SecondHalf => "SecondHalf"@,
        Period::FullTime => "FullTime"@,
    }
}

pub open spec fn draw_handicap_text(handicap: DrawHandicap) -> Seq<char> {
    match handicap {
        DrawHandicap::Ahead(by) => "Ahead("@ + decimal_text(by as nat) + ")"@,
        DrawHandicap::Behind(by) => "Behind("@ + decimal_text(by as nat) + ")"@,
    }
}

pub open spec fn win_handicap_text(handicap: WinHandicap) -> Seq<char> {
    match handicap {
        WinHandicap::AheadOver(by) => "AheadOver("@ + decimal_text(by as nat) + ")"@,
        WinHandicap::BehindUnder(by) => "BehindUnder("@ + decimal_text(by as nat) + ")"@,
    }
}

pub open spec fn score_text(score: Score) -> Seq<char> {
    "Score { home: "@ + decimal_text(score.home as nat) + ", away: "@ + decimal_text(
        score.away as nat,
    ) + " }"@
}

pub open spec fn player_text(player: Player) -> Seq<char> {
    match player {
        Player::Named(side, name) => "Named("@ + side_text(side) + ", "@ + debug_string(name@)
            + ")"@,
        Player::Other => "Other"@,
    }
}

pub open spec fn outcome_text(outcome: Outcome) -> Seq<char> {
    match outcome {
        Outcome::Win(side, handicap) => "Win("@ + side_text(side) + ", "@ + win_handicap_text(
            handicap,
        ) + ")"@,
        Outcome::Draw(handicap) => "Draw("@ + draw_handicap_text(handicap) + ")"@,
        Outcome::SplitWin(side, draw, win) => "SplitWin("@ + side_text(side) + ", "@
            + draw_handicap_text(draw) + ", "@ + win_handicap_text(win) + ")"@,
        Outcome::Under(goals) => "Under("@ + decimal_text(goals as nat) + ")"@,
        Outcome::Over(goals) => "Over("@ + decimal_text(goals as nat) + ")"@,
        Outcome::Score(score) => "Score("@ + score_text(score) + ")"@,
        Outcome::Player(player) => "Player("@ + player_text(player) + ")"@,
        Outcome::Nil => "None"@,
    }
}

pub open spec fn offer_type_text(offer_type: OfferType) -> Seq<char> {
    match offer_type {
        OfferType::HeadToHead(period, handicap) => "HeadToHead("@ + period_text(period) + ", "@
            + draw_handicap_text(handicap) + ")"@,
        OfferType::TotalGoals(period, over) => "TotalGoals("@ + period_text(period)
            + ", Over("@ + decimal_text(over.0 as nat) + "))"@,
        OfferType::CorrectScore(period) => "CorrectScore("@ + period_text(period) + ")"@,
        OfferType::AsianHandicap(period, handicap) => "AsianHandicap("@ + period_text(period)
            + ", "@ + win_handicap_text(handicap) + ")"@,
        OfferType::DrawNoBet(handicap) => "DrawNoBet("@ + draw_handicap_text(handicap) + ")"@,
        OfferType::SplitHandicap(period, draw, win) => "SplitHandicap("@ + period_text(period)
            + ", "@ + draw_handicap_text(draw) + ", "@ + win_handicap_text(win) + ")"@,
        OfferType::AnytimeGoalscorer => "AnytimeGoalscorer"@,
        OfferType::FirstGoalscorer => "FirstGoalscorer"@,
        OfferType::PlayerShotsOnTarget(over) => "PlayerShotsOnTarget(Over("@ + decimal_text(
            over.0 as nat,
        ) + "))"@,
        OfferType::AnytimeAssist => "AnytimeAssist"@,
    }
}

pub open spec fn offer_category_text(category: OfferCategory) -> Seq<char> {
    match category {
        OfferCategory::HeadToHead => "HeadToHead"@,
        OfferCategory::TotalGoals => "TotalGoals"@,
        OfferCategory::CorrectScore => "CorrectScore"@,
        OfferCategory::AsianHandicap => "AsianHandicap"@,
        OfferCategory::DrawNoBet => "DrawNoBet"@,
        OfferCategory::SplitHandicap => "SplitHandicap"@,
        OfferCategory::AnytimeGoalscorer => "AnytimeGoalscorer"@,
        OfferCategory::FirstGoalscorer => "FirstGoalscorer"@,
        OfferCategory::PlayerShotsOnTarget => "PlayerShotsOnTarget"@,
        OfferCategory::AnytimeAssist => "AnytimeAssist"@,
    }
}

fn digit_str(d: u64) -> (digit: &'static str)
    requires
        d < 10,
    ensures
        digit@ == digit_text(d as nat),
{
    if d == 0 {
        "0"
    } else if d == 1 {
        "1"
    } else if d == 2 {
        "2"
    } else if d == 3 {
        "3"
    } else if d == 4 {
        "4"
    } else if d == 5 {
        "5"
    } else if d == 6 {
        "6"
    } else if d == 7 {
        "7"
    } else if d == 8 {
        "8"
    } else {
        "9"
    }
}

pub fn push_decimal(text: &mut String, n: u64)
    ensures
        final(text)@ == old(text)@ + decimal_text(n as nat),
    decreases n,
{
    if n >= 10 {
        push_decimal(text, n / 10);
        text.append(digit_str(n % 10));
        proof {
            assert(old(text)@ + decimal_text((n / 10) as nat) + digit_text((n % 10) as nat)
                =~= old(text)@ + decimal_text(n as nat));
        }
    } else {
        text.append(digit_str(n));
    }
}

pub fn push_side(text: &mut String, side: &Side)
    ensures
        final(text)@ == old(text)@ + side_text(*side),
{
    match side {
        Side::Home => text.append("Home"),
        Side::Away => text.append("Away"),
    }
}

pub fn push_period(text: &mut String, period: &Period)
    ensures
        final(text)@ == old(text)@ + period_text(*period),
{
    match period {
        Period::FirstHalf => text.append("FirstHalf"),
        Period::SecondHalf => text.append("SecondHalf"),
        Period::FullTime => text.append("FullTime"),
    }
}

pub fn push_draw_handicap(text: &mut String, handicap: &DrawHandicap)
    ensures
        final(text)@ == old(text)@ + draw_handicap_text(*handicap),
{
    let by = match handicap {
        DrawHandicap::Ahead(by) => {
            text.append("Ahead(");
            *by
        },
        DrawHandicap::Behind(by) => {
            text.append("Behind(");
            *by
        },
    };
    push_decimal(text, by as u64);
    text.append(")");
    proof {
        assert(final(text)@ =~= old(text)@ + draw_handicap_text(*handicap));
    }
}

pub fn push_win_handicap(text: &mut String, handicap: &WinHandicap)
    ensures
        final(text)@ == old(text)@ + win_handicap_text(*handicap),
{
    let by = match handicap {
        WinHandicap::AheadOver(by) => {
            text.append("AheadOver(");
            *by
        },
        WinHandicap::BehindUnder(by) => {
            text.append("BehindUnder(");
            *by
        },
    };
    push_decimal(text, by as u64);
    text.append(")");
    proof {
        assert(final(text)@ =~= old(text)@ + win_handicap_text(*handicap));
    }
}

pub fn push_player(text: &mut String, player: &Player)
    ensures
        final(text)@ == old(text)@ + player_text(*player),
{
    match player {
        Player::Named(side, name) => {
            text.append("Named(");
            push_side(text, side);
            text.append(", ");
            let quoted = debug_quoted(name);
            text.append(quoted.as_str());
            text.append(")");
            proof {
                assert(final(text)@ =~= old(text)@ + player_text(*player));
            }
        },
        Player::Other => text.append("Other"),
    }
}

pub fn push_outcome(text: &mut String, outcome: &Outcome)
    ensures
        final(text)@ == old(text)@ + outcome_text(*outcome),
{
    match outcome {
        Outcome::Win(side, handicap) => {
            text.append("Win(");
            push_side(text, side);
            text.append(", ");
            push_win_handicap(text, handicap);
            text.append(")");
        },
        Outcome::Draw(handicap) => {
            text.append("Draw(");
            push_draw_handicap(text, handicap);
            text.append(")");
        },
        Outcome::SplitWin(side, draw, win) => {
            text.append("SplitWin(");
            push_side(text, side);
            text.append(", ");
            push_draw_handicap(text, draw);
            text.append(", ");
            push_win_handicap(text, win);
            text.append(")");
        },
        Outcome::Under(goals) => {
            text.append("Under(");
            push_decimal(text, *goals as u64);
            text.append(")");
        },
        Outcome::Over(goals) => {
            text.append("Over(");
            push_decimal(text, *goals as u64);
            text.append(")");
        },
        Outcome::Score(score) => {
            text.append("Score(Score { home: ");
            push_decimal(text, score.home as u64);
            text.append(", away: ");
            push_decimal(text, score.away as u64);
            text.append(" })");
            proof {
                assert("Score(Score { home: "@ =~= "Score("@ + "Score { home: "@) by {
                    reveal_strlit("Score(Score { home: ");
                    reveal_strlit("Score(");
                    reveal_strlit("Score { home: ");
                }
                assert(" })"@ =~= " }"@ + ")"@) by {
                    reveal_strlit(" })");
                    reveal_strlit(" }");
                    reveal_strlit(")");
                }
            }
        },
        Outcome::Player(player) => {
            text.append("Player(");
            push_player(text, player);
            text.append(")");
        },
        Outcome::Nil => text.append("None"),
    }
    proof {
        assert(final(text)@ =~= old(text)@ + outcome_text(*outcome));
    }
}

pub fn push_offer_type(text: &mut String, offer_type: &OfferType)
    ensures
        final(text)@ == old(text)@ + offer_type_text(*offer_type),
{
    match offer_type {
        OfferType::HeadToHead(period, handicap) => {
            text.append("HeadToHead(");
            push_period(text, period);
            text.append(", ");
            push_draw_handicap(text, handicap);
            text.append(")");
        },
        OfferType::TotalGoals(period, over) => {
            text.append("TotalGoals(");
            push_period(text, period);
            text.append(", Over(");
            push_decimal(text, over.0 as u64);
            text.append("))");
        },
        OfferType::CorrectScore(period) => {
            text.append("CorrectScore(");
            push_period(text, period);
            text.append(")");
        },
        OfferType::AsianHandicap(period, handicap) => {
            text.append("AsianHandicap(");
            push_period(text, period);
            text.append(", ");
            push_win_handicap(text, handicap);
            text.append(")");
        },
        OfferType::DrawNoBet(handicap) => {
            text.append("DrawNoBet(");
            push_draw_handicap(text, handicap);
            text.append(")");
        },
        OfferType::SplitHandicap(period, draw, win) => {
            text.append("SplitHandicap(");
            push_period(text, period);
            text.append(", ");
            push_draw_handicap(text, draw);
            text.append(", ");
            push_win_handicap(text, win);
            text.append(")");
        },
        OfferType::AnytimeGoalscorer => text.append("AnytimeGoalscorer"),
        OfferType::FirstGoalscorer => text.append("FirstGoalscorer"),
        OfferType::PlayerShotsOnTarget(over) => {
            text.append("PlayerShotsOnTarget(Over(");
            push_decimal(text, over.0 as u64);
            text.append("))");
        },
        OfferType::AnytimeAssist => text.append("AnytimeAssist"),
    }
    proof {
        assert(final(text)@ =~= old(text)@ + offer_type_text(*offer_type));
    }
}

pub fn push_offer_category(text: &mut String, category: &OfferCategory)
    ensures
        final(text)@ == old(text)@ + offer_category_text(*category),
{
    match category {
        OfferCategory::HeadToHead => text.append("HeadToHead"),
        OfferCategory::TotalGoals => text.append("TotalGoals"),
        OfferCategory::CorrectScore => text.append("CorrectScore"),
        OfferCategory::AsianHandicap => text.append("AsianHandicap"),
        OfferCategory::DrawNoBet => text.append("DrawNoBet"),
        OfferCategory::SplitHandicap => text.append("SplitHandicap"),
        OfferCategory::AnytimeGoalscorer => text.append("AnytimeGoalscorer"),
        OfferCategory::FirstGoalscorer => text.append("FirstGoalscorer"),
        OfferCategory::PlayerShotsOnTarget => text.append("PlayerShotsOnTarget"),
        OfferCategory::AnytimeAssist => text.append("AnytimeAssist"),
    }
}

} // verus!
