//! The texts under which a store keeps statuses and sides.
//!
//! Reading is lenient: a text that is none of the known ones reads as the
//! first value of its kind.

use vstd::prelude::*;
use vstd::string::*;
use crate::domain::models::{BetStatus, MarketStatus, Side};

verus! {

/// The text of a market status.
pub open spec fn market_status_text(status: MarketStatus) -> Seq<char> {
    match status {
        MarketStatus::Draft => "draft"@,
        MarketStatus::Open => "open"@,
        MarketStatus::Closed => "closed"@,
        MarketStatus::Resolved => "resolved"@,
    }
}

/// The market status that a text reads as.
pub open spec fn market_status_of(text: Seq<char>) -> MarketStatus {
    if text == "open"@ {
        MarketStatus::Open
    } else if text == "closed"@ {
        MarketStatus::Closed
    } else if text == "resolved"@ {
        MarketStatus::Resolved
    } else {
        MarketStatus::Draft
    }
}

/// The text of a bet status.
pub open spec fn bet_status_text(status: BetStatus) -> Seq<char> {
    match status {
        BetStatus::Pending => "pending"@,
        BetStatus::Active => "active"@,
        BetStatus::ResolvedYes => "resolved_yes"@,
        BetStatus::ResolvedNo => "resolved_no"@,
        BetStatus::Challenged => "challenged"@,
    }
}

/// The bet status that a text reads as.
pub open spec fn bet_status_of(text: Seq<char>) -> BetStatus {
    if text == "active"@ {
        BetStatus::Active
    } else if text == "resolved_yes"@ {
        BetStatus::ResolvedYes
    } else if text == "resolved_no"@ {
        BetStatus::ResolvedNo
    } else if text == "challenged"@ {
        BetStatus::Challenged
    } else {
        BetStatus::Pending
    }
}

/// The text of a side.
pub open spec fn side_text(side: Side) -> Seq<char> {
    match side {
        Side::Yes => "YES"@,
        Side::No => "NO"@,
    }
}

/// The side that a text reads as.
pub open spec fn side_of(text: Seq<char>) -> Side {
    if text == "NO"@ {
        Side::No
    } else {
        Side::Yes
    }
}

/// Tests whether `text` reads `word`.
fn reads(text: &str, word: &str) -> (b: bool)
    ensures
        b == (text@ == word@),
{
    text.to_string() == word.to_string()
}

/// Writes a market status as text.
pub fn serialize_market_status(status: MarketStatus) -> (text: String)
    ensures
        text@ == market_status_text(status),
{
    match status {
        MarketStatus::Draft => "draft".to_string(),
        MarketStatus::Open => "open".to_string(),
        MarketStatus::Closed => "closed".to_string(),
        MarketStatus::Resolved => "resolved".to_string(),
    }
}

/// Reads a market status; what is not known reads as draft.
pub fn deserialize_market_status(s: &str) -> (status: MarketStatus)
    ensures
        status == market_status_of(s@),
{
    if reads(s, "open") {
        MarketStatus::Open
    } else if reads(s, "closed") {
        MarketStatus::Closed
    } else if reads(s, "resolved") {
        MarketStatus::Resolved
    } else {
        MarketStatus::Draft
    }
}

/// Writes a bet status as text.
pub fn serialize_bet_status(status: BetStatus) -> (text: String)
    ensures
        text@ == bet_status_text(status),
{
    match status {
        BetStatus::Pending => "pending".to_string(),
        BetStatus::Active => "active".to_string(),
        BetStatus::ResolvedYes => "resolved_yes".to_string(),
        BetStatus::ResolvedNo => "resolved_no".to_string(),
        BetStatus::Challenged => "challenged".to_string(),
    }
}

/// Reads a bet status; what is not known reads as pending.
pub fn deserialize_bet_status(s: &str) -> (status: BetStatus)
    ensures
        status == bet_status_of(s@),
{
    if reads(s, "active") {
        BetStatus::Active
    } else if reads(s, "resolved_yes") {
        BetStatus::ResolvedYes
    } else if reads(s, "resolved_no") {
        BetStatus::ResolvedNo
    } else if reads(s, "challenged") {
        BetStatus::Challenged
    } else {
        BetStatus::Pending
    }
}

/// Writes a side as text.
pub fn serialize_side(side: Side) -> (text: String)
    ensures
        text@ == side_text(side),
{
    match side {
        Side::Yes => "YES".to_string(),
        Side::No => "NO".to_string(),
    }
}

/// Reads a side; what is not known reads as YES.
pub fn deserialize_side(s: &str) -> (side: Side)
    ensures
        side == side_of(s@),
{
    if reads(s, "NO") {
        Side::No
    } else {
        Side::Yes
    }
}

/// What was written as a status or a side reads back as the same.
pub proof fn lemma_round_trip(market_status: MarketStatus, bet_status: BetStatus, side: Side)
    ensures
        market_status_of(market_status_text(market_status)) == market_status,
        bet_status_of(bet_status_text(bet_status)) == bet_status,
        side_of(side_text(side)) == side,
{
    reveal_strlit("draft");
    reveal_strlit("open");
    reveal_strlit("closed");
    reveal_strlit("resolved");
    reveal_strlit("pending");
    reveal_strlit("active");
    reveal_strlit("resolved_yes");
    reveal_strlit("resolved_no");
    reveal_strlit("challenged");
    reveal_strlit("YES");
    reveal_strlit("NO");
    assert("draft"@.len() == 5 && "open"@.len() == 4 && "closed"@.len() == 6 && "resolved"@.len() == 8);
    assert("pending"@.len() == 7 && "active"@.len() == 6 && "resolved_yes"@.len() == 12
        && "resolved_no"@.len() == 11 && "challenged"@.len() == 10);
    assert("draft"@[0] == 'd' && "open"@[0] == 'o' && "closed"@[0] == 'c' && "resolved"@[0] == 'r');
    assert("pending"@[0] == 'p' && "active"@[0] == 'a' && "closed"@[1] == 'l');
    assert("YES"@.len() == 3 && "NO"@.len() == 2);
}

} // verus!
