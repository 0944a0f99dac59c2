//! The rules of a chat casino: cards, games, bets, accounts and replies.

pub mod accounts;
pub mod bets;
pub mod blackjack;
pub mod cards;
pub mod chance;
pub mod clock;
pub mod conversation;
pub mod events;
pub mod games;
pub mod hand_rank;
pub mod keepalive;
pub mod keyboard;
pub mod ledger;
pub mod locale;
pub mod message;
pub mod payload;
pub mod poker;
pub mod press;
pub mod promises;
pub mod reply;
pub mod storage;
pub mod text;
pub mod wording;
