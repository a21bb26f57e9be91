use vstd::prelude::*;

verus! {

/// Position of a player in the order in which players entered.
pub type PlayerId = u64;

/// Index of a card in the deck.
pub type CardId = u64;

/// Key of a room in the lobby.
pub type RoomId = u64;

/// Stable reference to the account of a player.
pub type AccountId = String;

/// An opaque token holding one card in some state of encryption.
pub type CryptoHash = String;

} // verus!
