//! The collaborative deck: every player encrypts the whole deck once, in
//! turn, and a card is revealed by having the players remove their layers one
//! after another.
use vstd::prelude::*;

use crate::types::{AccountId, CardId, CryptoHash, PlayerId};

verus! {

#[derive(Debug, Clone, Copy, PartialEq, Eq, Structural)]
pub enum DeckError {
    DeckAlreadyInitiated,
    DeckNotInShufflingState,
    NotPossibleToStartReveal,
    PlayerAlreadyInGame,
    PlayerNotInGame,
    InvalidTurn,
    InvalidPlayerId,
    InvalidCardId,
    /// Tried to fetch a revealed card, but it is not revealed yet.
    CardNotRevealed,
    /// Tried to reveal a part while no reveal is in progress.
    NotRevealing,
    /// Tried to reveal a part while it is not this player's turn.
    PlayerCantReveal,
}

#[derive(Debug, Clone, PartialEq, Eq)]
pub enum DeckStatus {
    Initiating,
    Shuffling(PlayerId),
    Running,
    /// A card is being revealed.
    Revealing {
        /// Card to be revealed.
        card_id: CardId,
        /// Player to whom the card is revealed; `None` when it is revealed to
        /// the whole table.
        receiver: Option<PlayerId>,
        /// Player that must act now. It is the receiver once every other
        /// player has removed its layer.
        turn: PlayerId,
        /// The card as far as it has been decrypted.
        progress: CryptoHash,
    },
    Closed,
}

impl Default for DeckStatus {
    fn default() -> (r: DeckStatus)
        ensures
            r == DeckStatus::Initiating,
    {
        DeckStatus::Initiating
    }
}

/// The characters of the decimal digits.
pub open spec fn digit_char(d: nat) -> char {
    seq!['0', '1', '2', '3', '4', '5', '6', '7', '8', '9'][d as int]
}

/// Decimal representation of `n`, without sign or padding.
pub open spec fn decimal(n: nat) -> Seq<char>
    decreases n,
{
    if n < 10 {
        seq![digit_char(n)]
    } else {
        decimal(n / 10).push(digit_char(n % 10))
    }
}

/// Relies on `ToString` of `u64` (std's `Display`): the decimal digits of
/// the value, without sign or padding.
#[verifier::external_body]
fn card_label(n: u64) -> (r: String)
    ensures
        r@ == decimal(n as nat),
{
    n.to_string()
}

/// Whether two statuses are the same, with tokens compared by content.
pub open spec fn same_status(a: DeckStatus, b: DeckStatus) -> bool {
    match (a, b) {
        (DeckStatus::Initiating, DeckStatus::Initiating) => true,
        (DeckStatus::Shuffling(x), DeckStatus::Shuffling(y)) => x == y,
        (DeckStatus::Running, DeckStatus::Running) => true,
        (DeckStatus::Closed, DeckStatus::Closed) => true,
        (
            DeckStatus::Revealing { card_id: c1, receiver: r1, turn: t1, progress: p1 },
            DeckStatus::Revealing { card_id: c2, receiver: r2, turn: t2, progress: p2 },
        ) => c1 == c2 && r1 == r2 && t1 == t2 && p1@ == p2@,
        _ => false,
    }
}

/// Status after the player at `shuffler` has submitted its shuffle, in a
/// deck of `n` players.
pub open spec fn shuffle_next(shuffler: PlayerId, n: nat) -> DeckStatus {
    if shuffler + 1 < n {
        DeckStatus::Shuffling((shuffler + 1) as PlayerId)
    } else {
        DeckStatus::Running
    }
}

/// First player to act in a reveal to `receiver`, before any player is
/// skipped for being past the end of the table.
pub open spec fn first_contributor(receiver: Option<PlayerId>) -> int {
    match receiver {
        Some(r) => if r == 0 { 1 } else { 0 },
        None => 0,
    }
}

/// Player that acts after `turn` in a reveal to `receiver`: the next one,
/// with the receiver skipped.
pub open spec fn reveal_step(turn: int, receiver: Option<PlayerId>) -> int {
    match receiver {
        Some(r) => if turn + 1 == r { turn + 2 } else { turn + 1 },
        None => turn + 1,
    }
}

/// The turn with which a reveal to `receiver` starts in a deck of `n` players.
pub open spec fn first_reveal_turn(receiver: Option<PlayerId>, n: nat) -> PlayerId {
    match receiver {
        Some(r) => if first_contributor(receiver) >= n {
            r
        } else {
            first_contributor(receiver) as PlayerId
        },
        None => 0,
    }
}

/// The players that remove their layer, in order, from `turn` on, in a reveal
/// to `receiver` among `n` players.
pub open spec fn reveal_turns(turn: int, receiver: Option<PlayerId>, n: nat) -> Seq<int>
    decreases n - turn,
{
    if turn < 0 || turn >= n {
        Seq::empty()
    } else {
        let next = reveal_step(turn, receiver);
        if next <= turn || next > n {
            seq![turn]
        } else {
            seq![turn] + reveal_turns(next, receiver, n)
        }
    }
}

/// Every player but `r`, in increasing order, among `n` players.
pub open spec fn all_but(r: int, n: nat) -> Seq<int> {
    Seq::new((n - 1) as nat, |i: int| if i < r { i } else { i + 1 })
}

/// `Ok` when there is no error, else the error.
pub open spec fn deck_outcome(e: Option<DeckError>) -> Result<(), DeckError> {
    match e {
        Some(err) => Err(err),
        None => Ok(()),
    }
}

#[derive(Debug, Clone)]
pub struct Deck {
    status: DeckStatus,
    players: Vec<AccountId>,
    cards: Vec<CryptoHash>,
    pub revealed: Vec<Option<CryptoHash>>,
}

impl Deck {
    /// Current status of the deck.
    pub closed spec fn state(&self) -> DeckStatus {
        self.status
    }

    /// Accounts of the players, in the order in which they entered.
    pub closed spec fn roster(&self) -> Seq<Seq<char>> {
        self.players@.map_values(|a: AccountId| a@)
    }

    /// The cards as they stand now.
    pub closed spec fn deck_cards(&self) -> Seq<Seq<char>> {
        self.cards@.map_values(|c: CryptoHash| c@)
    }

    /// The revealed cards by position, with tokens compared by content.
    pub closed spec fn revealed_cards(&self) -> Seq<Option<Seq<char>>> {
        self.revealed@.map_values(|c: Option<CryptoHash>|
            match c {
                Some(t) => Some(t@),
                None => None,
            }
        )
    }

    pub open spec fn player_count(&self) -> nat {
        self.roster().len()
    }

    /// The deck's invariant: one revealed slot per card, no account twice,
    /// and a status that only names existing cards and players.
    pub closed spec fn wf(&self) -> bool {
        &&& self.cards@.len() == self.revealed@.len()
        &&& forall|i: int, j: int|
            0 <= i < j < self.players@.len() ==> self.players@[i]@ != self.players@[j]@
        &&& match self.status {
            DeckStatus::Revealing { card_id, receiver, turn, .. } => {
                &&& card_id < self.cards@.len()
                &&& (turn < self.players@.len() || self.players@.len() == 0)
                &&& match receiver {
                    Some(r) => r < self.players@.len(),
                    None => true,
                }
            },
            _ => true,
        }
    }

    /// Whether `account` is the player at position `id`.
    pub open spec fn is_player(&self, account: Seq<char>, id: int) -> bool {
        0 <= id < self.player_count() && self.roster()[id] == account
    }

    /// Whether `account` has entered.
    pub open spec fn has_player(&self, account: Seq<char>) -> bool {
        exists|i: int| self.is_player(account, i)
    }

    /// Whether `other` holds the same players, cards and revealed cards.
    pub open spec fn same_contents(&self, other: Deck) -> bool {
        &&& other.roster() == self.roster()
        &&& other.deck_cards() == self.deck_cards()
        &&& other.revealed_cards() == self.revealed_cards()
    }

    /// Why `account` cannot hand in a shuffle now, if it cannot.
    pub open spec fn shuffle_error(&self, account: Seq<char>) -> Option<DeckError> {
        if !(self.state() is Shuffling) {
            Some(DeckError::DeckNotInShufflingState)
        } else if !self.has_player(account) {
            Some(DeckError::PlayerNotInGame)
        } else if !self.is_player(account, self.state()->Shuffling_0 as int) {
            Some(DeckError::InvalidTurn)
        } else {
            None
        }
    }

    /// Whether `after` is this deck once the current shuffler has handed in
    /// `cards`.
    pub open spec fn shuffled(&self, after: Deck, cards: Seq<Seq<char>>) -> bool {
        &&& after.state() == shuffle_next(self.state()->Shuffling_0, self.player_count())
        &&& after.deck_cards() == cards
        &&& after.roster() == self.roster()
        &&& after.revealed_cards() == self.revealed_cards()
    }

    /// Why a reveal of `card_id` to `receiver` cannot start now, if it cannot.
    pub open spec fn reveal_error(&self, card_id: CardId, receiver: Option<PlayerId>) -> Option<
        DeckError,
    > {
        if self.state() != DeckStatus::Running {
            Some(DeckError::NotPossibleToStartReveal)
        } else if card_id >= self.deck_cards().len() {
            Some(DeckError::InvalidCardId)
        } else if receiver is Some && receiver->Some_0 >= self.player_count() {
            Some(DeckError::InvalidPlayerId)
        } else {
            None
        }
    }

    /// Whether `after` is this deck with a reveal of `card_id` to `receiver`
    /// started.
    pub open spec fn reveal_started(&self, after: Deck, card_id: CardId, receiver: Option<PlayerId>) -> bool {
        &&& after.state() is Revealing
        &&& after.state()->Revealing_card_id == card_id
        &&& after.state()->Revealing_receiver == receiver
        &&& after.state()->Revealing_turn == first_reveal_turn(receiver, self.player_count())
        &&& after.state()->Revealing_progress@ == self.deck_cards()[card_id as int]
        &&& self.same_contents(after)
    }

    /// Why `account` cannot hand in its part of the reveal now, if it cannot.
    pub open spec fn reveal_part_error(&self, account: Seq<char>) -> Option<DeckError> {
        if !(self.state() is Revealing) {
            Some(DeckError::NotRevealing)
        } else if !self.has_player(account) {
            Some(DeckError::PlayerNotInGame)
        } else if self.is_player(account, self.state()->Revealing_turn as int)
            && self.state()->Revealing_receiver != Some(self.state()->Revealing_turn) {
            None
        } else {
            Some(DeckError::PlayerCantReveal)
        }
    }

    /// Whether `after` is this deck once the player whose turn it is has
    /// handed in `card` with its layer removed.
    pub open spec fn part_revealed(&self, after: Deck, card: Seq<char>) -> bool {
        let card_id = self.state()->Revealing_card_id;
        let receiver = self.state()->Revealing_receiver;
        let next = reveal_step(self.state()->Revealing_turn as int, receiver);
        &&& after.roster() == self.roster()
        &&& after.deck_cards() == self.deck_cards()
        &&& if next < self.player_count() || receiver is Some {
            &&& after.state() is Revealing
            &&& after.state()->Revealing_card_id == card_id
            &&& after.state()->Revealing_receiver == receiver
            &&& after.state()->Revealing_turn == if next < self.player_count() {
                next as PlayerId
            } else {
                receiver->Some_0
            }
            &&& after.state()->Revealing_progress@ == card
            &&& after.revealed_cards() == self.revealed_cards()
        } else {
            &&& after.state() == DeckStatus::Running
            &&& after.revealed_cards() == self.revealed_cards().update(card_id as int, Some(card))
        }
    }

    /// Why `account` cannot end the reveal now, if it cannot.
    pub open spec fn finish_error(&self, account: Seq<char>) -> Option<DeckError> {
        if !(self.state() is Revealing) {
            Some(DeckError::NotRevealing)
        } else if !self.has_player(account) {
            Some(DeckError::PlayerNotInGame)
        } else if self.is_player(account, self.state()->Revealing_turn as int)
            && self.state()->Revealing_receiver == Some(self.state()->Revealing_turn) {
            None
        } else {
            Some(DeckError::PlayerCantReveal)
        }
    }

    /// Whether `after` is this deck with the reveal ended.
    pub open spec fn reveal_finished(&self, after: Deck) -> bool {
        &&& after.state() == DeckStatus::Running
        &&& self.same_contents(after)
    }

    /// A deck of `num_cards` fresh cards, numbered in decimal, and no player.
    pub fn new(num_cards: u64) -> (d: Deck)
        ensures
            d.wf(),
            d.state() == DeckStatus::Initiating,
            d.player_count() == 0,
            d.deck_cards().len() == num_cards,
            forall|i: int| 0 <= i < num_cards ==> d.deck_cards()[i] == decimal(i as nat),
            d.revealed_cards() == Seq::new(num_cards as nat, |i: int| None::<Seq<char>>),
    {
        let mut cards: Vec<CryptoHash> = Vec::new();
        let mut revealed: Vec<Option<CryptoHash>> = Vec::new();
        let mut i: u64 = 0;
        while i < num_cards
            invariant
                i <= num_cards,
                cards@.len() == i,
                revealed@.len() == i,
                forall|k: int| 0 <= k < i ==> cards@[k]@ == decimal(k as nat),
                forall|k: int| 0 <= k < i ==> revealed@[k] is None,
            decreases num_cards - i,
        {
            cards.push(card_label(i));
            revealed.push(None);
            i = i + 1;
        }
        let d = Deck { status: DeckStatus::Initiating, players: Vec::new(), cards, revealed };
        assert(d.revealed_cards() =~= Seq::new(num_cards as nat, |i: int| None::<Seq<char>>));
        d
    }

    pub fn get_players(&self) -> (r: Vec<AccountId>)
        ensures
            r@.map_values(|a: AccountId| a@) == self.roster(),
    {
        let mut r: Vec<AccountId> = Vec::new();
        let mut i: usize = 0;
        while i < self.players.len()
            invariant
                i <= self.players@.len(),
                r@.len() == i,
                forall|k: int| 0 <= k < i ==> r@[k]@ == self.players@[k]@,
            decreases self.players@.len() - i,
        {
            r.push(self.players[i].clone());
            i = i + 1;
        }
        assert(r@.map_values(|a: AccountId| a@) =~= self.roster());
        r
    }

    pub fn num_players(&self) -> (r: u64)
        ensures
            r == self.player_count(),
    {
        self.players.len() as u64
    }

    /// Position of `account` among the players.
    pub fn get_player_id(&self, account: &AccountId) -> (r: Result<PlayerId, DeckError>)
        requires
            self.wf(),
        ensures
            match r {
                Ok(id) => self.is_player(account@, id as int),
                Err(e) => e == DeckError::PlayerNotInGame && !self.has_player(account@),
            },
    {
        let mut i: usize = 0;
        while i < self.players.len()
            invariant
                i <= self.players@.len(),
                forall|k: int| 0 <= k < i ==> self.players@[k]@ != account@,
            decreases self.players@.len() - i,
        {
            if self.players[i] == *account {
                return Ok(i as PlayerId);
            }
            i = i + 1;
        }
        Err(DeckError::PlayerNotInGame)
    }

    /// `account` joins as the next player, while the deck is being set up.
    pub fn enter(&mut self, account: AccountId) -> (r: Result<(), DeckError>)
        requires
            old(self).wf(),
        ensures
            final(self).wf(),
            old(self).state() != DeckStatus::Initiating ==> r == Err::<(), DeckError>(
                DeckError::DeckAlreadyInitiated,
            ),
            old(self).state() == DeckStatus::Initiating && old(self).has_player(account@) ==> r
                == Err::<(), DeckError>(DeckError::PlayerAlreadyInGame),
            old(self).state() == DeckStatus::Initiating && !old(self).has_player(account@) ==> r
                is Ok,
            r is Ok ==> {
                &&& final(self).roster() == old(self).roster().push(account@)
                &&& final(self).state() == old(self).state()
                &&& final(self).deck_cards() == old(self).deck_cards()
                &&& final(self).revealed_cards() == old(self).revealed_cards()
            },
            r is Err ==> *final(self) == *old(self),
    {
        if matches!(self.status, DeckStatus::Initiating) {
            match self.get_player_id(&account) {
                Ok(_) => Err(DeckError::PlayerAlreadyInGame),
                Err(_) => {
                    let ghost acc = account@;
                    self.players.push(account);
                    assert(self.roster() =~= old(self).roster().push(acc));
                    assert forall|i: int, j: int|
                        0 <= i < j < self.players@.len() implies self.players@[i]@
                        != self.players@[j]@ by {
                        if j == self.players@.len() - 1 {
                            assert(!old(self).is_player(acc, i));
                            assert(old(self).roster()[i] == old(self).players@[i]@);
                        }
                    }
                    Ok(())
                },
            }
        } else {
            Err(DeckError::DeckAlreadyInitiated)
        }
    }

    /// Closes the entry of players and starts the shuffle with the first player.
    pub fn start(&mut self) -> (r: Result<(), DeckError>)
        requires
            old(self).wf(),
        ensures
            final(self).wf(),
            old(self).state() == DeckStatus::Initiating <==> r is Ok,
            r is Ok ==> final(self).state() == DeckStatus::Shuffling(0) && final(self).roster()
                == old(self).roster() && final(self).deck_cards() == old(self).deck_cards()
                && final(self).revealed_cards() == old(self).revealed_cards(),
            r is Err ==> r == Err::<(), DeckError>(DeckError::DeckAlreadyInitiated)
                && *final(self) == *old(self),
    {
        if !matches!(self.status, DeckStatus::Initiating) {
            Err(DeckError::DeckAlreadyInitiated)
        } else {
            self.status = DeckStatus::Shuffling(0);
            Ok(())
        }
    }

    pub fn get_status(&self) -> (r: DeckStatus)
        ensures
            same_status(r, self.state()),
    {
        match &self.status {
            DeckStatus::Initiating => DeckStatus::Initiating,
            DeckStatus::Shuffling(p) => DeckStatus::Shuffling(*p),
            DeckStatus::Running => DeckStatus::Running,
            DeckStatus::Revealing { card_id, receiver, turn, progress } => DeckStatus::Revealing {
                card_id: *card_id,
                receiver: *receiver,
                turn: *turn,
                progress: progress.clone(),
            },
            DeckStatus::Closed => DeckStatus::Closed,
        }
    }

    /// The player that must act on the deck now, if any.
    pub fn get_turn(&self) -> (r: Option<PlayerId>)
        ensures
            r == match self.state() {
                DeckStatus::Shuffling(p) => Some(p),
                DeckStatus::Revealing { turn, .. } => Some(turn),
                _ => None::<PlayerId>,
            },
    {
        match &self.status {
            DeckStatus::Closed | DeckStatus::Running | DeckStatus::Initiating => None,
            DeckStatus::Shuffling(player_id) => Some(*player_id),
            DeckStatus::Revealing { turn, .. } => Some(*turn),
        }
    }

    /// The card at `card_id` as revealed to the whole table.
    pub fn get_revealed_card(&self, card_id: CardId) -> (r: Result<CryptoHash, DeckError>)
        ensures
            card_id >= self.revealed_cards().len() ==> r == Err::<CryptoHash, DeckError>(
                DeckError::InvalidCardId,
            ),
            card_id < self.revealed_cards().len() ==> match self.revealed_cards()[card_id as int] {
                Some(t) => r is Ok && r->Ok_0@ == t,
                None => r == Err::<CryptoHash, DeckError>(DeckError::CardNotRevealed),
            },
    {
        if card_id >= self.revealed.len() as u64 {
            return Err(DeckError::InvalidCardId);
        }
        match &self.revealed[card_id as usize] {
            Some(t) => Ok(t.clone()),
            None => Err(DeckError::CardNotRevealed),
        }
    }

    /// A copy of this deck.
    pub(crate) fn duplicate(&self) -> (r: Deck)
        requires
            self.wf(),
        ensures
            r.wf(),
            same_status(r.state(), self.state()),
            self.same_contents(r),
    {
        let mut cards: Vec<CryptoHash> = Vec::new();
        let mut i: usize = 0;
        while i < self.cards.len()
            invariant
                i <= self.cards@.len(),
                cards@.len() == i,
                forall|k: int| 0 <= k < i ==> cards@[k]@ == self.cards@[k]@,
            decreases self.cards@.len() - i,
        {
            cards.push(self.cards[i].clone());
            i = i + 1;
        }
        let r = Deck {
            status: self.get_status(),
            players: self.get_players(),
            cards,
            revealed: self.get_revealed_cards(),
        };
        assert(r.deck_cards() =~= self.deck_cards());
        assert(r.roster() == self.roster());
        assert(r.players@.len() == r.roster().len() == self.roster().len() == self.players@.len());
        assert forall|a: int, b: int|
            0 <= a < b < r.players@.len() implies r.players@[a]@ != r.players@[b]@ by {
            assert(r.roster()[a] == r.players@[a]@);
            assert(r.roster()[b] == r.players@[b]@);
            assert(self.roster()[a] == self.players@[a]@);
            assert(self.roster()[b] == self.players@[b]@);
        }
        assert(r.revealed@.len() == r.revealed_cards().len());
        r
    }

    /// The revealed cards by position.
    pub fn get_revealed_cards(&self) -> (r: Vec<Option<CryptoHash>>)
        ensures
            r@.map_values(
                |c: Option<CryptoHash>|
                    match c {
                        Some(t) => Some(t@),
                        None => None,
                    },
            ) == self.revealed_cards(),
    {
        let mut r: Vec<Option<CryptoHash>> = Vec::new();
        let mut i: usize = 0;
        while i < self.revealed.len()
            invariant
                i <= self.revealed@.len(),
                r@.len() == i,
                forall|k: int|
                    0 <= k < i ==> match (#[trigger] r@[k], self.revealed@[k]) {
                        (Some(a), Some(b)) => a@ == b@,
                        (None, None) => true,
                        _ => false,
                    },
            decreases self.revealed@.len() - i,
        {
            let c = match &self.revealed[i] {
                Some(t) => Some(t.clone()),
                None => None,
            };
            r.push(c);
            i = i + 1;
        }
        assert(r@.map_values(
            |c: Option<CryptoHash>|
                match c {
                    Some(t) => Some(t@),
                    None => None,
                },
        ) =~= self.revealed_cards());
        r
    }

    /// The cards as the last shuffler left them, while the shuffle goes on.
    pub fn get_partial_shuffle(&self) -> (r: Result<Vec<CryptoHash>, DeckError>)
        ensures
            self.state() is Shuffling ==> r is Ok && r->Ok_0@.map_values(|c: CryptoHash| c@)
                == self.deck_cards(),
            !(self.state() is Shuffling) ==> r == Err::<Vec<CryptoHash>, DeckError>(
                DeckError::DeckNotInShufflingState,
            ),
    {
        if let DeckStatus::Shuffling(_) = self.status {
            let mut r: Vec<CryptoHash> = Vec::new();
            let mut i: usize = 0;
            while i < self.cards.len()
                invariant
                    i <= self.cards@.len(),
                    r@.len() == i,
                    forall|k: int| 0 <= k < i ==> r@[k]@ == self.cards@[k]@,
                decreases self.cards@.len() - i,
            {
                r.push(self.cards[i].clone());
                i = i + 1;
            }
            assert(r@.map_values(|c: CryptoHash| c@) =~= self.deck_cards());
            Ok(r)
        } else {
            Err(DeckError::DeckNotInShufflingState)
        }
    }

    pub fn close(&mut self)
        requires
            old(self).wf(),
        ensures
            final(self).wf(),
            final(self).state() == DeckStatus::Closed,
            final(self).roster() == old(self).roster(),
            final(self).deck_cards() == old(self).deck_cards(),
            final(self).revealed_cards() == old(self).revealed_cards(),
    {
        self.status = DeckStatus::Closed;
    }

    /// The current shuffler hands in the deck with its own layer of
    /// encryption; the turn passes to the next player, and the deck runs once
    /// the last one has shuffled.
    pub fn submit_shuffled(&mut self, account: &AccountId, new_cards: Vec<CryptoHash>) -> (r:
        Result<(), DeckError>)
        requires
            old(self).wf(),
            new_cards@.len() == old(self).deck_cards().len(),
        ensures
            final(self).wf(),
            r == deck_outcome(old(self).shuffle_error(account@)),
            r is Ok ==> old(self).shuffled(*final(self), new_cards@.map_values(|c: CryptoHash| c@)),
            r is Err ==> *final(self) == *old(self),
    {
        if let DeckStatus::Shuffling(current_player_id) = self.status {
            let player_id = match self.get_player_id(account) {
                Ok(id) => id,
                Err(e) => return Err(e),
            };
            let n: usize = self.players.len();
            assert(player_id < n);
            if player_id != current_player_id {
                proof {
                    if old(self).is_player(account@, current_player_id as int) {
                        assert(old(self).roster()[player_id as int] == old(self).players@[player_id as int]@);
                        assert(old(self).roster()[current_player_id as int] == old(self).players@[current_player_id as int]@);
                    }
                }
                Err(DeckError::InvalidTurn)
            } else {
                self.cards = new_cards;
                if current_player_id + 1 < self.num_players() {
                    self.status = DeckStatus::Shuffling(current_player_id + 1);
                } else {
                    self.status = DeckStatus::Running;
                }
                Ok(())
            }
        } else {
            Err(DeckError::DeckNotInShufflingState)
        }
    }

    /// Starts revealing the card at `card_id` to `receiver`, or to the whole
    /// table when `receiver` is `None`.
    pub fn reveal_card(&mut self, card_id: CardId, receiver: Option<PlayerId>) -> (r: Result<
        (),
        DeckError,
    >)
        requires
            old(self).wf(),
        ensures
            final(self).wf(),
            r == deck_outcome(old(self).reveal_error(card_id, receiver)),
            r is Ok ==> old(self).reveal_started(*final(self), card_id, receiver),
            r is Err ==> *final(self) == *old(self),
    {
        if matches!(self.status, DeckStatus::Running) {
            if card_id >= self.cards.len() as u64 {
                return Err(DeckError::InvalidCardId);
            }
            let progress = self.cards[card_id as usize].clone();
            if let Some(receiver_player_id) = receiver {
                let num_players = self.num_players();
                if receiver_player_id >= num_players {
                    return Err(DeckError::InvalidPlayerId);
                }
                let turn = if num_players == 1 {
                    0
                } else if receiver_player_id == 0 {
                    1
                } else {
                    0
                };
                self.status = DeckStatus::Revealing { card_id, receiver, turn, progress };
            } else {
                self.status = DeckStatus::Revealing { card_id, receiver: None, turn: 0, progress };
            }
            Ok(())
        } else {
            Err(DeckError::NotPossibleToStartReveal)
        }
    }

    /// The player whose turn it is removes its layer from the card being
    /// revealed. The receiver of a private reveal never does: once every
    /// other player has, the turn is its own, to fetch the card. A public
    /// reveal ends when the last player has removed its layer.
    pub fn submit_reveal_part(&mut self, account: &AccountId, card: CryptoHash) -> (r: Result<
        (),
        DeckError,
    >)
        requires
            old(self).wf(),
        ensures
            final(self).wf(),
            r == deck_outcome(old(self).reveal_part_error(account@)),
            r is Ok ==> old(self).part_revealed(*final(self), card@),
            r is Err ==> *final(self) == *old(self),
    {
        if let DeckStatus::Revealing { card_id, receiver, turn, .. } = self.status {
            let player_id = match self.get_player_id(account) {
                Ok(id) => id,
                Err(e) => return Err(e),
            };
            let n: usize = self.players.len();
            assert(player_id < n);
            let is_receiver = match receiver {
                Some(rc) => player_id == rc,
                None => false,
            };
            if player_id != turn || is_receiver {
                proof {
                    if old(self).is_player(account@, turn as int) {
                        assert(old(self).roster()[player_id as int] == old(self).players@[player_id as int]@);
                        assert(old(self).roster()[turn as int] == old(self).players@[turn as int]@);
                    }
                }
                return Err(DeckError::PlayerCantReveal);
            }
            let mut next_turn = turn + 1;
            if let Some(rc) = receiver {
                if rc == next_turn {
                    next_turn = next_turn + 1;
                }
            }
            let ghost card_view = card@;
            if next_turn == self.num_players() {
                match receiver {
                    Some(rc) => {
                        self.status = DeckStatus::Revealing { card_id, receiver, turn: rc, progress: card };
                    },
                    None => {
                        let len: usize = self.revealed.len();
                        assert(card_id < len);
                        let idx = card_id as usize;
                        self.revealed.set(idx, Some(card));
                        self.status = DeckStatus::Running;
                        assert(self.revealed@[idx as int] is Some && self.revealed@[idx as int]->Some_0@ == card_view);
                        assert(self.revealed_cards() =~= old(self).revealed_cards().update(
                            card_id as int,
                            Some(card_view),
                        ));
                    },
                }
            } else {
                self.status = DeckStatus::Revealing { card_id, receiver, turn: next_turn, progress: card };
            }
            Ok(())
        } else {
            Err(DeckError::NotRevealing)
        }
    }

    /// The receiver of a private reveal, once it has fetched the card, ends
    /// the reveal.
    pub fn finish_reveal(&mut self, account: &AccountId) -> (r: Result<(), DeckError>)
        requires
            old(self).wf(),
        ensures
            final(self).wf(),
            r == deck_outcome(old(self).finish_error(account@)),
            r is Ok ==> old(self).reveal_finished(*final(self)),
            r is Err ==> *final(self) == *old(self),
    {
        if let DeckStatus::Revealing { receiver, turn, .. } = self.status {
            let player_id = match self.get_player_id(account) {
                Ok(id) => id,
                Err(e) => return Err(e),
            };
            if let Some(rc) = receiver {
                if rc == player_id && turn == player_id {
                    self.status = DeckStatus::Running;
                    return Ok(());
                }
            }
            proof {
                if old(self).is_player(account@, turn as int) {
                    assert(old(self).roster()[player_id as int] == old(self).players@[player_id as int]@);
                    assert(old(self).roster()[turn as int] == old(self).players@[turn as int]@);
                }
            }
            Err(DeckError::PlayerCantReveal)
        } else {
            Err(DeckError::NotRevealing)
        }
    }
}

/// Status of a deck of `n` players after `k` shuffles, each handed in by the
/// player whose turn it was, from the start of the shuffle.
pub open spec fn status_after_shuffles(k: nat, n: nat) -> DeckStatus
    decreases k,
{
    if k == 0 {
        DeckStatus::Shuffling(0)
    } else {
        match status_after_shuffles((k - 1) as nat, n) {
            DeckStatus::Shuffling(s) => shuffle_next(s, n),
            other => other,
        }
    }
}

/// Once the shuffle has started, each of the `n` players shuffles in turn,
/// by increasing position, and the deck runs after the last of them.
pub proof fn lemma_shuffle_reaches_running(n: nat)
    requires
        n >= 2,
        n <= u64::MAX,
    ensures
        forall|k: nat| k < n ==> status_after_shuffles(k, n) == DeckStatus::Shuffling(k as PlayerId),
        status_after_shuffles(n, n) == DeckStatus::Running,
{
    assert forall|k: nat| k < n implies status_after_shuffles(k, n) == DeckStatus::Shuffling(
        k as PlayerId,
    ) by {
        lemma_shuffle_prefix(k, n);
    }
    lemma_shuffle_prefix((n - 1) as nat, n);
}

proof fn lemma_shuffle_prefix(k: nat, n: nat)
    requires
        k < n,
        n <= u64::MAX,
    ensures
        status_after_shuffles(k, n) == DeckStatus::Shuffling(k as PlayerId),
    decreases k,
{
    if k > 0 {
        lemma_shuffle_prefix((k - 1) as nat, n);
    }
}

/// Position of player `t` in the list of every player but `r`.
spec fn rank_without(t: int, r: int) -> int {
    if t < r {
        t
    } else {
        t - 1
    }
}

proof fn lemma_private_turns_from(t: int, rc: PlayerId, n: nat)
    requires
        rc < n,
        0 <= t <= n,
        t != rc,
    ensures
        reveal_turns(t, Some(rc), n) == all_but(rc as int, n).subrange(rank_without(t, rc as int), n - 1),
    decreases n - t,
{
    let r = rc as int;
    if t == n {
        assert(all_but(r, n).subrange(rank_without(t, r), n - 1) =~= Seq::<int>::empty());
    } else {
        let next = reveal_step(t, Some(rc));
        assert(next <= n);
        assert(rank_without(next, r) == rank_without(t, r) + 1);
        lemma_private_turns_from(next, rc, n);
        assert(all_but(r, n)[rank_without(t, r)] == t);
        assert(all_but(r, n).subrange(rank_without(t, r), n - 1) =~= seq![t] + all_but(
            r,
            n,
        ).subrange(rank_without(next, r), n - 1));
    }
}

/// A card revealed to player `r` passes through every other player, each
/// once and by increasing position, and then comes to `r`; with a single
/// player it comes to `r` at once.
pub proof fn lemma_private_reveal_turns(r: PlayerId, n: nat)
    requires
        r < n,
    ensures
        n == 1 ==> first_reveal_turn(Some(r), n) == r,
        n >= 2 ==> reveal_turns(first_reveal_turn(Some(r), n) as int, Some(r), n) == all_but(
            r as int,
            n,
        ),
        n >= 2 ==> first_reveal_turn(Some(r), n) != r,
{
    if n >= 2 {
        let t = first_reveal_turn(Some(r), n) as int;
        lemma_private_turns_from(t, r, n);
        assert(rank_without(t, r as int) == 0);
        assert(all_but(r as int, n).subrange(0, n - 1) =~= all_but(r as int, n));
    }
}

proof fn lemma_public_turns_from(t: int, n: nat)
    requires
        0 <= t <= n,
    ensures
        reveal_turns(t, None, n) == Seq::new(n, |i: int| i).subrange(t, n as int),
    decreases n - t,
{
    if t == n {
        assert(Seq::new(n, |i: int| i).subrange(t, n as int) =~= Seq::<int>::empty());
    } else {
        lemma_public_turns_from(t + 1, n);
        assert(Seq::new(n, |i: int| i).subrange(t, n as int) =~= seq![t] + Seq::new(
            n,
            |i: int| i,
        ).subrange(t + 1, n as int));
    }
}

/// A card revealed to the whole table passes through every player, by
/// increasing position from the first.
pub proof fn lemma_public_reveal_turns(n: nat)
    ensures
        first_reveal_turn(None, n) == 0,
        reveal_turns(0, None, n) == Seq::new(n, |i: int| i),
{
    lemma_public_turns_from(0, n);
    assert(Seq::new(n, |i: int| i).subrange(0, n as int) =~= Seq::new(n, |i: int| i));
}

/// The receiver of a private reveal can never hand in a part of it: while it
/// is being revealed to `r`, the player at `r` is refused.
pub proof fn lemma_receiver_never_submits(d: Deck, account: Seq<char>, r: PlayerId)
    requires
        d.wf(),
        d.state() is Revealing,
        d.state()->Revealing_receiver == Some(r),
        d.is_player(account, r as int),
    ensures
        d.reveal_part_error(account) == Some(DeckError::PlayerCantReveal),
{
    let turn = d.state()->Revealing_turn as int;
    if d.is_player(account, turn) {
        assert(d.roster()[turn] == d.players@[turn]@);
        assert(d.roster()[r as int] == d.players@[r as int]@);
    }
}

} // verus!
