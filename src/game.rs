//! A game: one deck and one betting engine, kept in step. The cards that the
//! betting engine needs are asked of the deck, and each step that the deck
//! completes moves the betting engine on.
use vstd::prelude::*;

use crate::deck::{same_status, Deck, DeckError, DeckStatus};
use crate::poker::{
    round_closed, ActionResponse, BetAction, Poker, PokerError, PokerStatus, MAX_PLAYERS,
};
use crate::types::{AccountId, CardId, CryptoHash, PlayerId, RoomId};

verus! {

/// Number of cards in the deck of a game.
pub const DECK_SIZE: u64 = 52;

#[derive(Debug, Clone, Copy, PartialEq, Eq, Structural)]
pub enum GameError {
    RoomIdNotFound,
    OngoingRound,
    DeckError(DeckError),
    PokerError(PokerError),
}

impl From<DeckError> for GameError {
    fn from(e: DeckError) -> (r: GameError) {
        GameError::DeckError(e)
    }
}

impl vstd::std_specs::convert::FromSpecImpl<DeckError> for GameError {
    open spec fn obeys_from_spec() -> bool {
        true
    }

    open spec fn from_spec(e: DeckError) -> GameError {
        GameError::DeckError(e)
    }
}

impl From<PokerError> for GameError {
    fn from(e: PokerError) -> (r: GameError) {
        GameError::PokerError(e)
    }
}

impl vstd::std_specs::convert::FromSpecImpl<PokerError> for GameError {
    open spec fn obeys_from_spec() -> bool {
        true
    }

    open spec fn from_spec(e: PokerError) -> GameError {
        GameError::PokerError(e)
    }
}

#[derive(Debug, Clone, Copy, PartialEq, Eq, Structural)]
pub enum GameStatus {
    /// Not started yet: players may enter.
    Initiating,
    /// The round is over; a new one may start.
    Idle,
    /// Waiting for a player to act on the deck.
    DeckAction,
    /// Waiting for a player to bet.
    PokerAction,
    /// The game is closed.
    Closed,
}

impl GameStatus {
    pub fn is_active(&self) -> (r: bool)
        ensures
            r == (*self != GameStatus::Closed),
    {
        !matches!(self, GameStatus::Closed)
    }

    pub fn is_initiating(&self) -> (r: bool)
        ensures
            r == (*self == GameStatus::Initiating),
    {
        matches!(self, GameStatus::Initiating)
    }
}

/// What the game reports while the betting engine is in status `p` and its
/// card, if it needs one, has been asked of the deck.
pub open spec fn status_for(p: PokerStatus) -> GameStatus {
    match p {
        PokerStatus::Idle => GameStatus::Idle,
        PokerStatus::WaitingRevealedCards => GameStatus::Idle,
        PokerStatus::Betting { .. } => GameStatus::PokerAction,
        _ => GameStatus::DeckAction,
    }
}

/// The card that the betting engine needs in status `p`, with the player
/// to whom it goes, or `None` for the whole table.
pub open spec fn card_request(p: PokerStatus) -> Option<(CardId, Option<PlayerId>)> {
    match p {
        PokerStatus::Dealing { player_id, card_id, .. } => Some((card_id, Some(player_id))),
        PokerStatus::Revealing { card_id, .. } => Some((card_id, None)),
        PokerStatus::Showdown { card_id, .. } => Some((card_id, None)),
        _ => None,
    }
}

pub struct Game {
    pub name: String,
    pub id: RoomId,
    pub status: GameStatus,
    deck: Deck,
    poker: Poker,
}

/// Whether `after` and `r` are the game and the result once the betting
/// engine `q` has had its card asked of deck `d`, or the cards shown at the
/// showdown handed to it.
pub open spec fn acted_on(d: Deck, q: Poker, after: Game, r: Result<(), GameError>) -> bool {
    match card_request(q.state()) {
        Some((card_id, receiver)) => {
            &&& after.betting() == q
            &&& after.phase() == GameStatus::DeckAction
            &&& match d.reveal_error(card_id, receiver) {
                Some(e) => r == Err::<(), GameError>(GameError::DeckError(e)) && after.table() == d,
                None => r is Ok && d.reveal_started(after.table(), card_id, receiver),
            }
        },
        None => {
            &&& r is Ok
            &&& after.table() == d
            &&& after.phase() == status_for(q.state())
            &&& if q.state() == PokerStatus::WaitingRevealedCards {
                round_closed(q, after.betting()) && after.betting().folds() == q.folds()
            } else {
                after.betting() == q
            }
        },
    }
}

/// Whether `after` and `r` are the game and the result once deck `d` has
/// completed a step with betting engine `q`: while the deck is still busy
/// nothing else happens; once it runs, the betting engine advances and its
/// next card is asked of the deck.
pub open spec fn deck_stepped(d: Deck, q: Poker, after: Game, r: Result<(), GameError>) -> bool {
    if d.state() != DeckStatus::Running {
        &&& r is Ok
        &&& after.table() == d
        &&& after.betting() == q
        &&& after.phase() == GameStatus::DeckAction
    } else {
        match q.next_error() {
            Some(e) => {
                &&& r == Err::<(), GameError>(GameError::PokerError(e))
                &&& after.table() == d
                &&& after.betting() == q
                &&& after.phase() == GameStatus::DeckAction
            },
            None => exists|q1: Poker| #[trigger] q.advanced(q1) && acted_on(d, q1, after, r),
        }
    }
}

/// Whether `after` and `r` are the game and the result once `account` has
/// entered in `before`.
pub open spec fn entered(
    before: Game,
    after: Game,
    account: Seq<char>,
    r: Result<(), GameError>,
) -> bool {
    &&& after.label() == before.label()
    &&& before.table().state() != DeckStatus::Initiating ==> r == Err::<(), GameError>(
        GameError::DeckError(DeckError::DeckAlreadyInitiated),
    )
    &&& before.table().state() == DeckStatus::Initiating && before.table().has_player(
        account,
    ) ==> r == Err::<(), GameError>(GameError::DeckError(DeckError::PlayerAlreadyInGame))
    &&& before.table().state() == DeckStatus::Initiating && !before.table().has_player(
        account,
    ) ==> r is Ok
    &&& r is Err ==> after == before
    &&& r is Ok ==> {
        &&& after.table().roster() == before.table().roster().push(account)
        &&& after.table().state() == before.table().state()
        &&& after.table().deck_cards() == before.table().deck_cards()
        &&& after.table().revealed_cards() == before.table().revealed_cards()
        &&& after.betting().bank() == before.betting().bank().push(1000)
        &&& after.betting().stakes() == before.betting().stakes().push(0)
        &&& after.betting().folds() == before.betting().folds().push(false)
        &&& after.betting().state() == before.betting().state()
        &&& after.phase() == before.phase()
    }
}

/// Whether `after` and `r` are the game and the result once a round has been
/// started in `before`.
pub open spec fn started(before: Game, after: Game, r: Result<(), GameError>) -> bool {
    &&& after.label() == before.label()
    &&& before.phase() != GameStatus::Initiating && before.phase() != GameStatus::Idle
        ==> r == Err::<(), GameError>(GameError::OngoingRound)
    &&& (before.phase() == GameStatus::Initiating || before.phase() == GameStatus::Idle)
        && before.table().state() != DeckStatus::Initiating ==> r == Err::<(), GameError>(
        GameError::DeckError(DeckError::DeckAlreadyInitiated),
    )
    &&& (before.phase() == GameStatus::Initiating || before.phase() == GameStatus::Idle)
        && before.table().state() == DeckStatus::Initiating ==> r is Ok
    &&& r is Err ==> after == before
    &&& r is Ok ==> {
        &&& after.table().state() == DeckStatus::Shuffling(0)
        &&& before.table().same_contents(after.table())
        &&& after.betting() == before.betting()
        &&& after.phase() == GameStatus::DeckAction
    }
}

/// Whether `after` and `r` are the game and the result once the game has been
/// closed in `before`.
pub open spec fn closed_down(before: Game, after: Game, r: Result<(), GameError>) -> bool {
    &&& after.label() == before.label()
    &&& (before.phase() == GameStatus::Initiating || before.phase() == GameStatus::Idle)
        <==> r is Ok
    &&& r is Err ==> r == Err::<(), GameError>(GameError::OngoingRound) && after == before
    &&& r is Ok ==> {
        &&& after.table().state() == DeckStatus::Closed
        &&& before.table().same_contents(after.table())
        &&& after.betting() == before.betting()
        &&& after.phase() == GameStatus::Closed
    }
}

/// Whether `after` and `r` are the game and the result once `account` has
/// handed in the shuffled `cards` in `before`.
pub open spec fn shuffle_submitted(
    before: Game,
    after: Game,
    account: Seq<char>,
    cards: Seq<Seq<char>>,
    r: Result<(), GameError>,
) -> bool {
    &&& after.label() == before.label()
    &&& match before.table().shuffle_error(account) {
        Some(e) => r == Err::<(), GameError>(GameError::DeckError(e)) && after == before,
        None => exists|d: Deck|
            before.table().shuffled(d, cards)
                && #[trigger] deck_stepped(d, before.betting(), after, r),
    }
}

/// Whether `after` and `r` are the game and the result once `account` has ended
/// its reveal in `before`.
pub open spec fn reveal_ended(
    before: Game,
    after: Game,
    account: Seq<char>,
    r: Result<(), GameError>,
) -> bool {
    &&& after.label() == before.label()
    &&& match before.table().finish_error(account) {
        Some(e) => r == Err::<(), GameError>(GameError::DeckError(e)) && after == before,
        None => exists|d: Deck|
            #[trigger] before.table().reveal_finished(d) && deck_stepped(
                d,
                before.betting(),
                after,
                r,
            ),
    }
}

/// Whether `after` and `r` are the game and the result once `account` has
/// handed in `card` with its layer removed in `before`.
pub open spec fn part_submitted(
    before: Game,
    after: Game,
    account: Seq<char>,
    card: Seq<char>,
    r: Result<(), GameError>,
) -> bool {
    &&& after.label() == before.label()
    &&& match before.table().reveal_part_error(account) {
        Some(e) => r == Err::<(), GameError>(GameError::DeckError(e)) && after == before,
        None => exists|d: Deck|
            #[trigger] before.table().part_revealed(d, card) && deck_stepped(
                d,
                before.betting(),
                after,
                r,
            ),
    }
}

/// Whether `after` and `r` are the game and the result once `account` has
/// placed `bet` in `before`.
pub open spec fn bet_submitted(
    before: Game,
    after: Game,
    account: Seq<char>,
    bet: BetAction,
    r: Result<(), GameError>,
) -> bool {
    &&& after.label() == before.label()
    &&& !before.table().has_player(account) ==> r == Err::<(), GameError>(
        GameError::DeckError(DeckError::PlayerNotInGame),
    ) && after == before
    &&& before.table().has_player(account) ==> exists|
        p: PlayerId,
        q: Poker,
        rp: Result<(), PokerError>,
    |
        #![trigger before.betting().bet_applied(ActionResponse { player_id: p, action: bet }, q, rp)]
        before.table().is_player(account, p as int) && before.betting().bet_applied(
            ActionResponse { player_id: p, action: bet },
            q,
            rp,
        ) && match rp {
            Err(e) => r == Err::<(), GameError>(GameError::PokerError(e)) && after == before,
            Ok(()) => acted_on(before.table(), q, after, r),
        }
}

/// Whether `g` is a new room named `name` under key `id`: a deck of
/// fifty-two cards and a table with nobody at them, players free to enter.
pub open spec fn fresh_game(g: Game, name: Seq<char>, id: RoomId) -> bool {
    &&& g.label() == (name, id)
    &&& g.phase() == GameStatus::Initiating
    &&& g.table().state() == DeckStatus::Initiating
    &&& g.table().player_count() == 0
    &&& g.table().deck_cards().len() == DECK_SIZE
    &&& g.betting().state() == PokerStatus::Idle
    &&& g.betting().player_count() == 0
    &&& g.betting().blind() == 6
    &&& g.betting().blind_holder() == 0
}

impl Game {
    /// The deck.
    pub closed spec fn table(&self) -> Deck {
        self.deck
    }

    /// The betting engine.
    pub closed spec fn betting(&self) -> Poker {
        self.poker
    }

    /// What the game reports.
    pub closed spec fn phase(&self) -> GameStatus {
        self.status
    }

    /// Name and key of the room.
    pub closed spec fn label(&self) -> (Seq<char>, RoomId) {
        (self.name@, self.id)
    }

    /// The game's invariant: deck and betting engine well formed, with the
    /// same players; the deck shuffles only between rounds, and reveals only
    /// a card that the betting engine asked for; and the game reports no
    /// round in progress only when there is none.
    pub closed spec fn wf(&self) -> bool {
        &&& self.deck.wf()
        &&& self.poker.wf()
        &&& self.poker.player_count() == self.deck.player_count()
        &&& self.deck.deck_cards().len() == DECK_SIZE
        &&& self.deck.state() is Shuffling ==> self.poker.state() == PokerStatus::Idle
        &&& self.deck.state() is Revealing ==> card_request(self.poker.state()) is Some
        &&& (self.deck.state() is Shuffling || self.deck.state() is Revealing) ==> self.status
            == GameStatus::DeckAction
        &&& (self.status == GameStatus::Initiating || self.status == GameStatus::Idle)
            ==> self.poker.state() == PokerStatus::Idle
    }

    /// A new room: a deck of fifty-two fresh cards, a table with nobody at
    /// it, and players free to enter.
    pub fn new(name: String, id: RoomId) -> (r: Game)
        ensures
            r.wf(),
            fresh_game(r, name@, id),
    {
        Game {
            name,
            id,
            status: GameStatus::Initiating,
            deck: Deck::new(DECK_SIZE),
            poker: Poker::new(),
        }
    }

    /// `account` enters the game with a thousand tokens, while the deck is
    /// being set up.
    pub fn enter(&mut self, account: AccountId) -> (r: Result<(), GameError>)
        requires
            old(self).wf(),
            old(self).table().player_count() < MAX_PLAYERS,
        ensures
            final(self).wf(),
            entered(*old(self), *final(self), account@, r),
    {
        match self.deck.enter(account) {
            Ok(()) => {},
            Err(e) => return Err(GameError::from(e)),
        }
        self.poker.new_player(1000);
        Ok(())
    }

    /// Starts a round: the deck is shuffled by every player in turn.
    pub fn start(&mut self) -> (r: Result<(), GameError>)
        requires
            old(self).wf(),
        ensures
            final(self).wf(),
            started(*old(self), *final(self), r),
    {
        match self.status {
            GameStatus::Initiating | GameStatus::Idle => {
                match self.deck.start() {
                    Ok(()) => {},
                    Err(e) => return Err(GameError::from(e)),
                }
                self.status = GameStatus::DeckAction;
                Ok(())
            },
            _ => Err(GameError::OngoingRound),
        }
    }

    /// Closes the game, between rounds.
    pub fn close(&mut self) -> (r: Result<(), GameError>)
        requires
            old(self).wf(),
        ensures
            final(self).wf(),
            closed_down(*old(self), *final(self), r),
    {
        match self.status {
            GameStatus::Initiating | GameStatus::Idle => {
                self.deck.close();
                self.status = GameStatus::Closed;
                Ok(())
            },
            _ => Err(GameError::OngoingRound),
        }
    }

    /// Asks the deck for the card that the betting engine needs, or hands it
    /// the cards shown at the showdown, and reports the new status.
    fn check_status(&mut self) -> (r: Result<(), GameError>)
        requires
            old(self).wf(),
            !(old(self).table().state() is Shuffling),
            !(old(self).table().state() is Revealing),
        ensures
            final(self).wf(),
            final(self).label() == old(self).label(),
            acted_on(old(self).table(), old(self).betting(), *final(self), r),
    {
        match self.poker.get_status() {
            PokerStatus::Idle => {
                self.status = GameStatus::Idle;
                Ok(())
            },
            PokerStatus::Dealing { player_id, card_id, .. } => {
                self.status = GameStatus::DeckAction;
                match self.deck.reveal_card(card_id, Some(player_id)) {
                    Ok(()) => Ok(()),
                    Err(e) => Err(GameError::DeckError(e)),
                }
            },
            PokerStatus::Betting { .. } => {
                self.status = GameStatus::PokerAction;
                Ok(())
            },
            PokerStatus::Revealing { card_id, .. } | PokerStatus::Showdown { card_id, .. } => {
                self.status = GameStatus::DeckAction;
                match self.deck.reveal_card(card_id, None) {
                    Ok(()) => Ok(()),
                    Err(e) => Err(GameError::DeckError(e)),
                }
            },
            PokerStatus::WaitingRevealedCards => {
                let revealed = self.deck.get_revealed_cards();
                self.poker.submit_revealed_cards(revealed);
                self.status = GameStatus::Idle;
                Ok(())
            },
        }
    }

    /// Once the deck has completed a step: while it is still busy the game
    /// waits on it; once it runs, the betting engine advances.
    fn check_next_status(&mut self) -> (r: Result<(), GameError>)
        requires
            old(self).wf(),
            old(self).phase() == GameStatus::DeckAction,
            old(self).table().state() == DeckStatus::Running ==> old(self).betting().state()
                == PokerStatus::Idle || card_request(old(self).betting().state()) is Some,
        ensures
            final(self).wf(),
            final(self).label() == old(self).label(),
            deck_stepped(old(self).table(), old(self).betting(), *final(self), r),
    {
        if !matches!(self.deck.get_status(), DeckStatus::Running) {
            self.status = GameStatus::DeckAction;
            return Ok(());
        }
        match self.poker.next() {
            Ok(()) => {},
            Err(e) => {
                self.status = GameStatus::DeckAction;
                return Err(GameError::PokerError(e));
            },
        }
        let ghost q1 = self.poker;
        let r = self.check_status();
        assert(old(self).betting().advanced(q1) && acted_on(old(self).table(), q1, *self, r));
        r
    }

    /// The cards as the last shuffler left them, while the shuffle goes on.
    pub fn get_partial_shuffle(&self) -> (r: Result<Vec<CryptoHash>, GameError>)
        ensures
            self.table().state() is Shuffling ==> r is Ok && r->Ok_0@.map_values(
                |c: CryptoHash| c@,
            ) == self.table().deck_cards(),
            !(self.table().state() is Shuffling) ==> r == Err::<Vec<CryptoHash>, GameError>(
                GameError::DeckError(DeckError::DeckNotInShufflingState),
            ),
    {
        match self.deck.get_partial_shuffle() {
            Ok(cards) => Ok(cards),
            Err(e) => Err(GameError::DeckError(e)),
        }
    }

    /// `account`, the current shuffler, hands in the deck with its own layer
    /// of encryption. After the last shuffle the round begins.
    pub fn submit_shuffled(&mut self, account: &AccountId, new_cards: Vec<CryptoHash>) -> (r:
        Result<(), GameError>)
        requires
            old(self).wf(),
            new_cards@.len() == DECK_SIZE,
        ensures
            final(self).wf(),
            shuffle_submitted(*old(self), *final(self), account@, new_cards@.map_values(|c: CryptoHash| c@), r),
    {
        let ghost cards = new_cards@.map_values(|c: CryptoHash| c@);
        match self.deck.submit_shuffled(account, new_cards) {
            Ok(()) => {},
            Err(e) => return Err(GameError::from(e)),
        }
        let ghost d = self.deck;
        let r = self.check_next_status();
        assert(old(self).table().shuffled(d, cards) && deck_stepped(d, old(self).betting(), *self, r));
        r
    }

    /// `account`, the receiver of a private reveal, ends it once it has
    /// fetched the card; the game then goes on.
    pub fn finish_reveal(&mut self, account: &AccountId) -> (r: Result<(), GameError>)
        requires
            old(self).wf(),
        ensures
            final(self).wf(),
            reveal_ended(*old(self), *final(self), account@, r),
    {
        match self.deck.finish_reveal(account) {
            Ok(()) => {},
            Err(e) => return Err(GameError::from(e)),
        }
        let ghost d = self.deck;
        let r = self.check_next_status();
        assert(old(self).table().reveal_finished(d) && deck_stepped(d, old(self).betting(), *self, r));
        r
    }

    /// `account`, whose turn it is, hands in the card being revealed with
    /// its layer removed; once the reveal is complete the game goes on.
    pub fn submit_reveal_part(&mut self, account: &AccountId, card: CryptoHash) -> (r: Result<
        (),
        GameError,
    >)
        requires
            old(self).wf(),
        ensures
            final(self).wf(),
            part_submitted(*old(self), *final(self), account@, card@, r),
    {
        let ghost card_view = card@;
        match self.deck.submit_reveal_part(account, card) {
            Ok(()) => {},
            Err(e) => return Err(GameError::from(e)),
        }
        let ghost d = self.deck;
        let r = self.check_next_status();
        assert(old(self).table().part_revealed(d, card_view) && deck_stepped(
            d,
            old(self).betting(),
            *self,
            r,
        ));
        r
    }

    /// `account`, whose action is awaited, folds, calls or raises; the game
    /// then asks the deck for the next card, if one is needed.
    pub fn submit_bet_action(&mut self, account: &AccountId, bet: BetAction) -> (r: Result<
        (),
        GameError,
    >)
        requires
            old(self).wf(),
        ensures
            final(self).wf(),
            bet_submitted(*old(self), *final(self), account@, bet, r),
    {
        let player_id = match self.deck.get_player_id(account) {
            Ok(id) => id,
            Err(e) => return Err(GameError::from(e)),
        };
        let action = ActionResponse { player_id, action: bet };
        let rp = self.poker.submit_bet_action(action);
        let ghost q = self.poker;
        match rp {
            Ok(()) => {},
            Err(e) => {
                assert(old(self).betting().bet_applied(action, q, rp));
                return Err(GameError::PokerError(e));
            },
        }
        let r = self.check_status();
        assert(old(self).betting().bet_applied(action, q, rp) && acted_on(
            old(self).table(),
            q,
            *self,
            r,
        ));
        r
    }

    /// A copy of the deck.
    pub fn deck_state(&self) -> (r: Deck)
        requires
            self.wf(),
        ensures
            r.wf(),
            same_status(r.state(), self.table().state()),
            self.table().same_contents(r),
    {
        self.deck.duplicate()
    }

    /// A copy of the betting engine.
    pub fn poker_state(&self) -> (r: Poker)
        requires
            self.wf(),
        ensures
            r.wf(),
            r.state() == self.betting().state(),
            r.bank() == self.betting().bank(),
            r.stakes() == self.betting().stakes(),
            r.folds() == self.betting().folds(),
            r.blind() == self.betting().blind(),
            r.blind_holder() == self.betting().blind_holder(),
            r.card_cursor() == self.betting().card_cursor(),
    {
        self.poker.duplicate()
    }

    pub fn state(&self) -> (r: GameStatus)
        ensures
            r == self.phase(),
    {
        self.status
    }

    /// Position of `account` among the players.
    pub fn player_id(&self, account: &AccountId) -> (r: Result<PlayerId, GameError>)
        requires
            self.wf(),
        ensures
            match r {
                Ok(id) => self.table().is_player(account@, id as int),
                Err(e) => e == GameError::DeckError(DeckError::PlayerNotInGame) && !self.table().has_player(account@),
            },
    {
        match self.deck.get_player_id(account) {
            Ok(id) => Ok(id),
            Err(e) => Err(GameError::DeckError(e)),
        }
    }

    /// Name, key and status of the room.
    pub(crate) fn summary(&self) -> (r: (String, RoomId, GameStatus))
        ensures
            r.0@ == self.label().0,
            r.1 == self.label().1,
            r.2 == self.phase(),
    {
        (self.name.clone(), self.id, self.status)
    }

    /// Number of players that have entered.
    pub fn num_players(&self) -> (r: u64)
        ensures
            r == self.table().player_count(),
    {
        self.deck.num_players()
    }
}

} // verus!
