//! The betting engine: blinds, dealing of the hole cards, betting rounds,
//! the shared cards of each stage and the showdown.
use vstd::prelude::*;

use crate::types::{CardId, CryptoHash, PlayerId};

verus! {

/// Largest number of players at one table.
pub const MAX_PLAYERS: u64 = 0xffff_ffff;

#[derive(Debug, Clone, Copy, PartialEq, Eq, Structural)]
pub enum Stage {
    Flop,
    Turn,
    River,
    Showdown,
}

/// The stage that follows `s`.
pub open spec fn stage_after(s: Stage) -> Stage {
    match s {
        Stage::Flop => Stage::Turn,
        Stage::Turn => Stage::River,
        _ => Stage::Showdown,
    }
}

/// Number of shared cards that stage `s` shows.
pub open spec fn stage_cards(s: Stage) -> u8 {
    match s {
        Stage::Flop => 3,
        Stage::Turn => 1,
        Stage::River => 1,
        Stage::Showdown => 0,
    }
}

/// Number of shared cards shown before stage `s`.
pub open spec fn cards_before(s: Stage) -> int {
    match s {
        Stage::Flop => 0,
        Stage::Turn => 3,
        Stage::River => 4,
        Stage::Showdown => 5,
    }
}

impl Stage {
    fn next(&self) -> (r: Stage)
        requires
            *self != Stage::Showdown,
        ensures
            r == stage_after(*self),
    {
        match self {
            Stage::Flop => Stage::Turn,
            Stage::Turn => Stage::River,
            _ => Stage::Showdown,
        }
    }

    fn cards_to_reveal(&self) -> (r: u8)
        requires
            *self != Stage::Showdown,
        ensures
            r == stage_cards(*self),
            r >= 1,
    {
        match self {
            Stage::Flop => 3,
            Stage::Turn => 1,
            _ => 1,
        }
    }
}

#[derive(Debug, Clone, Copy, PartialEq, Eq, Structural)]
pub enum PokerStatus {
    Idle,
    Dealing { player_id: PlayerId, card_id: CardId, first_card: bool },
    Betting {
        /// Player whose action is awaited.
        target: PlayerId,
        /// Last player to raise; the big blind while nobody has raised.
        until: PlayerId,
        /// Whether some player has raised in this round.
        raised: bool,
        /// Stake that must be called or raised.
        max_stake: u64,
        /// Stage played once this round is over.
        next_stage: Stage,
    },
    Revealing { stage: Stage, card_id: CardId, missing_to_reveal: u8 },
    Showdown { player_id: PlayerId, card_id: CardId, first_card: bool },
    WaitingRevealedCards,
}

#[derive(Debug, Clone, Copy, PartialEq, Eq, Structural)]
pub enum PokerError {
    InvalidPlayerId,
    TooLowStake,
    NotEnoughStake,
    NotBettingRound,
    NotBettingTurn,
}

#[derive(Debug, Clone, Copy, PartialEq, Eq, Structural)]
pub enum BetAction {
    Fold,
    Stake(u64),
}

#[derive(Debug, Clone, Copy, PartialEq, Eq, Structural)]
pub struct ActionResponse {
    pub player_id: PlayerId,
    pub action: BetAction,
}

/// The seat after `p` at a table of `n` players.
pub open spec fn next_seat(p: int, n: nat) -> int {
    if p + 1 == n {
        0
    } else {
        p + 1
    }
}

/// The seat before `p` at a table of `n` players.
pub open spec fn prev_seat(p: int, n: nat) -> int {
    if p == 0 {
        n - 1
    } else {
        p - 1
    }
}

/// The first player at or after `p` who has not folded, looking at no more
/// than `steps` seats; `p` moved on by `steps` seats when all of them folded.
pub open spec fn on_game_from(folded: Seq<bool>, p: int, steps: nat) -> int
    decreases steps,
{
    if steps == 0 {
        p
    } else if !folded[p] {
        p
    } else {
        on_game_from(folded, next_seat(p, folded.len()), (steps - 1) as nat)
    }
}

/// The first player at or after `p`, going round the table, who has not
/// folded; `p` itself when every player has folded.
pub open spec fn first_on_game(folded: Seq<bool>, p: int) -> int {
    on_game_from(folded, p, folded.len())
}

/// Number of players that have folded.
pub open spec fn count_folded(folded: Seq<bool>) -> nat
    decreases folded.len(),
{
    if folded.len() == 0 {
        0
    } else {
        count_folded(folded.drop_last()) + if folded.last() {
            1nat
        } else {
            0nat
        }
    }
}

/// The big blind of the next round, which doubles after each round and
/// stays at the largest value once doubling would overflow.
pub open spec fn doubled_blind(b: u64) -> u64 {
    if b <= u64::MAX / 2 {
        (2 * b) as u64
    } else {
        u64::MAX
    }
}

/// The smaller of two stakes.
pub open spec fn min_stake(a: u64, b: u64) -> u64 {
    if a < b {
        a
    } else {
        b
    }
}

/// Status in which a stage starts, with `cursor` the first card not dealt.
pub open spec fn stage_start(stage: Stage, folded: Seq<bool>, cursor: u64) -> PokerStatus {
    if stage == Stage::Showdown {
        let p = first_on_game(folded, 0);
        PokerStatus::Showdown { player_id: p as PlayerId, card_id: (2 * p) as CardId, first_card: true }
    } else {
        PokerStatus::Revealing {
            stage,
            card_id: cursor,
            missing_to_reveal: (stage_cards(stage) - 1) as u8,
        }
    }
}

/// Status after the awaited player of a betting round calls the stake, with
/// `cursor` the first card not dealt.
pub open spec fn after_call(st: PokerStatus, folded: Seq<bool>, cursor: u64) -> PokerStatus {
    match st {
        PokerStatus::Betting { target, until, raised, max_stake, next_stage } => {
            if target == until {
                stage_start(next_stage, folded, cursor)
            } else {
                let nxt = first_on_game(folded, next_seat(target as int, folded.len()));
                if nxt != until || !raised {
                    PokerStatus::Betting {
                        target: nxt as PlayerId,
                        until,
                        raised,
                        max_stake,
                        next_stage,
                    }
                } else {
                    stage_start(next_stage, folded, cursor)
                }
            }
        },
        _ => st,
    }
}

/// Status and card cursor after one step of a round that is dealing,
/// revealing a stage or showing down, at a table of `n` players with big
/// blind `bb` of `blind` tokens.
pub open spec fn advance(
    st: PokerStatus,
    folded: Seq<bool>,
    bb: PlayerId,
    blind: u64,
    cursor: u64,
) -> (PokerStatus, CardId) {
    let n = folded.len();
    match st {
        PokerStatus::Dealing { player_id, first_card, .. } => {
            if first_card {
                (
                    PokerStatus::Dealing { player_id, card_id: cursor, first_card: false },
                    (cursor + 1) as CardId,
                )
            } else if player_id + 1 == n {
                (
                    PokerStatus::Betting {
                        target: next_seat(bb as int, n) as PlayerId,
                        until: bb,
                        raised: false,
                        max_stake: blind,
                        next_stage: Stage::Flop,
                    },
                    cursor,
                )
            } else {
                (
                    PokerStatus::Dealing {
                        player_id: (player_id + 1) as PlayerId,
                        card_id: cursor,
                        first_card: true,
                    },
                    (cursor + 1) as CardId,
                )
            }
        },
        PokerStatus::Revealing { stage, missing_to_reveal, .. } => {
            if missing_to_reveal == 0 {
                (
                    PokerStatus::Betting {
                        target: first_on_game(folded, next_seat(bb as int, n)) as PlayerId,
                        until: bb,
                        raised: false,
                        max_stake: blind,
                        next_stage: stage_after(stage),
                    },
                    cursor,
                )
            } else {
                (
                    PokerStatus::Revealing {
                        stage,
                        card_id: cursor,
                        missing_to_reveal: (missing_to_reveal - 1) as u8,
                    },
                    (cursor + 1) as CardId,
                )
            }
        },
        PokerStatus::Showdown { player_id, first_card, .. } => {
            if first_card {
                (
                    PokerStatus::Showdown {
                        player_id,
                        card_id: (2 * player_id + 1) as CardId,
                        first_card: false,
                    },
                    cursor,
                )
            } else {
                let nxt = first_on_game(folded, next_seat(player_id as int, n));
                if nxt <= player_id {
                    (PokerStatus::WaitingRevealedCards, cursor)
                } else {
                    (
                        PokerStatus::Showdown {
                            player_id: nxt as PlayerId,
                            card_id: (2 * nxt) as CardId,
                            first_card: true,
                        },
                        cursor,
                    )
                }
            }
        },
        _ => (st, cursor),
    }
}

/// Whether `after` is `before` with the round over: back to idle, the blind
/// doubled and passed on to the next player, the card cursor back at the top
/// of the deck, and the chips as they were.
pub open spec fn round_closed(before: Poker, after: Poker) -> bool {
    &&& after.state() == PokerStatus::Idle
    &&& after.blind() == doubled_blind(before.blind())
    &&& after.blind_holder() == next_seat(before.blind_holder() as int, before.player_count())
    &&& after.card_cursor() == 0
    &&& after.bank() == before.bank()
    &&& after.stakes() == before.stakes()
}

/// `Ok` when there is no error, else the error.
pub open spec fn poker_outcome(e: Option<PokerError>) -> Result<(), PokerError> {
    match e {
        Some(err) => Err(err),
        None => Ok(()),
    }
}

/// The table's chips, folds, status, blind and card cursor.
#[derive(Debug, Clone)]
pub struct Poker {
    /// Tokens that each player has available.
    tokens: Vec<u64>,
    /// Tokens that each player has staked.
    staked: Vec<u64>,
    /// Players that have folded in this round.
    folded: Vec<bool>,
    /// Current status.
    pub status: PokerStatus,
    /// Tokens of the big blind; doubles after each round.
    blind_token: u64,
    /// Player that is the big blind in the next round.
    big_blind: PlayerId,
    /// First card of the deck not handed out yet.
    first_unrevealed_card: CardId,
}

impl Poker {
    /// Current status.
    pub closed spec fn state(&self) -> PokerStatus {
        self.status
    }

    /// Tokens that each player has available.
    pub closed spec fn bank(&self) -> Seq<u64> {
        self.tokens@
    }

    /// Tokens that each player has staked.
    pub closed spec fn stakes(&self) -> Seq<u64> {
        self.staked@
    }

    /// Which players have folded.
    pub closed spec fn folds(&self) -> Seq<bool> {
        self.folded@
    }

    /// Tokens of the big blind.
    pub closed spec fn blind(&self) -> u64 {
        self.blind_token
    }

    /// Player that is the big blind in the next round.
    pub closed spec fn blind_holder(&self) -> PlayerId {
        self.big_blind
    }

    /// First card of the deck not handed out yet.
    pub closed spec fn card_cursor(&self) -> CardId {
        self.first_unrevealed_card
    }

    pub open spec fn player_count(&self) -> nat {
        self.bank().len()
    }

    /// The table's invariant: one entry per player in each list, a big blind
    /// at the table, and a status that names players at the table and never
    /// runs the card cursor past the cards that the round can use.
    pub closed spec fn wf(&self) -> bool {
        let n = self.tokens@.len();
        let cursor = self.first_unrevealed_card as int;
        &&& self.staked@.len() == n
        &&& self.folded@.len() == n
        &&& n <= MAX_PLAYERS
        &&& (self.big_blind < n || (n == 0 && self.big_blind == 0))
        &&& match self.status {
            PokerStatus::Idle => cursor == 0,
            PokerStatus::Dealing { player_id, card_id, first_card } => {
                &&& player_id < n
                &&& cursor == 2 * player_id + if first_card {
                    1int
                } else {
                    2int
                }
                &&& card_id + 1 == cursor
            },
            PokerStatus::Betting { target, until, next_stage, .. } => {
                &&& target < n
                &&& until < n
                &&& cursor <= 2 * n + cards_before(next_stage)
            },
            PokerStatus::Revealing { stage, missing_to_reveal, .. } => {
                &&& stage != Stage::Showdown
                &&& n >= 1
                &&& cursor + missing_to_reveal <= 2 * n + cards_before(stage_after(stage))
            },
            PokerStatus::Showdown { player_id, .. } => player_id < n,
            PokerStatus::WaitingRevealedCards => n >= 1,
        }
    }

    /// The stakes once the blinds are posted: the big blind's raised to the
    /// blind and the small blind's, the seat before, to half of it, each
    /// capped at the player's tokens.
    pub open spec fn blinds_posted(&self) -> Seq<u64> {
        let bb = self.blind_holder() as int;
        let sb = prev_seat(bb, self.player_count());
        let b = self.blind();
        let s1 = self.stakes().update(bb, min_stake(b, self.bank()[bb]));
        s1.update(sb, min_stake((b / 2) as u64, self.bank()[sb]))
    }

    /// Why the round cannot advance now, if it cannot: no player to post the
    /// big blind, or a blind below what its player has staked already.
    pub open spec fn next_error(&self) -> Option<PokerError> {
        let n = self.player_count();
        let bb = self.blind_holder() as int;
        let b = self.blind();
        let s1 = self.stakes().update(bb, min_stake(b, self.bank()[bb]));
        if self.state() != PokerStatus::Idle {
            None
        } else if n == 0 {
            Some(PokerError::InvalidPlayerId)
        } else if b < self.stakes()[bb] || b / 2 < s1[prev_seat(bb, n)] {
            Some(PokerError::TooLowStake)
        } else {
            None
        }
    }

    /// Whether `after` is this table advanced by one step of the round.
    pub open spec fn advanced(&self, after: Poker) -> bool {
        &&& after.bank() == self.bank()
        &&& after.folds() == self.folds()
        &&& after.blind() == self.blind()
        &&& after.blind_holder() == self.blind_holder()
        &&& if self.state() == PokerStatus::Idle {
            &&& after.stakes() == self.blinds_posted()
            &&& after.state() == (PokerStatus::Dealing { player_id: 0, card_id: 0, first_card: true })
            &&& after.card_cursor() == 1
        } else {
            &&& after.stakes() == self.stakes()
            &&& (after.state(), after.card_cursor()) == advance(
                self.state(),
                self.folds(),
                self.blind_holder(),
                self.blind(),
                self.card_cursor(),
            )
        }
    }

    /// Whether `after` and `r` are this table and the result once
    /// `action.player_id` has acted with `action.action`.
    pub open spec fn bet_applied(
        &self,
        action: ActionResponse,
        after: Poker,
        r: Result<(), PokerError>,
    ) -> bool {
        &&& r is Err ==> after == *self
        &&& after.bank() == self.bank()
        &&& !(self.state() is Betting) ==> r == Err::<(), PokerError>(
            PokerError::NotBettingRound,
        )
        &&& self.state() is Betting && action.player_id != self.state()->Betting_target
            ==> r == Err::<(), PokerError>(PokerError::NotBettingTurn)
        &&& self.state() is Betting && action.player_id == self.state()->Betting_target
            ==> {
            let p = action.player_id as int;
            let until = self.state()->Betting_until;
            let raised = self.state()->Betting_raised;
            let max_stake = self.state()->Betting_max_stake;
            let next_stage = self.state()->Betting_next_stage;
            match action.action {
                BetAction::Fold => {
                    let f = self.folds().update(p, true);
                    &&& r is Ok
                    &&& after.folds() == f
                    &&& if count_folded(f) + 1 == self.player_count() {
                        round_closed(*self, after)
                    } else {
                        &&& after.state() == (PokerStatus::Betting {
                            target: first_on_game(f, p) as PlayerId,
                            until,
                            raised,
                            max_stake,
                            next_stage,
                        })
                        &&& after.stakes() == self.stakes()
                        &&& after.blind() == self.blind()
                        &&& after.blind_holder() == self.blind_holder()
                        &&& after.card_cursor() == self.card_cursor()
                    }
                },
                BetAction::Stake(stake) => {
                    if stake < max_stake {
                        r == Err::<(), PokerError>(PokerError::TooLowStake)
                    } else if stake > self.bank()[p] {
                        r == Err::<(), PokerError>(PokerError::NotEnoughStake)
                    } else {
                        &&& r is Ok
                        &&& after.stakes() == self.stakes().update(p, stake)
                        &&& after.folds() == self.folds()
                        &&& after.blind() == self.blind()
                        &&& after.blind_holder() == self.blind_holder()
                        &&& if stake > max_stake {
                            &&& after.state() == (PokerStatus::Betting {
                                target: first_on_game(
                                    self.folds(),
                                    next_seat(p, self.player_count()),
                                ) as PlayerId,
                                until: action.player_id,
                                raised: true,
                                max_stake: stake,
                                next_stage,
                            })
                            &&& after.card_cursor() == self.card_cursor()
                        } else {
                            &&& after.state() == after_call(
                                self.state(),
                                self.folds(),
                                self.card_cursor(),
                            )
                            &&& after.card_cursor() == if after.state() is Revealing {
                                (self.card_cursor() + 1) as CardId
                            } else {
                                self.card_cursor()
                            }
                        }
                    }
                },
            }
        }
    }

    /// A copy of this table.
    pub(crate) fn duplicate(&self) -> (r: Poker)
        requires
            self.wf(),
        ensures
            r.wf(),
            r.state() == self.state(),
            r.bank() == self.bank(),
            r.stakes() == self.stakes(),
            r.folds() == self.folds(),
            r.blind() == self.blind(),
            r.blind_holder() == self.blind_holder(),
            r.card_cursor() == self.card_cursor(),
    {
        Poker {
            tokens: self.tokens.clone(),
            staked: self.staked.clone(),
            folded: self.folded.clone(),
            status: self.status,
            blind_token: self.blind_token,
            big_blind: self.big_blind,
            first_unrevealed_card: self.first_unrevealed_card,
        }
    }

    /// A table with no player, a big blind of six tokens held by the first
    /// player, and no round in progress.
    pub fn new() -> (r: Poker)
        ensures
            r.wf(),
            r.state() == PokerStatus::Idle,
            r.player_count() == 0,
            r.stakes().len() == 0,
            r.folds().len() == 0,
            r.blind() == 6,
            r.blind_holder() == 0,
            r.card_cursor() == 0,
    {
        Poker {
            tokens: Vec::new(),
            staked: Vec::new(),
            folded: Vec::new(),
            status: PokerStatus::Idle,
            blind_token: 6,
            big_blind: 0,
            first_unrevealed_card: 0,
        }
    }

    /// A player joins with `tokens` available, nothing staked and not folded.
    pub fn new_player(&mut self, tokens: u64)
        requires
            old(self).wf(),
            old(self).player_count() < MAX_PLAYERS,
        ensures
            final(self).wf(),
            final(self).bank() == old(self).bank().push(tokens),
            final(self).stakes() == old(self).stakes().push(0),
            final(self).folds() == old(self).folds().push(false),
            final(self).state() == old(self).state(),
            final(self).blind() == old(self).blind(),
            final(self).blind_holder() == old(self).blind_holder(),
            final(self).card_cursor() == old(self).card_cursor(),
    {
        self.tokens.push(tokens);
        self.staked.push(0);
        self.folded.push(false);
    }

    fn num_players(&self) -> (r: u64)
        ensures
            r == self.player_count(),
    {
        self.tokens.len() as u64
    }

    fn prev_player(&self, player_id: PlayerId) -> (r: PlayerId)
        requires
            self.wf(),
            player_id < self.player_count(),
        ensures
            r == prev_seat(player_id as int, self.player_count()),
            r < self.player_count(),
    {
        if player_id == 0 {
            self.num_players() - 1
        } else {
            player_id - 1
        }
    }

    fn next_player(&self, player_id: PlayerId) -> (r: PlayerId)
        requires
            self.wf(),
            player_id < self.player_count(),
        ensures
            r == next_seat(player_id as int, self.player_count()),
            r < self.player_count(),
    {
        if player_id + 1 == self.num_players() {
            0
        } else {
            player_id + 1
        }
    }

    /// The first player at or after `player_id` who has not folded.
    fn next_on_game(&self, player_id: PlayerId) -> (r: PlayerId)
        requires
            self.wf(),
            player_id < self.player_count(),
        ensures
            r == first_on_game(self.folds(), player_id as int),
            r < self.player_count(),
    {
        let n = self.num_players();
        let mut p = player_id;
        let mut i: u64 = 0;
        while i < n
            invariant
                self.wf(),
                n == self.player_count(),
                i <= n,
                p < n,
                first_on_game(self.folds(), player_id as int) == on_game_from(
                    self.folds(),
                    p as int,
                    (n - i) as nat,
                ),
            decreases n - i,
        {
            if !self.folded[p as usize] {
                return p;
            }
            p = self.next_player(p);
            i = i + 1;
        }
        p
    }

    /// Number of players who have folded.
    fn total_folded(&self) -> (r: u64)
        requires
            self.wf(),
        ensures
            r == count_folded(self.folds()),
            r <= self.player_count(),
    {
        let mut count: u64 = 0;
        let mut i: usize = 0;
        while i < self.folded.len()
            invariant
                self.wf(),
                i <= self.folded@.len(),
                count <= i,
                count == count_folded(self.folded@.subrange(0, i as int)),
            decreases self.folded@.len() - i,
        {
            assert(self.folded@.subrange(0, i + 1).drop_last() =~= self.folded@.subrange(0, i as int));
            if self.folded[i] {
                count = count + 1;
            }
            i = i + 1;
        }
        assert(self.folded@.subrange(0, i as int) =~= self.folded@);
        count
    }

    /// Raises the stake of `player_id` to `stake`, or to all its tokens when
    /// it has fewer. A stake below what the player has staked already is
    /// refused.
    fn try_stake(&mut self, player_id: PlayerId, stake: u64) -> (r: Result<(), PokerError>)
        requires
            old(self).wf(),
        ensures
            final(self).wf(),
            player_id >= old(self).player_count() ==> r == Err::<(), PokerError>(
                PokerError::InvalidPlayerId,
            ),
            player_id < old(self).player_count() && stake < old(self).stakes()[player_id as int]
                ==> r == Err::<(), PokerError>(PokerError::TooLowStake),
            player_id < old(self).player_count() && stake >= old(self).stakes()[player_id as int]
                ==> r is Ok && *final(self) == (Poker {
                staked: final(self).staked,
                ..*old(self)
            }) && final(self).stakes() == old(self).stakes().update(
                player_id as int,
                min_stake(stake, old(self).bank()[player_id as int]),
            ),
            r is Err ==> *final(self) == *old(self),
    {
        if player_id >= self.tokens.len() as u64 {
            return Err(PokerError::InvalidPlayerId);
        }
        let total = self.tokens[player_id as usize];
        if stake < self.staked[player_id as usize] {
            return Err(PokerError::TooLowStake);
        }
        let value = if stake < total {
            stake
        } else {
            total
        };
        self.staked.set(player_id as usize, value);
        Ok(())
    }

    /// Tokens that each player has available.
    pub fn get_tokens(&self) -> (r: Vec<u64>)
        ensures
            r@ == self.bank(),
    {
        self.tokens.clone()
    }

    /// Tokens that each player has staked.
    pub fn get_staked(&self) -> (r: Vec<u64>)
        ensures
            r@ == self.stakes(),
    {
        self.staked.clone()
    }

    /// Which players have folded.
    pub fn get_folded(&self) -> (r: Vec<bool>)
        ensures
            r@ == self.folds(),
    {
        self.folded.clone()
    }

    /// Tokens of the big blind.
    pub fn get_blind_token(&self) -> (r: u64)
        ensures
            r == self.blind(),
    {
        self.blind_token
    }

    /// Player that is the big blind in the next round.
    pub fn get_big_blind(&self) -> (r: PlayerId)
        ensures
            r == self.blind_holder(),
    {
        self.big_blind
    }

    pub fn get_status(&self) -> (r: PokerStatus)
        ensures
            r == self.state(),
    {
        self.status
    }

    /// Takes the top card of the deck.
    fn get_card(&mut self) -> (r: CardId)
        requires
            old(self).first_unrevealed_card < u64::MAX,
        ensures
            r == old(self).first_unrevealed_card,
            *final(self) == (Poker { first_unrevealed_card: (r + 1) as CardId, ..*old(self) }),
    {
        self.first_unrevealed_card = self.first_unrevealed_card + 1;
        self.first_unrevealed_card - 1
    }

    fn card_id_from_player(&self, player_id: PlayerId, first_card: bool) -> (r: CardId)
        requires
            player_id <= MAX_PLAYERS,
        ensures
            r == 2 * player_id + if first_card {
                0int
            } else {
                1int
            },
    {
        2 * player_id + if first_card {
            0
        } else {
            1
        }
    }

    /// Advances a round that is not waiting for a player: posts the blinds
    /// and starts dealing, deals the next hole card, shows the next shared
    /// card or the next hole card at the showdown, or opens the next round
    /// of betting.
    pub fn next(&mut self) -> (r: Result<(), PokerError>)
        requires
            old(self).wf(),
            !(old(self).state() is Betting),
            old(self).state() != PokerStatus::WaitingRevealedCards,
        ensures
            final(self).wf(),
            r == poker_outcome(old(self).next_error()),
            r is Ok ==> old(self).advanced(*final(self)),
            r is Err ==> *final(self) == *old(self),
    {
        match self.status {
            PokerStatus::Idle => {
                let n = self.num_players();
                if n == 0 {
                    return Err(PokerError::InvalidPlayerId);
                }
                let bb = self.big_blind;
                let sb = self.prev_player(bb);
                let blind = self.blind_token;
                let bank_bb = self.tokens[bb as usize];
                if blind < self.staked[bb as usize] {
                    return Err(PokerError::TooLowStake);
                }
                let bb_stake = if blind < bank_bb {
                    blind
                } else {
                    bank_bb
                };
                let sb_current = if sb == bb {
                    bb_stake
                } else {
                    self.staked[sb as usize]
                };
                if blind / 2 < sb_current {
                    return Err(PokerError::TooLowStake);
                }
                let r1 = self.try_stake(bb, blind);
                assert(r1 is Ok);
                let r2 = self.try_stake(sb, blind / 2);
                assert(r2 is Ok);
                let card_id = self.get_card();
                self.status = PokerStatus::Dealing { player_id: 0, card_id, first_card: true };
                Ok(())
            },
            PokerStatus::Dealing { player_id, first_card, .. } => {
                if first_card {
                    let card_id = self.get_card();
                    self.status = PokerStatus::Dealing { player_id, card_id, first_card: false };
                } else if player_id + 1 == self.num_players() {
                    let target = self.next_player(self.big_blind);
                    self.status = PokerStatus::Betting {
                        target,
                        until: self.big_blind,
                        raised: false,
                        max_stake: self.blind_token,
                        next_stage: Stage::Flop,
                    };
                } else {
                    let card_id = self.get_card();
                    self.status = PokerStatus::Dealing {
                        player_id: player_id + 1,
                        card_id,
                        first_card: true,
                    };
                }
                Ok(())
            },
            PokerStatus::Revealing { stage, missing_to_reveal, .. } => {
                if missing_to_reveal == 0 {
                    let after_blind = self.next_player(self.big_blind);
                    let target = self.next_on_game(after_blind);
                    self.status = PokerStatus::Betting {
                        target,
                        until: self.big_blind,
                        raised: false,
                        max_stake: self.blind_token,
                        next_stage: stage.next(),
                    };
                } else {
                    let card_id = self.get_card();
                    self.status = PokerStatus::Revealing {
                        stage,
                        card_id,
                        missing_to_reveal: missing_to_reveal - 1,
                    };
                }
                Ok(())
            },
            PokerStatus::Showdown { player_id, first_card, .. } => {
                if first_card {
                    let card_id = self.card_id_from_player(player_id, false);
                    self.status = PokerStatus::Showdown { player_id, card_id, first_card: false };
                } else {
                    let after = self.next_player(player_id);
                    let next_player = self.next_on_game(after);
                    if next_player <= player_id {
                        self.status = PokerStatus::WaitingRevealedCards;
                    } else {
                        let card_id = self.card_id_from_player(next_player, true);
                        self.status = PokerStatus::Showdown {
                            player_id: next_player,
                            card_id,
                            first_card: true,
                        };
                    }
                }
                Ok(())
            },
            _ => Ok(()),
        }
    }

    /// Closes the round: back to idle, the blind doubled and passed on to
    /// the next player, and the deck taken from the top again.
    fn finish(&mut self, _winners: Vec<PlayerId>)
        requires
            old(self).wf(),
            old(self).player_count() >= 1,
        ensures
            final(self).wf(),
            round_closed(*old(self), *final(self)),
            final(self).folds() == old(self).folds(),
    {
        self.big_blind = self.next_player(self.big_blind);
        self.status = PokerStatus::Idle;
        self.blind_token = if self.blind_token <= u64::MAX / 2 {
            self.blind_token * 2
        } else {
            u64::MAX
        };
        self.first_unrevealed_card = 0;
    }

    /// Starts `stage` once a round of betting is over.
    fn start_stage(&mut self, stage: Stage)
        requires
            old(self).wf(),
            old(self).state() is Betting,
            old(self).state()->Betting_next_stage == stage,
        ensures
            final(self).wf(),
            final(self).state() == stage_start(stage, old(self).folds(), old(self).card_cursor()),
            final(self).card_cursor() == if stage == Stage::Showdown {
                old(self).card_cursor()
            } else {
                (old(self).card_cursor() + 1) as CardId
            },
            final(self).bank() == old(self).bank(),
            final(self).stakes() == old(self).stakes(),
            final(self).folds() == old(self).folds(),
            final(self).blind() == old(self).blind(),
            final(self).blind_holder() == old(self).blind_holder(),
    {
        if stage == Stage::Showdown {
            let player_id = self.next_on_game(0);
            let card_id = self.card_id_from_player(player_id, true);
            self.status = PokerStatus::Showdown { player_id, card_id, first_card: true };
        } else {
            let missing_to_reveal = stage.cards_to_reveal() - 1;
            let card_id = self.get_card();
            self.status = PokerStatus::Revealing { stage, card_id, missing_to_reveal };
        }
    }

    /// Takes the cards shown at the showdown and closes the round. Who wins
    /// is left to the caller's hand evaluation; the stakes stay where they
    /// are.
    pub fn submit_revealed_cards(&mut self, _cards: Vec<Option<CryptoHash>>)
        requires
            old(self).wf(),
            old(self).state() == PokerStatus::WaitingRevealedCards,
        ensures
            final(self).wf(),
            round_closed(*old(self), *final(self)),
            final(self).folds() == old(self).folds(),
    {
        self.finish(Vec::new());
    }

    /// The player whose action is awaited folds, calls or raises.
    ///
    /// A fold that leaves a single player in the round ends it at once. A
    /// raise makes the raiser the player up to whom the others must act. A
    /// call by that player, or one that passes the turn back to the last
    /// raiser, ends the round of betting and starts the next stage.
    pub fn submit_bet_action(&mut self, action: ActionResponse) -> (r: Result<(), PokerError>)
        requires
            old(self).wf(),
        ensures
            final(self).wf(),
            old(self).bet_applied(action, *final(self), r),
    {
        match self.status {
            PokerStatus::Betting { target, until, raised, max_stake, next_stage } => {
                if target != action.player_id {
                    return Err(PokerError::NotBettingTurn);
                }
                let p = action.player_id;
                match action.action {
                    BetAction::Fold => {
                        self.folded.set(p as usize, true);
                        let next_player = self.next_on_game(p);
                        let folded_count = self.total_folded();
                        if folded_count + 1 == self.num_players() {
                            // Every other player has folded: the one left wins.
                            let mut winners: Vec<PlayerId> = Vec::new();
                            winners.push(next_player);
                            self.finish(winners);
                        } else {
                            self.status = PokerStatus::Betting {
                                target: next_player,
                                until,
                                raised,
                                max_stake,
                                next_stage,
                            };
                        }
                        Ok(())
                    },
                    BetAction::Stake(stake) => {
                        if stake < max_stake {
                            Err(PokerError::TooLowStake)
                        } else if stake > self.tokens[p as usize] {
                            Err(PokerError::NotEnoughStake)
                        } else {
                            self.staked.set(p as usize, stake);
                            let after = self.next_player(p);
                            let next_player = self.next_on_game(after);
                            if stake > max_stake {
                                self.status = PokerStatus::Betting {
                                    target: next_player,
                                    until: p,
                                    raised: true,
                                    max_stake: stake,
                                    next_stage,
                                };
                            } else if p == until {
                                // Everyone has matched the stake of the player
                                // who set it.
                                self.start_stage(next_stage);
                            } else if next_player != until || !raised {
                                self.status = PokerStatus::Betting {
                                    target: next_player,
                                    until,
                                    raised,
                                    max_stake,
                                    next_stage,
                                };
                            } else {
                                // The turn comes back to the last raiser.
                                self.start_stage(next_stage);
                            }
                            Ok(())
                        }
                    },
                }
            },
            _ => Err(PokerError::NotBettingRound),
        }
    }
}

/// Status after `k` calls in a row, each by the player whose action is
/// awaited, with `cursor` the first card not dealt.
pub open spec fn after_calls(k: nat, st: PokerStatus, folded: Seq<bool>, cursor: u64) -> PokerStatus
    decreases k,
{
    if k == 0 {
        st
    } else {
        after_call(after_calls((k - 1) as nat, st, folded, cursor), folded, cursor)
    }
}

/// The seat `k` places after `bb`, going round a table of `n` players.
spec fn seat_after(bb: int, k: int, n: nat) -> int {
    if bb + k < n {
        bb + k
    } else {
        bb + k - n
    }
}

proof fn lemma_nobody_folded(folded: Seq<bool>, p: int)
    requires
        0 <= p < folded.len(),
        forall|i: int| 0 <= i < folded.len() ==> !folded[i],
    ensures
        first_on_game(folded, p) == p,
{
}

proof fn lemma_calls_go_round(k: nat, n: nat, bb: PlayerId, blind: u64, cursor: u64)
    requires
        2 <= n <= MAX_PLAYERS,
        bb < n,
        k < n,
    ensures
        after_calls(
            k,
            PokerStatus::Betting {
                target: next_seat(bb as int, n) as PlayerId,
                until: bb,
                raised: false,
                max_stake: blind,
                next_stage: Stage::Flop,
            },
            Seq::new(n, |i: int| false),
            cursor,
        ) == (PokerStatus::Betting {
            target: seat_after(bb as int, k + 1int, n) as PlayerId,
            until: bb,
            raised: false,
            max_stake: blind,
            next_stage: Stage::Flop,
        }),
    decreases k,
{
    if k > 0 {
        lemma_calls_go_round((k - 1) as nat, n, bb, blind, cursor);
        let t = seat_after(bb as int, k as int, n);
        lemma_nobody_folded(Seq::new(n, |i: int| false), next_seat(t, n));
    }
}

/// When every player in turn calls the big blind, with nobody folding or
/// raising, the first round of betting ends when the big blind has called,
/// and the flop starts with two of its three cards still to show.
pub proof fn lemma_all_calls_open_flop(n: nat, bb: PlayerId, blind: u64, cursor: u64)
    requires
        2 <= n <= MAX_PLAYERS,
        bb < n,
    ensures
        after_calls(
            n,
            PokerStatus::Betting {
                target: next_seat(bb as int, n) as PlayerId,
                until: bb,
                raised: false,
                max_stake: blind,
                next_stage: Stage::Flop,
            },
            Seq::new(n, |i: int| false),
            cursor,
        ) == (PokerStatus::Revealing { stage: Stage::Flop, card_id: cursor, missing_to_reveal: 2 }),
{
    lemma_calls_go_round((n - 1) as nat, n, bb, blind, cursor);
}

/// `2` to the power `k`.
pub open spec fn two_to(k: nat) -> nat
    decreases k,
{
    if k == 0 {
        1
    } else {
        2 * two_to((k - 1) as nat)
    }
}

/// The big blind after `k` rounds that started with a blind of `b`.
pub open spec fn blind_after_rounds(k: nat, b: u64) -> u64
    decreases k,
{
    if k == 0 {
        b
    } else {
        doubled_blind(blind_after_rounds((k - 1) as nat, b))
    }
}

/// The player that holds the big blind after `k` rounds, at a table of `n`
/// players where `bb` held it first.
pub open spec fn holder_after_rounds(k: nat, bb: int, n: nat) -> int
    decreases k,
{
    if k == 0 {
        bb
    } else {
        next_seat(holder_after_rounds((k - 1) as nat, bb, n), n)
    }
}

/// From the opening blind of six tokens, the blind after `k` rounds is six
/// times two to the `k`, as long as that fits in a `u64`.
pub proof fn lemma_blind_doubles(k: nat)
    requires
        6 * two_to(k) <= u64::MAX,
    ensures
        blind_after_rounds(k, 6) == 6 * two_to(k),
    decreases k,
{
    if k > 0 {
        lemma_blind_doubles((k - 1) as nat);
    }
}

/// The big blind moves on by one seat each round: after `k` rounds it is
/// `k` seats after the first holder, going round the table.
pub proof fn lemma_blind_rotates(k: nat, bb: int, n: nat)
    requires
        0 <= bb < n,
    ensures
        holder_after_rounds(k, bb, n) == (bb + k) % (n as int),
    decreases k,
{
    if k == 0 {
        vstd::arithmetic::div_mod::lemma_small_mod(bb as nat, n);
    } else {
        lemma_blind_rotates((k - 1) as nat, bb, n);
        let x = bb + k - 1;
        let m = x % (n as int);
        vstd::arithmetic::div_mod::lemma_mod_pos_bound(x, n as int);
        vstd::arithmetic::div_mod::lemma_add_mod_noop(x, 1, n as int);
        if n >= 2 {
            vstd::arithmetic::div_mod::lemma_small_mod(1, n);
        }
        if m + 1 < n {
            vstd::arithmetic::div_mod::lemma_small_mod((m + 1) as nat, n);
        } else {
            vstd::arithmetic::div_mod::lemma_mod_self_0(n as int);
        }
    }
}

} // verus!
