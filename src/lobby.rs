//! The lobby: the rooms, each holding one game, under consecutive keys.
use vstd::prelude::*;

use crate::deck::DeckError;
use crate::game::{
    closed_down, entered, DECK_SIZE, fresh_game, part_submitted, reveal_ended, shuffle_submitted, started,
    bet_submitted, Game, GameError, GameStatus,
};
use crate::poker::{BetAction, MAX_PLAYERS};
use crate::types::{AccountId, CryptoHash, RoomId};

verus! {

/// Name, key and status of a room.
pub struct RoomInfo {
    pub name: String,
    pub id: RoomId,
    pub status: GameStatus,
}

/// Name, key and status of a room, by content.
pub type Summary = (Seq<char>, RoomId, GameStatus);

impl RoomInfo {
    pub open spec fn summary(&self) -> Summary {
        (self.name@, self.id, self.status)
    }

    /// Name, key and status of `game`.
    pub fn from_game(game: &Game) -> (r: RoomInfo)
        ensures
            r.summary() == summary_of(*game),
    {
        let (name, id, status) = game.summary();
        RoomInfo { name, id, status }
    }
}

/// Name, key and status of `g`.
pub open spec fn summary_of(g: Game) -> Summary {
    (g.label().0, g.label().1, g.phase())
}

/// The summaries in `s` whose status `keep` accepts, in the same order.
pub open spec fn select(s: Seq<Summary>, keep: spec_fn(GameStatus) -> bool) -> Seq<Summary>
    decreases s.len(),
{
    if s.len() == 0 {
        Seq::empty()
    } else {
        let rest = select(s.drop_last(), keep);
        if keep(s.last().2) {
            rest.push(s.last())
        } else {
            rest
        }
    }
}

/// Which statuses a listing keeps: the rooms that are not closed, or only
/// those that players may still enter.
pub open spec fn keep_for(active_only: bool) -> spec_fn(GameStatus) -> bool {
    if active_only {
        |st: GameStatus| st != GameStatus::Closed
    } else {
        |st: GameStatus| st == GameStatus::Initiating
    }
}

pub struct Lobby {
    last_room: RoomId,
    rooms: Vec<Game>,
}

impl Lobby {
    /// The rooms, by key.
    pub closed spec fn rooms(&self) -> Seq<Game> {
        self.rooms@
    }

    /// The lobby's invariant: the room at each position is well formed and
    /// has that position as its key, and the next key is the number of rooms.
    pub closed spec fn wf(&self) -> bool {
        &&& self.last_room == self.rooms@.len()
        &&& forall|i: int|
            0 <= i < self.rooms@.len() ==> (#[trigger] self.rooms@[i]).wf()
                && self.rooms@[i].label().1 == i
    }

    /// Summaries of the rooms, by key.
    pub open spec fn summaries(&self) -> Seq<Summary> {
        self.rooms().map_values(|g: Game| summary_of(g))
    }

    /// Whether `after` holds the same rooms but the one at `id`.
    pub open spec fn same_but(&self, after: Lobby, id: RoomId) -> bool {
        after.rooms() == self.rooms().update(id as int, after.rooms()[id as int])
    }

    pub fn new() -> (r: Lobby)
        ensures
            r.wf(),
            r.rooms().len() == 0,
    {
        Lobby { last_room: 0, rooms: Vec::new() }
    }

    /// Opens a new room named `name` under the next key, and returns the key.
    pub fn new_room(&mut self, name: String) -> (r: RoomId)
        requires
            old(self).wf(),
            old(self).rooms().len() < u64::MAX,
        ensures
            final(self).wf(),
            r == old(self).rooms().len(),
            final(self).rooms().len() == old(self).rooms().len() + 1,
            final(self).rooms().subrange(0, r as int) == old(self).rooms(),
            fresh_game(final(self).rooms()[r as int], name@, r),
    {
        let room_id = self.last_room;
        self.last_room = self.last_room + 1;
        let game = Game::new(name, room_id);
        self.rooms.push(game);
        assert(self.rooms().subrange(0, room_id as int) =~= old(self).rooms());
        room_id
    }

    /// Summaries of the rooms whose status `keep` accepts, by key.
    fn rooms_where(&self, active_only: bool) -> (r: Vec<RoomInfo>)
        ensures
            r@.map_values(|i: RoomInfo| i.summary()) == select(self.summaries(), keep_for(active_only)),
    {
        let ghost keep = keep_for(active_only);
        let mut r: Vec<RoomInfo> = Vec::new();
        let mut i: usize = 0;
        while i < self.rooms.len()
            invariant
                i <= self.rooms@.len(),
                keep == keep_for(active_only),
                r@.map_values(|x: RoomInfo| x.summary()) == select(
                    self.summaries().subrange(0, i as int),
                    keep,
                ),
            decreases self.rooms@.len() - i,
        {
            let ghost before = r@;
            assert(self.summaries().subrange(0, i + 1).drop_last() =~= self.summaries().subrange(
                0,
                i as int,
            ));
            let wanted = if active_only {
                self.rooms[i].state().is_active()
            } else {
                self.rooms[i].state().is_initiating()
            };
            if wanted {
                let info = RoomInfo::from_game(&self.rooms[i]);
                r.push(info);
                assert(r@.map_values(|x: RoomInfo| x.summary()) =~= before.map_values(
                    |x: RoomInfo| x.summary(),
                ).push(info.summary()));
            }
            i = i + 1;
        }
        assert(self.summaries().subrange(0, i as int) =~= self.summaries());
        r
    }

    /// Summaries of all rooms, by key.
    pub fn all_rooms(&self) -> (r: Vec<RoomInfo>)
        ensures
            r@.map_values(|i: RoomInfo| i.summary()) == self.summaries(),
    {
        let mut r: Vec<RoomInfo> = Vec::new();
        let mut i: usize = 0;
        while i < self.rooms.len()
            invariant
                i <= self.rooms@.len(),
                r@.map_values(|x: RoomInfo| x.summary()) == self.summaries().subrange(0, i as int),
            decreases self.rooms@.len() - i,
        {
            let ghost before = r@;
            let info = RoomInfo::from_game(&self.rooms[i]);
            r.push(info);
            assert(info.summary() == self.summaries()[i as int]);
            assert(r@.map_values(|x: RoomInfo| x.summary()) =~= before.map_values(
                |x: RoomInfo| x.summary(),
            ).push(info.summary()));
            assert(r@.map_values(|x: RoomInfo| x.summary()) =~= self.summaries().subrange(
                0,
                i + 1,
            ));
            i = i + 1;
        }
        assert(self.summaries().subrange(0, i as int) =~= self.summaries());
        r
    }

    /// Summaries of the rooms that are not closed, by key.
    pub fn all_active_rooms(&self) -> (r: Vec<RoomInfo>)
        ensures
            r@.map_values(|i: RoomInfo| i.summary()) == select(self.summaries(), keep_for(true)),
    {
        self.rooms_where(true)
    }

    /// Summaries of the rooms that players may still enter, by key.
    pub fn all_initiating_rooms(&self) -> (r: Vec<RoomInfo>)
        ensures
            r@.map_values(|i: RoomInfo| i.summary()) == select(self.summaries(), keep_for(false)),
    {
        self.rooms_where(false)
    }

    /// `account` enters the room at `room_id`.
    pub fn enter(&mut self, room_id: RoomId, account: AccountId) -> (r: Result<(), GameError>)
        requires
            old(self).wf(),
            room_id < old(self).rooms().len() ==> old(self).rooms()[room_id as int].table().player_count()
                < MAX_PLAYERS,
        ensures
            final(self).wf(),
            room_id >= old(self).rooms().len() ==> r == Err::<(), GameError>(
                GameError::RoomIdNotFound,
            ) && *final(self) == *old(self),
            room_id < old(self).rooms().len() ==> old(self).same_but(*final(self), room_id) && entered(
                old(self).rooms()[room_id as int],
                final(self).rooms()[room_id as int],
                account@,
                r,
            ),
    {
        if room_id >= self.rooms.len() as u64 {
            return Err(GameError::RoomIdNotFound);
        }
        let idx = room_id as usize;
        let r = self.rooms[idx].enter(account);
        proof {
            assert forall|i: int| 0 <= i < self.rooms@.len() implies (#[trigger] self.rooms@[i]).wf()
                && self.rooms@[i].label().1 == i by {
                if i != idx {
                    assert(self.rooms@[i] == old(self).rooms@[i]);
                }
            }
            assert(self.rooms() =~= old(self).rooms().update(idx as int, self.rooms()[idx as int]));
        }
        r
    }

    /// Starts a round in the room at `room_id`.
    pub fn start(&mut self, room_id: RoomId) -> (r: Result<(), GameError>)
        requires
            old(self).wf(),
        ensures
            final(self).wf(),
            room_id >= old(self).rooms().len() ==> r == Err::<(), GameError>(
                GameError::RoomIdNotFound,
            ) && *final(self) == *old(self),
            room_id < old(self).rooms().len() ==> old(self).same_but(*final(self), room_id) && started(
                old(self).rooms()[room_id as int],
                final(self).rooms()[room_id as int],
                r,
            ),
    {
        if room_id >= self.rooms.len() as u64 {
            return Err(GameError::RoomIdNotFound);
        }
        let idx = room_id as usize;
        let r = self.rooms[idx].start();
        proof {
            assert forall|i: int| 0 <= i < self.rooms@.len() implies (#[trigger] self.rooms@[i]).wf()
                && self.rooms@[i].label().1 == i by {
                if i != idx {
                    assert(self.rooms@[i] == old(self).rooms@[i]);
                }
            }
            assert(self.rooms() =~= old(self).rooms().update(idx as int, self.rooms()[idx as int]));
        }
        r
    }

    /// Closes the room at `room_id`.
    pub fn close(&mut self, room_id: RoomId) -> (r: Result<(), GameError>)
        requires
            old(self).wf(),
        ensures
            final(self).wf(),
            room_id >= old(self).rooms().len() ==> r == Err::<(), GameError>(
                GameError::RoomIdNotFound,
            ) && *final(self) == *old(self),
            room_id < old(self).rooms().len() ==> old(self).same_but(*final(self), room_id) && closed_down(
                old(self).rooms()[room_id as int],
                final(self).rooms()[room_id as int],
                r,
            ),
    {
        if room_id >= self.rooms.len() as u64 {
            return Err(GameError::RoomIdNotFound);
        }
        let idx = room_id as usize;
        let r = self.rooms[idx].close();
        proof {
            assert forall|i: int| 0 <= i < self.rooms@.len() implies (#[trigger] self.rooms@[i]).wf()
                && self.rooms@[i].label().1 == i by {
                if i != idx {
                    assert(self.rooms@[i] == old(self).rooms@[i]);
                }
            }
            assert(self.rooms() =~= old(self).rooms().update(idx as int, self.rooms()[idx as int]));
        }
        r
    }

    /// `account` hands in its shuffle of the deck of the room at `room_id`.
    pub fn submit_shuffled(&mut self, room_id: RoomId, account: &AccountId, new_cards: Vec<CryptoHash>) -> (r: Result<(), GameError>)
        requires
            old(self).wf(),
            new_cards@.len() == DECK_SIZE,
        ensures
            final(self).wf(),
            room_id >= old(self).rooms().len() ==> r == Err::<(), GameError>(
                GameError::RoomIdNotFound,
            ) && *final(self) == *old(self),
            room_id < old(self).rooms().len() ==> old(self).same_but(*final(self), room_id) && shuffle_submitted(
                old(self).rooms()[room_id as int],
                final(self).rooms()[room_id as int],
                account@,
                new_cards@.map_values(|c: CryptoHash| c@),
                r,
            ),
    {
        if room_id >= self.rooms.len() as u64 {
            return Err(GameError::RoomIdNotFound);
        }
        let idx = room_id as usize;
        let r = self.rooms[idx].submit_shuffled(account, new_cards);
        proof {
            assert forall|i: int| 0 <= i < self.rooms@.len() implies (#[trigger] self.rooms@[i]).wf()
                && self.rooms@[i].label().1 == i by {
                if i != idx {
                    assert(self.rooms@[i] == old(self).rooms@[i]);
                }
            }
            assert(self.rooms() =~= old(self).rooms().update(idx as int, self.rooms()[idx as int]));
        }
        r
    }

    /// `account` ends its private reveal in the room at `room_id`.
    pub fn finish_reveal(&mut self, room_id: RoomId, account: &AccountId) -> (r: Result<(), GameError>)
        requires
            old(self).wf(),
        ensures
            final(self).wf(),
            room_id >= old(self).rooms().len() ==> r == Err::<(), GameError>(
                GameError::RoomIdNotFound,
            ) && *final(self) == *old(self),
            room_id < old(self).rooms().len() ==> old(self).same_but(*final(self), room_id) && reveal_ended(
                old(self).rooms()[room_id as int],
                final(self).rooms()[room_id as int],
                account@,
                r,
            ),
    {
        if room_id >= self.rooms.len() as u64 {
            return Err(GameError::RoomIdNotFound);
        }
        let idx = room_id as usize;
        let r = self.rooms[idx].finish_reveal(account);
        proof {
            assert forall|i: int| 0 <= i < self.rooms@.len() implies (#[trigger] self.rooms@[i]).wf()
                && self.rooms@[i].label().1 == i by {
                if i != idx {
                    assert(self.rooms@[i] == old(self).rooms@[i]);
                }
            }
            assert(self.rooms() =~= old(self).rooms().update(idx as int, self.rooms()[idx as int]));
        }
        r
    }

    /// `account` hands in its part of the reveal in the room at `room_id`.
    pub fn submit_reveal_part(&mut self, room_id: RoomId, account: &AccountId, card: CryptoHash) -> (r: Result<(), GameError>)
        requires
            old(self).wf(),
        ensures
            final(self).wf(),
            room_id >= old(self).rooms().len() ==> r == Err::<(), GameError>(
                GameError::RoomIdNotFound,
            ) && *final(self) == *old(self),
            room_id < old(self).rooms().len() ==> old(self).same_but(*final(self), room_id) && part_submitted(
                old(self).rooms()[room_id as int],
                final(self).rooms()[room_id as int],
                account@,
                card@,
                r,
            ),
    {
        if room_id >= self.rooms.len() as u64 {
            return Err(GameError::RoomIdNotFound);
        }
        let idx = room_id as usize;
        let r = self.rooms[idx].submit_reveal_part(account, card);
        proof {
            assert forall|i: int| 0 <= i < self.rooms@.len() implies (#[trigger] self.rooms@[i]).wf()
                && self.rooms@[i].label().1 == i by {
                if i != idx {
                    assert(self.rooms@[i] == old(self).rooms@[i]);
                }
            }
            assert(self.rooms() =~= old(self).rooms().update(idx as int, self.rooms()[idx as int]));
        }
        r
    }

    /// `account` bets in the room at `room_id`.
    pub fn submit_bet_action(&mut self, room_id: RoomId, account: &AccountId, bet: BetAction) -> (r: Result<(), GameError>)
        requires
            old(self).wf(),
        ensures
            final(self).wf(),
            room_id >= old(self).rooms().len() ==> r == Err::<(), GameError>(
                GameError::RoomIdNotFound,
            ) && *final(self) == *old(self),
            room_id < old(self).rooms().len() ==> old(self).same_but(*final(self), room_id) && bet_submitted(
                old(self).rooms()[room_id as int],
                final(self).rooms()[room_id as int],
                account@,
                bet,
                r,
            ),
    {
        if room_id >= self.rooms.len() as u64 {
            return Err(GameError::RoomIdNotFound);
        }
        let idx = room_id as usize;
        let r = self.rooms[idx].submit_bet_action(account, bet);
        proof {
            assert forall|i: int| 0 <= i < self.rooms@.len() implies (#[trigger] self.rooms@[i]).wf()
                && self.rooms@[i].label().1 == i by {
                if i != idx {
                    assert(self.rooms@[i] == old(self).rooms@[i]);
                }
            }
            assert(self.rooms() =~= old(self).rooms().update(idx as int, self.rooms()[idx as int]));
        }
        r
    }

    /// The cards of the room at `room_id` as its last shuffler left them.
    pub fn get_partial_shuffle(&self, room_id: RoomId) -> (r: Result<Vec<CryptoHash>, GameError>)
        requires
            self.wf(),
        ensures
            room_id >= self.rooms().len() ==> r == Err::<Vec<CryptoHash>, GameError>(
                GameError::RoomIdNotFound,
            ),
            room_id < self.rooms().len() ==> {
                let t = self.rooms()[room_id as int].table();
                &&& t.state() is Shuffling ==> r is Ok && r->Ok_0@.map_values(|c: CryptoHash| c@)
                    == t.deck_cards()
                &&& !(t.state() is Shuffling) ==> r == Err::<Vec<CryptoHash>, GameError>(
                    GameError::DeckError(DeckError::DeckNotInShufflingState),
                )
            },
    {
        if room_id >= self.rooms.len() as u64 {
            return Err(GameError::RoomIdNotFound);
        }
        self.rooms[room_id as usize].get_partial_shuffle()
    }

    /// Number of players in the room at `room_id`.
    pub fn num_players(&self, room_id: RoomId) -> (r: Result<u64, GameError>)
        requires
            self.wf(),
        ensures
            room_id >= self.rooms().len() ==> r == Err::<u64, GameError>(GameError::RoomIdNotFound),
            room_id < self.rooms().len() ==> r == Ok::<u64, GameError>(
                self.rooms()[room_id as int].table().player_count() as u64,
            ),
    {
        if room_id >= self.rooms.len() as u64 {
            return Err(GameError::RoomIdNotFound);
        }
        Ok(self.rooms[room_id as usize].num_players())
    }
}

} // verus!
