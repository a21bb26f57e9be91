use poker::game::{GameError, GameStatus};
use poker::lobby::Lobby;

fn acc(name: &str) -> String {
    name.to_string()
}

#[test]
fn rooms_get_consecutive_keys() {
    let mut lobby = Lobby::new();
    assert_eq!(lobby.new_room("first".to_string()), 0);
    assert_eq!(lobby.new_room("second".to_string()), 1);
    let rooms = lobby.all_rooms();
    assert_eq!(rooms.len(), 2);
    assert_eq!(rooms[1].name, "second".to_string());
    assert_eq!(rooms[1].id, 1);
    assert_eq!(rooms[1].status, GameStatus::Initiating);
}

#[test]
fn listings_follow_room_status() {
    let mut lobby = Lobby::new();
    for name in ["a", "b", "c"] {
        lobby.new_room(name.to_string());
    }
    lobby.enter(1, acc("alice")).unwrap();
    lobby.start(1).unwrap();
    lobby.close(2).unwrap();
    let active: Vec<u64> = lobby.all_active_rooms().iter().map(|r| r.id).collect();
    assert_eq!(active, vec![0, 1]);
    let initiating: Vec<u64> = lobby.all_initiating_rooms().iter().map(|r| r.id).collect();
    assert_eq!(initiating, vec![0]);
    assert_eq!(lobby.all_rooms()[1].status, GameStatus::DeckAction);
}

#[test]
fn unknown_room_is_refused() {
    let mut lobby = Lobby::new();
    lobby.new_room("only".to_string());
    assert!(matches!(lobby.enter(1, acc("alice")), Err(GameError::RoomIdNotFound)));
    assert!(matches!(lobby.start(5), Err(GameError::RoomIdNotFound)));
    assert!(matches!(lobby.close(5), Err(GameError::RoomIdNotFound)));
    assert!(matches!(lobby.get_partial_shuffle(5), Err(GameError::RoomIdNotFound)));
    assert!(matches!(lobby.finish_reveal(5, &acc("alice")), Err(GameError::RoomIdNotFound)));
    assert!(matches!(lobby.submit_reveal_part(5, &acc("alice"), acc("x")), Err(GameError::RoomIdNotFound)));
    assert!(matches!(lobby.submit_shuffled(5, &acc("alice"), vec![acc("x"); 52]), Err(GameError::RoomIdNotFound)));
}

#[test]
fn player_count_per_room() {
    let mut lobby = Lobby::new();
    let id = lobby.new_room("table".to_string());
    assert_eq!(lobby.num_players(id).unwrap(), 0);
    lobby.enter(id, acc("alice")).unwrap();
    assert_eq!(lobby.num_players(id).unwrap(), 1);
    assert!(matches!(lobby.num_players(3), Err(GameError::RoomIdNotFound)));
}

#[test]
fn room_plays_through_the_lobby() {
    let mut lobby = Lobby::new();
    let id = lobby.new_room("table".to_string());
    lobby.enter(id, acc("alice")).unwrap();
    lobby.enter(id, acc("bob")).unwrap();
    lobby.start(id).unwrap();
    let shuffled = lobby.get_partial_shuffle(id).unwrap();
    assert_eq!(shuffled.len(), 52);
    lobby.submit_shuffled(id, &acc("alice"), shuffled.clone()).unwrap();
    lobby.submit_shuffled(id, &acc("bob"), shuffled).unwrap();
    lobby.submit_reveal_part(id, &acc("bob"), acc("x")).unwrap();
    lobby.finish_reveal(id, &acc("alice")).unwrap();
    assert_eq!(lobby.all_rooms()[0].status, GameStatus::DeckAction);
}
