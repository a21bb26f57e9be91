use poker::deck::{Deck, DeckError, DeckStatus};

fn acc(name: &str) -> String {
    name.to_string()
}

fn cards(tag: &str, n: usize) -> Vec<String> {
    (0..n).map(|i| format!("{}{}", tag, i)).collect()
}

fn deck_with(n: usize) -> Deck {
    let mut deck = Deck::new(52);
    for i in 0..n {
        deck.enter(acc(&format!("p{}", i))).unwrap();
    }
    deck
}

fn running_deck(n: usize) -> Deck {
    let mut deck = deck_with(n);
    deck.start().unwrap();
    for i in 0..n {
        deck.submit_shuffled(&acc(&format!("p{}", i)), cards(&format!("s{}-", i), 52)).unwrap();
    }
    deck
}

#[test]
fn new_deck_holds_decimal_cards() {
    let mut deck = Deck::new(12);
    deck.enter(acc("alice")).unwrap();
    deck.start().unwrap();
    let expected: Vec<String> = (0..12).map(|i: u64| i.to_string()).collect();
    assert_eq!(deck.get_partial_shuffle().unwrap(), expected);
    assert_eq!(deck.get_partial_shuffle().unwrap()[10], "10".to_string());
}

#[test]
fn players_get_positions_in_entry_order() {
    let deck = deck_with(3);
    assert_eq!(deck.num_players(), 3);
    assert_eq!(deck.get_players(), vec![acc("p0"), acc("p1"), acc("p2")]);
    assert_eq!(deck.get_player_id(&acc("p2")).unwrap(), 2);
    assert!(matches!(deck.get_player_id(&acc("zed")), Err(DeckError::PlayerNotInGame)));
}

#[test]
fn enter_twice_is_refused() {
    let mut deck = deck_with(1);
    assert!(matches!(deck.enter(acc("p0")), Err(DeckError::PlayerAlreadyInGame)));
    assert_eq!(deck.num_players(), 1);
}

#[test]
fn enter_and_start_after_start_are_refused() {
    let mut deck = deck_with(2);
    deck.start().unwrap();
    assert!(matches!(deck.enter(acc("late")), Err(DeckError::DeckAlreadyInitiated)));
    assert!(matches!(deck.start(), Err(DeckError::DeckAlreadyInitiated)));
    assert_eq!(deck.num_players(), 2);
}

#[test]
fn shuffle_goes_round_every_player_then_runs() {
    for n in [2usize, 5] {
        let mut deck = deck_with(n);
        deck.start().unwrap();
        for i in 0..n {
            assert_eq!(deck.get_status(), DeckStatus::Shuffling(i as u64));
            assert_eq!(deck.get_turn(), Some(i as u64));
            deck.submit_shuffled(&acc(&format!("p{}", i)), cards("x", 52)).unwrap();
        }
        assert_eq!(deck.get_status(), DeckStatus::Running);
        assert_eq!(deck.get_turn(), None);
    }
}

#[test]
fn out_of_turn_shuffle_is_refused_and_keeps_cards() {
    let mut deck = deck_with(3);
    deck.start().unwrap();
    let before = deck.get_partial_shuffle().unwrap();
    assert!(matches!(deck.submit_shuffled(&acc("p1"), cards("bad", 52)), Err(DeckError::InvalidTurn)));
    assert!(matches!(deck.submit_shuffled(&acc("zed"), cards("bad", 52)), Err(DeckError::PlayerNotInGame)));
    assert_eq!(deck.get_partial_shuffle().unwrap(), before);
    assert_eq!(deck.get_status(), DeckStatus::Shuffling(0));
    deck.submit_shuffled(&acc("p0"), cards("good", 52)).unwrap();
    assert_eq!(deck.get_partial_shuffle().unwrap(), cards("good", 52));
}

#[test]
fn shuffle_outside_shuffling_is_refused() {
    let mut deck = deck_with(2);
    assert!(matches!(deck.get_partial_shuffle(), Err(DeckError::DeckNotInShufflingState)));
    assert!(matches!(deck.submit_shuffled(&acc("p0"), cards("x", 52)), Err(DeckError::DeckNotInShufflingState)));
    let mut deck = running_deck(2);
    assert!(matches!(deck.get_partial_shuffle(), Err(DeckError::DeckNotInShufflingState)));
    assert!(matches!(deck.submit_shuffled(&acc("p0"), cards("x", 52)), Err(DeckError::DeckNotInShufflingState)));
}

#[test]
fn private_reveal_passes_every_other_player_then_receiver() {
    let mut deck = running_deck(5);
    deck.reveal_card(3, Some(2)).unwrap();
    let mut visited = vec![];
    loop {
        match deck.get_status() {
            DeckStatus::Revealing { turn, receiver, card_id, .. } => {
                assert_eq!(card_id, 3);
                assert_eq!(receiver, Some(2));
                if turn == 2 {
                    break;
                }
                visited.push(turn);
                deck.submit_reveal_part(&acc(&format!("p{}", turn)), format!("part{}", turn)).unwrap();
            }
            other => panic!("unexpected status {:?}", other),
        }
    }
    assert_eq!(visited, vec![0, 1, 3, 4]);
    assert!(matches!(deck.submit_reveal_part(&acc("p2"), acc("mine")), Err(DeckError::PlayerCantReveal)));
    assert!(matches!(deck.finish_reveal(&acc("p1")), Err(DeckError::PlayerCantReveal)));
    match deck.get_status() {
        DeckStatus::Revealing { progress, .. } => assert_eq!(progress, "part4".to_string()),
        other => panic!("unexpected status {:?}", other),
    }
    deck.finish_reveal(&acc("p2")).unwrap();
    assert_eq!(deck.get_status(), DeckStatus::Running);
    assert!(matches!(deck.get_revealed_card(3), Err(DeckError::CardNotRevealed)));
}

#[test]
fn private_reveal_to_first_of_two_starts_with_second() {
    let mut deck = running_deck(2);
    deck.reveal_card(0, Some(0)).unwrap();
    assert_eq!(deck.get_turn(), Some(1));
    assert!(matches!(deck.submit_reveal_part(&acc("p0"), acc("x")), Err(DeckError::PlayerCantReveal)));
    deck.submit_reveal_part(&acc("p1"), acc("x")).unwrap();
    assert_eq!(deck.get_turn(), Some(0));
    assert!(matches!(deck.submit_reveal_part(&acc("p0"), acc("x")), Err(DeckError::PlayerCantReveal)));
    deck.finish_reveal(&acc("p0")).unwrap();
    assert_eq!(deck.get_status(), DeckStatus::Running);
}

#[test]
fn private_reveal_to_last_player() {
    let mut deck = running_deck(5);
    deck.reveal_card(7, Some(4)).unwrap();
    for t in 0..4u64 {
        assert_eq!(deck.get_turn(), Some(t));
        deck.submit_reveal_part(&acc(&format!("p{}", t)), acc("x")).unwrap();
    }
    assert_eq!(deck.get_turn(), Some(4));
    deck.finish_reveal(&acc("p4")).unwrap();
    assert_eq!(deck.get_status(), DeckStatus::Running);
}

#[test]
fn private_reveal_with_one_player_goes_straight_to_receiver() {
    let mut deck = running_deck(1);
    deck.reveal_card(0, Some(0)).unwrap();
    assert_eq!(deck.get_turn(), Some(0));
    assert!(matches!(deck.submit_reveal_part(&acc("p0"), acc("x")), Err(DeckError::PlayerCantReveal)));
    deck.finish_reveal(&acc("p0")).unwrap();
    assert_eq!(deck.get_status(), DeckStatus::Running);
}

#[test]
fn public_reveal_passes_every_player_then_stores_card() {
    let mut deck = running_deck(3);
    deck.reveal_card(9, None).unwrap();
    match deck.get_status() {
        DeckStatus::Revealing { progress, .. } => assert_eq!(progress, "s2-9".to_string()),
        other => panic!("unexpected status {:?}", other),
    }
    for t in 0..3u64 {
        assert_eq!(deck.get_turn(), Some(t));
        assert!(matches!(deck.get_revealed_card(9), Err(DeckError::CardNotRevealed)));
        deck.submit_reveal_part(&acc(&format!("p{}", t)), format!("c{}", t)).unwrap();
    }
    assert_eq!(deck.get_status(), DeckStatus::Running);
    assert_eq!(deck.get_revealed_card(9).unwrap(), "c2".to_string());
    assert_eq!(deck.revealed[9], Some("c2".to_string()));
    assert!(matches!(deck.finish_reveal(&acc("p0")), Err(DeckError::NotRevealing)));
}

#[test]
fn reveal_requests_are_checked() {
    let mut deck = deck_with(2);
    assert!(matches!(deck.reveal_card(0, None), Err(DeckError::NotPossibleToStartReveal)));
    let mut deck2 = running_deck(2);
    assert!(matches!(deck2.reveal_card(52, None), Err(DeckError::InvalidCardId)));
    assert!(matches!(deck2.reveal_card(1, Some(2)), Err(DeckError::InvalidPlayerId)));
    assert_eq!(deck2.get_status(), DeckStatus::Running);
    deck2.reveal_card(1, None).unwrap();
    assert!(matches!(deck2.reveal_card(2, None), Err(DeckError::NotPossibleToStartReveal)));
    assert!(matches!(deck2.submit_reveal_part(&acc("p1"), acc("x")), Err(DeckError::PlayerCantReveal)));
    assert!(matches!(deck2.submit_reveal_part(&acc("zed"), acc("x")), Err(DeckError::PlayerNotInGame)));
    assert!(matches!(deck.submit_reveal_part(&acc("p0"), acc("x")), Err(DeckError::NotRevealing)));
    assert!(matches!(deck.get_revealed_card(99), Err(DeckError::InvalidCardId)));
}

#[test]
fn close_ends_the_deck() {
    let mut deck = running_deck(2);
    deck.close();
    assert_eq!(deck.get_status(), DeckStatus::Closed);
    assert_eq!(deck.get_turn(), None);
}

#[test]
fn empty_deck_has_no_cards() {
    let mut deck = Deck::new(0);
    deck.enter(acc("alice")).unwrap();
    deck.start().unwrap();
    assert_eq!(deck.get_partial_shuffle().unwrap(), Vec::<String>::new());
    deck.submit_shuffled(&acc("alice"), vec![]).unwrap();
    assert!(matches!(deck.reveal_card(0, None), Err(DeckError::InvalidCardId)));
    assert!(matches!(deck.get_revealed_card(0), Err(DeckError::InvalidCardId)));
}

#[test]
fn default_status_is_initiating() {
    assert_eq!(DeckStatus::default(), DeckStatus::Initiating);
}
