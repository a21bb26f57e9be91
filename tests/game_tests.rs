use poker::deck::{DeckError, DeckStatus};
use poker::game::{Game, GameError, GameStatus};
use poker::poker::{BetAction, PokerError, PokerStatus, Stage};

fn acc(name: &str) -> String {
    name.to_string()
}

fn cards(tag: &str) -> Vec<String> {
    (0..52).map(|i| format!("{}{}", tag, i)).collect()
}

fn two_player_game() -> Game {
    let mut g = Game::new("table".to_string(), 7);
    g.enter(acc("alice")).unwrap();
    g.enter(acc("bob")).unwrap();
    g
}

#[test]
fn new_game_waits_for_players() {
    let g = Game::new("table".to_string(), 7);
    assert_eq!(g.state(), GameStatus::Initiating);
    assert_eq!(g.name, "table".to_string());
    assert_eq!(g.id, 7);
    assert_eq!(g.deck_state().get_status(), DeckStatus::Initiating);
    assert_eq!(g.deck_state().num_players(), 0);
    assert_eq!(g.poker_state().get_status(), PokerStatus::Idle);
}

#[test]
fn entering_adds_a_player_with_a_thousand_tokens() {
    let mut g = two_player_game();
    assert_eq!(g.poker_state().get_tokens(), vec![1000, 1000]);
    assert_eq!(g.player_id(&acc("bob")).unwrap(), 1);
    assert!(matches!(g.player_id(&acc("carol")), Err(GameError::DeckError(DeckError::PlayerNotInGame))));
    assert!(matches!(g.enter(acc("bob")), Err(GameError::DeckError(DeckError::PlayerAlreadyInGame))));
    g.start().unwrap();
    assert!(matches!(g.enter(acc("carol")), Err(GameError::DeckError(DeckError::DeckAlreadyInitiated))));
    assert_eq!(g.poker_state().get_tokens(), vec![1000, 1000]);
}

#[test]
fn round_runs_from_shuffle_to_flop() {
    let mut g = two_player_game();
    g.start().unwrap();
    assert_eq!(g.state(), GameStatus::DeckAction);
    assert_eq!(g.get_partial_shuffle().unwrap(), (0..52u64).map(|i| i.to_string()).collect::<Vec<_>>());
    g.submit_shuffled(&acc("alice"), cards("a")).unwrap();
    assert_eq!(g.deck_state().get_status(), DeckStatus::Shuffling(1));
    g.submit_shuffled(&acc("bob"), cards("b")).unwrap();

    // The deck runs: blinds are posted and the first hole card goes to alice.
    assert_eq!(g.state(), GameStatus::DeckAction);
    assert_eq!(g.poker_state().get_staked(), vec![6, 3]);
    assert_eq!(
        g.deck_state().get_status(),
        DeckStatus::Revealing { card_id: 0, receiver: Some(0), turn: 1, progress: "b0".to_string() }
    );

    // Four hole cards: alice's two, then bob's two.
    for (card, receiver, helper) in [(0u64, "alice", "bob"), (1, "alice", "bob"), (2, "bob", "alice"), (3, "bob", "alice")] {
        match g.deck_state().get_status() {
            DeckStatus::Revealing { card_id, .. } => assert_eq!(card_id, card),
            other => panic!("unexpected status {:?}", other),
        }
        g.submit_reveal_part(&acc(helper), format!("half{}", card)).unwrap();
        assert_eq!(g.state(), GameStatus::DeckAction);
        g.finish_reveal(&acc(receiver)).unwrap();
    }

    assert_eq!(g.state(), GameStatus::PokerAction);
    assert_eq!(g.deck_state().get_status(), DeckStatus::Running);
    assert!(matches!(g.submit_bet_action(&acc("alice"), BetAction::Stake(6)), Err(GameError::PokerError(PokerError::NotBettingTurn))));
    g.submit_bet_action(&acc("bob"), BetAction::Stake(6)).unwrap();
    assert_eq!(g.state(), GameStatus::PokerAction);
    g.submit_bet_action(&acc("alice"), BetAction::Stake(6)).unwrap();

    // The flop: three cards shown to the whole table.
    assert_eq!(g.state(), GameStatus::DeckAction);
    assert_eq!(g.poker_state().get_status(), PokerStatus::Revealing { stage: Stage::Flop, card_id: 4, missing_to_reveal: 2 });
    for card in 4..7u64 {
        assert_eq!(g.deck_state().get_turn(), Some(0));
        g.submit_reveal_part(&acc("alice"), format!("open{}", card)).unwrap();
        g.submit_reveal_part(&acc("bob"), format!("plain{}", card)).unwrap();
        assert_eq!(g.deck_state().get_revealed_card(card).unwrap(), format!("plain{}", card));
    }
    assert_eq!(g.state(), GameStatus::PokerAction);
    assert_eq!(
        g.poker_state().get_status(),
        PokerStatus::Betting { target: 1, until: 0, raised: false, max_stake: 6, next_stage: Stage::Turn }
    );

    // Bob folds: alice wins the round.
    assert!(matches!(g.close(), Err(GameError::OngoingRound)));
    g.submit_bet_action(&acc("bob"), BetAction::Fold).unwrap();
    assert_eq!(g.state(), GameStatus::Idle);
    assert_eq!(g.poker_state().get_blind_token(), 12);
    assert_eq!(g.poker_state().get_big_blind(), 1);
    g.close().unwrap();
    assert_eq!(g.state(), GameStatus::Closed);
    assert_eq!(g.deck_state().get_status(), DeckStatus::Closed);
}

#[test]
fn deck_errors_pass_through_unchanged() {
    let mut g = two_player_game();
    assert!(matches!(g.get_partial_shuffle(), Err(GameError::DeckError(DeckError::DeckNotInShufflingState))));
    assert!(matches!(g.submit_reveal_part(&acc("alice"), acc("x")), Err(GameError::DeckError(DeckError::NotRevealing))));
    assert!(matches!(g.finish_reveal(&acc("alice")), Err(GameError::DeckError(DeckError::NotRevealing))));
    g.start().unwrap();
    assert!(matches!(g.submit_shuffled(&acc("bob"), cards("b")), Err(GameError::DeckError(DeckError::InvalidTurn))));
    assert!(matches!(g.submit_bet_action(&acc("carol"), BetAction::Fold), Err(GameError::DeckError(DeckError::PlayerNotInGame))));
    assert!(matches!(g.submit_bet_action(&acc("bob"), BetAction::Fold), Err(GameError::PokerError(PokerError::NotBettingRound))));
    assert_eq!(g.state(), GameStatus::DeckAction);
    assert_eq!(g.deck_state().get_status(), DeckStatus::Shuffling(0));
}

#[test]
fn start_and_close_only_between_rounds() {
    let mut g = two_player_game();
    g.start().unwrap();
    assert!(matches!(g.start(), Err(GameError::OngoingRound)));
    assert!(matches!(g.close(), Err(GameError::OngoingRound)));
    let mut h = two_player_game();
    h.close().unwrap();
    assert_eq!(h.state(), GameStatus::Closed);
    assert!(matches!(h.start(), Err(GameError::OngoingRound)));
}

#[test]
fn game_status_queries() {
    assert!(GameStatus::Initiating.is_active());
    assert!(GameStatus::PokerAction.is_active());
    assert!(!GameStatus::Closed.is_active());
    assert!(GameStatus::Initiating.is_initiating());
    assert!(!GameStatus::Idle.is_initiating());
}

#[test]
fn errors_of_deck_and_betting_convert_into_game_errors() {
    assert_eq!(GameError::from(DeckError::InvalidTurn), GameError::DeckError(DeckError::InvalidTurn));
    assert_eq!(GameError::from(PokerError::TooLowStake), GameError::PokerError(PokerError::TooLowStake));
}
