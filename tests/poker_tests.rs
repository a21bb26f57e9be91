use poker::poker::{ActionResponse, BetAction, Poker, PokerError, PokerStatus, Stage};

fn table(n: usize) -> Poker {
    let mut p = Poker::new();
    for _ in 0..n {
        p.new_player(1000);
    }
    p
}

fn act(p: &mut Poker, player_id: u64, action: BetAction) -> Result<(), PokerError> {
    p.submit_bet_action(ActionResponse { player_id, action })
}

/// Advances from idle until the first round of betting.
fn deal(p: &mut Poker) {
    p.next().unwrap();
    while !matches!(p.get_status(), PokerStatus::Betting { .. }) {
        p.next().unwrap();
    }
}

#[test]
fn blinds_and_first_deal_for_two_players() {
    let mut p = table(2);
    assert_eq!(p.get_blind_token(), 6);
    p.next().unwrap();
    // The big blind is player 0; the small blind is the player before it.
    assert_eq!(p.get_staked(), vec![6, 3]);
    assert_eq!(p.get_tokens(), vec![1000, 1000]);
    assert_eq!(p.get_status(), PokerStatus::Dealing { player_id: 0, card_id: 0, first_card: true });
}

#[test]
fn dealing_gives_two_cards_to_each_player_in_order() {
    let mut p = table(3);
    p.next().unwrap();
    let mut dealt = vec![];
    while let PokerStatus::Dealing { player_id, card_id, first_card } = p.get_status() {
        dealt.push((player_id, card_id, first_card));
        p.next().unwrap();
    }
    assert_eq!(
        dealt,
        vec![(0, 0, true), (0, 1, false), (1, 2, true), (1, 3, false), (2, 4, true), (2, 5, false)]
    );
    assert_eq!(
        p.get_status(),
        PokerStatus::Betting { target: 1, until: 0, raised: false, max_stake: 6, next_stage: Stage::Flop }
    );
}

#[test]
fn everyone_calling_the_big_blind_opens_the_flop() {
    let mut p = table(3);
    deal(&mut p);
    act(&mut p, 1, BetAction::Stake(6)).unwrap();
    act(&mut p, 2, BetAction::Stake(6)).unwrap();
    assert_eq!(
        p.get_status(),
        PokerStatus::Betting { target: 0, until: 0, raised: false, max_stake: 6, next_stage: Stage::Flop }
    );
    act(&mut p, 0, BetAction::Stake(6)).unwrap();
    assert_eq!(p.get_status(), PokerStatus::Revealing { stage: Stage::Flop, card_id: 6, missing_to_reveal: 2 });
    assert_eq!(p.get_staked(), vec![6, 6, 6]);
}

#[test]
fn flop_shows_three_cards_then_betting_resumes() {
    let mut p = table(2);
    deal(&mut p);
    act(&mut p, 1, BetAction::Stake(6)).unwrap();
    act(&mut p, 0, BetAction::Stake(6)).unwrap();
    p.next().unwrap();
    assert_eq!(p.get_status(), PokerStatus::Revealing { stage: Stage::Flop, card_id: 5, missing_to_reveal: 1 });
    p.next().unwrap();
    assert_eq!(p.get_status(), PokerStatus::Revealing { stage: Stage::Flop, card_id: 6, missing_to_reveal: 0 });
    p.next().unwrap();
    assert_eq!(
        p.get_status(),
        PokerStatus::Betting { target: 1, until: 0, raised: false, max_stake: 6, next_stage: Stage::Turn }
    );
}

#[test]
fn folding_down_to_one_player_ends_the_round() {
    let mut p = table(3);
    deal(&mut p);
    act(&mut p, 1, BetAction::Fold).unwrap();
    assert_eq!(
        p.get_status(),
        PokerStatus::Betting { target: 2, until: 0, raised: false, max_stake: 6, next_stage: Stage::Flop }
    );
    act(&mut p, 2, BetAction::Fold).unwrap();
    assert_eq!(p.get_status(), PokerStatus::Idle);
    assert_eq!(p.get_folded(), vec![false, true, true]);
    assert_eq!(p.get_blind_token(), 12);
    assert_eq!(p.get_big_blind(), 1);
}

#[test]
fn blind_doubles_and_moves_on_each_round() {
    let mut p = table(3);
    deal(&mut p);
    act(&mut p, 1, BetAction::Fold).unwrap();
    act(&mut p, 2, BetAction::Fold).unwrap();
    assert_eq!((p.get_blind_token(), p.get_big_blind()), (12, 1));
    p.next().unwrap();
    assert_eq!(p.get_staked(), vec![6, 12, 3]);
    while !matches!(p.get_status(), PokerStatus::Betting { .. }) {
        p.next().unwrap();
    }
    act(&mut p, 2, BetAction::Fold).unwrap();
    assert_eq!(p.get_status(), PokerStatus::Idle);
    assert_eq!((p.get_blind_token(), p.get_big_blind()), (24, 2));
}

#[test]
fn raise_makes_the_raiser_the_last_to_be_matched() {
    let mut p = table(3);
    deal(&mut p);
    act(&mut p, 1, BetAction::Stake(20)).unwrap();
    assert_eq!(
        p.get_status(),
        PokerStatus::Betting { target: 2, until: 1, raised: true, max_stake: 20, next_stage: Stage::Flop }
    );
    act(&mut p, 2, BetAction::Stake(20)).unwrap();
    assert_eq!(
        p.get_status(),
        PokerStatus::Betting { target: 0, until: 1, raised: true, max_stake: 20, next_stage: Stage::Flop }
    );
    act(&mut p, 0, BetAction::Stake(20)).unwrap();
    assert_eq!(p.get_status(), PokerStatus::Revealing { stage: Stage::Flop, card_id: 6, missing_to_reveal: 2 });
    assert_eq!(p.get_staked(), vec![20, 20, 20]);
}

#[test]
fn showdown_walks_every_hole_card_then_waits() {
    let mut p = table(2);
    deal(&mut p);
    for _ in 0..4 {
        // One round of betting: both call the blind.
        act(&mut p, 1, BetAction::Stake(6)).unwrap();
        act(&mut p, 0, BetAction::Stake(6)).unwrap();
        while let PokerStatus::Revealing { .. } = p.get_status() {
            p.next().unwrap();
        }
    }
    let mut shown = vec![];
    while let PokerStatus::Showdown { player_id, card_id, first_card } = p.get_status() {
        shown.push((player_id, card_id, first_card));
        p.next().unwrap();
    }
    assert_eq!(shown, vec![(0, 0, true), (0, 1, false), (1, 2, true), (1, 3, false)]);
    assert_eq!(p.get_status(), PokerStatus::WaitingRevealedCards);
    p.submit_revealed_cards(vec![None; 52]);
    assert_eq!(p.get_status(), PokerStatus::Idle);
    assert_eq!((p.get_blind_token(), p.get_big_blind()), (12, 1));
}

#[test]
fn bet_errors() {
    let mut p = table(2);
    assert!(matches!(act(&mut p, 0, BetAction::Stake(6)), Err(PokerError::NotBettingRound)));
    deal(&mut p);
    assert!(matches!(act(&mut p, 0, BetAction::Stake(6)), Err(PokerError::NotBettingTurn)));
    assert!(matches!(act(&mut p, 1, BetAction::Stake(5)), Err(PokerError::TooLowStake)));
    assert!(matches!(act(&mut p, 1, BetAction::Stake(1001)), Err(PokerError::NotEnoughStake)));
    assert_eq!(p.get_staked(), vec![6, 3]);
    assert_eq!(
        p.get_status(),
        PokerStatus::Betting { target: 1, until: 0, raised: false, max_stake: 6, next_stage: Stage::Flop }
    );
}

#[test]
fn next_without_players_is_refused() {
    let mut p = Poker::new();
    assert!(matches!(p.next(), Err(PokerError::InvalidPlayerId)));
    assert_eq!(p.get_status(), PokerStatus::Idle);
}

#[test]
fn blinds_below_earlier_stakes_are_refused() {
    let mut p = table(1);
    // With one player the small blind is the big blind itself.
    assert!(matches!(p.next(), Err(PokerError::TooLowStake)));
    assert_eq!(p.get_staked(), vec![0]);
    assert_eq!(p.get_status(), PokerStatus::Idle);
}

#[test]
fn blind_is_capped_at_the_players_tokens() {
    let mut p = Poker::new();
    p.new_player(4);
    p.new_player(1000);
    p.next().unwrap();
    assert_eq!(p.get_staked(), vec![4, 3]);
}
