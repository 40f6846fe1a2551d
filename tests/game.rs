use axioms::catalog::GameAxiom;
use axioms::game::{GameError, GameState, InboundError, Phase};
use axioms::messaging::{ClientReadyPayload, DeserializationError, MessageType, RoundInitPayload, SelectionMadePayload};

fn ready(flag: bool) -> MessageType {
    MessageType::ClientReadyStatus(ClientReadyPayload { ready: flag })
}

fn pick(code: u8) -> MessageType {
    MessageType::SelectionMade(SelectionMadePayload { selection: code })
}

fn ids(g: &GameState) -> Vec<u16> {
    g.waiting_room().in_room
}

#[test]
fn selection_in_waiting_room_is_illegal() {
    let mut g = GameState::default();
    g.join(1).unwrap();
    let before = (g.phase, ids(&g), g.players.clone());
    assert_eq!(g.apply(1, pick(0), 0), Err(GameError::IllegalTransition));
    assert_eq!((g.phase, ids(&g), g.players.clone()), before);
}

#[test]
fn full_round_two_players() {
    let mut g = GameState::default();
    assert_eq!(g.join(10), Ok(()));
    assert_eq!(g.join(20), Ok(()));
    assert_eq!(g.apply(10, ready(true), 0), Ok(None));
    assert_eq!(g.phase, Phase::WaitingRoom);
    assert_eq!(g.apply(20, ready(true), 0), Ok(None));
    assert_eq!(g.phase, Phase::RoundSetup);

    // Hidden number 42, code 3 left out of the offer.
    let roll: u64 = 3 * 256 + 42;
    let out = g.apply(10, MessageType::GameInit, roll);
    assert_eq!(
        out,
        Ok(Some(MessageType::RoundInit(RoundInitPayload {
            available_axioms: [0, 1, 2, 4, 5, 6]
        })))
    );
    assert_eq!(g.phase, Phase::TurnInProgress);
    assert_eq!(g.hidden, 42);
    assert_eq!(g.offered.len(), 6);
    assert!(!g.offered.contains(&GameAxiom::IsDivis10));

    assert_eq!(g.apply(10, pick(3), 0), Err(GameError::InvalidSelection));
    assert_eq!(g.apply(30, pick(0), 0), Err(GameError::UnknownPlayer));
    assert_eq!(g.apply(10, pick(9), 0), Err(GameError::InvalidSelection));

    assert_eq!(g.apply(10, MessageType::PlayerTurnStart, 0), Ok(None));
    assert_eq!(g.turn, 1);
    assert_eq!(g.apply(10, MessageType::PlayerTurnStart, 0), Ok(None));
    assert_eq!(g.turn, 0);

    assert_eq!(g.apply(10, pick(0), 0), Ok(None));
    assert_eq!(g.phase, Phase::TurnInProgress);
    assert_eq!(g.apply(20, pick(2), 0), Ok(None));
    assert_eq!(g.phase, Phase::Scoring);

    assert_eq!(g.apply(10, MessageType::EvaluateSelections, 0), Ok(None));
    assert_eq!(g.players[0].score, 1);
    assert_eq!(g.players[1].score, 0);
    assert_eq!(g.rounds_played, 1);
    assert_eq!(g.phase, Phase::RoundSetup);
}

#[test]
fn game_completes_after_last_round() {
    let mut g = GameState::new(1, 1);
    g.join(5).unwrap();
    g.apply(5, ready(true), 0).unwrap();
    assert_eq!(g.phase, Phase::RoundSetup);
    // Hidden 49, code 0 left out.
    g.apply(5, MessageType::GameInit, 49).unwrap();
    assert_eq!(g.apply(5, pick(6), 0), Ok(None));
    assert_eq!(g.apply(5, MessageType::EvaluateSelections, 0), Ok(None));
    assert_eq!(g.players[0].score, 1);
    assert_eq!(g.phase, Phase::Complete);
    assert_eq!(g.apply(5, MessageType::GameInit, 0), Err(GameError::IllegalTransition));
}

#[test]
fn ready_again_keeps_roster() {
    let mut g = GameState::new(3, 2);
    g.join(1).unwrap();
    g.join(2).unwrap();
    g.apply(2, ready(true), 0).unwrap();
    let before = g.players.clone();
    assert_eq!(g.apply(2, ready(true), 0), Ok(None));
    assert_eq!(g.players, before);
    assert_eq!(ids(&g), vec![1, 2]);
    assert_eq!(g.waiting_room().ready, vec![2]);
}

#[test]
fn roster_changes() {
    let mut g = GameState::default();
    assert_eq!(g.apply(1, ready(true), 0), Err(GameError::UnknownPlayer));
    g.join(3).unwrap();
    g.join(1).unwrap();
    g.join(3).unwrap();
    assert_eq!(ids(&g), vec![3, 1]);
    g.apply(1, ready(true), 0).unwrap();
    assert_eq!(g.waiting_room().ready, vec![1]);
    assert!(g.leave(3));
    assert!(!g.leave(3));
    assert_eq!(ids(&g), vec![1]);
    g.join(4).unwrap();
    g.apply(4, ready(true), 0).unwrap();
    assert_eq!(g.phase, Phase::RoundSetup);
    assert_eq!(g.join(9), Err(GameError::IllegalTransition));
    assert_eq!(g.apply(4, ready(false), 0), Err(GameError::IllegalTransition));
    assert!(g.leave(1));
    assert!(g.leave(4));
    assert_eq!(g.phase, Phase::WaitingRoom);
}

#[test]
fn unready_keeps_waiting() {
    let mut g = GameState::default();
    g.join(1).unwrap();
    g.join(2).unwrap();
    g.apply(1, ready(true), 0).unwrap();
    g.apply(1, ready(false), 0).unwrap();
    g.apply(2, ready(true), 0).unwrap();
    assert_eq!(g.phase, Phase::WaitingRoom);
    assert_eq!(g.waiting_room().ready, vec![2]);
}

#[test]
fn round_init_message_is_refused() {
    let mut g = GameState::default();
    let m = MessageType::RoundInit(RoundInitPayload { available_axioms: [0; 6] });
    assert_eq!(g.apply(1, m, 0), Err(GameError::IllegalTransition));
}

#[test]
fn transition_draws_a_round() {
    let mut g = GameState::new(1, 2);
    g.join(7).unwrap();
    g.transition(7, ready(true)).unwrap();
    let out = g.transition(7, MessageType::GameInit).unwrap();
    assert_eq!(g.phase, Phase::TurnInProgress);
    assert_eq!(g.offered.len(), 6);
    match out {
        Some(MessageType::RoundInit(p)) => {
            for i in 0..6 {
                assert_eq!(p.available_axioms[i], g.offered[i].code());
            }
        }
        _ => panic!("a round start announces the offer"),
    }
}

#[test]
fn inbound_buffers() {
    let mut g = GameState::new(1, 1);
    g.join(8).unwrap();
    assert_eq!(
        g.handle_inbound(8, vec![0x00, 0x07]),
        Err(InboundError::Decode(DeserializationError::IllegalStructure))
    );
    assert_eq!(g.phase, Phase::WaitingRoom);
    assert_eq!(
        g.handle_inbound(8, vec![0x04, 0x00]),
        Err(InboundError::Game(GameError::IllegalTransition))
    );
    assert_eq!(g.handle_inbound(8, vec![0x00, 0x01]), Ok(None));
    assert_eq!(g.phase, Phase::RoundSetup);
    let reply = g.handle_inbound(8, vec![0x01]).unwrap().unwrap();
    assert_eq!(reply.len(), 7);
    assert_eq!(reply[0], 0x02);
    for i in 0..6 {
        assert_eq!(reply[i + 1], g.offered[i].code());
    }
}
