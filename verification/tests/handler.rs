use chess_lobby::codec::Message;
use chess_lobby::handler::{inbound_action, outbound_step, ConnectOutcome, InboundAction, OutboundStep};
use chess_lobby::messages::{frame_of, ClientMsg, GameState, ServerMsg};
use chess_lobby::registry::Registry;
use chess_lobby::types::{ChessMove, Color, Square};

fn named_move(text: &str) -> ChessMove {
    ChessMove {
        source: Square::from_text(&text[0..2]).unwrap(),
        dest: Square::from_text(&text[2..4]).unwrap(),
        promotion: None,
    }
}

#[test]
fn first_frame_must_be_connect() {
    let mut reg = Registry::new();
    reg.create_lobby(1, 11, Color::White);
    let outcome = reg.connect_msg(&ClientMsg::PlayMove(named_move("e2e4")));
    assert!(matches!(
        outcome,
        ConnectOutcome::Rejected {
            reply: ServerMsg::ConnectRequired
        }
    ));
    let outcome = reg.connect_msg(&ClientMsg::PlayRequest {
        lobby_id: 1,
        session: 11,
    });
    assert!(matches!(
        outcome,
        ConnectOutcome::Rejected {
            reply: ServerMsg::ConnectRequired
        }
    ));
}

#[test]
fn malformed_first_frame_closes_silently() {
    let reg = Registry::new();
    assert!(matches!(
        reg.connect_frame(&[250, 0, 1]),
        ConnectOutcome::Malformed
    ));
    assert!(matches!(reg.connect_frame(&[]), ConnectOutcome::Malformed));
}

#[test]
fn unknown_lobby_and_unknown_token_get_typed_refusals() {
    let mut reg = Registry::new();
    reg.create_lobby(1, 11, Color::White);
    assert!(matches!(
        reg.connect_msg(&ClientMsg::Connect {
            lobby_id: 2,
            session: 11
        }),
        ConnectOutcome::Rejected {
            reply: ServerMsg::InvalidLobby
        }
    ));
    assert!(matches!(
        reg.connect_msg(&ClientMsg::Connect {
            lobby_id: 1,
            session: 99
        }),
        ConnectOutcome::Rejected {
            reply: ServerMsg::InvalidSession
        }
    ));
    // after the join, a token matching no seat is still refused
    reg.join_with_token(1, 22).unwrap();
    assert!(matches!(
        reg.connect_msg(&ClientMsg::Connect {
            lobby_id: 1,
            session: 99
        }),
        ConnectOutcome::Rejected {
            reply: ServerMsg::InvalidSession
        }
    ));
}

#[test]
fn connect_while_waiting_reports_waiting() {
    let mut reg = Registry::new();
    reg.create_lobby(1, 11, Color::Black);
    match reg.connect_msg(&ClientMsg::Connect {
        lobby_id: 1,
        session: 11,
    }) {
        ConnectOutcome::Accepted {
            reply,
            lobby_id,
            color,
            ..
        } => {
            assert_eq!(reply, ServerMsg::Connected(GameState::WaitingForOpponent));
            assert_eq!(lobby_id, 1);
            assert_eq!(color, Color::Black);
        }
        _ => panic!("the host's token should authenticate"),
    }
}

#[test]
fn inbound_frames_are_classified() {
    let play = frame_of(&ClientMsg::PlayMove(named_move("e2e4")));
    assert_eq!(
        inbound_action(&play),
        InboundAction::Submit(named_move("e2e4"))
    );

    let connect = frame_of(&ClientMsg::Connect {
        lobby_id: 1,
        session: 2,
    });
    assert_eq!(inbound_action(&connect), InboundAction::Ignore);

    let request = frame_of(&ClientMsg::PlayRequest {
        lobby_id: 1,
        session: 2,
    });
    assert_eq!(inbound_action(&request), InboundAction::Ignore);

    assert_eq!(inbound_action(&[77, 1, 2]), InboundAction::Close);
    assert_eq!(inbound_action(&[]), InboundAction::Close);
}

#[test]
fn end_to_end_scenario() {
    // Host: token 11, side White.
    let mut reg = Registry::new();
    reg.create_lobby(1, 11, Color::White);

    // The host connects while waiting and subscribes.
    let mut host_sub = match reg.connect_msg(&ClientMsg::Connect {
        lobby_id: 1,
        session: 11,
    }) {
        ConnectOutcome::Accepted {
            reply, subscriber, ..
        } => {
            assert_eq!(reply, ServerMsg::Connected(GameState::WaitingForOpponent));
            subscriber
        }
        _ => panic!("host connect should be accepted"),
    };

    // Join: token 22, the complementary side; the lobby becomes Playing.
    let (token, color) = reg.join_with_token(1, 22).unwrap();
    assert_eq!((token, color), (22, Color::Black));

    // The connection authenticated before the join receives OpponentJoined.
    let events = &reg.lobbies.get(&1).unwrap().events;
    assert_eq!(
        outbound_step(events, &mut host_sub),
        OutboundStep::Deliver(ServerMsg::OpponentJoined)
    );
    assert_eq!(outbound_step(events, &mut host_sub), OutboundStep::Idle);

    // Connecting again with the host's token now reports the current
    // position and the host's side — not a freshly generated default.
    let expected_start = cozy_chess::Board::default().to_string();
    match reg.connect_msg(&ClientMsg::Connect {
        lobby_id: 1,
        session: 11,
    }) {
        ConnectOutcome::Accepted { reply, color, .. } => {
            assert_eq!(
                reply,
                ServerMsg::Connected(GameState::Ingame {
                    fen: expected_start.clone(),
                    color: Color::White,
                })
            );
            assert_eq!(color, Color::White);
        }
        _ => panic!("host reconnect should be accepted"),
    }

    // The joiner submits out of turn: dropped, nothing broadcast.
    assert!(!reg.play_move(1, Color::Black, &named_move("e7e5")));

    // The host plays; the move is broadcast and the position advances.
    let play_frame = frame_of(&ClientMsg::PlayMove(named_move("e2e4")));
    let m = match inbound_action(&play_frame) {
        InboundAction::Submit(m) => m,
        _ => panic!("a PlayMove frame should be forwarded"),
    };
    assert!(reg.play_move(1, Color::White, &m));

    let events = &reg.lobbies.get(&1).unwrap().events;
    assert_eq!(
        outbound_step(events, &mut host_sub),
        OutboundStep::Deliver(ServerMsg::PlayedMove(named_move("e2e4")))
    );

    // A reconnect now shows the moved position, never the default one.
    let mut board = cozy_chess::Board::default();
    board.try_play("e2e4".parse().unwrap()).unwrap();
    assert_ne!(board.to_string(), expected_start);
    match reg.connect_msg(&ClientMsg::Connect {
        lobby_id: 1,
        session: 22,
    }) {
        ConnectOutcome::Accepted { reply, color, .. } => {
            assert_eq!(
                reply,
                ServerMsg::Connected(GameState::Ingame {
                    fen: board.to_string(),
                    color: Color::Black,
                })
            );
            assert_eq!(color, Color::Black);
        }
        _ => panic!("joiner connect should be accepted"),
    }
}

#[test]
fn whole_frames_cross_the_codec_boundary() {
    // what the server would send is what the client decodes
    let msg = ServerMsg::PlayedMove(named_move("g1f3"));
    let frame = frame_of(&msg);
    let (decoded, used) = ServerMsg::decode(&frame, 0).unwrap();
    assert_eq!(decoded, msg);
    assert_eq!(used, frame.len());
}
