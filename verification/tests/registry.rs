use chess_lobby::handler::ConnectOutcome;
use chess_lobby::messages::{ClientMsg, GameState, ServerMsg};
use chess_lobby::registry::{JoinError, Registry};
use chess_lobby::types::{ChessMove, Color, Piece, Square};

fn mv(source: u8, dest: u8, promotion: Option<u8>) -> ChessMove {
    ChessMove {
        source: Square { index: source },
        dest: Square { index: dest },
        promotion: promotion.map(|index| Piece { index }),
    }
}

fn named_move(text: &str) -> ChessMove {
    let source = Square::from_text(&text[0..2]).unwrap();
    let dest = Square::from_text(&text[2..4]).unwrap();
    ChessMove {
        source,
        dest,
        promotion: None,
    }
}

fn current_fen(reg: &Registry, lobby_id: u128, session: u128) -> String {
    match reg.connect_msg(&ClientMsg::Connect { lobby_id, session }) {
        ConnectOutcome::Accepted {
            reply: ServerMsg::Connected(GameState::Ingame { fen, .. }),
            ..
        } => fen,
        other => panic!("expected an in-game connection, got {other:?}"),
    }
}

#[test]
fn join_nonexistent_is_not_found() {
    let mut reg = Registry::new();
    assert_eq!(reg.join(12345), Err(JoinError::NotFound));
    reg.create_lobby(1, 11, Color::White);
    assert_eq!(reg.join_with_token(2, 22), Err(JoinError::NotFound));
}

#[test]
fn at_most_one_join_succeeds() {
    let mut reg = Registry::new();
    reg.create_lobby(1, 11, Color::White);
    let (token, color) = reg.join_with_token(1, 22).expect("first join succeeds");
    assert_eq!(token, 22);
    assert_eq!(color, Color::Black);
    // every subsequent join on the id answers Conflict
    assert_eq!(reg.join_with_token(1, 33), Err(JoinError::Conflict));
    assert_eq!(reg.join(1), Err(JoinError::Conflict));
    assert_eq!(reg.join_with_token(1, 44), Err(JoinError::Conflict));
}

#[test]
fn joiner_takes_the_complement_seat() {
    let mut reg = Registry::new();
    reg.create_lobby(5, 50, Color::Black);
    let (_, color) = reg.join_with_token(5, 60).unwrap();
    assert_eq!(color, Color::White);
}

#[test]
fn host_then_random_join() {
    let mut reg = Registry::new();
    let hosted = reg.host();
    let (token, _) = reg.join(hosted.lobby_id).expect("join after host succeeds");
    assert_ne!(token, hosted.session);
    assert_eq!(reg.join(hosted.lobby_id), Err(JoinError::Conflict));
}

#[test]
fn join_starts_from_the_default_position() {
    let mut reg = Registry::new();
    reg.create_lobby(1, 11, Color::White);
    reg.join_with_token(1, 22).unwrap();
    assert_eq!(
        current_fen(&reg, 1, 11),
        cozy_chess::Board::default().to_string()
    );
}

#[test]
fn move_applies_exactly_when_playing_in_turn_and_legal() {
    let mut reg = Registry::new();
    reg.create_lobby(1, 11, Color::White);

    // a waiting lobby accepts no move
    assert!(!reg.play_move(1, Color::White, &named_move("e2e4")));

    reg.join_with_token(1, 22).unwrap();
    let start = current_fen(&reg, 1, 11);

    // an unknown lobby accepts no move
    assert!(!reg.play_move(9, Color::White, &named_move("e2e4")));

    // out of turn: dropped silently, board unchanged byte for byte
    assert!(!reg.play_move(1, Color::Black, &named_move("e7e5")));
    assert_eq!(current_fen(&reg, 1, 11), start);

    // illegal move: dropped silently, board unchanged
    assert!(!reg.play_move(1, Color::White, &mv(0, 63, None)));
    assert_eq!(current_fen(&reg, 1, 11), start);

    // in turn and legal: applied, and the board matches the oracle exactly
    assert!(reg.play_move(1, Color::White, &named_move("e2e4")));
    let mut board = cozy_chess::Board::default();
    board.try_play("e2e4".parse().unwrap()).unwrap();
    assert_eq!(current_fen(&reg, 1, 11), board.to_string());
}

#[test]
fn second_concurrent_submission_is_dropped() {
    let mut reg = Registry::new();
    reg.create_lobby(1, 11, Color::White);
    reg.join_with_token(1, 22).unwrap();

    // two legal submissions raced; the actor dequeues e2e4 first
    assert!(reg.play_move(1, Color::White, &named_move("e2e4")));
    let after_first = current_fen(&reg, 1, 11);

    // the loser is dropped by the turn check, never merged
    assert!(!reg.play_move(1, Color::White, &named_move("d2d4")));
    assert_eq!(current_fen(&reg, 1, 11), after_first);

    // play continues sequentially
    assert!(reg.play_move(1, Color::Black, &named_move("e7e5")));
    let mut board = cozy_chess::Board::default();
    board.try_play("e2e4".parse().unwrap()).unwrap();
    board.try_play("e7e5".parse().unwrap()).unwrap();
    assert_eq!(current_fen(&reg, 1, 11), board.to_string());
}

#[test]
fn promotion_reaches_the_oracle() {
    let mut reg = Registry::new();
    reg.create_lobby(1, 11, Color::White);
    reg.join_with_token(1, 22).unwrap();
    let moves = [
        "h2h4", "g7g5", "h4g5", "g8f6", "g5g6", "f6g8", "g6g7", "g8f6",
    ];
    for (i, text) in moves.iter().enumerate() {
        let color = if i % 2 == 0 {
            Color::White
        } else {
            Color::Black
        };
        assert!(reg.play_move(1, color, &named_move(text)), "move {text}");
    }
    // g7 takes h8 and promotes to a queen
    let promote = ChessMove {
        source: Square::from_text("g7").unwrap(),
        dest: Square::from_text("h8").unwrap(),
        promotion: Some(Piece::from_letter("q").unwrap()),
    };
    assert!(reg.play_move(1, Color::White, &promote));
    let mut board = cozy_chess::Board::default();
    for text in moves {
        board.try_play(text.parse().unwrap()).unwrap();
    }
    board.try_play("g7h8q".parse().unwrap()).unwrap();
    assert_eq!(current_fen(&reg, 1, 11), board.to_string());
}
