use chess_lobby::codec::Message;
use chess_lobby::messages::{ClientMsg, GameState, ServerMsg};
use chess_lobby::types::{ChessMove, Color, Piece, Square};

fn round_trip_server(msg: ServerMsg) {
    let mut buf: Vec<u8> = Vec::new();
    msg.encode(&mut buf);
    let (decoded, end) = ServerMsg::decode(&buf, 0).expect("server frame should decode");
    assert_eq!(decoded, msg);
    assert_eq!(end, buf.len());
}

fn round_trip_client(msg: ClientMsg) {
    let mut buf: Vec<u8> = Vec::new();
    msg.encode(&mut buf);
    let (decoded, end) = ClientMsg::decode(&buf, 0).expect("client frame should decode");
    assert_eq!(decoded, msg);
    assert_eq!(end, buf.len());
}

fn mv(source: u8, dest: u8, promotion: Option<u8>) -> ChessMove {
    ChessMove {
        source: Square { index: source },
        dest: Square { index: dest },
        promotion: promotion.map(|index| Piece { index }),
    }
}

#[test]
fn server_msg_round_trip_every_variant() {
    round_trip_server(ServerMsg::ConnectRequired);
    round_trip_server(ServerMsg::Connected(GameState::WaitingForOpponent));
    round_trip_server(ServerMsg::Connected(GameState::Ingame {
        fen: String::from("rnbqkbnr/pppppppp/8/8/8/8/PPPPPPPP/RNBQKBNR w KQkq - 0 1"),
        color: Color::White,
    }));
    round_trip_server(ServerMsg::InvalidSession);
    round_trip_server(ServerMsg::InvalidLobby);
    round_trip_server(ServerMsg::OpponentJoined);
    round_trip_server(ServerMsg::PlayedMove(mv(12, 28, None)));
    round_trip_server(ServerMsg::InvalidMove);
}

#[test]
fn client_msg_round_trip_every_variant() {
    round_trip_client(ClientMsg::Connect {
        lobby_id: 7,
        session: 99,
    });
    round_trip_client(ClientMsg::PlayRequest {
        lobby_id: 3,
        session: 4,
    });
    round_trip_client(ClientMsg::PlayMove(mv(52, 36, None)));
}

#[test]
fn round_trip_edge_field_values() {
    // empty text
    round_trip_server(ServerMsg::Connected(GameState::Ingame {
        fen: String::new(),
        color: Color::Black,
    }));
    // minimum and maximum identifier bit patterns
    round_trip_client(ClientMsg::Connect {
        lobby_id: 0,
        session: 0,
    });
    round_trip_client(ClientMsg::Connect {
        lobby_id: u128::MAX,
        session: u128::MAX,
    });
    // absent and present promotion, extreme squares, every piece kind
    round_trip_client(ClientMsg::PlayMove(mv(0, 63, None)));
    for piece in 0..6u8 {
        round_trip_client(ClientMsg::PlayMove(mv(63, 0, Some(piece))));
    }
    // non-ASCII text survives the UTF-8 leg
    round_trip_server(ServerMsg::Connected(GameState::Ingame {
        fen: String::from("position \u{263a} text"),
        color: Color::White,
    }));
}

#[test]
fn wire_layout_is_fixed() {
    // one-byte discriminant in declaration order
    let mut buf: Vec<u8> = Vec::new();
    ServerMsg::OpponentJoined.encode(&mut buf);
    assert_eq!(buf, vec![4u8]);

    // Connect: tag 0, then two 16-byte little-endian identifiers
    let mut buf: Vec<u8> = Vec::new();
    ClientMsg::Connect {
        lobby_id: 1,
        session: 2,
    }
    .encode(&mut buf);
    assert_eq!(buf.len(), 1 + 16 + 16);
    assert_eq!(buf[0], 0u8);
    assert_eq!(buf[1], 1u8);
    assert_eq!(&buf[2..17], &[0u8; 15]);
    assert_eq!(buf[17], 2u8);

    // a move: two 8-byte little-endian squares and a presence tag
    let mut buf: Vec<u8> = Vec::new();
    ClientMsg::PlayMove(mv(12, 28, None)).encode(&mut buf);
    assert_eq!(
        buf,
        vec![2u8, 12, 0, 0, 0, 0, 0, 0, 0, 28, 0, 0, 0, 0, 0, 0, 0, 1]
    );

    // present promotion: tag 0 then the piece index
    let mut buf: Vec<u8> = Vec::new();
    ClientMsg::PlayMove(mv(8, 0, Some(4))).encode(&mut buf);
    assert_eq!(
        buf,
        vec![2u8, 8, 0, 0, 0, 0, 0, 0, 0, 0, 0, 0, 0, 0, 0, 0, 0, 0, 4, 0, 0, 0, 0, 0, 0, 0]
    );

    // text: 8-byte little-endian length prefix, then UTF-8 bytes
    let mut buf: Vec<u8> = Vec::new();
    ServerMsg::Connected(GameState::Ingame {
        fen: String::from("ab"),
        color: Color::Black,
    })
    .encode(&mut buf);
    let mut expected = vec![1u8, 1u8, 2, 0, 0, 0, 0, 0, 0, 0];
    expected.extend_from_slice(b"ab");
    expected.extend_from_slice(&[1u8, 0, 0, 0, 0, 0, 0, 0]);
    assert_eq!(buf, expected);
}

#[test]
fn unknown_discriminant_is_fatal() {
    assert!(ServerMsg::decode(&[200u8], 0).is_none());
    assert!(ServerMsg::decode(&[7u8], 0).is_none());
    assert!(ClientMsg::decode(&[3u8, 0, 0], 0).is_none());
}

#[test]
fn truncated_frames_do_not_decode() {
    assert!(ServerMsg::decode(&[], 0).is_none());
    // PlayedMove cut off inside the first square
    assert!(ServerMsg::decode(&[5u8, 12, 0, 0], 0).is_none());
    // Connect cut off inside the second identifier
    let mut buf: Vec<u8> = Vec::new();
    ClientMsg::Connect {
        lobby_id: 1,
        session: 2,
    }
    .encode(&mut buf);
    buf.truncate(20);
    assert!(ClientMsg::decode(&buf, 0).is_none());
    // text whose length prefix promises more bytes than follow
    let bad = vec![1u8, 1u8, 9, 0, 0, 0, 0, 0, 0, 0, b'a'];
    assert!(ServerMsg::decode(&bad, 0).is_none());
}

#[test]
fn invalid_payload_bytes_do_not_decode() {
    // square index out of range
    let mut bad: Vec<u8> = vec![5u8];
    bad.extend_from_slice(&64u64.to_le_bytes());
    bad.extend_from_slice(&0u64.to_le_bytes());
    bad.push(1);
    assert!(ServerMsg::decode(&bad, 0).is_none());

    // option presence tag other than 0 or 1
    let mut bad: Vec<u8> = vec![5u8];
    bad.extend_from_slice(&0u64.to_le_bytes());
    bad.extend_from_slice(&0u64.to_le_bytes());
    bad.push(2);
    assert!(ServerMsg::decode(&bad, 0).is_none());

    // invalid UTF-8 in a text field
    let bad = vec![1u8, 1u8, 1, 0, 0, 0, 0, 0, 0, 0, 0xff];
    assert!(ServerMsg::decode(&bad, 0).is_none());
}

#[test]
fn trailing_bytes_are_ignored_by_frames() {
    let mut buf: Vec<u8> = Vec::new();
    ServerMsg::OpponentJoined.encode(&mut buf);
    buf.extend_from_slice(&[9, 9, 9]);
    let decoded: Option<ServerMsg> = chess_lobby::messages::message_of(&buf);
    assert_eq!(decoded, Some(ServerMsg::OpponentJoined));

    let framed = chess_lobby::messages::frame_of(&ServerMsg::InvalidMove);
    assert_eq!(framed, vec![6u8]);
}

#[test]
fn primitive_integer_layout() {
    let mut buf: Vec<u8> = Vec::new();
    5u64.encode(&mut buf);
    assert_eq!(buf, vec![5, 0, 0, 0, 0, 0, 0, 0]);
    let (back, end) = u64::decode(&buf, 0).unwrap();
    assert_eq!((back, end), (5, 8));

    let mut buf: Vec<u8> = Vec::new();
    u128::MAX.encode(&mut buf);
    assert_eq!(buf, vec![0xff; 16]);
    let (back, _) = u128::decode(&buf, 0).unwrap();
    assert_eq!(back, u128::MAX);
}
