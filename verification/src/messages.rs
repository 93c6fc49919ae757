//! The messages that cross a connection, in both directions, and the events
//! broadcast inside a lobby.

use vstd::prelude::*;

verus! {

use crate::codec::{lemma_concat_split, text_len_ok, Message};
use crate::types::{ChessMove, Color};

/// What a freshly authenticated connection is told about its lobby.
#[derive(Debug, Clone, PartialEq, Eq)]
pub enum GameState {
    WaitingForOpponent,
    Ingame { fen: String, color: Color },
}

/// The mathematical shape of a [`GameState`], with text as a character
/// sequence.
pub enum GameStateRepr {
    WaitingForOpponent,
    Ingame { fen: Seq<char>, color: Color },
}

/// A frame the server sends to a client.
#[derive(Debug, Clone, PartialEq, Eq)]
pub enum ServerMsg {
    ConnectRequired,
    Connected(GameState),
    InvalidSession,
    InvalidLobby,
    OpponentJoined,
    PlayedMove(ChessMove),
    /// Reserved on the wire: this server drops rejected moves silently and
    /// never sends it.
    InvalidMove,
}

/// The mathematical shape of a [`ServerMsg`].
pub enum ServerMsgRepr {
    ConnectRequired,
    Connected(GameStateRepr),
    InvalidSession,
    InvalidLobby,
    OpponentJoined,
    PlayedMove(ChessMove),
    InvalidMove,
}

/// A frame a client sends to the server.
#[derive(Debug, Clone, Copy, PartialEq, Eq)]
pub enum ClientMsg {
    Connect { lobby_id: u128, session: u128 },
    PlayRequest { lobby_id: u128, session: u128 },
    PlayMove(ChessMove),
}

/// An event published on a lobby's broadcast channel and fanned out to every
/// subscribed connection.
#[derive(Debug, Clone, Copy, PartialEq, Eq)]
pub enum Event {
    OpponentJoined,
    PlayedMove(ChessMove),
}

impl Event {
    pub open spec fn wf(self) -> bool {
        self matches Event::PlayedMove(m) ==> m.wf()
    }

    /// The server frame that carries this event to a client.
    pub fn to_server_msg(self) -> (r: ServerMsg)
        ensures
            r == self.spec_server_msg(),
    {
        match self {
            Event::OpponentJoined => ServerMsg::OpponentJoined,
            Event::PlayedMove(m) => ServerMsg::PlayedMove(m),
        }
    }

    pub open spec fn spec_server_msg(self) -> ServerMsg {
        match self {
            Event::OpponentJoined => ServerMsg::OpponentJoined,
            Event::PlayedMove(m) => ServerMsg::PlayedMove(m),
        }
    }
}

impl Message for GameState {
    type Repr = GameStateRepr;

    open spec fn abs(&self) -> GameStateRepr {
        match self {
            GameState::WaitingForOpponent => GameStateRepr::WaitingForOpponent,
            GameState::Ingame { fen, color } => GameStateRepr::Ingame {
                fen: fen@,
                color: *color,
            },
        }
    }

    open spec fn inv(v: GameStateRepr) -> bool {
        v matches GameStateRepr::Ingame { fen, .. } ==> text_len_ok(fen)
    }

    open spec fn wire(v: GameStateRepr) -> Seq<u8> {
        match v {
            GameStateRepr::WaitingForOpponent => seq![0u8],
            GameStateRepr::Ingame { fen, color } => seq![1u8] + <String as Message>::wire(fen)
                + <Color as Message>::wire(color),
        }
    }

    open spec fn parse(b: Seq<u8>, pos: int) -> Option<(GameStateRepr, int)> {
        match <u8 as Message>::parse(b, pos) {
            Some(t) => if t.0 == 0 {
                Some((GameStateRepr::WaitingForOpponent, t.1))
            } else if t.0 == 1 {
                match <String as Message>::parse(b, t.1) {
                    Some(r1) => match <Color as Message>::parse(b, r1.1) {
                        Some(r2) => Some(
                            (GameStateRepr::Ingame { fen: r1.0, color: r2.0 }, r2.1),
                        ),
                        None => None,
                    },
                    None => None,
                }
            } else {
                None
            },
            None => None,
        }
    }

    proof fn lemma_parse_sound(b: Seq<u8>, pos: int) {
        if let Some(t) = <u8 as Message>::parse(b, pos) {
            if t.0 == 0 {
                assert(b.subrange(pos, pos + 1) =~= seq![0u8]);
            } else if t.0 == 1 {
                <String as Message>::lemma_parse_sound(b, pos + 1);
                if let Some(r1) = <String as Message>::parse(b, pos + 1) {
                    <Color as Message>::lemma_parse_sound(b, r1.1);
                    if let Some(r2) = <Color as Message>::parse(b, r1.1) {
                        assert(b.subrange(pos, r2.1) =~= seq![1u8] + b.subrange(pos + 1, r1.1)
                            + b.subrange(r1.1, r2.1));
                    }
                }
            }
        }
    }

    proof fn lemma_parse_complete(v: GameStateRepr, b: Seq<u8>, pos: int) {
        let w = Self::wire(v);
        assert(b[pos] == b.subrange(pos, pos + w.len() as int)[0]);
        match v {
            GameStateRepr::WaitingForOpponent => {
                assert(b[pos] == 0u8);
            },
            GameStateRepr::Ingame { fen, color } => {
                let wf = <String as Message>::wire(fen);
                let wc = <Color as Message>::wire(color);
                assert(b.subrange(pos, pos + 1 + (wf + wc).len()) == seq![1u8] + (wf + wc)) by {
                    assert(seq![1u8] + wf + wc =~= seq![1u8] + (wf + wc));
                }
                lemma_concat_split(b, pos, seq![1u8], wf + wc);
                lemma_concat_split(b, pos + 1, wf, wc);
                assert(b[pos] == 1u8) by {
                    assert(b.subrange(pos, pos + 1)[0] == b[pos]);
                }
                <String as Message>::lemma_parse_complete(fen, b, pos + 1);
                <Color as Message>::lemma_parse_complete(color, b, pos + 1 + wf.len());
            },
        }
    }

    fn encode(&self, buf: &mut Vec<u8>) {
        match self {
            GameState::WaitingForOpponent => {
                buf.push(0u8);
                proof {
                    assert(buf@ =~= old(buf)@ + Self::wire(self.abs()));
                }
            },
            GameState::Ingame { fen, color } => {
                buf.push(1u8);
                fen.encode(buf);
                color.encode(buf);
                proof {
                    assert(buf@ =~= old(buf)@ + Self::wire(self.abs()));
                }
            },
        }
    }

    fn decode(bytes: &[u8], pos: usize) -> (r: Option<(Self, usize)>) {
        match u8::decode(bytes, pos) {
            Some((tag, p0)) => if tag == 0 {
                Some((GameState::WaitingForOpponent, p0))
            } else if tag == 1 {
                match String::decode(bytes, p0) {
                    Some((fen, p1)) => match Color::decode(bytes, p1) {
                        Some((color, p2)) => Some((GameState::Ingame { fen, color }, p2)),
                        None => None,
                    },
                    None => None,
                }
            } else {
                None
            },
            None => None,
        }
    }
}

impl Message for ServerMsg {
    type Repr = ServerMsgRepr;

    open spec fn abs(&self) -> ServerMsgRepr {
        match self {
            ServerMsg::ConnectRequired => ServerMsgRepr::ConnectRequired,
            ServerMsg::Connected(gs) => ServerMsgRepr::Connected(gs.abs()),
            ServerMsg::InvalidSession => ServerMsgRepr::InvalidSession,
            ServerMsg::InvalidLobby => ServerMsgRepr::InvalidLobby,
            ServerMsg::OpponentJoined => ServerMsgRepr::OpponentJoined,
            ServerMsg::PlayedMove(m) => ServerMsgRepr::PlayedMove(*m),
            ServerMsg::InvalidMove => ServerMsgRepr::InvalidMove,
        }
    }

    open spec fn inv(v: ServerMsgRepr) -> bool {
        match v {
            ServerMsgRepr::Connected(gs) => <GameState as Message>::inv(gs),
            ServerMsgRepr::PlayedMove(m) => m.wf(),
            _ => true,
        }
    }

    open spec fn wire(v: ServerMsgRepr) -> Seq<u8> {
        match v {
            ServerMsgRepr::ConnectRequired => seq![0u8],
            ServerMsgRepr::Connected(gs) => seq![1u8] + <GameState as Message>::wire(gs),
            ServerMsgRepr::InvalidSession => seq![2u8],
            ServerMsgRepr::InvalidLobby => seq![3u8],
            ServerMsgRepr::OpponentJoined => seq![4u8],
            ServerMsgRepr::PlayedMove(m) => seq![5u8] + <ChessMove as Message>::wire(m),
            ServerMsgRepr::InvalidMove => seq![6u8],
        }
    }

    open spec fn parse(b: Seq<u8>, pos: int) -> Option<(ServerMsgRepr, int)> {
        match <u8 as Message>::parse(b, pos) {
            Some(t) => if t.0 == 0 {
                Some((ServerMsgRepr::ConnectRequired, t.1))
            } else if t.0 == 1 {
                match <GameState as Message>::parse(b, t.1) {
                    Some(r) => Some((ServerMsgRepr::Connected(r.0), r.1)),
                    None => None,
                }
            } else if t.0 == 2 {
                Some((ServerMsgRepr::InvalidSession, t.1))
            } else if t.0 == 3 {
                Some((ServerMsgRepr::InvalidLobby, t.1))
            } else if t.0 == 4 {
                Some((ServerMsgRepr::OpponentJoined, t.1))
            } else if t.0 == 5 {
                match <ChessMove as Message>::parse(b, t.1) {
                    Some(r) => Some((ServerMsgRepr::PlayedMove(r.0), r.1)),
                    None => None,
                }
            } else if t.0 == 6 {
                Some((ServerMsgRepr::InvalidMove, t.1))
            } else {
                None
            },
            None => None,
        }
    }

    proof fn lemma_parse_sound(b: Seq<u8>, pos: int) {
        if let Some(t) = <u8 as Message>::parse(b, pos) {
            if t.0 == 1 {
                <GameState as Message>::lemma_parse_sound(b, pos + 1);
                if let Some(r) = <GameState as Message>::parse(b, pos + 1) {
                    assert(b.subrange(pos, r.1) =~= seq![1u8] + b.subrange(pos + 1, r.1));
                }
            } else if t.0 == 5 {
                <ChessMove as Message>::lemma_parse_sound(b, pos + 1);
                if let Some(r) = <ChessMove as Message>::parse(b, pos + 1) {
                    assert(b.subrange(pos, r.1) =~= seq![5u8] + b.subrange(pos + 1, r.1));
                }
            } else if t.0 <= 6 {
                assert(b.subrange(pos, pos + 1) =~= seq![t.0]);
            }
        }
    }

    proof fn lemma_parse_complete(v: ServerMsgRepr, b: Seq<u8>, pos: int) {
        let w = Self::wire(v);
        assert(b[pos] == b.subrange(pos, pos + w.len() as int)[0]);
        match v {
            ServerMsgRepr::Connected(gs) => {
                let wg = <GameState as Message>::wire(gs);
                lemma_concat_split(b, pos, seq![1u8], wg);
                assert(b[pos] == 1u8) by {
                    assert(b.subrange(pos, pos + 1)[0] == b[pos]);
                }
                <GameState as Message>::lemma_parse_complete(gs, b, pos + 1);
            },
            ServerMsgRepr::PlayedMove(m) => {
                let wm = <ChessMove as Message>::wire(m);
                lemma_concat_split(b, pos, seq![5u8], wm);
                assert(b[pos] == 5u8) by {
                    assert(b.subrange(pos, pos + 1)[0] == b[pos]);
                }
                <ChessMove as Message>::lemma_parse_complete(m, b, pos + 1);
            },
            _ => {
            },
        }
    }

    fn encode(&self, buf: &mut Vec<u8>) {
        match self {
            ServerMsg::ConnectRequired => {
                buf.push(0u8);
            },
            ServerMsg::Connected(gs) => {
                buf.push(1u8);
                gs.encode(buf);
            },
            ServerMsg::InvalidSession => {
                buf.push(2u8);
            },
            ServerMsg::InvalidLobby => {
                buf.push(3u8);
            },
            ServerMsg::OpponentJoined => {
                buf.push(4u8);
            },
            ServerMsg::PlayedMove(m) => {
                buf.push(5u8);
                m.encode(buf);
            },
            ServerMsg::InvalidMove => {
                buf.push(6u8);
            },
        }
        proof {
            assert(buf@ =~= old(buf)@ + Self::wire(self.abs()));
        }
    }

    fn decode(bytes: &[u8], pos: usize) -> (r: Option<(Self, usize)>) {
        match u8::decode(bytes, pos) {
            Some((tag, p0)) => if tag == 0 {
                Some((ServerMsg::ConnectRequired, p0))
            } else if tag == 1 {
                match GameState::decode(bytes, p0) {
                    Some((gs, p1)) => Some((ServerMsg::Connected(gs), p1)),
                    None => None,
                }
            } else if tag == 2 {
                Some((ServerMsg::InvalidSession, p0))
            } else if tag == 3 {
                Some((ServerMsg::InvalidLobby, p0))
            } else if tag == 4 {
                Some((ServerMsg::OpponentJoined, p0))
            } else if tag == 5 {
                match ChessMove::decode(bytes, p0) {
                    Some((m, p1)) => Some((ServerMsg::PlayedMove(m), p1)),
                    None => None,
                }
            } else if tag == 6 {
                Some((ServerMsg::InvalidMove, p0))
            } else {
                None
            },
            None => None,
        }
    }
}

impl Message for ClientMsg {
    type Repr = ClientMsg;

    open spec fn abs(&self) -> ClientMsg {
        *self
    }

    open spec fn inv(v: ClientMsg) -> bool {
        v matches ClientMsg::PlayMove(m) ==> m.wf()
    }

    open spec fn wire(v: ClientMsg) -> Seq<u8> {
        match v {
            ClientMsg::Connect { lobby_id, session } => seq![0u8] + <u128 as Message>::wire(
                lobby_id,
            ) + <u128 as Message>::wire(session),
            ClientMsg::PlayRequest { lobby_id, session } => seq![1u8] + <u128 as Message>::wire(
                lobby_id,
            ) + <u128 as Message>::wire(session),
            ClientMsg::PlayMove(m) => seq![2u8] + <ChessMove as Message>::wire(m),
        }
    }

    open spec fn parse(b: Seq<u8>, pos: int) -> Option<(ClientMsg, int)> {
        match <u8 as Message>::parse(b, pos) {
            Some(t) => if t.0 == 0 || t.0 == 1 {
                match <u128 as Message>::parse(b, t.1) {
                    Some(r1) => match <u128 as Message>::parse(b, r1.1) {
                        Some(r2) => Some(
                            (
                                if t.0 == 0 {
                                    ClientMsg::Connect { lobby_id: r1.0, session: r2.0 }
                                } else {
                                    ClientMsg::PlayRequest { lobby_id: r1.0, session: r2.0 }
                                },
                                r2.1,
                            ),
                        ),
                        None => None,
                    },
                    None => None,
                }
            } else if t.0 == 2 {
                match <ChessMove as Message>::parse(b, t.1) {
                    Some(r) => Some((ClientMsg::PlayMove(r.0), r.1)),
                    None => None,
                }
            } else {
                None
            },
            None => None,
        }
    }

    proof fn lemma_parse_sound(b: Seq<u8>, pos: int) {
        if let Some(t) = <u8 as Message>::parse(b, pos) {
            if t.0 == 0 || t.0 == 1 {
                <u128 as Message>::lemma_parse_sound(b, pos + 1);
                if let Some(r1) = <u128 as Message>::parse(b, pos + 1) {
                    <u128 as Message>::lemma_parse_sound(b, r1.1);
                    if let Some(r2) = <u128 as Message>::parse(b, r1.1) {
                        assert(b.subrange(pos, r2.1) =~= seq![t.0] + b.subrange(pos + 1, r1.1)
                            + b.subrange(r1.1, r2.1));
                    }
                }
            } else if t.0 == 2 {
                <ChessMove as Message>::lemma_parse_sound(b, pos + 1);
                if let Some(r) = <ChessMove as Message>::parse(b, pos + 1) {
                    assert(b.subrange(pos, r.1) =~= seq![2u8] + b.subrange(pos + 1, r.1));
                }
            }
        }
    }

    proof fn lemma_parse_complete(v: ClientMsg, b: Seq<u8>, pos: int) {
        let w = Self::wire(v);
        assert(b[pos] == b.subrange(pos, pos + w.len() as int)[0]);
        match v {
            ClientMsg::Connect { lobby_id, session } => {
                let w1 = <u128 as Message>::wire(lobby_id);
                let w2 = <u128 as Message>::wire(session);
                assert(b.subrange(pos, pos + 1 + (w1 + w2).len()) == seq![0u8] + (w1 + w2)) by {
                    assert(seq![0u8] + w1 + w2 =~= seq![0u8] + (w1 + w2));
                }
                lemma_concat_split(b, pos, seq![0u8], w1 + w2);
                lemma_concat_split(b, pos + 1, w1, w2);
                assert(b[pos] == 0u8) by {
                    assert(b.subrange(pos, pos + 1)[0] == b[pos]);
                }
                <u128 as Message>::lemma_parse_complete(lobby_id, b, pos + 1);
                <u128 as Message>::lemma_parse_complete(session, b, pos + 1 + w1.len());
            },
            ClientMsg::PlayRequest { lobby_id, session } => {
                let w1 = <u128 as Message>::wire(lobby_id);
                let w2 = <u128 as Message>::wire(session);
                assert(b.subrange(pos, pos + 1 + (w1 + w2).len()) == seq![1u8] + (w1 + w2)) by {
                    assert(seq![1u8] + w1 + w2 =~= seq![1u8] + (w1 + w2));
                }
                lemma_concat_split(b, pos, seq![1u8], w1 + w2);
                lemma_concat_split(b, pos + 1, w1, w2);
                assert(b[pos] == 1u8) by {
                    assert(b.subrange(pos, pos + 1)[0] == b[pos]);
                }
                <u128 as Message>::lemma_parse_complete(lobby_id, b, pos + 1);
                <u128 as Message>::lemma_parse_complete(session, b, pos + 1 + w1.len());
            },
            ClientMsg::PlayMove(m) => {
                let wm = <ChessMove as Message>::wire(m);
                lemma_concat_split(b, pos, seq![2u8], wm);
                assert(b[pos] == 2u8) by {
                    assert(b.subrange(pos, pos + 1)[0] == b[pos]);
                }
                <ChessMove as Message>::lemma_parse_complete(m, b, pos + 1);
            },
        }
    }

    fn encode(&self, buf: &mut Vec<u8>) {
        match self {
            ClientMsg::Connect { lobby_id, session } => {
                buf.push(0u8);
                lobby_id.encode(buf);
                session.encode(buf);
            },
            ClientMsg::PlayRequest { lobby_id, session } => {
                buf.push(1u8);
                lobby_id.encode(buf);
                session.encode(buf);
            },
            ClientMsg::PlayMove(m) => {
                buf.push(2u8);
                m.encode(buf);
            },
        }
        proof {
            assert(buf@ =~= old(buf)@ + Self::wire(self.abs()));
        }
    }

    fn decode(bytes: &[u8], pos: usize) -> (r: Option<(Self, usize)>) {
        match u8::decode(bytes, pos) {
            Some((tag, p0)) => if tag == 0 || tag == 1 {
                match u128::decode(bytes, p0) {
                    Some((lobby_id, p1)) => match u128::decode(bytes, p1) {
                        Some((session, p2)) => Some(
                            (
                                if tag == 0 {
                                    ClientMsg::Connect { lobby_id, session }
                                } else {
                                    ClientMsg::PlayRequest { lobby_id, session }
                                },
                                p2,
                            ),
                        ),
                        None => None,
                    },
                    None => None,
                }
            } else if tag == 2 {
                match ChessMove::decode(bytes, p0) {
                    Some((m, p1)) => Some((ClientMsg::PlayMove(m), p1)),
                    None => None,
                }
            } else {
                None
            },
            None => None,
        }
    }
}

/// One whole frame: the message's encoding with nothing after it.
pub fn frame_of<M: Message>(m: &M) -> (r: Vec<u8>)
    requires
        M::inv(m.abs()),
    ensures
        r@ == M::wire(m.abs()),
{
    let mut buf: Vec<u8> = Vec::new();
    m.encode(&mut buf);
    buf
}

/// Decode the message a frame starts with; bytes after it are ignored, as a
/// transport frame carries exactly one message.
pub fn message_of<M: Message>(bytes: &[u8]) -> (r: Option<M>)
    ensures
        match r {
            Some(m) => M::parse(bytes@, 0) matches Some(p) && p.0 == m.abs(),
            None => M::parse(bytes@, 0) is None,
        },
{
    match M::decode(bytes, 0) {
        Some((m, _end)) => Some(m),
        None => None,
    }
}

} // verus!
