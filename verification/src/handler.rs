//! The per-connection state machine.
//!
//! A connection moves from awaiting its handshake to authenticated to
//! closed. The first frame must be `Connect`; its validation against the
//! registry either closes the connection with one typed reply (or silently,
//! on a malformed frame) or authenticates it, subscribing it to its lobby's
//! events. Once authenticated, an inbound loop turns client frames into
//! move submissions for the arbitration actor, and an outbound loop turns
//! lobby events into server frames; a decode failure closes the connection,
//! and both loops always end together. Every decision of the machine lives
//! here; the loops around them only move bytes.

use vstd::prelude::*;

verus! {

use crate::codec::Message;
use crate::fanout::{spec_poll, Fanout, Recv, Subscriber};
use crate::lobby::{Lobby, LobbyState};
use crate::messages::{ClientMsg, GameState, GameStateRepr, ServerMsg, ServerMsgRepr};
use crate::registry::Registry;
use crate::types::{ChessMove, Color};

/// What the handshake decided.
#[derive(Debug)]
pub enum ConnectOutcome {
    /// The first frame did not decode: close without a reply.
    Malformed,
    /// The handshake was wrong or unauthorized: send the reply, then close.
    Rejected { reply: ServerMsg },
    /// Authenticated: send the reply, keep the subscription, stay open.
    Accepted { reply: ServerMsg, lobby_id: u128, color: Color, subscriber: Subscriber },
}

/// What the handshake must decide for a first frame `msg` against the
/// lobbies `m`: anything but `Connect` is told to connect first; an unknown
/// lobby or a token matching no seat gets its typed refusal; a valid token
/// is told the lobby's current state — the *current* position text for a
/// playing lobby, never a fresh default — and subscribed from this moment's
/// end of the event log.
pub open spec fn connect_post(m: Map<u128, Lobby>, msg: ClientMsg, r: ConnectOutcome) -> bool {
    match msg {
        ClientMsg::Connect { lobby_id, session } => if !m.contains_key(lobby_id) {
            r == (ConnectOutcome::Rejected { reply: ServerMsg::InvalidLobby })
        } else {
            let l = m[lobby_id];
            match l.state {
                LobbyState::Waiting { session: host, color } => if session == host {
                    &&& r matches ConnectOutcome::Accepted {
                        reply,
                        lobby_id: out_id,
                        color: out_color,
                        subscriber,
                    }
                    &&& reply == ServerMsg::Connected(GameState::WaitingForOpponent)
                    &&& out_id == lobby_id
                    &&& out_color == color
                    &&& subscriber.cursor == l.events.log@.len()
                } else {
                    r == (ConnectOutcome::Rejected { reply: ServerMsg::InvalidSession })
                },
                LobbyState::Playing { fen, sessions } => match sessions.spec_find(session) {
                    Some(c) => {
                        &&& r matches ConnectOutcome::Accepted {
                            reply,
                            lobby_id: out_id,
                            color: out_color,
                            subscriber,
                        }
                        &&& reply.abs() == ServerMsgRepr::Connected(
                            GameStateRepr::Ingame { fen: fen@, color: c },
                        )
                        &&& out_id == lobby_id
                        &&& out_color == c
                        &&& subscriber.cursor == l.events.log@.len()
                    },
                    None => r == (ConnectOutcome::Rejected { reply: ServerMsg::InvalidSession }),
                },
            }
        },
        _ => r == (ConnectOutcome::Rejected { reply: ServerMsg::ConnectRequired }),
    }
}

/// What the authenticated inbound loop does with one decoded client frame.
#[derive(Debug, Clone, Copy, PartialEq, Eq)]
pub enum InboundAction {
    /// Forward this move to the arbitration actor, tagged with the
    /// connection's lobby and side.
    Submit(ChessMove),
    /// An authenticated client has no business sending this; it is ignored.
    Ignore,
    /// The frame did not decode: terminate the connection.
    Close,
}

impl Registry {
    /// Validate a connection's first decoded frame. See [`connect_post`].
    pub fn connect_msg(&self, msg: &ClientMsg) -> (r: ConnectOutcome)
        requires
            self.wf(),
        ensures
            connect_post(self.lobbies@, *msg, r),
            r matches ConnectOutcome::Rejected { reply } ==> <ServerMsg as Message>::inv(
                reply.abs(),
            ),
            r matches ConnectOutcome::Accepted { reply, .. } ==> <ServerMsg as Message>::inv(
                reply.abs(),
            ),
    {
        let (lobby_id, session) = match msg {
            ClientMsg::Connect { lobby_id, session } => (*lobby_id, *session),
            _ => {
                return ConnectOutcome::Rejected { reply: ServerMsg::ConnectRequired };
            },
        };
        match self.lobbies.get(&lobby_id) {
            None => ConnectOutcome::Rejected { reply: ServerMsg::InvalidLobby },
            Some(lobby) => match &lobby.state {
                LobbyState::Waiting { session: host, color } => if session == *host {
                    ConnectOutcome::Accepted {
                        reply: ServerMsg::Connected(GameState::WaitingForOpponent),
                        lobby_id,
                        color: *color,
                        subscriber: lobby.events.subscribe(),
                    }
                } else {
                    ConnectOutcome::Rejected { reply: ServerMsg::InvalidSession }
                },
                LobbyState::Playing { fen, sessions } => match sessions.find(session) {
                    Some(color) => ConnectOutcome::Accepted {
                        reply: ServerMsg::Connected(GameState::Ingame { fen: fen.clone(), color }),
                        lobby_id,
                        color,
                        subscriber: lobby.events.subscribe(),
                    },
                    None => ConnectOutcome::Rejected { reply: ServerMsg::InvalidSession },
                },
            },
        }
    }

    /// Validate a connection's first frame, raw from the wire: a frame that
    /// does not decode closes the connection with no reply.
    pub fn connect_frame(&self, bytes: &[u8]) -> (r: ConnectOutcome)
        requires
            self.wf(),
        ensures
            match <ClientMsg as Message>::parse(bytes@, 0) {
                Some(p) => connect_post(self.lobbies@, p.0, r),
                None => r matches ConnectOutcome::Malformed,
            },
            r matches ConnectOutcome::Rejected { reply } ==> <ServerMsg as Message>::inv(
                reply.abs(),
            ),
            r matches ConnectOutcome::Accepted { reply, .. } ==> <ServerMsg as Message>::inv(
                reply.abs(),
            ),
    {
        match ClientMsg::decode(bytes, 0) {
            Some((msg, _)) => self.connect_msg(&msg),
            None => ConnectOutcome::Malformed,
        }
    }
}

/// Decide what one authenticated inbound frame means: a `PlayMove` is
/// forwarded to the arbitration actor, any other message a client could
/// send while in game is ignored, and a frame that does not decode closes
/// the connection.
pub fn inbound_action(bytes: &[u8]) -> (r: InboundAction)
    ensures
        match <ClientMsg as Message>::parse(bytes@, 0) {
            Some(p) => r == match p.0 {
                ClientMsg::PlayMove(m) => InboundAction::Submit(m),
                _ => InboundAction::Ignore,
            },
            None => r == InboundAction::Close,
        },
        r matches InboundAction::Submit(m) ==> m.wf(),
{
    proof {
        <ClientMsg as Message>::lemma_parse_sound(bytes@, 0);
    }
    match ClientMsg::decode(bytes, 0) {
        Some((ClientMsg::PlayMove(m), _)) => InboundAction::Submit(m),
        Some(_) => InboundAction::Ignore,
        None => InboundAction::Close,
    }
}

/// What the outbound loop does next.
#[derive(Debug, Clone, PartialEq, Eq)]
pub enum OutboundStep {
    /// Send this frame to the client.
    Deliver(ServerMsg),
    /// The connection lagged and this many events were dropped for it; the
    /// handler resynchronizes or closes, at its choice.
    Missed(usize),
    /// Nothing new: await the next event.
    Idle,
}

/// One step of the outbound loop: the next unseen lobby event as the server
/// frame that carries it, an explicit miss report when the connection
/// lagged, or nothing. Every frame it hands out is encodable.
pub fn outbound_step(events: &Fanout, sub: &mut Subscriber) -> (r: OutboundStep)
    requires
        old(sub).cursor <= events.log@.len(),
        forall|i: int| 0 <= i < events.log@.len() ==> (#[trigger] events.log@[i]).wf(),
    ensures
        final(sub).cursor <= events.log@.len(),
        ({
            let (polled, c) = spec_poll(events.log@, events.cap as int, old(sub).cursor as int);
            &&& final(sub).cursor == c
            &&& match polled {
                None => r == OutboundStep::Idle,
                Some(Recv::Event(e)) => r == OutboundStep::Deliver(e.spec_server_msg()),
                Some(Recv::Lagged(n)) => r == OutboundStep::Missed(n),
            }
        }),
        r matches OutboundStep::Deliver(m) ==> <ServerMsg as Message>::inv(m.abs()),
{
    match events.poll(sub) {
        None => OutboundStep::Idle,
        Some(Recv::Event(e)) => OutboundStep::Deliver(e.to_server_msg()),
        Some(Recv::Lagged(n)) => OutboundStep::Missed(n),
    }
}

} // verus!
