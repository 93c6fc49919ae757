//! A lobby: one game's membership and state, together with its event
//! channel.

use vstd::prelude::*;

verus! {

use crate::fanout::Fanout;
use crate::messages::Event;
use crate::oracle::{fen_wf, oracle_apply, oracle_side_to_move, spec_apply, spec_side_to_move};
use crate::types::{ChessMove, Color};

/// The two seats of a playing lobby: the capability token held by each side.
#[derive(Debug, Clone, Copy, PartialEq, Eq, Structural)]
pub struct Sessions {
    pub white: u128,
    pub black: u128,
}

impl Sessions {
    /// A playing lobby always holds two distinct tokens.
    pub open spec fn wf(self) -> bool {
        self.white != self.black
    }

    /// The seat a token occupies, if it occupies one.
    pub fn find(&self, session: u128) -> (r: Option<Color>)
        ensures
            r == self.spec_find(session),
    {
        if self.white == session {
            Some(Color::White)
        } else if self.black == session {
            Some(Color::Black)
        } else {
            None
        }
    }

    pub open spec fn spec_find(self, session: u128) -> Option<Color> {
        if self.white == session {
            Some(Color::White)
        } else if self.black == session {
            Some(Color::Black)
        } else {
            None
        }
    }

    /// The token occupying the given seat.
    pub open spec fn spec_token_of(self, c: Color) -> u128 {
        match c {
            Color::White => self.white,
            Color::Black => self.black,
        }
    }
}

/// Where a lobby stands: one seat filled, or both and a game under way. A
/// lobby moves from `Waiting` to `Playing` exactly once and never back.
pub enum LobbyState {
    /// Exactly one seat is filled: the host's token and side.
    Waiting { session: u128, color: Color },
    /// Both seats are filled; `fen` is the text of the authoritative
    /// position.
    Playing { fen: String, sessions: Sessions },
}

impl LobbyState {
    pub open spec fn wf(self) -> bool {
        self matches LobbyState::Playing { fen, sessions } ==> fen_wf(fen@) && sessions.wf()
    }
}

/// One lobby: its state and its broadcast channel.
pub struct Lobby {
    pub events: Fanout,
    pub state: LobbyState,
}

impl Lobby {
    pub open spec fn wf(self) -> bool {
        &&& self.events.wf()
        &&& self.state.wf()
        &&& forall|i: int|
            0 <= i < self.events.log@.len() ==> (#[trigger] self.events.log@[i]).wf()
    }

    /// Whether the lobby accepts a move submitted by the given side: it is
    /// playing, it is that side's turn, and the oracle finds the move legal.
    pub open spec fn accepts(self, color: Color, m: ChessMove) -> bool {
        match self.state {
            LobbyState::Playing { fen, .. } => spec_side_to_move(fen@) == color && spec_apply(
                fen@,
                m,
            ) is Some,
            LobbyState::Waiting { .. } => false,
        }
    }

    /// How one accepted move changes the lobby: the board advances to the
    /// oracle's result, the turn passes to the other side, the seats stay,
    /// and the move is broadcast.
    pub open spec fn plays_to(self, color: Color, m: ChessMove, next: Lobby) -> bool {
        &&& self.accepts(color, m)
        &&& self.state matches LobbyState::Playing { fen, sessions }
        &&& next.state matches LobbyState::Playing { fen: fen2, sessions: sessions2 }
        &&& fen2@ == spec_apply(fen@, m).unwrap()
        &&& sessions2 == sessions
        &&& spec_side_to_move(fen2@) != spec_side_to_move(fen@)
        &&& next.events.log@ == self.events.log@.push(Event::PlayedMove(m))
        &&& next.events.cap == self.events.cap
    }

    /// Submit a move by the given side: the single mutation point of a
    /// lobby's board. The move is applied exactly when the lobby is playing,
    /// it is that side's turn, and the oracle accepts the move; otherwise
    /// the lobby — board, seats and event log — is left exactly as it was,
    /// and the submission is dropped silently.
    pub fn play(&mut self, color: Color, m: &ChessMove) -> (applied: bool)
        requires
            old(self).wf(),
            m.wf(),
        ensures
            final(self).wf(),
            applied == old(self).accepts(color, *m),
            applied ==> old(self).plays_to(color, *m, *final(self)),
            !applied ==> *final(self) == *old(self),
    {
        let (fen_text, sessions) = match &self.state {
            LobbyState::Playing { fen, sessions } => (fen.clone(), *sessions),
            LobbyState::Waiting { .. } => {
                return false;
            },
        };
        let side = match oracle_side_to_move(fen_text.as_str()) {
            Some(c) => c,
            // a playing lobby's position text always came from the oracle
            None => vstd::pervasive::unreached(),
        };
        if side != color {
            return false;
        }
        match oracle_apply(fen_text.as_str(), m) {
            Some(fen2) => {
                self.state = LobbyState::Playing { fen: fen2, sessions };
                self.events.publish(Event::PlayedMove(*m));
                true
            },
            None => false,
        }
    }
}

/// Law: of two concurrent legal move submissions for one lobby — each
/// checked against the same position, as two clients racing each other saw
/// it — exactly one is applied. The one the actor dequeues first plays and
/// passes the turn, after which the lobby no longer accepts the other;
/// arbitration therefore drops the loser unchanged (see [`Lobby::play`]),
/// and the final board is the sequential application of the winner alone,
/// never a merge of both.
pub proof fn lemma_concurrent_submissions(
    l0: Lobby,
    l1: Lobby,
    c1: Color,
    m1: ChessMove,
    c2: Color,
    m2: ChessMove,
)
    requires
        l0.accepts(c1, m1),
        l0.accepts(c2, m2),
        l0.plays_to(c1, m1, l1),
    ensures
        c1 == c2,
        !l1.accepts(c2, m2),
{
}

} // verus!
