//! The lobby registry: the one process-wide mapping from lobby identifier to
//! lobby. It owns lobby creation, the single Waiting-to-Playing transition
//! of each lobby, and the arbitration of submitted moves.

use vstd::prelude::*;

verus! {

use crate::fanout::Fanout;
use crate::http::HostResponse;
use crate::lobby::{Lobby, LobbyState, Sessions};
use crate::messages::Event;
use crate::oracle::{oracle_start_fen, spec_start_fen};
use crate::types::{ChessMove, Color};
use std::collections::HashMap;

broadcast use vstd::std_specs::hash::group_hash_axioms;

/// The broadcast window each lobby is created with.
pub const EVENT_CAPACITY: usize = 2;

/// Why a join was refused.
#[derive(Debug, Clone, Copy, PartialEq, Eq, Structural)]
pub enum JoinError {
    /// No lobby has this identifier.
    NotFound,
    /// The lobby is already playing: some join has already succeeded.
    Conflict,
}

/// The in-memory mapping from lobby identifier to lobby. All lobby and
/// session data lives here and is lost when the process ends.
pub struct Registry {
    pub lobbies: HashMap<u128, Lobby>,
}

/// Whether a lobby has reached its playing state, and with which seats.
pub open spec fn spec_seats(l: Lobby) -> Option<Sessions> {
    match l.state {
        LobbyState::Playing { sessions, .. } => Some(sessions),
        LobbyState::Waiting { .. } => None,
    }
}

/// Every lobby that is playing in `a` is still playing in `b`, with the same
/// seats: no operation of the registry undoes the one Waiting-to-Playing
/// transition or reseats a player.
pub open spec fn playing_preserved(a: Map<u128, Lobby>, b: Map<u128, Lobby>) -> bool {
    forall|id: u128|
        a.contains_key(id) && (#[trigger] spec_seats(a[id])) is Some ==> b.contains_key(id)
            && spec_seats(b[id]) == spec_seats(a[id])
}

/// What a join on this identifier answers: the joined side when the lobby is
/// waiting, and which error otherwise — `NotFound` exactly when no lobby has
/// the identifier, `Conflict` exactly when one has and it is already
/// playing.
pub open spec fn spec_join_outcome(m: Map<u128, Lobby>, id: u128) -> Result<Color, JoinError> {
    if !m.contains_key(id) {
        Err(JoinError::NotFound)
    } else {
        match m[id].state {
            LobbyState::Waiting { color, .. } => Ok(color.spec_complement()),
            LobbyState::Playing { .. } => Err(JoinError::Conflict),
        }
    }
}

/// The freshly minted token does not echo the waiting host's token.
pub open spec fn join_token_fresh(m: Map<u128, Lobby>, id: u128, token: u128) -> bool {
    m.contains_key(id) ==> match m[id].state {
        LobbyState::Waiting { session, .. } => token != session,
        LobbyState::Playing { .. } => true,
    }
}

/// How a successful join changes the registry: the one lobby moves from
/// Waiting to Playing over the oracle's default position, the host keeps the
/// host's seat, the joiner takes the complement with the new token,
/// `OpponentJoined` goes out on the lobby's channel, and nothing else
/// changes.
pub open spec fn spec_joins_to(
    a: Map<u128, Lobby>,
    b: Map<u128, Lobby>,
    id: u128,
    token: u128,
    joined: Color,
) -> bool {
    &&& a.contains_key(id)
    &&& b.dom() == a.dom()
    &&& forall|k: u128| k != id && a.contains_key(k) ==> b[k] == a[k]
    &&& a[id].state matches LobbyState::Waiting { session, color }
    &&& joined == color.spec_complement()
    &&& token != session
    &&& b[id].state matches LobbyState::Playing { fen, sessions }
    &&& fen@ == spec_start_fen()
    &&& sessions.wf()
    &&& sessions.spec_token_of(color) == session
    &&& sessions.spec_token_of(joined) == token
    &&& b[id].events.log@ == a[id].events.log@.push(Event::OpponentJoined)
    &&& b[id].events.cap == a[id].events.cap
}

impl Registry {
    /// Every lobby held is well formed.
    pub open spec fn wf(self) -> bool {
        forall|id: u128|
            self.lobbies@.contains_key(id) ==> (#[trigger] self.lobbies@[id]).wf()
    }

    /// An empty registry.
    pub fn new() -> (r: Registry)
        ensures
            r.wf(),
            r.lobbies@ == Map::<u128, Lobby>::empty(),
    {
        Registry { lobbies: HashMap::new() }
    }

    /// Insert a waiting lobby under the given identifier, with the host's
    /// token and side. An existing lobby under the same identifier is
    /// replaced; the callers draw identifiers at random, where a collision
    /// is negligible.
    pub fn create_lobby(&mut self, id: u128, session: u128, color: Color)
        requires
            old(self).wf(),
        ensures
            final(self).wf(),
            final(self).lobbies@.dom() == old(self).lobbies@.dom().insert(id),
            forall|k: u128|
                k != id && old(self).lobbies@.contains_key(k) ==> final(self).lobbies@[k] == old(
                    self,
                ).lobbies@[k],
            final(self).lobbies@.contains_key(id),
            final(self).lobbies@[id].state == (LobbyState::Waiting { session, color }),
            final(self).lobbies@[id].events.log@ == Seq::<Event>::empty(),
            final(self).lobbies@[id].events.cap == EVENT_CAPACITY,
            !old(self).lobbies@.contains_key(id) || spec_seats(old(self).lobbies@[id]) is None
                ==> playing_preserved(old(self).lobbies@, final(self).lobbies@),
    {
        let lobby = Lobby {
            events: Fanout::new(EVENT_CAPACITY),
            state: LobbyState::Waiting { session, color },
        };
        self.lobbies.insert(id, lobby);
        proof {
            assert(self.lobbies@.dom() =~= old(self).lobbies@.dom().insert(id));
        }
    }

    /// Host a game: a fresh random lobby identifier, a fresh random session
    /// token, a random side, and a waiting lobby inserted under them.
    pub fn host(&mut self) -> (r: HostResponse)
        requires
            old(self).wf(),
        ensures
            final(self).wf(),
            final(self).lobbies@.dom() == old(self).lobbies@.dom().insert(r.lobby_id),
            forall|k: u128|
                k != r.lobby_id && old(self).lobbies@.contains_key(k) ==> final(self).lobbies@[k]
                    == old(self).lobbies@[k],
            final(self).lobbies@.contains_key(r.lobby_id),
            final(self).lobbies@[r.lobby_id].state matches LobbyState::Waiting { session, .. }
                && session == r.session,
            final(self).lobbies@[r.lobby_id].events.log@ == Seq::<Event>::empty(),
            !old(self).lobbies@.contains_key(r.lobby_id) || spec_seats(
                old(self).lobbies@[r.lobby_id],
            ) is None ==> playing_preserved(old(self).lobbies@, final(self).lobbies@),
    {
        let id = fresh_id();
        let session = fresh_id();
        let color = if random_bool() {
            Color::White
        } else {
            Color::Black
        };
        self.create_lobby(id, session, color);
        HostResponse { lobby_id: id, session }
    }

    /// Join the lobby with this identifier using the given freshly minted
    /// token. Exactly when the lobby is waiting, it transitions to playing
    /// (see [`spec_joins_to`]) and the token and the joined side come back;
    /// a missing lobby answers `NotFound`, a playing one `Conflict`, and
    /// either way the registry is left exactly as it was.
    pub fn join_with_token(&mut self, id: u128, token: u128) -> (r: Result<
        (u128, Color),
        JoinError,
    >)
        requires
            old(self).wf(),
            join_token_fresh(old(self).lobbies@, id, token),
        ensures
            final(self).wf(),
            playing_preserved(old(self).lobbies@, final(self).lobbies@),
            match r {
                Ok(p) => {
                    &&& p.0 == token
                    &&& spec_join_outcome(old(self).lobbies@, id) == Ok::<Color, JoinError>(p.1)
                    &&& spec_joins_to(old(self).lobbies@, final(self).lobbies@, id, token, p.1)
                },
                Err(e) => {
                    &&& spec_join_outcome(old(self).lobbies@, id) == Err::<Color, JoinError>(e)
                    &&& final(self).lobbies@ == old(self).lobbies@
                },
            },
    {
        match self.lobbies.remove(&id) {
            None => {
                proof {
                    assert(self.lobbies@ =~= old(self).lobbies@);
                }
                Err(JoinError::NotFound)
            },
            Some(mut lobby) => {
                let (host_session, host_color) = match &lobby.state {
                    LobbyState::Playing { .. } => {
                        self.lobbies.insert(id, lobby);
                        proof {
                            assert(self.lobbies@ =~= old(self).lobbies@);
                        }
                        return Err(JoinError::Conflict);
                    },
                    LobbyState::Waiting { session, color } => (*session, *color),
                };
                let sessions = if host_color == Color::White {
                    Sessions { white: host_session, black: token }
                } else {
                    Sessions { white: token, black: host_session }
                };
                lobby.events.publish(Event::OpponentJoined);
                lobby.state = LobbyState::Playing { fen: oracle_start_fen(), sessions };
                let joined = host_color.complement();
                self.lobbies.insert(id, lobby);
                proof {
                    assert(self.lobbies@.dom() =~= old(self).lobbies@.dom());
                }
                Ok((token, joined))
            },
        }
    }

    /// Join the lobby with this identifier: mint a fresh random token for
    /// the complementary seat and hand it to [`Registry::join_with_token`].
    pub fn join(&mut self, id: u128) -> (r: Result<(u128, Color), JoinError>)
        requires
            old(self).wf(),
        ensures
            final(self).wf(),
            playing_preserved(old(self).lobbies@, final(self).lobbies@),
            match r {
                Ok(p) => {
                    &&& spec_join_outcome(old(self).lobbies@, id) == Ok::<Color, JoinError>(p.1)
                    &&& spec_joins_to(old(self).lobbies@, final(self).lobbies@, id, p.0, p.1)
                },
                Err(e) => {
                    &&& spec_join_outcome(old(self).lobbies@, id) == Err::<Color, JoinError>(e)
                    &&& final(self).lobbies@ == old(self).lobbies@
                },
            },
    {
        let mut token = fresh_id();
        // a random token collides with the host's only with negligible
        // probability; rule even that out so a playing lobby always holds
        // two distinct tokens
        if let Some(l) = self.lobbies.get(&id) {
            if let LobbyState::Waiting { session, .. } = &l.state {
                if token == *session {
                    proof {
                        assert(token != !token) by (bit_vector);
                    }
                    token = !token;
                }
            }
        }
        self.join_with_token(id, token)
    }

    /// Arbitrate one submitted move: the single mutation point of every
    /// board. The move is applied exactly when the lobby exists and accepts
    /// it — it is playing, the submitting side is to move, and the oracle
    /// finds the move legal — and then the lobby steps as
    /// [`Lobby::plays_to`] says and `PlayedMove` goes out on its channel.
    /// Any other submission is dropped silently and the registry is left
    /// exactly as it was.
    pub fn play_move(&mut self, id: u128, color: Color, m: &ChessMove) -> (applied: bool)
        requires
            old(self).wf(),
            m.wf(),
        ensures
            final(self).wf(),
            playing_preserved(old(self).lobbies@, final(self).lobbies@),
            applied == (old(self).lobbies@.contains_key(id) && old(self).lobbies@[id].accepts(
                color,
                *m,
            )),
            applied ==> {
                &&& final(self).lobbies@.dom() == old(self).lobbies@.dom()
                &&& forall|k: u128|
                    k != id && old(self).lobbies@.contains_key(k) ==> final(self).lobbies@[k]
                        == old(self).lobbies@[k]
                &&& old(self).lobbies@[id].plays_to(color, *m, final(self).lobbies@[id])
            },
            !applied ==> final(self).lobbies@ == old(self).lobbies@,
    {
        match self.lobbies.remove(&id) {
            None => {
                proof {
                    assert(self.lobbies@ =~= old(self).lobbies@);
                }
                false
            },
            Some(mut lobby) => {
                let applied = lobby.play(color, m);
                self.lobbies.insert(id, lobby);
                proof {
                    if applied {
                        assert(self.lobbies@.dom() =~= old(self).lobbies@.dom());
                    } else {
                        assert(self.lobbies@ =~= old(self).lobbies@);
                    }
                }
                applied
            },
        }
    }
}

/// Once some join on an identifier has succeeded — the lobby is playing —
/// any operation sequence that preserves playing lobbies (each registry
/// operation does; lobby creation under a fresh identifier) leaves every
/// later join on that identifier answering `Conflict`: at most one join on
/// an identifier ever succeeds.
pub proof fn lemma_join_at_most_once(a: Map<u128, Lobby>, b: Map<u128, Lobby>, id: u128)
    requires
        a.contains_key(id),
        spec_seats(a[id]) is Some,
        playing_preserved(a, b),
    ensures
        spec_join_outcome(b, id) == Err::<Color, JoinError>(JoinError::Conflict),
{
}

/// Preservation of playing lobbies composes across any sequence of
/// operations.
pub proof fn lemma_playing_preserved_trans(
    a: Map<u128, Lobby>,
    b: Map<u128, Lobby>,
    c: Map<u128, Lobby>,
)
    requires
        playing_preserved(a, b),
        playing_preserved(b, c),
    ensures
        playing_preserved(a, c),
{
}

/// A join answers `NotFound` exactly when no lobby has the identifier.
pub proof fn lemma_join_not_found(m: Map<u128, Lobby>, id: u128)
    ensures
        spec_join_outcome(m, id) == Err::<Color, JoinError>(JoinError::NotFound)
            <==> !m.contains_key(id),
{
}

/// Relies on `uuid::Uuid::new_v4`: a freshly generated random 128-bit
/// identifier. Nothing is promised of its value.
#[verifier::external_body]
fn fresh_id() -> u128 {
    uuid::Uuid::new_v4().as_u128()
}

/// Relies on `rand::random`: a coin flip for the host's side. Nothing is
/// promised of its value.
#[verifier::external_body]
fn random_bool() -> bool {
    rand::random()
}

} // verus!
