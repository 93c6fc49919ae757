//! The bodies of the request-style interface: what hosting and joining a
//! lobby hand back.

use vstd::prelude::*;

verus! {

/// The answer to a host request: the fresh lobby's identifier and the
/// host's session token.
#[derive(Debug, Clone, Copy, PartialEq, Eq, Structural)]
pub struct HostResponse {
    pub lobby_id: u128,
    pub session: u128,
}

/// The answer to a successful join request: the lobby's identifier and the
/// joiner's session token.
#[derive(Debug, Clone, Copy, PartialEq, Eq, Structural)]
pub struct JoinResponse {
    pub lobby_id: u128,
    pub session: u128,
}

} // verus!
