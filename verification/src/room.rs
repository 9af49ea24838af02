use vstd::prelude::*;
use std::collections::HashMap;

verus! {

broadcast use vstd::std_specs::hash::group_hash_axioms;

/// Identifies a room on the relay.
pub type RoomId = u64;

/// Identifies a peer on the relay.
pub type PeerId = u64;

/// A peer as the relay announces it.
#[derive(Debug, Clone)]
pub struct PeerInfo {
    pub peer_id: PeerId,
    pub name: String,
}

/// Messages a client sends to the relay.
#[derive(Debug, Clone)]
pub enum ClientMessage {
    Register { name: String },
    CreateRoom { name: String },
    JoinRoom { room_id: RoomId },
    LeaveRoom,
    Relay { to: PeerId, payload: Vec<u8> },
}

/// Messages the relay sends to a client.
#[derive(Debug, Clone)]
pub enum ServerMessage {
    Welcome { peer_id: PeerId, peers: Vec<PeerInfo> },
    PeerJoined(PeerInfo),
    PeerLeft { peer_id: PeerId },
    RoomCreated { room_id: RoomId },
    RoomJoined { room_id: RoomId, participants: Vec<PeerInfo> },
    ParticipantJoined { room_id: RoomId, peer: PeerInfo },
    ParticipantLeft { room_id: RoomId, peer_id: PeerId },
    Relay { from: PeerId, payload: Vec<u8> },
}

/// Messages peers exchange through the relay.
#[derive(Debug, Clone)]
pub enum PeerMessage {
    ShareProject { project_id: u64, name: String },
    UnshareProject { project_id: u64 },
    JoinProject { project_id: u64 },
    SyncStep1 { buffer_id: u64, data: Vec<u8> },
    SyncStep2 { buffer_id: u64, data: Vec<u8> },
    Update { buffer_id: u64, data: Vec<u8> },
    Follow { leader: PeerId },
    Unfollow { leader: PeerId },
    UpdateFollowers { leaders: Vec<(PeerId, Vec<PeerId>)> },
    ParticipantLocationChanged { location: u64 },
}

/// A member of a room.
#[derive(Debug, Clone)]
pub struct Participant {
    pub peer_id: PeerId,
    pub name: String,
    pub project_id: Option<u64>,
}

/// A room and its members, by peer id.
#[derive(Debug, Clone)]
pub struct Room {
    pub room_id: RoomId,
    pub name: String,
    pub participants: HashMap<PeerId, Participant>,
}

/// The participant a peer joins as.
pub open spec fn joined_participant(peer_id: PeerId, name: String) -> Participant {
    Participant { peer_id, name, project_id: None }
}

/// The members after `peer_id` joins: a peer already present keeps its
/// entry, a new one joins without a shared project.
pub open spec fn spec_add(m: Map<PeerId, Participant>, peer_id: PeerId, name: String) -> Map<PeerId, Participant> {
    if m.contains_key(peer_id) {
        m
    } else {
        m.insert(peer_id, joined_participant(peer_id, name))
    }
}

impl Room {
    /// An empty room.
    pub fn new(room_id: RoomId, name: String) -> (r: Self)
        ensures
            r.room_id == room_id,
            r.name == name,
            r.participants@ == Map::<PeerId, Participant>::empty(),
    {
        Room { room_id, name, participants: HashMap::new() }
    }

    /// Adds a peer; a peer that is already a member is left as it is.
    pub fn add_participant(&mut self, info: PeerInfo)
        ensures
            final(self).participants@ == spec_add(old(self).participants@, info.peer_id, info.name),
            final(self).room_id == old(self).room_id,
            final(self).name == old(self).name,
    {
        if !self.participants.contains_key(&info.peer_id) {
            let id = info.peer_id;
            self.participants.insert(id, Participant { peer_id: id, name: info.name, project_id: None });
        }
    }

    /// Removes a peer, if it is a member.
    pub fn remove_participant(&mut self, peer_id: PeerId)
        ensures
            final(self).participants@ == old(self).participants@.remove(peer_id),
            final(self).room_id == old(self).room_id,
            final(self).name == old(self).name,
    {
        self.participants.remove(&peer_id);
    }

    /// Number of members.
    pub fn participant_count(&self) -> (n: usize)
        ensures
            n == self.participants@.len(),
    {
        self.participants.len()
    }

    /// Whether the room has no members.
    pub fn is_empty(&self) -> (b: bool)
        ensures
            b == (self.participants@.len() == 0),
    {
        let b = self.participants.is_empty();
        proof {
            if !b {
                assert(self.participants@.len() != 0) by {
                    if self.participants@.len() == 0 {
                        self.participants@.dom().lemma_len0_is_empty();
                        assert(self.participants@ =~= Map::<PeerId, Participant>::empty());
                    }
                }
            }
        }
        b
    }
}

/// Joining is idempotent: a member that joins again changes nothing,
/// and the first name a peer joined with is kept.
pub proof fn lemma_add_idempotent(m: Map<PeerId, Participant>, peer_id: PeerId, name: String, other: String)
    ensures
        spec_add(spec_add(m, peer_id, name), peer_id, other) == spec_add(m, peer_id, name),
        spec_add(m, peer_id, name).contains_key(peer_id),
{
}

/// A new peer joining grows the room by one, and leaving again restores it.
pub proof fn lemma_add_then_remove(m: Map<PeerId, Participant>, peer_id: PeerId, name: String)
    requires
        m.dom().finite(),
        !m.contains_key(peer_id),
    ensures
        spec_add(m, peer_id, name).len() == m.len() + 1,
        spec_add(m, peer_id, name).remove(peer_id) == m,
{
    assert(spec_add(m, peer_id, name).remove(peer_id) =~= m);
}

/// After a peer leaves it is no longer a member, and nobody else left.
pub proof fn lemma_remove_only_that_peer(m: Map<PeerId, Participant>, peer_id: PeerId, other: PeerId)
    requires
        other != peer_id,
    ensures
        !m.remove(peer_id).contains_key(peer_id),
        m.remove(peer_id).contains_key(other) == m.contains_key(other),
{
}

} // verus!
