//! The message channels and the payloads that travel on them.
//!
//! Every payload carries a `timestamp` correlation token chosen by its sender.
//! A request and its response travel on the channel of their action; the two
//! broadcast channels carry snapshots from the server to room members.

use vstd::prelude::*;
use crate::common::{Player, PlayerRole, RoomDTO, RoomState, Round};

verus! {

/// Channel of room-list requests and responses.
pub const GET_ROOMS_CHANNEL_ID: u8 = 0;

/// Channel of room-creation requests and responses.
pub const CREATE_ROOM_CHANNEL_ID: u8 = 1;

/// Channel of join requests and responses.
pub const ENTER_ROOT_CHANNEL_ID: u8 = 2;

/// Channel of role-switch requests and responses.
pub const SWITCH_PLAYER_ROLE_CHANNEL_ID: u8 = 3;

/// Channel of the periodic room snapshots.
pub const BROADCAST_ROOM_INFO_CHANNEL_ID: u8 = 4;

/// Channel of room-state requests and responses.
pub const SET_ROOM_STATE_CHANNEL_ID: u8 = 5;

/// Channel of the periodic play snapshots.
pub const BROADCAST_PLAY_INFO_CHANNEL_ID: u8 = 6;

/// Number of channels; their identifiers are `0..CHANNEL_COUNT`.
pub const CHANNEL_COUNT: u8 = 7;

/// How the transport treats the messages of one channel.
#[derive(Debug, Clone, Copy, PartialEq, Eq, Structural)]
pub enum Delivery {
    /// Survives loss and reordering; arrival order is send order.
    ReliableOrdered,
    /// May be lost; the next periodic snapshot replaces it.
    BestEffort,
}

pub open spec fn spec_channel_delivery(channel_id: u8) -> Option<Delivery> {
    if channel_id == BROADCAST_ROOM_INFO_CHANNEL_ID || channel_id == BROADCAST_PLAY_INFO_CHANNEL_ID {
        Some(Delivery::BestEffort)
    } else if channel_id < CHANNEL_COUNT {
        Some(Delivery::ReliableOrdered)
    } else {
        None
    }
}

/// Delivery class of a channel: the request/response channels are reliable
/// and ordered, the broadcast channels best-effort; `None` for an identifier
/// that names no channel.
pub fn channel_delivery(channel_id: u8) -> (r: Option<Delivery>)
    ensures
        r == spec_channel_delivery(channel_id),
{
    if channel_id == BROADCAST_ROOM_INFO_CHANNEL_ID || channel_id == BROADCAST_PLAY_INFO_CHANNEL_ID {
        Some(Delivery::BestEffort)
    } else if channel_id < CHANNEL_COUNT {
        Some(Delivery::ReliableOrdered)
    } else {
        None
    }
}

/// A request kind whose response is matched by its correlation token.
#[derive(Debug, Clone, Copy, PartialEq, Eq, Structural)]
pub enum Action {
    GetRooms,
    CreateRoom,
    EnterRoom,
    SwitchPlayerRole,
    SetRoomState,
}

pub open spec fn spec_action_channel(action: Action) -> u8 {
    match action {
        Action::GetRooms => GET_ROOMS_CHANNEL_ID,
        Action::CreateRoom => CREATE_ROOM_CHANNEL_ID,
        Action::EnterRoom => ENTER_ROOT_CHANNEL_ID,
        Action::SwitchPlayerRole => SWITCH_PLAYER_ROLE_CHANNEL_ID,
        Action::SetRoomState => SET_ROOM_STATE_CHANNEL_ID,
    }
}

/// The channel dedicated to an action.
pub fn action_channel(action: Action) -> (r: u8)
    ensures
        r == spec_action_channel(action),
        spec_channel_delivery(r) == Some(Delivery::ReliableOrdered),
{
    match action {
        Action::GetRooms => GET_ROOMS_CHANNEL_ID,
        Action::CreateRoom => CREATE_ROOM_CHANNEL_ID,
        Action::EnterRoom => ENTER_ROOT_CHANNEL_ID,
        Action::SwitchPlayerRole => SWITCH_PLAYER_ROLE_CHANNEL_ID,
        Action::SetRoomState => SET_ROOM_STATE_CHANNEL_ID,
    }
}

/// Room-list request (empty `rooms`) and response (the full list).
#[derive(Debug)]
pub struct GetRoomsMessage {
    pub timestamp: u64,
    pub rooms: Vec<RoomDTO>,
}

/// Room-creation request; the response also carries the new `room_id`.
#[derive(Debug)]
pub struct CreateRoomMessage {
    pub timestamp: u64,
    pub room_name: String,
    pub room_password: String,
    pub player_name: String,
    pub room_id: u64,
}

/// Join request; the response also carries `success`.
#[derive(Debug)]
pub struct EnterRoomMessage {
    pub timestamp: u64,
    pub room_id: u64,
    pub room_password: String,
    pub player_name: String,
    pub success: bool,
}

/// Role-switch request; the response also carries `success`.
#[derive(Debug)]
pub struct SwitchPlayerRoleMessage {
    pub timestamp: u64,
    pub room_id: u64,
    pub target_player_role: PlayerRole,
    pub success: bool,
}

/// Snapshot of a room, sent to each of its members.
#[derive(Debug)]
pub struct BroadcastRoomInfoMessage {
    pub timestamp: u64,
    pub room_id: u64,
    pub room_name: String,
    pub room_state: RoomState,
    pub players: Vec<Player>,
}

/// Room-state request; the response also carries `success`.
#[derive(Debug)]
pub struct SetRoomStateMessage {
    pub timestamp: u64,
    pub room_id: u64,
    pub player_name: String,
    pub target_room_state: RoomState,
    pub success: bool,
}

/// Snapshot of a play, sent to each member of its room.
#[derive(Debug)]
pub struct BroadcastPlayInfoMessage {
    pub timestamp: u64,
    pub room_id: u64,
    pub play_id: u64,
    pub round: Round,
    pub participants: Vec<Player>,
}

} // verus!
