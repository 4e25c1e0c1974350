//! The server's request handlers and periodic broadcasts.
//!
//! Each handler answers one request: the response is the request with its
//! result filled in and the same correlation token. A handler that returns
//! `None` sends no reply (the room does not exist). Broadcasts are gated by a
//! [`Cooldown`] and return one snapshot per room or per play, with the
//! transport identities of the room's members as recipients.

use vstd::prelude::*;
use crate::channel::{
    BroadcastPlayInfoMessage, BroadcastRoomInfoMessage, CreateRoomMessage, EnterRoomMessage,
    GetRoomsMessage, SetRoomStateMessage, SwitchPlayerRoleMessage,
};
use crate::common::{duplicate_players, players_view, Player, PlayerView};
use crate::play::{PlayList, PlayView};
use crate::room::{
    can_allocate, created_room, dtos_view, has_room, next_room_id, room_with_id, rooms_dto,
    spec_join, spec_set_role, spec_set_state, update_room, with_member, with_role, with_state,
    Room, RoomList, RoomView,
};
use crate::schedule::Cooldown;

verus! {

/// A message and the transport identities it goes to.
#[derive(Debug)]
pub struct Outbound<M> {
    pub recipients: Vec<u64>,
    pub message: M,
}

/// Transport identities of `players`, in order.
pub open spec fn member_ids(players: Seq<PlayerView>) -> Seq<u64> {
    players.map_values(|p: PlayerView| p.client_id)
}

fn client_ids(players: &Vec<Player>) -> (r: Vec<u64>)
    ensures
        r@ == member_ids(players_view(players@)),
{
    let mut r: Vec<u64> = Vec::new();
    let mut i: usize = 0;
    while i < players.len()
        invariant
            i <= players@.len(),
            r@ == member_ids(players_view(players@.subrange(0, i as int))),
        decreases players@.len() - i,
    {
        r.push(players[i].player_client_id);
        assert(r@ =~= member_ids(players_view(players@.subrange(0, i + 1))));
        i = i + 1;
    }
    assert(players@.subrange(0, i as int) =~= players@);
    r
}

/// Answers a room-list request with the listing of every room.
pub fn handle_get_rooms(room_list: &RoomList, message: GetRoomsMessage) -> (r: GetRoomsMessage)
    ensures
        r.timestamp == message.timestamp,
        dtos_view(r.rooms@) == rooms_dto(room_list@),
{
    GetRoomsMessage { timestamp: message.timestamp, rooms: room_list.room_dtos() }
}

/// Creates the requested room with the requesting client as its owner and
/// only member, and answers with the new room's identifier.
pub fn handle_create_room(
    room_list: &mut RoomList,
    message: CreateRoomMessage,
    client_id: u64,
    candidate: u64,
) -> (r: CreateRoomMessage)
    requires
        old(room_list).wf(),
        can_allocate(old(room_list)@, candidate),
    ensures
        final(room_list).wf(),
        r.room_id == next_room_id(old(room_list)@, candidate),
        final(room_list)@ == old(room_list)@.push(
            created_room(
                r.room_id,
                message.room_name@,
                message.room_password@,
                message.player_name@,
                client_id,
            ),
        ),
        r.timestamp == message.timestamp,
        r.room_name@ == message.room_name@,
        r.room_password@ == message.room_password@,
        r.player_name@ == message.player_name@,
{
    let room_id = room_list.create(
        message.room_name.clone(),
        message.room_password.clone(),
        message.player_name.clone(),
        client_id,
        candidate,
    );
    CreateRoomMessage { room_id, ..message }
}

/// Lets the requesting client into the room as a spectator when the password
/// matches and the name is free; answers with `success`.
pub fn handle_enter_room(room_list: &mut RoomList, message: EnterRoomMessage, client_id: u64) -> (r:
    Option<EnterRoomMessage>)
    requires
        old(room_list).wf(),
    ensures
        final(room_list).wf(),
        r is None <==> !has_room(old(room_list)@, message.room_id),
        r matches Some(m) ==> {
            &&& m.timestamp == message.timestamp
            &&& m.room_id == message.room_id
            &&& m.room_password@ == message.room_password@
            &&& m.player_name@ == message.player_name@
            &&& m.success == spec_join(
                old(room_list)@,
                message.room_id,
                message.player_name@,
                message.room_password@,
            ) is Ok
        },
        final(room_list)@ == if spec_join(
            old(room_list)@,
            message.room_id,
            message.player_name@,
            message.room_password@,
        ) is Ok {
            update_room(
                old(room_list)@,
                message.room_id,
                |room: RoomView| with_member(room, message.player_name@, client_id),
            )
        } else {
            old(room_list)@
        },
{
    let outcome = room_list.join(
        message.room_id,
        message.player_name.clone(),
        &message.room_password,
        client_id,
    );
    match outcome {
        Err(crate::room::RoomError::RoomNotFound) => None,
        _ => Some(EnterRoomMessage { success: outcome.is_ok(), ..message }),
    }
}

/// Sets the role of the requesting client in the room; answers with
/// `success`, false where the client is not a member.
pub fn handle_switch_player_role(
    room_list: &mut RoomList,
    message: SwitchPlayerRoleMessage,
    client_id: u64,
) -> (r: Option<SwitchPlayerRoleMessage>)
    requires
        old(room_list).wf(),
    ensures
        final(room_list).wf(),
        r is None <==> !has_room(old(room_list)@, message.room_id),
        r matches Some(m) ==> {
            &&& m.timestamp == message.timestamp
            &&& m.room_id == message.room_id
            &&& m.target_player_role == message.target_player_role
            &&& m.success == spec_set_role(old(room_list)@, message.room_id, client_id) is Ok
        },
        final(room_list)@ == if spec_set_role(old(room_list)@, message.room_id, client_id) is Ok {
            update_room(
                old(room_list)@,
                message.room_id,
                |room: RoomView| with_role(room, client_id, message.target_player_role),
            )
        } else {
            old(room_list)@
        },
{
    let outcome = room_list.set_role(message.room_id, client_id, message.target_player_role);
    match outcome {
        Err(crate::room::RoomError::RoomNotFound) => None,
        _ => Some(SwitchPlayerRoleMessage { success: outcome.is_ok(), ..message }),
    }
}

/// Moves the room to the requested state when the requester owns it;
/// answers with `success`.
pub fn handle_set_room_state(room_list: &mut RoomList, message: SetRoomStateMessage) -> (r: Option<
    SetRoomStateMessage,
>)
    requires
        old(room_list).wf(),
    ensures
        final(room_list).wf(),
        r is None <==> !has_room(old(room_list)@, message.room_id),
        r matches Some(m) ==> {
            &&& m.timestamp == message.timestamp
            &&& m.room_id == message.room_id
            &&& m.player_name@ == message.player_name@
            &&& m.target_room_state == message.target_room_state
            &&& m.success == spec_set_state(old(room_list)@, message.room_id, message.player_name@) is Ok
        },
        final(room_list)@ == if spec_set_state(
            old(room_list)@,
            message.room_id,
            message.player_name@,
        ) is Ok {
            update_room(
                old(room_list)@,
                message.room_id,
                |room: RoomView| with_state(room, message.target_room_state),
            )
        } else {
            old(room_list)@
        },
{
    let outcome = room_list.set_state(
        message.room_id,
        &message.player_name,
        message.target_room_state,
    );
    match outcome {
        Err(crate::room::RoomError::RoomNotFound) => None,
        _ => Some(SetRoomStateMessage { success: outcome.is_ok(), ..message }),
    }
}

/// `o` is the snapshot of `room` stamped `timestamp`, addressed to its members.
pub open spec fn is_room_info(
    o: Outbound<BroadcastRoomInfoMessage>,
    room: RoomView,
    timestamp: u64,
) -> bool {
    &&& o.message.timestamp == timestamp
    &&& o.message.room_id == room.room_id
    &&& o.message.room_name@ == room.room_name
    &&& o.message.room_state == room.room_state
    &&& players_view(o.message.players@) == room.players
    &&& o.recipients@ == member_ids(room.players)
}

fn room_info(room: &Room, timestamp: u64) -> (r: Outbound<BroadcastRoomInfoMessage>)
    ensures
        is_room_info(r, room@, timestamp),
{
    Outbound {
        recipients: client_ids(&room.players),
        message: BroadcastRoomInfoMessage {
            timestamp,
            room_id: room.room_id,
            room_name: room.room_name.clone(),
            room_state: room.room_state,
            players: duplicate_players(&room.players),
        },
    }
}

/// Advances the room-info countdown by `elapsed_us`; when it fires, returns
/// one snapshot of each room, in registry order, stamped `timestamp` and
/// addressed to the room's members. Otherwise returns nothing.
pub fn broadcast_room_info(
    room_list: &RoomList,
    refresh_cd: &mut Cooldown,
    elapsed_us: u64,
    timestamp: u64,
) -> (r: Vec<Outbound<BroadcastRoomInfoMessage>>)
    ensures
        final(refresh_cd).period_us == old(refresh_cd).period_us,
        elapsed_us > old(refresh_cd).remaining_us ==> {
            &&& final(refresh_cd).remaining_us == old(refresh_cd).period_us
            &&& r@.len() == room_list@.len()
            &&& forall|i: int| 0 <= i < r@.len() ==> is_room_info(#[trigger] r@[i], room_list@[i], timestamp)
        },
        elapsed_us <= old(refresh_cd).remaining_us ==> {
            &&& final(refresh_cd).remaining_us == old(refresh_cd).remaining_us - elapsed_us
            &&& r@.len() == 0
        },
{
    let mut r: Vec<Outbound<BroadcastRoomInfoMessage>> = Vec::new();
    if refresh_cd.tick(elapsed_us) {
        let mut i: usize = 0;
        while i < room_list.0.len()
            invariant
                i <= room_list@.len(),
                r@.len() == i,
                forall|j: int| 0 <= j < i ==> is_room_info(#[trigger] r@[j], room_list@[j], timestamp),
            decreases room_list@.len() - i,
        {
            r.push(room_info(&room_list.0[i], timestamp));
            i = i + 1;
        }
    }
    r
}

/// The plays whose room is present, in order.
pub open spec fn plays_with_room(plays: Seq<PlayView>, rooms: Seq<RoomView>) -> Seq<PlayView>
    decreases plays.len(),
{
    if plays.len() == 0 {
        Seq::empty()
    } else {
        let rest = plays_with_room(plays.drop_last(), rooms);
        if has_room(rooms, plays.last().room_id) {
            rest.push(plays.last())
        } else {
            rest
        }
    }
}

/// `o` is the snapshot of `play` stamped `timestamp`, addressed to the
/// members of `room`.
pub open spec fn is_play_info(
    o: Outbound<BroadcastPlayInfoMessage>,
    play: PlayView,
    room: RoomView,
    timestamp: u64,
) -> bool {
    &&& o.message.timestamp == timestamp
    &&& o.message.room_id == play.room_id
    &&& o.message.play_id == play.play_id
    &&& o.message.round == play.round
    &&& players_view(o.message.participants@) == play.participants
    &&& o.recipients@ == member_ids(room.players)
}

/// Advances the play-info countdown by `elapsed_us`; when it fires, returns
/// one snapshot of each play whose room is present, in play order, stamped
/// `timestamp` and addressed to all members of the play's room. Otherwise
/// returns nothing.
pub fn broadcast_play_info(
    play_list: &PlayList,
    room_list: &RoomList,
    refresh_cd: &mut Cooldown,
    elapsed_us: u64,
    timestamp: u64,
) -> (r: Vec<Outbound<BroadcastPlayInfoMessage>>)
    requires
        room_list.wf(),
    ensures
        final(refresh_cd).period_us == old(refresh_cd).period_us,
        elapsed_us > old(refresh_cd).remaining_us ==> {
            let shown = plays_with_room(play_list@, room_list@);
            &&& final(refresh_cd).remaining_us == old(refresh_cd).period_us
            &&& r@.len() == shown.len()
            &&& forall|i: int|
                0 <= i < r@.len() ==> is_play_info(
                    #[trigger] r@[i],
                    shown[i],
                    room_with_id(room_list@, shown[i].room_id),
                    timestamp,
                )
        },
        elapsed_us <= old(refresh_cd).remaining_us ==> {
            &&& final(refresh_cd).remaining_us == old(refresh_cd).remaining_us - elapsed_us
            &&& r@.len() == 0
        },
{
    let mut r: Vec<Outbound<BroadcastPlayInfoMessage>> = Vec::new();
    if refresh_cd.tick(elapsed_us) {
        let ghost plays = play_list@;
        let ghost rooms = room_list@;
        let mut k: usize = 0;
        while k < play_list.0.len()
            invariant
                room_list.wf(),
                plays == play_list@,
                rooms == room_list@,
                k <= plays.len(),
                r@.len() == plays_with_room(plays.subrange(0, k as int), rooms).len(),
                forall|i: int|
                    0 <= i < r@.len() ==> is_play_info(
                        #[trigger] r@[i],
                        plays_with_room(plays.subrange(0, k as int), rooms)[i],
                        room_with_id(rooms, plays_with_room(plays.subrange(0, k as int), rooms)[i].room_id),
                        timestamp,
                    ),
            decreases plays.len() - k,
        {
            let ghost prev = plays_with_room(plays.subrange(0, k as int), rooms);
            assert(plays.subrange(0, k + 1).drop_last() =~= plays.subrange(0, k as int));
            assert(plays.subrange(0, k + 1).last() == plays[k as int]);
            let play = &play_list.0[k];
            assert(plays[k as int] == play@);
            match room_list.find(play.room_id) {
                Some(room) => {
                    let o = Outbound {
                        recipients: client_ids(&room.players),
                        message: BroadcastPlayInfoMessage {
                            timestamp,
                            room_id: play.room_id,
                            play_id: play.play_id,
                            round: play.round,
                            participants: duplicate_players(&play.participants),
                        },
                    };
                    r.push(o);
                    assert forall|i: int| 0 <= i < r@.len() implies is_play_info(
                        #[trigger] r@[i],
                        plays_with_room(plays.subrange(0, k + 1), rooms)[i],
                        room_with_id(rooms, plays_with_room(plays.subrange(0, k + 1), rooms)[i].room_id),
                        timestamp,
                    ) by {
                        if i < r@.len() - 1 {
                            assert(is_play_info(r@[i], prev[i], room_with_id(rooms, prev[i].room_id), timestamp));
                        }
                    }
                },
                None => {},
            }
            k = k + 1;
        }
        assert(plays.subrange(0, k as int) =~= plays);
    }
    r
}

} // verus!
