use texas_holdem::channel::{
    CreateRoomMessage, EnterRoomMessage, GetRoomsMessage, SetRoomStateMessage,
    SwitchPlayerRoleMessage,
};
use texas_holdem::common::{PlayerRole, RoomState};
use texas_holdem::room::{RoomError, RoomList};
use texas_holdem::schedule::Cooldown;
use texas_holdem::server::{
    broadcast_room_info, handle_create_room, handle_enter_room, handle_get_rooms,
    handle_set_room_state, handle_switch_player_role,
};

fn s(v: &str) -> String {
    v.to_string()
}

fn registry_with_room() -> (RoomList, u64) {
    let mut rooms = RoomList::new();
    let id = rooms.create(s("table"), s("pw"), s("alice"), 11, 1000);
    (rooms, id)
}

#[test]
fn create_appends_waiting_room_owned_by_creator() {
    let (rooms, id) = registry_with_room();
    assert_eq!(id, 1000);
    assert_eq!(rooms.0.len(), 1);
    let room = &rooms.0[0];
    assert_eq!(room.room_id, 1000);
    assert_eq!(room.room_name, "table");
    assert_eq!(room.room_password, "pw");
    assert_eq!(room.room_state, RoomState::Waiting);
    assert_eq!(room.owner_name, "alice");
    assert_eq!(room.players.len(), 1);
    assert_eq!(room.players[0].player_client_id, 11);
    assert_eq!(room.players[0].player_name, "alice");
    assert_eq!(room.players[0].player_role, PlayerRole::Spectator);
    assert_eq!(room.players[0].chips, 0);
    assert!(room.last_dealer_name.is_none());
}

#[test]
fn create_keeps_identifiers_unique_for_equal_tokens() {
    let (mut rooms, id) = registry_with_room();
    let second = rooms.create(s("b"), s(""), s("bob"), 12, 1000);
    let third = rooms.create(s("c"), s(""), s("carol"), 13, 900);
    let fourth = rooms.create(s("d"), s(""), s("dave"), 14, 5000);
    assert_eq!(id, 1000);
    assert_eq!(second, 1001);
    assert_eq!(third, 1002);
    assert_eq!(fourth, 5000);
}

#[test]
fn can_create_refuses_only_an_exhausted_identifier_space() {
    let mut rooms = RoomList::new();
    assert!(rooms.can_create(0));
    rooms.create(s("a"), s(""), s("x"), 1, u64::MAX);
    assert!(!rooms.can_create(5));
    assert!(!rooms.can_create(u64::MAX));
}

#[test]
fn created_room_is_listed_with_one_player() {
    let mut rooms = RoomList::new();
    let request = CreateRoomMessage {
        timestamp: 77,
        room_name: s("lobby one"),
        room_password: s("secret"),
        player_name: s("alice"),
        room_id: 0,
    };
    let reply = handle_create_room(&mut rooms, request, 42, 1234);
    assert_eq!(reply.timestamp, 77);
    assert_eq!(reply.room_id, 1234);
    assert_eq!(reply.room_name, "lobby one");
    assert_eq!(reply.player_name, "alice");
    let listing = handle_get_rooms(&rooms, GetRoomsMessage { timestamp: 5, rooms: Vec::new() });
    assert_eq!(listing.timestamp, 5);
    assert_eq!(listing.rooms.len(), 1);
    let dto = &listing.rooms[0];
    assert_eq!(dto.room_id, 1234);
    assert_eq!(dto.room_name, "lobby one");
    assert_eq!(dto.owner_name, "alice");
    assert_eq!(dto.room_state, RoomState::Waiting);
    assert_eq!(dto.player_count, 1);
}

#[test]
fn join_with_right_password_and_new_name_adds_spectator() {
    let (mut rooms, id) = registry_with_room();
    assert_eq!(rooms.join(id, s("bob"), &s("pw"), 12), Ok(()));
    let room = rooms.find(id).unwrap();
    assert_eq!(room.players.len(), 2);
    assert_eq!(room.players[1].player_name, "bob");
    assert_eq!(room.players[1].player_client_id, 12);
    assert_eq!(room.players[1].player_role, PlayerRole::Spectator);
    assert_eq!(rooms.room_dtos()[0].player_count, 2);
}

#[test]
fn join_with_wrong_password_is_rejected() {
    let (mut rooms, id) = registry_with_room();
    assert_eq!(rooms.join(id, s("bob"), &s("PW"), 12), Err(RoomError::Rejected));
    assert_eq!(rooms.find(id).unwrap().players.len(), 1);
}

#[test]
fn join_under_taken_name_is_rejected() {
    let (mut rooms, id) = registry_with_room();
    assert_eq!(rooms.join(id, s("alice"), &s("pw"), 12), Err(RoomError::Rejected));
    assert_eq!(rooms.find(id).unwrap().players.len(), 1);
}

#[test]
fn join_into_missing_room_is_not_found() {
    let (mut rooms, id) = registry_with_room();
    assert_eq!(rooms.join(id + 1, s("bob"), &s("pw"), 12), Err(RoomError::RoomNotFound));
    assert!(rooms.find(id + 1).is_none());
}

#[test]
fn enter_room_replies_with_success_flag() {
    let (mut rooms, id) = registry_with_room();
    let ok = handle_enter_room(
        &mut rooms,
        EnterRoomMessage {
            timestamp: 9,
            room_id: id,
            room_password: s("pw"),
            player_name: s("bob"),
            success: false,
        },
        12,
    )
    .unwrap();
    assert!(ok.success);
    assert_eq!(ok.timestamp, 9);
    assert_eq!(ok.room_id, id);
    let dup = handle_enter_room(
        &mut rooms,
        EnterRoomMessage {
            timestamp: 10,
            room_id: id,
            room_password: s("pw"),
            player_name: s("bob"),
            success: true,
        },
        13,
    )
    .unwrap();
    assert!(!dup.success);
    assert_eq!(rooms.find(id).unwrap().players.len(), 2);
    let missing = handle_enter_room(
        &mut rooms,
        EnterRoomMessage {
            timestamp: 11,
            room_id: id + 5,
            room_password: s("pw"),
            player_name: s("carol"),
            success: false,
        },
        14,
    );
    assert!(missing.is_none());
}

#[test]
fn only_owner_changes_room_state() {
    let (mut rooms, id) = registry_with_room();
    rooms.join(id, s("bob"), &s("pw"), 12).unwrap();
    assert_eq!(
        rooms.set_state(id, &s("bob"), RoomState::Playing),
        Err(RoomError::Unauthorized)
    );
    assert_eq!(rooms.find(id).unwrap().room_state, RoomState::Waiting);
    assert_eq!(rooms.set_state(id, &s("alice"), RoomState::Playing), Ok(()));
    assert_eq!(rooms.find(id).unwrap().room_state, RoomState::Playing);
    assert_eq!(rooms.set_state(id, &s("alice"), RoomState::Waiting), Ok(()));
    assert_eq!(rooms.find(id).unwrap().room_state, RoomState::Waiting);
}

#[test]
fn set_room_state_replies() {
    let (mut rooms, id) = registry_with_room();
    let denied = handle_set_room_state(
        &mut rooms,
        SetRoomStateMessage {
            timestamp: 3,
            room_id: id,
            player_name: s("mallory"),
            target_room_state: RoomState::Paused,
            success: true,
        },
    )
    .unwrap();
    assert!(!denied.success);
    assert_eq!(rooms.find(id).unwrap().room_state, RoomState::Waiting);
    let granted = handle_set_room_state(
        &mut rooms,
        SetRoomStateMessage {
            timestamp: 4,
            room_id: id,
            player_name: s("alice"),
            target_room_state: RoomState::Paused,
            success: false,
        },
    )
    .unwrap();
    assert!(granted.success);
    assert_eq!(granted.timestamp, 4);
    assert_eq!(granted.target_room_state, RoomState::Paused);
    assert_eq!(rooms.find(id).unwrap().room_state, RoomState::Paused);
    let missing = handle_set_room_state(
        &mut rooms,
        SetRoomStateMessage {
            timestamp: 5,
            room_id: 1,
            player_name: s("alice"),
            target_room_state: RoomState::Playing,
            success: false,
        },
    );
    assert!(missing.is_none());
}

#[test]
fn set_role_targets_the_requesting_client() {
    let (mut rooms, id) = registry_with_room();
    rooms.join(id, s("bob"), &s("pw"), 12).unwrap();
    assert_eq!(rooms.set_role(id, 12, PlayerRole::Participant), Ok(()));
    let room = rooms.find(id).unwrap();
    assert_eq!(room.players[0].player_role, PlayerRole::Spectator);
    assert_eq!(room.players[1].player_role, PlayerRole::Participant);
    assert_eq!(
        rooms.set_role(id, 99, PlayerRole::Participant),
        Err(RoomError::PlayerNotFound)
    );
    assert_eq!(
        rooms.set_role(id + 1, 12, PlayerRole::Spectator),
        Err(RoomError::RoomNotFound)
    );
}

#[test]
fn switch_player_role_replies() {
    let (mut rooms, id) = registry_with_room();
    let ok = handle_switch_player_role(
        &mut rooms,
        SwitchPlayerRoleMessage {
            timestamp: 8,
            room_id: id,
            target_player_role: PlayerRole::Participant,
            success: false,
        },
        11,
    )
    .unwrap();
    assert!(ok.success);
    assert_eq!(ok.target_player_role, PlayerRole::Participant);
    assert_eq!(rooms.find(id).unwrap().players[0].player_role, PlayerRole::Participant);
    let stranger = handle_switch_player_role(
        &mut rooms,
        SwitchPlayerRoleMessage {
            timestamp: 9,
            room_id: id,
            target_player_role: PlayerRole::Spectator,
            success: false,
        },
        500,
    )
    .unwrap();
    assert!(!stranger.success);
    assert_eq!(rooms.find(id).unwrap().players[0].player_role, PlayerRole::Participant);
    let missing = handle_switch_player_role(
        &mut rooms,
        SwitchPlayerRoleMessage {
            timestamp: 10,
            room_id: 3,
            target_player_role: PlayerRole::Spectator,
            success: false,
        },
        11,
    );
    assert!(missing.is_none());
}

#[test]
fn contains_player_matches_names() {
    let (mut rooms, id) = registry_with_room();
    rooms.join(id, s("bob"), &s("pw"), 12).unwrap();
    let room = rooms.find(id).unwrap();
    assert!(room.contains_player("alice"));
    assert!(room.contains_player("bob"));
    assert!(!room.contains_player("carol"));
    assert!(!room.contains_player(""));
}

#[test]
fn room_dto_carries_no_password_and_counts_members() {
    let (mut rooms, id) = registry_with_room();
    rooms.join(id, s("bob"), &s("pw"), 12).unwrap();
    rooms.join(id, s("carol"), &s("pw"), 13).unwrap();
    let dto = rooms.find(id).unwrap().to_dto();
    assert_eq!(dto.player_count, 3);
    assert_eq!(dto.room_name, "table");
    assert_eq!(dto.owner_name, "alice");
}

#[test]
fn room_info_broadcast_goes_to_every_member_on_cadence() {
    let (mut rooms, id) = registry_with_room();
    rooms.join(id, s("bob"), &s("pw"), 12).unwrap();
    let second = rooms.create(s("other"), s(""), s("zed"), 20, 1);
    let mut cd = Cooldown::new(5_000_000);
    let out = broadcast_room_info(&rooms, &mut cd, 16_000, 700);
    assert_eq!(out.len(), 2);
    assert_eq!(out[0].recipients, vec![11, 12]);
    assert_eq!(out[0].message.timestamp, 700);
    assert_eq!(out[0].message.room_id, id);
    assert_eq!(out[0].message.room_name, "table");
    assert_eq!(out[0].message.room_state, RoomState::Waiting);
    assert_eq!(out[0].message.players.len(), 2);
    assert_eq!(out[0].message.players[1].player_name, "bob");
    assert_eq!(out[1].recipients, vec![20]);
    assert_eq!(out[1].message.room_id, second);
    assert!(broadcast_room_info(&rooms, &mut cd, 4_000_000, 701).is_empty());
    assert!(broadcast_room_info(&rooms, &mut cd, 1_000_000, 702).is_empty());
    assert_eq!(broadcast_room_info(&rooms, &mut cd, 1, 703).len(), 2);
}
