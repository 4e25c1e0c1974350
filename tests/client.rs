use texas_holdem::channel::{
    Action, BroadcastPlayInfoMessage, BroadcastRoomInfoMessage, CreateRoomMessage,
    EnterRoomMessage, GetRoomsMessage, SetRoomStateMessage, SwitchPlayerRoleMessage,
};
use texas_holdem::client::{
    create_room, enter_room, get_rooms, receive_create_room, receive_enter_room,
    receive_get_rooms, receive_play_info, receive_room_info, receive_set_room_state,
    receive_switch_player_role, set_room_state, switch_player_role, AppState, BroadcastKind,
    CorrelationTokens, CurrentPlayInfo, CurrentRoomInfo, EnterRoomEvent, NewRoomSettings,
    PlayerName, RoomList, SetRoomStateEvent, SwitchPlayerRoleEvent,
};
use texas_holdem::common::{Player, PlayerRole, RoomDTO, RoomState, Round};
use texas_holdem::schedule::Cooldown;

fn player(id: u64, name: &str, role: PlayerRole) -> Player {
    Player { player_client_id: id, player_name: name.to_string(), player_role: role, chips: 0 }
}

fn dto(id: u64) -> RoomDTO {
    RoomDTO {
        room_id: id,
        room_name: format!("r{}", id),
        room_state: RoomState::Waiting,
        owner_name: "o".to_string(),
        player_count: 1,
    }
}

#[test]
fn tokens_start_empty_and_match_exactly() {
    let mut tokens = CorrelationTokens::new();
    assert!(!tokens.response_matches(Action::CreateRoom, 0));
    tokens.record_sent(Action::CreateRoom, 100);
    assert!(tokens.response_matches(Action::CreateRoom, 100));
    assert!(!tokens.response_matches(Action::CreateRoom, 101));
    assert!(!tokens.response_matches(Action::CreateRoom, 99));
    assert!(!tokens.response_matches(Action::EnterRoom, 100));
    tokens.record_sent(Action::CreateRoom, 200);
    assert!(!tokens.response_matches(Action::CreateRoom, 100));
}

#[test]
fn broadcasts_apply_only_when_strictly_newer() {
    let mut tokens = CorrelationTokens::new();
    assert!(tokens.accept_broadcast(BroadcastKind::RoomInfo, 0));
    assert!(tokens.accept_broadcast(BroadcastKind::RoomInfo, 10));
    assert!(!tokens.accept_broadcast(BroadcastKind::RoomInfo, 10));
    assert!(!tokens.accept_broadcast(BroadcastKind::RoomInfo, 9));
    assert!(tokens.accept_broadcast(BroadcastKind::RoomInfo, 11));
    assert_eq!(tokens.room_info, Some(11));
    assert!(tokens.accept_broadcast(BroadcastKind::PlayInfo, 5));
    assert_eq!(tokens.play_info, Some(5));
}

#[test]
fn room_list_poll_refreshes_on_matching_response() {
    let mut tokens = CorrelationTokens::new();
    let mut cd = Cooldown::new(5_000_000);
    let mut list = RoomList(Vec::new());
    let request = get_rooms(&mut tokens, &mut cd, 16_000, 40).unwrap();
    assert_eq!(request.timestamp, 40);
    assert!(request.rooms.is_empty());
    assert!(get_rooms(&mut tokens, &mut cd, 16_000, 41).is_none());
    let stale = GetRoomsMessage { timestamp: 39, rooms: vec![dto(1)] };
    assert!(!receive_get_rooms(&tokens, &mut list, stale));
    assert!(list.0.is_empty());
    let fresh = GetRoomsMessage { timestamp: 40, rooms: vec![dto(1), dto(2)] };
    assert!(receive_get_rooms(&tokens, &mut list, fresh));
    assert_eq!(list.0.len(), 2);
    assert_eq!(list.0[1].room_id, 2);
}

#[test]
fn create_room_response_enters_the_room() {
    let mut tokens = CorrelationTokens::new();
    let settings = NewRoomSettings { room_name: "t".to_string(), room_password: "p".to_string() };
    let name = PlayerName("alice".to_string());
    let request = create_room(&mut tokens, &settings, &name, 300);
    assert_eq!(request.timestamp, 300);
    assert_eq!(request.room_name, "t");
    assert_eq!(request.room_password, "p");
    assert_eq!(request.player_name, "alice");
    let mut info = CurrentRoomInfo::new();
    let mut state = AppState::default();
    let old = CreateRoomMessage { room_id: 5, timestamp: 299, ..request };
    assert!(!receive_create_room(&tokens, &mut info, &mut state, old));
    assert_eq!(state, AppState::Lobby);
    assert_eq!(info.room_id, 0);
    let reply = CreateRoomMessage {
        timestamp: 300,
        room_name: "t".to_string(),
        room_password: "p".to_string(),
        player_name: "alice".to_string(),
        room_id: 1234,
    };
    assert!(receive_create_room(&tokens, &mut info, &mut state, reply));
    assert_eq!(state, AppState::Gaming);
    assert_eq!(info.room_id, 1234);
}

#[test]
fn enter_room_needs_matching_token_and_success() {
    let mut tokens = CorrelationTokens::new();
    let event = EnterRoomEvent { room_id: 8, room_password: "p".to_string() };
    let name = PlayerName("bob".to_string());
    let request = enter_room(&mut tokens, &event, &name, 50);
    assert_eq!(request.room_id, 8);
    assert_eq!(request.player_name, "bob");
    assert!(!request.success);
    let mut info = CurrentRoomInfo::new();
    let mut state = AppState::Lobby;
    let failed = EnterRoomMessage { success: false, ..request };
    assert!(!receive_enter_room(&tokens, &mut info, &mut state, failed));
    assert_eq!(state, AppState::Lobby);
    let mismatched = EnterRoomMessage {
        timestamp: 51,
        room_id: 8,
        room_password: "p".to_string(),
        player_name: "bob".to_string(),
        success: true,
    };
    assert!(!receive_enter_room(&tokens, &mut info, &mut state, mismatched));
    assert_eq!(state, AppState::Lobby);
    let ok = EnterRoomMessage {
        timestamp: 50,
        room_id: 8,
        room_password: "p".to_string(),
        player_name: "bob".to_string(),
        success: true,
    };
    assert!(receive_enter_room(&tokens, &mut info, &mut state, ok));
    assert_eq!(state, AppState::Gaming);
    assert_eq!(info.room_id, 8);
}

#[test]
fn switch_role_response_sets_my_role() {
    let mut tokens = CorrelationTokens::new();
    let event = SwitchPlayerRoleEvent { room_id: 3, target_player_role: PlayerRole::Participant };
    let request = switch_player_role(&mut tokens, &event, 70);
    assert_eq!(request.room_id, 3);
    assert_eq!(request.target_player_role, PlayerRole::Participant);
    let mut info = CurrentRoomInfo::new();
    let superseded = switch_player_role(&mut tokens, &event, 71);
    let stale = SwitchPlayerRoleMessage { success: true, ..request };
    assert!(!receive_switch_player_role(&tokens, &mut info, stale));
    assert_eq!(info.my_role, PlayerRole::Spectator);
    let ok = SwitchPlayerRoleMessage { success: true, ..superseded };
    assert!(receive_switch_player_role(&tokens, &mut info, ok));
    assert_eq!(info.my_role, PlayerRole::Participant);
}

#[test]
fn set_room_state_response_sets_state() {
    let mut tokens = CorrelationTokens::new();
    let mut info = CurrentRoomInfo::new();
    info.room_id = 12;
    let name = PlayerName("alice".to_string());
    let event = SetRoomStateEvent { target_room_state: RoomState::Playing };
    let request = set_room_state(&mut tokens, &event, &info, &name, 90);
    assert_eq!(request.room_id, 12);
    assert_eq!(request.player_name, "alice");
    assert_eq!(request.target_room_state, RoomState::Playing);
    let refused = SetRoomStateMessage {
        timestamp: 90,
        room_id: 12,
        player_name: "alice".to_string(),
        target_room_state: RoomState::Playing,
        success: false,
    };
    assert!(!receive_set_room_state(&tokens, &mut info, refused));
    assert_eq!(info.room_state, RoomState::Waiting);
    let ok = SetRoomStateMessage { success: true, ..request };
    assert!(receive_set_room_state(&tokens, &mut info, ok));
    assert_eq!(info.room_state, RoomState::Playing);
}

#[test]
fn room_info_overwrites_cache_and_rederives_role_by_name() {
    let mut tokens = CorrelationTokens::new();
    let mut info = CurrentRoomInfo::new();
    let me = PlayerName("bob".to_string());
    let first = BroadcastRoomInfoMessage {
        timestamp: 10,
        room_id: 4,
        room_name: "t".to_string(),
        room_state: RoomState::Playing,
        players: vec![
            player(1, "alice", PlayerRole::Spectator),
            player(2, "bob", PlayerRole::Participant),
        ],
    };
    assert!(receive_room_info(&mut tokens, &mut info, &me, first));
    assert_eq!(info.room_id, 4);
    assert_eq!(info.room_state, RoomState::Playing);
    assert_eq!(info.players.len(), 2);
    assert_eq!(info.my_role, PlayerRole::Participant);
    assert!(info.contains_player("alice"));
    assert!(!info.contains_player("carol"));
    let stale = BroadcastRoomInfoMessage {
        timestamp: 10,
        room_id: 4,
        room_name: "t".to_string(),
        room_state: RoomState::Paused,
        players: vec![],
    };
    assert!(!receive_room_info(&mut tokens, &mut info, &me, stale));
    assert_eq!(info.room_state, RoomState::Playing);
    assert_eq!(info.players.len(), 2);
    let newer = BroadcastRoomInfoMessage {
        timestamp: 11,
        room_id: 4,
        room_name: "t".to_string(),
        room_state: RoomState::Paused,
        players: vec![player(2, "bob", PlayerRole::Spectator)],
    };
    assert!(receive_room_info(&mut tokens, &mut info, &me, newer));
    assert_eq!(info.room_state, RoomState::Paused);
    assert_eq!(info.players.len(), 1);
    assert_eq!(info.my_role, PlayerRole::Spectator);
    let without_me = BroadcastRoomInfoMessage {
        timestamp: 12,
        room_id: 4,
        room_name: "t".to_string(),
        room_state: RoomState::Paused,
        players: vec![player(1, "alice", PlayerRole::Participant)],
    };
    assert!(receive_room_info(&mut tokens, &mut info, &me, without_me));
    assert_eq!(info.my_role, PlayerRole::Spectator);
}

#[test]
fn play_info_applies_only_newer_snapshots() {
    let mut tokens = CorrelationTokens::new();
    let mut play = CurrentPlayInfo::new();
    assert!(play.play_id.is_none());
    let snapshot = BroadcastPlayInfoMessage {
        timestamp: 20,
        room_id: 4,
        play_id: 99,
        round: Round::Preflop,
        participants: vec![player(1, "a", PlayerRole::Participant)],
    };
    assert!(receive_play_info(&mut tokens, &mut play, snapshot));
    assert_eq!(play.play_id, Some(99));
    assert_eq!(play.room_id, 4);
    assert_eq!(play.round, Round::Preflop);
    assert_eq!(play.participants.len(), 1);
    let older = BroadcastPlayInfoMessage {
        timestamp: 19,
        room_id: 4,
        play_id: 98,
        round: Round::Start,
        participants: vec![],
    };
    assert!(!receive_play_info(&mut tokens, &mut play, older));
    assert_eq!(play.play_id, Some(99));
    assert_eq!(play.round, Round::Preflop);
}
