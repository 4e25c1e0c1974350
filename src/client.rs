//! The client's reconciler: per-kind correlation tokens, the requests it
//! stamps, and the caches it overwrites from accepted responses and
//! broadcasts.
//!
//! A response is applied only when its token equals the last token sent for
//! its action; a broadcast only when its token is greater than the last one
//! applied for its kind. Nothing is changed speculatively.

use vstd::prelude::*;
use crate::channel::{
    Action, BroadcastPlayInfoMessage, BroadcastRoomInfoMessage, CreateRoomMessage,
    EnterRoomMessage, GetRoomsMessage, SetRoomStateMessage, SwitchPlayerRoleMessage,
};
use crate::common::{players_view, Player, PlayerRole, RoomDTO, RoomState, Round};
use crate::play::{first_name, lemma_first_name_unique};
use crate::room::has_name;
use crate::schedule::Cooldown;

verus! {

/// Which screen the client shows.
#[derive(Debug, Clone, Copy, PartialEq, Eq, Structural)]
pub enum AppState {
    Lobby,
    Gaming,
}

impl Default for AppState {
    fn default() -> (r: AppState)
        ensures
            r == AppState::Lobby,
    {
        AppState::Lobby
    }
}

/// A kind of broadcast, filtered by freshness of its token.
#[derive(Debug, Clone, Copy, PartialEq, Eq, Structural)]
pub enum BroadcastKind {
    RoomInfo,
    PlayInfo,
}

/// The last token sent per action and the last token applied per broadcast
/// kind; `None` before the first.
#[derive(Debug, Clone, Copy, PartialEq, Eq, Structural)]
pub struct CorrelationTokens {
    pub get_rooms: Option<u64>,
    pub create_room: Option<u64>,
    pub enter_room: Option<u64>,
    pub switch_player_role: Option<u64>,
    pub set_room_state: Option<u64>,
    pub room_info: Option<u64>,
    pub play_info: Option<u64>,
}

/// `token` is newer than the last applied one.
pub open spec fn is_fresh(last: Option<u64>, token: u64) -> bool {
    match last {
        Some(t) => token > t,
        None => true,
    }
}

impl CorrelationTokens {
    pub open spec fn last_sent(self, action: Action) -> Option<u64> {
        match action {
            Action::GetRooms => self.get_rooms,
            Action::CreateRoom => self.create_room,
            Action::EnterRoom => self.enter_room,
            Action::SwitchPlayerRole => self.switch_player_role,
            Action::SetRoomState => self.set_room_state,
        }
    }

    pub open spec fn last_applied(self, kind: BroadcastKind) -> Option<u64> {
        match kind {
            BroadcastKind::RoomInfo => self.room_info,
            BroadcastKind::PlayInfo => self.play_info,
        }
    }

    /// A response to `action` stamped `token` is the awaited one.
    pub open spec fn awaits(self, action: Action, token: u64) -> bool {
        self.last_sent(action) == Some(token)
    }

    /// No token sent or applied yet.
    pub fn new() -> (r: CorrelationTokens)
        ensures
            forall|a: Action| #[trigger] r.last_sent(a) is None,
            forall|k: BroadcastKind| #[trigger] r.last_applied(k) is None,
    {
        CorrelationTokens {
            get_rooms: None,
            create_room: None,
            enter_room: None,
            switch_player_role: None,
            set_room_state: None,
            room_info: None,
            play_info: None,
        }
    }

    /// Records `token` as the last one sent for `action`.
    pub fn record_sent(&mut self, action: Action, token: u64)
        ensures
            final(self).last_sent(action) == Some(token),
            forall|a: Action| a != action ==> #[trigger] final(self).last_sent(a) == old(self).last_sent(a),
            forall|k: BroadcastKind| #[trigger] final(self).last_applied(k) == old(self).last_applied(k),
    {
        match action {
            Action::GetRooms => self.get_rooms = Some(token),
            Action::CreateRoom => self.create_room = Some(token),
            Action::EnterRoom => self.enter_room = Some(token),
            Action::SwitchPlayerRole => self.switch_player_role = Some(token),
            Action::SetRoomState => self.set_room_state = Some(token),
        }
    }

    /// Whether a response to `action` stamped `token` answers the last
    /// request sent for it.
    pub fn response_matches(&self, action: Action, token: u64) -> (r: bool)
        ensures
            r == self.awaits(action, token),
    {
        let last = match action {
            Action::GetRooms => self.get_rooms,
            Action::CreateRoom => self.create_room,
            Action::EnterRoom => self.enter_room,
            Action::SwitchPlayerRole => self.switch_player_role,
            Action::SetRoomState => self.set_room_state,
        };
        match last {
            Some(t) => t == token,
            None => false,
        }
    }

    /// Accepts a broadcast of `kind` stamped `token` when it is fresh, and
    /// then records the token as the last applied one.
    pub fn accept_broadcast(&mut self, kind: BroadcastKind, token: u64) -> (r: bool)
        ensures
            r == is_fresh(old(self).last_applied(kind), token),
            final(self).last_applied(kind) == if r {
                Some(token)
            } else {
                old(self).last_applied(kind)
            },
            forall|k: BroadcastKind| k != kind ==> #[trigger] final(self).last_applied(k) == old(self).last_applied(k),
            forall|a: Action| #[trigger] final(self).last_sent(a) == old(self).last_sent(a),
    {
        let last = match kind {
            BroadcastKind::RoomInfo => self.room_info,
            BroadcastKind::PlayInfo => self.play_info,
        };
        let fresh = match last {
            Some(t) => token > t,
            None => true,
        };
        if fresh {
            match kind {
                BroadcastKind::RoomInfo => self.room_info = Some(token),
                BroadcastKind::PlayInfo => self.play_info = Some(token),
            }
        }
        fresh
    }
}

/// Stale traffic is ignored: once the token `sent` is the last one sent for
/// an action, a response stamped with any other token does not match; once
/// `last` is the last token applied for a broadcast kind, a broadcast stamped
/// `last` or earlier is not fresh, and one stamped later is.
pub proof fn lemma_stale_tokens_ignored(
    tokens: CorrelationTokens,
    action: Action,
    sent: u64,
    kind: BroadcastKind,
    last: u64,
    token: u64,
)
    requires
        tokens.last_sent(action) == Some(sent),
        tokens.last_applied(kind) == Some(last),
    ensures
        tokens.awaits(action, token) <==> token == sent,
        is_fresh(tokens.last_applied(kind), token) <==> token > last,
{
}

/// The client's cache of the room listing.
#[derive(Debug)]
pub struct RoomList(pub Vec<RoomDTO>);

/// The client's display name.
#[derive(Debug)]
pub struct PlayerName(pub String);

/// Name and password of the room the client is about to create.
#[derive(Debug)]
pub struct NewRoomSettings {
    pub room_name: String,
    pub room_password: String,
}

/// The user asked to create a room with the current [`NewRoomSettings`].
#[derive(Debug)]
pub struct CreateRoomEvent;

/// The user asked to join a room.
#[derive(Debug)]
pub struct EnterRoomEvent {
    pub room_id: u64,
    pub room_password: String,
}

/// The user asked to switch role in a room.
#[derive(Debug)]
pub struct SwitchPlayerRoleEvent {
    pub room_id: u64,
    pub target_player_role: PlayerRole,
}

/// The user asked to change the state of the current room.
#[derive(Debug)]
pub struct SetRoomStateEvent {
    pub target_room_state: RoomState,
}

/// The client's cache of the room it is in.
#[derive(Debug)]
pub struct CurrentRoomInfo {
    pub room_id: u64,
    pub room_state: RoomState,
    /// The client's own role, derived from the member list by name.
    pub my_role: PlayerRole,
    pub players: Vec<Player>,
}

/// The client's cache of the play in its room.
#[derive(Debug)]
pub struct CurrentPlayInfo {
    pub play_id: Option<u64>,
    pub room_id: u64,
    pub round: Round,
    pub participants: Vec<Player>,
}

/// The client's role as read from `players` by name: the role of the first
/// member called `name`, or `fallback` where none is.
pub open spec fn role_by_name(
    players: Seq<crate::common::PlayerView>,
    name: Seq<char>,
    fallback: PlayerRole,
) -> PlayerRole {
    if has_name(players, name) {
        players[first_name(players, name)].role
    } else {
        fallback
    }
}

fn find_role(players: &Vec<Player>, name: &String, fallback: PlayerRole) -> (r: PlayerRole)
    ensures
        r == role_by_name(players_view(players@), name@, fallback),
{
    let ghost ps = players_view(players@);
    let mut i: usize = 0;
    while i < players.len()
        invariant
            ps == players_view(players@),
            i <= players@.len(),
            forall|j: int| 0 <= j < i ==> #[trigger] ps[j].name != name@,
        decreases players@.len() - i,
    {
        if players[i].player_name == *name {
            proof {
                lemma_first_name_unique(ps, name@, i as int);
            }
            return players[i].player_role;
        }
        i = i + 1;
    }
    assert(!has_name(ps, name@));
    fallback
}

impl CurrentRoomInfo {
    /// An empty cache: no room, `Waiting`, spectator, no members.
    pub fn new() -> (r: CurrentRoomInfo)
        ensures
            r.room_id == 0,
            r.room_state == RoomState::Waiting,
            r.my_role == PlayerRole::Spectator,
            r.players@.len() == 0,
    {
        CurrentRoomInfo {
            room_id: 0,
            room_state: RoomState::Waiting,
            my_role: PlayerRole::Spectator,
            players: Vec::new(),
        }
    }

    /// Whether a member of the cached room is called `player_name`.
    pub fn contains_player(&self, player_name: &str) -> (r: bool)
        ensures
            r == has_name(players_view(self.players@), player_name@),
    {
        let target = player_name.to_owned();
        let ghost ps = players_view(self.players@);
        let mut i: usize = 0;
        while i < self.players.len()
            invariant
                ps == players_view(self.players@),
                target@ == player_name@,
                i <= self.players@.len(),
                forall|j: int| 0 <= j < i ==> #[trigger] ps[j].name != player_name@,
            decreases self.players@.len() - i,
        {
            if self.players[i].player_name == target {
                assert(ps[i as int].name == player_name@);
                return true;
            }
            i = i + 1;
        }
        false
    }
}

impl CurrentPlayInfo {
    /// An empty cache: no play.
    pub fn new() -> (r: CurrentPlayInfo)
        ensures
            r.play_id is None,
            r.room_id == 0,
            r.round == Round::Start,
            r.participants@.len() == 0,
    {
        CurrentPlayInfo { play_id: None, room_id: 0, round: Round::Start, participants: Vec::new() }
    }
}

/// Advances the room-list poller by `elapsed_us`; when it fires, returns a
/// room-list request stamped `timestamp` and records the token. The poller
/// does not wait for the answer to an earlier request.
pub fn get_rooms(
    tokens: &mut CorrelationTokens,
    refresh_cd: &mut Cooldown,
    elapsed_us: u64,
    timestamp: u64,
) -> (r: Option<GetRoomsMessage>)
    ensures
        final(refresh_cd).period_us == old(refresh_cd).period_us,
        r is Some == (elapsed_us > old(refresh_cd).remaining_us),
        r matches Some(m) ==> m.timestamp == timestamp && m.rooms@.len() == 0,
        r is Some ==> {
            &&& final(refresh_cd).remaining_us == old(refresh_cd).period_us
            &&& final(tokens).last_sent(Action::GetRooms) == Some(timestamp)
            &&& forall|a: Action|
                a != Action::GetRooms ==> #[trigger] final(tokens).last_sent(a) == old(tokens).last_sent(a)
            &&& forall|k: BroadcastKind| #[trigger] final(tokens).last_applied(k) == old(tokens).last_applied(k)
        },
        r is None ==> {
            &&& final(refresh_cd).remaining_us == old(refresh_cd).remaining_us - elapsed_us
            &&& *final(tokens) == *old(tokens)
        },
{
    if refresh_cd.tick(elapsed_us) {
        tokens.record_sent(Action::GetRooms, timestamp);
        Some(GetRoomsMessage { timestamp, rooms: Vec::new() })
    } else {
        None
    }
}

/// Replaces the room listing with the one in the response, where the
/// response answers the last room-list request. Returns whether it did.
pub fn receive_get_rooms(
    tokens: &CorrelationTokens,
    room_list: &mut RoomList,
    message: GetRoomsMessage,
) -> (applied: bool)
    ensures
        applied == tokens.awaits(Action::GetRooms, message.timestamp),
        final(room_list).0@ == if applied {
            message.rooms@
        } else {
            old(room_list).0@
        },
{
    if tokens.response_matches(Action::GetRooms, message.timestamp) {
        room_list.0 = message.rooms;
        true
    } else {
        false
    }
}

/// A room-creation request stamped `timestamp`; records the token.
pub fn create_room(
    tokens: &mut CorrelationTokens,
    new_room_settings: &NewRoomSettings,
    player_name: &PlayerName,
    timestamp: u64,
) -> (r: CreateRoomMessage)
    ensures
        r.timestamp == timestamp,
        r.room_name@ == new_room_settings.room_name@,
        r.room_password@ == new_room_settings.room_password@,
        r.player_name@ == player_name.0@,
        r.room_id == 0,
        final(tokens).last_sent(Action::CreateRoom) == Some(timestamp),
        forall|a: Action|
            a != Action::CreateRoom ==> #[trigger] final(tokens).last_sent(a) == old(tokens).last_sent(a),
        forall|k: BroadcastKind| #[trigger] final(tokens).last_applied(k) == old(tokens).last_applied(k),
{
    tokens.record_sent(Action::CreateRoom, timestamp);
    CreateRoomMessage {
        timestamp,
        room_name: new_room_settings.room_name.clone(),
        room_password: new_room_settings.room_password.clone(),
        player_name: player_name.0.clone(),
        room_id: 0,
    }
}

/// Enters the created room, where the response answers the last creation
/// request. Returns whether it did.
pub fn receive_create_room(
    tokens: &CorrelationTokens,
    current_room_info: &mut CurrentRoomInfo,
    app_state: &mut AppState,
    message: CreateRoomMessage,
) -> (applied: bool)
    ensures
        applied == tokens.awaits(Action::CreateRoom, message.timestamp),
        applied ==> final(current_room_info).room_id == message.room_id,
        applied ==> *final(app_state) == AppState::Gaming,
        !applied ==> final(current_room_info).room_id == old(current_room_info).room_id,
        !applied ==> *final(app_state) == *old(app_state),
        final(current_room_info).room_state == old(current_room_info).room_state,
        final(current_room_info).my_role == old(current_room_info).my_role,
        final(current_room_info).players@ == old(current_room_info).players@,
{
    if tokens.response_matches(Action::CreateRoom, message.timestamp) {
        current_room_info.room_id = message.room_id;
        *app_state = AppState::Gaming;
        true
    } else {
        false
    }
}

/// A join request stamped `timestamp`; records the token.
pub fn enter_room(
    tokens: &mut CorrelationTokens,
    event: &EnterRoomEvent,
    player_name: &PlayerName,
    timestamp: u64,
) -> (r: EnterRoomMessage)
    ensures
        r.timestamp == timestamp,
        r.room_id == event.room_id,
        r.room_password@ == event.room_password@,
        r.player_name@ == player_name.0@,
        !r.success,
        final(tokens).last_sent(Action::EnterRoom) == Some(timestamp),
        forall|a: Action|
            a != Action::EnterRoom ==> #[trigger] final(tokens).last_sent(a) == old(tokens).last_sent(a),
        forall|k: BroadcastKind| #[trigger] final(tokens).last_applied(k) == old(tokens).last_applied(k),
{
    tokens.record_sent(Action::EnterRoom, timestamp);
    EnterRoomMessage {
        timestamp,
        room_id: event.room_id,
        room_password: event.room_password.clone(),
        player_name: player_name.0.clone(),
        success: false,
    }
}

/// Enters the joined room, where the response answers the last join request
/// and reports success. Returns whether it did.
pub fn receive_enter_room(
    tokens: &CorrelationTokens,
    current_room_info: &mut CurrentRoomInfo,
    app_state: &mut AppState,
    message: EnterRoomMessage,
) -> (applied: bool)
    ensures
        applied == (tokens.awaits(Action::EnterRoom, message.timestamp) && message.success),
        applied ==> final(current_room_info).room_id == message.room_id,
        applied ==> *final(app_state) == AppState::Gaming,
        !applied ==> final(current_room_info).room_id == old(current_room_info).room_id,
        !applied ==> *final(app_state) == *old(app_state),
        final(current_room_info).room_state == old(current_room_info).room_state,
        final(current_room_info).my_role == old(current_room_info).my_role,
        final(current_room_info).players@ == old(current_room_info).players@,
{
    if tokens.response_matches(Action::EnterRoom, message.timestamp) && message.success {
        current_room_info.room_id = message.room_id;
        *app_state = AppState::Gaming;
        true
    } else {
        false
    }
}

/// A role-switch request stamped `timestamp`; records the token.
pub fn switch_player_role(
    tokens: &mut CorrelationTokens,
    event: &SwitchPlayerRoleEvent,
    timestamp: u64,
) -> (r: SwitchPlayerRoleMessage)
    ensures
        r.timestamp == timestamp,
        r.room_id == event.room_id,
        r.target_player_role == event.target_player_role,
        !r.success,
        final(tokens).last_sent(Action::SwitchPlayerRole) == Some(timestamp),
        forall|a: Action|
            a != Action::SwitchPlayerRole ==> #[trigger] final(tokens).last_sent(a)
                == old(tokens).last_sent(a),
        forall|k: BroadcastKind| #[trigger] final(tokens).last_applied(k) == old(tokens).last_applied(k),
{
    tokens.record_sent(Action::SwitchPlayerRole, timestamp);
    SwitchPlayerRoleMessage {
        timestamp,
        room_id: event.room_id,
        target_player_role: event.target_player_role,
        success: false,
    }
}

/// Takes the new role, where the response answers the last role-switch
/// request and reports success. Returns whether it did.
pub fn receive_switch_player_role(
    tokens: &CorrelationTokens,
    current_room_info: &mut CurrentRoomInfo,
    message: SwitchPlayerRoleMessage,
) -> (applied: bool)
    ensures
        applied == (tokens.awaits(Action::SwitchPlayerRole, message.timestamp) && message.success),
        final(current_room_info).my_role == if applied {
            message.target_player_role
        } else {
            old(current_room_info).my_role
        },
        final(current_room_info).room_id == old(current_room_info).room_id,
        final(current_room_info).room_state == old(current_room_info).room_state,
        final(current_room_info).players@ == old(current_room_info).players@,
{
    if tokens.response_matches(Action::SwitchPlayerRole, message.timestamp) && message.success {
        current_room_info.my_role = message.target_player_role;
        true
    } else {
        false
    }
}

/// A room-state request for the current room, stamped `timestamp`; records
/// the token.
pub fn set_room_state(
    tokens: &mut CorrelationTokens,
    event: &SetRoomStateEvent,
    current_room_info: &CurrentRoomInfo,
    player_name: &PlayerName,
    timestamp: u64,
) -> (r: SetRoomStateMessage)
    ensures
        r.timestamp == timestamp,
        r.room_id == current_room_info.room_id,
        r.player_name@ == player_name.0@,
        r.target_room_state == event.target_room_state,
        !r.success,
        final(tokens).last_sent(Action::SetRoomState) == Some(timestamp),
        forall|a: Action|
            a != Action::SetRoomState ==> #[trigger] final(tokens).last_sent(a) == old(tokens).last_sent(a),
        forall|k: BroadcastKind| #[trigger] final(tokens).last_applied(k) == old(tokens).last_applied(k),
{
    tokens.record_sent(Action::SetRoomState, timestamp);
    SetRoomStateMessage {
        timestamp,
        room_id: current_room_info.room_id,
        player_name: player_name.0.clone(),
        target_room_state: event.target_room_state,
        success: false,
    }
}

/// Takes the new room state, where the response answers the last room-state
/// request and reports success. Returns whether it did.
pub fn receive_set_room_state(
    tokens: &CorrelationTokens,
    current_room_info: &mut CurrentRoomInfo,
    message: SetRoomStateMessage,
) -> (applied: bool)
    ensures
        applied == (tokens.awaits(Action::SetRoomState, message.timestamp) && message.success),
        final(current_room_info).room_state == if applied {
            message.target_room_state
        } else {
            old(current_room_info).room_state
        },
        final(current_room_info).room_id == old(current_room_info).room_id,
        final(current_room_info).my_role == old(current_room_info).my_role,
        final(current_room_info).players@ == old(current_room_info).players@,
{
    if tokens.response_matches(Action::SetRoomState, message.timestamp) && message.success {
        current_room_info.room_state = message.target_room_state;
        true
    } else {
        false
    }
}

/// Overwrites the room cache with a fresh snapshot and re-derives the
/// client's role from the new member list by name. A stale or repeated
/// snapshot changes nothing. Returns whether it was applied.
pub fn receive_room_info(
    tokens: &mut CorrelationTokens,
    current_room_info: &mut CurrentRoomInfo,
    player_name: &PlayerName,
    message: BroadcastRoomInfoMessage,
) -> (applied: bool)
    ensures
        applied == is_fresh(old(tokens).last_applied(BroadcastKind::RoomInfo), message.timestamp),
        final(tokens).last_applied(BroadcastKind::RoomInfo) == if applied {
            Some(message.timestamp)
        } else {
            old(tokens).last_applied(BroadcastKind::RoomInfo)
        },
        final(tokens).last_applied(BroadcastKind::PlayInfo)
            == old(tokens).last_applied(BroadcastKind::PlayInfo),
        forall|a: Action| #[trigger] final(tokens).last_sent(a) == old(tokens).last_sent(a),
        applied ==> {
            &&& final(current_room_info).room_id == message.room_id
            &&& final(current_room_info).room_state == message.room_state
            &&& final(current_room_info).players@ == message.players@
            &&& final(current_room_info).my_role == role_by_name(
                players_view(message.players@),
                player_name.0@,
                old(current_room_info).my_role,
            )
        },
        !applied ==> {
            &&& final(current_room_info).room_id == old(current_room_info).room_id
            &&& final(current_room_info).room_state == old(current_room_info).room_state
            &&& final(current_room_info).players@ == old(current_room_info).players@
            &&& final(current_room_info).my_role == old(current_room_info).my_role
        },
{
    if tokens.accept_broadcast(BroadcastKind::RoomInfo, message.timestamp) {
        current_room_info.my_role = find_role(
            &message.players,
            &player_name.0,
            current_room_info.my_role,
        );
        current_room_info.room_id = message.room_id;
        current_room_info.room_state = message.room_state;
        current_room_info.players = message.players;
        true
    } else {
        false
    }
}

/// Overwrites the play cache with a fresh snapshot; a stale or repeated one
/// changes nothing. Returns whether it was applied.
pub fn receive_play_info(
    tokens: &mut CorrelationTokens,
    current_play_info: &mut CurrentPlayInfo,
    message: BroadcastPlayInfoMessage,
) -> (applied: bool)
    ensures
        applied == is_fresh(old(tokens).last_applied(BroadcastKind::PlayInfo), message.timestamp),
        final(tokens).last_applied(BroadcastKind::PlayInfo) == if applied {
            Some(message.timestamp)
        } else {
            old(tokens).last_applied(BroadcastKind::PlayInfo)
        },
        final(tokens).last_applied(BroadcastKind::RoomInfo)
            == old(tokens).last_applied(BroadcastKind::RoomInfo),
        forall|a: Action| #[trigger] final(tokens).last_sent(a) == old(tokens).last_sent(a),
        applied ==> {
            &&& final(current_play_info).play_id == Some(message.play_id)
            &&& final(current_play_info).room_id == message.room_id
            &&& final(current_play_info).round == message.round
            &&& final(current_play_info).participants@ == message.participants@
        },
        !applied ==> {
            &&& final(current_play_info).play_id == old(current_play_info).play_id
            &&& final(current_play_info).room_id == old(current_play_info).room_id
            &&& final(current_play_info).round == old(current_play_info).round
            &&& final(current_play_info).participants@ == old(current_play_info).participants@
        },
{
    if tokens.accept_broadcast(BroadcastKind::PlayInfo, message.timestamp) {
        current_play_info.play_id = Some(message.play_id);
        current_play_info.room_id = message.room_id;
        current_play_info.round = message.round;
        current_play_info.participants = message.participants;
        true
    } else {
        false
    }
}

} // verus!
