//! The server's room registry and the room state machine.

use vstd::prelude::*;
use crate::common::{
    players_view, Player, PlayerRole, PlayerView, RoomDTO, RoomDTOView,
    RoomState,
};

verus! {

/// A hosted room.
#[derive(Debug)]
pub struct Room {
    /// Unique and fixed at creation.
    pub room_id: u64,
    pub room_name: String,
    /// Compared as plain text.
    pub room_password: String,
    pub room_state: RoomState,
    /// Name of the member allowed to change the room's state.
    pub owner_name: String,
    /// Members in order of arrival; names are unique.
    pub players: Vec<Player>,
    /// The member who dealt in the room's last play, if any.
    pub last_dealer_name: Option<String>,
}

/// Mathematical model of a [`Room`].
pub struct RoomView {
    pub room_id: u64,
    pub room_name: Seq<char>,
    pub room_password: Seq<char>,
    pub room_state: RoomState,
    pub owner_name: Seq<char>,
    pub players: Seq<PlayerView>,
    pub last_dealer_name: Option<Seq<char>>,
}

impl View for Room {
    type V = RoomView;

    open spec fn view(&self) -> RoomView {
        RoomView {
            room_id: self.room_id,
            room_name: self.room_name@,
            room_password: self.room_password@,
            room_state: self.room_state,
            owner_name: self.owner_name@,
            players: players_view(self.players@),
            last_dealer_name: match self.last_dealer_name {
                Some(n) => Some(n@),
                None => None,
            },
        }
    }
}

/// Some member of `players` is called `name`.
pub open spec fn has_name(players: Seq<PlayerView>, name: Seq<char>) -> bool {
    exists|i: int| 0 <= i < players.len() && #[trigger] players[i].name == name
}

/// No two members of `players` share a name.
pub open spec fn names_unique(players: Seq<PlayerView>) -> bool {
    forall|i: int, j: int|
        0 <= i < players.len() && 0 <= j < players.len() && i != j ==> #[trigger] players[i].name
            != #[trigger] players[j].name
}

impl Room {
    /// Whether a member of the room is called `player_name`.
    pub fn contains_player(&self, player_name: &str) -> (r: bool)
        ensures
            r == has_name(self@.players, player_name@),
    {
        let target = player_name.to_owned();
        let mut i: usize = 0;
        while i < self.players.len()
            invariant
                i <= self.players@.len(),
                target@ == player_name@,
                forall|j: int| 0 <= j < i ==> self@.players[j].name != player_name@,
            decreases self.players@.len() - i,
        {
            if self.players[i].player_name == target {
                assert(self@.players[i as int].name == player_name@);
                return true;
            }
            i = i + 1;
        }
        false
    }

    /// The room's listing.
    pub fn to_dto(&self) -> (r: RoomDTO)
        ensures
            r@ == room_dto(self@),
    {
        let n = self.players.len();
        let player_count: u32 = if n as u64 > u32::MAX as u64 {
            u32::MAX
        } else {
            n as u32
        };
        RoomDTO {
            room_id: self.room_id,
            room_name: self.room_name.clone(),
            room_state: self.room_state,
            owner_name: self.owner_name.clone(),
            player_count,
        }
    }
}

/// Why a request on the registry did not take effect.
#[derive(Debug, Clone, Copy, PartialEq, Eq, Structural)]
pub enum RoomError {
    /// No room has the requested identifier.
    RoomNotFound,
    /// The requesting client is not a member of the room.
    PlayerNotFound,
    /// Wrong password, or the name is already taken in the room.
    Rejected,
    /// The requester does not own the room.
    Unauthorized,
}

/// The registry of rooms, in order of creation.
#[derive(Debug)]
pub struct RoomList(pub Vec<Room>);

/// The models of a list of rooms.
pub open spec fn rooms_view(rooms: Seq<Room>) -> Seq<RoomView> {
    rooms.map_values(|r: Room| r@)
}

impl View for RoomList {
    type V = Seq<RoomView>;

    open spec fn view(&self) -> Seq<RoomView> {
        rooms_view(self.0@)
    }
}

/// Room identifiers increase strictly along the registry, so they are unique.
pub open spec fn ids_increasing(rooms: Seq<RoomView>) -> bool {
    forall|i: int, j: int|
        0 <= i < j < rooms.len() ==> #[trigger] rooms[i].room_id < #[trigger] rooms[j].room_id
}

/// Well-formed registry: unique room identifiers, unique names in each room.
pub open spec fn rooms_wf(rooms: Seq<RoomView>) -> bool {
    &&& ids_increasing(rooms)
    &&& forall|i: int| 0 <= i < rooms.len() ==> names_unique(#[trigger] rooms[i].players)
}

/// Some room has identifier `room_id`.
pub open spec fn has_room(rooms: Seq<RoomView>, room_id: u64) -> bool {
    exists|i: int| 0 <= i < rooms.len() && #[trigger] rooms[i].room_id == room_id
}

/// The room with identifier `room_id` (meaningful where `has_room` holds).
pub open spec fn room_with_id(rooms: Seq<RoomView>, room_id: u64) -> RoomView {
    rooms[choose|i: int| 0 <= i < rooms.len() && #[trigger] rooms[i].room_id == room_id]
}

/// In a registry with increasing identifiers, the room at an index that
/// carries `room_id` is the room with that identifier.
pub proof fn lemma_room_with_id(rooms: Seq<RoomView>, i: int)
    requires
        ids_increasing(rooms),
        0 <= i < rooms.len(),
    ensures
        has_room(rooms, rooms[i].room_id),
        room_with_id(rooms, rooms[i].room_id) == rooms[i],
{
    let id = rooms[i].room_id;
    assert(rooms[i].room_id == id);
    let j = choose|j: int| 0 <= j < rooms.len() && #[trigger] rooms[j].room_id == id;
    if j < i {
        assert(rooms[j].room_id < rooms[i].room_id);
    } else if i < j {
        assert(rooms[i].room_id < rooms[j].room_id);
    }
}

/// A fresh identifier can be allocated from `candidate`.
pub open spec fn can_allocate(rooms: Seq<RoomView>, candidate: u64) -> bool {
    rooms.len() == 0 || candidate > rooms.last().room_id || rooms.last().room_id < u64::MAX
}

/// The identifier given to the next room: the candidate token, or one past the
/// last identifier where the candidate would not exceed it.
pub open spec fn next_room_id(rooms: Seq<RoomView>, candidate: u64) -> u64 {
    if rooms.len() == 0 || candidate > rooms.last().room_id {
        candidate
    } else {
        (rooms.last().room_id + 1) as u64
    }
}

/// The room that `create` appends.
pub open spec fn created_room(
    room_id: u64,
    room_name: Seq<char>,
    room_password: Seq<char>,
    creator_name: Seq<char>,
    creator_client_id: u64,
) -> RoomView {
    RoomView {
        room_id,
        room_name,
        room_password,
        room_state: RoomState::Waiting,
        owner_name: creator_name,
        players: seq![
            PlayerView {
                client_id: creator_client_id,
                name: creator_name,
                role: PlayerRole::Spectator,
                chips: 0,
            },
        ],
        last_dealer_name: None,
    }
}

/// The registry with the room of identifier `room_id` replaced by `f` of it.
pub open spec fn update_room(
    rooms: Seq<RoomView>,
    room_id: u64,
    f: spec_fn(RoomView) -> RoomView,
) -> Seq<RoomView> {
    rooms.map_values(|r: RoomView| if r.room_id == room_id { f(r) } else { r })
}

/// A join into `room` under this name and password is let in.
pub open spec fn join_accepted(room: RoomView, player_name: Seq<char>, room_password: Seq<char>) -> bool {
    room.room_password == room_password && !has_name(room.players, player_name)
}

/// `room` with a new spectator member without chips appended.
pub open spec fn with_member(room: RoomView, player_name: Seq<char>, client_id: u64) -> RoomView {
    RoomView {
        players: room.players.push(
            PlayerView { client_id, name: player_name, role: PlayerRole::Spectator, chips: 0 },
        ),
        ..room
    }
}

/// Outcome of a join request.
pub open spec fn spec_join(
    rooms: Seq<RoomView>,
    room_id: u64,
    player_name: Seq<char>,
    room_password: Seq<char>,
) -> Result<(), RoomError> {
    if !has_room(rooms, room_id) {
        Err(RoomError::RoomNotFound)
    } else if join_accepted(room_with_id(rooms, room_id), player_name, room_password) {
        Ok(())
    } else {
        Err(RoomError::Rejected)
    }
}

/// Some member of `players` is routed to `client_id`.
pub open spec fn has_client(players: Seq<PlayerView>, client_id: u64) -> bool {
    exists|k: int| 0 <= k < players.len() && #[trigger] players[k].client_id == client_id
}

/// `k` is the first index of a member routed to `client_id`.
pub open spec fn is_first_client(players: Seq<PlayerView>, client_id: u64, k: int) -> bool {
    &&& 0 <= k < players.len()
    &&& players[k].client_id == client_id
    &&& forall|j: int| 0 <= j < k ==> #[trigger] players[j].client_id != client_id
}

/// The first member routed to `client_id` (meaningful where `has_client` holds).
pub open spec fn first_client(players: Seq<PlayerView>, client_id: u64) -> int {
    choose|k: int| is_first_client(players, client_id, k)
}

/// `room` with the role of the first member routed to `client_id` replaced.
pub open spec fn with_role(room: RoomView, client_id: u64, role: PlayerRole) -> RoomView {
    let k = first_client(room.players, client_id);
    RoomView { players: room.players.update(k, PlayerView { role, ..room.players[k] }), ..room }
}

/// Outcome of a role-switch request.
pub open spec fn spec_set_role(rooms: Seq<RoomView>, room_id: u64, client_id: u64) -> Result<
    (),
    RoomError,
> {
    if !has_room(rooms, room_id) {
        Err(RoomError::RoomNotFound)
    } else if !has_client(room_with_id(rooms, room_id).players, client_id) {
        Err(RoomError::PlayerNotFound)
    } else {
        Ok(())
    }
}

/// `room` in state `state`.
pub open spec fn with_state(room: RoomView, state: RoomState) -> RoomView {
    RoomView { room_state: state, ..room }
}

/// Outcome of a room-state request: only the recorded owner may change it.
pub open spec fn spec_set_state(rooms: Seq<RoomView>, room_id: u64, requester: Seq<char>) -> Result<
    (),
    RoomError,
> {
    if !has_room(rooms, room_id) {
        Err(RoomError::RoomNotFound)
    } else if room_with_id(rooms, room_id).owner_name != requester {
        Err(RoomError::Unauthorized)
    } else {
        Ok(())
    }
}

/// A count of members as carried on the wire, saturating at `u32::MAX`.
pub open spec fn count_u32(n: nat) -> u32 {
    if n > u32::MAX {
        u32::MAX
    } else {
        n as u32
    }
}

/// The listing of a room.
pub open spec fn room_dto(room: RoomView) -> RoomDTOView {
    RoomDTOView {
        room_id: room.room_id,
        room_name: room.room_name,
        room_state: room.room_state,
        owner_name: room.owner_name,
        player_count: count_u32(room.players.len()),
    }
}

/// The models of a list of listings.
pub open spec fn dtos_view(dtos: Seq<RoomDTO>) -> Seq<RoomDTOView> {
    dtos.map_values(|d: RoomDTO| d@)
}

/// The listing of every room, in registry order.
pub open spec fn rooms_dto(rooms: Seq<RoomView>) -> Seq<RoomDTOView> {
    rooms.map_values(|r: RoomView| room_dto(r))
}

/// Only one index can be the first one routed to a client.
proof fn lemma_first_client_unique(players: Seq<PlayerView>, client_id: u64, k: int)
    requires
        is_first_client(players, client_id, k),
    ensures
        has_client(players, client_id),
        first_client(players, client_id) == k,
{
    assert(players[k].client_id == client_id);
    let c = first_client(players, client_id);
    assert(is_first_client(players, client_id, c));
    if c < k {
        assert(players[c].client_id != client_id);
    } else if k < c {
        assert(players[k].client_id != client_id);
    }
}

/// Replacing one room of a well-formed registry by a room with the same
/// identifier and unique member names yields `update_room`.
proof fn lemma_replace_room(
    old_rooms: Seq<RoomView>,
    new_rooms: Seq<RoomView>,
    i: int,
    f: spec_fn(RoomView) -> RoomView,
)
    requires
        rooms_wf(old_rooms),
        0 <= i < old_rooms.len(),
        new_rooms == old_rooms.update(i, f(old_rooms[i])),
        f(old_rooms[i]).room_id == old_rooms[i].room_id,
        names_unique(f(old_rooms[i]).players),
    ensures
        rooms_wf(new_rooms),
        new_rooms == update_room(old_rooms, old_rooms[i].room_id, f),
{
    let id = old_rooms[i].room_id;
    assert forall|j: int| 0 <= j < old_rooms.len() && j != i implies old_rooms[j].room_id != id by {
        if j < i {
            assert(old_rooms[j].room_id < old_rooms[i].room_id);
        } else {
            assert(old_rooms[i].room_id < old_rooms[j].room_id);
        }
    }
    assert(new_rooms =~= update_room(old_rooms, id, f));
    assert forall|a: int, b: int| 0 <= a < b < new_rooms.len() implies #[trigger] new_rooms[a].room_id
        < #[trigger] new_rooms[b].room_id by {
        assert(old_rooms[a].room_id < old_rooms[b].room_id);
    }
}

/// Updating a room keeps identifiers, so the updated registry holds the
/// updated room under the same identifier.
pub proof fn lemma_update_room_with_id(
    rooms: Seq<RoomView>,
    room_id: u64,
    f: spec_fn(RoomView) -> RoomView,
)
    requires
        ids_increasing(rooms),
        has_room(rooms, room_id),
        f(room_with_id(rooms, room_id)).room_id == room_id,
    ensures
        has_room(update_room(rooms, room_id, f), room_id),
        room_with_id(update_room(rooms, room_id, f), room_id) == f(room_with_id(rooms, room_id)),
{
    let i = choose|i: int| 0 <= i < rooms.len() && #[trigger] rooms[i].room_id == room_id;
    lemma_room_with_id(rooms, i);
    let after = update_room(rooms, room_id, f);
    assert forall|a: int, b: int| 0 <= a < b < after.len() implies #[trigger] after[a].room_id
        < #[trigger] after[b].room_id by {
        assert(rooms[a].room_id < rooms[b].room_id);
        if rooms[a].room_id == room_id {
            lemma_room_with_id(rooms, a);
        }
        if rooms[b].room_id == room_id {
            lemma_room_with_id(rooms, b);
        }
    }
    lemma_room_with_id(after, i);
}

/// Creating a room and then listing the rooms shows an entry for it with its
/// new identifier, its name, state `Waiting`, the creator as owner and a
/// player count of one.
pub proof fn lemma_created_room_listed(
    rooms: Seq<RoomView>,
    room_name: Seq<char>,
    room_password: Seq<char>,
    creator_name: Seq<char>,
    creator_client_id: u64,
    candidate: u64,
)
    requires
        rooms_wf(rooms),
        can_allocate(rooms, candidate),
    ensures
        ({
            let room_id = next_room_id(rooms, candidate);
            let listing = rooms_dto(
                rooms.push(
                    created_room(room_id, room_name, room_password, creator_name, creator_client_id),
                ),
            );
            exists|i: int|
                0 <= i < listing.len() && #[trigger] listing[i] == RoomDTOView {
                    room_id,
                    room_name,
                    room_state: RoomState::Waiting,
                    owner_name: creator_name,
                    player_count: 1,
                }
        }),
{
    let room_id = next_room_id(rooms, candidate);
    let after = rooms.push(
        created_room(room_id, room_name, room_password, creator_name, creator_client_id),
    );
    let listing = rooms_dto(after);
    let i = rooms.len() as int;
    assert(listing[i] == room_dto(after[i]));
    assert(listing[i] == RoomDTOView {
        room_id,
        room_name,
        room_state: RoomState::Waiting,
        owner_name: creator_name,
        player_count: 1,
    });
}

/// A join with the room's password under a name no member has succeeds and
/// adds one member to the room; a join with another password, or under a
/// name already present, is rejected (and `join` then leaves the registry
/// unchanged).
pub proof fn lemma_join_outcome(
    rooms: Seq<RoomView>,
    room_id: u64,
    player_name: Seq<char>,
    room_password: Seq<char>,
    client_id: u64,
)
    requires
        rooms_wf(rooms),
        has_room(rooms, room_id),
    ensures
        ({
            let room = room_with_id(rooms, room_id);
            let after = update_room(
                rooms,
                room_id,
                |r: RoomView| with_member(r, player_name, client_id),
            );
            &&& (room.room_password == room_password && !has_name(room.players, player_name))
                ==> {
                &&& spec_join(rooms, room_id, player_name, room_password) == Ok::<(), RoomError>(())
                &&& has_room(after, room_id)
                &&& room_with_id(after, room_id).players.len() == room.players.len() + 1
                &&& rooms_dto(after).len() == rooms_dto(rooms).len()
            }
            &&& (room.room_password != room_password || has_name(room.players, player_name))
                ==> spec_join(rooms, room_id, player_name, room_password) == Err::<(), RoomError>(
                RoomError::Rejected,
            )
        }),
{
    let f = |r: RoomView| with_member(r, player_name, client_id);
    lemma_update_room_with_id(rooms, room_id, f);
}

/// Only the recorded owner's request changes the room's state: the owner's
/// succeeds and sets the target state; anyone else's is refused as
/// unauthorised (and `set_state` then leaves the registry unchanged).
pub proof fn lemma_only_owner_sets_state(
    rooms: Seq<RoomView>,
    room_id: u64,
    requester: Seq<char>,
    state: RoomState,
)
    requires
        rooms_wf(rooms),
        has_room(rooms, room_id),
    ensures
        ({
            let room = room_with_id(rooms, room_id);
            let after = update_room(rooms, room_id, |r: RoomView| with_state(r, state));
            &&& room.owner_name == requester ==> {
                &&& spec_set_state(rooms, room_id, requester) == Ok::<(), RoomError>(())
                &&& has_room(after, room_id)
                &&& room_with_id(after, room_id).room_state == state
            }
            &&& room.owner_name != requester ==> spec_set_state(rooms, room_id, requester) == Err::<
                (),
                RoomError,
            >(RoomError::Unauthorized)
        }),
{
    let f = |r: RoomView| with_state(r, state);
    lemma_update_room_with_id(rooms, room_id, f);
}

impl RoomList {
    pub open spec fn wf(&self) -> bool {
        rooms_wf(self@)
    }

    /// An empty registry.
    pub fn new() -> (r: RoomList)
        ensures
            r@ == Seq::<RoomView>::empty(),
            r.wf(),
    {
        let r = RoomList(Vec::new());
        assert(r@ =~= Seq::<RoomView>::empty());
        r
    }

    /// Index of the room with identifier `room_id`.
    fn position(&self, room_id: u64) -> (r: Option<usize>)
        requires
            self.wf(),
        ensures
            match r {
                Some(i) => i < self@.len() && self@[i as int].room_id == room_id && room_with_id(
                    self@,
                    room_id,
                ) == self@[i as int],
                None => !has_room(self@, room_id),
            },
    {
        let mut i: usize = 0;
        while i < self.0.len()
            invariant
                self.wf(),
                i <= self.0@.len(),
                forall|j: int| 0 <= j < i ==> self@[j].room_id != room_id,
            decreases self.0@.len() - i,
        {
            if self.0[i].room_id == room_id {
                proof {
                    lemma_room_with_id(self@, i as int);
                }
                return Some(i);
            }
            i = i + 1;
        }
        None
    }

    /// The room with identifier `room_id`, if there is one.
    pub fn find(&self, room_id: u64) -> (r: Option<&Room>)
        requires
            self.wf(),
        ensures
            r is None <==> !has_room(self@, room_id),
            r matches Some(room) ==> room@ == room_with_id(self@, room_id),
    {
        match self.position(room_id) {
            Some(i) => Some(&self.0[i]),
            None => None,
        }
    }

    /// Whether `create` may be called with this candidate identifier.
    pub fn can_create(&self, candidate: u64) -> (r: bool)
        ensures
            r == can_allocate(self@, candidate),
    {
        let n = self.0.len();
        n == 0 || candidate > self.0[n - 1].room_id || self.0[n - 1].room_id < u64::MAX
    }

    /// Appends a room in state `Waiting`, owned by its creator, whose only
    /// member is the creator as a spectator with no chips. Returns the new
    /// room's identifier: `candidate` where it exceeds every identifier in use,
    /// else one past the largest.
    pub fn create(
        &mut self,
        room_name: String,
        room_password: String,
        creator_name: String,
        creator_client_id: u64,
        candidate: u64,
    ) -> (r: u64)
        requires
            old(self).wf(),
            can_allocate(old(self)@, candidate),
        ensures
            final(self).wf(),
            r == next_room_id(old(self)@, candidate),
            final(self)@ == old(self)@.push(
                created_room(r, room_name@, room_password@, creator_name@, creator_client_id),
            ),
    {
        let n = self.0.len();
        let room_id = if n == 0 || candidate > self.0[n - 1].room_id {
            candidate
        } else {
            self.0[n - 1].room_id + 1
        };
        let creator = Player {
            player_client_id: creator_client_id,
            player_name: creator_name.clone(),
            player_role: PlayerRole::Spectator,
            chips: 0,
        };
        let players = vec![creator];
        let room = Room {
            room_id,
            room_name,
            room_password,
            room_state: RoomState::Waiting,
            owner_name: creator_name,
            players,
            last_dealer_name: None,
        };
        let ghost expected = created_room(
            room_id,
            room@.room_name,
            room@.room_password,
            room@.owner_name,
            creator_client_id,
        );
        assert(room@.players =~= expected.players);
        self.0.push(room);
        assert(self@ =~= old(self)@.push(expected));
        room_id
    }

    /// Adds a spectator without chips called `player_name` to room `room_id`,
    /// where the password matches exactly and no member has that name.
    pub fn join(
        &mut self,
        room_id: u64,
        player_name: String,
        room_password: &String,
        client_id: u64,
    ) -> (r: Result<(), RoomError>)
        requires
            old(self).wf(),
        ensures
            final(self).wf(),
            r == spec_join(old(self)@, room_id, player_name@, room_password@),
            final(self)@ == if r is Ok {
                update_room(
                    old(self)@,
                    room_id,
                    |room: RoomView| with_member(room, player_name@, client_id),
                )
            } else {
                old(self)@
            },
    {
        match self.position(room_id) {
            None => Err(RoomError::RoomNotFound),
            Some(i) => {
                if self.0[i].room_password == *room_password && !self.0[i].contains_player(
                    player_name.as_str(),
                ) {
                    let ghost name = player_name@;
                    let ghost f = |room: RoomView| with_member(room, name, client_id);
                    let player = Player {
                        player_client_id: client_id,
                        player_name,
                        player_role: PlayerRole::Spectator,
                        chips: 0,
                    };
                    self.0[i].players.push(player);
                    proof {
                        assert(self@[i as int].players =~= f(old(self)@[i as int]).players);
                        assert(self@ =~= old(self)@.update(i as int, f(old(self)@[i as int])));
                        let room = f(old(self)@[i as int]);
                        assert forall|a: int, b: int|
                            0 <= a < room.players.len() && 0 <= b < room.players.len() && a
                                != b implies #[trigger] room.players[a].name
                            != #[trigger] room.players[b].name by {
                            if a < b && b == room.players.len() - 1 {
                                assert(old(self)@[i as int].players[a].name == room.players[a].name);
                            }
                        }
                        lemma_replace_room(old(self)@, self@, i as int, f);
                    }
                    Ok(())
                } else {
                    Err(RoomError::Rejected)
                }
            },
        }
    }

    /// Sets the role of the first member of room `room_id` routed to
    /// `client_id`.
    pub fn set_role(&mut self, room_id: u64, client_id: u64, role: PlayerRole) -> (r: Result<
        (),
        RoomError,
    >)
        requires
            old(self).wf(),
        ensures
            final(self).wf(),
            r == spec_set_role(old(self)@, room_id, client_id),
            final(self)@ == if r is Ok {
                update_room(old(self)@, room_id, |room: RoomView| with_role(room, client_id, role))
            } else {
                old(self)@
            },
    {
        match self.position(room_id) {
            None => Err(RoomError::RoomNotFound),
            Some(i) => {
                let mut k: usize = 0;
                while k < self.0[i].players.len()
                    invariant
                        self.wf(),
                        self@ == old(self)@,
                        i < self@.len(),
                        k <= self@[i as int].players.len(),
                        forall|j: int| 0 <= j < k ==> #[trigger] self@[i as int].players[j].client_id != client_id,
                    ensures
                        k <= self@[i as int].players.len(),
                        k < self@[i as int].players.len() ==> self@[i as int].players[k as int].client_id == client_id,
                        forall|j: int| 0 <= j < k ==> #[trigger] self@[i as int].players[j].client_id != client_id,
                    decreases self@[i as int].players.len() - k,
                {
                    if self.0[i].players[k].player_client_id == client_id {
                        break;
                    }
                    k = k + 1;
                }
                if k == self.0[i].players.len() {
                    assert(!has_client(self@[i as int].players, client_id));
                    return Err(RoomError::PlayerNotFound);
                }
                proof {
                    lemma_first_client_unique(old(self)@[i as int].players, client_id, k as int);
                }
                self.0[i].players[k].player_role = role;
                proof {
                    let f = |room: RoomView| with_role(room, client_id, role);
                    assert(self@[i as int].players =~= f(old(self)@[i as int]).players);
                    assert(self@ =~= old(self)@.update(i as int, f(old(self)@[i as int])));
                    lemma_replace_room(old(self)@, self@, i as int, f);
                }
                Ok(())
            },
        }
    }

    /// Moves room `room_id` to `state` where `requester` is its owner.
    pub fn set_state(&mut self, room_id: u64, requester: &String, state: RoomState) -> (r: Result<
        (),
        RoomError,
    >)
        requires
            old(self).wf(),
        ensures
            final(self).wf(),
            r == spec_set_state(old(self)@, room_id, requester@),
            final(self)@ == if r is Ok {
                update_room(old(self)@, room_id, |room: RoomView| with_state(room, state))
            } else {
                old(self)@
            },
    {
        match self.position(room_id) {
            None => Err(RoomError::RoomNotFound),
            Some(i) => {
                if self.0[i].owner_name == *requester {
                    self.0[i].room_state = state;
                    proof {
                        let f = |room: RoomView| with_state(room, state);
                        assert(self@[i as int] =~= f(old(self)@[i as int]));
                        assert(self@ =~= old(self)@.update(i as int, f(old(self)@[i as int])));
                        lemma_replace_room(old(self)@, self@, i as int, f);
                    }
                    Ok(())
                } else {
                    Err(RoomError::Unauthorized)
                }
            },
        }
    }


    /// The listing of every room, in registry order.
    pub fn room_dtos(&self) -> (r: Vec<RoomDTO>)
        ensures
            dtos_view(r@) == rooms_dto(self@),
    {
        let mut r: Vec<RoomDTO> = Vec::new();
        let mut i: usize = 0;
        while i < self.0.len()
            invariant
                i <= self@.len(),
                dtos_view(r@) == rooms_dto(self@.subrange(0, i as int)),
            decreases self@.len() - i,
        {
            r.push(self.0[i].to_dto());
            assert(rooms_dto(self@.subrange(0, i + 1)) =~= rooms_dto(self@.subrange(0, i as int)).push(
                room_dto(self@[i as int]),
            ));
            assert(dtos_view(r@) =~= rooms_dto(self@.subrange(0, i + 1)));
            i = i + 1;
        }
        assert(self@.subrange(0, i as int) =~= self@);
        r
    }

}

} // verus!
