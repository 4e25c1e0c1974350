//! Values shared by the server and the clients.

use vstd::prelude::*;

verus! {

/// Life-cycle of a room.
#[derive(Debug, Clone, Copy, PartialEq, Eq, Structural)]
pub enum RoomState {
    Waiting,
    Playing,
    Paused,
}

impl Default for RoomState {
    fn default() -> (r: RoomState)
        ensures
            r == RoomState::Waiting,
    {
        RoomState::Waiting
    }
}

impl RoomState {
    pub open spec fn spec_name(self) -> Seq<char> {
        match self {
            RoomState::Waiting => "Waiting"@,
            RoomState::Playing => "Playing"@,
            RoomState::Paused => "Paused"@,
        }
    }

    /// Display name of the state.
    pub fn name(&self) -> (r: &'static str)
        ensures
            r@ == self.spec_name(),
    {
        match self {
            RoomState::Waiting => "Waiting",
            RoomState::Playing => "Playing",
            RoomState::Paused => "Paused",
        }
    }
}

/// Phase of a play; a play walks through them in declaration order.
#[derive(Debug, Clone, Copy, PartialEq, Eq, Structural)]
pub enum Round {
    Start,
    Preflop,
    Flop,
    Turn,
    River,
    Showdown,
    End,
}

impl Default for Round {
    fn default() -> (r: Round)
        ensures
            r == Round::Start,
    {
        Round::Start
    }
}

impl Round {
    pub open spec fn spec_name(self) -> Seq<char> {
        match self {
            Round::Start => "Start"@,
            Round::Preflop => "Preflop"@,
            Round::Flop => "Flop"@,
            Round::Turn => "Turn"@,
            Round::River => "River"@,
            Round::Showdown => "Showdown"@,
            Round::End => "End"@,
        }
    }

    /// Display name of the round.
    pub fn name(&self) -> (r: &'static str)
        ensures
            r@ == self.spec_name(),
    {
        match self {
            Round::Start => "Start",
            Round::Preflop => "Preflop",
            Round::Flop => "Flop",
            Round::Turn => "Turn",
            Round::River => "River",
            Round::Showdown => "Showdown",
            Round::End => "End",
        }
    }
}

/// Role of a member inside a room.
#[derive(Debug, Clone, Copy, PartialEq, Eq, Structural)]
pub enum PlayerRole {
    Spectator,
    Participant,
}

impl Default for PlayerRole {
    fn default() -> (r: PlayerRole)
        ensures
            r == PlayerRole::Spectator,
    {
        PlayerRole::Spectator
    }
}

impl PlayerRole {
    pub open spec fn spec_name(self) -> Seq<char> {
        match self {
            PlayerRole::Spectator => "Spectator"@,
            PlayerRole::Participant => "Participant"@,
        }
    }

    /// Display name of the role.
    pub fn name(&self) -> (r: &'static str)
        ensures
            r@ == self.spec_name(),
    {
        match self {
            PlayerRole::Spectator => "Spectator",
            PlayerRole::Participant => "Participant",
        }
    }
}

/// A room-membership record.
#[derive(Debug, Clone)]
pub struct Player {
    /// Transport-level identity used to route messages to the member.
    pub player_client_id: u64,
    /// Display name, unique within one room.
    pub player_name: String,
    pub player_role: PlayerRole,
    pub chips: u32,
}

/// Mathematical model of a [`Player`].
pub struct PlayerView {
    pub client_id: u64,
    pub name: Seq<char>,
    pub role: PlayerRole,
    pub chips: u32,
}

impl View for Player {
    type V = PlayerView;

    open spec fn view(&self) -> PlayerView {
        PlayerView {
            client_id: self.player_client_id,
            name: self.player_name@,
            role: self.player_role,
            chips: self.chips,
        }
    }
}

/// The models of a list of players.
pub open spec fn players_view(players: Seq<Player>) -> Seq<PlayerView> {
    players.map_values(|p: Player| p@)
}

impl Player {
    /// A field-by-field copy.
    pub fn duplicate(&self) -> (r: Player)
        ensures
            r == *self,
    {
        Player {
            player_client_id: self.player_client_id,
            player_name: self.player_name.clone(),
            player_role: self.player_role,
            chips: self.chips,
        }
    }
}

/// Copies a list of players, keeping the order.
pub fn duplicate_players(players: &Vec<Player>) -> (r: Vec<Player>)
    ensures
        r@ == players@,
{
    let mut r: Vec<Player> = Vec::new();
    let mut i: usize = 0;
    while i < players.len()
        invariant
            i <= players@.len(),
            r@ == players@.subrange(0, i as int),
        decreases players@.len() - i,
    {
        r.push(players[i].duplicate());
        i = i + 1;
    }
    assert(r@ =~= players@);
    r
}

/// A playing card: a suit and a rank from 1 to 13.
#[derive(Debug, Clone, Copy, PartialEq, Eq, Structural)]
pub enum Card {
    Spade(u8),
    Heart(u8),
    Club(u8),
    Diamond(u8),
}

/// The card at position `i` of a fresh pool: ranks ascend, and within one
/// rank the suits come as spade, heart, club, diamond.
pub open spec fn pool_card(i: int) -> Card {
    let rank = (i / 4 + 1) as u8;
    if i % 4 == 0 {
        Card::Spade(rank)
    } else if i % 4 == 1 {
        Card::Heart(rank)
    } else if i % 4 == 2 {
        Card::Club(rank)
    } else {
        Card::Diamond(rank)
    }
}

/// Number of cards in a fresh pool.
pub const POOL_SIZE: usize = 52;

impl Card {
    /// A fresh, unshuffled pool of the 52 cards.
    pub fn pool() -> (r: Vec<Card>)
        ensures
            r@.len() == POOL_SIZE,
            forall|i: int| 0 <= i < r@.len() ==> r@[i] == pool_card(i),
    {
        let mut pool: Vec<Card> = Vec::with_capacity(POOL_SIZE);
        let mut rank: u8 = 1;
        while rank <= 13
            invariant
                1 <= rank <= 14,
                pool@.len() == 4 * (rank - 1),
                forall|i: int| 0 <= i < pool@.len() ==> pool@[i] == pool_card(i),
            decreases 14 - rank,
        {
            let ghost base = pool@.len() as int;
            pool.push(Card::Spade(rank));
            pool.push(Card::Heart(rank));
            pool.push(Card::Club(rank));
            pool.push(Card::Diamond(rank));
            assert forall|i: int| base <= i < base + 4 implies pool@[i] == pool_card(i) by {
                assert(i / 4 + 1 == rank) by (nonlinear_arith)
                    requires base == 4 * (rank - 1), base <= i < base + 4;
                assert(i % 4 == i - base) by (nonlinear_arith)
                    requires base == 4 * (rank - 1), base <= i < base + 4;
            }
            rank = rank + 1;
        }
        pool
    }
}

/// A betting action.
#[derive(Debug, Clone, Copy, PartialEq, Eq, Structural)]
pub enum RoundAction {
    Check,
    Bet,
    Call,
    Raise,
    Fold,
    AllIn,
}

/// A seat's position in a play.
#[derive(Debug, Clone, Copy, PartialEq, Eq, Structural)]
pub enum Position {
    Dealer,
    SmallBlind,
    BigBlind,
    Other,
}

/// Summary of a room as listed to clients that have not joined it.
#[derive(Debug, Clone)]
pub struct RoomDTO {
    pub room_id: u64,
    pub room_name: String,
    pub room_state: RoomState,
    pub owner_name: String,
    pub player_count: u32,
}

/// Mathematical model of a [`RoomDTO`].
pub struct RoomDTOView {
    pub room_id: u64,
    pub room_name: Seq<char>,
    pub room_state: RoomState,
    pub owner_name: Seq<char>,
    pub player_count: u32,
}

impl View for RoomDTO {
    type V = RoomDTOView;

    open spec fn view(&self) -> RoomDTOView {
        RoomDTOView {
            room_id: self.room_id,
            room_name: self.room_name@,
            room_state: self.room_state,
            owner_name: self.owner_name@,
            player_count: self.player_count,
        }
    }
}

} // verus!
