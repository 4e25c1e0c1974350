//! Plays: one active game per room, its round progression and the dealer and
//! blind assignment.

use vstd::prelude::*;
use vstd::arithmetic::div_mod::{lemma_add_mod_noop, lemma_mod_self_0, lemma_small_mod};
use crate::common::{
    players_view, pool_card, Card, Player, PlayerRole, PlayerView, RoomState,
    Round, POOL_SIZE,
};
use crate::room::{
    has_name, has_room, names_unique, room_with_id, rooms_wf, Room, RoomList, RoomView,
};

verus! {

/// Fewest participants a play starts with.
pub const MIN_PARTICIPANTS: usize = 3;

/// The two private cards dealt to one participant.
#[derive(Debug)]
pub struct HoleCards {
    pub player_name: String,
    pub cards: [Card; 2],
}

/// Mathematical model of [`HoleCards`].
pub struct HoleCardsView {
    pub player_name: Seq<char>,
    pub cards: Seq<Card>,
}

impl View for HoleCards {
    type V = HoleCardsView;

    open spec fn view(&self) -> HoleCardsView {
        HoleCardsView { player_name: self.player_name@, cards: self.cards@ }
    }
}

/// One game in progress in a room.
#[derive(Debug)]
pub struct Play {
    pub play_id: u64,
    pub room_id: u64,
    pub round: Round,
    /// The room's participants when the play was created, in room order.
    pub participants: Vec<Player>,
    pub dealer_name: Option<String>,
    pub small_blind_name: Option<String>,
    pub big_blind_name: Option<String>,
    /// Private cards by participant name; at most one entry per name.
    pub hole_cards: Vec<HoleCards>,
    pub flop_cards: Option<[Card; 3]>,
    pub turn_card: Option<Card>,
    pub river_card: Option<Card>,
    pub card_pool: Vec<Card>,
    pub pot: u32,
}

/// Mathematical model of a [`Play`].
pub struct PlayView {
    pub play_id: u64,
    pub room_id: u64,
    pub round: Round,
    pub participants: Seq<PlayerView>,
    pub dealer_name: Option<Seq<char>>,
    pub small_blind_name: Option<Seq<char>>,
    pub big_blind_name: Option<Seq<char>>,
    pub hole_cards: Seq<HoleCardsView>,
    pub flop_cards: Option<Seq<Card>>,
    pub turn_card: Option<Card>,
    pub river_card: Option<Card>,
    pub card_pool: Seq<Card>,
    pub pot: u32,
}

pub open spec fn opt_string_view(s: Option<String>) -> Option<Seq<char>> {
    match s {
        Some(v) => Some(v@),
        None => None,
    }
}

impl View for Play {
    type V = PlayView;

    open spec fn view(&self) -> PlayView {
        PlayView {
            play_id: self.play_id,
            room_id: self.room_id,
            round: self.round,
            participants: players_view(self.participants@),
            dealer_name: opt_string_view(self.dealer_name),
            small_blind_name: opt_string_view(self.small_blind_name),
            big_blind_name: opt_string_view(self.big_blind_name),
            hole_cards: self.hole_cards@.map_values(|h: HoleCards| h@),
            flop_cards: match self.flop_cards {
                Some(c) => Some(c@),
                None => None,
            },
            turn_card: self.turn_card,
            river_card: self.river_card,
            card_pool: self.card_pool@,
            pot: self.pot,
        }
    }
}

/// `k` is the first index of a participant called `name`.
pub open spec fn is_first_name(players: Seq<PlayerView>, name: Seq<char>, k: int) -> bool {
    &&& 0 <= k < players.len()
    &&& players[k].name == name
    &&& forall|j: int| 0 <= j < k ==> #[trigger] players[j].name != name
}

/// The first participant called `name` (meaningful where `has_name` holds).
pub open spec fn first_name(players: Seq<PlayerView>, name: Seq<char>) -> int {
    choose|k: int| is_first_name(players, name, k)
}

/// Index of the first seat of the rotation: the seat after the last dealer
/// where that player is still a participant, else seat 0.
pub open spec fn rotation_start(participants: Seq<PlayerView>, last_dealer_name: Option<Seq<char>>) -> int {
    match last_dealer_name {
        Some(n) => if has_name(participants, n) {
            first_name(participants, n) + 1
        } else {
            0
        },
        None => 0,
    }
}

/// Name at `offset` seats from the rotation start, wrapping at the end:
/// offset 0 is the dealer, 1 the small blind, 2 the big blind.
pub open spec fn seat_name(
    participants: Seq<PlayerView>,
    last_dealer_name: Option<Seq<char>>,
    offset: int,
) -> Seq<char> {
    participants[(rotation_start(participants, last_dealer_name) + offset) % (
    participants.len() as int)].name
}

/// The first index carrying `name` is the one `first_name` picks.
pub proof fn lemma_first_name_unique(players: Seq<PlayerView>, name: Seq<char>, k: int)
    requires
        is_first_name(players, name, k),
    ensures
        has_name(players, name),
        first_name(players, name) == k,
{
    assert(players[k].name == name);
    let c = first_name(players, name);
    assert(is_first_name(players, name, c));
    if c < k {
        assert(players[c].name != name);
    } else if k < c {
        assert(players[k].name != name);
    }
}

/// Stepping one seat on, from a seat index below `n`.
proof fn lemma_next_seat(x: int, n: int)
    requires
        0 <= x,
        1 < n,
    ensures
        (x % n + 1) % n == (x + 1) % n,
        x % n + 1 < n ==> (x + 1) % n == x % n + 1,
        x % n + 1 == n ==> (x + 1) % n == 0,
{
    lemma_add_mod_noop(x, 1, n);
    lemma_small_mod(1, n as nat);
    let y = x % n;
    assert(0 <= y < n) by {
        vstd::arithmetic::div_mod::lemma_mod_bound(x, n);
    }
    if y + 1 < n {
        lemma_small_mod((y + 1) as nat, n as nat);
    } else {
        lemma_mod_self_0(n);
    }
}

fn next_seat(x: usize, n: usize) -> (r: usize)
    requires
        x < n,
    ensures
        r == if x + 1 == n {
            0
        } else {
            x + 1
        },
{
    if x + 1 == n {
        0
    } else {
        x + 1
    }
}

/// Dealer, small blind and big blind for a play: where the last dealer is
/// found at seat `i` they are the seats `i+1`, `i+2`, `i+3`, wrapping modulo
/// the number of participants; otherwise seats 0, 1 and 2.
pub fn assign_positions(participants: &Vec<Player>, last_dealer_name: &Option<String>) -> (r: (
    String,
    String,
    String,
))
    requires
        participants@.len() >= MIN_PARTICIPANTS,
    ensures
        r.0@ == seat_name(players_view(participants@), opt_string_view(*last_dealer_name), 0),
        r.1@ == seat_name(players_view(participants@), opt_string_view(*last_dealer_name), 1),
        r.2@ == seat_name(players_view(participants@), opt_string_view(*last_dealer_name), 2),
{
    let ghost ps = players_view(participants@);
    let ghost last = opt_string_view(*last_dealer_name);
    let n = participants.len();
    let mut start: usize = 0;
    match last_dealer_name {
        Some(name) => {
            let mut i: usize = 0;
            while i < n
                invariant
                    n == participants@.len(),
                    ps == players_view(participants@),
                    i <= n,
                    forall|j: int| 0 <= j < i ==> #[trigger] ps[j].name != name@,
                ensures
                    i <= n,
                    i < n ==> ps[i as int].name == name@,
                    forall|j: int| 0 <= j < i ==> #[trigger] ps[j].name != name@,
                decreases n - i,
            {
                if participants[i].player_name == *name {
                    break;
                }
                i = i + 1;
            }
            if i < n {
                proof {
                    lemma_first_name_unique(ps, name@, i as int);
                }
                start = next_seat(i, n);
                proof {
                    lemma_next_seat(i as int, n as int);
                    lemma_small_mod(i as nat, n as nat);
                }
            } else {
                assert(!has_name(ps, name@));
            }
        },
        None => {},
    }
    let ghost s = rotation_start(ps, last);
    proof {
        if s == 0 {
            lemma_small_mod(0, n as nat);
        }
    }
    assert(start as int == s % (n as int));
    let small = next_seat(start, n);
    proof {
        lemma_next_seat(s, n as int);
    }
    let big = next_seat(small, n);
    proof {
        lemma_next_seat(s + 1, n as int);
    }
    (
        participants[start].player_name.clone(),
        participants[small].player_name.clone(),
        participants[big].player_name.clone(),
    )
}

/// The participants among `players`, in order.
pub open spec fn participants_of(players: Seq<PlayerView>) -> Seq<PlayerView>
    decreases players.len(),
{
    if players.len() == 0 {
        Seq::empty()
    } else {
        let rest = participants_of(players.drop_last());
        if players.last().role == PlayerRole::Participant {
            rest.push(players.last())
        } else {
            rest
        }
    }
}

/// The members of `players` whose role is `Participant`, in order.
pub fn participants(players: &Vec<Player>) -> (r: Vec<Player>)
    ensures
        players_view(r@) == participants_of(players_view(players@)),
{
    let mut r: Vec<Player> = Vec::new();
    let mut i: usize = 0;
    while i < players.len()
        invariant
            i <= players@.len(),
            players_view(r@) == participants_of(players_view(players@.subrange(0, i as int))),
        decreases players@.len() - i,
    {
        let ghost prev = players_view(players@.subrange(0, i as int));
        let ghost next = players_view(players@.subrange(0, i + 1));
        assert(next.drop_last() =~= prev);
        assert(next.last() == players@[i as int]@);
        if players[i].player_role == PlayerRole::Participant {
            r.push(players[i].duplicate());
            assert(players_view(r@) =~= participants_of(next));
        }
        i = i + 1;
    }
    assert(players@.subrange(0, i as int) =~= players@);
    r
}

/// The plays in progress, at most one per room.
#[derive(Debug)]
pub struct PlayList(pub Vec<Play>);

/// The models of a list of plays.
pub open spec fn plays_view(plays: Seq<Play>) -> Seq<PlayView> {
    plays.map_values(|p: Play| p@)
}

impl View for PlayList {
    type V = Seq<PlayView>;

    open spec fn view(&self) -> Seq<PlayView> {
        plays_view(self.0@)
    }
}

/// Some play belongs to room `room_id`.
pub open spec fn has_play(plays: Seq<PlayView>, room_id: u64) -> bool {
    exists|k: int| 0 <= k < plays.len() && #[trigger] plays[k].room_id == room_id
}

/// Well-formed play list: one play per room at most, each with enough
/// participants to seat a dealer and both blinds.
pub open spec fn plays_wf(plays: Seq<PlayView>) -> bool {
    &&& forall|a: int, b: int|
        0 <= a < plays.len() && 0 <= b < plays.len() && a != b ==> #[trigger] plays[a].room_id
            != #[trigger] plays[b].room_id
    &&& forall|k: int| 0 <= k < plays.len() ==> #[trigger] plays[k].participants.len() >= MIN_PARTICIPANTS
}

/// A play is due for `room`: it is `Playing`, has no play yet, and has enough
/// participants.
pub open spec fn play_due(room: RoomView, plays: Seq<PlayView>) -> bool {
    &&& room.room_state == RoomState::Playing
    &&& !has_play(plays, room.room_id)
    &&& participants_of(room.players).len() >= MIN_PARTICIPANTS
}

/// The play created for `room`: round `Start`, its participants, no seats
/// assigned, a fresh card pool and an empty pot.
pub open spec fn new_play(room: RoomView, play_id: u64) -> PlayView {
    PlayView {
        play_id,
        room_id: room.room_id,
        round: Round::Start,
        participants: participants_of(room.players),
        dealer_name: None,
        small_blind_name: None,
        big_blind_name: None,
        hole_cards: Seq::empty(),
        flop_cards: None,
        turn_card: None,
        river_card: None,
        card_pool: Seq::new(POOL_SIZE as nat, |i: int| pool_card(i)),
        pot: 0,
    }
}

/// The plays that one pass of `start_new_play` appends, in room order.
pub open spec fn started_plays(rooms: Seq<RoomView>, plays: Seq<PlayView>, play_id: u64) -> Seq<
    PlayView,
>
    decreases rooms.len(),
{
    if rooms.len() == 0 {
        Seq::empty()
    } else {
        let prev = started_plays(rooms.drop_last(), plays, play_id);
        if play_due(rooms.last(), plays) {
            prev.push(new_play(rooms.last(), play_id))
        } else {
            prev
        }
    }
}

/// The play is in round `round` and its room is present and `Playing`.
pub open spec fn round_due(play: PlayView, rooms: Seq<RoomView>, round: Round) -> bool {
    &&& play.round == round
    &&& has_room(rooms, play.room_id)
    &&& room_with_id(rooms, play.room_id).room_state == RoomState::Playing
}

/// `play` after its start: seats assigned from the room's last dealer and
/// round `Preflop`.
pub open spec fn seated(play: PlayView, room: RoomView) -> PlayView {
    PlayView {
        round: Round::Preflop,
        dealer_name: Some(seat_name(play.participants, room.last_dealer_name, 0)),
        small_blind_name: Some(seat_name(play.participants, room.last_dealer_name, 1)),
        big_blind_name: Some(seat_name(play.participants, room.last_dealer_name, 2)),
        ..play
    }
}

/// Every play due in round `Start` seated; the others unchanged.
pub open spec fn after_round_start(plays: Seq<PlayView>, rooms: Seq<RoomView>) -> Seq<PlayView> {
    plays.map_values(
        |p: PlayView|
            if round_due(p, rooms, Round::Start) {
                seated(p, room_with_id(rooms, p.room_id))
            } else {
                p
            },
    )
}

/// Every play due in round `Preflop` moved to `Flop`; the others unchanged.
pub open spec fn after_round_preflop(plays: Seq<PlayView>, rooms: Seq<RoomView>) -> Seq<PlayView> {
    plays.map_values(
        |p: PlayView|
            if round_due(p, rooms, Round::Preflop) {
                PlayView { round: Round::Flop, ..p }
            } else {
                p
            },
    )
}

/// Each play that one pass creates is the new play of some room of the pass.
proof fn lemma_started_from_rooms(rooms: Seq<RoomView>, plays: Seq<PlayView>, play_id: u64)
    ensures
        forall|k: int|
            0 <= k < started_plays(rooms, plays, play_id).len() ==> exists|i: int|
                0 <= i < rooms.len() && #[trigger] started_plays(rooms, plays, play_id)[k]
                    == new_play(rooms[i], play_id) && play_due(rooms[i], plays),
    decreases rooms.len(),
{
    if rooms.len() > 0 {
        let prefix = rooms.drop_last();
        lemma_started_from_rooms(prefix, plays, play_id);
        let prev = started_plays(prefix, plays, play_id);
        let all = started_plays(rooms, plays, play_id);
        assert forall|k: int| 0 <= k < all.len() implies exists|i: int|
            0 <= i < rooms.len() && #[trigger] all[k] == new_play(rooms[i], play_id) && play_due(
                rooms[i],
                plays,
            ) by {
            if k < prev.len() {
                let i = choose|i: int|
                    0 <= i < prefix.len() && #[trigger] prev[k] == new_play(prefix[i], play_id)
                        && play_due(prefix[i], plays);
                assert(rooms[i] == prefix[i]);
                assert(all[k] == prev[k]);
            } else {
                assert(all[k] == new_play(rooms[rooms.len() - 1], play_id));
            }
        }
    }
}

/// A play is created for a room in one pass of `start_new_play` exactly when
/// the room is `Playing`, has no play yet, and has at least three
/// participants; each created play is that room's new play in round `Start`.
pub proof fn lemma_play_created_iff_due(rooms: Seq<RoomView>, plays: Seq<PlayView>, play_id: u64)
    requires
        rooms_wf(rooms),
    ensures
        forall|i: int|
            0 <= i < rooms.len() ==> (has_play(
                started_plays(rooms, plays, play_id),
                #[trigger] rooms[i].room_id,
            ) <==> play_due(rooms[i], plays)),
        forall|k: int|
            0 <= k < started_plays(rooms, plays, play_id).len() ==> exists|i: int|
                0 <= i < rooms.len() && #[trigger] started_plays(rooms, plays, play_id)[k]
                    == new_play(rooms[i], play_id) && play_due(rooms[i], plays),
    decreases rooms.len(),
{
    lemma_started_from_rooms(rooms, plays, play_id);
    if rooms.len() > 0 {
        let n = rooms.len() - 1;
        let prefix = rooms.drop_last();
        assert(rooms_wf(prefix)) by {
            assert forall|a: int, b: int| 0 <= a < b < prefix.len() implies #[trigger] prefix[a].room_id
                < #[trigger] prefix[b].room_id by {
                assert(rooms[a].room_id < rooms[b].room_id);
            }
            assert forall|a: int| 0 <= a < prefix.len() implies names_unique(
                #[trigger] prefix[a].players,
            ) by {
                assert(names_unique(rooms[a].players));
            }
        }
        lemma_play_created_iff_due(prefix, plays, play_id);
        lemma_started_from_rooms(prefix, plays, play_id);
        let prev = started_plays(prefix, plays, play_id);
        let all = started_plays(rooms, plays, play_id);
        assert forall|i: int| 0 <= i < rooms.len() implies (has_play(all, #[trigger] rooms[i].room_id)
            <==> play_due(rooms[i], plays)) by {
            if i < n {
                assert(prefix[i] == rooms[i]);
                if has_play(all, rooms[i].room_id) {
                    let k = choose|k: int| 0 <= k < all.len() && #[trigger] all[k].room_id == rooms[i].room_id;
                    if k < prev.len() {
                        assert(prev[k].room_id == rooms[i].room_id);
                    } else {
                        assert(all[k].room_id == rooms[n].room_id);
                        assert(rooms[i].room_id < rooms[n].room_id);
                    }
                }
                if has_play(prev, rooms[i].room_id) {
                    let k = choose|k: int| 0 <= k < prev.len() && #[trigger] prev[k].room_id == rooms[i].room_id;
                    assert(all[k].room_id == rooms[i].room_id);
                }
            } else {
                if play_due(rooms[n], plays) {
                    assert(all[prev.len() as int].room_id == rooms[n].room_id);
                }
                if has_play(all, rooms[n].room_id) {
                    let k = choose|k: int| 0 <= k < all.len() && #[trigger] all[k].room_id == rooms[n].room_id;
                    if k < prev.len() {
                        let j = choose|j: int|
                            0 <= j < prefix.len() && #[trigger] prev[k] == new_play(prefix[j], play_id)
                                && play_due(prefix[j], plays);
                        assert(prefix[j].room_id == rooms[j].room_id);
                        assert(rooms[j].room_id < rooms[n].room_id);
                    }
                }
            }
        }
    }
}

impl PlayList {
    pub open spec fn wf(&self) -> bool {
        plays_wf(self@)
    }

    /// An empty play list.
    pub fn new() -> (r: PlayList)
        ensures
            r@ == Seq::<PlayView>::empty(),
            r.wf(),
    {
        let r = PlayList(Vec::new());
        assert(r@ =~= Seq::<PlayView>::empty());
        r
    }

    /// Whether some play belongs to room `room_id`.
    pub fn contains_room(&self, room_id: u64) -> (r: bool)
        ensures
            r == has_play(self@, room_id),
    {
        let mut k: usize = 0;
        while k < self.0.len()
            invariant
                k <= self@.len(),
                forall|j: int| 0 <= j < k ==> self@[j].room_id != room_id,
            decreases self@.len() - k,
        {
            if self.0[k].room_id == room_id {
                assert(self@[k as int].room_id == room_id);
                return true;
            }
            k = k + 1;
        }
        false
    }
}

/// The play for `room`, built from its current members.
fn make_play(room: &Room, play_id: u64) -> (r: Play)
    ensures
        r@ == new_play(room@, play_id),
{
    let hole_cards: Vec<HoleCards> = Vec::new();
    let card_pool = Card::pool();
    let r = Play {
        play_id,
        room_id: room.room_id,
        round: Round::Start,
        participants: participants(&room.players),
        dealer_name: None,
        small_blind_name: None,
        big_blind_name: None,
        hole_cards,
        flop_cards: None,
        turn_card: None,
        river_card: None,
        card_pool,
        pot: 0,
    };
    assert(r@.card_pool =~= new_play(room@, play_id).card_pool);
    assert(r@.hole_cards =~= Seq::<HoleCardsView>::empty());
    r
}

/// Creates, for each room in registry order that is `Playing`, has no play
/// yet and has at least three participants, a play in round `Start` with
/// identifier `play_id`.
pub fn start_new_play(room_list: &RoomList, play_list: &mut PlayList, play_id: u64)
    requires
        room_list.wf(),
        old(play_list).wf(),
    ensures
        final(play_list).wf(),
        final(play_list)@ == old(play_list)@ + started_plays(room_list@, old(play_list)@, play_id),
{
    let ghost rooms = room_list@;
    let ghost plays0 = play_list@;
    let mut i: usize = 0;
    while i < room_list.0.len()
        invariant
            rooms == room_list@,
            rooms_wf(rooms),
            i <= rooms.len(),
            play_list.wf(),
            play_list@ == plays0 + started_plays(rooms.subrange(0, i as int), plays0, play_id),
            forall|k: int|
                plays0.len() <= k < play_list@.len() ==> exists|j: int|
                    0 <= j < i && #[trigger] play_list@[k].room_id == rooms[j].room_id,
        decreases rooms.len() - i,
    {
        let room = &room_list.0[i];
        let ghost before = play_list@;
        assert(rooms.subrange(0, i + 1).drop_last() =~= rooms.subrange(0, i as int));
        assert(rooms.subrange(0, i + 1).last() == rooms[i as int]);
        proof {
            // plays added in this pass belong to earlier rooms, whose
            // identifiers are smaller
            if has_play(before, rooms[i as int].room_id) && !has_play(plays0, rooms[i as int].room_id) {
                let k = choose|k: int| 0 <= k < before.len() && #[trigger] before[k].room_id == rooms[i as int].room_id;
                if k >= plays0.len() {
                    let j = choose|j: int| 0 <= j < i && #[trigger] before[k].room_id == rooms[j].room_id;
                    assert(rooms[j].room_id < rooms[i as int].room_id);
                } else {
                    assert(plays0[k].room_id == rooms[i as int].room_id);
                }
            }
            if has_play(plays0, rooms[i as int].room_id) {
                let k = choose|k: int| 0 <= k < plays0.len() && #[trigger] plays0[k].room_id == rooms[i as int].room_id;
                assert(before[k].room_id == rooms[i as int].room_id);
            }
        }
        if room.room_state == RoomState::Playing && !play_list.contains_room(room.room_id) {
            let play = make_play(room, play_id);
            if play.participants.len() >= MIN_PARTICIPANTS {
                play_list.0.push(play);
                proof {
                    assert(play_list@ =~= before.push(new_play(rooms[i as int], play_id)));
                    assert forall|k: int|
                        plays0.len() <= k < play_list@.len() implies exists|j: int|
                            0 <= j < i + 1 && #[trigger] play_list@[k].room_id == rooms[j].room_id by {
                        if k < before.len() {
                            let j = choose|j: int| 0 <= j < i && #[trigger] before[k].room_id == rooms[j].room_id;
                            assert(play_list@[k].room_id == rooms[j].room_id);
                        } else {
                            assert(play_list@[k].room_id == rooms[i as int].room_id);
                        }
                    }
                    let ps = play_list@;
                    assert forall|a: int, b: int|
                        0 <= a < ps.len() && 0 <= b < ps.len() && a != b implies #[trigger] ps[a].room_id
                            != #[trigger] ps[b].room_id by {
                        if a == ps.len() - 1 {
                            assert(before[b].room_id == ps[b].room_id);
                        } else if b == ps.len() - 1 {
                            assert(before[a].room_id == ps[a].room_id);
                        } else {
                            assert(before[a].room_id == ps[a].room_id);
                            assert(before[b].room_id == ps[b].room_id);
                        }
                    }
                    assert(ps =~= plays0 + started_plays(rooms.subrange(0, i + 1), plays0, play_id));
                }
            }
        }
        i = i + 1;
    }
    assert(rooms.subrange(0, i as int) =~= rooms);
}

/// Same rooms and participants, hence same well-formedness.
proof fn lemma_plays_wf_frame(a: Seq<PlayView>, b: Seq<PlayView>)
    requires
        plays_wf(a),
        a.len() == b.len(),
        forall|k: int|
            0 <= k < a.len() ==> #[trigger] b[k].room_id == a[k].room_id && b[k].participants
                == a[k].participants,
    ensures
        plays_wf(b),
{
    assert forall|x: int, y: int|
        0 <= x < b.len() && 0 <= y < b.len() && x != y implies #[trigger] b[x].room_id
            != #[trigger] b[y].room_id by {
        assert(a[x].room_id != a[y].room_id);
    }
    assert forall|k: int| 0 <= k < b.len() implies #[trigger] b[k].participants.len()
        >= MIN_PARTICIPANTS by {
        assert(b[k].room_id == a[k].room_id);
        assert(a[k].participants.len() >= MIN_PARTICIPANTS);
    }
}

/// For each play still in round `Start` whose room is present and
/// `Playing`: assigns dealer, small blind and big blind from the room's last
/// dealer, and moves the play to `Preflop`.
pub fn process_play_round_start(play_list: &mut PlayList, room_list: &RoomList)
    requires
        room_list.wf(),
        old(play_list).wf(),
    ensures
        final(play_list).wf(),
        final(play_list)@ == after_round_start(old(play_list)@, room_list@),
{
    let ghost target = after_round_start(old(play_list)@, room_list@);
    let n = play_list.0.len();
    let mut k: usize = 0;
    while k < n
        invariant
            room_list.wf(),
            plays_wf(old(play_list)@),
            target == after_round_start(old(play_list)@, room_list@),
            n == old(play_list)@.len(),
            play_list@.len() == n,
            k <= n,
            forall|j: int| 0 <= j < k ==> #[trigger] play_list@[j] == target[j],
            forall|j: int| k <= j < n ==> #[trigger] play_list@[j] == old(play_list)@[j],
        decreases n - k,
    {
        let ghost before = play_list@;
        if play_list.0[k].round == Round::Start {
            match room_list.find(play_list.0[k].room_id) {
                Some(room) => {
                    if room.room_state == RoomState::Playing {
                        assert(old(play_list)@[k as int].participants.len() >= MIN_PARTICIPANTS);
                        assert(play_list@[k as int] == play_list.0@[k as int]@);
                        assert(play_list@[k as int].participants.len()
                            == play_list.0@[k as int].participants@.len());
                        assert(room@.last_dealer_name == opt_string_view(room.last_dealer_name));
                        let (dealer, small, big) = assign_positions(
                            &play_list.0[k].participants,
                            &room.last_dealer_name,
                        );
                        play_list.0[k].dealer_name = Some(dealer);
                        play_list.0[k].small_blind_name = Some(small);
                        play_list.0[k].big_blind_name = Some(big);
                        play_list.0[k].round = Round::Preflop;
                        assert(play_list@[k as int] =~= target[k as int]);
                    }
                },
                None => {},
            }
        }
        assert(play_list@[k as int] == target[k as int]);
        assert forall|j: int| k < j < n implies #[trigger] play_list@[j] == old(play_list)@[j] by {
            assert(play_list@[j] == before[j]);
        }
        assert forall|j: int| 0 <= j < k implies #[trigger] play_list@[j] == target[j] by {
            assert(play_list@[j] == before[j]);
        }
        k = k + 1;
    }
    assert(play_list@ =~= target);
    proof {
        lemma_plays_wf_frame(old(play_list)@, play_list@);
    }
}

/// For each play in round `Preflop` whose room is present and `Playing`:
/// moves the play to `Flop`. Blinds and hole cards are not dealt yet.
pub fn process_play_round_preflop(play_list: &mut PlayList, room_list: &RoomList)
    requires
        room_list.wf(),
        old(play_list).wf(),
    ensures
        final(play_list).wf(),
        final(play_list)@ == after_round_preflop(old(play_list)@, room_list@),
{
    let ghost target = after_round_preflop(old(play_list)@, room_list@);
    let n = play_list.0.len();
    let mut k: usize = 0;
    while k < n
        invariant
            room_list.wf(),
            target == after_round_preflop(old(play_list)@, room_list@),
            n == old(play_list)@.len(),
            play_list@.len() == n,
            k <= n,
            forall|j: int| 0 <= j < k ==> #[trigger] play_list@[j] == target[j],
            forall|j: int| k <= j < n ==> #[trigger] play_list@[j] == old(play_list)@[j],
        decreases n - k,
    {
        let ghost before = play_list@;
        if play_list.0[k].round == Round::Preflop {
            match room_list.find(play_list.0[k].room_id) {
                Some(room) => {
                    if room.room_state == RoomState::Playing {
                        assert(play_list@[k as int] == play_list.0@[k as int]@);
                        assert(round_due(old(play_list)@[k as int], room_list@, Round::Preflop));
                        play_list.0[k].round = Round::Flop;
                        assert(play_list@[k as int] =~= target[k as int]);
                    }
                },
                None => {},
            }
        }
        assert(play_list@[k as int] == target[k as int]);
        assert forall|j: int| k < j < n implies #[trigger] play_list@[j] == old(play_list)@[j] by {
            assert(play_list@[j] == before[j]);
        }
        assert forall|j: int| 0 <= j < k implies #[trigger] play_list@[j] == target[j] by {
            assert(play_list@[j] == before[j]);
        }
        k = k + 1;
    }
    assert(play_list@ =~= target);
    proof {
        lemma_plays_wf_frame(old(play_list)@, play_list@);
    }
}

} // verus!
