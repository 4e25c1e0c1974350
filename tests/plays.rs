use texas_holdem::common::{Card, Player, PlayerRole, RoomState, Round};
use texas_holdem::play::{
    assign_positions, participants, process_play_round_preflop, process_play_round_start,
    start_new_play, PlayList,
};
use texas_holdem::room::{Room, RoomList};
use texas_holdem::schedule::Cooldown;
use texas_holdem::server::broadcast_play_info;

fn player(id: u64, name: &str, role: PlayerRole) -> Player {
    Player { player_client_id: id, player_name: name.to_string(), player_role: role, chips: 0 }
}

fn seated(names: &[&str]) -> Vec<Player> {
    names
        .iter()
        .enumerate()
        .map(|(i, n)| player(i as u64 + 1, n, PlayerRole::Participant))
        .collect()
}

fn room(room_id: u64, state: RoomState, players: Vec<Player>, last: Option<&str>) -> Room {
    Room {
        room_id,
        room_name: format!("room {}", room_id),
        room_password: String::new(),
        room_state: state,
        owner_name: players[0].player_name.clone(),
        players,
        last_dealer_name: last.map(|n| n.to_string()),
    }
}

#[test]
fn dealer_rotates_past_last_dealer_with_wrap_around() {
    let ps = seated(&["A", "B", "C", "D"]);
    let (d, sb, bb) = assign_positions(&ps, &Some("B".to_string()));
    assert_eq!((d.as_str(), sb.as_str(), bb.as_str()), ("C", "D", "A"));
}

#[test]
fn dealer_starts_at_first_seat_without_prior_dealer() {
    let ps = seated(&["A", "B", "C", "D"]);
    let (d, sb, bb) = assign_positions(&ps, &None);
    assert_eq!((d.as_str(), sb.as_str(), bb.as_str()), ("A", "B", "C"));
}

#[test]
fn dealer_starts_at_first_seat_when_prior_dealer_left() {
    let ps = seated(&["A", "B", "C", "D"]);
    let (d, sb, bb) = assign_positions(&ps, &Some("Z".to_string()));
    assert_eq!((d.as_str(), sb.as_str(), bb.as_str()), ("A", "B", "C"));
}

#[test]
fn dealer_after_last_seat_wraps_to_first() {
    let ps = seated(&["A", "B", "C", "D"]);
    let (d, sb, bb) = assign_positions(&ps, &Some("D".to_string()));
    assert_eq!((d.as_str(), sb.as_str(), bb.as_str()), ("A", "B", "C"));
    let three = seated(&["A", "B", "C"]);
    let (d, sb, bb) = assign_positions(&three, &Some("C".to_string()));
    assert_eq!((d.as_str(), sb.as_str(), bb.as_str()), ("A", "B", "C"));
    let (d, sb, bb) = assign_positions(&three, &Some("A".to_string()));
    assert_eq!((d.as_str(), sb.as_str(), bb.as_str()), ("B", "C", "A"));
}

#[test]
fn participants_keeps_only_participants_in_order() {
    let ps = vec![
        player(1, "a", PlayerRole::Spectator),
        player(2, "b", PlayerRole::Participant),
        player(3, "c", PlayerRole::Spectator),
        player(4, "d", PlayerRole::Participant),
    ];
    let only = participants(&ps);
    assert_eq!(only.len(), 2);
    assert_eq!(only[0].player_name, "b");
    assert_eq!(only[1].player_name, "d");
}

#[test]
fn play_starts_for_playing_room_with_three_participants() {
    let mut players = seated(&["A", "B", "C"]);
    players.push(player(9, "watcher", PlayerRole::Spectator));
    let rooms = RoomList(vec![room(10, RoomState::Playing, players, None)]);
    let mut plays = PlayList::new();
    start_new_play(&rooms, &mut plays, 555);
    assert_eq!(plays.0.len(), 1);
    let play = &plays.0[0];
    assert_eq!(play.play_id, 555);
    assert_eq!(play.room_id, 10);
    assert_eq!(play.round, Round::Start);
    assert_eq!(play.participants.len(), 3);
    assert!(play.dealer_name.is_none());
    assert!(play.small_blind_name.is_none());
    assert!(play.big_blind_name.is_none());
    assert!(play.hole_cards.is_empty());
    assert!(play.flop_cards.is_none());
    assert!(play.turn_card.is_none());
    assert!(play.river_card.is_none());
    assert_eq!(play.card_pool.len(), 52);
    assert_eq!(play.card_pool[0], Card::Spade(1));
    assert_eq!(play.pot, 0);
}

#[test]
fn no_play_with_two_participants() {
    let mut players = seated(&["A", "B"]);
    players.push(player(9, "watcher", PlayerRole::Spectator));
    let rooms = RoomList(vec![room(10, RoomState::Playing, players, None)]);
    let mut plays = PlayList::new();
    start_new_play(&rooms, &mut plays, 555);
    assert!(plays.0.is_empty());
}

#[test]
fn no_play_unless_room_is_playing() {
    let rooms = RoomList(vec![
        room(10, RoomState::Waiting, seated(&["A", "B", "C"]), None),
        room(11, RoomState::Paused, seated(&["A", "B", "C"]), None),
    ]);
    let mut plays = PlayList::new();
    start_new_play(&rooms, &mut plays, 1);
    assert!(plays.0.is_empty());
}

#[test]
fn at_most_one_play_per_room() {
    let rooms = RoomList(vec![
        room(10, RoomState::Playing, seated(&["A", "B", "C"]), None),
        room(11, RoomState::Playing, seated(&["D", "E", "F", "G"]), None),
    ]);
    let mut plays = PlayList::new();
    start_new_play(&rooms, &mut plays, 1);
    assert_eq!(plays.0.len(), 2);
    assert_eq!(plays.0[0].room_id, 10);
    assert_eq!(plays.0[1].room_id, 11);
    start_new_play(&rooms, &mut plays, 2);
    assert_eq!(plays.0.len(), 2);
    assert_eq!(plays.0[0].play_id, 1);
    assert!(plays.contains_room(11));
    assert!(!plays.contains_room(12));
}

#[test]
fn round_start_seats_dealer_and_blinds_from_last_dealer() {
    let rooms = RoomList(vec![room(10, RoomState::Playing, seated(&["A", "B", "C", "D"]), Some("B"))]);
    let mut plays = PlayList::new();
    start_new_play(&rooms, &mut plays, 1);
    process_play_round_start(&mut plays, &rooms);
    let play = &plays.0[0];
    assert_eq!(play.round, Round::Preflop);
    assert_eq!(play.dealer_name.as_deref(), Some("C"));
    assert_eq!(play.small_blind_name.as_deref(), Some("D"));
    assert_eq!(play.big_blind_name.as_deref(), Some("A"));
    // a second pass leaves a play past Start alone
    process_play_round_start(&mut plays, &rooms);
    assert_eq!(plays.0[0].round, Round::Preflop);
    assert_eq!(plays.0[0].dealer_name.as_deref(), Some("C"));
}

#[test]
fn round_start_without_prior_dealer_seats_first_three() {
    let rooms = RoomList(vec![room(10, RoomState::Playing, seated(&["A", "B", "C", "D"]), None)]);
    let mut plays = PlayList::new();
    start_new_play(&rooms, &mut plays, 1);
    process_play_round_start(&mut plays, &rooms);
    let play = &plays.0[0];
    assert_eq!(play.dealer_name.as_deref(), Some("A"));
    assert_eq!(play.small_blind_name.as_deref(), Some("B"));
    assert_eq!(play.big_blind_name.as_deref(), Some("C"));
}

#[test]
fn rounds_wait_while_room_is_not_playing() {
    let playing = RoomList(vec![room(10, RoomState::Playing, seated(&["A", "B", "C"]), None)]);
    let paused = RoomList(vec![room(10, RoomState::Paused, seated(&["A", "B", "C"]), None)]);
    let mut plays = PlayList::new();
    start_new_play(&playing, &mut plays, 1);
    process_play_round_start(&mut plays, &paused);
    assert_eq!(plays.0[0].round, Round::Start);
    assert!(plays.0[0].dealer_name.is_none());
    process_play_round_start(&mut plays, &playing);
    assert_eq!(plays.0[0].round, Round::Preflop);
    process_play_round_preflop(&mut plays, &paused);
    assert_eq!(plays.0[0].round, Round::Preflop);
    process_play_round_preflop(&mut plays, &RoomList::new());
    assert_eq!(plays.0[0].round, Round::Preflop);
    process_play_round_preflop(&mut plays, &playing);
    assert_eq!(plays.0[0].round, Round::Flop);
    process_play_round_preflop(&mut plays, &playing);
    assert_eq!(plays.0[0].round, Round::Flop);
}

#[test]
fn play_info_goes_to_all_room_members() {
    let mut players = seated(&["A", "B", "C"]);
    players.push(player(9, "watcher", PlayerRole::Spectator));
    let rooms = RoomList(vec![room(10, RoomState::Playing, players, None)]);
    let mut plays = PlayList::new();
    start_new_play(&rooms, &mut plays, 77);
    let mut cd = Cooldown::new(1_000_000);
    let out = broadcast_play_info(&plays, &rooms, &mut cd, 10, 900);
    assert_eq!(out.len(), 1);
    assert_eq!(out[0].recipients, vec![1, 2, 3, 9]);
    assert_eq!(out[0].message.timestamp, 900);
    assert_eq!(out[0].message.play_id, 77);
    assert_eq!(out[0].message.room_id, 10);
    assert_eq!(out[0].message.round, Round::Start);
    assert_eq!(out[0].message.participants.len(), 3);
    assert!(broadcast_play_info(&plays, &rooms, &mut cd, 999_999, 901).is_empty());
    // a play whose room is gone is not broadcast
    let empty = RoomList::new();
    assert!(broadcast_play_info(&plays, &empty, &mut cd, 2, 902).is_empty());
    assert_eq!(cd.remaining_us, 1_000_000);
}
