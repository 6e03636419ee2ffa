use tictactoe_rooms::board::Board;
use tictactoe_rooms::error::GameError;
use tictactoe_rooms::store::RoomStore;
use tictactoe_rooms::stream::{SendOutcome, WatchSession};

fn store_with(id: &str) -> RoomStore {
    let mut store = RoomStore::new();
    assert!(store.add_room(id.to_string()));
    store
}

#[test]
fn scenario_move_continues() {
    let mut store = store_with("r1");
    let msg = store.do_movement("r1", "X".to_string(), 0, 0).unwrap();
    assert!(msg.contains("continues"));
    assert_eq!(msg, "Movement being done!! The game continues...");
    let st = store.has_winner("r1").unwrap();
    assert!(!st.has_winner);
    assert_eq!(st.shape_winner, "");
}

#[test]
fn scenario_row_wins() {
    let mut store = store_with("r1");
    store.do_movement("r1", "X".to_string(), 0, 0).unwrap();
    store.do_movement("r1", "X".to_string(), 0, 1).unwrap();
    let msg = store.do_movement("r1", "X".to_string(), 0, 2).unwrap();
    assert_eq!(msg, "We have a winner! X is the winner");
    let st = store.has_winner("r1").unwrap();
    assert!(st.has_winner);
    assert_eq!(st.shape_winner, "X");
}

#[test]
fn scenario_unknown_room() {
    let mut store = store_with("r1");
    let r = store.do_movement("unknown-room", "X".to_string(), 0, 0);
    assert_eq!(r, Err(GameError::RoomNotFound));
    assert!(matches!(store.has_winner("unknown-room"), Err(GameError::RoomNotFound)));
    assert_eq!(store.render_room("unknown-room", 1), Err(GameError::RoomNotFound));
    // the service goes on
    assert!(store.do_movement("r1", "X".to_string(), 1, 1).is_ok());
}

#[test]
fn scenario_invalid_coordinate() {
    let mut store = store_with("r1");
    assert_eq!(store.do_movement("r1", "X".to_string(), 5, 0), Err(GameError::InvalidCoordinate));
    assert_eq!(store.do_movement("r1", "X".to_string(), 0, -1), Err(GameError::InvalidCoordinate));
    assert_eq!(store.render_room("r1", 0).unwrap(), "...\n...\n...");
}

#[test]
fn empty_shape_is_rejected() {
    let mut store = store_with("r1");
    assert_eq!(store.do_movement("r1", String::new(), 0, 0), Err(GameError::InvalidShape));
    assert_eq!(store.render_room("r1", 0).unwrap(), "...\n...\n...");
}

#[test]
fn fresh_room_is_empty() {
    let mut store = RoomStore::new();
    let id = store.create_room();
    assert_eq!(id.len(), 36);
    assert!(store.contains(&id));
    let st = store.has_winner(&id).unwrap();
    assert!(!st.has_winner);
    assert_eq!(store.render_room(&id, 1).unwrap(), ". . .\n. . .\n. . .");
}

#[test]
fn created_ids_are_unique() {
    let mut store = RoomStore::new();
    let mut seen: Vec<String> = Vec::new();
    for _ in 0..50 {
        let id = store.create_room();
        assert!(!seen.contains(&id));
        seen.push(id);
    }
    for id in &seen {
        assert!(store.contains(id));
    }
}

#[test]
fn add_room_refuses_a_taken_id() {
    let mut store = store_with("r1");
    store.do_movement("r1", "O".to_string(), 2, 2).unwrap();
    assert!(!store.add_room("r1".to_string()));
    assert_eq!(store.render_room("r1", 0).unwrap(), "...\n...\n..O");
}

#[test]
fn every_line_wins() {
    let lines: [[(usize, usize); 3]; 8] = [
        [(0, 0), (0, 1), (0, 2)],
        [(1, 0), (1, 1), (1, 2)],
        [(2, 0), (2, 1), (2, 2)],
        [(0, 0), (1, 0), (2, 0)],
        [(0, 1), (1, 1), (2, 1)],
        [(0, 2), (1, 2), (2, 2)],
        [(0, 0), (1, 1), (2, 2)],
        [(0, 2), (1, 1), (2, 0)],
    ];
    for line in lines.iter() {
        let mut b = Board::new();
        for (i, &(x, y)) in line.iter().enumerate() {
            assert_eq!(b.find_winner(), None);
            b.insert(x, y, "O".to_string()).unwrap();
            if i < 2 {
                assert_eq!(b.find_winner(), None);
            }
        }
        assert_eq!(b.find_winner(), Some("O".to_string()));
    }
}

#[test]
fn rows_are_scanned_before_columns() {
    let mut b = Board::new();
    for y in 0..3 {
        b.insert(0, y, "A".to_string()).unwrap();
    }
    for x in 1..3 {
        b.insert(x, 2, "B".to_string()).unwrap();
    }
    // column 2 is A, B, B; row 0 is A: only A owns a line
    assert_eq!(b.find_winner(), Some("A".to_string()));
    b.insert(0, 2, "B".to_string()).unwrap();
    assert_eq!(b.find_winner(), Some("B".to_string()));
}

#[test]
fn mixed_line_has_no_winner() {
    let mut b = Board::new();
    b.insert(1, 0, "X".to_string()).unwrap();
    b.insert(1, 1, "O".to_string()).unwrap();
    b.insert(1, 2, "X".to_string()).unwrap();
    assert_eq!(b.find_winner(), None);
}

#[test]
fn insert_overwrites_and_checks_bounds() {
    let mut b = Board::new();
    b.insert(1, 2, "X".to_string()).unwrap();
    b.insert(1, 2, "O".to_string()).unwrap();
    assert_eq!(b.render(0), "...\n..O\n...");
    assert_eq!(b.insert(3, 0, "X".to_string()), Err(GameError::InvalidCoordinate));
    assert_eq!(b.insert(0, 3, "X".to_string()), Err(GameError::InvalidCoordinate));
    assert_eq!(b.render(0), "...\n..O\n...");
}

#[test]
fn render_is_deterministic() {
    let mut b = Board::new();
    b.insert(0, 0, "X".to_string()).unwrap();
    b.insert(2, 1, "O".to_string()).unwrap();
    let first = b.render(2);
    let second = b.render(2);
    assert_eq!(first, second);
    assert_eq!(first, "X  .  .\n.  .  .\n.  O  .");
}

#[test]
fn multi_character_shape_renders_whole() {
    let mut store = store_with("room");
    let msg = store.do_movement("room", "Ab".to_string(), 1, 1).unwrap();
    assert_eq!(msg, "Movement being done!! The game continues...");
    assert_eq!(store.render_room("room", 1).unwrap(), ". . .\n. Ab .\n. . .");
}

#[test]
fn diagonal_win_is_announced() {
    let mut store = store_with("d");
    store.do_movement("d", "O".to_string(), 0, 2).unwrap();
    store.do_movement("d", "O".to_string(), 1, 1).unwrap();
    let msg = store.do_movement("d", "O".to_string(), 2, 0).unwrap();
    assert_eq!(msg, "We have a winner! O is the winner");
}

#[test]
fn moves_stay_in_their_room() {
    let mut store = store_with("a");
    assert!(store.add_room("b".to_string()));
    store.do_movement("a", "X".to_string(), 0, 0).unwrap();
    assert_eq!(store.render_room("b", 0).unwrap(), "...\n...\n...");
    assert_eq!(store.render_room("a", 0).unwrap(), "X..\n...\n...");
}

#[test]
fn watch_session_publishes_until_a_send_fails() {
    let mut store = store_with("r1");
    store.do_movement("r1", "X".to_string(), 0, 0).unwrap();
    let mut w = WatchSession::new("r1".to_string(), 1);
    assert_eq!(w.next_render(&store).unwrap(), "X . .\n. . .\n. . .");
    assert_eq!(w.record(SendOutcome::Delivered), Ok(()));
    assert!(w.next_render(&store).is_ok());
    assert_eq!(w.record(SendOutcome::Full), Err(GameError::StreamClosed));
    assert!(w.closed);
    assert_eq!(w.next_render(&store), Err(GameError::StreamClosed));
    assert_eq!(w.record(SendOutcome::Delivered), Err(GameError::StreamClosed));
}

#[test]
fn watch_session_ends_when_subscriber_leaves() {
    let store = store_with("r1");
    let mut w = WatchSession::new("r1".to_string(), 0);
    assert!(w.next_render(&store).is_ok());
    assert_eq!(w.record(SendOutcome::Disconnected), Err(GameError::StreamClosed));
}

#[test]
fn watch_session_on_missing_room_closes() {
    let store = RoomStore::new();
    let mut w = WatchSession::new("nope".to_string(), 0);
    assert_eq!(w.next_render(&store), Err(GameError::RoomNotFound));
    assert!(w.closed);
    assert_eq!(w.next_render(&store), Err(GameError::StreamClosed));
}
