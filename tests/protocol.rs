use othello_server::failure::Failure;
use othello_server::protocol::{request_kind, ExternalRoom, Id, PlayRequest, RequestKind, WatchRequest};
use othello_server::registry::{broadcast_recipients, Registry};
use othello_server::runner::{is_human_name, read_reply, reply_budget_ms, serialize_request, ReplyEvent};
use othello_server::othello::{initial_board, Player};

fn play(black: &str, white: &str, t_ms: u64) -> PlayRequest {
    PlayRequest { black: black.to_string(), white: white.to_string(), t_ms }
}

#[test]
fn request_paths() {
    assert_eq!(request_kind("/play"), Some(RequestKind::Play));
    assert_eq!(request_kind("/watch"), Some(RequestKind::Watch));
    assert_eq!(request_kind("/list/games"), Some(RequestKind::List));
    assert_eq!(request_kind("/list"), None);
    assert_eq!(request_kind("/play/"), None);
    assert_eq!(request_kind(""), None);
}

#[test]
fn play_request_to_room() {
    let room = play("alpha", "beta", 5000).to_room(&7);
    assert_eq!(room.id, 7);
    assert_eq!(room.black_name, "alpha");
    assert_eq!(room.white_name, "beta");
    assert_eq!(room.timelimit_ms, 5000);
    assert!(room.watching.is_empty());
    let ext = ExternalRoom::from(room);
    assert_eq!(ext.black, "alpha");
    assert_eq!(ext.white, "beta");
    assert_eq!(ext.timelimit_ms, 5000);
    assert_eq!(Id::from(WatchRequest { watching: 99 }), 99);
}

#[test]
fn registry_insert_get_remove() {
    let mut reg: Registry<&str> = Registry::new();
    assert_eq!(reg.len(), 0);
    reg.insert(1, "one");
    reg.insert(2, "two");
    reg.insert(1, "uno");
    assert_eq!(reg.len(), 2);
    assert_eq!(reg.get(&1), Some(&"uno"));
    assert_eq!(reg.get(&2), Some(&"two"));
    assert_eq!(reg.get(&3), None);
    reg.remove(&1);
    reg.remove(&1);
    assert_eq!(reg.get(&1), None);
    assert_eq!(reg.len(), 1);
}

#[test]
fn registry_register_gives_distinct_ids() {
    let mut reg: Registry<u8> = Registry::new();
    let a = reg.register(1);
    let b = reg.register(2);
    assert_ne!(a, b);
    assert_eq!(reg.get(&a), Some(&1));
    assert_eq!(reg.get(&b), Some(&2));
}

#[test]
fn room_spectators() {
    let mut rooms = Registry::new();
    rooms.insert(10, play("a", "b", 1000).to_room(&10));
    assert!(rooms.add_spectator(&10, 100));
    assert!(rooms.add_spectator(&10, 200));
    assert!(rooms.add_spectator(&10, 100));
    assert!(!rooms.add_spectator(&11, 300));
    assert_eq!(rooms.watchers(&10), Some(vec![100, 200, 100]));
    assert!(rooms.remove_spectator(&10, &100));
    assert_eq!(rooms.watchers(&10), Some(vec![200]));
    assert!(!rooms.remove_spectator(&11, &200));
    assert_eq!(rooms.watchers(&11), None);
}

#[test]
fn late_spectator_sees_only_later_updates() {
    let mut rooms = Registry::new();
    rooms.insert(5, play("a", "b", 1000).to_room(&5));
    // The first update goes out before anyone watches.
    assert_eq!(rooms.watchers(&5), Some(vec![]));
    assert!(rooms.add_spectator(&5, 42));
    // The next update is fanned out to the watchers read at that time.
    assert_eq!(rooms.watchers(&5), Some(vec![42]));
}

#[test]
fn room_snapshot() {
    let mut rooms = Registry::new();
    rooms.insert(1, play("a", "b", 1500).to_room(&1));
    rooms.insert(2, play("c", "d", 2000).to_room(&2));
    assert!(rooms.add_spectator(&1, 9));
    let snap = rooms.snapshot();
    assert_eq!(snap.len(), 2);
    assert_eq!(snap[0].0, 1);
    assert_eq!(snap[0].1.black, "a");
    assert_eq!(snap[0].1.white, "b");
    assert_eq!(snap[0].1.timelimit_ms, 1500);
    assert_eq!(snap[1].0, 2);
    assert_eq!(snap[1].1.black, "c");
    rooms.remove(&1);
    assert_eq!(rooms.snapshot().len(), 1);
}

#[test]
fn request_text_for_agent() {
    let text = serialize_request(&initial_board(), &Player::Black, 5000, &"bot".to_string());
    let expected = format!("bot\n5.0\n@\n{}\n", initial_board().serialize());
    assert_eq!(text, expected);
    let white = serialize_request(&initial_board(), &Player::White, 1250, &"x".to_string());
    assert!(white.starts_with("x\n1.25\no\n"));
    let unknown = serialize_request(&initial_board(), &Player::Unknown, 100, &"x".to_string());
    assert!(unknown.starts_with("x\n0.1\n?\n"));
    let odd = serialize_request(&initial_board(), &Player::Black, 12345, &"x".to_string());
    assert!(odd.starts_with("x\n12.345\n@\n"));
}

#[test]
fn reply_budget() {
    assert_eq!(reply_budget_ms(1000), 2000);
    assert_eq!(reply_budget_ms(0), 1000);
    assert_eq!(reply_budget_ms(u64::MAX), u64::MAX);
}

#[test]
fn replies_from_agent() {
    assert_eq!(read_reply(ReplyEvent::Line("42".to_string())), Ok(42));
    assert_eq!(read_reply(ReplyEvent::Line(" 7 ".to_string())), Ok(7));
    assert_eq!(read_reply(ReplyEvent::Line("abc".to_string())), Err(Failure::InvalidData));
    assert_eq!(read_reply(ReplyEvent::Line("-3".to_string())), Err(Failure::InvalidData));
    assert_eq!(read_reply(ReplyEvent::Line("4.5".to_string())), Err(Failure::InvalidData));
    assert_eq!(read_reply(ReplyEvent::Line("".to_string())), Err(Failure::InvalidData));
    assert_eq!(read_reply(ReplyEvent::Closed), Err(Failure::BrokenPipe));
    assert_eq!(read_reply(ReplyEvent::TimedOut), Err(Failure::Timeout));
    assert_eq!(read_reply(ReplyEvent::ReadFailed), Err(Failure::Io));
}

#[test]
fn human_name() {
    assert!(is_human_name("Human"));
    assert!(!is_human_name("human"));
    assert!(!is_human_name("Humans"));
    assert!(!is_human_name(""));
}

#[test]
fn fan_out_recipients() {
    let mut peers: Registry<&str> = Registry::new();
    peers.insert(1, "first");
    peers.insert(3, "third");
    let got = broadcast_recipients(&vec![3, 2, 1], &peers);
    assert_eq!(got, vec![Some(&"third"), None, Some(&"first")]);
    assert!(broadcast_recipients(&vec![], &peers).is_empty());
}
