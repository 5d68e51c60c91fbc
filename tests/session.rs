use rustmc::errors::ConnectionError;
use rustmc::session::{DuplicatePolicy, Player, SessionDirectory, UUID};

fn uuid(n: u8) -> UUID {
    let mut data = [0u8; 16];
    data[15] = n;
    UUID { data }
}

fn player(conn: u32, name: &str, id: u8) -> Player<u32> {
    Player::new(conn, name, uuid(id))
}

#[test]
fn insert_and_find() {
    let mut dir: SessionDirectory<u32> = SessionDirectory::new(DuplicatePolicy::Reject);
    assert!(dir.insert(player(10, "alice", 1)).unwrap().is_none());
    assert!(dir.insert(player(11, "bob", 2)).unwrap().is_none());
    assert_eq!(dir.len(), 2);
    let bob = dir.find_by_name("bob").unwrap();
    assert_eq!(bob.uuid, uuid(2));
    assert_eq!(bob.connection, 11);
    let alice = dir.find_by_id(uuid(1)).unwrap();
    assert_eq!(alice.username, "alice");
    assert!(dir.find_by_name("carol").is_none());
    assert!(dir.find_by_id(uuid(3)).is_none());
}

#[test]
fn duplicate_id_is_rejected() {
    let mut dir: SessionDirectory<u32> = SessionDirectory::new(DuplicatePolicy::Reject);
    dir.insert(player(10, "alice", 1)).unwrap();
    let res = dir.insert(player(20, "alice2", 1));
    assert!(matches!(res, Err(ConnectionError::DuplicateIdentity)));
    assert_eq!(dir.len(), 1);
    assert_eq!(dir.find_by_id(uuid(1)).unwrap().connection, 10);
}

#[test]
fn duplicate_id_evicts_under_replace() {
    let mut dir: SessionDirectory<u32> = SessionDirectory::new(DuplicatePolicy::Replace);
    dir.insert(player(10, "alice", 1)).unwrap();
    dir.insert(player(11, "bob", 2)).unwrap();
    let evicted = dir.insert(player(20, "alice-again", 1)).unwrap().unwrap();
    assert_eq!(evicted.connection, 10);
    assert_eq!(evicted.username, "alice");
    assert_eq!(dir.len(), 2);
    let now = dir.find_by_id(uuid(1)).unwrap();
    assert_eq!(now.connection, 20);
    let names: Vec<String> = dir.snapshot().into_iter().map(|p| p.username).collect();
    assert_eq!(names, vec![String::from("bob"), String::from("alice-again")]);
}

#[test]
fn remove_then_find_by_id_is_none_and_old_snapshot_keeps_session() {
    let mut dir: SessionDirectory<u32> = SessionDirectory::new(DuplicatePolicy::Reject);
    dir.insert(player(10, "alice", 1)).unwrap();
    dir.insert(player(11, "bob", 2)).unwrap();
    let before = dir.snapshot();
    let removed = dir.remove(uuid(1)).unwrap();
    assert_eq!(removed.username, "alice");
    assert!(dir.find_by_id(uuid(1)).is_none());
    assert!(dir.find_by_name("alice").is_none());
    assert_eq!(before.len(), 2);
    assert!(before.iter().any(|p| p.uuid == uuid(1)));
    assert_eq!(dir.snapshot().len(), 1);
    assert!(dir.remove(uuid(1)).is_none());
}

#[test]
fn find_by_name_returns_first_in_insertion_order() {
    let mut dir: SessionDirectory<u32> = SessionDirectory::new(DuplicatePolicy::Reject);
    dir.insert(player(10, "same", 1)).unwrap();
    dir.insert(player(11, "same", 2)).unwrap();
    assert_eq!(dir.find_by_name("same").unwrap().uuid, uuid(1));
}

#[test]
fn uuid_equality_compares_every_byte() {
    assert_eq!(uuid(1), uuid(1));
    assert_ne!(uuid(1), uuid(2));
    let mut other = uuid(1);
    other.data[0] = 9;
    assert_ne!(other, uuid(1));
}
