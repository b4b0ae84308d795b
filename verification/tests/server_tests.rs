use ireplay::http::StatusCode;
use ireplay::server::SignalDatabase;

fn add(db: &mut SignalDatabase, name: &str, curve: &[u8]) -> usize {
    let (id, signal) = db.add(name.to_string(), curve.to_vec());
    assert_eq!(signal.name, name);
    assert_eq!(signal.curve, curve);
    id
}

#[test]
fn new_database_is_empty() {
    let db = SignalDatabase::new();
    assert_eq!(db.len(), 0);
    assert!(db.list().is_empty());
    assert!(db.get(0).is_none());
}

#[test]
fn added_signal_is_found_under_its_id() {
    let mut db = SignalDatabase::new();
    assert_eq!(add(&mut db, "tv power", &[0, 1, 1, 0]), 0);
    assert_eq!(add(&mut db, "volume up", &[1, 0, 1]), 1);
    assert_eq!(db.len(), 2);
    let s = db.get(0).unwrap();
    assert_eq!(s.name, "tv power");
    assert_eq!(s.curve, vec![0, 1, 1, 0]);
    let s = db.get(1).unwrap();
    assert_eq!(s.name, "volume up");
    assert!(db.get(2).is_none());
}

#[test]
fn list_gives_every_signal_once() {
    let mut db = SignalDatabase::new();
    for i in 0..20u8 {
        add(&mut db, &format!("signal {i}"), &[i]);
    }
    let mut items = db.list();
    items.sort_by_key(|(id, _)| *id);
    assert_eq!(items.len(), 20);
    for (i, (id, signal)) in items.iter().enumerate() {
        assert_eq!(*id, i);
        assert_eq!(signal.name, format!("signal {i}"));
        assert_eq!(signal.curve, vec![i as u8]);
    }
}

#[test]
fn replay_finds_curve_or_not_found() {
    let mut db = SignalDatabase::new();
    add(&mut db, "fan", &[1, 0, 0, 1]);
    assert_eq!(db.replay_curve(0).unwrap(), &vec![1, 0, 0, 1]);
    assert_eq!(db.replay_curve(5).err(), Some(StatusCode::NotFound));
}

#[test]
fn rename_keeps_curve() {
    let mut db = SignalDatabase::new();
    add(&mut db, "old", &[1, 1, 0]);
    add(&mut db, "other", &[0]);
    assert_eq!(db.rename(0, "new".to_string()), StatusCode::Success);
    let s = db.get(0).unwrap();
    assert_eq!(s.name, "new");
    assert_eq!(s.curve, vec![1, 1, 0]);
    assert_eq!(db.get(1).unwrap().name, "other");
    assert_eq!(db.len(), 2);
}

#[test]
fn rename_of_missing_signal_is_not_found() {
    let mut db = SignalDatabase::new();
    add(&mut db, "a", &[1]);
    assert_eq!(db.rename(3, "b".to_string()), StatusCode::NotFound);
    assert_eq!(db.get(0).unwrap().name, "a");
    assert!(db.get(3).is_none());
}

#[test]
fn delete_removes_and_second_delete_is_not_found() {
    let mut db = SignalDatabase::new();
    add(&mut db, "a", &[1]);
    add(&mut db, "b", &[0]);
    assert_eq!(db.delete(0), StatusCode::Success);
    assert!(db.get(0).is_none());
    assert_eq!(db.get(1).unwrap().name, "b");
    assert_eq!(db.delete(0), StatusCode::NotFound);
    assert_eq!(db.len(), 1);
}

#[test]
fn add_after_delete_reuses_the_count_as_id() {
    let mut db = SignalDatabase::new();
    add(&mut db, "a", &[1]);
    add(&mut db, "b", &[0]);
    db.delete(0);
    // one signal is left, so the next id is 1, which replaces "b"
    assert_eq!(add(&mut db, "c", &[1, 1]), 1);
    assert_eq!(db.len(), 1);
    assert_eq!(db.get(1).unwrap().name, "c");
}

#[test]
fn status_codes() {
    assert_eq!(StatusCode::Success.code(), 200);
    assert_eq!(StatusCode::BadRequest.code(), 400);
    assert_eq!(StatusCode::NotFound.code(), 404);
}
