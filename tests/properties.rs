use hibitset::BitSet;
use specs_mirror::{
    ChangeEvent, EventLog, MirroredStorage, NoPayload, SlotOnly, SlotStorage, Snapshot,
    StorageExt, StorageMutExt, VecStorage,
};

fn snapshots(events: Vec<&ChangeEvent<(u32, String)>>) -> Vec<ChangeEvent<(u32, String)>> {
    events.into_iter().cloned().collect()
}

fn ins(slot: u32, v: &str) -> ChangeEvent<(u32, String)> {
    ChangeEvent::Inserted((slot, v.to_string()))
}

fn rem(slot: u32, v: &str) -> ChangeEvent<(u32, String)> {
    ChangeEvent::Removed((slot, v.to_string()))
}

#[test]
fn scenario_insert_remove_reinsert() {
    let mut s: MirroredStorage<String, Snapshot> = MirroredStorage::new();
    let mut early = s.register_reader();
    s.insert(1, "v1".to_string());
    s.insert(2, "v2".to_string());
    s.insert(3, "v3".to_string());
    assert_eq!(s.remove(2), "v2");
    s.insert(2, "v2b".to_string());
    let mut late = s.register_reader();
    assert_eq!(
        snapshots(s.read_events(&mut early)),
        vec![ins(1, "v1"), ins(2, "v2"), ins(3, "v3"), rem(2, "v2"), ins(2, "v2b")]
    );
    assert!(s.read_events(&mut late).is_empty());
    assert_eq!(s.get(1), "v1");
    assert_eq!(s.get(2), "v2b");
    assert_eq!(s.get(3), "v3");
    assert!(!s.contains(4));
    assert_eq!(s.event_count(), 5);
}

#[test]
fn late_cursor_sees_only_later_events() {
    let mut s: MirroredStorage<String, Snapshot> = MirroredStorage::new();
    s.insert(7, "a".to_string());
    s.insert(8, "b".to_string());
    let mut c = s.register_reader();
    assert_eq!(c.position(), 2);
    assert!(s.read_events(&mut c).is_empty());
    s.remove(7);
    assert_eq!(snapshots(s.read_events(&mut c)), vec![rem(7, "a")]);
    assert!(s.read_events(&mut c).is_empty());
}

#[test]
fn two_cursors_are_independent() {
    let mut s: MirroredStorage<String, Snapshot> = MirroredStorage::new();
    let mut a = s.register_reader();
    s.insert(1, "x".to_string());
    let mut b = s.register_reader();
    s.insert(2, "y".to_string());
    assert_eq!(snapshots(s.read_events(&mut a)), vec![ins(1, "x"), ins(2, "y")]);
    assert!(s.read_events(&mut a).is_empty());
    assert_eq!(snapshots(s.read_events(&mut b)), vec![ins(2, "y")]);
}

#[test]
fn modify_absent_slot_hands_value_back() {
    let mut s: MirroredStorage<String, Snapshot> = MirroredStorage::new();
    let mut c = s.register_reader();
    let r = StorageMutExt::modify(&mut s, 5, "new".to_string());
    assert_eq!(r, Some("new".to_string()));
    assert_eq!(s.event_count(), 0);
    assert!(s.read_events(&mut c).is_empty());
    assert!(!s.contains(5));
}

#[test]
fn modify_present_slot_publishes_removal_then_insertion() {
    let mut s: MirroredStorage<String, Snapshot> = MirroredStorage::new();
    s.insert(5, "old".to_string());
    let mut c = s.register_reader();
    let r = s.modify(5, "new".to_string());
    assert_eq!(r, None);
    assert_eq!(s.get(5), "new");
    assert_eq!(snapshots(s.read_events(&mut c)), vec![rem(5, "old"), ins(5, "new")]);
}

#[test]
fn snapshot_of_removed_value_is_independent_of_later_changes() {
    let mut s: MirroredStorage<String, Snapshot> = MirroredStorage::new();
    let mut c = s.register_reader();
    s.insert(3, "before".to_string());
    let mut taken = s.remove(3);
    taken.push_str(" and after");
    assert_eq!(taken, "before and after");
    assert_eq!(snapshots(s.read_events(&mut c)), vec![ins(3, "before"), rem(3, "before")]);
}

#[test]
fn insert_overwrites_without_removal_event() {
    let mut s: MirroredStorage<String, Snapshot> = MirroredStorage::new();
    let mut c = s.register_reader();
    s.insert(1, "a".to_string());
    s.insert(1, "b".to_string());
    assert_eq!(s.get(1), "b");
    assert_eq!(snapshots(s.read_events(&mut c)), vec![ins(1, "a"), ins(1, "b")]);
}

#[test]
fn get_and_get_mut_publish_nothing() {
    let mut s: MirroredStorage<String, Snapshot> = MirroredStorage::new();
    s.insert(4, "a".to_string());
    let mut c = s.register_reader();
    s.get_mut(4).push('!');
    assert_eq!(s.get(4), "a!");
    assert!(s.read_events(&mut c).is_empty());
}

#[test]
fn slot_only_policy_carries_slots() {
    let mut s: MirroredStorage<Vec<u8>, SlotOnly> = MirroredStorage::new();
    let mut c = s.register_reader();
    s.insert(9, vec![1, 2, 3]);
    s.insert(4, vec![]);
    s.remove(9);
    let got: Vec<ChangeEvent<u32>> = s.read_events(&mut c).into_iter().cloned().collect();
    assert_eq!(
        got,
        vec![ChangeEvent::Inserted(9), ChangeEvent::Inserted(4), ChangeEvent::Removed(9)]
    );
}

#[test]
fn no_payload_policy_carries_kinds_only() {
    let mut s: MirroredStorage<Vec<u8>, NoPayload> = MirroredStorage::new();
    let mut c = s.register_reader();
    s.insert(0, vec![0; 1 << 16]);
    assert_eq!(s.remove(0).len(), 1 << 16);
    let got: Vec<ChangeEvent<()>> = s.read_events(&mut c).into_iter().cloned().collect();
    assert_eq!(got, vec![ChangeEvent::Inserted(()), ChangeEvent::Removed(())]);
}

#[test]
fn retention_drops_oldest_and_clamps_lagging_cursor() {
    let mut s: MirroredStorage<String, Snapshot> = MirroredStorage::with_retention(2);
    let mut c = s.register_reader();
    s.insert(1, "a".to_string());
    s.insert(2, "b".to_string());
    s.insert(3, "c".to_string());
    assert_eq!(s.event_count(), 3);
    assert_eq!(s.log_ref().missed(&c), 1);
    assert_eq!(snapshots(s.read_events(&mut c)), vec![ins(2, "b"), ins(3, "c")]);
    assert_eq!(c.position(), 3);
    assert_eq!(s.log_ref().missed(&c), 0);
}

#[test]
fn event_log_drain_and_retention() {
    let mut log: EventLog<u64> = EventLog::with_retention(3);
    let mut c = log.new_cursor();
    for i in 0..5u64 {
        log.append(i * 10);
    }
    assert_eq!(log.len_total(), 5);
    let got: Vec<u64> = log.drain(&mut c).into_iter().copied().collect();
    assert_eq!(got, vec![20, 30, 40]);
    let mut unbounded: EventLog<u64> = EventLog::new();
    let mut d = unbounded.new_cursor();
    unbounded.append(1);
    unbounded.append(2);
    let got: Vec<u64> = unbounded.drain(&mut d).into_iter().copied().collect();
    assert_eq!(got, vec![1, 2]);
}

#[test]
fn clean_drops_marked_slots_only() {
    let mut s: MirroredStorage<String, Snapshot> = MirroredStorage::new();
    s.insert(1, "a".to_string());
    s.insert(2, "b".to_string());
    s.insert(70, "c".to_string());
    let mut c = s.register_reader();
    let mut has = BitSet::new();
    has.add(2);
    has.add(70);
    s.clean(&has);
    assert!(s.contains(1));
    assert!(!s.contains(2));
    assert!(!s.contains(70));
    assert!(s.read_events(&mut c).is_empty());
}

#[test]
fn vec_storage_basics() {
    let mut v: VecStorage<u32> = VecStorage::empty();
    assert!(!v.is_occupied(3));
    v.insert(3, 30);
    assert!(v.is_occupied(3));
    assert!(!v.is_occupied(2));
    assert_eq!(*v.get(3), 30);
    *v.get_mut(3) = 31;
    assert_eq!(v.remove(3), 31);
    assert!(!v.is_occupied(3));
}

#[test]
fn per_slot_events_alternate_under_disciplined_host() {
    let mut s: MirroredStorage<u64, SlotOnly> = MirroredStorage::new();
    let mut c = s.register_reader();
    s.insert(1, 10);
    s.insert(2, 20);
    s.modify(1, 11);
    s.remove(2);
    s.insert(2, 21);
    s.remove(1);
    let got: Vec<ChangeEvent<u32>> = s.read_events(&mut c).into_iter().cloned().collect();
    for slot in [1u32, 2] {
        let kinds: Vec<bool> = got
            .iter()
            .filter(|e| match e {
                ChangeEvent::Inserted(x) | ChangeEvent::Removed(x) => *x == slot,
            })
            .map(|e| matches!(e, ChangeEvent::Inserted(_)))
            .collect();
        for (i, inserted) in kinds.iter().enumerate() {
            assert_eq!(*inserted, i % 2 == 0);
        }
    }
    assert_eq!(got.len(), 7);
}
