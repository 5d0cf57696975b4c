use lsio::op_tracker::OpTracker;
use lsio::slot_tracker;
use lsio::tracker::Tracker;

#[test]
fn tracker_test_op_tracker() {
    // The tracker whose lookups go through a guard.
    {
        let mut tracker = Tracker::new(2);

        // Check that removing an item before inserting an item returns None.
        assert!(tracker.get(0).is_none());

        // Put one string into the tracker, and then remove that string.
        let i0 = tracker.get_next_index().unwrap();
        assert_eq!(i0, 0);
        let s0 = "string0".to_string();
        tracker.put(i0, s0.clone());
        assert_eq!(tracker.get(i0).unwrap().remove(&mut tracker), s0);
        // The tracker is now empty.

        // Put another string into the tracker. Don't remove it yet.
        let i1 = tracker.get_next_index().unwrap();
        assert_eq!(i1, 1);
        let s1 = "string1".to_string();
        tracker.put(i1, s1.clone());

        // Put another string into the tracker. Don't remove it yet.
        let i2 = tracker.get_next_index().unwrap();
        assert_eq!(i2, 0);
        let s2 = "string2".to_string();
        tracker.put(i2, s2.clone());

        // Check that we can't put any more strings into tracker
        assert!(tracker.get_next_index().is_none());

        // Check the strings are correct
        assert_eq!(tracker.get(i1).unwrap().remove(&mut tracker), s1);
        assert_eq!(tracker.get(i2).unwrap().remove(&mut tracker), s2);
    }
    // The tracker that removes by index.
    {
        let mut tracker = slot_tracker::Tracker::new(2);

        // Check that removing an item before inserting an item returns None.
        assert!(tracker.remove(0).is_none());

        // Put one string into the tracker, and then remove that string.
        let i0 = tracker.get_next_index().unwrap();
        assert_eq!(i0, 0);
        let s0 = "string0".to_string();
        tracker.put(i0, s0.clone());
        assert_eq!(tracker.remove(i0).unwrap(), s0);
        // The tracker is now empty.

        // Put another string into the tracker. Don't remove it yet.
        let i1 = tracker.get_next_index().unwrap();
        assert_eq!(i1, 1);
        let s1 = "string1".to_string();
        tracker.put(i1, s1.clone());

        // Put another string into the tracker. Don't remove it yet.
        let i2 = tracker.get_next_index().unwrap();
        assert_eq!(i2, 0);
        let s2 = "string2".to_string();
        tracker.put(i2, s2.clone());

        // Check that we can't put any more strings into tracker
        assert!(tracker.get_next_index().is_none());

        // Check the strings are correct
        assert_eq!(tracker.remove(i1).unwrap(), s1);
        assert_eq!(tracker.remove(i2).unwrap(), s2);
    }
}

#[test]
fn tracker_empty_and_full() {
    let mut tracker: Tracker<u32> = Tracker::new(3);
    assert!(tracker.is_empty());
    assert!(!tracker.is_full());
    let a = tracker.get_next_index().unwrap();
    tracker.put(a, 10);
    assert!(!tracker.is_empty());
    let b = tracker.get_next_index().unwrap();
    let c = tracker.get_next_index().unwrap();
    assert_eq!((a, b, c), (0, 1, 2));
    // Every index is handed out, though two are not filled yet.
    assert!(tracker.is_full());
    tracker.put(b, 20);
    tracker.put(c, 30);
    let guard = tracker.get(b).unwrap();
    *guard.as_mut(&mut tracker) += 1;
    guard.replace(&mut tracker, 25);
    assert_eq!(guard.remove(&mut tracker), 25);
    assert!(!tracker.is_full());
    assert!(tracker.get(b).is_none());
    // The freed index comes back last in line.
    assert_eq!(tracker.get_next_index(), Some(1));
    let ga = tracker.get(a).unwrap();
    assert_eq!(*ga.as_mut(&mut tracker), 10);
    assert_eq!(ga.remove(&mut tracker), 10);
    let gc = tracker.get(c).unwrap();
    assert_eq!(gc.remove(&mut tracker), 30);
    assert!(tracker.is_empty());
    assert_eq!(tracker.get_next_index(), Some(0));
    assert_eq!(tracker.get_next_index(), Some(2));
    assert_eq!(tracker.get_next_index(), None);
}

#[test]
fn op_tracker_hands_out_and_takes_back() {
    let mut tracker: OpTracker<&str> = OpTracker::new(2);
    let i0 = tracker.get_next_index();
    assert_eq!(i0, 0);
    tracker.put(i0, "a");
    let i1 = tracker.get_next_index();
    assert_eq!(i1, 1);
    tracker.put(i1, "b");
    assert_eq!(tracker.remove(i0), "a");
    assert_eq!(tracker.get_next_index(), 0);
    assert_eq!(tracker.remove(i1), "b");
}

#[test]
fn put_stores_at_any_index_below_the_capacity() {
    let mut tracker: Tracker<&str> = Tracker::new(3);
    // Index 2 was not handed out; the operation is stored there all the same.
    tracker.put(2, "a");
    let guard = tracker.get(2).unwrap();
    assert_eq!(*guard.as_mut(&mut tracker), "a");
    tracker.put(2, "b");
    let guard = tracker.get(2).unwrap();
    assert_eq!(*guard.as_mut(&mut tracker), "b");

    let mut ops: OpTracker<u32> = OpTracker::new(2);
    ops.put(1, 7);
    assert_eq!(ops.remove(1), 7);
}
