use base_core::storage::set::{SetHandler, StorageSet};

#[test]
fn set_handler_inserts_each_value_once() {
    let mut set: SetHandler<u64> = SetHandler::new();
    assert!(set.is_empty().unwrap());
    assert!(set.insert(5).unwrap());
    assert!(set.insert(7).unwrap());
    assert!(!set.insert(5).unwrap());
    assert_eq!(set.len().unwrap(), 2);
    assert!(set.contains(&5).unwrap());
    assert!(!set.contains(&6).unwrap());
    assert_eq!(set.at(0).unwrap(), Some(5));
    assert_eq!(set.at(1).unwrap(), Some(7));
    assert_eq!(set.at(2).unwrap(), None);
}

#[test]
fn set_handler_remove_moves_last_into_the_gap() {
    let mut set: SetHandler<u64> = SetHandler::new();
    for v in [1u64, 2, 3, 4] {
        set.insert(v).unwrap();
    }
    assert!(set.remove(&2).unwrap());
    assert!(!set.remove(&2).unwrap());
    assert_eq!(set.read_range(0, 10).unwrap(), vec![1, 4, 3]);
    assert!(!set.contains(&2).unwrap());
    assert!(set.contains(&4).unwrap());
    assert!(set.remove(&3).unwrap());
    assert_eq!(set.read().unwrap().into_vec(), vec![1, 4]);
}

#[test]
fn set_handler_read_range_clamps() {
    let mut set: SetHandler<u64> = SetHandler::new();
    for v in [10u64, 20, 30] {
        set.insert(v).unwrap();
    }
    assert_eq!(set.read_range(1, 2).unwrap(), vec![20]);
    assert_eq!(set.read_range(2, 100).unwrap(), vec![30]);
    assert_eq!(set.read_range(5, 1).unwrap(), Vec::<u64>::new());
}

#[test]
fn set_handler_write_replaces_and_delete_clears() {
    let mut set: SetHandler<u64> = SetHandler::new();
    set.insert(9).unwrap();
    set.write(StorageSet::new_unchecked(vec![3, 1, 2])).unwrap();
    assert_eq!(set.read_range(0, 3).unwrap(), vec![3, 1, 2]);
    assert!(!set.contains(&9).unwrap());
    assert!(set.contains(&1).unwrap());
    assert!(set.remove(&3).unwrap());
    assert_eq!(set.read_range(0, 3).unwrap(), vec![2, 1]);
    set.delete().unwrap();
    assert_eq!(set.len().unwrap(), 0);
    assert!(!set.contains(&1).unwrap());
}

#[test]
fn a_removed_value_is_absent_and_can_return() {
    let mut set: SetHandler<u64> = SetHandler::new();
    set.insert(9).unwrap();
    set.insert(11).unwrap();
    assert!(set.remove(&11).unwrap());
    assert!(!set.contains(&11).unwrap());
    assert_eq!(set.len().unwrap(), 1);
    assert!(set.insert(11).unwrap());
    assert_eq!(set.read_range(0, 10).unwrap(), vec![9, 11]);
}
