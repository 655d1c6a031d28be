use roomchat::dispatch::Dispatcher;
use roomchat::room::RoomAddress;
use roomchat::sequence_number::SequenceNumber;
use std::collections::HashSet;
use std::sync::Mutex;

#[test]
fn sequence_number_counts_from_zero() {
    let mut sn = SequenceNumber::default();
    assert_eq!(sn.next(), Some(0));
    assert_eq!(sn.next(), Some(1));
    assert_eq!(sn.next(), Some(2));
}

#[test]
fn sequence_number_shared_by_interleaved_tasks_issues_each_value_once() {
    let shared = Mutex::new(SequenceNumber::new());
    let tasks = 4;
    let per_task = 25;
    let mut seen: Vec<Vec<usize>> = vec![vec![]; tasks];
    for round in 0..per_task {
        for t in 0..tasks {
            // tasks take the lock in a different order each round
            let task = (t + round) % tasks;
            let v = shared.lock().unwrap().next().unwrap();
            seen[task].push(v);
        }
    }
    let all: Vec<usize> = seen.into_iter().flatten().collect();
    let n = tasks * per_task;
    assert_eq!(all.len(), n);
    let distinct: HashSet<usize> = all.iter().copied().collect();
    assert_eq!(distinct.len(), n);
    assert!(all.iter().all(|v| *v < n));
}

#[test]
fn child_address_is_one_longer_and_distinct() {
    let root = RoomAddress::root();
    assert!(root.is_root());
    assert_eq!(root.len(), 0);
    let a = RoomAddress::child_of(&root, 3);
    let b = RoomAddress::child_of(&root, 4);
    assert_eq!(a.len(), 1);
    assert!(!a.is_root());
    assert_ne!(a, b);
    let aa = RoomAddress::child_of(&a, 0);
    assert_eq!(aa.segments, vec![3, 0]);
    assert_eq!(aa.len(), 2);
    assert!(aa.is_child_of(&a));
    assert!(!aa.is_child_of(&b));
    assert!(!aa.is_child_of(&root));
    assert_eq!(aa.last_index(), Some(0));
    assert_eq!(root.last_index(), None);
    assert_eq!(aa.copy(), aa);
}

#[test]
fn dispatcher_drops_actions_for_unregistered_rooms() {
    let mut d: Dispatcher<&str> = Dispatcher::new();
    d.register(RoomAddress::root(), "main".to_string(), "root-sender").unwrap();
    let target = RoomAddress { segments: vec![9] };
    let routed = d.route(&target);
    assert_eq!(routed.unwrap_err(), "No room is open at this address: the action is dropped");
    assert_eq!(d.len(), 1);
    assert_eq!(*d.route(&RoomAddress::root()).unwrap(), "root-sender");
}

#[test]
fn dispatcher_registers_once_per_address_and_selects() {
    let mut d: Dispatcher<u8> = Dispatcher::new();
    assert!(d.current_address().is_none());
    d.register(RoomAddress::root(), "main".to_string(), 1).unwrap();
    d.register(RoomAddress { segments: vec![1] }, "m".to_string(), 2).unwrap();
    let dup = d.register(RoomAddress { segments: vec![1] }, "again".to_string(), 3);
    assert_eq!(dup.unwrap_err(), "A room is already open at this address");
    assert_eq!(d.len(), 2);
    assert_eq!(d.position(&RoomAddress { segments: vec![1] }), Some(1));
    assert_eq!(*d.route(&RoomAddress { segments: vec![1] }).unwrap(), 2);
    assert!(d.current_address().unwrap().is_root());
    d.select_next();
    assert_eq!(d.current_address().unwrap().segments, vec![1]);
    d.select_next();
    assert_eq!(d.current_address().unwrap().segments, vec![1]);
    d.select_previous();
    d.select_previous();
    assert!(d.current_address().unwrap().is_root());
}

#[test]
fn addresses_as_text() {
    assert_eq!(RoomAddress::root().to_text(), "/");
    assert_eq!(RoomAddress { segments: vec![0, 12] }.to_text(), "/0/12");
}

#[test]
fn sequence_number_from_any_start_issues_a_contiguous_run() {
    let shared = Mutex::new(SequenceNumber::new());
    for _ in 0..5 {
        shared.lock().unwrap().next();
    }
    let mut all: Vec<usize> = vec![];
    for _ in 0..3 {
        for _task in 0..4 {
            all.push(shared.lock().unwrap().next().unwrap());
        }
    }
    let distinct: HashSet<usize> = all.iter().copied().collect();
    assert_eq!(distinct.len(), 12);
    assert!(all.iter().all(|v| (5..17).contains(v)));
    assert_eq!(shared.lock().unwrap().next(), Some(17));
}
