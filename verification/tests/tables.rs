use orchestra::comm::{Call, Message, MessageType};
use orchestra::fntable::{binary_search, FnTable};
use orchestra::frame::{frame_message, subscription_payload, PREFIX_WIDTH};
use orchestra::graph::CompGraph;
use orchestra::objtable::ObjTable;
use orchestra::utils::{args_to_send, is_ack};

#[test]
fn test_args_to_send() {
    let args = vec![1, 4, 5, 5, 2, 2, 3, 3];
    let present = vec![1, 2, 4];
    let res = args_to_send(&args, |objref| present.binary_search(&objref).is_err());
    assert_eq!(res, vec!(3, 5));
}

#[test]
fn args_to_send_of_nothing_is_nothing() {
    let res = args_to_send(&[], |_| true);
    assert_eq!(res, Vec::<u64>::new());
}

#[test]
fn args_to_send_sorts_and_drops_duplicates() {
    let res = args_to_send(&[9, 7, 9, 8, 7, 0], |_| true);
    assert_eq!(res, vec![0, 7, 8, 9]);
}

#[test]
fn args_to_send_asks_once_for_each_object() {
    let asked = std::cell::RefCell::new(Vec::new());
    let res = args_to_send(&[3, 1, 3, 1, 2], |objref| {
        asked.borrow_mut().push(objref);
        objref != 2
    });
    assert_eq!(res, vec![1, 3]);
    assert_eq!(*asked.borrow(), vec![1, 2, 3]);
}

#[test]
fn ack_is_told_from_other_kinds() {
    assert!(is_ack(&Message::ack()));
    assert!(is_ack(&Message::ack_worker(3)));
    assert!(!is_ack(&Message::hello()));
    assert!(!is_ack(&Message::pull(1, 2)));
}

#[test]
fn messages_carry_their_fields() {
    let msg = Message::deliver(7, "tcp://b".to_string());
    assert_eq!(msg.field_type, MessageType::Deliver);
    assert_eq!(msg.objref, 7);
    assert_eq!(msg.address, "tcp://b");
    assert_eq!(msg.workerid, 0);
    let call = Call::new("f".to_string(), vec![1, 2], 3);
    let msg = Message::invoke(call.clone());
    assert_eq!(msg.field_type, MessageType::Invoke);
    assert_eq!(msg.call, call);
    assert_eq!(Message::new(MessageType::Hello), Message::hello());
    assert_eq!(msg.clone(), msg);
}

#[test]
fn function_table_keeps_entries_ascending() {
    let mut table = FnTable::new();
    for w in [5usize, 1, 9, 3, 7, 0] {
        table.register_function("f", w);
    }
    assert_eq!(table.workers("f"), vec![0, 1, 3, 5, 7, 9]);
    assert_eq!(table.workers("g"), Vec::<usize>::new());
    assert!(table.can_execute("f", 7));
    assert!(!table.can_execute("f", 8));
    assert!(!table.can_execute("g", 7));
}

#[test]
fn registering_a_function_twice_changes_nothing() {
    let mut table = FnTable::new();
    table.register_function("f", 4);
    table.register_function("f", 2);
    let once = table.workers("f");
    table.register_function("f", 4);
    table.register_function("f", 2);
    assert_eq!(table.workers("f"), once);
    assert_eq!(once, vec![2, 4]);
}

#[test]
fn binary_search_finds_the_place() {
    let v = vec![2usize, 4, 6, 8];
    assert_eq!(binary_search(&v, 2), Ok(0));
    assert_eq!(binary_search(&v, 8), Ok(3));
    assert_eq!(binary_search(&v, 0), Err(0));
    assert_eq!(binary_search(&v, 5), Err(2));
    assert_eq!(binary_search(&v, 9), Err(4));
    assert_eq!(binary_search(&Vec::new(), 1), Err(0));
}

#[test]
fn object_table_counts_objects_from_zero() {
    let mut table = ObjTable::new();
    assert_eq!(table.len(), 0);
    assert!(!table.is_available(0));
    assert_eq!(table.register_new_object(), 0);
    assert_eq!(table.register_new_object(), 1);
    assert_eq!(table.len(), 2);
    assert!(!table.is_available(1));
    table.register_result(1, 4);
    table.register_result(1, 2);
    assert!(table.is_available(1));
    assert!(!table.is_available(0));
    assert!(!table.is_available(2));
    assert_eq!(*table.holders(1), vec![4, 2]);
    assert!(table.holds(1, 2));
    assert!(!table.holds(1, 3));
    assert!(!table.holds(0, 2));
    assert!(!table.holds(5, 2));
}

#[test]
fn frame_begins_with_seven_digits() {
    assert_eq!(frame_message(0, b"x"), b"0000000x".to_vec());
    assert_eq!(frame_message(5, b"ab"), b"0000005ab".to_vec());
    assert_eq!(frame_message(1234, b""), b"0001234".to_vec());
    assert_eq!(frame_message(9_999_999, b"!"), b"9999999!".to_vec());
    assert_eq!(PREFIX_WIDTH, 7);
}

#[test]
fn frame_of_a_large_id_takes_all_its_digits() {
    assert_eq!(frame_message(10_000_000, b"z"), b"10000000z".to_vec());
    assert_eq!(frame_message(123_456_789, b""), b"123456789".to_vec());
}

#[test]
fn subscriber_skips_seven_bytes() {
    assert_eq!(subscription_payload(b"0000005ab"), b"ab".to_vec());
    assert_eq!(subscription_payload(b"0000005"), Vec::<u8>::new());
    assert_eq!(subscription_payload(b"00005"), Vec::<u8>::new());
    assert_eq!(subscription_payload(b""), Vec::<u8>::new());
    let payload = vec![0u8, 255, 7, 48];
    assert_eq!(subscription_payload(&frame_message(42, &payload)), payload);
}

#[test]
fn graph_binds_results_to_their_calls() {
    let mut graph = CompGraph::new();
    assert_eq!(graph.add_obj(), 0);
    assert_eq!(graph.add_obj(), 1);
    assert_eq!(graph.num_objects(), 2);
    assert_eq!(graph.producer(1), None);
    graph.add_op("f".to_string(), &[0], 1);
    assert_eq!(graph.num_ops(), 1);
    assert_eq!(*graph.op(0), Call::new("f".to_string(), vec![0], 1));
    assert_eq!(graph.producer(1), Some(0));
    assert_eq!(graph.producer(0), None);
    assert_eq!(graph.producer(9), None);
    graph.add_op("g".to_string(), &[1], 9);
    assert_eq!(graph.num_ops(), 2);
    assert_eq!(graph.num_objects(), 2);
}
