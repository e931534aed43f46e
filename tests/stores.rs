use rustengan::kafka::{self, KafkaNode};
use rustengan::kv_store::{self, KeyValueStoreNode};
use rustengan::{Body, Event, Init, Message, Node, NodeError};

fn init() -> Init {
    Init { node_id: "n1".to_string(), node_ids: vec!["n1".to_string()] }
}

fn envelope<P>(payload: P) -> Event<P> {
    Event::Message(Message {
        src: "c1".to_string(),
        dst: "n1".to_string(),
        body: Body { id: Some(3), in_reply_to: None, payload },
    })
}

fn send(n: &mut KafkaNode, key: &str, message: usize) -> usize {
    let out = n.step(envelope(kafka::Payload::Send { key: key.to_string(), message })).unwrap();
    match out[0].body.payload {
        kafka::Payload::SendOk { offset } => offset,
        ref other => panic!("unexpected payload {:?}", other),
    }
}

#[test]
fn log_send_assigns_rising_offsets() {
    let mut n = KafkaNode::from_init((), init()).unwrap();
    assert_eq!(send(&mut n, "a", 10), 0);
    assert_eq!(send(&mut n, "b", 20), 1);
    assert_eq!(send(&mut n, "a", 30), 2);
    assert_eq!(n.offset, 3);
    assert_eq!(n.id, 4);
}

#[test]
fn log_poll_returns_tail_from_offset() {
    let mut n = KafkaNode::from_init((), init()).unwrap();
    send(&mut n, "a", 10);
    send(&mut n, "b", 20);
    send(&mut n, "a", 30);
    send(&mut n, "a", 40);
    let offsets = vec![("a".to_string(), 1), ("b".to_string(), 0), ("c".to_string(), 0)];
    let out = n.step(envelope(kafka::Payload::Poll { offsets })).unwrap();
    assert_eq!(out[0].body.in_reply_to, Some(3));
    match &out[0].body.payload {
        kafka::Payload::PollOk { messages } => {
            assert_eq!(messages[0], ("a".to_string(), vec![(2, 30), (3, 40)]));
            assert_eq!(messages[1], ("b".to_string(), vec![(1, 20)]));
            assert_eq!(messages[2], ("c".to_string(), vec![]));
        }
        other => panic!("unexpected payload {:?}", other),
    }
    let out = n.step(envelope(kafka::Payload::Poll { offsets: vec![("a".to_string(), 2)] })).unwrap();
    match &out[0].body.payload {
        kafka::Payload::PollOk { messages } => {
            assert_eq!(messages[0].1, vec![(2, 30), (3, 40)]);
        }
        other => panic!("unexpected payload {:?}", other),
    }
}

#[test]
fn log_list_reports_last_offsets_of_known_keys() {
    let mut n = KafkaNode::from_init((), init()).unwrap();
    send(&mut n, "a", 10);
    send(&mut n, "a", 11);
    n.step(envelope(kafka::Payload::Poll { offsets: vec![("e".to_string(), 0)] })).unwrap();
    let keys = vec!["a".to_string(), "e".to_string(), "z".to_string()];
    let out = n.step(envelope(kafka::Payload::ListCommittedOffsets { keys })).unwrap();
    match &out[0].body.payload {
        kafka::Payload::ListCommittedOffsetsOk { offsets } => {
            assert_eq!(offsets, &vec![("a".to_string(), 1), ("e".to_string(), 0)]);
        }
        other => panic!("unexpected payload {:?}", other),
    }
}

#[test]
fn log_commit_is_acknowledged() {
    let mut n = KafkaNode::from_init((), init()).unwrap();
    let offsets = vec![("a".to_string(), 4), ("a".to_string(), 6)];
    let out = n.step(envelope(kafka::Payload::CommitOffsets { offsets })).unwrap();
    assert!(matches!(out[0].body.payload, kafka::Payload::CommitOffsetsOk));
    assert_eq!(n.committed_offsets.get("a").map(|v| *v), Some(6));
    let out = n.step(envelope(kafka::Payload::CommitOffsetsOk)).unwrap();
    assert!(out.is_empty());
}

#[test]
fn log_rejects_injected_events() {
    let mut n = KafkaNode::from_init((), init()).unwrap();
    assert!(matches!(n.step(Event::EOF), Err(NodeError::UnexpectedEvent)));
}

#[test]
fn log_offsets_exhausted_is_fatal() {
    let mut n = KafkaNode::from_init((), init()).unwrap();
    n.offset = usize::MAX;
    let r = n.step(envelope(kafka::Payload::Send { key: "a".to_string(), message: 1 }));
    assert!(matches!(r, Err(NodeError::OffsetsExhausted)));
}

fn op(name: &str, key: usize, value: Option<usize>) -> kv_store::Operation {
    (name.to_string(), key, value)
}

#[test]
fn transaction_reads_see_earlier_writes() {
    let mut n = KeyValueStoreNode::from_init((), init()).unwrap();
    let transaction = vec![op("r", 1, None), op("w", 1, Some(5)), op("r", 1, None), op("r", 2, Some(9))];
    let out = n.step(envelope(kv_store::Payload::Transaction { transaction })).unwrap();
    assert_eq!(out[0].body.id, Some(1));
    match &out[0].body.payload {
        kv_store::Payload::TransactionOk { transaction } => assert_eq!(
            transaction,
            &vec![op("r", 1, None), op("w", 1, Some(5)), op("r", 1, Some(5)), op("r", 2, None)]
        ),
        other => panic!("unexpected payload {:?}", other),
    }
    let out = n
        .step(envelope(kv_store::Payload::Transaction { transaction: vec![op("r", 1, None)] }))
        .unwrap();
    match &out[0].body.payload {
        kv_store::Payload::TransactionOk { transaction } => {
            assert_eq!(transaction, &vec![op("r", 1, Some(5))])
        }
        other => panic!("unexpected payload {:?}", other),
    }
}

#[test]
fn transaction_write_without_value_is_fatal() {
    let mut n = KeyValueStoreNode::from_init((), init()).unwrap();
    let r = n.step(envelope(kv_store::Payload::Transaction { transaction: vec![op("w", 1, None)] }));
    assert!(matches!(r, Err(NodeError::MissingWriteValue)));
}

#[test]
fn transaction_unknown_operation_is_fatal() {
    let mut n = KeyValueStoreNode::from_init((), init()).unwrap();
    let r = n.step(envelope(kv_store::Payload::Transaction { transaction: vec![op("x", 1, None)] }));
    assert!(matches!(r, Err(NodeError::UnknownOperation)));
}
