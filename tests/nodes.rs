use rustengan::echo::{self, EchoNode};
use rustengan::standalone;
use rustengan::unique::{self, UniqueNode};
use rustengan::{Body, Event, Init, Message, Node, NodeError};

fn init(id: &str) -> Init {
    Init { node_id: id.to_string(), node_ids: vec![id.to_string()] }
}

fn envelope<P>(payload: P) -> Message<P> {
    Message {
        src: "c1".to_string(),
        dst: "n1".to_string(),
        body: Body { id: Some(9), in_reply_to: None, payload },
    }
}

#[test]
fn into_reply_swaps_and_counts() {
    let mut counter: usize = 4;
    let r = envelope(17u8).into_reply(Some(&mut counter));
    assert_eq!(r.src, "n1");
    assert_eq!(r.dst, "c1");
    assert_eq!(r.body.id, Some(4));
    assert_eq!(r.body.in_reply_to, Some(9));
    assert_eq!(r.body.payload, 17);
    assert_eq!(counter, 5);
    let r = envelope(1u8).into_reply(None);
    assert_eq!(r.body.id, None);
    assert_eq!(r.body.in_reply_to, Some(9));
}

#[test]
fn echo_answers_with_same_text() {
    let mut n = EchoNode::from_init((), init("n1")).unwrap();
    let out = n
        .step(Event::Message(envelope(echo::Payload::Echo { echo: "hi".to_string() })))
        .unwrap();
    assert_eq!(out.len(), 1);
    assert_eq!(out[0].dst, "c1");
    assert_eq!(out[0].body.id, Some(1));
    assert_eq!(out[0].body.in_reply_to, Some(9));
    match &out[0].body.payload {
        echo::Payload::EchoOk { echo } => assert_eq!(echo, "hi"),
        other => panic!("unexpected payload {:?}", other),
    }
    assert_eq!(n.id, 2);
    let out = n
        .step(Event::Message(envelope(echo::Payload::EchoOk { echo: "x".to_string() })))
        .unwrap();
    assert!(out.is_empty());
}

#[test]
fn echo_rejects_injected_and_eof() {
    let mut n = EchoNode::from_init((), init("n1")).unwrap();
    assert!(matches!(n.step(Event::Injected(())), Err(NodeError::UnexpectedEvent)));
    assert!(matches!(n.step(Event::EOF), Err(NodeError::UnexpectedEvent)));
}

#[test]
fn unique_ids_join_node_and_counter() {
    let mut n = UniqueNode::from_init((), init("n3")).unwrap();
    let out = n.step(Event::Message(envelope(unique::Payload::Generate))).unwrap();
    match &out[0].body.payload {
        unique::Payload::GenerateOk { guid } => assert_eq!(guid, "n3-2"),
        other => panic!("unexpected payload {:?}", other),
    }
    assert_eq!(out[0].body.id, Some(1));
    let out = n.step(Event::Message(envelope(unique::Payload::Generate))).unwrap();
    match &out[0].body.payload {
        unique::Payload::GenerateOk { guid } => assert_eq!(guid, "n3-3"),
        other => panic!("unexpected payload {:?}", other),
    }
}

#[test]
fn unique_ids_large_counter_in_decimal() {
    let mut n = UniqueNode::from_init((), init("n1")).unwrap();
    n.id = 1233;
    let out = n.step(Event::Message(envelope(unique::Payload::Generate))).unwrap();
    match &out[0].body.payload {
        unique::Payload::GenerateOk { guid } => assert_eq!(guid, "n1-1234"),
        other => panic!("unexpected payload {:?}", other),
    }
}

fn plain(payload: standalone::Payload) -> standalone::Message {
    standalone::Message {
        src: "c1".to_string(),
        dst: "n1".to_string(),
        body: standalone::Body { id: Some(5), in_reply_to: None, payload },
    }
}

#[test]
fn standalone_node_handles_init_echo_generate() {
    let mut n = standalone::Node::new();
    assert_eq!(n.id, "");
    assert_eq!(n.msg_id, 0);
    let out = n
        .step(plain(standalone::Payload::Init {
            node_id: "n1".to_string(),
            node_ids: vec!["n1".to_string()],
        }))
        .unwrap();
    assert_eq!(n.id, "n1");
    assert_eq!(out[0].src, "n1");
    assert_eq!(out[0].dst, "c1");
    assert_eq!(out[0].body.id, Some(0));
    assert_eq!(out[0].body.in_reply_to, Some(5));
    assert!(matches!(out[0].body.payload, standalone::Payload::InitOk));
    let out = n.step(plain(standalone::Payload::Echo { echo: "e".to_string() })).unwrap();
    assert!(matches!(&out[0].body.payload, standalone::Payload::EchoOk { echo } if echo == "e"));
    assert_eq!(out[0].body.id, Some(1));
    let out = n.step(plain(standalone::Payload::Generate)).unwrap();
    assert!(matches!(out[0].body.payload, standalone::Payload::GenerateOk { id: 2 }));
    assert_eq!(n.msg_id, 3);
}

#[test]
fn standalone_node_rejects_init_ok() {
    let mut n = standalone::Node::new();
    let r = n.step(plain(standalone::Payload::InitOk));
    assert!(matches!(r, Err(NodeError::UnexpectedInitOk)));
    let out = n.step(plain(standalone::Payload::GenerateOk { id: 1 })).unwrap();
    assert!(out.is_empty());
    assert_eq!(n.msg_id, 0);
}

#[test]
fn guid_joins_name_dash_and_decimal() {
    assert_eq!(unique::guid_for(&"n7".to_string(), 0), "n7-0");
    assert_eq!(unique::guid_for(&"node".to_string(), 90210), "node-90210");
}
