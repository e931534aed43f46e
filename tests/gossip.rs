use rustengan::gossip::{
    find_name, find_row, gossip_for, split_by_known, with_extras, BroadcastNode, InjectedPayload,
    Payload,
};
use rustengan::{handshake, Body, Event, Init, InitPayload, Message, Node, NodeError};

fn msg(src: &str, dst: &str, id: Option<usize>, payload: Payload) -> Message<Payload> {
    Message {
        src: src.to_string(),
        dst: dst.to_string(),
        body: Body { id, in_reply_to: None, payload },
    }
}

fn node(id: &str, ids: &[&str]) -> BroadcastNode {
    let init = Init {
        node_id: id.to_string(),
        node_ids: ids.iter().map(|s| s.to_string()).collect(),
    };
    BroadcastNode::from_init((), init).unwrap()
}

fn step(n: &mut BroadcastNode, m: Message<Payload>) -> Result<Vec<Message<Payload>>, NodeError> {
    n.step(Event::Message(m))
}

fn tick(n: &mut BroadcastNode) -> Vec<Message<Payload>> {
    n.step(Event::Injected(InjectedPayload::Gossip)).unwrap()
}

fn set_topology(n: &mut BroadcastNode, rows: &[(&str, &[&str])]) {
    let topology = rows
        .iter()
        .map(|(k, v)| (k.to_string(), v.iter().map(|s| s.to_string()).collect()))
        .collect();
    let me = n.node.clone();
    step(n, msg("c1", &me, Some(1), Payload::Topology { topology })).unwrap();
}

#[test]
fn handshake_replies_init_ok_with_id_zero() {
    let request = Message {
        src: "c0".to_string(),
        dst: "n1".to_string(),
        body: Body {
            id: Some(7),
            in_reply_to: None,
            payload: InitPayload::Init(Init {
                node_id: "n1".to_string(),
                node_ids: vec!["n1".to_string(), "n2".to_string()],
            }),
        },
    };
    let (init, reply) = handshake(request).unwrap();
    assert_eq!(init.node_id, "n1");
    assert_eq!(init.node_ids, vec!["n1".to_string(), "n2".to_string()]);
    assert_eq!(reply.src, "n1");
    assert_eq!(reply.dst, "c0");
    assert_eq!(reply.body.id, Some(0));
    assert_eq!(reply.body.in_reply_to, Some(7));
    assert!(matches!(reply.body.payload, InitPayload::InitOk));
}

#[test]
fn handshake_rejects_other_payload() {
    let request = Message {
        src: "c0".to_string(),
        dst: "n1".to_string(),
        body: Body { id: Some(1), in_reply_to: None, payload: InitPayload::InitOk },
    };
    assert!(matches!(handshake(request), Err(NodeError::NotInit)));
}

#[test]
fn broadcast_then_read_returns_value() {
    let mut n = node("n1", &["n1", "n2"]);
    let out = step(&mut n, msg("c1", "n1", Some(3), Payload::Broadcast { message: 5 })).unwrap();
    assert_eq!(out.len(), 1);
    assert_eq!(out[0].src, "n1");
    assert_eq!(out[0].dst, "c1");
    assert_eq!(out[0].body.id, Some(1));
    assert_eq!(out[0].body.in_reply_to, Some(3));
    assert!(matches!(out[0].body.payload, Payload::BroadcastOk));
    let out = step(&mut n, msg("c1", "n1", Some(4), Payload::Read)).unwrap();
    assert_eq!(out.len(), 1);
    assert_eq!(out[0].body.id, Some(2));
    match &out[0].body.payload {
        Payload::ReadOk { messages } => assert_eq!(messages, &vec![5]),
        other => panic!("unexpected payload {:?}", other),
    }
}

#[test]
fn broadcast_same_value_twice_keeps_one() {
    let mut n = node("n1", &["n1", "n2"]);
    step(&mut n, msg("c1", "n1", Some(1), Payload::Broadcast { message: 5 })).unwrap();
    step(&mut n, msg("c1", "n1", Some(2), Payload::Broadcast { message: 5 })).unwrap();
    assert_eq!(n.messages, vec![5]);
    assert_eq!(n.id, 3);
}

#[test]
fn topology_sets_neighborhood() {
    let mut n = node("n1", &["n1", "n2"]);
    let topology = vec![
        ("n2".to_string(), vec!["n1".to_string()]),
        ("n1".to_string(), vec!["n2".to_string()]),
    ];
    let out = step(&mut n, msg("c1", "n1", Some(1), Payload::Topology { topology })).unwrap();
    assert_eq!(n.neighborhood, vec!["n2".to_string()]);
    assert_eq!(out.len(), 1);
    assert!(matches!(out[0].body.payload, Payload::TopologyOk));
}

#[test]
fn topology_without_own_row_is_fatal() {
    let mut n = node("n1", &["n1", "n2"]);
    let topology = vec![("n2".to_string(), vec!["n1".to_string()])];
    let r = step(&mut n, msg("c1", "n1", Some(1), Payload::Topology { topology }));
    assert!(matches!(r, Err(NodeError::MissingTopology)));
}

#[test]
fn gossip_tick_sends_unknown_values() {
    let mut n = node("n1", &["n1", "n2"]);
    set_topology(&mut n, &[("n1", &["n2"]), ("n2", &["n1"])]);
    step(&mut n, msg("c1", "n1", Some(2), Payload::Broadcast { message: 5 })).unwrap();
    let out = tick(&mut n);
    assert_eq!(out.len(), 1);
    assert_eq!(out[0].src, "n1");
    assert_eq!(out[0].dst, "n2");
    assert_eq!(out[0].body.id, None);
    assert_eq!(out[0].body.in_reply_to, None);
    match &out[0].body.payload {
        Payload::Gossip { seen } => assert_eq!(seen, &vec![5]),
        other => panic!("unexpected payload {:?}", other),
    }
}

#[test]
fn gossip_tick_without_neighbors_sends_nothing() {
    let mut n = node("n1", &["n1", "n2"]);
    step(&mut n, msg("c1", "n1", Some(2), Payload::Broadcast { message: 5 })).unwrap();
    assert!(tick(&mut n).is_empty());
}

#[test]
fn gossip_to_neighbor_outside_roster_is_fatal() {
    let mut n = node("n1", &["n1", "n2"]);
    set_topology(&mut n, &[("n1", &["n9"])]);
    let r = n.step(Event::Injected(InjectedPayload::Gossip));
    assert!(matches!(r, Err(NodeError::UnknownPeer)));
}

#[test]
fn gossip_received_updates_values_and_known() {
    let mut n = node("n1", &["n1", "n2"]);
    let out = step(&mut n, msg("n2", "n1", None, Payload::Gossip { seen: vec![7, 8] })).unwrap();
    assert!(out.is_empty());
    assert_eq!(n.messages, vec![7, 8]);
    let slot = n.peers.iter().position(|p| p == "n2").unwrap();
    assert_eq!(n.known[slot], vec![7, 8]);
    set_topology(&mut n, &[("n1", &["n2"])]);
    step(&mut n, msg("c1", "n1", Some(3), Payload::Broadcast { message: 9 })).unwrap();
    let out = tick(&mut n);
    match &out[0].body.payload {
        Payload::Gossip { seen } => assert_eq!(seen, &vec![9]),
        other => panic!("unexpected payload {:?}", other),
    }
}

#[test]
fn gossip_from_unknown_sender_is_fatal() {
    let mut n = node("n1", &["n1", "n2"]);
    let r = step(&mut n, msg("n3", "n1", None, Payload::Gossip { seen: vec![1] }));
    assert!(matches!(r, Err(NodeError::UnknownPeer)));
}

#[test]
fn reply_payloads_are_ignored() {
    let mut n = node("n1", &["n1", "n2"]);
    for p in [Payload::BroadcastOk, Payload::TopologyOk, Payload::ReadOk { messages: vec![1] }] {
        assert!(step(&mut n, msg("n2", "n1", Some(1), p)).unwrap().is_empty());
    }
    assert!(n.messages.is_empty());
    assert!(n.step(Event::EOF).unwrap().is_empty());
}

#[test]
fn exhausted_ids_are_fatal() {
    let mut n = node("n1", &["n1"]);
    n.id = usize::MAX;
    let r = step(&mut n, msg("c1", "n1", Some(1), Payload::Read));
    assert!(matches!(r, Err(NodeError::IdsExhausted)));
}

#[test]
fn roster_duplicates_collapse() {
    let n = node("n1", &["n1", "n2", "n1"]);
    assert_eq!(n.peers, vec!["n1".to_string(), "n2".to_string()]);
    assert_eq!(n.known.len(), 2);
    assert_eq!(n.id, 1);
}

#[test]
fn values_reach_every_node_of_a_line() {
    let ids = ["n1", "n2", "n3", "n4"];
    let rows: Vec<(&str, &[&str])> =
        vec![("n1", &["n2"]), ("n2", &["n1", "n3"]), ("n3", &["n2", "n4"]), ("n4", &["n3"])];
    let mut nodes: Vec<BroadcastNode> = ids.iter().map(|id| node(id, &ids)).collect();
    for n in nodes.iter_mut() {
        set_topology(n, &rows);
    }
    step(&mut nodes[0], msg("c1", "n1", Some(2), Payload::Broadcast { message: 42 })).unwrap();
    for _ in 0..3 {
        let mut sent = Vec::new();
        for n in nodes.iter_mut() {
            sent.extend(tick(n));
        }
        for g in sent {
            let to = ids.iter().position(|id| *id == g.dst).unwrap();
            step(&mut nodes[to], g).unwrap();
        }
    }
    for n in &nodes {
        assert!(n.messages.contains(&42), "{} lacks the value", n.node);
    }
}

#[test]
fn split_and_extras_follow_order() {
    let (known, unknown) = split_by_known(&vec![1, 2, 3, 4], &vec![4, 2]);
    assert_eq!(known, vec![2, 4]);
    assert_eq!(unknown, vec![1, 3]);
    let r = with_extras(unknown, &known, &vec![false, true]);
    assert_eq!(r, vec![1, 3, 4]);
}

#[test]
fn gossip_for_small_sets_has_no_extras() {
    assert_eq!(gossip_for(&vec![5], &vec![]), vec![5]);
    assert_eq!(gossip_for(&vec![5, 6], &vec![5]), vec![6]);
}

#[test]
fn gossip_for_full_budget_repeats_all_known() {
    let messages: Vec<usize> = (0..11).collect();
    let r = gossip_for(&messages, &vec![0]);
    assert_eq!(r, vec![1, 2, 3, 4, 5, 6, 7, 8, 9, 10, 0]);
}

#[test]
fn lookups_find_first_match() {
    let names = vec!["a".to_string(), "b".to_string()];
    assert_eq!(find_name(&names, &"b".to_string()), Some(1));
    assert_eq!(find_name(&names, &"c".to_string()), None);
    let rows = vec![
        ("x".to_string(), vec!["1".to_string()]),
        ("x".to_string(), vec!["2".to_string()]),
    ];
    assert_eq!(find_row(&rows, &"x".to_string()), Some(0));
    assert_eq!(find_row(&rows, &"y".to_string()), None);
}

#[test]
fn gossip_extras_never_exceed_budget() {
    let messages: Vec<usize> = (0..20).collect();
    for _ in 0..50 {
        let r = gossip_for(&messages, &vec![0, 1, 2]);
        let unknown: Vec<usize> = (3..20).collect();
        assert_eq!(r[..17].to_vec(), unknown);
        assert!(r.len() <= 18);
        assert!(r[17..].iter().all(|x| *x < 3));
    }
}

#[test]
fn fresh_node_from_handshake() {
    let n = node("n1", &["n1", "n2"]);
    assert_eq!(n.id, 1);
    assert_eq!(n.node, "n1");
    assert!(n.messages.is_empty());
    assert!(n.neighborhood.is_empty());
    assert!(n.known.iter().all(|k| k.is_empty()));
}

#[test]
fn crate_root_names_broadcast_items() {
    let mut n = rustengan::BroadcastNode::from_init((), Init { node_id: "n1".to_string(), node_ids: vec![] }).unwrap();
    let out = n
        .step(Event::Message(Message {
            src: "c1".to_string(),
            dst: "n1".to_string(),
            body: Body { id: Some(1), in_reply_to: None, payload: rustengan::BroadcastPayload::Read },
        }))
        .unwrap();
    assert!(matches!(&out[0].body.payload, rustengan::BroadcastPayload::ReadOk { messages } if messages.is_empty()));
}
