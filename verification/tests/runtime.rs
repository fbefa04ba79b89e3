//! Tests of the runtime pieces: the connection state machine and its
//! stream-id table, cluster membership under events, peer discovery,
//! negotiation, balancing, and the pool.

use cql::cluster::{parse_nodes, Cluster, EventHandler};
use cql::connection::{ByteBuf, InFlightMap, State};
use cql::def::{
    Consistency, CqlEvent, CqlIpAddr, CqlMetadata, CqlResponse, CqlResponseBody, CqlRow, CqlRows,
    CqlSocketAddr, CqlValue, OpcodeResponse, StatusChangeType, TopologyChangeType,
};
use cql::error::RCErrorType;
use cql::load_balancing::BalancerType;
use cql::node::{
    classify_startup_response, negotiate_step, NegotiationNext, Node, StartupEvent,
};
use cql::pool::Pool;

fn addr(a: u8, b: u8, c: u8, d: u8) -> CqlSocketAddr {
    CqlSocketAddr { ip: CqlIpAddr::V4(a, b, c, d), port: 9042 }
}

#[test]
fn state_machine_write_then_read() {
    let frame = vec![1u8, 2, 3];
    let mut st = State::Writing(ByteBuf::new(frame));
    // Partial write leaves the connection writing.
    st.mut_write_buf().consume(2);
    st.try_transition_to_reading();
    assert!(!st.is_closed());
    match &st {
        State::Writing(buf) => assert!(buf.has_remaining()),
        _ => panic!("must still be writing"),
    }
    // Draining the last byte moves it to reading with an empty buffer.
    st.mut_write_buf().consume(1);
    st.try_transition_to_reading();
    match &mut st {
        State::Reading(buf) => {
            assert_eq!(buf.bytes(), Vec::<u8>::new());
            buf.write_bytes(&vec![9, 8]);
            assert_eq!(buf.bytes(), vec![9, 8]);
        },
        _ => panic!("must be reading"),
    }
    let buf = st.unwrap_read_buf();
    assert_eq!(buf.bytes(), vec![9, 8]);
}

#[test]
fn stream_ids_exhaust_at_capacity_v2() {
    // 128 submissions on a revision-2 connection succeed; the 129th while
    // all are in flight fails as busy.
    let mut m = InFlightMap::new(2);
    let mut ids: Vec<i16> = Vec::new();
    for _ in 0..128 {
        let id = m.submit().expect("capacity not yet reached");
        assert!(!ids.contains(&id));
        ids.push(id);
    }
    let r = m.submit();
    assert!(matches!(r, Err(e) if e.kind == RCErrorType::GenericError));
    // Resolving one frees its id for a new submission.
    assert!(m.complete(ids[64]));
    let again = m.submit().expect("one slot free again");
    assert_eq!(again, ids[64]);
}

#[test]
fn stream_correlation_under_interleaved_submits() {
    // A deterministic fuzz of interleaved submits and completions: every
    // completer resolves exactly once, under its own stream id.
    let mut m = InFlightMap::new(2);
    let mut live: Vec<i16> = Vec::new();
    let mut resolved: Vec<i16> = Vec::new();
    let mut seed: u64 = 0x2545F4914F6CDD1D;
    for _ in 0..2000 {
        seed = seed.wrapping_mul(6364136223846793005).wrapping_add(1442695040888963407);
        let coin = (seed >> 33) % 3;
        if coin < 2 && live.len() < 100 {
            let id = m.submit().expect("under capacity");
            assert!(!live.contains(&id));
            live.push(id);
        } else if !live.is_empty() {
            let pick = ((seed >> 17) as usize) % live.len();
            let id = live.remove(pick);
            // First resolution succeeds, a second one reports nothing
            // pending.
            assert!(m.complete(id));
            assert!(!m.complete(id));
            resolved.push(id);
        }
    }
    // Closing fails every remaining completer exactly once.
    let rest = m.close();
    assert_eq!(rest.len(), live.len());
    for id in rest {
        assert!(live.contains(&id));
        assert!(!m.complete(id));
    }
}

#[test]
fn membership_moves_down_node_to_unavailable() {
    let mut cluster = Cluster::new();
    cluster.connect_cluster(addr(10, 0, 0, 1)).unwrap();
    cluster.create_nodes(vec![CqlIpAddr::V4(10, 0, 0, 7)]);
    assert_eq!(cluster.show_cluster_information().available.len(), 2);

    cluster.handler.notify(CqlEvent::StatusChange(StatusChangeType::Down, addr(10, 0, 0, 7)));
    let info = cluster.show_cluster_information();
    assert_eq!(info.available.len(), 1);
    assert_eq!(info.unavailable.len(), 1);
    assert_eq!(info.unavailable[0].ip, CqlIpAddr::V4(10, 0, 0, 7));

    // Subsequent balancing never selects the down node.
    for _ in 0..5 {
        cluster.balance_step();
        let current = cluster.show_cluster_information().current;
        assert_eq!(current, CqlIpAddr::V4(10, 0, 0, 1));
    }
}

#[test]
fn membership_is_coherent_under_event_sequences() {
    // After any sequence of topology and status events, a node never
    // stands in both maps.
    let mut h = EventHandler::new();
    let events = vec![
        CqlEvent::TopologyChange(TopologyChangeType::NewNode, addr(10, 0, 0, 1)),
        CqlEvent::TopologyChange(TopologyChangeType::NewNode, addr(10, 0, 0, 2)),
        CqlEvent::StatusChange(StatusChangeType::Down, addr(10, 0, 0, 1)),
        CqlEvent::StatusChange(StatusChangeType::Up, addr(10, 0, 0, 1)),
        CqlEvent::StatusChange(StatusChangeType::Up, addr(10, 0, 0, 3)),
        CqlEvent::TopologyChange(TopologyChangeType::MovedNode, addr(10, 0, 0, 2)),
        CqlEvent::StatusChange(StatusChangeType::Down, addr(10, 0, 0, 3)),
        CqlEvent::TopologyChange(TopologyChangeType::RemovedNode, addr(10, 0, 0, 2)),
        CqlEvent::UnknownEvent,
    ];
    for ev in events {
        h.notify(ev);
        let (av, unav) = h.show_cluster_information();
        for a in &av {
            assert!(!unav.iter().any(|u| u.ip == a.ip));
        }
    }
    let (av, unav) = h.show_cluster_information();
    assert_eq!(av.len(), 1);
    assert_eq!(av[0].ip, CqlIpAddr::V4(10, 0, 0, 1));
    assert_eq!(unav.len(), 1);
    assert_eq!(unav[0].ip, CqlIpAddr::V4(10, 0, 0, 3));
}

fn inet_row(a: u8, b: u8, c: u8, d: u8) -> CqlRow {
    CqlRow { cols: vec![CqlValue::CqlInet(Some(CqlIpAddr::V4(a, b, c, d)))] }
}

fn empty_meta() -> CqlMetadata {
    CqlMetadata {
        flags: 0,
        column_count: 1,
        keyspace: String::new(),
        table: String::new(),
        row_metadata: Vec::new(),
    }
}

#[test]
fn peers_response_grows_the_cluster_to_three_nodes() {
    let response = CqlResponse {
        version: 0x83,
        flags: 0,
        stream: 2,
        opcode: OpcodeResponse::OpcodeResult,
        body: CqlResponseBody::ResultRows(CqlRows {
            metadata: empty_meta(),
            rows: vec![inet_row(10, 0, 0, 2), inet_row(10, 0, 0, 3)],
        }),
    };
    let ips = parse_nodes(response).unwrap();
    assert_eq!(ips, vec![CqlIpAddr::V4(10, 0, 0, 2), CqlIpAddr::V4(10, 0, 0, 3)]);

    let mut cluster = Cluster::new();
    cluster.connect_cluster(addr(10, 0, 0, 1)).unwrap();
    cluster.create_nodes(ips);
    assert_eq!(cluster.show_cluster_information().available.len(), 3);
}

#[test]
fn parse_nodes_rejects_wrong_shapes() {
    let not_rows = CqlResponse {
        version: 0x83,
        flags: 0,
        stream: 2,
        opcode: OpcodeResponse::OpcodeReady,
        body: CqlResponseBody::ResponseReady,
    };
    assert!(matches!(parse_nodes(not_rows), Err(e) if e.kind == RCErrorType::ClusterError));

    let no_rows = CqlResponse {
        version: 0x83,
        flags: 0,
        stream: 2,
        opcode: OpcodeResponse::OpcodeResult,
        body: CqlResponseBody::ResultRows(CqlRows { metadata: empty_meta(), rows: vec![] }),
    };
    assert!(matches!(parse_nodes(no_rows), Err(e) if e.kind == RCErrorType::ReadError));

    let wrong_col = CqlResponse {
        version: 0x83,
        flags: 0,
        stream: 2,
        opcode: OpcodeResponse::OpcodeResult,
        body: CqlResponseBody::ResultRows(CqlRows {
            metadata: empty_meta(),
            rows: vec![CqlRow { cols: vec![CqlValue::CqlInt(Some(5))] }],
        }),
    };
    assert!(matches!(parse_nodes(wrong_col), Err(e) if e.kind == RCErrorType::ReadError));
}

#[test]
fn connect_cluster_refuses_when_connected() {
    let mut cluster = Cluster::new();
    cluster.connect_cluster(addr(127, 0, 0, 1)).unwrap();
    let info = cluster.show_cluster_information();
    assert_eq!(info.available.len(), 1);
    assert_eq!(info.available[0], addr(127, 0, 0, 1));
    assert_eq!(info.current, CqlIpAddr::V4(127, 0, 0, 1));

    let again = cluster.connect_cluster(addr(127, 0, 0, 2));
    assert!(matches!(again, Err(e) if e.kind == RCErrorType::ClusterError));
}

#[test]
fn negotiation_walks_versions_down() {
    // A server advertising revision 3 accepts at once.
    let ready = CqlResponse {
        version: 0x83,
        flags: 0,
        stream: 1,
        opcode: OpcodeResponse::OpcodeReady,
        body: CqlResponseBody::ResponseReady,
    };
    let ev = classify_startup_response(&ready);
    assert_eq!(ev, StartupEvent::EventReady);
    assert_eq!(negotiate_step(3, ev, false), NegotiationNext::Connected(3));

    // Errors walk the revision down and finally fail.
    assert_eq!(
        negotiate_step(3, StartupEvent::EventErrorReply, false),
        NegotiationNext::Retry(2)
    );
    assert_eq!(
        negotiate_step(2, StartupEvent::EventErrorReply, false),
        NegotiationNext::Retry(1)
    );
    assert_eq!(negotiate_step(1, StartupEvent::EventErrorReply, false), NegotiationNext::Failed);

    // Authentication demands credentials.
    assert_eq!(
        negotiate_step(3, StartupEvent::EventAuthenticate, true),
        NegotiationNext::SendCredentials(3)
    );
    assert_eq!(
        negotiate_step(3, StartupEvent::EventAuthenticate, false),
        NegotiationNext::Failed
    );
}

#[test]
fn dispatch_fails_without_available_node() {
    let cluster = Cluster::new();
    let r = cluster.exec_query("SELECT now()", Consistency::One, 1);
    assert!(matches!(r, Err(e) if e.kind == RCErrorType::ClusterError));
}

#[test]
fn dispatch_builds_frames_on_the_current_node() {
    let mut cluster = Cluster::new();
    cluster.connect_cluster(addr(127, 0, 0, 1)).unwrap();
    let frame = cluster.exec_query("SELECT now()", Consistency::One, 1).unwrap();
    assert_eq!(frame[0], 3); // highest revision by default
    let peers = cluster.get_peers(2).unwrap();
    assert!(peers.len() > 9);
    let reg = cluster.register(3).unwrap();
    assert!(reg.len() > 9);
}

#[test]
fn round_robin_rotates_over_available_nodes() {
    let mut cluster = Cluster::new();
    cluster.connect_cluster(addr(10, 0, 0, 1)).unwrap();
    cluster.create_nodes(vec![CqlIpAddr::V4(10, 0, 0, 2), CqlIpAddr::V4(10, 0, 0, 3)]);
    cluster.set_load_balancing(BalancerType::RoundRobin);
    let mut seen: Vec<CqlIpAddr> = Vec::new();
    for _ in 0..3 {
        cluster.balance_step();
        seen.push(cluster.show_cluster_information().current);
    }
    assert_eq!(seen.len(), 3);
    assert_ne!(seen[0], seen[1]);
    assert_ne!(seen[1], seen[2]);
    assert_ne!(seen[0], seen[2]);

    cluster.set_load_balancing(BalancerType::LatencyAware);
    cluster.balance_step();
    let first = cluster.show_cluster_information().current;
    cluster.balance_step();
    assert_eq!(cluster.show_cluster_information().current, first);
}

#[test]
fn node_prepared_statement_cache() {
    let mut node = Node::new(addr(127, 0, 0, 1));
    let missing = node.get_prepared_statement("q1");
    assert!(matches!(missing, Err(e) if e.kind == RCErrorType::GenericError));

    let stat = cql::def::CqlPreparedStat {
        id: vec![0xAA],
        meta: empty_meta(),
        meta_result: None,
    };
    node.insert_prepared("q1".to_string(), stat);
    let found = node.get_prepared_statement("q1").unwrap();
    assert_eq!(found.id, vec![0xAA]);
}

#[test]
fn reprepared_statement_replaces_the_cached_one() {
    // Re-preparing under an existing logical id must resolve to the new
    // server id, never the stale one.
    let mut node = Node::new(addr(127, 0, 0, 1));
    let first = cql::def::CqlPreparedStat {
        id: vec![0xAA],
        meta: empty_meta(),
        meta_result: None,
    };
    let second = cql::def::CqlPreparedStat {
        id: vec![0xBB, 0xCC],
        meta: empty_meta(),
        meta_result: None,
    };
    node.insert_prepared("q1".to_string(), first);
    node.insert_prepared("q1".to_string(), second);
    let found = node.get_prepared_statement("q1").unwrap();
    assert_eq!(found.id, vec![0xBB, 0xCC]);
}

#[test]
fn pool_routes_by_token() {
    let mut pool: Pool<u32> = Pool::new();
    let t0 = pool.add(100);
    let t1 = pool.add(200);
    assert_eq!(pool.find_channel_by_token(t0), Some(&100));
    assert_eq!(pool.find_channel_by_token(t1), Some(&200));
    assert_eq!(pool.remove(t0), Some(100));
    assert_eq!(pool.find_channel_by_token(t0), None);
    assert_eq!(pool.find_channel_by_token(99), None);
}
