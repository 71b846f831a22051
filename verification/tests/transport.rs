//! Pool bookkeeping.

use fips::net::SocketAddr;
use fips::transport::addr::TransportAddr;
use fips::transport::pool::{key_for_remote, Direction, PoolKey, PoolMap, TcpConnection};
use fips::transport::protect::apply_socket_protect;
use fips::transport::stream::{remove_own, ConnId, ConnIdSource, PooledConn, StreamConn};
use fips::vecmap::VecMap;

type Conn = StreamConn<&'static str>;

fn addr(text: &str) -> TransportAddr {
    TransportAddr::new(text.as_bytes().to_vec())
}

fn local(last: u8) -> SocketAddr {
    SocketAddr::V4 { ip: 0x0a00_0000 + last as u32, port: 9000 }
}

fn conn(established_at: u64, direction: Direction) -> TcpConnection<(), ()> {
    TcpConnection { writer: (), recv_task: (), mtu: 1400, established_at, direction }
}

#[test]
fn ids_start_at_one_and_never_repeat() {
    let mut source = ConnIdSource::new();
    let ids: Vec<ConnId> = (0..5).map(|_| source.next_conn_id()).collect();
    assert_eq!(ids, vec![1, 2, 3, 4, 5]);
}

#[test]
fn a_connection_removes_its_own_entry() {
    let mut pool: VecMap<TransportAddr, Conn> = VecMap::new();
    pool.insert(addr("a"), Conn { id: 1, handle: "old" });
    pool.insert(addr("b"), Conn { id: 2, handle: "other" });
    assert_eq!(pool.get(&addr("a")).map(|conn| conn.conn_id()), Some(1));
    assert_eq!(remove_own(&mut pool, &addr("a"), 1), Some(Conn { id: 1, handle: "old" }));
    assert!(!pool.contains_key(&addr("a")));
    assert!(pool.contains_key(&addr("b")));
    assert_eq!(remove_own(&mut pool, &addr("a"), 1), None);
}

#[test]
fn a_newer_connection_at_the_same_address_is_left_alone() {
    let mut pool: VecMap<TransportAddr, Conn> = VecMap::new();
    pool.insert(addr("a"), Conn { id: 1, handle: "old" });
    pool.insert(addr("a"), Conn { id: 2, handle: "new" });
    assert_eq!(pool.len(), 1);
    assert_eq!(remove_own(&mut pool, &addr("a"), 1), None);
    assert_eq!(pool.get(&addr("a")), Some(&Conn { id: 2, handle: "new" }));
}

#[test]
fn an_outbound_connection_wins() {
    let mut pool: PoolMap<(), ()> = VecMap::new();
    pool.insert(PoolKey::inbound(addr("a"), local(1)), conn(9, Direction::Inbound));
    pool.insert(PoolKey::outbound(addr("a")), conn(1, Direction::Outbound));
    assert_eq!(key_for_remote(&pool, &addr("a")), Some(PoolKey::outbound(addr("a"))));
    assert_eq!(key_for_remote(&pool, &addr("b")), None);
}

#[test]
fn the_most_recent_inbound_connection_wins() {
    let mut pool: PoolMap<(), ()> = VecMap::new();
    pool.insert(PoolKey::inbound(addr("a"), local(1)), conn(3, Direction::Inbound));
    pool.insert(PoolKey::inbound(addr("a"), local(2)), conn(7, Direction::Inbound));
    pool.insert(PoolKey::inbound(addr("a"), local(3)), conn(5, Direction::Inbound));
    pool.insert(PoolKey::inbound(addr("b"), local(2)), conn(99, Direction::Inbound));
    assert_eq!(pool.len(), 4);
    assert_eq!(key_for_remote(&pool, &addr("a")), Some(PoolKey::inbound(addr("a"), local(2))));
    pool.remove(&PoolKey::inbound(addr("a"), local(2)));
    assert_eq!(key_for_remote(&pool, &addr("a")), Some(PoolKey::inbound(addr("a"), local(3))));
}

#[test]
fn keys_tell_connections_apart() {
    let first = PoolKey::inbound(addr("a"), local(1));
    assert_ne!(first, PoolKey::inbound(addr("a"), local(2)));
    assert_ne!(first, PoolKey::outbound(addr("a")));
    assert_eq!(first, first.clone());
    assert_eq!(addr("a").clone().as_bytes(), &b"a".to_vec());
}

#[test]
fn one_link_local_address_on_two_links_gives_two_entries() {
    let on_link = |scope_id: u32, flowinfo: u32| SocketAddr::V6 {
        ip: 0xfe80_0000_0000_0000_0000_0000_0000_0001,
        port: 9000,
        flowinfo,
        scope_id,
    };
    let mut pool: PoolMap<(), ()> = VecMap::new();
    pool.insert(PoolKey::inbound(addr("a"), on_link(2, 0)), conn(3, Direction::Inbound));
    pool.insert(PoolKey::inbound(addr("a"), on_link(3, 0)), conn(7, Direction::Inbound));
    pool.insert(PoolKey::inbound(addr("a"), on_link(3, 1)), conn(5, Direction::Inbound));
    assert_eq!(pool.len(), 3);
    let newest = PoolKey::inbound(addr("a"), on_link(3, 0));
    assert_eq!(key_for_remote(&pool, &addr("a")), Some(newest));
}

#[test]
fn the_hook_is_called_with_the_handle() {
    let seen = std::cell::Cell::new(Vec::new());
    let hook = |handle: i32| {
        let mut handles = seen.take();
        handles.push(handle);
        seen.set(handles);
    };
    apply_socket_protect(Some(&hook), 7);
    apply_socket_protect(Some(&hook), 7);
    let none = Some(&hook).filter(|_| false);
    apply_socket_protect(none, 8);
    assert_eq!(seen.take(), vec![7, 7]);
}
