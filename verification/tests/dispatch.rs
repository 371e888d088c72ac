use xray_lite::connection::{BufferPool, ConnectionManager, ProxyConnection};
use xray_lite::session::SessionRegistry;
use xray_lite::xhttp::{H2Handler, Method, StreamRole, XhttpConfig, PAIRING_POLLS};

#[test]
fn test_connection_manager_creation() {
    let manager = ConnectionManager::new();
    assert_eq!(manager.active_count(), 0);
}

#[test]
fn connection_count_moves_up_and_down() {
    let mut manager = ConnectionManager::new();
    manager.connection_opened();
    manager.connection_opened();
    assert_eq!(manager.active_count(), 2);
    manager.connection_closed();
    assert_eq!(manager.active_count(), 1);
    manager.connection_closed();
    manager.connection_closed();
    assert_eq!(manager.active_count(), 0);
}

#[test]
fn proxy_connection_holds_both_halves() {
    let conn = ProxyConnection::new(1u8, 2u16);
    let (c, r) = conn.into_parts();
    assert_eq!(c, 1u8);
    assert_eq!(r, 2u16);
}

#[test]
fn buffer_pool_reuses_buffers() {
    let mut pool = BufferPool::new();
    let buf = pool.get();
    assert_eq!(buf.len(), 16384);
    pool.put(buf);
    let again = pool.get();
    assert_eq!(again.len(), 16384);
}

#[test]
fn session_registry_pairs_and_cleans_up() {
    let mut reg: SessionRegistry<u32> = SessionRegistry::new();
    let path = b"/xhttp/abc".to_vec();
    assert!(!reg.contains_key(&path));
    reg.insert(path.clone(), 7).unwrap();
    assert!(reg.contains_key(&path));
    assert_eq!(*reg.get(&path).unwrap(), 7);
    // A second registration at the same path collides.
    assert!(reg.insert(path.clone(), 8).is_err());
    assert_eq!(*reg.get(&path).unwrap(), 7);
    reg.remove(&path);
    assert!(!reg.contains_key(&path));
    reg.remove(&path); // idempotent
    assert!(reg.get(&path).is_none());
}

fn handler() -> H2Handler {
    H2Handler::new(XhttpConfig { path: b"/xhttp".to_vec() })
}

#[test]
fn routing_table() {
    let h = handler();
    let path = b"/xhttp/abc".to_vec();
    let empty = Vec::new();

    assert_eq!(h.classify_request(Method::Get, &path, false, &empty), StreamRole::SplitDown);
    assert_eq!(h.classify_request(Method::Post, &path, true, &empty), StreamRole::SplitUp);
    assert_eq!(
        h.classify_request(Method::Post, &path, false, &empty),
        StreamRole::Standalone(false)
    );
    assert_eq!(
        h.classify_request(Method::Post, &path, false, &b"application/grpc".to_vec()),
        StreamRole::Standalone(true)
    );
    assert_eq!(h.classify_request(Method::Other, &path, false, &empty), StreamRole::MethodNotAllowed);
    assert_eq!(
        h.classify_request(Method::Get, &b"/other".to_vec(), false, &empty),
        StreamRole::NotFound
    );
}

#[test]
fn pairing_wait_depends_on_agent() {
    let h = handler();
    assert_eq!(h.pairing_wait_polls(&b"Go-http-client/2.0".to_vec()), 0);
    assert_eq!(h.pairing_wait_polls(&b"Mozilla/5.0".to_vec()), PAIRING_POLLS);
    assert_eq!(h.pairing_wait_polls(&Vec::new()), PAIRING_POLLS);
}

#[test]
fn traffic_counter_accumulates() {
    let mut h = handler();
    assert_eq!(h.traffic(), 0);
    h.note_traffic(1000);
    h.note_traffic(24);
    assert_eq!(h.traffic(), 1024);
}
