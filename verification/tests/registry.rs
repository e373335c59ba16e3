use mesagrid_core::connection::{test_connection_outcome, ConnectionError, ConnectionManager};
use mesagrid_core::types::{CreateConnectionParams, DatabaseType};

fn params(name: &str) -> CreateConnectionParams {
    CreateConnectionParams {
        name: name.to_string(),
        db_type: DatabaseType::Postgres,
        host: "localhost".to_string(),
        port: 5432,
        database: "app".to_string(),
        username: "u".to_string(),
        password: "p".to_string(),
    }
}

#[test]
fn created_ids_are_nonempty_and_distinct() {
    let mut m: ConnectionManager<u32> = ConnectionManager::new();
    let id1 = m.create_connection(params("a")).expect("first create");
    let id2 = m.create_connection(params("a")).expect("second create");
    assert!(!id1.is_empty());
    assert!(!id2.is_empty());
    assert_ne!(id1, id2);
}

#[test]
fn create_then_list_has_exactly_one_entry_with_fields() {
    let mut m: ConnectionManager<u32> = ConnectionManager::new();
    let id = m.create_connection(params("local")).expect("create");
    let listed = m.list_connections();
    let matching: Vec<_> = listed.iter().filter(|c| c.id == id).collect();
    assert_eq!(matching.len(), 1);
    let c = matching[0];
    assert_eq!(c.name, "local");
    assert!(matches!(c.db_type, DatabaseType::Postgres));
    assert_eq!(c.host, "localhost");
    assert_eq!(c.port, 5432);
    assert_eq!(c.database, "app");
    assert_eq!(c.username, "u");
    assert!(c.created_at.is_some());
    assert!(c.last_connected.is_none());
}

#[test]
fn connect_prepare_unknown_id_is_not_found() {
    let m: ConnectionManager<u32> = ConnectionManager::new();
    match m.connect_prepare("missing") {
        Err(ConnectionError::NotFound(s)) => assert_eq!(s, "missing"),
        _ => panic!("expected NotFound"),
    }
}

#[test]
fn register_pool_sets_last_connected() {
    let mut m: ConnectionManager<u32> = ConnectionManager::new();
    let id = m.create_connection(params("local")).expect("create");
    let created = m.list_connections()[0].created_at.expect("created_at");
    m.register_pool(&id, DatabaseType::Postgres, 7).expect("register");
    let listed = m.list_connections();
    let last = listed[0].last_connected.expect("last_connected set");
    assert!(last >= created);
    assert!(m.is_connected(&id));
}

#[test]
fn register_pool_unknown_id_is_not_found() {
    let mut m: ConnectionManager<u32> = ConnectionManager::new();
    match m.register_pool("missing", DatabaseType::Mysql, 1) {
        Err(ConnectionError::NotFound(s)) => assert_eq!(s, "missing"),
        _ => panic!("expected NotFound"),
    }
}

#[test]
fn pool_lookup_on_disconnected_id_is_not_found() {
    let mut m: ConnectionManager<u32> = ConnectionManager::new();
    let id = m.create_connection(params("local")).expect("create");
    match m.pool_handle(&id) {
        Err(ConnectionError::NotFound(s)) => assert_eq!(s, id),
        _ => panic!("expected NotFound before any connect"),
    }
    m.register_pool(&id, DatabaseType::Postgres, 42).expect("register");
    assert_eq!(*m.pool_handle(&id).expect("pool"), 42);
    m.disconnect(&id).expect("disconnect");
    match m.pool_handle(&id) {
        Err(ConnectionError::NotFound(_)) => {}
        _ => panic!("expected NotFound after disconnect"),
    }
}

#[test]
fn disconnect_is_idempotent() {
    let mut m: ConnectionManager<u32> = ConnectionManager::new();
    let id = m.create_connection(params("local")).expect("create");
    assert!(m.disconnect(&id).is_ok());
    assert!(m.disconnect(&id).is_ok());
    assert!(m.disconnect("never-seen").is_ok());
    assert!(!m.is_connected(&id));
}

#[test]
fn delete_removes_config_and_pool() {
    let mut m: ConnectionManager<u32> = ConnectionManager::new();
    let id = m.create_connection(params("local")).expect("create");
    m.register_pool(&id, DatabaseType::Postgres, 1).expect("register");
    assert!(m.delete_connection(&id).is_ok());
    assert!(m.list_connections().iter().all(|c| c.id != id));
    match m.connect_prepare(&id) {
        Err(ConnectionError::NotFound(_)) => {}
        _ => panic!("expected NotFound after delete"),
    }
    match m.pool_handle(&id) {
        Err(ConnectionError::NotFound(_)) => {}
        _ => panic!("expected NotFound after delete"),
    }
    // deleting again still succeeds
    assert!(m.delete_connection(&id).is_ok());
}

#[test]
fn replacing_a_pool_keeps_one_entry() {
    let mut m: ConnectionManager<u32> = ConnectionManager::new();
    let id = m.create_connection(params("local")).expect("create");
    m.register_pool(&id, DatabaseType::Postgres, 1).expect("first register");
    m.register_pool(&id, DatabaseType::Postgres, 2).expect("second register");
    assert_eq!(*m.pool_handle(&id).expect("pool"), 2);
}

#[test]
fn tables_request_needs_pool_and_config() {
    let mut m: ConnectionManager<u32> = ConnectionManager::new();
    let id = m.create_connection(params("local")).expect("create");
    assert!(matches!(m.tables_request(&id), Err(ConnectionError::NotFound(_))));
    m.register_pool(&id, DatabaseType::Postgres, 3).expect("register");
    let (pool, db) = m.tables_request(&id).expect("request");
    assert_eq!(*pool, 3);
    assert_eq!(db, "app");
}

#[test]
fn full_lifecycle_scenario() {
    let mut m: ConnectionManager<u32> = ConnectionManager::new();
    let id = m.create_connection(params("local")).expect("create");
    assert!(!id.is_empty());
    assert!(!m.is_connected(&id));
    m.register_pool(&id, DatabaseType::Postgres, 11).expect("register");
    assert!(m.is_connected(&id));
    assert!(m.list_connections()[0].last_connected.is_some());
    m.disconnect(&id).expect("disconnect");
    assert!(!m.is_connected(&id));
    m.delete_connection(&id).expect("delete");
    assert!(m.list_connections().is_empty());
}

#[test]
fn test_outcome_failure_keeps_driver_text() {
    let r = test_connection_outcome(Some("connection refused".to_string()));
    assert!(!r.success);
    let msg = r.error.expect("error text");
    assert!(!msg.is_empty());
    assert_eq!(msg, "connection refused");
}

#[test]
fn test_outcome_success_has_no_error() {
    let r = test_connection_outcome(None);
    assert!(r.success);
    assert!(r.error.is_none());
}

#[test]
fn test_connection_touches_no_state() {
    let m: ConnectionManager<u32> = ConnectionManager::new();
    let before = m.list_connections().len();
    let r = test_connection_outcome(Some("no route to host".to_string()));
    assert!(!r.success);
    assert_eq!(m.list_connections().len(), before);
    assert!(!m.is_connected("anything"));
}
