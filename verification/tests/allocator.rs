use ctfdeploy::ports::{PortError, PortManager};

#[test]
fn basic_reserve_and_release() {
    let mut pm = PortManager::new(30000, 30010, 60);
    let now: u64 = 1_000;
    let port = pm.reserve_port(Some(1), now).unwrap();
    assert!(
        port >= pm.min && port <= pm.max,
        "Reserved port {} out of range",
        port
    );

    let expired_immediate = pm.get_expired(now);
    assert!(
        !expired_immediate.contains(&port),
        "Port should not be expired immediately"
    );

    let expired_after = pm.get_expired(now + 2);
    assert!(
        expired_after.contains(&port),
        "Port should be expired after TTL"
    );

    pm.release_port(port);
    let expired_post_release = pm.get_expired(now + 2);
    assert!(
        !expired_post_release.contains(&port),
        "Released port should no longer be expired"
    );
}

#[test]
fn extend_port_ttl() {
    let mut pm = PortManager::new(30000, 30010, 60);
    let now: u64 = 1_000;
    let port = pm.reserve_port(Some(5), now).unwrap();

    let initial = pm
        .in_use
        .iter()
        .find(|e| e.0 == port)
        .map(|e| e.1)
        .unwrap();
    pm.extend_port(port, 5).unwrap();
    let extended = pm
        .in_use
        .iter()
        .find(|e| e.0 == port)
        .map(|e| e.1)
        .unwrap();

    assert!(
        extended > initial,
        "Extended expiry ({}) is not greater than initial ({})",
        extended,
        initial
    );
}

#[test]
fn reserve_is_smallest_first() {
    let mut pm = PortManager::new(40000, 40002, 60);
    assert_eq!(pm.reserve_port(None, 0).unwrap(), 40000);
    assert_eq!(pm.reserve_port(None, 0).unwrap(), 40001);
    assert_eq!(pm.reserve_port(None, 0).unwrap(), 40002);
}

#[test]
fn reserve_exhausts_pool() {
    let mut pm = PortManager::new(30000, 30001, 60);
    assert!(pm.reserve_port(None, 0).is_ok());
    assert!(pm.reserve_port(None, 0).is_ok());
    assert_eq!(pm.reserve_port(None, 0), Err(PortError::OutOfPorts));
}

#[test]
fn release_restores_counts() {
    let mut pm = PortManager::new(30000, 30004, 60);
    let free_before = pm.free.len();
    let in_use_before = pm.in_use.len();
    let p = pm.reserve_port(Some(10), 500).unwrap();
    assert_eq!(pm.free.len(), free_before - 1);
    pm.release_port(p);
    assert_eq!(pm.free.len(), free_before);
    assert_eq!(pm.in_use.len(), in_use_before);
    // the freed port is the next one handed out again
    assert_eq!(pm.reserve_port(None, 0).unwrap(), p);
}

#[test]
fn release_ignores_foreign_ports() {
    let mut pm = PortManager::new(30000, 30001, 60);
    pm.release_port(45000);
    assert_eq!(pm.free.len(), 2);
    assert_eq!(pm.in_use.len(), 0);
}

#[test]
fn release_is_idempotent() {
    let mut pm = PortManager::new(30000, 30003, 60);
    let p = pm.reserve_port(None, 0).unwrap();
    pm.release_port(p);
    let free_after_first = pm.free.len();
    pm.release_port(p);
    assert_eq!(pm.free.len(), free_after_first);
}

#[test]
fn extend_unknown_port_is_invalid() {
    let mut pm = PortManager::new(30000, 30003, 60);
    assert_eq!(pm.extend_port(30000, 10), Err(PortError::InvalidPort));
}

#[test]
fn every_port_in_exactly_one_pool() {
    let mut pm = PortManager::new(30000, 30005, 60);
    pm.reserve_port(Some(5), 100).unwrap();
    pm.reserve_port(Some(5), 100).unwrap();
    let p = pm.reserve_port(Some(5), 100).unwrap();
    pm.release_port(p);
    pm.extend_port(30000, 50).unwrap();
    for port in 30000..=30005u16 {
        let in_free = pm.free.contains(&port);
        let in_use = pm.in_use.iter().any(|e| e.0 == port);
        assert!(
            in_free != in_use,
            "port {} must sit in exactly one pool",
            port
        );
    }
}

#[test]
fn expired_boundary_is_inclusive() {
    let mut pm = PortManager::new(30000, 30001, 60);
    let p = pm.reserve_port(Some(10), 100).unwrap();
    // score is 110: not expired at 109, expired at 110
    assert!(!pm.get_expired(109).contains(&p));
    assert!(pm.get_expired(110).contains(&p));
}
