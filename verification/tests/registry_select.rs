use mqtt_gateway::registry::Registry;

fn reg_of(addrs: &[&[u8]]) -> Registry {
    let list: Vec<Vec<u8>> = addrs.iter().map(|a| a.to_vec()).collect();
    Registry::new(&list)
}

#[test]
fn select_single_backend() {
    let reg = reg_of(&[b"127.0.0.1:1883"]);
    let b = reg.select(&b"dev-1".to_vec(), 1).expect("one healthy backend");
    assert_eq!(b.addr, b"127.0.0.1:1883".to_vec());
    assert!(b.healthy);
}

#[test]
fn select_deterministic_repeated() {
    let reg = reg_of(&[b"10.0.0.1:1883", b"10.0.0.2:1883", b"10.0.0.3:1883"]);
    let first = reg.select(&b"dev-1".to_vec(), 1).expect("healthy set is non-empty");
    for _ in 0..10 {
        let again = reg.select(&b"dev-1".to_vec(), 1).expect("same set, same key");
        assert_eq!(again.addr, first.addr);
    }
}

#[test]
fn select_empty_set_is_none() {
    let reg = reg_of(&[]);
    assert!(reg.select(&b"dev-1".to_vec(), 1).is_none());
    assert!(reg.select(&b"dev-1".to_vec(), 8).is_none());
    assert!(reg.select(&b"".to_vec(), 3).is_none());
}

#[test]
fn select_all_unhealthy_is_none() {
    let mut reg = reg_of(&[b"10.0.0.1:1883", b"10.0.0.2:1883"]);
    reg.set_health(&b"10.0.0.1:1883".to_vec(), false);
    reg.set_health(&b"10.0.0.2:1883".to_vec(), false);
    assert!(reg.select(&b"dev-1".to_vec(), 2).is_none());
    assert!(reg.select(&b"dev-1".to_vec(), 5).is_none());
}

#[test]
fn select_skips_unhealthy_with_enough_attempts() {
    let mut reg = reg_of(&[b"10.0.0.1:1883", b"10.0.0.2:1883"]);
    let first = reg.select(&b"dev-1".to_vec(), 1).expect("both healthy");
    reg.set_health(&first.addr, false);
    let second = reg.select(&b"dev-1".to_vec(), 2).expect("one alternate left");
    assert!(second.healthy);
    assert_ne!(second.addr, first.addr);
}

#[test]
fn select_one_attempt_fails_on_unhealthy_candidate() {
    let mut reg = reg_of(&[b"10.0.0.1:1883", b"10.0.0.2:1883"]);
    let first = reg.select(&b"dev-1".to_vec(), 1).expect("both healthy");
    reg.set_health(&first.addr, false);
    assert!(reg.select(&b"dev-1".to_vec(), 1).is_none());
}

#[test]
fn refresh_dedups_and_keeps_health() {
    let mut reg = reg_of(&[b"a:1", b"b:2"]);
    reg.set_health(&b"a:1".to_vec(), false);
    let list: Vec<Vec<u8>> = vec![
        b"a:1".to_vec(),
        b"c:3".to_vec(),
        b"a:1".to_vec(),
        b"b:2".to_vec(),
    ];
    reg.refresh(&list);
    let addrs = reg.addrs();
    assert_eq!(addrs, vec![b"a:1".to_vec(), b"c:3".to_vec(), b"b:2".to_vec()]);
    assert!(!reg.backends[0].healthy);
    assert!(reg.backends[1].healthy);
    assert!(reg.backends[2].healthy);
}

#[test]
fn set_health_touches_only_named_backend() {
    let mut reg = reg_of(&[b"a:1", b"b:2"]);
    reg.set_health(&b"b:2".to_vec(), false);
    assert!(reg.backends[0].healthy);
    assert!(!reg.backends[1].healthy);
    reg.set_health(&b"missing:9".to_vec(), false);
    assert!(reg.backends[0].healthy);
    assert!(!reg.backends[1].healthy);
    reg.set_health(&b"b:2".to_vec(), true);
    assert!(reg.backends[1].healthy);
}

#[test]
fn hash_is_deterministic() {
    let a = mqtt_gateway::registry::hash_bytes(&b"dev-1".to_vec());
    let b = mqtt_gateway::registry::hash_bytes(&b"dev-1".to_vec());
    assert_eq!(a, b);
}
