use microshop::inventory_registry;
use microshop::registry::{deregister_api, find_service, ConsulOption, Filter, HealthCheck, Registration, Service};

fn service(id: &str, name: &str, address: &str) -> Service {
    Service {
        id: id.to_string(),
        service: name.to_string(),
        tags: vec![],
        address: address.to_string(),
        port: 3001,
        datacenter: "dc1".to_string(),
    }
}

#[test]
fn default_option_points_at_local_agent() {
    let o = ConsulOption::default();
    assert_eq!(o.addr, "127.0.0.1:8500");
    assert_eq!(o.timeout_sec, 1);
    assert_eq!(o.protocol, "http");
    assert_eq!(o.api_url("services"), "http://127.0.0.1:8500/v1/agent/services");
    assert_eq!(o.api_url(&deregister_api("axum.rs")), "http://127.0.0.1:8500/v1/agent/service/deregister/axum.rs");
}

#[test]
fn health_check_defaults() {
    let h = HealthCheck::new("127.0.0.1:1111/health_check".to_string());
    assert_eq!(h.http, "127.0.0.1:1111/health_check");
    assert_eq!(h.interval, "20s");
    assert_eq!(h.deregisterCriticalServiceAfter, "30m");
}

#[test]
fn registration_with_health_check() {
    let h = HealthCheck::new("127.0.0.1:1111/health_check".to_string());
    let r = Registration::simple_with_health_check("axum.rs", "127.0.0.1", 12345, h);
    assert_eq!(r.name, "axum.rs");
    assert_eq!(r.id, "axum.rs");
    assert!(r.tags.is_empty());
    assert_eq!(r.address, "127.0.0.1");
    assert_eq!(r.port, 12345);
    assert_eq!(r.check.interval, "20s");
    let full = Registration::new("n", "i", vec!["a", "b"], "10.0.0.1", 1, HealthCheck::new("u".to_string()));
    assert_eq!(full.tags, vec!["a".to_string(), "b".to_string()]);
    assert_eq!(full.id, "i");
}

#[test]
fn inventory_registration_variants() {
    let r = inventory_registry::Registration::simple("inventory-srv", "127.0.0.1", 3001);
    assert_eq!((r.name.as_str(), r.id.as_str(), r.port), ("inventory-srv", "inventory-srv", 3001));
    assert!(r.tags.is_empty());
    let t = inventory_registry::Registration::simple_with_tags("inv", vec!["x"], "h", 2);
    assert_eq!(t.tags, vec!["x".to_string()]);
    let n = inventory_registry::Registration::new("a", "b", vec![], "c", 3);
    assert_eq!((n.name.as_str(), n.id.as_str(), n.address.as_str()), ("a", "b", "c"));
}

#[test]
fn find_service_takes_first_match() {
    let list = vec![
        service("order-srv", "order-srv", "10.0.0.2"),
        service("inventory-srv", "inventory", "10.0.0.3"),
        service("inventory-srv-2", "inventory", "10.0.0.4"),
    ];
    let by_id = find_service(list.clone(), &Filter::ID("inventory-srv".to_string())).unwrap();
    assert_eq!(by_id.address, "10.0.0.3");
    let by_name = find_service(list.clone(), &Filter::Service("inventory".to_string())).unwrap();
    assert_eq!(by_name.id, "inventory-srv");
    assert!(find_service(list, &Filter::ID("axum.rs".to_string())).is_none());
    assert!(find_service(vec![], &Filter::Service("x".to_string())).is_none());
}
