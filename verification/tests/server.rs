use foo_controller::server::{health, listen_addr};

#[test]
fn health_status_is_ok() {
    assert_eq!(health().status, "ok");
}

#[test]
fn given_address_is_used() {
    assert_eq!(listen_addr(Some("127.0.0.1:9000".to_string())), "127.0.0.1:9000");
    assert_eq!(listen_addr(Some(String::new())), "");
}

#[test]
fn default_address_is_all_interfaces_port_8080() {
    assert_eq!(listen_addr(None), "0.0.0.0:8080");
}
