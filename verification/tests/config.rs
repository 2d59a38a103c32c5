use rust_service::config::effective_backend_url;
use rust_service::config::effective_port;
use rust_service::config::listen_addr;

#[test]
fn default_port_is_8080() {
    assert_eq!(effective_port(None), "8080");
}

#[test]
fn explicit_port_wins() {
    assert_eq!(effective_port(Some(String::from("9000"))), "9000");
}

#[test]
fn default_backend_is_self() {
    assert_eq!(effective_backend_url(None), "http://localhost:8080/");
}

#[test]
fn explicit_backend_wins() {
    let url = String::from("http://backend:3000/");
    assert_eq!(effective_backend_url(Some(url.clone())), url);
}

#[test]
fn listen_addr_binds_all_interfaces() {
    assert_eq!(listen_addr("8080"), "0.0.0.0:8080");
    assert_eq!(listen_addr("9000"), "0.0.0.0:9000");
}
