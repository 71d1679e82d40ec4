use airnc::queries::{
    delete_service_params, delete_service_query, insert_service_params, insert_service_query,
    select_services_query, Service, SERVICES_TABLE_NAME,
};

#[test]
fn insert_statement_and_params() {
    assert_eq!(
        insert_service_query(),
        "INSERT INTO services (ip, link, websocket_key) VALUES (:ip, :link, :websocket_key)"
    );
    let params = insert_service_params("1.2.3.4".to_string(), "http://x/y".to_string(), "k==".to_string());
    let pairs: Vec<(String, String)> = params.into_iter().map(|p| (p.name, p.value)).collect();
    assert_eq!(
        pairs,
        vec![
            ("ip".to_string(), "1.2.3.4".to_string()),
            ("link".to_string(), "http://x/y".to_string()),
            ("websocket_key".to_string(), "k==".to_string()),
        ]
    );
    let q = insert_service_query();
    for name in ["ip", "link", "websocket_key"] {
        assert!(q.contains(&format!(":{}", name)));
    }
}

#[test]
fn select_statements() {
    assert_eq!(select_services_query(None), "SELECT * FROM services");
    assert_eq!(
        select_services_query(Some("192.168")),
        "SELECT * FROM services WHERE CONCAT(id, ip, link, websocket_key) LIKE '%192.168%'"
    );
    assert!(select_services_query(Some("abc")).starts_with(&select_services_query(None)));
}

#[test]
fn delete_statement_and_params() {
    assert_eq!(delete_service_query(), "DELETE FROM services WHERE websocket_key = :websocket_key");
    let params = delete_service_params("abc".to_string());
    assert_eq!(params.len(), 1);
    assert_eq!(params[0].name, "websocket_key");
    assert_eq!(params[0].value, "abc");
    assert_eq!(SERVICES_TABLE_NAME, "services");
}

#[test]
fn service_from_row_order() {
    let s = Service::from_row("7".to_string(), "ip".to_string(), "link".to_string(), "key".to_string());
    assert_eq!(s.id, "7");
    assert_eq!(s.ip, "ip");
    assert_eq!(s.link, "link");
    assert_eq!(s.websocket_key, "key");
}
