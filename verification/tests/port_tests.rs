use airnc::port::{port_candidate, port_search_step, PortSearch, PORT_RANGE_END, PORT_RANGE_START};

#[test]
fn candidates_stay_in_range() {
    for _ in 0..1000 {
        let p = port_candidate();
        assert!(PORT_RANGE_START <= p && p < PORT_RANGE_END);
    }
    assert_eq!(PORT_RANGE_START, 10000);
    assert_eq!(PORT_RANGE_END, 65535);
}

#[test]
fn search_step_keeps_bound_port() {
    assert_eq!(port_search_step(12345, true), PortSearch::Found(12345));
    assert_eq!(port_search_step(12345, false), PortSearch::Retry);
}
