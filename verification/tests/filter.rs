use cilium_monitor::flow::{Flow, GetFlowsResponse, Ip, ResponseTypes};
use cilium_monitor::flow_filter::{is_internal_ip, passes_world_filter, should_show_flow};

#[test]
fn internal_addresses_start_with_the_cluster_prefix() {
    assert!(is_internal_ip("10.42.0.15"));
    assert!(is_internal_ip("10.42."));
    assert!(!is_internal_ip("10.43.0.1"));
    assert!(!is_internal_ip("10.4"));
    assert!(!is_internal_ip(""));
    assert!(!is_internal_ip("8.8.8.8"));
}

#[test]
fn everything_shows_without_world_filter() {
    assert!(should_show_flow(false, Some("10.42.0.1"), Some("10.42.0.2")));
    assert!(should_show_flow(false, None, None));
}

#[test]
fn world_filter_hides_internal_pairs_only() {
    assert!(!should_show_flow(true, Some("10.42.0.1"), Some("10.42.0.2")));
    assert!(should_show_flow(true, Some("10.42.0.1"), Some("1.1.1.1")));
    assert!(should_show_flow(true, Some("1.1.1.1"), Some("10.42.0.2")));
    assert!(should_show_flow(true, None, Some("10.42.0.2")));
    assert!(should_show_flow(true, None, None));
}

fn flow_between(ip: Option<Ip>) -> GetFlowsResponse {
    GetFlowsResponse {
        response_types: Some(ResponseTypes::Flow(Flow {
            time: None,
            verdict: 1,
            drop_reason_desc: 0,
            ip,
            l4: None,
            source: None,
            destination: None,
            flow_type: 1,
            node_name: String::new(),
            l7: None,
            source_service: None,
            destination_service: None,
            traffic_direction: 0,
        })),
    }
}

#[test]
fn stream_filter_follows_the_addresses() {
    let internal = flow_between(Some(Ip { source: "10.42.1.1".to_string(), destination: "10.42.1.2".to_string() }));
    let external = flow_between(Some(Ip { source: "10.42.1.1".to_string(), destination: "9.9.9.9".to_string() }));
    let no_ip = flow_between(None);
    assert!(!passes_world_filter(true, &internal));
    assert!(passes_world_filter(false, &internal));
    assert!(passes_world_filter(true, &external));
    assert!(passes_world_filter(true, &no_ip));
    assert!(passes_world_filter(true, &GetFlowsResponse { response_types: None }));
}
