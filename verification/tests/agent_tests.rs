use factory_edge_agent::agent::{
    gateway_endpoint, namespace_index, pending_job_id, resolve_namespace, AgentPlan, GatewayNodes,
    FALLBACK_NAMESPACE,
};
use factory_edge_agent::config::{default_ns, AgentConfig};

const NS_URI: &str = "http://joeblew999.github.io/factory-floor/";

#[test]
fn endpoint_drops_trailing_slashes() {
    assert_eq!(gateway_endpoint("opc.tcp://gateway.local:4840/"), "opc.tcp://gateway.local:4840");
    assert_eq!(gateway_endpoint("opc.tcp://gateway.local:4840///"), "opc.tcp://gateway.local:4840");
    assert_eq!(gateway_endpoint("opc.tcp://gateway.local:4840"), "opc.tcp://gateway.local:4840");
    assert_eq!(gateway_endpoint("opc.tcp://h/a/b/"), "opc.tcp://h/a/b");
    assert_eq!(gateway_endpoint("///"), "");
    assert_eq!(gateway_endpoint(""), "");
    assert_eq!(gateway_endpoint("\u{e9}t\u{e9}/"), "\u{e9}t\u{e9}");
}

#[test]
fn endpoint_is_idempotent() {
    let once = gateway_endpoint("opc.tcp://127.0.0.1:4857//");
    assert_eq!(gateway_endpoint(&once), once);
}

#[test]
fn nodes_live_under_the_machine_folder() {
    let n = GatewayNodes::for_machine("howick-1");
    assert_eq!(n.pending_job_id, "Machines/howick-1/EdgeAgent/PendingJobId");
    assert_eq!(n.pending_job_csv, "Machines/howick-1/EdgeAgent/PendingJobCsv");
    assert_eq!(n.receiver, "Machines/howick-1/JobOrderReceiver");
    assert_eq!(n.report_complete, "Machines/howick-1/JobOrderReceiver/ReportComplete");
}

#[test]
fn plan_follows_the_config() {
    let cfg = AgentConfig {
        gateway_url: "opc.tcp://127.0.0.1:4857/".to_owned(),
        machine_id: "howick-1".to_owned(),
        driver: "howick-frama".to_owned(),
        namespace_uri: default_ns(),
        extra: toml::Table::new(),
    };
    let plan = AgentPlan::for_config(&cfg);
    assert_eq!(plan.endpoint, "opc.tcp://127.0.0.1:4857");
    assert_eq!(plan.nodes.pending_job_id, "Machines/howick-1/EdgeAgent/PendingJobId");
    assert_eq!(plan.nodes.report_complete, "Machines/howick-1/JobOrderReceiver/ReportComplete");
}

#[test]
fn namespace_is_the_first_matching_entry() {
    let entries = vec![
        Some("http://opcfoundation.org/UA/".to_owned()),
        None,
        Some(NS_URI.to_owned()),
        Some(NS_URI.to_owned()),
    ];
    assert_eq!(resolve_namespace(&entries, NS_URI), Some(2));
    assert_eq!(resolve_namespace(&entries, "urn:other"), None);
    assert_eq!(resolve_namespace(&Vec::new(), NS_URI), None);
}

#[test]
fn namespace_index_wraps_to_sixteen_bits() {
    let mut entries: Vec<Option<String>> = vec![None; 65537];
    entries.push(Some(NS_URI.to_owned()));
    assert_eq!(resolve_namespace(&entries, NS_URI), Some(1));
}

#[test]
fn namespace_falls_back_to_two() {
    assert_eq!(FALLBACK_NAMESPACE, 2);
    assert_eq!(namespace_index(None, NS_URI), 2);
    assert_eq!(namespace_index(Some(vec![Some("urn:x".to_owned())]), NS_URI), 2);
    assert_eq!(namespace_index(Some(vec![Some(NS_URI.to_owned())]), NS_URI), 0);
    assert_eq!(
        namespace_index(Some(vec![Some("urn:x".to_owned()), None, None, Some(NS_URI.to_owned())]), NS_URI),
        3
    );
}

#[test]
fn only_non_empty_strings_become_pending() {
    assert_eq!(pending_job_id(Some(Some("W1-1".to_owned()))), Some("W1-1".to_owned()));
    assert_eq!(pending_job_id(Some(Some(String::new()))), None);
    assert_eq!(pending_job_id(Some(None)), None);
    assert_eq!(pending_job_id(None), None);
}
