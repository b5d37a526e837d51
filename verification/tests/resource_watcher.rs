use turm::resources::{parse_sinfo_json as parse_sinfo_nodes, PartitionResources, SinfoNode};
use turm::test_support::{parse_sinfo_text, sort_resource_snapshots, ResourceSnapshot};

fn json(text: &str) -> serde_json::Value {
    serde_json::from_str(text).expect("test JSON should parse")
}

/// The partition and state of each node of `sinfo --json`, as the library
/// reads them.
fn parse_sinfo_json(value: &serde_json::Value) -> Vec<PartitionResources> {
    let nodes = value.get("nodes").and_then(|nodes| nodes.as_array()).map(|nodes| {
        nodes
            .iter()
            .map(|node| SinfoNode {
                partition: node.get("partition").and_then(|p| p.as_str()).map(str::to_string),
                state: node.get("state").and_then(|p| p.as_str()).map(str::to_string),
            })
            .collect::<Vec<_>>()
    });
    parse_sinfo_nodes(&nodes)
}

#[test]
fn counts_allocated_as_running() {
    let json = json(r#"{
        "nodes": [
            {"partition": "debug", "state": "allocated"},
            {"partition": "debug", "state": "allocated"}
        ]
    }"#);
    let resources = parse_sinfo_json(&json);
    assert_eq!(resources.len(), 1);
    assert_eq!(resources[0].running_nodes, 2);
    assert_eq!(resources[0].available_nodes, 0);
}

#[test]
fn counts_mixed_as_running() {
    let json = json(r#"{
        "nodes": [
            {"partition": "gpu", "state": "MIXED"},
            {"partition": "gpu", "state": "mix"},
            {"partition": "gpu", "state": "ALLOCATED"}
        ]
    }"#);
    let resources = parse_sinfo_json(&json);
    assert_eq!(resources.len(), 1);
    assert_eq!(resources[0].partition, "gpu");
    assert_eq!(resources[0].running_nodes, 3);
    assert_eq!(resources[0].available_nodes, 0);
}

#[test]
fn counts_idle_as_available() {
    let json = json(r#"{
        "nodes": [
            {"partition": "debug", "state": "idle"},
            {"partition": "debug", "state": "IDLE"},
            {"partition": "debug", "state": "allocated"}
        ]
    }"#);
    let resources = parse_sinfo_json(&json);
    assert_eq!(resources.len(), 1);
    assert_eq!(resources[0].running_nodes, 1);
    assert_eq!(resources[0].available_nodes, 2);
}

#[test]
fn excludes_unavailable_states() {
    let json = json(r#"{
        "nodes": [
            {"partition": "debug", "state": "down"},
            {"partition": "debug", "state": "drain"},
            {"partition": "debug", "state": "draining"},
            {"partition": "debug", "state": "drained"},
            {"partition": "debug", "state": "fail"},
            {"partition": "debug", "state": "failing"},
            {"partition": "debug", "state": "reserved"},
            {"partition": "debug", "state": "unknown"},
            {"partition": "debug", "state": "idle"},
            {"partition": "debug", "state": "allocated"}
        ]
    }"#);
    let resources = parse_sinfo_json(&json);
    assert_eq!(resources.len(), 1);
    assert_eq!(resources[0].running_nodes, 1);
    assert_eq!(resources[0].available_nodes, 1);
}

#[test]
fn groups_and_sorts_by_partition() {
    let json = json(r#"{
        "nodes": [
            {"partition": "gpu", "state": "allocated"},
            {"partition": "debug", "state": "idle"},
            {"partition": "cpu", "state": "mixed"},
            {"partition": "gpu", "state": "idle"},
            {"partition": "debug", "state": "allocated"},
            {"partition": "cpu", "state": "idle"}
        ]
    }"#);
    let resources = parse_sinfo_json(&json);
    assert_eq!(resources.len(), 3);
    assert_eq!(resources[0].partition, "cpu");
    assert_eq!(resources[0].running_nodes, 1);
    assert_eq!(resources[0].available_nodes, 1);
    assert_eq!(resources[1].partition, "debug");
    assert_eq!(resources[1].running_nodes, 1);
    assert_eq!(resources[1].available_nodes, 1);
    assert_eq!(resources[2].partition, "gpu");
    assert_eq!(resources[2].running_nodes, 1);
    assert_eq!(resources[2].available_nodes, 1);
}

#[test]
fn missing_nodes_field_returns_empty() {
    let resources = parse_sinfo_json(&json(r#"{"partitions": []}"#));
    assert!(resources.is_empty());
}

#[test]
fn missing_partition_or_state_skips_node() {
    let json = json(r#"{
        "nodes": [
            {"state": "idle"},
            {"partition": "debug"},
            {"partition": "debug", "state": "allocated"}
        ]
    }"#);
    let resources = parse_sinfo_json(&json);
    assert_eq!(resources.len(), 1);
    assert_eq!(resources[0].running_nodes, 1);
    assert_eq!(resources[0].available_nodes, 0);
}

#[test]
fn plain_parser_counts_with_node_count_field() {
    let resources = parse_sinfo_text("debug alloc 3\ndebug idle 2\n");
    assert_eq!(resources.len(), 1);
    assert_eq!(resources[0].running_nodes, 3);
    assert_eq!(resources[0].available_nodes, 2);
}

#[test]
fn plain_parser_counts_mix_as_running() {
    let resources = parse_sinfo_text("gpu mix 2\ngpu alloc 1\ngpu idle 4\n");
    assert_eq!(resources.len(), 1);
    assert_eq!(resources[0].running_nodes, 3);
    assert_eq!(resources[0].available_nodes, 4);
}

#[test]
fn plain_parser_defaults_to_1_when_count_missing() {
    let resources = parse_sinfo_text("debug alloc\ndebug idle\n");
    assert_eq!(resources.len(), 1);
    assert_eq!(resources[0].running_nodes, 1);
    assert_eq!(resources[0].available_nodes, 1);
}

#[test]
fn plain_parser_ignores_unavailable_states() {
    let resources = parse_sinfo_text("debug down 5\ndebug drain 3\ndebug alloc 2\ndebug idle 1\n");
    assert_eq!(resources.len(), 1);
    assert_eq!(resources[0].running_nodes, 2);
    assert_eq!(resources[0].available_nodes, 1);
}

#[test]
fn plain_parser_groups_by_partition() {
    let resources = parse_sinfo_text("gpu alloc 1\ndebug idle 2\ncpu mix 3\ncpu idle 4\n");
    assert_eq!(resources.len(), 3);
    assert_eq!(resources[0].partition, "cpu");
    assert_eq!(resources[0].running_nodes, 3);
    assert_eq!(resources[0].available_nodes, 4);
}

#[test]
fn sort_resources_orders_by_available_desc_then_partition() {
    let resources = sort_resource_snapshots(vec![
        ResourceSnapshot {
            partition: "A".into(),
            total_nodes: 0,
            running_nodes: 1,
            group_used_nodes: 0,
            available_nodes: 5,
        },
        ResourceSnapshot {
            partition: "B".into(),
            total_nodes: 0,
            running_nodes: 2,
            group_used_nodes: 0,
            available_nodes: 10,
        },
        ResourceSnapshot {
            partition: "C".into(),
            total_nodes: 0,
            running_nodes: 3,
            group_used_nodes: 0,
            available_nodes: 0,
        },
    ]);
    assert_eq!(resources[0].partition, "B");
    assert_eq!(resources[0].available_nodes, 10);
    assert_eq!(resources[1].partition, "A");
    assert_eq!(resources[1].available_nodes, 5);
    assert_eq!(resources[2].partition, "C");
    assert_eq!(resources[2].available_nodes, 0);
}

