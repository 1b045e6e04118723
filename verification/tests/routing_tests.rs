use dataflow_rs::routing::{RouteEntry, build_channel_index, sort_by_priority};

fn entry(priority: u32, channel: &str, active: bool) -> RouteEntry {
    RouteEntry { priority, channel: channel.to_string(), active }
}

fn shape(ws: &[RouteEntry]) -> Vec<(u32, String)> {
    ws.iter().map(|w| (w.priority, w.channel.clone())).collect()
}

#[test]
fn workflows_run_in_ascending_priority() {
    let sorted = sort_by_priority(vec![
        entry(2, "c", true),
        entry(0, "a", true),
        entry(1, "b", true),
    ]);
    assert_eq!(
        shape(&sorted),
        vec![(0, "a".to_string()), (1, "b".to_string()), (2, "c".to_string())]
    );
}

#[test]
fn equal_priorities_keep_the_order_they_were_given_in() {
    let sorted = sort_by_priority(vec![
        entry(1, "first", true),
        entry(0, "zero", true),
        entry(1, "second", true),
        entry(1, "third", false),
    ]);
    assert_eq!(
        shape(&sorted),
        vec![
            (0, "zero".to_string()),
            (1, "first".to_string()),
            (1, "second".to_string()),
            (1, "third".to_string()),
        ]
    );
}

#[test]
fn sorting_nothing_gives_nothing() {
    assert!(sort_by_priority(Vec::new()).is_empty());
}

#[test]
fn a_channel_routes_to_its_active_workflows_in_order() {
    let ws = vec![
        entry(0, "orders", true),
        entry(1, "billing", true),
        entry(2, "orders", false),
        entry(3, "orders", true),
    ];
    let index = build_channel_index(&ws);
    assert_eq!(index.get("orders").cloned(), Some(vec![0, 3]));
    assert_eq!(index.get("billing").cloned(), Some(vec![1]));
}

#[test]
fn a_channel_with_only_inactive_workflows_routes_nowhere() {
    let ws = vec![entry(0, "paused", false), entry(1, "live", true)];
    let index = build_channel_index(&ws);
    assert_eq!(index.get("paused"), None);
    assert_eq!(index.get("live").cloned(), Some(vec![1]));
}

#[test]
fn an_unknown_channel_routes_nowhere() {
    let index = build_channel_index(&vec![entry(0, "a", true)]);
    assert_eq!(index.get("b"), None);
    assert_eq!(index.get(""), None);
}

#[test]
fn channel_names_match_exactly() {
    let ws = vec![entry(0, "Orders", true), entry(1, "orders", true)];
    let index = build_channel_index(&ws);
    assert_eq!(index.get("Orders").cloned(), Some(vec![0]));
    assert_eq!(index.get("orders").cloned(), Some(vec![1]));
    assert_eq!(index.get("order"), None);
}
