use home_automation_rs::ws_clients::{client_message, stale_from_delivery, ClientRegistry};

#[test]
fn each_client_gets_the_payload() {
    assert_eq!(client_message("{\"event\":\"x\"}"), "{\"event\":\"x\"}");
}

#[test]
fn stale_ids_follow_the_delivery_results() {
    assert_eq!(stale_from_delivery(&vec![1, 2, 3], &vec![true, false, true]), vec![2]);
    assert_eq!(stale_from_delivery(&vec![4, 5], &vec![false, false]), vec![4, 5]);
    assert!(stale_from_delivery(&vec![], &vec![]).is_empty());
}

#[test]
fn next_client_id_counts_up() {
    let mut registry = ClientRegistry::new();
    assert_eq!(registry.next_client_id(), 1);
    let (a, _ra) = tokio::sync::mpsc::unbounded_channel::<String>();
    assert_eq!(registry.add_client(a), 1);
    assert_eq!(registry.next_client_id(), 2);
    assert!(!registry.remove_client(7));
}

#[test]
fn broadcast_reaches_open_clients_and_drops_closed_ones() {
    let mut registry = ClientRegistry::new();
    let (a, mut ra) = tokio::sync::mpsc::unbounded_channel::<String>();
    let (b, rb) = tokio::sync::mpsc::unbounded_channel::<String>();
    let id_a = registry.add_client(a);
    let id_b = registry.add_client(b);
    drop(rb);
    let stale = registry.broadcast("hello");
    assert_eq!(stale, vec![id_b]);
    assert_eq!(registry.len(), 1);
    assert_eq!(ra.try_recv().unwrap(), "hello");
    assert!(registry.remove_client(id_a));
}
