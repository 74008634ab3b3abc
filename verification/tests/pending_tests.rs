use asn_net::PendingTable;

#[test]
fn insert_get_remove() {
    let mut t = PendingTable::new();
    assert_eq!(t.len(), 0);
    assert!(!t.contains(5));

    t.insert(5, 50);
    t.insert(6, 60);
    assert_eq!(t.len(), 2);
    assert!(t.contains(5));
    assert_eq!(t.get(5), Some(50));
    assert_eq!(t.get(6), Some(60));
    assert_eq!(t.get(7), None);

    assert_eq!(t.remove(5), Some(50));
    assert_eq!(t.remove(5), None);
    assert_eq!(t.len(), 1);
    assert!(!t.contains(5));
    assert!(t.contains(6));
}

#[test]
fn tickets_lists_every_outstanding_entry() {
    let mut t = PendingTable::new();
    t.insert(1, 10);
    t.insert(2, 20);
    t.insert(3, 30);
    let mut tickets = t.tickets();
    tickets.sort();
    assert_eq!(tickets, vec![10, 20, 30]);
}
