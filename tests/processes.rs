use site_os::ids::ItemId;
use site_os::processes::{ActiveProccesses, ActiveProcess};

#[test]
fn started_apps_stack_up() {
    let mut p = ActiveProccesses::new();
    assert!(!p.is_running(ItemId(7)));
    p.run_app(ItemId(7), 10);
    p.run_app(ItemId(8), 20);
    assert_eq!(p.len(), 2);
    assert_eq!(
        p.get(ItemId(7)),
        Some(ActiveProcess { start_time: 10, window_stack_idx: 1, minimized: false })
    );
    assert_eq!(p.get(ItemId(8)).unwrap().window_stack_idx, 2);
}

#[test]
fn restarting_replaces_the_entry() {
    let mut p = ActiveProccesses::new();
    p.run_app(ItemId(1), 0);
    p.run_app(ItemId(2), 0);
    p.run_app(ItemId(1), 5);
    assert_eq!(p.len(), 2);
    assert_eq!(
        p.get(ItemId(1)),
        Some(ActiveProcess { start_time: 5, window_stack_idx: 3, minimized: false })
    );
}

#[test]
fn closing_lowers_the_windows_above() {
    let mut p = ActiveProccesses::new();
    p.run_app(ItemId(1), 0);
    p.run_app(ItemId(2), 0);
    p.run_app(ItemId(3), 0);
    assert!(p.close_app(ItemId(2)));
    assert!(!p.is_running(ItemId(2)));
    assert_eq!(p.get(ItemId(1)).unwrap().window_stack_idx, 1);
    assert_eq!(p.get(ItemId(3)).unwrap().window_stack_idx, 2);
    assert!(!p.close_app(ItemId(2)));
    assert_eq!(p.len(), 2);
}

#[test]
fn windows_listed_bottom_to_top() {
    let mut p = ActiveProccesses::new();
    p.run_app(ItemId(1), 0);
    p.run_app(ItemId(2), 0);
    p.run_app(ItemId(3), 0);
    p.run_app(ItemId(1), 9);
    let order: Vec<(u128, usize)> = p.by_stack().iter().map(|(id, q)| (id.0, q.window_stack_idx)).collect();
    assert_eq!(order, vec![(2, 2), (3, 3), (1, 4)]);
}
