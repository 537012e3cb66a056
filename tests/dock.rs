use site_os::animation::{at_rest, slide_end, slide_start, Frame};
use site_os::engine::{DockData, DragError, SHIFT_TIME};
use site_os::geometry::{GeometryTracker, Rect};
use site_os::ids::ItemId;
use site_os::intent::{apply, classify, Intent};
use site_os::order::DockOrder;

const FINDER: ItemId = ItemId(1);
const BROWSER: ItemId = ItemId(2);
const CALENDAR: ItemId = ItemId(3);

fn slot(i: i32) -> Rect {
    Rect { left: 100 + 80 * i, top: 500, width: 72 }
}

fn left_half(i: i32) -> i32 {
    100 + 80 * i + 10
}

fn right_half(i: i32) -> i32 {
    100 + 80 * i + 60
}

fn engine(ids: &[u128]) -> DockData {
    let list: Vec<ItemId> = ids.iter().map(|&n| ItemId(n)).collect();
    let mut e = DockData::init(DockOrder::new(list.clone()).unwrap());
    for (i, id) in list.iter().enumerate() {
        e.record_geometry(*id, slot(i as i32));
    }
    e
}

fn ids(e: &DockData) -> Vec<u128> {
    e.order().iter().map(|id| id.0).collect()
}

fn run_queue(e: &mut DockData) {
    while e.process_next().is_some() {
        e.debounce_elapsed();
    }
}

#[test]
fn order_rejects_duplicates() {
    assert!(DockOrder::new(vec![ItemId(1), ItemId(2), ItemId(1)]).is_none());
    assert!(DockOrder::new(vec![]).is_some());
}

#[test]
fn order_insert_moves_an_existing_id() {
    let mut o = DockOrder::new(vec![ItemId(1), ItemId(2), ItemId(3), ItemId(4)]).unwrap();
    o.insert(0, ItemId(3));
    assert_eq!(o.ids(), vec![ItemId(3), ItemId(1), ItemId(2), ItemId(4)]);
    o.insert(4, ItemId(5));
    assert_eq!(o.ids(), vec![ItemId(3), ItemId(1), ItemId(2), ItemId(4), ItemId(5)]);
}

#[test]
fn order_swap_and_remove() {
    let mut o = DockOrder::new(vec![ItemId(1), ItemId(2), ItemId(3)]).unwrap();
    o.swap(0, 2);
    assert_eq!(o.ids(), vec![ItemId(3), ItemId(2), ItemId(1)]);
    assert!(o.remove(ItemId(2)));
    assert!(!o.remove(ItemId(9)));
    assert_eq!(o.ids(), vec![ItemId(3), ItemId(1)]);
    assert_eq!(o.index_of(ItemId(1)), Some(1));
    assert_eq!(o.index_of(ItemId(2)), None);
}

#[test]
fn geometry_record_overwrites() {
    let mut g = GeometryTracker::new();
    assert_eq!(g.get(ItemId(1)), None);
    g.record(ItemId(1), slot(0));
    g.record(ItemId(2), slot(1));
    g.record(ItemId(1), slot(3));
    assert_eq!(g.get(ItemId(1)), Some(slot(3)));
    assert_eq!(g.get(ItemId(2)), Some(slot(1)));
}

#[test]
fn cursor_side_splits_at_the_middle() {
    let r = Rect { left: 10, top: 0, width: 7 };
    assert!(r.on_left_half(12));
    assert!(!r.on_left_half(13));
    assert!(!r.on_left_half(20));
}

#[test]
fn begin_drag_errors() {
    let mut e = engine(&[1, 2, 3]);
    assert_eq!(e.begin_drag(ItemId(9), 0, 0), Err(DragError::NotInDock));
    assert_eq!(e.begin_drag(ItemId(1), 0, 0), Err(DragError::AnchorSlot));
    let mut bare = DockData::init(DockOrder::new(vec![ItemId(1), ItemId(2)]).unwrap());
    assert_eq!(bare.begin_drag(ItemId(2), 0, 0), Err(DragError::NoGeometry));
    assert_eq!(e.begin_drag(ItemId(2), 195, 530), Ok(()));
    assert_eq!(e.begin_drag(ItemId(3), 0, 0), Err(DragError::SessionActive));
    let s = e.session().unwrap();
    assert_eq!(s.dragging, ItemId(2));
    assert_eq!(s.origin_slot, 1);
    assert_eq!((s.offset_x, s.offset_y), (15, 30));
}

#[test]
fn anchor_drag_opens_no_session() {
    let mut e = engine(&[1, 2, 3]);
    assert_eq!(e.begin_drag(FINDER, left_half(0), 510), Err(DragError::AnchorSlot));
    assert_eq!(e.session(), None);
    assert_eq!(e.drag_over_icon(BROWSER, right_half(1)), None);
    assert_eq!(e.drag_out(), None);
    assert!(!e.drop());
    assert!(e.queued().is_empty());
    assert_eq!(ids(&e), vec![1, 2, 3]);
}

#[test]
fn self_dragover_is_noop() {
    let mut e = engine(&[1, 2, 3]);
    e.begin_drag(CALENDAR, left_half(2), 510).unwrap();
    assert_eq!(e.drag_over_icon(CALENDAR, left_half(2)), None);
    assert_eq!(e.drag_over_icon(CALENDAR, right_half(2)), None);
    assert!(e.queued().is_empty());
    assert_eq!(ids(&e), vec![1, 2, 3]);
}

#[test]
fn pushing_the_same_intent_twice_queues_it_once() {
    let mut e = engine(&[1, 2, 3]);
    assert!(e.push(Intent::ShiftLeft(BROWSER)));
    assert!(!e.push(Intent::ShiftLeft(BROWSER)));
    assert_eq!(e.queued(), vec![Intent::ShiftLeft(BROWSER)]);
    assert!(e.is_pending(Intent::ShiftLeft(BROWSER)));
}

#[test]
fn repeated_dragover_is_deduplicated() {
    let mut e = engine(&[1, 2, 3, 4]);
    e.begin_drag(ItemId(2), left_half(1), 510).unwrap();
    e.drag_over_icon(ItemId(3), left_half(2));
    e.drag_over_icon(ItemId(3), left_half(2) + 1);
    e.drag_over_icon(ItemId(3), left_half(2) + 2);
    assert_eq!(e.queued(), vec![Intent::ShiftLeft(ItemId(3))]);
}

#[test]
fn shift_left_moves_the_dragged_item_right() {
    let mut e = engine(&[1, 2, 3, 4]);
    e.begin_drag(ItemId(2), left_half(1), 510).unwrap();
    assert_eq!(e.drag_over_icon(ItemId(3), left_half(2)), Some(Intent::ShiftLeft(ItemId(3))));
    assert_eq!(e.process_next(), Some(Intent::ShiftLeft(ItemId(3))));
    assert_eq!(ids(&e), vec![1, 3, 2, 4]);
}

#[test]
fn shift_symmetry_with_anchor_in_front() {
    // a = 2, b = 3 behind the anchor 1: both directions give [1, b, a, 4]
    let mut e = engine(&[1, 2, 3, 4]);
    e.begin_drag(ItemId(3), left_half(2), 510).unwrap();
    assert_eq!(e.drag_over_icon(ItemId(2), right_half(1)), Some(Intent::ShiftRight(ItemId(2))));
    run_queue(&mut e);
    assert_eq!(ids(&e), vec![1, 3, 2, 4]);

    let mut f = engine(&[1, 2, 3, 4]);
    f.begin_drag(ItemId(2), left_half(1), 510).unwrap();
    assert_eq!(f.drag_over_icon(ItemId(3), left_half(2)), Some(Intent::ShiftLeft(ItemId(3))));
    run_queue(&mut f);
    assert_eq!(ids(&f), vec![1, 3, 2, 4]);
}

#[test]
fn shift_over_the_leftmost_slot_never_fires() {
    // order [a, b, c]: b over a's right half would shift, but a holds the anchor slot
    let mut e = engine(&[1, 2, 3]);
    e.begin_drag(ItemId(2), left_half(1), 510).unwrap();
    assert_eq!(e.drag_over_icon(ItemId(1), right_half(0)), None);
    assert!(e.queued().is_empty());
    assert_eq!(ids(&e), vec![1, 2, 3]);
}

#[test]
fn dead_zone_emits_nothing() {
    let mut e = engine(&[1, 2, 3, 4]);
    e.begin_drag(ItemId(2), left_half(1), 510).unwrap();
    assert_eq!(e.drag_over_icon(ItemId(3), right_half(2)), None);
    assert_eq!(e.drag_over_icon(ItemId(4), left_half(3)), None);
    assert!(e.queued().is_empty());
}

#[test]
fn insert_right_at_tail() {
    let (a, b, c, d) = (ItemId(1), ItemId(2), ItemId(3), ItemId(4));
    let mut o = DockOrder::new(vec![a, b, c]).unwrap();
    let i = classify(&o, d, c, false);
    assert_eq!(i, Some(Intent::InsertRight(c)));
    apply(&mut o, d, i.unwrap());
    assert_eq!(o.ids(), vec![a, b, c, d]);
}

#[test]
fn insert_right_at_tail_through_the_engine() {
    let mut e = engine(&[1, 2, 3, 4]);
    e.begin_drag(ItemId(4), left_half(3), 510).unwrap();
    assert_eq!(e.drag_out(), Some(Intent::Remove(ItemId(4))));
    run_queue(&mut e);
    assert_eq!(ids(&e), vec![1, 2, 3]);
    assert_eq!(e.drag_over_icon(ItemId(3), right_half(2)), Some(Intent::InsertRight(ItemId(3))));
    run_queue(&mut e);
    assert_eq!(ids(&e), vec![1, 2, 3, 4]);
}

#[test]
fn insert_left_at_head_never_fires() {
    let (a, b, c, d) = (ItemId(1), ItemId(2), ItemId(3), ItemId(4));
    let mut o = DockOrder::new(vec![a, b, c]).unwrap();
    assert_eq!(classify(&o, d, a, true), None);
    apply(&mut o, d, Intent::InsertLeft(a));
    assert_eq!(o.ids(), vec![a, b, c]);
    assert_eq!(classify(&o, d, b, true), Some(Intent::InsertLeft(b)));
    apply(&mut o, d, Intent::InsertLeft(b));
    assert_eq!(o.ids(), vec![a, d, b, c]);
}

#[test]
fn calendar_shifts_past_browser_then_drops() {
    let mut e = engine(&[1, 2, 3]);
    e.begin_drag(CALENDAR, left_half(2), 510).unwrap();
    // the left half of the left neighbour is the dead zone
    assert_eq!(e.drag_over_icon(BROWSER, left_half(1)), None);
    assert_eq!(e.drag_over_icon(BROWSER, right_half(1)), Some(Intent::ShiftRight(BROWSER)));
    assert_eq!(e.process_next(), Some(Intent::ShiftRight(BROWSER)));
    assert_eq!(e.order(), vec![FINDER, CALENDAR, BROWSER]);
    assert!(e.drop());
    assert_eq!(e.process_next(), None);
    e.debounce_elapsed();
    assert_eq!(e.process_next(), Some(Intent::Drop));
    assert_eq!(e.session(), None);
    e.debounce_elapsed();
    e.drag_end();
    assert_eq!(e.order(), vec![FINDER, CALENDAR, BROWSER]);
}

#[test]
fn one_intent_in_flight_at_a_time() {
    let mut e = engine(&[1, 2, 3, 4]);
    e.begin_drag(ItemId(2), left_half(1), 510).unwrap();
    e.drag_over_icon(ItemId(3), left_half(2));
    assert_eq!(e.process_next(), Some(Intent::ShiftLeft(ItemId(3))));
    e.drag_over_icon(ItemId(4), left_half(3));
    assert_eq!(e.process_next(), None);
    assert_eq!(ids(&e), vec![1, 3, 2, 4]);
    assert_eq!(e.in_flight(), Some(Intent::ShiftLeft(ItemId(3))));
    e.debounce_elapsed();
    assert_eq!(e.in_flight(), None);
    assert!(!e.is_pending(Intent::ShiftLeft(ItemId(3))));
    assert_eq!(e.process_next(), Some(Intent::ShiftLeft(ItemId(4))));
    assert_eq!(ids(&e), vec![1, 3, 4, 2]);
}

#[test]
fn stale_shift_is_resolved_against_the_live_order() {
    let mut e = engine(&[1, 2, 3, 4]);
    e.begin_drag(ItemId(2), left_half(1), 510).unwrap();
    e.push(Intent::ShiftLeft(ItemId(4)));
    run_queue(&mut e);
    assert_eq!(ids(&e), vec![1, 2, 3, 4]);
}

#[test]
fn drop_in_limbo_deletes_the_item() {
    let mut e = engine(&[1, 2, 3]);
    e.begin_drag(ItemId(2), left_half(1), 510).unwrap();
    e.drag_out();
    assert!(e.drop());
    run_queue(&mut e);
    assert_eq!(ids(&e), vec![1, 3]);
    assert_eq!(e.session(), None);
    e.drag_end();
    assert_eq!(ids(&e), vec![1, 3]);
}

#[test]
fn cancel_returns_a_limbo_item_and_flushes_the_queue() {
    let mut e = engine(&[1, 2, 3, 4]);
    e.begin_drag(ItemId(3), left_half(2), 510).unwrap();
    e.drag_out();
    assert_eq!(e.process_next(), Some(Intent::Remove(ItemId(3))));
    assert_eq!(ids(&e), vec![1, 2, 4]);
    e.drag_over_icon(ItemId(4), right_half(3));
    assert_eq!(e.queued(), vec![Intent::InsertRight(ItemId(4))]);
    e.drag_end();
    assert_eq!(ids(&e), vec![1, 2, 3, 4]);
    assert!(e.queued().is_empty());
    assert_eq!(e.session(), None);
    assert!(e.is_pending(Intent::Remove(ItemId(3))));
    e.debounce_elapsed();
    assert!(!e.is_pending(Intent::Remove(ItemId(3))));
}

#[test]
fn many_intents_keep_a_permutation() {
    let mut e = engine(&[1, 2, 3, 4, 5]);
    e.begin_drag(ItemId(3), left_half(2), 510).unwrap();
    let script = [
        Intent::ShiftLeft(ItemId(4)),
        Intent::ShiftRight(ItemId(2)),
        Intent::InsertLeft(ItemId(5)),
        Intent::Remove(ItemId(3)),
        Intent::InsertRight(ItemId(1)),
        Intent::ShiftLeft(ItemId(2)),
        Intent::Remove(ItemId(5)),
        Intent::InsertLeft(ItemId(4)),
    ];
    for i in script {
        e.push(i);
        run_queue(&mut e);
        let mut now = ids(&e);
        now.sort();
        let before = now.len();
        now.dedup();
        assert_eq!(now.len(), before);
    }
    let mut last = ids(&e);
    last.sort();
    assert_eq!(last, vec![1, 2, 3, 4]);
    assert_eq!(ids(&e)[0], 1);
}

#[test]
fn frames_of_a_slide() {
    let f = slide_start(slot(2), slot(1));
    assert_eq!(f, Frame { translate_x: 80, translate_y: 0, duration_ms: 0, pointer_events: false });
    assert_eq!(slide_end(), Frame { translate_x: 0, translate_y: 0, duration_ms: 250, pointer_events: false });
    assert_eq!(at_rest().pointer_events, true);
    assert_eq!(SHIFT_TIME, 250);
}

#[test]
fn relayout_slides_moved_items_only() {
    let mut e = engine(&[1, 2, 3, 4]);
    e.begin_drag(ItemId(2), left_half(1), 510).unwrap();
    e.drag_over_icon(ItemId(3), left_half(2));
    e.process_next();
    assert_eq!(
        e.relayout(ItemId(3), slot(1)),
        Some(Frame { translate_x: 80, translate_y: 0, duration_ms: 0, pointer_events: false })
    );
    assert_eq!(e.relayout(ItemId(2), slot(2)), None);
    assert_eq!(e.relayout(ItemId(4), slot(3)), None);
    assert_eq!(e.geometry(ItemId(3)), Some(slot(1)));
}

#[test]
fn dragged_icon_follows_the_pointer() {
    let mut e = engine(&[1, 2, 3]);
    e.begin_drag(ItemId(2), 190, 520).unwrap();
    e.update_pointer(300, 400);
    let f = e.dragged_frame().unwrap();
    assert_eq!((f.translate_x, f.translate_y), (110, -120));
    assert_eq!(f.duration_ms, 0);
}

#[test]
fn cancel_undoes_shifts_of_the_dragged_item() {
    let mut e = engine(&[1, 2, 3, 4]);
    e.begin_drag(ItemId(2), left_half(1), 510).unwrap();
    e.drag_over_icon(ItemId(3), left_half(2));
    run_queue(&mut e);
    assert_eq!(ids(&e), vec![1, 3, 2, 4]);
    e.drag_end();
    assert_eq!(ids(&e), vec![1, 2, 3, 4]);
    assert_eq!(e.session(), None);
}
