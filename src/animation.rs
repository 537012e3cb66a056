use vstd::prelude::*;

use crate::engine::{offsets_in_range, DockData, DragSession, EngineState, SHIFT_TIME};
use crate::geometry::Rect;
use crate::ids::ItemId;

verus! {

/// One style state of a dock icon: a shift away from its laid-out slot, the
/// length of the linear transition that reaches it, and whether the icon
/// takes pointer events.
#[derive(Clone, Copy, Debug, PartialEq, Eq, Structural)]
pub struct Frame {
    pub translate_x: i64,
    pub translate_y: i64,
    pub duration_ms: u64,
    pub pointer_events: bool,
}

/// The first frame of a slide: the icon, now laid out at `cur`, is drawn at
/// `prev`, at once and deaf to the pointer.
pub open spec fn slide_from(prev: Rect, cur: Rect) -> Frame {
    Frame {
        translate_x: (prev.left - cur.left) as i64,
        translate_y: (prev.top - cur.top) as i64,
        duration_ms: 0,
        pointer_events: false,
    }
}

/// The frame of an icon under the pointer: its slot is `slot`, and it is drawn
/// where the pointer holds it, with no transition.
pub open spec fn held_at(ss: DragSession, slot: Rect) -> Frame {
    Frame {
        translate_x: (ss.pointer_x - ss.offset_x - slot.left) as i64,
        translate_y: (ss.pointer_y - ss.offset_y - slot.top) as i64,
        duration_ms: 0,
        pointer_events: false,
    }
}

pub fn slide_start(prev: Rect, cur: Rect) -> (r: Frame)
    ensures
        r == slide_from(prev, cur),
{
    Frame {
        translate_x: prev.left as i64 - cur.left as i64,
        translate_y: prev.top as i64 - cur.top as i64,
        duration_ms: 0,
        pointer_events: false,
    }
}

/// The frame a slide, or a return to the slot after a drag, runs to: no
/// shift, over `SHIFT_TIME`, still deaf to the pointer.
pub fn slide_end() -> (r: Frame)
    ensures
        r == (Frame { translate_x: 0, translate_y: 0, duration_ms: SHIFT_TIME, pointer_events: false }),
{
    Frame { translate_x: 0, translate_y: 0, duration_ms: SHIFT_TIME, pointer_events: false }
}

/// The frame once a transition has ended: in the slot, and taking pointer
/// events again.
pub fn at_rest() -> (r: Frame)
    ensures
        r == (Frame { translate_x: 0, translate_y: 0, duration_ms: 0, pointer_events: true }),
{
    Frame { translate_x: 0, translate_y: 0, duration_ms: 0, pointer_events: true }
}

/// Where the dragged icon is drawn while the pointer holds it.
pub fn held_frame(ss: &DragSession, slot: Rect) -> (r: Frame)
    requires
        offsets_in_range(*ss),
    ensures
        r == held_at(*ss, slot),
{
    Frame {
        translate_x: ss.pointer_x as i64 - ss.offset_x - slot.left as i64,
        translate_y: ss.pointer_y as i64 - ss.offset_y - slot.top as i64,
        duration_ms: 0,
        pointer_events: false,
    }
}

impl DockData {
    /// Records the box of `id` measured after a layout pass, and returns the
    /// first frame of the slide from its former box, where it had one that
    /// differs and it is not the item under the pointer.
    pub fn relayout(&mut self, id: ItemId, rect: Rect) -> (r: Option<Frame>)
        requires
            old(self).wf(),
        ensures
            final(self).wf(),
            final(self)@ == (EngineState {
                geometry: old(self)@.geometry.insert(id, rect),
                ..old(self)@
            }),
            r == (if old(self)@.geometry.contains_key(id) && old(self)@.geometry[id] != rect && !(
            old(self)@.session matches Some(ss) && ss.dragging == id) {
                Some(slide_from(old(self)@.geometry[id], rect))
            } else {
                None
            }),
    {
        let prev = self.geometry(id);
        let held = match self.session() {
            Some(ss) => ss.dragging == id,
            None => false,
        };
        self.record_geometry(id, rect);
        match prev {
            Some(p) => {
                if p != rect && !held {
                    Some(slide_start(p, rect))
                } else {
                    None
                }
            },
            None => None,
        }
    }

    /// Where the dragged icon is drawn now, from the open session and the box
    /// of its slot.
    pub fn dragged_frame(&self) -> (r: Option<Frame>)
        requires
            self.wf(),
        ensures
            r == (match self@.session {
                Some(ss) => if self@.geometry.contains_key(ss.dragging) {
                    Some(held_at(ss, self@.geometry[ss.dragging]))
                } else {
                    None
                },
                None => None,
            }),
    {
        let ss = match self.session() {
            Some(ss) => ss,
            None => {
                return None;
            },
        };
        match self.geometry(ss.dragging) {
            Some(slot) => {
                Some(held_frame(&ss, slot))
            },
            None => None,
        }
    }
}

} // verus!
