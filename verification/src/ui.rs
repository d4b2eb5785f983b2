use vstd::prelude::*;

verus! {

/// The kind of window that sent a UI event.
#[derive(Clone, Copy, Debug, PartialEq, Eq, Structural)]
pub enum WindowKind {
    Comp,
    Layer,
    Other,
}

/// The coordinate path between the window and the layer.
#[derive(Clone, Copy, Debug, PartialEq, Eq, Structural)]
pub enum CoordSpace {
    /// Frame to source, then composition to layer (and back).
    Comp,
    /// Frame to source only (and back).
    Layer,
}

/// Events of the custom UI that the effect reacts to.
#[derive(Clone, Copy, Debug, PartialEq, Eq, Structural)]
pub enum UiEvent {
    Click,
    Drag,
    Draw,
    Other,
}

/// Which handler runs for an event.
#[derive(Clone, Copy, Debug, PartialEq, Eq, Structural)]
pub enum UiHandler {
    Click,
    Drag,
    Draw,
    Ignore,
}

/// The continuation value that marks a drag in progress.
pub const REFCON_DRAWING: isize = 1;

/// What the effect asks of the host in reply to a click or a drag event.
#[derive(Clone, Copy, Debug, PartialEq, Eq, Structural)]
pub struct UiReply {
    /// Write the pointer position (in layer space) into the start point.
    pub move_start: bool,
    /// Write the pointer position into the end point.
    pub move_end: bool,
    /// Before writing it, snap the end point to the nearest 45° direction
    /// around the start point.
    pub snap_end: bool,
    /// New value of the event's "send drag" flag, if it changes.
    pub send_drag: Option<bool>,
    /// New value of the event's first continuation value, if it changes.
    pub refcon: Option<isize>,
    /// Whether the event is reported as handled.
    pub handled: bool,
}

/// The reply that leaves the event untouched.
pub open spec fn no_reply() -> UiReply {
    UiReply { move_start: false, move_end: false, snap_end: false, send_drag: None, refcon: None, handled: false }
}

/// Whether a window shows the effect's gradient line.
pub open spec fn is_drawing_window(window: WindowKind) -> bool {
    window == WindowKind::Comp || window == WindowKind::Layer
}

/// Handler for an event: a click while the host already sends drags is
/// treated as a drag.
pub fn route_event(event: UiEvent, send_drag: bool) -> (h: UiHandler)
    ensures
        h == match event {
            UiEvent::Click => if send_drag { UiHandler::Drag } else { UiHandler::Click },
            UiEvent::Drag => UiHandler::Drag,
            UiEvent::Draw => UiHandler::Draw,
            UiEvent::Other => UiHandler::Ignore,
        },
{
    match event {
        UiEvent::Click => if send_drag {
            UiHandler::Drag
        } else {
            UiHandler::Click
        },
        UiEvent::Drag => UiHandler::Drag,
        UiEvent::Draw => UiHandler::Draw,
        UiEvent::Other => UiHandler::Ignore,
    }
}

/// How pointer and point coordinates travel for a window: through the
/// composition for composition windows, directly otherwise.
pub fn pointer_space(window: WindowKind) -> (s: CoordSpace)
    ensures
        s == (if window == WindowKind::Comp { CoordSpace::Comp } else { CoordSpace::Layer }),
{
    match window {
        WindowKind::Comp => CoordSpace::Comp,
        _ => CoordSpace::Layer,
    }
}

/// Reply to a click: see `click`.
pub open spec fn click_reply(window: WindowKind) -> UiReply {
    if is_drawing_window(window) {
        UiReply {
            move_start: true,
            move_end: true,
            snap_end: false,
            send_drag: Some(true),
            refcon: Some(REFCON_DRAWING),
            handled: true,
        }
    } else {
        no_reply()
    }
}

/// Reply to a drag event: see `drag`.
pub open spec fn drag_reply(refcon: isize, shift: bool, last_time: bool) -> UiReply {
    if refcon == REFCON_DRAWING {
        UiReply {
            move_start: false,
            move_end: true,
            snap_end: shift,
            send_drag: Some(!last_time),
            refcon: Some(if last_time { 0 } else { REFCON_DRAWING }),
            handled: true,
        }
    } else {
        no_reply()
    }
}

/// A click in a composition or layer window starts a new gradient line:
/// start and end both move to the pointer (so the layer passes through
/// unchanged until the pointer moves), drags are requested and marked as
/// ours.  Clicks in other windows are left alone.
pub fn click(window: WindowKind) -> (r: UiReply)
    ensures
        r == click_reply(window),
        r.move_start == (window == WindowKind::Comp || window == WindowKind::Layer),
        r.move_end == (window == WindowKind::Comp || window == WindowKind::Layer),
        !r.snap_end,
        r.handled == (window == WindowKind::Comp || window == WindowKind::Layer),
        r.send_drag == (if window == WindowKind::Comp || window == WindowKind::Layer {
            Some(true)
        } else {
            None
        }),
        r.refcon == (if window == WindowKind::Comp || window == WindowKind::Layer {
            Some(REFCON_DRAWING)
        } else {
            None
        }),
{
    if window == WindowKind::Comp || window == WindowKind::Layer {
        UiReply {
            move_start: true,
            move_end: true,
            snap_end: false,
            send_drag: Some(true),
            refcon: Some(REFCON_DRAWING),
            handled: true,
        }
    } else {
        UiReply { move_start: false, move_end: false, snap_end: false, send_drag: None, refcon: None, handled: false }
    }
}

/// A drag that belongs to a line being drawn moves the end point to the
/// pointer (snapped to 45° while Shift is held) and keeps the drag going,
/// except on its last event, which ends it.  Other drags are left alone.
pub fn drag(refcon: isize, shift: bool, last_time: bool) -> (r: UiReply)
    ensures
        r == drag_reply(refcon, shift, last_time),
        !r.move_start,
        r.move_end == (refcon == REFCON_DRAWING),
        r.snap_end == (refcon == REFCON_DRAWING && shift),
        r.handled == (refcon == REFCON_DRAWING),
        r.send_drag == (if refcon == REFCON_DRAWING { Some(!last_time) } else { None }),
        r.refcon == (if refcon != REFCON_DRAWING {
            None
        } else if last_time {
            Some(0isize)
        } else {
            Some(REFCON_DRAWING)
        }),
{
    if refcon == REFCON_DRAWING {
        let mut send_drag = true;
        let mut next_refcon = REFCON_DRAWING;
        if last_time {
            next_refcon = 0;
            send_drag = false;
        }
        UiReply {
            move_start: false,
            move_end: true,
            snap_end: shift,
            send_drag: Some(send_drag),
            refcon: Some(next_refcon),
            handled: true,
        }
    } else {
        UiReply { move_start: false, move_end: false, snap_end: false, send_drag: None, refcon: None, handled: false }
    }
}

/// How the overlay is drawn.
#[derive(Clone, Copy, Debug, PartialEq, Eq, Structural)]
pub struct DrawPlan {
    /// The coordinate path from layer to window.
    pub space: CoordSpace,
    /// Stroke with the host's overlay theme (not available in Premiere);
    /// otherwise with a plain light grey pen.
    pub themed: bool,
}

/// Whether and how the gradient line is drawn: only in composition and
/// layer windows, and always reported as handled then.
pub fn draw(window: WindowKind, premiere: bool) -> (plan: Option<DrawPlan>)
    ensures
        plan == (if is_drawing_window(window) {
            Some(
                DrawPlan {
                    space: if window == WindowKind::Comp { CoordSpace::Comp } else { CoordSpace::Layer },
                    themed: !premiere,
                },
            )
        } else {
            None
        }),
{
    if window != WindowKind::Comp && window != WindowKind::Layer {
        return None;
    }
    Some(DrawPlan { space: pointer_space(window), themed: !premiere })
}

/// The optional stops that get a marker on the line: exactly the enabled
/// ones, in slot order.
pub fn stop_markers(enabled: &[bool]) -> (marks: Vec<usize>)
    ensures
        forall|k: int| 0 <= k < marks@.len() ==> #[trigger] marks@[k] < enabled@.len() && enabled@[marks@[k] as int],
        forall|a: int, b: int| 0 <= a < b < marks@.len() ==> #[trigger] marks@[a] < #[trigger] marks@[b],
        forall|i: int| 0 <= i < enabled@.len() && #[trigger] enabled@[i] ==> marks@.contains(i as usize),
{
    let n = enabled.len();
    let mut marks: Vec<usize> = Vec::new();
    let mut i: usize = 0;
    while i < n
        invariant
            i <= n,
            n == enabled@.len(),
            forall|k: int| 0 <= k < marks@.len() ==> #[trigger] marks@[k] < i && enabled@[marks@[k] as int],
            forall|a: int, b: int| 0 <= a < b < marks@.len() ==> #[trigger] marks@[a] < #[trigger] marks@[b],
            forall|j: int| 0 <= j < i && #[trigger] enabled@[j] ==> marks@.contains(j as usize),
        decreases n - i,
    {
        if enabled[i] {
            let ghost before_push = marks@;
            marks.push(i);
            proof {
                assert forall|j: int| 0 <= j < i + 1 && #[trigger] enabled@[j] implies marks@.contains(j as usize) by {
                    if j < i {
                        let w = choose|w: int| 0 <= w < before_push.len() && before_push[w] == j as usize;
                        assert(marks@[w] == j as usize);
                    } else {
                        assert(marks@[marks@.len() - 1] == j as usize);
                    }
                }
            }
        }
        i += 1;
    }
    marks
}

/// The drag gesture: a click in a drawing window arms the drag, every drag
/// event before the last keeps it armed and only moves the end point, the
/// last drag event disarms it, and drag events that are not armed are left
/// alone.
pub proof fn lemma_drag_gesture(window: WindowKind, shift: bool, last_time: bool)
    requires
        is_drawing_window(window),
    ensures
        click_reply(window).refcon == Some(REFCON_DRAWING),
        click_reply(window).move_start && click_reply(window).move_end,
        drag_reply(click_reply(window).refcon->0, shift, last_time).handled,
        !drag_reply(REFCON_DRAWING, shift, last_time).move_start,
        drag_reply(REFCON_DRAWING, shift, false).refcon == Some(REFCON_DRAWING),
        drag_reply(REFCON_DRAWING, shift, true).refcon == Some(0isize),
        drag_reply(REFCON_DRAWING, shift, true).send_drag == Some(false),
        !drag_reply(0, shift, last_time).handled,
{
}

/// Snapping follows Shift alone: on every drag event of a line being drawn,
/// the last one included, the end point is snapped to 45° exactly when Shift
/// is held, and otherwise goes to the pointer itself; a click never snaps,
/// and events outside a drawn line move nothing.
pub proof fn lemma_snap_follows_shift(window: WindowKind, refcon: isize, shift: bool, last_time: bool)
    ensures
        drag_reply(refcon, shift, last_time).snap_end == (refcon == REFCON_DRAWING && shift),
        drag_reply(refcon, shift, last_time).move_end == (refcon == REFCON_DRAWING),
        !drag_reply(refcon, shift, last_time).move_start,
        drag_reply(refcon, false, last_time).move_end ==> !drag_reply(refcon, false, last_time).snap_end,
        !click_reply(window).snap_end,
        click_reply(window).move_start == click_reply(window).move_end,
{
}

} // verus!
