use yato_ae_gradient::coords::{fixed_to_frame, frame_to_fixed, FixedPoint, FramePoint};
use yato_ae_gradient::params::{
    mid_stop_default, mid_stop_params, MidStopParams, Params, Rgb8, Style, STYLE_DIAMOND, STYLE_LINEAR,
};
use yato_ae_gradient::render::{passthrough_copy, pixel_depth, CopyMethod, PixelDepth, RenderError};
use yato_ae_gradient::ui::{
    click, drag, draw, pointer_space, route_event, stop_markers, CoordSpace, DrawPlan, UiEvent, UiHandler,
    UiReply, WindowKind, REFCON_DRAWING,
};

fn untouched() -> UiReply {
    UiReply { move_start: false, move_end: false, snap_end: false, send_drag: None, refcon: None, handled: false }
}

#[test]
fn click_in_comp_starts_a_line() {
    let r = click(WindowKind::Comp);
    assert_eq!(
        r,
        UiReply {
            move_start: true,
            move_end: true,
            snap_end: false,
            send_drag: Some(true),
            refcon: Some(REFCON_DRAWING),
            handled: true,
        }
    );
    assert_eq!(click(WindowKind::Layer), r);
}

#[test]
fn click_elsewhere_is_ignored() {
    assert_eq!(click(WindowKind::Other), untouched());
}

#[test]
fn drag_moves_end_and_continues() {
    let r = drag(REFCON_DRAWING, false, false);
    assert_eq!(
        r,
        UiReply {
            move_start: false,
            move_end: true,
            snap_end: false,
            send_drag: Some(true),
            refcon: Some(REFCON_DRAWING),
            handled: true,
        }
    );
    assert!(drag(REFCON_DRAWING, true, false).snap_end);
}

#[test]
fn last_drag_ends_the_gesture() {
    let r = drag(REFCON_DRAWING, true, true);
    assert_eq!(r.send_drag, Some(false));
    assert_eq!(r.refcon, Some(0));
    assert!(r.move_end && r.snap_end && r.handled);
    assert_eq!(drag(0, false, false), untouched());
}

#[test]
fn gesture_click_then_drags() {
    let c = click(WindowKind::Comp);
    let mut refcon = c.refcon.unwrap();
    for last in [false, false, true] {
        let d = drag(refcon, false, last);
        assert!(d.handled);
        refcon = d.refcon.unwrap();
    }
    assert!(!drag(refcon, false, false).handled);
}

#[test]
fn routing_of_events() {
    assert_eq!(route_event(UiEvent::Click, false), UiHandler::Click);
    assert_eq!(route_event(UiEvent::Click, true), UiHandler::Drag);
    assert_eq!(route_event(UiEvent::Drag, false), UiHandler::Drag);
    assert_eq!(route_event(UiEvent::Draw, true), UiHandler::Draw);
    assert_eq!(route_event(UiEvent::Other, true), UiHandler::Ignore);
}

#[test]
fn coordinate_paths() {
    assert_eq!(pointer_space(WindowKind::Comp), CoordSpace::Comp);
    assert_eq!(pointer_space(WindowKind::Layer), CoordSpace::Layer);
    assert_eq!(pointer_space(WindowKind::Other), CoordSpace::Layer);
}

#[test]
fn draw_plans() {
    assert_eq!(draw(WindowKind::Comp, false), Some(DrawPlan { space: CoordSpace::Comp, themed: true }));
    assert_eq!(draw(WindowKind::Layer, true), Some(DrawPlan { space: CoordSpace::Layer, themed: false }));
    assert_eq!(draw(WindowKind::Other, false), None);
}

#[test]
fn markers_for_enabled_stops() {
    assert_eq!(stop_markers(&[true, false, true]), vec![0, 2]);
    assert_eq!(stop_markers(&[false, false, false]), Vec::<usize>::new());
    assert_eq!(stop_markers(&[false, true, false]), vec![1]);
}

#[test]
fn style_popup_values() {
    assert_eq!(Style::from_popup(1), Style::Linear);
    assert_eq!(Style::from_popup(2), Style::Radial);
    assert_eq!(Style::from_popup(3), Style::Angular);
    assert_eq!(Style::from_popup(4), Style::Reflected);
    assert_eq!(Style::from_popup(5), Style::Diamond);
    assert_eq!(Style::from_popup(0), Style::Linear);
    assert_eq!(Style::from_popup(99), Style::Linear);
    assert_eq!(Style::Linear.to_popup(), STYLE_LINEAR);
    assert_eq!(Style::Diamond.to_popup(), STYLE_DIAMOND);
    for s in [Style::Linear, Style::Radial, Style::Angular, Style::Reflected, Style::Diamond] {
        assert_eq!(Style::from_popup(s.to_popup()), s);
    }
}

#[test]
fn mid_stop_tables() {
    assert_eq!(
        mid_stop_params(1),
        MidStopParams { enable: Params::Mid2Enable, color: Params::Mid2Color, position: Params::Mid2Pos }
    );
    assert_eq!(mid_stop_params(2).position, Params::Mid3Pos);
    assert_eq!(mid_stop_default(0), (25, Rgb8 { red: 255, green: 0, blue: 0 }));
    assert_eq!(mid_stop_default(1), (50, Rgb8 { red: 0, green: 255, blue: 0 }));
    assert_eq!(mid_stop_default(2), (75, Rgb8 { red: 0, green: 0, blue: 255 }));
}

#[test]
fn passthrough_copies() {
    assert_eq!(passthrough_copy(true, false), CopyMethod::HighQuality);
    assert_eq!(passthrough_copy(false, false), CopyMethod::Standard);
    assert_eq!(passthrough_copy(true, true), CopyMethod::Direct);
    assert_eq!(passthrough_copy(false, true), CopyMethod::Direct);
}

#[test]
fn pixel_depths() {
    assert_eq!(pixel_depth(PixelDepth::Eight, PixelDepth::Eight), Ok(PixelDepth::Eight));
    assert_eq!(pixel_depth(PixelDepth::Float, PixelDepth::Float), Ok(PixelDepth::Float));
    assert_eq!(pixel_depth(PixelDepth::Eight, PixelDepth::Sixteen), Err(RenderError::BadCallbackParameter));
    assert_eq!(pixel_depth(PixelDepth::Double, PixelDepth::Double), Err(RenderError::BadCallbackParameter));
}

#[test]
fn fixed_point_conversions() {
    assert_eq!(frame_to_fixed(FramePoint { h: 3, v: -5 }), FixedPoint { x: 196608, y: -327680 });
    assert_eq!(fixed_to_frame(FixedPoint { x: 196608 + 40000, y: -65537 }), FramePoint { h: 3, v: -2 });
    let p = FramePoint { h: -1234, v: 32767 };
    assert_eq!(fixed_to_frame(frame_to_fixed(p)), p);
    // Out of the fixed-point range the crate's shift wraps.
    assert_eq!(frame_to_fixed(FramePoint { h: 40000, v: 0 }).x, -1673527296);
}
