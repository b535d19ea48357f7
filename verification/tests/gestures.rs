//! Pointer-gesture scenarios: clicks, marquee drags, moves, cancel.

use select_tool::entity::EntityId;
use select_tool::geometry::{DPoint, SPoint, Viewport, COORD_LIMIT};
use select_tool::session::{EditSession, PointType, Segment};
use select_tool::tool::{Drag, EditType, Mods, MouseEvent, Select, TaggedEvent};

fn no_mods() -> Mods {
    Mods { shift: false, alt: false, meta: false }
}

fn shift() -> Mods {
    Mods { shift: true, alt: false, meta: false }
}

fn ev(x: i64, y: i64, count: u8, mods: Mods) -> MouseEvent {
    MouseEvent { pos: SPoint { x, y }, count, mods }
}

fn session() -> EditSession {
    EditSession::new(Viewport { offset_x: 0, offset_y: 0 })
}

fn click(tool: &mut Select, data: &mut EditSession, x: i64, y: i64, mods: Mods) -> Option<EditType> {
    tool.mouse_event(TaggedEvent::Down(ev(x, y, 1, mods)), data).0
}

fn double_click(
    tool: &mut Select,
    data: &mut EditSession,
    x: i64,
    y: i64,
    mods: Mods,
) -> Option<EditType> {
    tool.mouse_event(TaggedEvent::Down(ev(x, y, 2, mods)), data).0
}

#[test]
fn click_selects_point_and_shift_toggles() {
    // from an empty selection, clicking one point selects it alone;
    // shift-clicking a second adds it; shift-clicking the first again
    // removes only the first.
    let mut data = session();
    let p1 = data.add_point(DPoint { x: 0, y: 0 }, PointType::OnCurve { smooth: false }, 0).unwrap();
    let p2 = data
        .add_point(DPoint { x: 100, y: 50 }, PointType::OnCurve { smooth: false }, 0)
        .unwrap();
    let mut tool = Select::default();

    let r = click(&mut tool, &mut data, 0, 0, no_mods());
    assert_eq!(r, None);
    assert!(data.selection.contains(p1));
    assert!(!data.selection.contains(p2));
    assert_eq!(data.selection.len(), 1);

    // screen y is flipped: design (100, 50) sits at screen (100, -50)
    click(&mut tool, &mut data, 100, -50, shift());
    assert!(data.selection.contains(p1));
    assert!(data.selection.contains(p2));
    assert_eq!(data.selection.len(), 2);

    click(&mut tool, &mut data, 0, 0, shift());
    assert!(!data.selection.contains(p1));
    assert!(data.selection.contains(p2));
    assert_eq!(data.selection.len(), 1);
}

#[test]
fn click_on_selected_point_keeps_selection() {
    let mut data = session();
    let a = data.add_point(DPoint { x: 0, y: 0 }, PointType::OnCurve { smooth: false }, 0).unwrap();
    let b = data.add_point(DPoint { x: 50, y: 0 }, PointType::OnCurve { smooth: false }, 0).unwrap();
    data.selection.insert(a);
    data.selection.insert(b);
    let mut tool = Select::default();
    // clicking an already-selected point leaves the multi-selection intact
    click(&mut tool, &mut data, 0, 0, no_mods());
    assert!(data.selection.contains(a));
    assert!(data.selection.contains(b));
}

#[test]
fn empty_click_clears_but_shift_keeps() {
    let mut data = session();
    let a = data.add_point(DPoint { x: 0, y: 0 }, PointType::OnCurve { smooth: false }, 0).unwrap();
    data.selection.insert(a);
    let mut tool = Select::default();
    click(&mut tool, &mut data, 300, 300, shift());
    assert!(data.selection.contains(a));
    click(&mut tool, &mut data, 300, 300, no_mods());
    assert_eq!(data.selection.len(), 0);
}

#[test]
fn hit_test_tolerance_edge() {
    let mut data = session();
    let a = data.add_point(DPoint { x: 0, y: 0 }, PointType::OnCurve { smooth: false }, 0).unwrap();
    let mut tool = Select::default();
    // 5 screen units away still hits
    click(&mut tool, &mut data, 5, 5, no_mods());
    assert!(data.selection.contains(a));
    // 6 units away misses and clears
    click(&mut tool, &mut data, 6, 0, no_mods());
    assert_eq!(data.selection.len(), 0);
}

#[test]
fn marquee_drag_selects_and_cancel_restores() {
    // drag a rectangle enclosing {A, B} from an empty selection -> {A, B};
    // cancel mid-drag -> {} restored.
    let mut data = session();
    let a = data.add_point(DPoint { x: 0, y: 0 }, PointType::OnCurve { smooth: false }, 0).unwrap();
    let b = data.add_point(DPoint { x: 10, y: 10 }, PointType::OnCurve { smooth: false }, 0).unwrap();
    let mut tool = Select::default();

    let start = ev(50, 5, 1, no_mods());
    let (r, repaint) = tool.mouse_event(TaggedEvent::DragBegan(Drag { start, current: start }), &mut data);
    assert_eq!(r, None);
    assert!(repaint); // the marquee rectangle appeared

    let current = ev(-6, -15, 1, no_mods());
    let (r, _) = tool.mouse_event(TaggedEvent::DragChanged(Drag { start, current }), &mut data);
    assert_eq!(r, None);
    assert!(data.selection.contains(a));
    assert!(data.selection.contains(b));
    assert_eq!(data.selection.len(), 2);

    let (r, repaint) = tool.mouse_event(TaggedEvent::Cancel, &mut data);
    assert_eq!(r, None);
    assert!(repaint); // the marquee rectangle disappeared
    assert_eq!(data.selection.len(), 0);
}

#[test]
fn marquee_without_shift_grows_selection() {
    // the marquee unions with the pre-drag selection: it never deselects
    let mut data = session();
    let a = data.add_point(DPoint { x: 0, y: 0 }, PointType::OnCurve { smooth: false }, 0).unwrap();
    let b = data.add_point(DPoint { x: 10, y: 0 }, PointType::OnCurve { smooth: false }, 0).unwrap();
    data.selection.insert(a);
    let mut tool = Select::default();
    let start = ev(200, 200, 1, no_mods());
    tool.mouse_event(TaggedEvent::DragBegan(Drag { start, current: start }), &mut data);
    // rectangle covering only B
    let current = ev(8, -2, 1, no_mods());
    let d = Drag { start: ev(12, 2, 1, no_mods()), current };
    tool.mouse_event(TaggedEvent::DragChanged(d), &mut data);
    assert!(data.selection.contains(a));
    assert!(data.selection.contains(b));
}

#[test]
fn shift_marquee_takes_symmetric_difference() {
    // a shift marquee over {A, B} with {A} selected leaves {B}; a second
    // pass over the same rectangle restores {A}.
    let mut data = session();
    let a = data.add_point(DPoint { x: 0, y: 0 }, PointType::OnCurve { smooth: false }, 0).unwrap();
    let b = data.add_point(DPoint { x: 10, y: 0 }, PointType::OnCurve { smooth: false }, 0).unwrap();
    data.selection.insert(a);
    let mut tool = Select::default();

    let start = ev(200, 200, 1, no_mods());
    let current = ev(-15, -15, 1, shift());
    tool.mouse_event(TaggedEvent::DragBegan(Drag { start, current: start }), &mut data);
    tool.mouse_event(TaggedEvent::DragChanged(Drag { start, current }), &mut data);
    assert!(!data.selection.contains(a));
    assert!(data.selection.contains(b));
    tool.mouse_event(TaggedEvent::Up(current), &mut data);

    // second gesture, same rectangle
    tool.mouse_event(TaggedEvent::DragBegan(Drag { start, current: start }), &mut data);
    tool.mouse_event(TaggedEvent::DragChanged(Drag { start, current }), &mut data);
    assert!(data.selection.contains(a));
    assert!(!data.selection.contains(b));
}

#[test]
fn move_drag_emits_drag_and_drag_up() {
    let mut data = session();
    let a = data.add_point(DPoint { x: 0, y: 0 }, PointType::OnCurve { smooth: false }, 0).unwrap();
    data.selection.insert(a);
    let mut tool = Select::default();

    let start = ev(0, 0, 1, no_mods());
    let (r, repaint) = tool.mouse_event(TaggedEvent::DragBegan(Drag { start, current: start }), &mut data);
    assert_eq!(r, None);
    assert!(!repaint); // a move shows no marquee

    let current = ev(30, -20, 1, no_mods());
    let (r, _) = tool.mouse_event(TaggedEvent::DragChanged(Drag { start, current }), &mut data);
    assert_eq!(r, Some(EditType::Drag));
    // screen (30, -20) is design (30, 20)
    assert_eq!(data.points[0].pos, DPoint { x: 30, y: 20 });

    let (r, _) = tool.mouse_event(TaggedEvent::DragEnded(Drag { start, current }), &mut data);
    assert_eq!(r, Some(EditType::DragUp));
}

#[test]
fn cancel_during_move_keeps_geometry() {
    // cancelling a move rolls nothing back: that belongs to the undo layer
    let mut data = session();
    let a = data.add_point(DPoint { x: 0, y: 0 }, PointType::OnCurve { smooth: false }, 0).unwrap();
    data.selection.insert(a);
    let mut tool = Select::default();
    let start = ev(0, 0, 1, no_mods());
    tool.mouse_event(TaggedEvent::DragBegan(Drag { start, current: start }), &mut data);
    let current = ev(7, 0, 1, no_mods());
    tool.mouse_event(TaggedEvent::DragChanged(Drag { start, current }), &mut data);
    tool.mouse_event(TaggedEvent::Cancel, &mut data);
    assert_eq!(data.points[0].pos, DPoint { x: 7, y: 0 });
    assert!(data.selection.contains(a));
}

#[test]
fn segment_group_click_and_shift_toggle() {
    // clicking a segment selects its endpoint group; shift-clicking a fully
    // selected group removes exactly that group; shift-clicking again
    // re-adds exactly that group.
    let mut data = session();
    let a = data.add_point(DPoint { x: 0, y: 0 }, PointType::OnCurve { smooth: false }, 0).unwrap();
    let b = data.add_point(DPoint { x: 100, y: 0 }, PointType::OnCurve { smooth: false }, 0).unwrap();
    assert!(data.add_segment(Segment::Line { start: a, end: b }));
    let mut tool = Select::default();

    let r = click(&mut tool, &mut data, 50, 0, no_mods());
    assert_eq!(r, None);
    assert!(data.selection.contains(a));
    assert!(data.selection.contains(b));
    assert_eq!(data.selection.len(), 2);

    click(&mut tool, &mut data, 50, 0, shift());
    assert_eq!(data.selection.len(), 0);

    click(&mut tool, &mut data, 50, 0, shift());
    assert!(data.selection.contains(a));
    assert!(data.selection.contains(b));
    assert_eq!(data.selection.len(), 2);
}

#[test]
fn segment_click_replaces_partial_selection() {
    let mut data = session();
    let a = data.add_point(DPoint { x: 0, y: 0 }, PointType::OnCurve { smooth: false }, 0).unwrap();
    let b = data.add_point(DPoint { x: 100, y: 0 }, PointType::OnCurve { smooth: false }, 0).unwrap();
    let far = data
        .add_point(DPoint { x: 500, y: 500 }, PointType::OnCurve { smooth: false }, 1)
        .unwrap();
    assert!(data.add_segment(Segment::Line { start: a, end: b }));
    data.selection.insert(far);
    let mut tool = Select::default();
    // without shift and with the group not fully selected, the group
    // replaces the selection entirely
    click(&mut tool, &mut data, 50, 0, no_mods());
    assert!(data.selection.contains(a));
    assert!(data.selection.contains(b));
    assert!(!data.selection.contains(far));
    assert_eq!(data.selection.len(), 2);
}

#[test]
fn alt_click_upgrades_line_segment() {
    let mut data = session();
    let a = data.add_point(DPoint { x: 0, y: 0 }, PointType::OnCurve { smooth: false }, 0).unwrap();
    let b = data.add_point(DPoint { x: 90, y: 0 }, PointType::OnCurve { smooth: false }, 0).unwrap();
    assert!(data.add_segment(Segment::Line { start: a, end: b }));
    let mut tool = Select::default();
    let alt = Mods { shift: false, alt: true, meta: false };
    let r = click(&mut tool, &mut data, 45, 0, alt);
    assert_eq!(r, Some(EditType::Normal));
    assert_eq!(data.points.len(), 4);
    match data.segments[0] {
        Segment::Cubic { start, ctrl1, ctrl2, end } => {
            assert_eq!(start, a);
            assert_eq!(end, b);
            // the fresh handles sit at the endpoints' positions
            assert_eq!(data.points[2].id, ctrl1);
            assert_eq!(data.points[3].id, ctrl2);
            assert_eq!(data.points[2].pos, DPoint { x: 0, y: 0 });
            assert_eq!(data.points[3].pos, DPoint { x: 90, y: 0 });
            assert!(matches!(data.points[2].typ, PointType::OffCurve));
        }
        _ => panic!("segment was not upgraded"),
    }
}

#[test]
fn double_click_toggles_on_curve_type() {
    let mut data = session();
    let a = data.add_point(DPoint { x: 0, y: 0 }, PointType::OnCurve { smooth: false }, 0).unwrap();
    data.selection.insert(a);
    let mut tool = Select::default();
    let r = double_click(&mut tool, &mut data, 0, 0, no_mods());
    assert_eq!(r, Some(EditType::Normal));
    assert!(matches!(data.points[0].typ, PointType::OnCurve { smooth: true }));
}

#[test]
fn double_click_toggles_guide() {
    let mut data = session();
    let g = data.add_point(DPoint { x: 20, y: 0 }, PointType::Guide { horizontal: true }, 0).unwrap();
    assert!(g.guide);
    let mut tool = Select::default();
    let r = double_click(&mut tool, &mut data, 20, 0, no_mods());
    assert_eq!(r, Some(EditType::Normal));
    assert!(matches!(data.points[0].typ, PointType::Guide { horizontal: false }));
}

#[test]
fn double_click_selects_whole_path() {
    let mut data = session();
    let a = data.add_point(DPoint { x: 0, y: 0 }, PointType::OnCurve { smooth: false }, 7).unwrap();
    let b = data.add_point(DPoint { x: 100, y: 0 }, PointType::OnCurve { smooth: false }, 7).unwrap();
    let c = data.add_point(DPoint { x: 50, y: 40 }, PointType::OffCurve, 7).unwrap();
    let other = data
        .add_point(DPoint { x: 400, y: 400 }, PointType::OnCurve { smooth: false }, 9)
        .unwrap();
    let mut tool = Select::default();
    // double click on the off-curve handle: neither on-curve nor guide, so
    // the whole path under the pointer is selected
    let r = double_click(&mut tool, &mut data, 50, -40, no_mods());
    assert_eq!(r, None);
    assert!(data.selection.contains(a));
    assert!(data.selection.contains(b));
    assert!(data.selection.contains(c));
    assert!(!data.selection.contains(other));
}

#[test]
fn left_up_resets_drag_state() {
    let mut data = session();
    data.add_point(DPoint { x: 0, y: 0 }, PointType::OnCurve { smooth: false }, 0).unwrap();
    let mut tool = Select::default();
    let start = ev(200, 200, 1, no_mods());
    tool.mouse_event(TaggedEvent::DragBegan(Drag { start, current: start }), &mut data);
    assert!(tool.drag.drag_rect().is_some());
    let (r, repaint) = tool.mouse_event(TaggedEvent::Up(start), &mut data);
    assert_eq!(r, None);
    assert!(repaint);
    assert!(tool.drag.drag_rect().is_none());
}

#[test]
fn mouse_moved_records_position_only() {
    let mut data = session();
    let a = data.add_point(DPoint { x: 0, y: 0 }, PointType::OnCurve { smooth: false }, 0).unwrap();
    data.selection.insert(a);
    let mut tool = Select::default();
    let (r, repaint) = tool.mouse_event(TaggedEvent::Moved(ev(33, 44, 0, no_mods())), &mut data);
    assert_eq!(r, None);
    assert!(!repaint);
    assert_eq!(tool.last_pos, SPoint { x: 33, y: 44 });
    assert!(data.selection.contains(a));
}

#[test]
fn move_clamps_at_coordinate_limit() {
    let mut data = session();
    let a = data
        .add_point(DPoint { x: COORD_LIMIT, y: 0 }, PointType::OnCurve { smooth: false }, 0)
        .unwrap();
    data.selection.insert(a);
    let mut tool = Select::default();
    let start = ev(COORD_LIMIT, 0, 1, no_mods());
    tool.mouse_event(TaggedEvent::DragBegan(Drag { start, current: start }), &mut data);
    let current = ev(COORD_LIMIT + 50, 0, 1, no_mods());
    tool.mouse_event(TaggedEvent::DragChanged(Drag { start, current }), &mut data);
    assert_eq!(data.points[0].pos.x, COORD_LIMIT);
}

#[test]
fn tool_name_is_select() {
    let tool = Select::default();
    assert_eq!(tool.name(), "Select");
}

#[test]
fn entity_id_reports_guide_tag() {
    let id = EntityId { num: 3, guide: true };
    assert!(id.is_guide());
    let id = EntityId { num: 4, guide: false };
    assert!(!id.is_guide());
}
