//! Keyboard scenarios: nudges and their undo tags, delete, Tab navigation.

use select_tool::geometry::{DPoint, Viewport};
use select_tool::session::{EditSession, PointType, Segment};
use select_tool::tool::{EditType, Key, KeyEvent, Mods, Select};

fn no_mods() -> Mods {
    Mods { shift: false, alt: false, meta: false }
}

fn key(k: Key, mods: Mods) -> KeyEvent {
    KeyEvent { key: k, mods }
}

fn session() -> EditSession {
    EditSession::new(Viewport { offset_x: 0, offset_y: 0 })
}

#[test]
fn unit_nudges_move_one_step_and_tag_direction() {
    let mut data = session();
    let a = data.add_point(DPoint { x: 0, y: 0 }, PointType::OnCurve { smooth: false }, 0).unwrap();
    data.selection.insert(a);
    let mut tool = Select::default();

    let r = tool.key_down(&key(Key::ArrowRight, no_mods()), &mut data);
    assert_eq!(r, Some(EditType::NudgeRight));
    assert_eq!(data.points[0].pos, DPoint { x: 1, y: 0 });

    // up is +1 in design space: design Y points up
    let r = tool.key_down(&key(Key::ArrowUp, no_mods()), &mut data);
    assert_eq!(r, Some(EditType::NudgeUp));
    assert_eq!(data.points[0].pos, DPoint { x: 1, y: 1 });

    let r = tool.key_down(&key(Key::ArrowLeft, no_mods()), &mut data);
    assert_eq!(r, Some(EditType::NudgeLeft));
    assert_eq!(data.points[0].pos, DPoint { x: 0, y: 1 });

    let r = tool.key_down(&key(Key::ArrowDown, no_mods()), &mut data);
    assert_eq!(r, Some(EditType::NudgeDown));
    assert_eq!(data.points[0].pos, DPoint { x: 0, y: 0 });
}

#[test]
fn repeated_unit_nudges_share_one_tag() {
    let mut data = session();
    let a = data.add_point(DPoint { x: 0, y: 0 }, PointType::OnCurve { smooth: false }, 0).unwrap();
    data.selection.insert(a);
    let mut tool = Select::default();
    let first = tool.key_down(&key(Key::ArrowRight, no_mods()), &mut data);
    let second = tool.key_down(&key(Key::ArrowRight, no_mods()), &mut data);
    let third = tool.key_down(&key(Key::ArrowRight, no_mods()), &mut data);
    assert_eq!(first, Some(EditType::NudgeRight));
    assert_eq!(second, first);
    assert_eq!(third, first);
    assert_eq!(data.points[0].pos, DPoint { x: 3, y: 0 });
}

#[test]
fn shift_nudge_moves_ten_and_tags_normal() {
    // selection = {A}, ArrowRight with shift -> A moves by (10, 0); edit
    // type is Normal because the step exceeds one unit.
    let mut data = session();
    let a = data.add_point(DPoint { x: 0, y: 0 }, PointType::OnCurve { smooth: false }, 0).unwrap();
    data.selection.insert(a);
    let mut tool = Select::default();
    let shift = Mods { shift: true, alt: false, meta: false };
    let r = tool.key_down(&key(Key::ArrowRight, shift), &mut data);
    assert_eq!(r, Some(EditType::Normal));
    assert_eq!(data.points[0].pos, DPoint { x: 10, y: 0 });
}

#[test]
fn meta_nudge_moves_hundred_and_wins_over_shift() {
    let mut data = session();
    let a = data.add_point(DPoint { x: 0, y: 0 }, PointType::OnCurve { smooth: false }, 0).unwrap();
    data.selection.insert(a);
    let mut tool = Select::default();
    let meta = Mods { shift: false, alt: false, meta: true };
    let r = tool.key_down(&key(Key::ArrowLeft, meta), &mut data);
    assert_eq!(r, Some(EditType::Normal));
    assert_eq!(data.points[0].pos, DPoint { x: -100, y: 0 });
    // both modifiers held: the primary modifier takes precedence
    let both = Mods { shift: true, alt: false, meta: true };
    let r = tool.key_down(&key(Key::ArrowRight, both), &mut data);
    assert_eq!(r, Some(EditType::Normal));
    assert_eq!(data.points[0].pos, DPoint { x: 0, y: 0 });
}

#[test]
fn nudge_moves_only_selected_points() {
    let mut data = session();
    let a = data.add_point(DPoint { x: 0, y: 0 }, PointType::OnCurve { smooth: false }, 0).unwrap();
    let _b = data.add_point(DPoint { x: 5, y: 5 }, PointType::OnCurve { smooth: false }, 0).unwrap();
    data.selection.insert(a);
    let mut tool = Select::default();
    tool.key_down(&key(Key::ArrowRight, no_mods()), &mut data);
    assert_eq!(data.points[0].pos, DPoint { x: 1, y: 0 });
    assert_eq!(data.points[1].pos, DPoint { x: 5, y: 5 });
}

#[test]
fn nudge_with_empty_selection_is_noop() {
    let mut data = session();
    data.add_point(DPoint { x: 2, y: 3 }, PointType::OnCurve { smooth: false }, 0).unwrap();
    let mut tool = Select::default();
    let r = tool.key_down(&key(Key::ArrowUp, no_mods()), &mut data);
    // still tagged: the nudge happened, it just moved nothing
    assert_eq!(r, Some(EditType::NudgeUp));
    assert_eq!(data.points[0].pos, DPoint { x: 2, y: 3 });
}

#[test]
fn backspace_deletes_selection_and_segments() {
    let mut data = session();
    let a = data.add_point(DPoint { x: 0, y: 0 }, PointType::OnCurve { smooth: false }, 0).unwrap();
    let b = data.add_point(DPoint { x: 10, y: 0 }, PointType::OnCurve { smooth: false }, 0).unwrap();
    let c = data.add_point(DPoint { x: 20, y: 0 }, PointType::OnCurve { smooth: false }, 0).unwrap();
    assert!(data.add_segment(Segment::Line { start: a, end: b }));
    assert!(data.add_segment(Segment::Line { start: b, end: c }));
    data.selection.insert(a);
    let mut tool = Select::default();
    let r = tool.key_down(&key(Key::Backspace, no_mods()), &mut data);
    assert_eq!(r, Some(EditType::Normal));
    assert_eq!(data.points.len(), 2);
    assert_eq!(data.points[0].id, b);
    assert_eq!(data.points[1].id, c);
    // the segment that lost a point is gone, the other stays
    assert_eq!(data.segments.len(), 1);
    assert!(matches!(data.segments[0], Segment::Line { start, end } if start == b && end == c));
    assert_eq!(data.selection.len(), 0);
}

#[test]
fn delete_key_acts_like_backspace() {
    let mut data = session();
    let a = data.add_point(DPoint { x: 0, y: 0 }, PointType::OnCurve { smooth: false }, 0).unwrap();
    data.selection.insert(a);
    let mut tool = Select::default();
    let r = tool.key_down(&key(Key::Delete, no_mods()), &mut data);
    assert_eq!(r, Some(EditType::Normal));
    assert_eq!(data.points.len(), 0);
    assert_eq!(data.selection.len(), 0);
}

#[test]
fn delete_with_empty_selection_is_noop() {
    let mut data = session();
    data.add_point(DPoint { x: 0, y: 0 }, PointType::OnCurve { smooth: false }, 0).unwrap();
    let mut tool = Select::default();
    let r = tool.key_down(&key(Key::Backspace, no_mods()), &mut data);
    assert_eq!(r, Some(EditType::Normal));
    assert_eq!(data.points.len(), 1);
}

#[test]
fn tab_walks_entities_and_shift_tab_walks_back() {
    let mut data = session();
    let a = data.add_point(DPoint { x: 0, y: 0 }, PointType::OnCurve { smooth: false }, 0).unwrap();
    let b = data.add_point(DPoint { x: 10, y: 0 }, PointType::OnCurve { smooth: false }, 0).unwrap();
    let c = data.add_point(DPoint { x: 20, y: 0 }, PointType::OnCurve { smooth: false }, 0).unwrap();
    let mut tool = Select::default();

    // pure navigation: no edit type
    let r = tool.key_down(&key(Key::Tab, no_mods()), &mut data);
    assert_eq!(r, None);
    assert!(data.selection.contains(a));
    assert_eq!(data.selection.len(), 1);

    tool.key_down(&key(Key::Tab, no_mods()), &mut data);
    assert!(data.selection.contains(b));
    assert_eq!(data.selection.len(), 1);

    tool.key_down(&key(Key::Tab, no_mods()), &mut data);
    assert!(data.selection.contains(c));

    // wraps around
    tool.key_down(&key(Key::Tab, no_mods()), &mut data);
    assert!(data.selection.contains(a));

    let shift = Mods { shift: true, alt: false, meta: false };
    let r = tool.key_down(&key(Key::Tab, shift), &mut data);
    assert_eq!(r, None);
    assert!(data.selection.contains(c));
}

#[test]
fn other_keys_are_not_handled() {
    let mut data = session();
    let a = data.add_point(DPoint { x: 0, y: 0 }, PointType::OnCurve { smooth: false }, 0).unwrap();
    data.selection.insert(a);
    let mut tool = Select::default();
    let r = tool.key_down(&key(Key::Other, no_mods()), &mut data);
    assert_eq!(r, None);
    assert!(data.selection.contains(a));
    assert_eq!(data.points[0].pos, DPoint { x: 0, y: 0 });
}
