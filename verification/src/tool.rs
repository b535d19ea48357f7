//! The selection tool: a gesture state machine that turns classified
//! pointer and keyboard events into selection and geometry edits, and
//! reports to the undo system what kind of edit each event produced.

use vstd::prelude::*;
use vstd::pervasive::unreached;
use crate::entity::EntityId;
use crate::geometry::{DPoint, DVec2, Rect, SPoint};
use crate::selection::{Selection, sym_diff_set};
use crate::session::{EditSession, Segment, PointType, upgrade_post, nudged, deleted, tab_next, tab_prev};

verus! {

/// The edit classification handed to the undo system. Direction-specific
/// nudge tags let consecutive unit nudges in one direction coalesce into a
/// single undo step; `Normal` breaks coalescing; `Drag` marks an
/// in-progress move and `DragUp` the boundary that commits it.
#[derive(Clone, Copy, PartialEq, Eq, Structural, Debug)]
pub enum EditType {
    Normal,
    NudgeLeft,
    NudgeRight,
    NudgeUp,
    NudgeDown,
    Drag,
    DragUp,
}

/// The keys the tool reacts to.
#[derive(Clone, Copy, PartialEq, Eq, Structural, Debug)]
pub enum Key {
    ArrowLeft,
    ArrowDown,
    ArrowUp,
    ArrowRight,
    Backspace,
    Delete,
    Tab,
    Other,
}

/// Modifier state at the instant of an event.
#[derive(Clone, Copy, PartialEq, Eq, Structural, Debug)]
pub struct Mods {
    pub shift: bool,
    pub alt: bool,
    pub meta: bool,
}

#[derive(Clone, Copy, PartialEq, Eq, Structural, Debug)]
pub struct KeyEvent {
    pub key: Key,
    pub mods: Mods,
}

/// A pointer event: screen position, click count and modifiers.
#[derive(Clone, Copy, PartialEq, Eq, Structural, Debug)]
pub struct MouseEvent {
    pub pos: SPoint,
    pub count: u8,
    pub mods: Mods,
}

impl MouseEvent {
    pub open spec fn wf(self) -> bool {
        self.pos.wf()
    }
}

/// A drag gesture: the event that started it and the current one.
#[derive(Clone, Copy, PartialEq, Eq, Structural, Debug)]
pub struct Drag {
    pub start: MouseEvent,
    pub current: MouseEvent,
}

impl Drag {
    pub open spec fn wf(self) -> bool {
        self.start.wf() && self.current.wf()
    }
}

/// A raw pointer event already classified by the host's gesture
/// dispatcher.
pub enum TaggedEvent {
    Moved(MouseEvent),
    Down(MouseEvent),
    Up(MouseEvent),
    DragBegan(Drag),
    DragChanged(Drag),
    DragEnded(Drag),
    Cancel,
}

impl TaggedEvent {
    pub open spec fn wf(self) -> bool {
        match self {
            TaggedEvent::Moved(e) => e.wf(),
            TaggedEvent::Down(e) => e.wf(),
            TaggedEvent::Up(e) => e.wf(),
            TaggedEvent::DragBegan(d) => d.wf(),
            TaggedEvent::DragChanged(d) => d.wf(),
            TaggedEvent::DragEnded(d) => d.wf(),
            TaggedEvent::Cancel => true,
        }
    }
}

/// The lifecycle of a pointer drag.
pub enum DragState {
    /// A rectangular marquee selection: the snapshot of the selection as it
    /// was when the drag began, and the current marquee rectangle in screen
    /// space.
    Select { previous: Selection, rect: Rect },
    /// Moving the selected entities: the last processed pointer position in
    /// design space.
    Move { last_used_pos: DPoint },
    /// No drag in progress.
    Idle,
}

impl DragState {
    pub open spec fn wf(self) -> bool {
        match self {
            DragState::Select { previous, rect } => previous.wf() && rect.wf(),
            DragState::Move { last_used_pos } => last_used_pos.loose_wf(),
            DragState::Idle => true,
        }
    }

    /// The marquee rectangle, when a rectangular selection is in progress.
    pub open spec fn drag_rect_spec(self) -> Option<Rect> {
        match self {
            DragState::Select { rect, .. } => Some(rect),
            _ => None,
        }
    }

    pub fn drag_rect(&self) -> (r: Option<Rect>)
        ensures
            r == self.drag_rect_spec(),
    {
        match self {
            DragState::Select { rect, .. } => Some(*rect),
            _ => None,
        }
    }

    pub open spec fn is_move_spec(self) -> bool {
        matches!(self, DragState::Move { .. })
    }

    pub fn is_move(&self) -> (r: bool)
        ensures
            r == self.is_move_spec(),
    {
        matches!(self, DragState::Move { .. })
    }
}

impl Default for DragState {
    fn default() -> (r: DragState)
        ensures
            r is Idle,
    {
        DragState::Idle
    }
}

/// The state of the selection tool.
pub struct Select {
    /// The state preserved between drag events.
    pub drag: DragState,
    /// The last pointer position seen.
    pub last_pos: SPoint,
    /// The edit type produced by the current event, if any. It is `None`
    /// except while a single event handler runs; the event entry points
    /// return and clear it.
    pub this_edit_type: Option<EditType>,
}

impl Default for Select {
    fn default() -> (r: Select)
        ensures
            r.drag is Idle,
            r.last_pos == (SPoint { x: 0, y: 0 }),
            r.this_edit_type is None,
            r.wf(),
    {
        Select { drag: DragState::Idle, last_pos: SPoint { x: 0, y: 0 }, this_edit_type: None }
    }
}

/// An arrow key, which nudges the selection.
pub open spec fn is_arrow(key: Key) -> bool {
    matches!(key, Key::ArrowLeft | Key::ArrowRight | Key::ArrowUp | Key::ArrowDown)
}

/// How far one keyboard nudge moves: the primary modifier scales by 100
/// and takes precedence; shift scales by 10; otherwise a unit step.
pub open spec fn nudge_scale(mods: Mods) -> int {
    if mods.meta {
        100
    } else if mods.shift {
        10
    } else {
        1
    }
}

/// The design-space vector of one nudge. Up and down follow the
/// design-space Y-up convention.
pub open spec fn nudge_vector(key: Key, mods: Mods) -> DVec2 {
    let s = nudge_scale(mods);
    match key {
        Key::ArrowLeft => DVec2 { x: (-s) as i64, y: 0 },
        Key::ArrowRight => DVec2 { x: s as i64, y: 0 },
        Key::ArrowUp => DVec2 { x: 0, y: s as i64 },
        Key::ArrowDown => DVec2 { x: 0, y: (-s) as i64 },
        _ => DVec2 { x: 0, y: 0 },
    }
}

/// The undo tag of one nudge: direction-specific for a unit nudge, so
/// consecutive same-direction nudges coalesce; `Normal` once any scaling
/// modifier applies.
pub open spec fn nudge_edit(key: Key, mods: Mods) -> EditType {
    if mods.meta || mods.shift {
        EditType::Normal
    } else {
        match key {
            Key::ArrowLeft => EditType::NudgeLeft,
            Key::ArrowRight => EditType::NudgeRight,
            Key::ArrowUp => EditType::NudgeUp,
            Key::ArrowDown => EditType::NudgeDown,
            _ => EditType::Normal,
        }
    }
}

/// Law: unmodified nudges in one direction all carry the same
/// direction-specific tag, and that tag is never `Normal`, so the undo
/// system can coalesce them.
pub proof fn lemma_unit_nudges_coalesce(key: Key, m1: Mods, m2: Mods)
    requires
        is_arrow(key),
        !m1.shift && !m1.meta,
        !m2.shift && !m2.meta,
    ensures
        nudge_edit(key, m1) == nudge_edit(key, m2),
        nudge_edit(key, m1) != EditType::Normal,
{
}

/// Law: a nudge with a scaling modifier is tagged `Normal`, so it never
/// coalesces with adjacent unit nudges.
pub proof fn lemma_scaled_nudge_is_normal(key: Key, mods: Mods)
    requires
        is_arrow(key),
        mods.shift || mods.meta,
    ensures
        nudge_edit(key, mods) == EditType::Normal,
{
}

/// Law: a second marquee pass over the same hits with shift held restores
/// the selection it started from (the symmetric difference is an
/// involution).
pub proof fn lemma_shift_rect_twice_restores(p: Set<EntityId>, h: Set<EntityId>)
    ensures
        sym_diff_set(sym_diff_set(p, h), h) == p,
{
    assert(sym_diff_set(sym_diff_set(p, h), h) =~= p);
}

/// Law: shift-clicking a fully selected group removes exactly that group,
/// and shift-clicking it again (now unselected) re-adds exactly that
/// group, restoring the original selection.
pub proof fn lemma_group_shift_click_round_trip(sel: Set<EntityId>, g: Set<EntityId>)
    requires
        g.subset_of(sel),
    ensures
        forall|e: EntityId| g.contains(e) ==> !sel.difference(g).contains(e),
        forall|e: EntityId|
            sel.contains(e) && !g.contains(e) ==> sel.difference(g).contains(e),
        (exists|e: EntityId| g.contains(e)) ==> !g.subset_of(sel.difference(g)),
        sel.difference(g).union(g) == sel,
{
    assert(sel.difference(g).union(g) =~= sel);
    if exists|e: EntityId| g.contains(e) {
        let e = choose|e: EntityId| g.contains(e);
        assert(!sel.difference(g).contains(e));
    }
}

/// Law: a marquee frame carries the pre-drag snapshot through unchanged,
/// so after any sequence of intermediate rectangle changes a cancel (whose
/// contract restores the snapshot it finds) restores the selection exactly
/// as it was when the drag began.
pub proof fn lemma_marquee_frame_keeps_snapshot(
    pre_t: Select,
    pre_d: EditSession,
    post_t: Select,
    post_d: EditSession,
    ev: Drag,
    edit: Option<EditType>,
    previous: Selection,
    rect: Rect,
)
    requires
        pre_t.drag == (DragState::Select { previous, rect }),
        drag_changed_post(pre_t, pre_d, post_t, post_d, ev, edit),
    ensures
        post_t.drag matches DragState::Select { previous: p2, rect: r2 }
            && p2.seq() == previous.seq(),
{
}

/// Recomputes the live selection during a marquee drag, always from the
/// pre-drag snapshot: with shift the symmetric difference of snapshot and
/// hits, otherwise their union. The result depends only on the snapshot,
/// the rectangle and the shift state at this instant, not on drag history.
pub fn update_selection_for_drag(
    data: &mut EditSession,
    prev_sel: &Selection,
    rect: Rect,
    shift: bool,
)
    requires
        old(data).wf(),
        prev_sel.wf(),
    ensures
        final(data).wf(),
        old(data).same_doc(*final(data)),
        final(data).selection.to_set() == if shift {
            sym_diff_set(prev_sel.to_set(), old(data).rect_hits(rect))
        } else {
            prev_sel.to_set().union(old(data).rect_hits(rect))
        },
        !shift ==> prev_sel.to_set().subset_of(final(data).selection.to_set())
            && old(data).rect_hits(rect).subset_of(final(data).selection.to_set()),
        shift ==> forall|e: EntityId|
            prev_sel.to_set().contains(e) && old(data).rect_hits(rect).contains(e)
                ==> !final(data).selection.to_set().contains(e),
{
    let n = data.points.len();
    let mut hits = Selection::new();
    let mut i: usize = 0;
    while i < n
        invariant
            data.wf(),
            n == data.points@.len(),
            i <= n,
            hits.wf(),
            forall|e: EntityId| #[trigger] hits.to_set().contains(e) <==> exists|j: int|
                0 <= j < i && (#[trigger] data.points@[j]).id == e && rect.contains_spec(
                    data.viewport.to_screen_spec(data.points@[j].pos),
                ),
        decreases n - i,
    {
        let p = data.points[i];
        let sp = data.viewport.to_screen(p.pos);
        let ghost before = hits.to_set();
        if rect.contains(sp) {
            hits.insert(p.id);
            proof {
                assert forall|e: EntityId| #[trigger] hits.to_set().contains(e)
                    implies exists|j: int|
                        0 <= j < i + 1 && (#[trigger] data.points@[j]).id == e
                            && rect.contains_spec(
                            data.viewport.to_screen_spec(data.points@[j].pos),
                        ) by {
                    if before.contains(e) {
                        let j = choose|j: int|
                            0 <= j < i && (#[trigger] data.points@[j]).id == e
                                && rect.contains_spec(
                                data.viewport.to_screen_spec(data.points@[j].pos),
                            );
                        assert(0 <= j < i + 1 && data.points@[j].id == e && rect.contains_spec(
                            data.viewport.to_screen_spec(data.points@[j].pos),
                        ));
                    } else {
                        assert(e == p.id);
                        assert(data.points@[i as int].id == e && rect.contains_spec(
                            data.viewport.to_screen_spec(data.points@[i as int].pos),
                        ));
                    }
                };
                assert forall|e: EntityId|
                    (exists|j: int|
                        0 <= j < i + 1 && (#[trigger] data.points@[j]).id == e
                            && rect.contains_spec(
                            data.viewport.to_screen_spec(data.points@[j].pos),
                        )) implies #[trigger] hits.to_set().contains(e) by {
                    let j = choose|j: int|
                        0 <= j < i + 1 && (#[trigger] data.points@[j]).id == e
                            && rect.contains_spec(
                            data.viewport.to_screen_spec(data.points@[j].pos),
                        );
                };
            }
        } else {
            proof {
                assert forall|e: EntityId|
                    (exists|j: int|
                        0 <= j < i + 1 && (#[trigger] data.points@[j]).id == e
                            && rect.contains_spec(
                            data.viewport.to_screen_spec(data.points@[j].pos),
                        )) implies #[trigger] hits.to_set().contains(e) by {
                    let j = choose|j: int|
                        0 <= j < i + 1 && (#[trigger] data.points@[j]).id == e
                            && rect.contains_spec(
                            data.viewport.to_screen_spec(data.points@[j].pos),
                        );
                    assert(j < i);
                };
            }
        }
        i += 1;
    }
    proof {
        assert(hits.to_set() =~= data.rect_hits(rect));
    }
    let new_sel = if shift {
        Selection::sym_diff_of(prev_sel, &hits)
    } else {
        Selection::union_of(prev_sel, &hits)
    };
    data.selection = new_sel;
}

/// What a single click does to the session, for every hit outcome.
pub open spec fn left_down_post(
    pre: EditSession,
    post: EditSession,
    ev: MouseEvent,
    edit: Option<EditType>,
) -> bool {
    if ev.count == 1 {
        match pre.first_point_hit(ev.pos) {
            Some(pid) => {
                &&& pre.same_doc(post)
                &&& edit is None
                &&& post.selection.wf()
                &&& if !ev.mods.shift {
                    if pre.selection.to_set().contains(pid) {
                        post.selection == pre.selection
                    } else {
                        post.selection.seq() == seq![pid]
                    }
                } else {
                    post.selection.to_set() == if pre.selection.to_set().contains(pid) {
                        pre.selection.to_set().remove(pid)
                    } else {
                        pre.selection.to_set().insert(pid)
                    }
                }
            }
            None => match pre.first_seg_hit(ev.pos) {
                Some(seg) => if ev.mods.alt && seg.is_line() {
                    &&& upgrade_post(pre, post, seg)
                    &&& post.selection == pre.selection
                    &&& edit == Some(EditType::Normal)
                } else {
                    let g = seg.ids_spec().to_set();
                    &&& pre.same_doc(post)
                    &&& edit is None
                    &&& post.selection.wf()
                    &&& if !ev.mods.shift {
                        if g.subset_of(pre.selection.to_set()) {
                            post.selection == pre.selection
                        } else {
                            post.selection.to_set() == g
                        }
                    } else {
                        post.selection.to_set() == if g.subset_of(pre.selection.to_set()) {
                            pre.selection.to_set().difference(g)
                        } else {
                            pre.selection.to_set().union(g)
                        }
                    }
                },
                None => {
                    &&& pre.same_doc(post)
                    &&& edit is None
                    &&& if ev.mods.shift {
                        post.selection == pre.selection
                    } else {
                        post.selection.to_set() == Set::<EntityId>::empty()
                            && post.selection.wf()
                    }
                }
            }
        }
    } else if ev.count == 2 {
        match pre.first_point_hit(ev.pos) {
            Some(pid) => if pre.spec_point_for_id(pid).typ.is_on_curve() {
                &&& post.points@.len() == pre.points@.len()
                &&& forall|i: int|
                    0 <= i < pre.points@.len() ==> #[trigger] post.points@[i]
                        == crate::session::curve_type_toggled(
                        pre.points@[i],
                        pre.selection.to_set(),
                    )
                &&& post.selection == pre.selection
                &&& post.segments == pre.segments
                &&& post.viewport == pre.viewport
                &&& post.next_id == pre.next_id
                &&& edit == Some(EditType::Normal)
            } else if pid.guide {
                &&& post.points@.len() == pre.points@.len()
                &&& forall|i: int|
                    0 <= i < pre.points@.len() ==> #[trigger] post.points@[i] == (
                    if pre.points@[i].id == pid {
                        crate::session::guide_toggled(pre.points@[i])
                    } else {
                        pre.points@[i]
                    })
                &&& post.selection == pre.selection
                &&& post.segments == pre.segments
                &&& post.viewport == pre.viewport
                &&& post.next_id == pre.next_id
                &&& edit == Some(EditType::Normal)
            } else {
                select_path_post(pre, post, ev, edit)
            },
            None => select_path_post(pre, post, ev, edit),
        }
    } else {
        &&& post == pre
        &&& edit is None
    }
}

/// What a double click away from points and guides does: selects the whole
/// path under the pointer, additively when shift is held.
pub open spec fn select_path_post(
    pre: EditSession,
    post: EditSession,
    ev: MouseEvent,
    edit: Option<EditType>,
) -> bool {
    &&& pre.same_doc(post)
    &&& edit is None
    &&& match pre.path_target(ev.pos) {
        Some(pid) => post.selection.to_set() == if ev.mods.shift {
            pre.selection.to_set().union(pre.path_members(pid))
        } else {
            pre.path_members(pid)
        },
        None => post.selection == pre.selection,
    }
}

/// What classifying a fresh drag does: over an entity, a move; over empty
/// space, a marquee selection snapshotting the current selection.
pub open spec fn drag_began_post(pre_d: EditSession, post_t: Select, ev: Drag) -> bool {
    match pre_d.first_point_hit(ev.start.pos) {
        Some(_) => post_t.drag == DragState::Move {
            last_used_pos: pre_d.viewport.from_screen_spec(ev.start.pos),
        },
        None => post_t.drag matches DragState::Select { previous, rect }
            && previous.seq() == pre_d.selection.seq()
            && rect == Rect::from_points_spec(ev.start.pos, ev.current.pos),
    }
}

/// What one drag frame does, by the live drag state: a marquee recomputes
/// its rectangle and the selection from the snapshot; a move applies the
/// incremental delta to the selected entities.
pub open spec fn drag_changed_post(
    pre_t: Select,
    pre_d: EditSession,
    post_t: Select,
    post_d: EditSession,
    ev: Drag,
    edit: Option<EditType>,
) -> bool {
    match pre_t.drag {
        DragState::Select { previous, rect } => {
            let newrect = Rect::from_points_spec(ev.current.pos, ev.start.pos);
            &&& (post_t.drag matches DragState::Select { previous: p2, rect: r2 }
                && p2.seq() == previous.seq() && r2 == newrect)
            &&& pre_d.same_doc(post_d)
            &&& post_d.selection.to_set() == if ev.current.mods.shift {
                sym_diff_set(previous.to_set(), pre_d.rect_hits(newrect))
            } else {
                previous.to_set().union(pre_d.rect_hits(newrect))
            }
            &&& edit is None
        }
        DragState::Move { last_used_pos } => {
            let dp = pre_d.viewport.from_screen_spec(ev.current.pos);
            &&& post_t.drag == DragState::Move { last_used_pos: dp }
            &&& nudged(
                pre_d,
                post_d,
                DVec2 {
                    x: (dp.x - last_used_pos.x) as i64,
                    y: (dp.y - last_used_pos.y) as i64,
                },
            )
            &&& edit == Some(EditType::Drag)
        }
        DragState::Idle => false,
    }
}

/// What a keypress does: arrows nudge, Backspace or Delete deletes the
/// selection, Tab and Shift-Tab walk the entities; anything else is not
/// handled.
pub open spec fn key_down_post(
    pre: EditSession,
    post: EditSession,
    ev: KeyEvent,
    r: Option<EditType>,
) -> bool {
    if is_arrow(ev.key) {
        &&& nudged(pre, post, nudge_vector(ev.key, ev.mods))
        &&& r == Some(nudge_edit(ev.key, ev.mods))
    } else if ev.key is Backspace || ev.key is Delete {
        &&& deleted(pre, post)
        &&& r == Some(EditType::Normal)
    } else if ev.key is Tab && !ev.mods.shift && !ev.mods.alt && !ev.mods.meta {
        &&& tab_next(pre, post)
        &&& r is None
    } else if ev.key is Tab && ev.mods.shift && !ev.mods.alt && !ev.mods.meta {
        &&& tab_prev(pre, post)
        &&& r is None
    } else {
        &&& post == pre
        &&& r is None
    }
}

impl Select {
    pub open spec fn wf(self) -> bool {
        self.drag.wf()
    }

    /// The tool's identifier for the host's tool registry.
    pub fn name(&self) -> (r: &'static str)
        ensures
            r@ == "Select"@,
    {
        "Select"
    }

    /// Records the pointer position; nothing else.
    pub fn mouse_moved(&mut self, event: &MouseEvent, data: &mut EditSession)
        requires
            old(self).wf(),
            old(data).wf(),
        ensures
            final(self).wf(),
            final(data).wf(),
            final(self).last_pos == event.pos,
            final(self).drag == old(self).drag,
            final(self).this_edit_type == old(self).this_edit_type,
            *final(data) == *old(data),
    {
        self.last_pos = event.pos;
    }

    /// Nudges the selection one step for an arrow key, scaled by the
    /// modifiers, and tags the edit for undo coalescing.
    pub fn nudge(&mut self, data: &mut EditSession, event: &KeyEvent)
        requires
            old(self).wf(),
            old(data).wf(),
            is_arrow(event.key),
        ensures
            final(self).wf(),
            final(data).wf(),
            nudged(*old(data), *final(data), nudge_vector(event.key, event.mods)),
            final(self).this_edit_type == Some(nudge_edit(event.key, event.mods)),
            final(self).drag == old(self).drag,
            final(self).last_pos == old(self).last_pos,
    {
        let scale: i64 = if event.mods.meta {
            100
        } else if event.mods.shift {
            10
        } else {
            1
        };
        let (dx, dy): (i64, i64) = match event.key {
            Key::ArrowLeft => (-scale, 0),
            Key::ArrowRight => (scale, 0),
            Key::ArrowUp => (0, scale),
            Key::ArrowDown => (0, -scale),
            _ => unreached(),
        };
        let delta = DVec2 { x: dx, y: dy };
        proof {
            assert(delta == nudge_vector(event.key, event.mods));
        }
        data.nudge_selection(delta);
        let edit = if scale > 1 {
            EditType::Normal
        } else {
            match event.key {
                Key::ArrowLeft => EditType::NudgeLeft,
                Key::ArrowRight => EditType::NudgeRight,
                Key::ArrowUp => EditType::NudgeUp,
                Key::ArrowDown => EditType::NudgeDown,
                _ => unreached(),
            }
        };
        self.this_edit_type = Some(edit);
    }

    /// The keyboard entry point: dispatches the key, returns the edit
    /// classification, and leaves the edit slot empty.
    pub fn key_down(&mut self, event: &KeyEvent, data: &mut EditSession) -> (r: Option<EditType>)
        requires
            old(self).wf(),
            old(data).wf(),
            old(self).this_edit_type is None,
        ensures
            final(self).wf(),
            final(data).wf(),
            final(self).this_edit_type is None,
            final(self).drag == old(self).drag,
            final(self).last_pos == old(self).last_pos,
            key_down_post(*old(data), *final(data), *event, r),
    {
        match event.key {
            Key::ArrowLeft | Key::ArrowRight | Key::ArrowUp | Key::ArrowDown => {
                self.nudge(data, event);
            }
            Key::Backspace | Key::Delete => {
                data.delete_selection();
                self.this_edit_type = Some(EditType::Normal);
            }
            Key::Tab => {
                if !event.mods.shift && !event.mods.alt && !event.mods.meta {
                    data.select_next();
                } else if event.mods.shift && !event.mods.alt && !event.mods.meta {
                    data.select_prev();
                }
            }
            _ => {
                return None;
            }
        }
        let r = self.this_edit_type;
        self.this_edit_type = None;
        r
    }

    /// A single or double click: hit-tests the position and updates the
    /// selection (or upgrades a segment, or toggles a point or guide) as
    /// the hit and the modifiers ask.
    pub fn left_down(&mut self, event: &MouseEvent, data: &mut EditSession)
        requires
            old(self).wf(),
            old(data).wf(),
            event.wf(),
            old(self).this_edit_type is None,
        ensures
            final(self).wf(),
            final(data).wf(),
            final(self).drag == old(self).drag,
            final(self).last_pos == old(self).last_pos,
            left_down_post(*old(data), *final(data), *event, final(self).this_edit_type),
    {
        if event.count == 1 {
            let sel = data.hit_test_all(event.pos);
            if let Some(point_id) = sel {
                if !event.mods.shift {
                    // when clicking a point, if it is not selected we set it
                    // as the selection, otherwise we keep the selection
                    // intact for a drag.
                    if !data.selection.contains(point_id) {
                        data.set_selection_one(point_id);
                    }
                } else if !data.selection.remove(point_id) {
                    data.selection.insert(point_id);
                    proof {
                        assert(data.selection.to_set() =~= old(data).selection.to_set().insert(
                            point_id,
                        ));
                    }
                }
            } else if let Some(seg) = data.hit_test_segments(event.pos) {
                if event.mods.alt && matches!(seg, Segment::Line { .. }) {
                    self.this_edit_type = Some(EditType::Normal);
                    data.upgrade_line_seg(seg);
                    return ;
                }
                let ids = seg.ids();
                if !event.mods.shift {
                    if !data.selection.contains_all(&ids) {
                        data.selection.clear();
                        data.selection.extend(&ids);
                        proof {
                            assert(Set::<EntityId>::empty().union(ids@.to_set())
                                =~= ids@.to_set());
                        }
                    }
                } else if data.selection.contains_all(&ids) {
                    data.selection.remove_all(&ids);
                } else {
                    data.selection.extend(&ids);
                }
            } else if !event.mods.shift {
                data.selection.clear();
            }
        } else if event.count == 2 {
            let sel = data.hit_test_all(event.pos);
            let on_curve_hit = match sel {
                Some(id) => match data.path_point_for_id(id) {
                    Some(p) => matches!(p.typ, PointType::OnCurve { .. }),
                    None => false,
                },
                None => false,
            };
            match sel {
                Some(id) => {
                    if on_curve_hit {
                        data.toggle_selected_on_curve_type();
                        self.this_edit_type = Some(EditType::Normal);
                    } else if id.is_guide() {
                        data.toggle_guide(id, event.pos);
                        self.this_edit_type = Some(EditType::Normal);
                    } else {
                        data.select_path(event.pos, event.mods.shift);
                    }
                }
                None => {
                    data.select_path(event.pos, event.mods.shift);
                }
            }
        }
    }

    /// The gesture is over: the drag state resets unconditionally.
    pub fn left_up(&mut self, _event: &MouseEvent, data: &mut EditSession)
        requires
            old(self).wf(),
            old(data).wf(),
        ensures
            final(self).wf(),
            final(data).wf(),
            final(self).drag is Idle,
            final(self).last_pos == old(self).last_pos,
            final(self).this_edit_type == old(self).this_edit_type,
            *final(data) == *old(data),
    {
        self.drag = DragState::Idle;
    }

    /// Classifies a fresh drag: over an entity it moves the selection;
    /// over empty space it starts a marquee selection, snapshotting the
    /// selection for cancel.
    pub fn left_drag_began(&mut self, drag: Drag, data: &mut EditSession)
        requires
            old(self).wf(),
            old(data).wf(),
            drag.wf(),
        ensures
            final(self).wf(),
            final(data).wf(),
            final(self).last_pos == old(self).last_pos,
            final(self).this_edit_type == old(self).this_edit_type,
            *final(data) == *old(data),
            drag_began_post(*old(data), *final(self), drag),
    {
        let sel = data.hit_test_all(drag.start.pos);
        let is_dragging_item = sel.is_some();
        self.drag = if is_dragging_item {
            DragState::Move { last_used_pos: data.viewport.from_screen(drag.start.pos) }
        } else {
            DragState::Select {
                previous: data.selection.snapshot(),
                rect: Rect::from_points(drag.start.pos, drag.current.pos),
            }
        };
    }

    /// One drag frame. A marquee recomputes its rectangle and the live
    /// selection from the pre-drag snapshot and the shift state at this
    /// instant; a move applies the incremental delta to the selected
    /// entities. The dispatcher never delivers this without a drag in
    /// progress.
    pub fn left_drag_changed(&mut self, drag: Drag, data: &mut EditSession)
        requires
            old(self).wf(),
            old(data).wf(),
            drag.wf(),
            !(old(self).drag is Idle),
            old(self).this_edit_type is None,
        ensures
            final(self).wf(),
            final(data).wf(),
            final(self).last_pos == old(self).last_pos,
            drag_changed_post(
                *old(self),
                *old(data),
                *final(self),
                *final(data),
                drag,
                final(self).this_edit_type,
            ),
    {
        match &self.drag {
            DragState::Select { previous, rect: _ } => {
                let prev = previous.snapshot();
                let rect = Rect::from_points(drag.current.pos, drag.start.pos);
                update_selection_for_drag(data, &prev, rect, drag.current.mods.shift);
                self.drag = DragState::Select { previous: prev, rect };
            }
            DragState::Move { last_used_pos } => {
                let last = *last_used_pos;
                let drag_pos = data.viewport.from_screen(drag.current.pos);
                let delta = DVec2 { x: drag_pos.x - last.x, y: drag_pos.y - last.y };
                if delta.x != 0 || delta.y != 0 {
                    data.nudge_selection(delta);
                } else {
                    proof {
                        lemma_zero_nudge(*data, delta);
                    }
                }
                self.drag = DragState::Move { last_used_pos: drag_pos };
                self.this_edit_type = Some(EditType::Drag);
            }
            DragState::Idle => unreached(),
        }
    }

    /// The drag is complete: a move emits the undo boundary that closes
    /// it; a marquee needs no extra action.
    pub fn left_drag_ended(&mut self, _drag: Drag, data: &mut EditSession)
        requires
            old(self).wf(),
            old(data).wf(),
            old(self).this_edit_type is None,
        ensures
            final(self).wf(),
            final(data).wf(),
            final(self).drag == old(self).drag,
            final(self).last_pos == old(self).last_pos,
            *final(data) == *old(data),
            final(self).this_edit_type == if old(self).drag.is_move_spec() {
                Some(EditType::DragUp)
            } else {
                None::<EditType>
            },
    {
        if self.drag.is_move() {
            self.this_edit_type = Some(EditType::DragUp);
        }
    }

    /// The gesture was cancelled. A marquee restores the selection exactly
    /// to the pre-drag snapshot, whatever rectangles were seen in between;
    /// a move leaves the geometry where the last frame put it (rollback
    /// belongs to the undo layer). The drag state resets.
    pub fn cancel(&mut self, data: &mut EditSession)
        requires
            old(self).wf(),
            old(data).wf(),
        ensures
            final(self).wf(),
            final(data).wf(),
            final(self).drag is Idle,
            final(self).last_pos == old(self).last_pos,
            final(self).this_edit_type == old(self).this_edit_type,
            old(data).same_doc(*final(data)),
            match old(self).drag {
                DragState::Select { previous, .. } => final(data).selection.seq()
                    == previous.seq(),
                _ => *final(data) == *old(data),
            },
    {
        let mut old_state = DragState::Idle;
        core::mem::swap(&mut old_state, &mut self.drag);
        if let DragState::Select { previous, .. } = old_state {
            data.selection = previous;
        }
    }

    /// The pointer entry point: dispatches the classified event, requests
    /// a repaint when the marquee rectangle changed (including appearing or
    /// disappearing), and returns the edit classification with the edit
    /// slot left empty.
    pub fn mouse_event(&mut self, event: TaggedEvent, data: &mut EditSession) -> (r: (
        Option<EditType>,
        bool,
    ))
        requires
            old(self).wf(),
            old(data).wf(),
            event.wf(),
            old(self).this_edit_type is None,
            (event matches TaggedEvent::DragChanged(_)) ==> !(old(self).drag is Idle),
        ensures
            final(self).wf(),
            final(data).wf(),
            final(self).this_edit_type is None,
            r.1 == (old(self).drag.drag_rect_spec() != final(self).drag.drag_rect_spec()),
            match event {
                TaggedEvent::Moved(e) => final(self).last_pos == e.pos && *final(data) == *old(
                    data,
                ) && final(self).drag == old(self).drag && r.0 is None,
                TaggedEvent::Down(e) => left_down_post(*old(data), *final(data), e, r.0)
                    && final(self).drag == old(self).drag,
                TaggedEvent::Up(_) => final(self).drag is Idle && *final(data) == *old(data)
                    && r.0 is None,
                TaggedEvent::DragBegan(d) => drag_began_post(*old(data), *final(self), d)
                    && *final(data) == *old(data) && r.0 is None,
                TaggedEvent::DragChanged(d) => drag_changed_post(
                    *old(self),
                    *old(data),
                    *final(self),
                    *final(data),
                    d,
                    r.0,
                ),
                TaggedEvent::DragEnded(_) => final(self).drag == old(self).drag && *final(data)
                    == *old(data) && r.0 == if old(self).drag.is_move_spec() {
                    Some(EditType::DragUp)
                } else {
                    None::<EditType>
                },
                TaggedEvent::Cancel => final(self).drag is Idle && old(data).same_doc(
                    *final(data),
                ) && r.0 is None && (match old(self).drag {
                    DragState::Select { previous, .. } => final(data).selection.seq()
                        == previous.seq(),
                    _ => *final(data) == *old(data),
                }),
            },
    {
        let pre_rect = self.drag.drag_rect();
        match event {
            TaggedEvent::Moved(e) => self.mouse_moved(&e, data),
            TaggedEvent::Down(e) => self.left_down(&e, data),
            TaggedEvent::Up(e) => self.left_up(&e, data),
            TaggedEvent::DragBegan(d) => self.left_drag_began(d, data),
            TaggedEvent::DragChanged(d) => self.left_drag_changed(d, data),
            TaggedEvent::DragEnded(d) => self.left_drag_ended(d, data),
            TaggedEvent::Cancel => self.cancel(data),
        }
        let post_rect = self.drag.drag_rect();
        let changed = !same_rect(pre_rect, post_rect);
        let r = self.this_edit_type;
        self.this_edit_type = None;
        (r, changed)
    }
}

/// Nudging by a zero delta changes nothing: clamping an in-range
/// coordinate is the identity.
proof fn lemma_zero_nudge(d: EditSession, delta: DVec2)
    requires
        d.wf(),
        delta.x == 0,
        delta.y == 0,
    ensures
        nudged(d, d, delta),
{
    assert forall|i: int| 0 <= i < d.points@.len() implies {
        let p = #[trigger] d.points@[i];
        p.pos == if d.selection.to_set().contains(p.id) {
            DPoint {
                x: crate::geometry::clamp_coord(p.pos.x + delta.x) as i64,
                y: crate::geometry::clamp_coord(p.pos.y + delta.y) as i64,
            }
        } else {
            p.pos
        }
    } by {
        assert(d.points@[i].wf());
    };
}

/// Are the two optional rectangles the same?
fn same_rect(a: Option<Rect>, b: Option<Rect>) -> (r: bool)
    ensures
        r == (a == b),
{
    match (a, b) {
        (None, None) => true,
        (Some(x), Some(y)) => x.x0 == y.x0 && x.y0 == y.y0 && x.x1 == y.x1 && x.y1 == y.y1,
        _ => false,
    }
}

} // verus!
