//! The editing session: the document's points, segments and live selection,
//! together with the viewport, and every document operation the selection
//! tool performs.

use vstd::prelude::*;
use vstd::pervasive::unreached;
use crate::entity::EntityId;
use crate::geometry::{DPoint, DVec2, Rect, SPoint, Viewport, clamp_coord, clamp_add};
use crate::selection::Selection;

verus! {

/// Chebyshev radius, in screen units, within which a point answers a hit
/// test.
pub const HIT_TOLERANCE: i64 = 5;

/// What a document point is: a path vertex (with its smooth/corner
/// classification), a curve control handle, or a guide (with its
/// orientation).
#[derive(Clone, Copy, PartialEq, Eq, Structural, Debug)]
pub enum PointType {
    OnCurve { smooth: bool },
    OffCurve,
    Guide { horizontal: bool },
}

impl PointType {
    pub open spec fn is_on_curve(self) -> bool {
        matches!(self, PointType::OnCurve { .. })
    }

    pub open spec fn is_guide(self) -> bool {
        matches!(self, PointType::Guide { .. })
    }
}

/// A selectable document point.
#[derive(Clone, Copy, PartialEq, Eq, Structural, Debug)]
pub struct PathPoint {
    pub id: EntityId,
    pub pos: DPoint,
    pub typ: PointType,
    /// Which path (contour) the point belongs to; meaningless for guides.
    pub path_id: u64,
}

impl PathPoint {
    pub open spec fn wf(self) -> bool {
        &&& self.pos.wf()
        &&& self.id.guide == self.typ.is_guide()
    }
}

/// A path segment, identified by the ids of the points that define it.
#[derive(Clone, Copy, PartialEq, Eq, Structural, Debug)]
pub enum Segment {
    Line { start: EntityId, end: EntityId },
    Cubic { start: EntityId, ctrl1: EntityId, ctrl2: EntityId, end: EntityId },
}

impl Segment {
    pub open spec fn is_line(self) -> bool {
        matches!(self, Segment::Line { .. })
    }

    pub open spec fn start_spec(self) -> EntityId {
        match self {
            Segment::Line { start, .. } => start,
            Segment::Cubic { start, .. } => start,
        }
    }

    pub open spec fn end_spec(self) -> EntityId {
        match self {
            Segment::Line { end, .. } => end,
            Segment::Cubic { end, .. } => end,
        }
    }

    /// The ids the segment contributes as a selection group.
    pub open spec fn ids_spec(self) -> Seq<EntityId> {
        match self {
            Segment::Line { start, end } => seq![start, end],
            Segment::Cubic { start, ctrl1, ctrl2, end } => seq![start, ctrl1, ctrl2, end],
        }
    }

    pub fn start(&self) -> (r: EntityId)
        ensures
            r == self.start_spec(),
    {
        match self {
            Segment::Line { start, .. } => *start,
            Segment::Cubic { start, .. } => *start,
        }
    }

    pub fn end(&self) -> (r: EntityId)
        ensures
            r == self.end_spec(),
    {
        match self {
            Segment::Line { end, .. } => *end,
            Segment::Cubic { end, .. } => *end,
        }
    }

    /// The segment's endpoint-group ids, in order.
    pub fn ids(&self) -> (r: Vec<EntityId>)
        ensures
            r@ == self.ids_spec(),
    {
        let mut r: Vec<EntityId> = Vec::new();
        match self {
            Segment::Line { start, end } => {
                r.push(*start);
                r.push(*end);
            }
            Segment::Cubic { start, ctrl1, ctrl2, end } => {
                r.push(*start);
                r.push(*ctrl1);
                r.push(*ctrl2);
                r.push(*end);
            }
        }
        proof {
            assert(r@ =~= self.ids_spec());
        }
        r
    }
}

/// Does a point answer a hit test at this screen position?
pub open spec fn point_hit(vp: Viewport, p: PathPoint, pos: SPoint) -> bool {
    let sp = vp.to_screen_spec(p.pos);
    &&& -HIT_TOLERANCE <= sp.x - pos.x <= HIT_TOLERANCE
    &&& -HIT_TOLERANCE <= sp.y - pos.y <= HIT_TOLERANCE
}

/// The id of the first point, from index `i` on, hit at this position.
pub open spec fn first_point_hit_from(
    points: Seq<PathPoint>,
    vp: Viewport,
    pos: SPoint,
    i: int,
) -> Option<EntityId>
    decreases points.len() - i,
{
    if i < 0 || i >= points.len() {
        None
    } else if point_hit(vp, points[i], pos) {
        Some(points[i].id)
    } else {
        first_point_hit_from(points, vp, pos, i + 1)
    }
}

/// The editing session the tool mutates.
pub struct EditSession {
    pub points: Vec<PathPoint>,
    pub segments: Vec<Segment>,
    pub selection: Selection,
    pub viewport: Viewport,
    /// Source of fresh entity ids: strictly above every id in the document.
    pub next_id: u64,
}

impl EditSession {
    pub open spec fn has_point(self, id: EntityId) -> bool {
        exists|i: int| 0 <= i < self.points@.len() && self.points@[i].id == id
    }

    /// The index of the point with this id (unique under `wf`).
    pub open spec fn id_index(self, id: EntityId) -> int {
        choose|i: int| 0 <= i < self.points@.len() && self.points@[i].id == id
    }

    pub open spec fn spec_point_for_id(self, id: EntityId) -> PathPoint {
        self.points@[self.id_index(id)]
    }

    pub open spec fn seg_wf(self, seg: Segment) -> bool {
        forall|k: int| 0 <= k < seg.ids_spec().len() ==> self.has_point(#[trigger] seg.ids_spec()[k])
    }

    pub open spec fn wf(self) -> bool {
        &&& self.viewport.wf()
        &&& self.selection.wf()
        &&& forall|i: int| 0 <= i < self.points@.len() ==> (#[trigger] self.points@[i]).wf()
        &&& forall|i: int, j: int|
            0 <= i < j < self.points@.len()
                ==> (#[trigger] self.points@[i]).id.num != (#[trigger] self.points@[j]).id.num
        &&& forall|i: int| 0 <= i < self.points@.len()
            ==> (#[trigger] self.points@[i]).id.num < self.next_id
        &&& forall|s: int| 0 <= s < self.segments@.len()
            ==> self.seg_wf(#[trigger] self.segments@[s])
    }

    /// The ids of all points whose screen projection lies in the rectangle:
    /// what a marquee pass picks up.
    pub open spec fn rect_hits(self, rect: Rect) -> Set<EntityId> {
        Set::new(
            |id: EntityId|
                exists|i: int|
                    0 <= i < self.points@.len() && (#[trigger] self.points@[i]).id == id
                        && rect.contains_spec(self.viewport.to_screen_spec(self.points@[i].pos)),
        )
    }

    pub open spec fn first_point_hit(self, pos: SPoint) -> Option<EntityId> {
        first_point_hit_from(self.points@, self.viewport, pos, 0)
    }

    /// Everything of the session except the selection, unchanged.
    pub open spec fn same_doc(self, other: EditSession) -> bool {
        &&& self.points == other.points
        &&& self.segments == other.segments
        &&& self.viewport == other.viewport
        &&& self.next_id == other.next_id
    }

    /// Looks up a point by id.
    pub fn path_point_for_id(&self, id: EntityId) -> (r: Option<PathPoint>)
        requires
            self.wf(),
        ensures
            r is Some <==> self.has_point(id),
            r is Some ==> r->Some_0 == self.spec_point_for_id(id) && r->Some_0.id == id,
    {
        let n = self.points.len();
        let mut i: usize = 0;
        while i < n
            invariant
                self.wf(),
                n == self.points@.len(),
                i <= n,
                forall|j: int| 0 <= j < i ==> (#[trigger] self.points@[j]).id != id,
            decreases n - i,
        {
            let p = self.points[i];
            if p.id == id {
                proof {
                    let k = self.id_index(id);
                    assert(self.points@[i as int].id == id);
                    assert(0 <= k < self.points@.len() && self.points@[k].id == id);
                    assert(k == i) by {
                        if k != i {
                            assert(self.points@[k].id.num != self.points@[i as int].id.num);
                        }
                    };
                }
                return Some(p);
            }
            i += 1;
        }
        proof {
            assert(!self.has_point(id));
        }
        None
    }

    /// The hit test the tool uses for single clicks and drag starts: the
    /// first point within the hit tolerance of the screen position.
    pub fn hit_test_all(&self, pos: SPoint) -> (r: Option<EntityId>)
        requires
            self.wf(),
            pos.wf(),
        ensures
            r == self.first_point_hit(pos),
            r is Some ==> self.has_point(r->Some_0),
    {
        let n = self.points.len();
        let mut i: usize = 0;
        while i < n
            invariant
                self.wf(),
                pos.wf(),
                n == self.points@.len(),
                i <= n,
                self.first_point_hit(pos) == first_point_hit_from(
                    self.points@,
                    self.viewport,
                    pos,
                    i as int,
                ),
            decreases n - i,
        {
            let p = self.points[i];
            let sp = self.viewport.to_screen(p.pos);
            let dx: i64 = sp.x - pos.x;
            let dy: i64 = sp.y - pos.y;
            if -HIT_TOLERANCE <= dx && dx <= HIT_TOLERANCE && -HIT_TOLERANCE <= dy && dy
                <= HIT_TOLERANCE {
                proof {
                    assert(point_hit(self.viewport, self.points@[i as int], pos));
                    assert(self.has_point(p.id)) by {
                        assert(self.points@[i as int].id == p.id);
                    };
                }
                return Some(p.id);
            }
            i += 1;
        }
        None
    }

    /// Replaces the selection with a single entity.
    pub fn set_selection_one(&mut self, id: EntityId)
        ensures
            final(self).selection.seq() == seq![id],
            final(self).selection.to_set() == Set::<EntityId>::empty().insert(id),
            final(self).selection.wf(),
            old(self).same_doc(*final(self)),
    {
        self.selection.set_one(id);
    }

    /// Moves every selected point by the delta, clamping into the coordinate
    /// range. Unselected points, segments and the selection itself are
    /// untouched.
    pub fn nudge_selection(&mut self, delta: DVec2)
        requires
            old(self).wf(),
            delta.delta_ok(),
        ensures
            final(self).wf(),
            nudged(*old(self), *final(self), delta),
    {
        let n = self.points.len();
        let mut i: usize = 0;
        while i < n
            invariant
                old(self).wf(),
                n == self.points@.len(),
                i <= n,
                self.points@.len() == old(self).points@.len(),
                self.selection == old(self).selection,
                self.segments == old(self).segments,
                self.viewport == old(self).viewport,
                self.next_id == old(self).next_id,
                delta.delta_ok(),
                forall|j: int|
                    i <= j < n ==> #[trigger] self.points@[j] == old(self).points@[j],
                forall|j: int|
                    0 <= j < i ==> {
                        let p = #[trigger] old(self).points@[j];
                        let q = self.points@[j];
                        &&& q.id == p.id
                        &&& q.typ == p.typ
                        &&& q.path_id == p.path_id
                        &&& q.pos.wf()
                        &&& q.pos == if old(self).selection.to_set().contains(p.id) {
                            DPoint {
                                x: clamp_coord(p.pos.x + delta.x) as i64,
                                y: clamp_coord(p.pos.y + delta.y) as i64,
                            }
                        } else {
                            p.pos
                        }
                    },
            decreases n - i,
        {
            let p = self.points[i];
            if self.selection.contains(p.id) {
                let moved = PathPoint {
                    id: p.id,
                    pos: DPoint { x: clamp_add(p.pos.x, delta.x), y: clamp_add(p.pos.y, delta.y) },
                    typ: p.typ,
                    path_id: p.path_id,
                };
                self.points[i] = moved;
            }
            i += 1;
        }
        proof {
            assert(self.wf()) by {
                assert(forall|j: int|
                    0 <= j < self.points@.len() ==> (#[trigger] self.points@[j]).id
                        == old(self).points@[j].id && self.points@[j].typ == old(
                        self,
                    ).points@[j].typ && self.points@[j].pos.wf());
                assert(forall|s: int|
                    0 <= s < self.segments@.len() ==> self.seg_wf(
                        #[trigger] self.segments@[s],
                    )) by {
                    assert(forall|id: EntityId|
                        old(self).has_point(id) ==> self.has_point(id)) by {
                        assert forall|id: EntityId| old(self).has_point(id)
                            implies self.has_point(id) by {
                            let k = choose|k: int|
                                0 <= k < old(self).points@.len() && old(self).points@[k].id == id;
                            assert(self.points@[k].id == id);
                        };
                    };
                    assert forall|s: int| 0 <= s < self.segments@.len()
                        implies self.seg_wf(#[trigger] self.segments@[s]) by {
                        assert(old(self).seg_wf(old(self).segments@[s]));
                        assert(self.segments@[s] == old(self).segments@[s]);
                    };
                };
            };
        }
    }

    /// Does a segment answer a hit test at this screen position? The test is
    /// against the screen bounding box of its two endpoints, expanded by the
    /// hit tolerance.
    pub open spec fn seg_hit(self, seg: Segment, pos: SPoint) -> bool {
        let a = self.viewport.to_screen_spec(self.spec_point_for_id(seg.start_spec()).pos);
        let b = self.viewport.to_screen_spec(self.spec_point_for_id(seg.end_spec()).pos);
        let x0 = if a.x <= b.x { a.x } else { b.x };
        let x1 = if a.x <= b.x { b.x } else { a.x };
        let y0 = if a.y <= b.y { a.y } else { b.y };
        let y1 = if a.y <= b.y { b.y } else { a.y };
        &&& x0 - HIT_TOLERANCE <= pos.x <= x1 + HIT_TOLERANCE
        &&& y0 - HIT_TOLERANCE <= pos.y <= y1 + HIT_TOLERANCE
    }

    /// The first segment, from index `s` on, hit at this position.
    pub open spec fn first_seg_hit_from(self, pos: SPoint, s: int) -> Option<Segment>
        decreases self.segments@.len() - s,
    {
        if s < 0 || s >= self.segments@.len() {
            None
        } else if self.seg_hit(self.segments@[s], pos) {
            Some(self.segments@[s])
        } else {
            self.first_seg_hit_from(pos, s + 1)
        }
    }

    pub open spec fn first_seg_hit(self, pos: SPoint) -> Option<Segment> {
        self.first_seg_hit_from(pos, 0)
    }

    /// The hit test the tool falls back to when no point is hit: the first
    /// segment whose expanded endpoint bounding box holds the position.
    pub fn hit_test_segments(&self, pos: SPoint) -> (r: Option<Segment>)
        requires
            self.wf(),
            pos.wf(),
        ensures
            r == self.first_seg_hit(pos),
            r is Some ==> self.segments@.contains(r->Some_0),
    {
        let n = self.segments.len();
        let mut s: usize = 0;
        while s < n
            invariant
                self.wf(),
                pos.wf(),
                n == self.segments@.len(),
                s <= n,
                self.first_seg_hit(pos) == self.first_seg_hit_from(pos, s as int),
            decreases n - s,
        {
            let seg = self.segments[s];
            proof {
                assert(self.seg_wf(self.segments@[s as int]));
                assert(seg.ids_spec()[0] == seg.start_spec());
                assert(seg.ids_spec()[seg.ids_spec().len() - 1] == seg.end_spec());
                assert(self.has_point(seg.start_spec()));
                assert(self.has_point(seg.end_spec()));
            }
            let pa = match self.path_point_for_id(seg.start()) {
                Some(p) => p,
                None => unreached(),
            };
            let pb = match self.path_point_for_id(seg.end()) {
                Some(p) => p,
                None => unreached(),
            };
            let a = self.viewport.to_screen(pa.pos);
            let b = self.viewport.to_screen(pb.pos);
            let x0: i64 = if a.x <= b.x { a.x } else { b.x };
            let x1: i64 = if a.x <= b.x { b.x } else { a.x };
            let y0: i64 = if a.y <= b.y { a.y } else { b.y };
            let y1: i64 = if a.y <= b.y { b.y } else { a.y };
            if x0 - HIT_TOLERANCE <= pos.x && pos.x <= x1 + HIT_TOLERANCE && y0 - HIT_TOLERANCE
                <= pos.y && pos.y <= y1 + HIT_TOLERANCE {
                proof {
                    assert(self.seg_hit(self.segments@[s as int], pos));
                }
                return Some(seg);
            }
            s += 1;
        }
        None
    }

    /// Deletes every selected point, drops every segment that loses one of
    /// its defining points, and clears the selection.
    pub fn delete_selection(&mut self)
        requires
            old(self).wf(),
        ensures
            final(self).wf(),
            deleted(*old(self), *final(self)),
    {
        let ghost sel = old(self).selection.to_set();
        let n = self.points.len();
        let mut kept: Vec<PathPoint> = Vec::new();
        let mut i: usize = 0;
        while i < n
            invariant
                old(self).wf(),
                self == old(self),
                sel == old(self).selection.to_set(),
                n == self.points@.len(),
                i <= n,
                kept@ == kept_points(old(self).points@.take(i as int), sel),
            decreases n - i,
        {
            let p = self.points[i];
            proof {
                assert(old(self).points@.take(i + 1).drop_last() =~= old(self).points@.take(
                    i as int,
                ));
                assert(old(self).points@.take(i + 1).last() == old(self).points@[i as int]);
            }
            if !self.selection.contains(p.id) {
                kept.push(p);
            }
            i += 1;
        }
        proof {
            assert(old(self).points@.take(n as int) =~= old(self).points@);
        }
        let m = self.segments.len();
        let mut kept_s: Vec<Segment> = Vec::new();
        let mut s: usize = 0;
        while s < m
            invariant
                old(self).wf(),
                self == old(self),
                sel == old(self).selection.to_set(),
                m == self.segments@.len(),
                s <= m,
                kept_s@ == kept_segments(old(self).segments@.take(s as int), sel),
            decreases m - s,
        {
            let seg = self.segments[s];
            let ids = seg.ids();
            proof {
                assert(old(self).segments@.take(s + 1).drop_last() =~= old(self).segments@.take(
                    s as int,
                ));
                assert(old(self).segments@.take(s + 1).last() == old(self).segments@[s as int]);
            }
            if !any_selected(&self.selection, &ids) {
                kept_s.push(seg);
                proof {
                    assert(seg_kept(seg, sel));
                }
            } else {
                proof {
                    assert(!seg_kept(seg, sel));
                }
            }
            s += 1;
        }
        proof {
            assert(old(self).segments@.take(m as int) =~= old(self).segments@);
        }
        self.points = kept;
        self.segments = kept_s;
        self.selection.clear();
        proof {
            let oldp = old(self).points@;
            lemma_kept_points_props(oldp, sel);
            assert(self.wf()) by {
                lemma_kept_points_distinct(oldp, sel);
                assert forall|j: int| 0 <= j < self.points@.len()
                    implies (#[trigger] self.points@[j]).wf()
                        && self.points@[j].id.num < self.next_id by {
                    let e = self.points@[j];
                    assert(oldp.contains(e));
                    let k = choose|k: int| 0 <= k < oldp.len() && oldp[k] == e;
                };
                lemma_kept_segments_props(old(self).segments@, sel);
                assert forall|t: int| 0 <= t < self.segments@.len()
                    implies self.seg_wf(#[trigger] self.segments@[t]) by {
                    let seg = self.segments@[t];
                    let olds = old(self).segments@;
                    assert(olds.contains(seg) && seg_kept(seg, sel));
                    let k = choose|k: int| 0 <= k < olds.len() && olds[k] == seg;
                    assert(old(self).seg_wf(seg));
                    assert forall|q: int| 0 <= q < seg.ids_spec().len()
                        implies self.has_point(#[trigger] seg.ids_spec()[q]) by {
                        let id = seg.ids_spec()[q];
                        let w = choose|w: int| 0 <= w < oldp.len() && oldp[w].id == id;
                        assert(!sel.contains(oldp[w].id));
                        assert(kept_points(oldp, sel).contains(oldp[w]));
                        let v = choose|v: int|
                            0 <= v < self.points@.len() && self.points@[v] == oldp[w];
                    };
                };
            };
        }
    }

    /// Replaces the selection with the single point at the given index
    /// of the document order.
    fn select_only_index(&mut self, idx: usize)
        requires
            old(self).wf(),
            idx < old(self).points@.len(),
        ensures
            final(self).wf(),
            old(self).same_doc(*final(self)),
            final(self).selection.seq() == seq![old(self).points@[idx as int].id],
    {
        let id = self.points[idx].id;
        self.selection.set_one(id);
    }

    /// Advances the selection to the next entity in document order,
    /// wrapping at the end; from an empty selection, to the first entity.
    pub fn select_next(&mut self)
        requires
            old(self).wf(),
        ensures
            final(self).wf(),
            tab_next(*old(self), *final(self)),
    {
        let n = self.points.len();
        if n == 0 {
            return ;
        }
        let idx = match self.first_selected_index() {
            Some(i) => if i + 1 == n {
                0
            } else {
                i + 1
            },
            None => 0,
        };
        self.select_only_index(idx);
    }

    /// Moves the selection to the previous entity in document order,
    /// wrapping at the start; from an empty selection, to the last entity.
    pub fn select_prev(&mut self)
        requires
            old(self).wf(),
        ensures
            final(self).wf(),
            tab_prev(*old(self), *final(self)),
    {
        let n = self.points.len();
        if n == 0 {
            return ;
        }
        let idx = match self.first_selected_index() {
            Some(i) => if i == 0 {
                n - 1
            } else {
                i - 1
            },
            None => n - 1,
        };
        self.select_only_index(idx);
    }

    /// The index of the first selected point in document order.
    fn first_selected_index(&self) -> (r: Option<usize>)
        requires
            self.wf(),
        ensures
            match r {
                Some(i) => i < self.points@.len() && first_selected_from(
                    self.points@,
                    self.selection.to_set(),
                    0,
                ) == Some(i as int),
                None => first_selected_from(self.points@, self.selection.to_set(), 0)
                    is None,
            },
    {
        let n = self.points.len();
        let mut i: usize = 0;
        while i < n
            invariant
                self.wf(),
                n == self.points@.len(),
                i <= n,
                first_selected_from(self.points@, self.selection.to_set(), 0)
                    == first_selected_from(self.points@, self.selection.to_set(), i as int),
            decreases n - i,
        {
            if self.selection.contains(self.points[i].id) {
                return Some(i);
            }
            i += 1;
        }
        None
    }

    /// Flips the smooth/corner classification of every selected on-curve
    /// point.
    pub fn toggle_selected_on_curve_type(&mut self)
        requires
            old(self).wf(),
        ensures
            final(self).wf(),
            final(self).points@.len() == old(self).points@.len(),
            forall|i: int|
                0 <= i < old(self).points@.len() ==> #[trigger] final(self).points@[i]
                    == curve_type_toggled(old(self).points@[i], old(self).selection.to_set()),
            final(self).selection == old(self).selection,
            final(self).segments == old(self).segments,
            final(self).viewport == old(self).viewport,
            final(self).next_id == old(self).next_id,
    {
        let n = self.points.len();
        let mut i: usize = 0;
        while i < n
            invariant
                old(self).wf(),
                n == self.points@.len(),
                i <= n,
                self.points@.len() == old(self).points@.len(),
                self.selection == old(self).selection,
                self.segments == old(self).segments,
                self.viewport == old(self).viewport,
                self.next_id == old(self).next_id,
                forall|j: int| i <= j < n ==> #[trigger] self.points@[j] == old(self).points@[j],
                forall|j: int|
                    0 <= j < i ==> #[trigger] self.points@[j] == curve_type_toggled(
                        old(self).points@[j],
                        old(self).selection.to_set(),
                    ),
            decreases n - i,
        {
            let p = self.points[i];
            match p.typ {
                PointType::OnCurve { smooth } => {
                    if self.selection.contains(p.id) {
                        self.points[i] = PathPoint {
                            id: p.id,
                            pos: p.pos,
                            typ: PointType::OnCurve { smooth: !smooth },
                            path_id: p.path_id,
                        };
                    }
                }
                _ => {}
            }
            i += 1;
        }
        proof {
            lemma_same_ids_keeps_wf(*old(self), *self);
        }
    }

    /// Toggles the orientation of the guide with the given id. The screen
    /// position is accepted for interface parity but the toggle depends on
    /// the guide alone.
    pub fn toggle_guide(&mut self, id: EntityId, _pos: SPoint)
        requires
            old(self).wf(),
        ensures
            final(self).wf(),
            final(self).points@.len() == old(self).points@.len(),
            forall|i: int|
                0 <= i < old(self).points@.len() ==> #[trigger] final(self).points@[i] == (
                if old(self).points@[i].id == id {
                    guide_toggled(old(self).points@[i])
                } else {
                    old(self).points@[i]
                }),
            final(self).selection == old(self).selection,
            final(self).segments == old(self).segments,
            final(self).viewport == old(self).viewport,
            final(self).next_id == old(self).next_id,
    {
        let n = self.points.len();
        let mut i: usize = 0;
        while i < n
            invariant
                old(self).wf(),
                n == self.points@.len(),
                i <= n,
                self.points@.len() == old(self).points@.len(),
                self.selection == old(self).selection,
                self.segments == old(self).segments,
                self.viewport == old(self).viewport,
                self.next_id == old(self).next_id,
                forall|j: int| i <= j < n ==> #[trigger] self.points@[j] == old(self).points@[j],
                forall|j: int|
                    0 <= j < i ==> #[trigger] self.points@[j] == (if old(self).points@[j].id == id {
                        guide_toggled(old(self).points@[j])
                    } else {
                        old(self).points@[j]
                    }),
            decreases n - i,
        {
            let p = self.points[i];
            if p.id == id {
                match p.typ {
                    PointType::Guide { horizontal } => {
                        self.points[i] = PathPoint {
                            id: p.id,
                            pos: p.pos,
                            typ: PointType::Guide { horizontal: !horizontal },
                            path_id: p.path_id,
                        };
                    }
                    _ => {}
                }
            }
            i += 1;
        }
        proof {
            lemma_same_ids_keeps_wf(*old(self), *self);
        }
    }

    /// Which path a double click at this position selects: the path of the
    /// hit point, or of the hit segment's start point; a hit guide selects
    /// none.
    pub open spec fn path_target(self, pos: SPoint) -> Option<u64> {
        match self.first_point_hit(pos) {
            Some(id) => if !id.guide {
                Some(self.spec_point_for_id(id).path_id)
            } else {
                None
            },
            None => match self.first_seg_hit(pos) {
                Some(seg) => Some(self.spec_point_for_id(seg.start_spec()).path_id),
                None => None,
            },
        }
    }

    /// Every path point (not guide) of the given path.
    pub open spec fn path_members(self, pid: u64) -> Set<EntityId> {
        Set::new(
            |id: EntityId|
                exists|i: int|
                    0 <= i < self.points@.len() && (#[trigger] self.points@[i]).id == id
                        && self.points@[i].path_id == pid && !id.guide,
        )
    }

    /// Selects the whole path under the pointer; additive keeps the current
    /// selection, otherwise the path replaces it. With nothing under the
    /// pointer the selection is untouched.
    pub fn select_path(&mut self, pos: SPoint, additive: bool)
        requires
            old(self).wf(),
            pos.wf(),
        ensures
            final(self).wf(),
            old(self).same_doc(*final(self)),
            match old(self).path_target(pos) {
                Some(pid) => final(self).selection.to_set() == if additive {
                    old(self).selection.to_set().union(old(self).path_members(pid))
                } else {
                    old(self).path_members(pid)
                },
                None => final(self).selection == old(self).selection,
            },
    {
        let target: Option<u64> = match self.hit_test_all(pos) {
            Some(id) => if !id.is_guide() {
                match self.path_point_for_id(id) {
                    Some(p) => Some(p.path_id),
                    None => unreached(),
                }
            } else {
                None
            },
            None => match self.hit_test_segments(pos) {
                Some(seg) => {
                    proof {
                        let k = choose|k: int|
                            0 <= k < self.segments@.len() && self.segments@[k] == seg;
                        assert(self.seg_wf(seg));
                        assert(seg.ids_spec()[0] == seg.start_spec());
                        assert(self.has_point(seg.start_spec()));
                    }
                    match self.path_point_for_id(seg.start()) {
                        Some(p) => Some(p.path_id),
                        None => unreached(),
                    }
                }
                None => None,
            },
        };
        let pid = match target {
            Some(pid) => pid,
            None => {
                return ;
            }
        };
        let n = self.points.len();
        let mut members: Vec<EntityId> = Vec::new();
        let mut i: usize = 0;
        while i < n
            invariant
                self.wf(),
                n == self.points@.len(),
                i <= n,
                forall|e: EntityId| #[trigger] members@.contains(e) <==> exists|j: int|
                    0 <= j < i && (#[trigger] self.points@[j]).id == e
                        && self.points@[j].path_id == pid && !e.guide,
            decreases n - i,
        {
            let p = self.points[i];
            let ghost before = members@;
            if p.path_id == pid && !p.id.is_guide() {
                members.push(p.id);
                proof {
                    assert forall|e: EntityId| #[trigger] members@.contains(e) implies exists|j: int|
                        0 <= j < i + 1 && (#[trigger] self.points@[j]).id == e
                            && self.points@[j].path_id == pid && !e.guide by {
                        let m = choose|m: int| 0 <= m < members@.len() && members@[m] == e;
                        if m < before.len() {
                            assert(before[m] == e);
                            assert(before.contains(e));
                        } else {
                            assert(e == p.id);
                            assert(self.points@[i as int].id == e);
                        }
                    };
                    assert forall|e: EntityId|
                        (exists|j: int|
                            0 <= j < i + 1 && (#[trigger] self.points@[j]).id == e
                                && self.points@[j].path_id == pid && !e.guide)
                        implies #[trigger] members@.contains(e) by {
                        let j = choose|j: int|
                            0 <= j < i + 1 && (#[trigger] self.points@[j]).id == e
                                && self.points@[j].path_id == pid && !e.guide;
                        if j < i {
                            assert(before.contains(e));
                            let m = choose|m: int| 0 <= m < before.len() && before[m] == e;
                            assert(members@[m] == e);
                        } else {
                            assert(members@[before.len() as int] == e);
                        }
                    };
                }
            } else {
                proof {
                    assert forall|e: EntityId|
                        (exists|j: int|
                            0 <= j < i + 1 && (#[trigger] self.points@[j]).id == e
                                && self.points@[j].path_id == pid && !e.guide)
                        implies #[trigger] members@.contains(e) by {
                        let j = choose|j: int|
                            0 <= j < i + 1 && (#[trigger] self.points@[j]).id == e
                                && self.points@[j].path_id == pid && !e.guide;
                        assert(j < i);
                    };
                }
            }
            i += 1;
        }
        proof {
            assert(members@.to_set() =~= self.path_members(pid));
        }
        if additive {
            self.selection.extend(&members);
        } else {
            self.selection.clear();
            self.selection.extend(&members);
            proof {
                assert(Set::<EntityId>::empty().union(members@.to_set()) =~= members@.to_set());
            }
        }
    }

    /// Promotes a straight line segment to a curve segment in place: two
    /// fresh off-curve handles are added at the endpoints' positions, and
    /// the segment is replaced by the cubic over them. When the id space is
    /// exhausted nothing changes.
    pub fn upgrade_line_seg(&mut self, seg: Segment)
        requires
            old(self).wf(),
            old(self).segments@.contains(seg),
            seg.is_line(),
        ensures
            final(self).wf(),
            upgrade_post(*old(self), *final(self), seg),
    {
        if self.next_id > u64::MAX - 2 {
            return ;
        }
        proof {
            assert(self.seg_wf(seg)) by {
                let k = choose|k: int| 0 <= k < self.segments@.len() && self.segments@[k] == seg;
            };
            assert(seg.ids_spec()[0] == seg.start_spec());
            assert(seg.ids_spec()[seg.ids_spec().len() - 1] == seg.end_spec());
            assert(self.has_point(seg.start_spec()));
            assert(self.has_point(seg.end_spec()));
        }
        let a = match self.path_point_for_id(seg.start()) {
            Some(p) => p,
            None => unreached(),
        };
        let b = match self.path_point_for_id(seg.end()) {
            Some(p) => p,
            None => unreached(),
        };
        let c1 = PathPoint {
            id: EntityId { num: self.next_id, guide: false },
            pos: a.pos,
            typ: PointType::OffCurve,
            path_id: a.path_id,
        };
        let c2 = PathPoint {
            id: EntityId { num: self.next_id + 1, guide: false },
            pos: b.pos,
            typ: PointType::OffCurve,
            path_id: a.path_id,
        };
        let newseg = Segment::Cubic {
            start: seg.start(),
            ctrl1: c1.id,
            ctrl2: c2.id,
            end: seg.end(),
        };
        let m = self.segments.len();
        let mut s: usize = 0;
        proof {
            let k = choose|k: int| 0 <= k < self.segments@.len() && self.segments@[k] == seg;
        }
        while s < m
            invariant
                old(self) == self,
                old(self).wf(),
                self.next_id <= u64::MAX - 2,
                seg.is_line(),
                self.segments@.contains(seg),
                self.has_point(seg.start_spec()),
                self.has_point(seg.end_spec()),
                c1 == (PathPoint {
                    id: EntityId { num: self.next_id, guide: false },
                    pos: self.spec_point_for_id(seg.start_spec()).pos,
                    typ: PointType::OffCurve,
                    path_id: self.spec_point_for_id(seg.start_spec()).path_id,
                }),
                c2 == (PathPoint {
                    id: EntityId { num: (self.next_id + 1) as u64, guide: false },
                    pos: self.spec_point_for_id(seg.end_spec()).pos,
                    typ: PointType::OffCurve,
                    path_id: self.spec_point_for_id(seg.start_spec()).path_id,
                }),
                newseg == (Segment::Cubic {
                    start: seg.start_spec(),
                    ctrl1: c1.id,
                    ctrl2: c2.id,
                    end: seg.end_spec(),
                }),
                m == self.segments@.len(),
                s <= m,
                exists|k: int| s <= k < m && self.segments@[k] == seg,
                first_eq_seg_from(self.segments@, seg, 0) == first_eq_seg_from(
                    self.segments@,
                    seg,
                    s as int,
                ),
            decreases m - s,
        {
            let cand = self.segments[s];
            if cand == seg {
                let ghost oldsess = *self;
                self.points.push(c1);
                self.points.push(c2);
                self.segments[s] = newseg;
                self.next_id = self.next_id + 2;
                proof {
                    lemma_upgrade_keeps_wf(oldsess, *self, seg, newseg, c1, c2, s as int);
                }
                return ;
            }
            proof {
                let k = choose|k: int| s <= k < m && self.segments@[k] == seg;
                assert(k > s);
            }
            s += 1;
        }
        proof {
            assert(false);
        }
    }

    /// An empty session over the given viewport.
    pub fn new(viewport: Viewport) -> (r: EditSession)
        requires
            viewport.wf(),
        ensures
            r.wf(),
            r.points@ == Seq::<PathPoint>::empty(),
            r.segments@ == Seq::<Segment>::empty(),
            r.selection.seq() == Seq::<EntityId>::empty(),
            r.selection.to_set() == Set::<EntityId>::empty(),
            r.viewport == viewport,
            r.next_id == 0,
    {
        EditSession {
            points: Vec::new(),
            segments: Vec::new(),
            selection: Selection::new(),
            viewport,
            next_id: 0,
        }
    }

    /// Adds a point with a fresh id; `None` when the id space is exhausted.
    pub fn add_point(&mut self, pos: DPoint, typ: PointType, path_id: u64) -> (r: Option<
        EntityId,
    >)
        requires
            old(self).wf(),
            pos.wf(),
        ensures
            final(self).wf(),
            old(self).next_id < u64::MAX ==> {
                let id = EntityId { num: old(self).next_id, guide: typ.is_guide() };
                &&& r == Some(id)
                &&& final(self).points@ == old(self).points@.push(
                    PathPoint { id, pos, typ, path_id },
                )
                &&& final(self).next_id == old(self).next_id + 1
                &&& final(self).segments == old(self).segments
                &&& final(self).selection == old(self).selection
                &&& final(self).viewport == old(self).viewport
            },
            old(self).next_id == u64::MAX ==> r is None && *final(self) == *old(self),
    {
        if self.next_id == u64::MAX {
            return None;
        }
        let id = EntityId { num: self.next_id, guide: matches!(typ, PointType::Guide { .. }) };
        let p = PathPoint { id, pos, typ, path_id };
        let ghost pre = *self;
        self.points.push(p);
        self.next_id = self.next_id + 1;
        proof {
            let pts = self.points@;
            assert forall|i: int| 0 <= i < pts.len() implies (#[trigger] pts[i]).wf() by {
                if i < pts.len() - 1 {
                    assert(pts[i] == pre.points@[i]);
                }
            };
            assert forall|i: int, j: int| 0 <= i < j < pts.len()
                implies (#[trigger] pts[i]).id.num != (#[trigger] pts[j]).id.num by {
                if j < pts.len() - 1 {
                    assert(pre.points@[i].id.num != pre.points@[j].id.num);
                } else if i < pts.len() - 1 {
                    assert(pts[i].id.num < pre.next_id);
                }
            };
            assert forall|i: int| 0 <= i < pts.len() implies (#[trigger] pts[i]).id.num
                < self.next_id by {
                if i < pts.len() - 1 {
                    assert(pts[i] == pre.points@[i]);
                }
            };
            assert forall|t: int| 0 <= t < self.segments@.len()
                implies self.seg_wf(#[trigger] self.segments@[t]) by {
                assert(pre.seg_wf(pre.segments@[t]));
                assert forall|q: int| 0 <= q < self.segments@[t].ids_spec().len()
                    implies self.has_point(#[trigger] self.segments@[t].ids_spec()[q]) by {
                    let eid = self.segments@[t].ids_spec()[q];
                    let k = choose|k: int|
                        0 <= k < pre.points@.len() && pre.points@[k].id == eid;
                    assert(pts[k].id == eid);
                };
            };
        }
        Some(id)
    }

    /// Adds a segment over points already in the document; reports whether
    /// all its defining points were present (otherwise nothing changes).
    pub fn add_segment(&mut self, seg: Segment) -> (r: bool)
        requires
            old(self).wf(),
        ensures
            final(self).wf(),
            r == old(self).seg_wf(seg),
            r ==> final(self).segments@ == old(self).segments@.push(seg)
                && final(self).points == old(self).points
                && final(self).selection == old(self).selection
                && final(self).viewport == old(self).viewport
                && final(self).next_id == old(self).next_id,
            !r ==> *final(self) == *old(self),
    {
        let ids = seg.ids();
        let n = ids.len();
        let mut i: usize = 0;
        while i < n
            invariant
                old(self) == self,
                self.wf(),
                n == ids@.len(),
                ids@ == seg.ids_spec(),
                i <= n,
                forall|j: int| 0 <= j < i ==> self.has_point(#[trigger] ids@[j]),
            decreases n - i,
        {
            match self.path_point_for_id(ids[i]) {
                Some(_) => {}
                None => {
                    proof {
                        assert(!self.seg_wf(seg)) by {
                            assert(!self.has_point(seg.ids_spec()[i as int]));
                        };
                    }
                    return false;
                }
            }
            i += 1;
        }
        let ghost pre = *self;
        self.segments.push(seg);
        proof {
            assert(pre.seg_wf(seg));
            assert forall|t: int| 0 <= t < self.segments@.len()
                implies self.seg_wf(#[trigger] self.segments@[t]) by {
                if t < self.segments@.len() - 1 {
                    assert(pre.seg_wf(pre.segments@[t]));
                    assert(self.segments@[t] == pre.segments@[t]);
                } else {
                    assert(self.segments@[t] == seg);
                }
            };
        }
        true
    }
}

/// Is any id of the group selected?
fn any_selected(sel: &Selection, ids: &Vec<EntityId>) -> (r: bool)
    ensures
        r == exists|k: int| 0 <= k < ids@.len() && sel.to_set().contains(#[trigger] ids@[k]),
{
    let n = ids.len();
    let mut i: usize = 0;
    while i < n
        invariant
            n == ids@.len(),
            i <= n,
            forall|j: int| 0 <= j < i ==> !sel.to_set().contains(#[trigger] ids@[j]),
        decreases n - i,
    {
        if sel.contains(ids[i]) {
            return true;
        }
        i += 1;
    }
    false
}

/// The points that survive deleting a selection, in document order.
pub open spec fn kept_points(s: Seq<PathPoint>, sel: Set<EntityId>) -> Seq<PathPoint>
    decreases s.len(),
{
    if s.len() == 0 {
        Seq::<PathPoint>::empty()
    } else {
        let rest = kept_points(s.drop_last(), sel);
        if !sel.contains(s.last().id) {
            rest.push(s.last())
        } else {
            rest
        }
    }
}

/// Does a segment survive deleting this selection? It must lose none of its
/// defining points.
pub open spec fn seg_kept(seg: Segment, sel: Set<EntityId>) -> bool {
    forall|k: int| 0 <= k < seg.ids_spec().len() ==> !sel.contains(#[trigger] seg.ids_spec()[k])
}

/// The segments that survive deleting a selection, in document order.
pub open spec fn kept_segments(s: Seq<Segment>, sel: Set<EntityId>) -> Seq<Segment>
    decreases s.len(),
{
    if s.len() == 0 {
        Seq::<Segment>::empty()
    } else {
        let rest = kept_segments(s.drop_last(), sel);
        if seg_kept(s.last(), sel) {
            rest.push(s.last())
        } else {
            rest
        }
    }
}

/// What survives is what was there and was not selected.
pub proof fn lemma_kept_points_props(s: Seq<PathPoint>, sel: Set<EntityId>)
    ensures
        forall|j: int| 0 <= j < kept_points(s, sel).len()
            ==> s.contains(#[trigger] kept_points(s, sel)[j])
                && !sel.contains(kept_points(s, sel)[j].id),
        forall|e: PathPoint| s.contains(e) && !sel.contains(e.id)
            ==> #[trigger] kept_points(s, sel).contains(e),
    decreases s.len(),
{
    let out = kept_points(s, sel);
    if s.len() > 0 {
        lemma_kept_points_props(s.drop_last(), sel);
        let rest = kept_points(s.drop_last(), sel);
        assert forall|j: int| 0 <= j < out.len()
            implies s.contains(#[trigger] out[j]) && !sel.contains(out[j].id) by {
            if j < rest.len() {
                assert(out[j] == rest[j]);
                assert(s.drop_last().contains(rest[j]));
                let k = choose|k: int|
                    0 <= k < s.drop_last().len() && s.drop_last()[k] == rest[j];
                assert(s[k] == rest[j]);
            } else {
                assert(s[s.len() - 1] == out[j]);
            }
        };
        assert forall|e: PathPoint| s.contains(e) && !sel.contains(e.id)
            implies #[trigger] out.contains(e) by {
            let k = choose|k: int| 0 <= k < s.len() && s[k] == e;
            if k < s.len() - 1 {
                assert(s.drop_last()[k] == e);
                assert(rest.contains(e));
                let j = choose|j: int| 0 <= j < rest.len() && rest[j] == e;
                assert(out[j] == e);
            } else {
                assert(!sel.contains(s.last().id));
                assert(out[out.len() - 1] == e);
            }
        };
    }
}

/// The same for segments.
pub proof fn lemma_kept_segments_props(s: Seq<Segment>, sel: Set<EntityId>)
    ensures
        forall|j: int| 0 <= j < kept_segments(s, sel).len()
            ==> s.contains(#[trigger] kept_segments(s, sel)[j])
                && seg_kept(kept_segments(s, sel)[j], sel),
        forall|e: Segment| s.contains(e) && seg_kept(e, sel)
            ==> #[trigger] kept_segments(s, sel).contains(e),
    decreases s.len(),
{
    let out = kept_segments(s, sel);
    if s.len() > 0 {
        lemma_kept_segments_props(s.drop_last(), sel);
        let rest = kept_segments(s.drop_last(), sel);
        assert forall|j: int| 0 <= j < out.len()
            implies s.contains(#[trigger] out[j]) && seg_kept(out[j], sel) by {
            if j < rest.len() {
                assert(out[j] == rest[j]);
                assert(s.drop_last().contains(rest[j]));
                let k = choose|k: int|
                    0 <= k < s.drop_last().len() && s.drop_last()[k] == rest[j];
                assert(s[k] == rest[j]);
            } else {
                assert(s[s.len() - 1] == out[j]);
            }
        };
        assert forall|e: Segment| s.contains(e) && seg_kept(e, sel)
            implies #[trigger] out.contains(e) by {
            let k = choose|k: int| 0 <= k < s.len() && s[k] == e;
            if k < s.len() - 1 {
                assert(s.drop_last()[k] == e);
                assert(rest.contains(e));
                let j = choose|j: int| 0 <= j < rest.len() && rest[j] == e;
                assert(out[j] == e);
            } else {
                assert(out[out.len() - 1] == e);
            }
        };
    }
}

/// Surviving points keep pairwise-distinct id numbers.
pub proof fn lemma_kept_points_distinct(s: Seq<PathPoint>, sel: Set<EntityId>)
    requires
        forall|i: int, j: int|
            0 <= i < j < s.len() ==> (#[trigger] s[i]).id.num != (#[trigger] s[j]).id.num,
    ensures
        forall|i: int, j: int|
            0 <= i < j < kept_points(s, sel).len()
                ==> (#[trigger] kept_points(s, sel)[i]).id.num
                    != (#[trigger] kept_points(s, sel)[j]).id.num,
    decreases s.len(),
{
    let out = kept_points(s, sel);
    if s.len() > 0 {
        lemma_kept_points_distinct(s.drop_last(), sel);
        lemma_kept_points_props(s.drop_last(), sel);
        let rest = kept_points(s.drop_last(), sel);
        if !sel.contains(s.last().id) {
            assert(out == rest.push(s.last()));
            assert forall|i: int, j: int| 0 <= i < j < out.len()
                implies (#[trigger] out[i]).id.num != (#[trigger] out[j]).id.num by {
                if j == out.len() - 1 {
                    assert(out[j] == s.last());
                    assert(out[i] == rest[i]);
                    assert(s.drop_last().contains(rest[i]));
                    let k = choose|k: int|
                        0 <= k < s.drop_last().len() && s.drop_last()[k] == rest[i];
                    assert(s[k] == out[i]);
                    assert(s[s.len() - 1] == s.last());
                }
            };
        }
    }
}

/// The first selected index in document order, from `i` on.
pub open spec fn first_selected_from(points: Seq<PathPoint>, sel: Set<EntityId>, i: int) -> Option<
    int,
>
    decreases points.len() - i,
{
    if i < 0 || i >= points.len() {
        None
    } else if sel.contains(points[i].id) {
        Some(i)
    } else {
        first_selected_from(points, sel, i + 1)
    }
}

/// Where Tab moves the selection: one past the first selected entity,
/// wrapping; or the first entity when nothing is selected.
pub open spec fn next_sel_index(points: Seq<PathPoint>, sel: Set<EntityId>) -> int {
    match first_selected_from(points, sel, 0) {
        Some(i) => if i + 1 == points.len() {
            0
        } else {
            i + 1
        },
        None => 0,
    }
}

/// Where Shift-Tab moves the selection: one before the first selected
/// entity, wrapping; or the last entity when nothing is selected.
pub open spec fn prev_sel_index(points: Seq<PathPoint>, sel: Set<EntityId>) -> int {
    match first_selected_from(points, sel, 0) {
        Some(i) => if i == 0 {
            points.len() - 1
        } else {
            i - 1
        },
        None => points.len() - 1,
    }
}

/// A double click on a selection of on-curve points flips their
/// smooth/corner classification; everything else is untouched.
pub open spec fn curve_type_toggled(p: PathPoint, sel: Set<EntityId>) -> PathPoint {
    match p.typ {
        PointType::OnCurve { smooth } => if sel.contains(p.id) {
            PathPoint { id: p.id, pos: p.pos, typ: PointType::OnCurve { smooth: !smooth }, path_id: p.path_id }
        } else {
            p
        },
        _ => p,
    }
}

/// A double click on a guide flips its orientation.
pub open spec fn guide_toggled(p: PathPoint) -> PathPoint {
    match p.typ {
        PointType::Guide { horizontal } => PathPoint {
            id: p.id,
            pos: p.pos,
            typ: PointType::Guide { horizontal: !horizontal },
            path_id: p.path_id,
        },
        _ => p,
    }
}

/// A pointwise change that keeps every point's id, position range and
/// guide tag keeps the session invariant.
proof fn lemma_same_ids_keeps_wf(pre: EditSession, post: EditSession)
    requires
        pre.wf(),
        post.points@.len() == pre.points@.len(),
        forall|i: int|
            0 <= i < pre.points@.len() ==> {
                let p = #[trigger] pre.points@[i];
                let q = post.points@[i];
                q.id == p.id && q.pos == p.pos && q.typ.is_guide() == p.typ.is_guide()
            },
        post.selection == pre.selection,
        post.segments == pre.segments,
        post.viewport == pre.viewport,
        post.next_id == pre.next_id,
    ensures
        post.wf(),
{
    assert forall|i: int| 0 <= i < post.points@.len()
        implies (#[trigger] post.points@[i]).wf() by {
        assert(pre.points@[i].wf());
    };
    assert forall|i: int, j: int| 0 <= i < j < post.points@.len()
        implies (#[trigger] post.points@[i]).id.num != (#[trigger] post.points@[j]).id.num by {
        assert(pre.points@[i].id.num != pre.points@[j].id.num);
    };
    assert forall|i: int| 0 <= i < post.points@.len()
        implies (#[trigger] post.points@[i]).id.num < post.next_id by {
        assert(pre.points@[i].id.num < pre.next_id);
    };
    assert(forall|id: EntityId| pre.has_point(id) ==> post.has_point(id)) by {
        assert forall|id: EntityId| pre.has_point(id) implies post.has_point(id) by {
            let k = choose|k: int| 0 <= k < pre.points@.len() && pre.points@[k].id == id;
            assert(post.points@[k].id == id);
        };
    };
    assert forall|s: int| 0 <= s < post.segments@.len()
        implies post.seg_wf(#[trigger] post.segments@[s]) by {
        assert(pre.seg_wf(pre.segments@[s]));
        assert(post.segments@[s] == pre.segments@[s]);
    };
}

/// The first index, from `i` on, whose segment equals the given one.
pub open spec fn first_eq_seg_from(segs: Seq<Segment>, seg: Segment, i: int) -> int
    decreases segs.len() - i,
{
    if i < 0 || i >= segs.len() {
        -1
    } else if segs[i] == seg {
        i
    } else {
        first_eq_seg_from(segs, seg, i + 1)
    }
}

/// What promoting a line segment to a curve does: with id space left, two
/// fresh off-curve handles at the endpoints' positions and the segment
/// replaced in place; otherwise nothing.
pub open spec fn upgrade_post(pre: EditSession, post: EditSession, seg: Segment) -> bool {
    if pre.next_id <= u64::MAX - 2 {
        let a = pre.spec_point_for_id(seg.start_spec());
        let b = pre.spec_point_for_id(seg.end_spec());
        let c1 = PathPoint {
            id: EntityId { num: pre.next_id, guide: false },
            pos: a.pos,
            typ: PointType::OffCurve,
            path_id: a.path_id,
        };
        let c2 = PathPoint {
            id: EntityId { num: (pre.next_id + 1) as u64, guide: false },
            pos: b.pos,
            typ: PointType::OffCurve,
            path_id: a.path_id,
        };
        let newseg = Segment::Cubic {
            start: seg.start_spec(),
            ctrl1: c1.id,
            ctrl2: c2.id,
            end: seg.end_spec(),
        };
        &&& post.points@ == pre.points@.push(c1).push(c2)
        &&& post.segments@ == pre.segments@.update(
            first_eq_seg_from(pre.segments@, seg, 0),
            newseg,
        )
        &&& post.next_id == pre.next_id + 2
        &&& post.selection == pre.selection
        &&& post.viewport == pre.viewport
    } else {
        post == pre
    }
}

/// The segment upgrade keeps the session invariant and meets its
/// description.
proof fn lemma_upgrade_keeps_wf(
    pre: EditSession,
    post: EditSession,
    seg: Segment,
    newseg: Segment,
    c1: PathPoint,
    c2: PathPoint,
    s: int,
)
    requires
        pre.wf(),
        pre.next_id <= u64::MAX - 2,
        0 <= s < pre.segments@.len(),
        pre.segments@[s] == seg,
        first_eq_seg_from(pre.segments@, seg, 0) == first_eq_seg_from(pre.segments@, seg, s),
        pre.segments@.contains(seg),
        pre.has_point(seg.start_spec()),
        pre.has_point(seg.end_spec()),
        c1 == (PathPoint {
            id: EntityId { num: pre.next_id, guide: false },
            pos: pre.spec_point_for_id(seg.start_spec()).pos,
            typ: PointType::OffCurve,
            path_id: pre.spec_point_for_id(seg.start_spec()).path_id,
        }),
        c2 == (PathPoint {
            id: EntityId { num: (pre.next_id + 1) as u64, guide: false },
            pos: pre.spec_point_for_id(seg.end_spec()).pos,
            typ: PointType::OffCurve,
            path_id: pre.spec_point_for_id(seg.start_spec()).path_id,
        }),
        newseg == (Segment::Cubic {
            start: seg.start_spec(),
            ctrl1: c1.id,
            ctrl2: c2.id,
            end: seg.end_spec(),
        }),
        post.points@ == pre.points@.push(c1).push(c2),
        post.segments@ == pre.segments@.update(s, newseg),
        post.next_id == pre.next_id + 2,
        post.selection == pre.selection,
        post.viewport == pre.viewport,
    ensures
        post.wf(),
        upgrade_post(pre, post, seg),
{
    let pts = post.points@;
    let n = pre.points@.len() as int;
    assert(pre.spec_point_for_id(seg.start_spec()).wf());
    assert(pre.spec_point_for_id(seg.end_spec()).wf());
    assert forall|i: int| 0 <= i < pts.len() implies (#[trigger] pts[i]).wf() by {
        if i < n {
            assert(pts[i] == pre.points@[i]);
        }
    };
    assert forall|i: int, j: int| 0 <= i < j < pts.len()
        implies (#[trigger] pts[i]).id.num != (#[trigger] pts[j]).id.num by {
        if j < n {
            assert(pre.points@[i].id.num != pre.points@[j].id.num);
        } else if i < n {
            assert(pts[i].id.num < pre.next_id);
        }
    };
    assert forall|i: int| 0 <= i < pts.len() implies (#[trigger] pts[i]).id.num
        < post.next_id by {
        if i < n {
            assert(pts[i] == pre.points@[i]);
        }
    };
    assert(forall|id: EntityId| pre.has_point(id) ==> post.has_point(id)) by {
        assert forall|id: EntityId| pre.has_point(id) implies post.has_point(id) by {
            let k = choose|k: int| 0 <= k < pre.points@.len() && pre.points@[k].id == id;
            assert(pts[k].id == id);
        };
    };
    assert(post.has_point(c1.id)) by {
        assert(pts[n].id == c1.id);
    };
    assert(post.has_point(c2.id)) by {
        assert(pts[n + 1].id == c2.id);
    };
    assert forall|t: int| 0 <= t < post.segments@.len()
        implies post.seg_wf(#[trigger] post.segments@[t]) by {
        if t == s {
            assert(post.segments@[t] == newseg);
            assert(newseg.ids_spec() =~= seq![
                seg.start_spec(),
                c1.id,
                c2.id,
                seg.end_spec(),
            ]);
            assert forall|q: int| 0 <= q < newseg.ids_spec().len()
                implies post.has_point(#[trigger] newseg.ids_spec()[q]) by {
                assert(newseg.ids_spec()[0] == seg.start_spec());
                assert(newseg.ids_spec()[1] == c1.id);
                assert(newseg.ids_spec()[2] == c2.id);
                assert(newseg.ids_spec()[3] == seg.end_spec());
            };
        } else {
            assert(post.segments@[t] == pre.segments@[t]);
            assert(pre.seg_wf(pre.segments@[t]));
        }
    };
    assert(first_eq_seg_from(pre.segments@, seg, s) == s);
}

/// What nudging the selection by a delta does: every selected point moves
/// by the delta (clamped into the coordinate range), everything else is
/// untouched.
pub open spec fn nudged(pre: EditSession, post: EditSession, delta: DVec2) -> bool {
    &&& post.points@.len() == pre.points@.len()
    &&& forall|i: int|
        0 <= i < pre.points@.len() ==> {
            let p = #[trigger] pre.points@[i];
            let q = post.points@[i];
            &&& q.id == p.id
            &&& q.typ == p.typ
            &&& q.path_id == p.path_id
            &&& q.pos == if pre.selection.to_set().contains(p.id) {
                DPoint {
                    x: clamp_coord(p.pos.x + delta.x) as i64,
                    y: clamp_coord(p.pos.y + delta.y) as i64,
                }
            } else {
                p.pos
            }
        }
    &&& post.selection == pre.selection
    &&& post.segments == pre.segments
    &&& post.viewport == pre.viewport
    &&& post.next_id == pre.next_id
}

/// What deleting the selection does: selected points go, segments that
/// lose a point go, the selection empties.
pub open spec fn deleted(pre: EditSession, post: EditSession) -> bool {
    &&& post.points@ == kept_points(pre.points@, pre.selection.to_set())
    &&& post.segments@ == kept_segments(pre.segments@, pre.selection.to_set())
    &&& post.selection.to_set() == Set::<EntityId>::empty()
    &&& post.selection.seq() == Seq::<EntityId>::empty()
    &&& post.viewport == pre.viewport
    &&& post.next_id == pre.next_id
}

/// What Tab does: the selection moves to the next entity in document
/// order.
pub open spec fn tab_next(pre: EditSession, post: EditSession) -> bool {
    &&& pre.same_doc(post)
    &&& pre.points@.len() == 0 ==> post.selection == pre.selection
    &&& pre.points@.len() > 0 ==> post.selection.seq() == seq![
        pre.points@[next_sel_index(pre.points@, pre.selection.to_set())].id,
    ]
}

/// What Shift-Tab does: the selection moves to the previous entity in
/// document order.
pub open spec fn tab_prev(pre: EditSession, post: EditSession) -> bool {
    &&& pre.same_doc(post)
    &&& pre.points@.len() == 0 ==> post.selection == pre.selection
    &&& pre.points@.len() > 0 ==> post.selection.seq() == seq![
        pre.points@[prev_sel_index(pre.points@, pre.selection.to_set())].id,
    ]
}

} // verus!