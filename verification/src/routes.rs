//! The drawn shape of a relation: a path of horizontal and vertical
//! segments between the ports of its two nodes, the marks at its ends, the
//! place of its label and the hops where it crosses other relations.
//!
//! Route coordinates are in eighths of a pixel, so that the middles of
//! nodes and of segments are whole.
use vstd::prelude::*;
use crate::concept_model::{NodeId, PortSide, RelationKind};
use crate::concepts::{opt_str_view, opt_view};
use crate::edge_router::{EdgePortAssignment, NodeBox, RouteEdge};

verus! {

/// Route units in a pixel.
pub const UNITS_PER_PIXEL: i128 = 8;

/// The length of the arrowhead of a generalisation, in pixels.
pub const ARROW_HEAD_LENGTH: i128 = 14;

/// The width of the arrowhead of a generalisation, in pixels.
pub const ARROW_HEAD_WIDTH: i128 = 14;

/// The length of the diamond of a composition, in pixels.
pub const DIAMOND_LENGTH: i128 = 14;

/// The width of the diamond of a composition, in pixels.
pub const DIAMOND_WIDTH: i128 = 14;

/// The length of the barb of a directed association, in pixels.
pub const HALF_ARROW_LENGTH: i128 = 10;

/// How far the barb of a directed association stands off the line, in pixels.
pub const HALF_ARROW_WIDTH: i128 = 6;

/// The distance between parallel routes, in pixels.
pub const CHANNEL_OFFSET: i128 = 14;

/// How far a route runs straight out of a port before it may turn, in
/// pixels, before the channel offset is added.
pub const STUB_LENGTH: i128 = 16;

/// How far beyond the outer stub a route turns round when it leaves and
/// enters on the same side, in pixels, before the channel offset is added.
pub const BEND_CLEARANCE: i128 = 20;

/// How far a label sits above a horizontal segment, in pixels.
pub const LABEL_LIFT: i128 = 10;

/// How close to the end of a segment a crossing may lie and still get no
/// hop, in pixels.
pub const BRIDGE_MARGIN: i128 = 2;

/// A point of a route.
#[derive(Debug, Clone, Copy, PartialEq, Eq, Structural)]
pub struct RoutePoint {
    pub x: i128,
    pub y: i128,
}

/// The arrowhead of a generalisation, touching the superclass.
#[derive(Debug, Clone, Copy, PartialEq, Eq, Structural)]
pub struct ArrowHead {
    pub tip: RoutePoint,
    pub left: RoutePoint,
    pub right: RoutePoint,
    pub direction: PortSide,
}

/// The diamond of a composition, touching the whole.
#[derive(Debug, Clone, Copy, PartialEq, Eq, Structural)]
pub struct Diamond {
    pub tip: RoutePoint,
    pub left: RoutePoint,
    pub right: RoutePoint,
    pub back: RoutePoint,
    pub direction: PortSide,
}

/// The single barb of a directed association.
#[derive(Debug, Clone, Copy, PartialEq, Eq, Structural)]
pub struct HalfArrow {
    pub tip: RoutePoint,
    pub barb: RoutePoint,
    pub direction: PortSide,
}

/// A hop where a horizontal segment of a route crosses a vertical segment
/// of another.
#[derive(Debug, Clone, Copy, PartialEq, Eq, Structural)]
pub struct BridgeHop {
    pub center: RoutePoint,
    pub is_horizontal: bool,
}

pub open spec fn point(x: int, y: int) -> RoutePoint {
    RoutePoint { x: x as i128, y: y as i128 }
}

/// The largest coordinate, in route units, that a point given to the
/// route builders may have.
pub open spec fn coordinate_limit() -> int {
    0x1_0000_0000_0000_0000_0000_0000
}

pub open spec fn within(p: RoutePoint) -> bool {
    near(p, coordinate_limit())
}

/// Whether a point lies within `lim` of the origin on both axes.
pub open spec fn near(p: RoutePoint, lim: int) -> bool {
    -lim <= p.x <= lim && -lim <= p.y <= lim
}

/// The point `d` units out from a side.
pub open spec fn away(p: RoutePoint, side: PortSide, d: int) -> RoutePoint {
    match side {
        PortSide::Top => point(p.x as int, p.y - d),
        PortSide::Bottom => point(p.x as int, p.y + d),
        PortSide::Left => point(p.x - d, p.y as int),
        PortSide::Right => point(p.x + d, p.y as int),
    }
}

fn away_exec(p: RoutePoint, side: PortSide, d: i128) -> (res: RoutePoint)
    requires
        within(p),
        0 <= d <= coordinate_limit(),
    ensures
        res == away(p, side, d as int),
{
    match side {
        PortSide::Top => RoutePoint { x: p.x, y: p.y - d },
        PortSide::Bottom => RoutePoint { x: p.x, y: p.y + d },
        PortSide::Left => RoutePoint { x: p.x - d, y: p.y },
        PortSide::Right => RoutePoint { x: p.x + d, y: p.y },
    }
}

/// The arrowhead with its tip on a side of the superclass, pointing into it.
pub open spec fn arrow_head(tip: RoutePoint, side: PortSide) -> ArrowHead {
    let len = ARROW_HEAD_LENGTH * UNITS_PER_PIXEL;
    let half_w = ARROW_HEAD_WIDTH * UNITS_PER_PIXEL / 2;
    let (l, r) = match side {
        PortSide::Bottom => (point(tip.x - half_w, tip.y + len), point(tip.x + half_w, tip.y + len)),
        PortSide::Top => (point(tip.x - half_w, tip.y - len), point(tip.x + half_w, tip.y - len)),
        PortSide::Left => (point(tip.x - len, tip.y - half_w), point(tip.x - len, tip.y + half_w)),
        PortSide::Right => (point(tip.x + len, tip.y - half_w), point(tip.x + len, tip.y + half_w)),
    };
    ArrowHead { tip, left: l, right: r, direction: side }
}

fn compute_arrow_head(tip: RoutePoint, side: PortSide) -> (res: ArrowHead)
    requires
        within(tip),
    ensures
        res == arrow_head(tip, side),
{
    let len = ARROW_HEAD_LENGTH * UNITS_PER_PIXEL;
    let half_w = ARROW_HEAD_WIDTH * UNITS_PER_PIXEL / 2;
    let (l, r) = match side {
        PortSide::Bottom => (
            RoutePoint { x: tip.x - half_w, y: tip.y + len },
            RoutePoint { x: tip.x + half_w, y: tip.y + len },
        ),
        PortSide::Top => (
            RoutePoint { x: tip.x - half_w, y: tip.y - len },
            RoutePoint { x: tip.x + half_w, y: tip.y - len },
        ),
        PortSide::Left => (
            RoutePoint { x: tip.x - len, y: tip.y - half_w },
            RoutePoint { x: tip.x - len, y: tip.y + half_w },
        ),
        PortSide::Right => (
            RoutePoint { x: tip.x + len, y: tip.y - half_w },
            RoutePoint { x: tip.x + len, y: tip.y + half_w },
        ),
    };
    ArrowHead { tip, left: l, right: r, direction: side }
}

/// The diamond with its tip on a side of the whole, lying outside it.
pub open spec fn diamond(tip: RoutePoint, side: PortSide) -> Diamond {
    let len = DIAMOND_LENGTH * UNITS_PER_PIXEL;
    let half_len = len / 2;
    let half_w = DIAMOND_WIDTH * UNITS_PER_PIXEL / 2;
    match side {
        PortSide::Right => Diamond {
            tip,
            left: point(tip.x + half_len, tip.y - half_w),
            right: point(tip.x + half_len, tip.y + half_w),
            back: point(tip.x + len, tip.y as int),
            direction: side,
        },
        PortSide::Left => Diamond {
            tip,
            left: point(tip.x - half_len, tip.y - half_w),
            right: point(tip.x - half_len, tip.y + half_w),
            back: point(tip.x - len, tip.y as int),
            direction: side,
        },
        PortSide::Top => Diamond {
            tip,
            left: point(tip.x - half_w, tip.y - half_len),
            right: point(tip.x + half_w, tip.y - half_len),
            back: point(tip.x as int, tip.y - len),
            direction: side,
        },
        PortSide::Bottom => Diamond {
            tip,
            left: point(tip.x - half_w, tip.y + half_len),
            right: point(tip.x + half_w, tip.y + half_len),
            back: point(tip.x as int, tip.y + len),
            direction: side,
        },
    }
}

fn compute_diamond(tip: RoutePoint, side: PortSide) -> (res: Diamond)
    requires
        within(tip),
    ensures
        res == diamond(tip, side),
{
    let len = DIAMOND_LENGTH * UNITS_PER_PIXEL;
    let half_len = len / 2;
    let half_w = DIAMOND_WIDTH * UNITS_PER_PIXEL / 2;
    match side {
        PortSide::Right => Diamond {
            tip,
            left: RoutePoint { x: tip.x + half_len, y: tip.y - half_w },
            right: RoutePoint { x: tip.x + half_len, y: tip.y + half_w },
            back: RoutePoint { x: tip.x + len, y: tip.y },
            direction: side,
        },
        PortSide::Left => Diamond {
            tip,
            left: RoutePoint { x: tip.x - half_len, y: tip.y - half_w },
            right: RoutePoint { x: tip.x - half_len, y: tip.y + half_w },
            back: RoutePoint { x: tip.x - len, y: tip.y },
            direction: side,
        },
        PortSide::Top => Diamond {
            tip,
            left: RoutePoint { x: tip.x - half_w, y: tip.y - half_len },
            right: RoutePoint { x: tip.x + half_w, y: tip.y - half_len },
            back: RoutePoint { x: tip.x, y: tip.y - len },
            direction: side,
        },
        PortSide::Bottom => Diamond {
            tip,
            left: RoutePoint { x: tip.x - half_w, y: tip.y + half_len },
            right: RoutePoint { x: tip.x + half_w, y: tip.y + half_len },
            back: RoutePoint { x: tip.x, y: tip.y + len },
            direction: side,
        },
    }
}

/// The barb of a directed association, with its tip on a side of the
/// target.
pub open spec fn half_arrow(tip: RoutePoint, side: PortSide) -> HalfArrow {
    let len = HALF_ARROW_LENGTH * UNITS_PER_PIXEL;
    let w = HALF_ARROW_WIDTH * UNITS_PER_PIXEL;
    let barb = match side {
        PortSide::Left => point(tip.x - len, tip.y - w),
        PortSide::Right => point(tip.x + len, tip.y - w),
        PortSide::Top => point(tip.x - w, tip.y - len),
        PortSide::Bottom => point(tip.x - w, tip.y + len),
    };
    HalfArrow { tip, barb, direction: side }
}

fn compute_half_arrow(tip: RoutePoint, side: PortSide) -> (res: HalfArrow)
    requires
        within(tip),
    ensures
        res == half_arrow(tip, side),
{
    let len = HALF_ARROW_LENGTH * UNITS_PER_PIXEL;
    let w = HALF_ARROW_WIDTH * UNITS_PER_PIXEL;
    let barb = match side {
        PortSide::Left => RoutePoint { x: tip.x - len, y: tip.y - w },
        PortSide::Right => RoutePoint { x: tip.x + len, y: tip.y - w },
        PortSide::Top => RoutePoint { x: tip.x - w, y: tip.y - len },
        PortSide::Bottom => RoutePoint { x: tip.x - w, y: tip.y + len },
    };
    HalfArrow { tip, barb, direction: side }
}

/// The distance of a channel from the ports, in route units: channels take
/// turns at three distances.
pub open spec fn channel_offset(channel: int) -> int {
    (channel % 3) * (CHANNEL_OFFSET * UNITS_PER_PIXEL)
}

pub open spec fn is_vertical_side(side: PortSide) -> bool {
    side == PortSide::Top || side == PortSide::Bottom
}

pub open spec fn max(a: int, b: int) -> int {
    if a >= b { a } else { b }
}

pub open spec fn min(a: int, b: int) -> int {
    if a <= b { a } else { b }
}

/// The corners of a route from `start`, which it leaves by `start_side`,
/// to `end`, which it enters by `end_side`: facing sides meet halfway
/// between their stubs, equal right or left sides bend round beyond the
/// outer stub, a vertical and a horizontal side meet at one corner, and
/// anything else runs out of both stubs and meets at one corner between
/// them.
pub open spec fn corner_points(
    start: RoutePoint,
    end: RoutePoint,
    start_side: PortSide,
    end_side: PortSide,
    channel: int,
) -> Seq<RoutePoint> {
    let co = channel_offset(channel);
    let stub = STUB_LENGTH * UNITS_PER_PIXEL + co;
    let s = away(start, start_side, stub);
    let e = away(end, end_side, stub);
    let middle = if (start_side == PortSide::Top && end_side == PortSide::Bottom) || (start_side
        == PortSide::Bottom && end_side == PortSide::Top) {
        let mid_y = (s.y + e.y) / 2;
        seq![point(start.x as int, mid_y), point(end.x as int, mid_y)]
    } else if (start_side == PortSide::Right && end_side == PortSide::Left) || (start_side == PortSide::Left
        && end_side == PortSide::Right) {
        let mid_x = (s.x + e.x) / 2;
        seq![point(mid_x, start.y as int), point(mid_x, end.y as int)]
    } else if start_side == PortSide::Right && end_side == PortSide::Right {
        let max_x = max(s.x as int, e.x as int) + BEND_CLEARANCE * UNITS_PER_PIXEL + co;
        seq![point(max_x, start.y as int), point(max_x, end.y as int)]
    } else if start_side == PortSide::Left && end_side == PortSide::Left {
        let min_x = min(s.x as int, e.x as int) - BEND_CLEARANCE * UNITS_PER_PIXEL - co;
        seq![point(min_x, start.y as int), point(min_x, end.y as int)]
    } else if is_vertical_side(start_side) && !is_vertical_side(end_side) {
        seq![point(start.x as int, end.y as int)]
    } else if !is_vertical_side(start_side) && is_vertical_side(end_side) {
        seq![point(end.x as int, start.y as int)]
    } else {
        seq![s, point(e.x as int, s.y as int), e]
    };
    seq![start] + middle + seq![end]
}

/// Whether a point between two others is kept: not where the three lie on
/// one horizontal or one vertical line.
pub open spec fn kept(prev: RoutePoint, curr: RoutePoint, next: RoutePoint) -> bool {
    !(prev.y == curr.y && curr.y == next.y) && !(prev.x == curr.x && curr.x == next.x)
}

/// The points kept of the first `i` (at least one), each inner one
/// compared with the last point kept before it and the point after it.
pub open spec fn kept_upto(pts: Seq<RoutePoint>, i: int) -> Seq<RoutePoint>
    decreases i,
{
    if i <= 1 {
        seq![pts[0]]
    } else {
        let s = kept_upto(pts, i - 1);
        if kept(s.last(), pts[i - 1], pts[i]) {
            s.push(pts[i - 1])
        } else {
            s
        }
    }
}

/// A path without the inner points that lie on a straight line between
/// their neighbours.
pub open spec fn simplified(pts: Seq<RoutePoint>) -> Seq<RoutePoint> {
    if pts.len() <= 2 {
        pts
    } else {
        kept_upto(pts, pts.len() - 1).push(pts.last())
    }
}

/// The path of a route.
pub open spec fn orthogonal_path(
    start: RoutePoint,
    end: RoutePoint,
    start_side: PortSide,
    end_side: PortSide,
    channel: int,
) -> Seq<RoutePoint> {
    simplified(corner_points(start, end, start_side, end_side, channel))
}

/// Whether two points lie on one horizontal or one vertical line.
pub open spec fn axis_aligned(p: RoutePoint, q: RoutePoint) -> bool {
    p.x == q.x || p.y == q.y
}

/// Whether every segment of a path is horizontal or vertical.
pub open spec fn orthogonal(pts: Seq<RoutePoint>) -> bool {
    forall|k: int| 0 <= k < pts.len() - 1 ==> #[trigger] axis_aligned(pts[k], pts[k + 1])
}

fn floor_half(v: i128) -> (res: i128)
    requires
        v > i128::MIN,
    ensures
        res == v / 2,
{
    if v >= 0 {
        let u: u128 = v as u128;
        (u / 2) as i128
    } else {
        let u: u128 = (-v) as u128;
        let h: u128 = (u + 1) / 2;
        -(h as i128)
    }
}

fn build_orthogonal_path(
    start: RoutePoint,
    end: RoutePoint,
    start_side: PortSide,
    end_side: PortSide,
    channel_index: usize,
) -> (res: Vec<RoutePoint>)
    requires
        within(start),
        within(end),
    ensures
        res@ == orthogonal_path(start, end, start_side, end_side, channel_index as int),
{
    let co: i128 = ((channel_index % 3) as i128) * (CHANNEL_OFFSET * UNITS_PER_PIXEL);
    let stub: i128 = STUB_LENGTH * UNITS_PER_PIXEL + co;
    let s = away_exec(start, start_side, stub);
    let e = away_exec(end, end_side, stub);
    let mut pts: Vec<RoutePoint> = Vec::new();
    pts.push(start);
    if (start_side == PortSide::Top && end_side == PortSide::Bottom) || (start_side == PortSide::Bottom && end_side
        == PortSide::Top) {
        let mid_y = floor_half(s.y + e.y);
        pts.push(RoutePoint { x: start.x, y: mid_y });
        pts.push(RoutePoint { x: end.x, y: mid_y });
    } else if (start_side == PortSide::Right && end_side == PortSide::Left) || (start_side == PortSide::Left
        && end_side == PortSide::Right) {
        let mid_x = floor_half(s.x + e.x);
        pts.push(RoutePoint { x: mid_x, y: start.y });
        pts.push(RoutePoint { x: mid_x, y: end.y });
    } else if start_side == PortSide::Right && end_side == PortSide::Right {
        let outer = if s.x >= e.x { s.x } else { e.x };
        let max_x = outer + BEND_CLEARANCE * UNITS_PER_PIXEL + co;
        pts.push(RoutePoint { x: max_x, y: start.y });
        pts.push(RoutePoint { x: max_x, y: end.y });
    } else if start_side == PortSide::Left && end_side == PortSide::Left {
        let outer = if s.x <= e.x { s.x } else { e.x };
        let min_x = outer - BEND_CLEARANCE * UNITS_PER_PIXEL - co;
        pts.push(RoutePoint { x: min_x, y: start.y });
        pts.push(RoutePoint { x: min_x, y: end.y });
    } else if start_side.is_vertical() && !end_side.is_vertical() {
        pts.push(RoutePoint { x: start.x, y: end.y });
    } else if !start_side.is_vertical() && end_side.is_vertical() {
        pts.push(RoutePoint { x: end.x, y: start.y });
    } else {
        pts.push(s);
        pts.push(RoutePoint { x: e.x, y: s.y });
        pts.push(e);
    }
    pts.push(end);
    proof {
        assert(pts@ =~= corner_points(start, end, start_side, end_side, channel_index as int));
    }
    simplify_path(pts)
}

fn simplify_path(points: Vec<RoutePoint>) -> (res: Vec<RoutePoint>)
    ensures
        res@ == simplified(points@),
{
    let n = points.len();
    if n <= 2 {
        return points;
    }
    let mut out: Vec<RoutePoint> = Vec::new();
    out.push(points[0]);
    let mut i: usize = 1;
    while i < n - 1
        invariant
            n == points@.len(),
            n > 2,
            1 <= i <= n - 1,
            out@ == kept_upto(points@, i as int),
        decreases n - 1 - i,
    {
        proof {
            lemma_kept_upto_nonempty(points@, i as int);
        }
        let prev = out[out.len() - 1];
        let curr = points[i];
        let next = points[i + 1];
        let collinear_h = prev.y == curr.y && curr.y == next.y;
        let collinear_v = prev.x == curr.x && curr.x == next.x;
        if !collinear_h && !collinear_v {
            out.push(curr);
        }
        i += 1;
    }
    out.push(points[n - 1]);
    out
}

proof fn lemma_kept_upto_nonempty(pts: Seq<RoutePoint>, i: int)
    ensures
        kept_upto(pts, i).len() >= 1,
    decreases i,
{
    if i > 1 {
        lemma_kept_upto_nonempty(pts, i - 1);
    }
}

proof fn lemma_corner_points_orthogonal(
    start: RoutePoint,
    end: RoutePoint,
    start_side: PortSide,
    end_side: PortSide,
    channel: int,
)
    ensures
        orthogonal(corner_points(start, end, start_side, end_side, channel)),
        corner_points(start, end, start_side, end_side, channel).len() >= 3,
        corner_points(start, end, start_side, end_side, channel)[0] == start,
        corner_points(start, end, start_side, end_side, channel).last() == end,
{
    let pts = corner_points(start, end, start_side, end_side, channel);
    assert forall|k: int| 0 <= k < pts.len() - 1 implies #[trigger] axis_aligned(pts[k], pts[k + 1]) by {
        if k == 0 {
            assert(axis_aligned(pts[0], pts[1]));
        }
    }
}

proof fn lemma_kept_upto_orthogonal(pts: Seq<RoutePoint>, i: int)
    requires
        orthogonal(pts),
        1 <= i < pts.len(),
    ensures
        orthogonal(kept_upto(pts, i)),
        kept_upto(pts, i).len() >= 1,
        kept_upto(pts, i)[0] == pts[0],
        axis_aligned(kept_upto(pts, i).last(), pts[i]),
    decreases i,
{
    let k = i - 1;
    assert(axis_aligned(pts[k], pts[k + 1]));
    if i > 1 {
        lemma_kept_upto_orthogonal(pts, i - 1);
        let s = kept_upto(pts, i - 1);
        if kept(s.last(), pts[i - 1], pts[i]) {
            let t = s.push(pts[i - 1]);
            assert forall|k: int| 0 <= k < t.len() - 1 implies #[trigger] axis_aligned(t[k], t[k + 1]) by {
                if k < s.len() - 1 {
                    assert(axis_aligned(s[k], s[k + 1]));
                }
            }
        }
    }
}

/// Every route runs from its first port to its second in horizontal and
/// vertical segments only.
pub proof fn routes_turn_at_right_angles(
    start: RoutePoint,
    end: RoutePoint,
    start_side: PortSide,
    end_side: PortSide,
    channel: int,
)
    ensures
        orthogonal(orthogonal_path(start, end, start_side, end_side, channel)),
        orthogonal_path(start, end, start_side, end_side, channel).len() >= 2,
        orthogonal_path(start, end, start_side, end_side, channel)[0] == start,
        orthogonal_path(start, end, start_side, end_side, channel).last() == end,
{
    let pts = corner_points(start, end, start_side, end_side, channel);
    lemma_corner_points_orthogonal(start, end, start_side, end_side, channel);
    let n = pts.len() as int;
    lemma_kept_upto_orthogonal(pts, n - 1);
    let s = kept_upto(pts, n - 1);
    let t = s.push(pts.last());
    assert forall|k: int| 0 <= k < t.len() - 1 implies #[trigger] axis_aligned(t[k], t[k + 1]) by {
        if k < s.len() - 1 {
            assert(axis_aligned(s[k], s[k + 1]));
        }
    }
}

/// A relation as it is drawn.
#[derive(Debug, Clone)]
pub struct RoutedEdge {
    pub from: NodeId,
    pub to: NodeId,
    pub kind: RelationKind,
    pub label: Option<String>,
    pub label_pos: Option<RoutePoint>,
    pub points: Vec<RoutePoint>,
    pub arrow_head: Option<ArrowHead>,
    pub half_arrow: Option<HalfArrow>,
    pub source_diamond: Option<Diamond>,
    pub bridges: Vec<BridgeHop>,
    pub from_side: PortSide,
    pub to_side: PortSide,
}

/// What a drawn relation holds.
pub struct RoutedView {
    pub from: NodeId,
    pub to: NodeId,
    pub kind: RelationKind,
    pub label: Option<Seq<char>>,
    pub label_pos: Option<RoutePoint>,
    pub points: Seq<RoutePoint>,
    pub arrow_head: Option<ArrowHead>,
    pub half_arrow: Option<HalfArrow>,
    pub source_diamond: Option<Diamond>,
    pub bridges: Seq<BridgeHop>,
    pub from_side: PortSide,
    pub to_side: PortSide,
}

impl View for RoutedEdge {
    type V = RoutedView;

    open spec fn view(&self) -> RoutedView {
        RoutedView {
            from: self.from,
            to: self.to,
            kind: self.kind,
            label: opt_view(self.label),
            label_pos: self.label_pos,
            points: self.points@,
            arrow_head: self.arrow_head,
            half_arrow: self.half_arrow,
            source_diamond: self.source_diamond,
            bridges: self.bridges@,
            from_side: self.from_side,
            to_side: self.to_side,
        }
    }
}

/// The point of a port: the middle of a side of the node, moved along the
/// side by the slot offset (in pixels).
pub open spec fn port_point(n: NodeBox, side: PortSide, slot_offset: int) -> RoutePoint {
    let cx = UNITS_PER_PIXEL * n.x + (UNITS_PER_PIXEL / 2) * n.width + UNITS_PER_PIXEL * slot_offset;
    let cy = UNITS_PER_PIXEL * n.y + (UNITS_PER_PIXEL / 2) * n.height + UNITS_PER_PIXEL * slot_offset;
    match side {
        PortSide::Top => point(cx, UNITS_PER_PIXEL * n.y),
        PortSide::Bottom => point(cx, UNITS_PER_PIXEL * (n.y + n.height)),
        PortSide::Left => point(UNITS_PER_PIXEL * n.x, cy),
        PortSide::Right => point(UNITS_PER_PIXEL * (n.x + n.width), cy),
    }
}

/// The largest slot offset, in pixels, that a route is built for.
pub open spec fn slot_offset_limit() -> int {
    0x1_0000_0000_0000_0000_0000
}

fn compute_port_point(n: &NodeBox, side: PortSide, slot_offset: i128) -> (res: RoutePoint)
    requires
        -slot_offset_limit() <= slot_offset <= slot_offset_limit(),
    ensures
        res == port_point(*n, side, slot_offset as int),
        near(res, coordinate_limit() / 64),
{
    let x = n.x as i128;
    let y = n.y as i128;
    let w = n.width as i128;
    let h = n.height as i128;
    assert(UNITS_PER_PIXEL / 2 == 4);
    let cx = UNITS_PER_PIXEL * x + 4 * w + UNITS_PER_PIXEL * slot_offset;
    let cy = UNITS_PER_PIXEL * y + 4 * h + UNITS_PER_PIXEL * slot_offset;
    match side {
        PortSide::Top => RoutePoint { x: cx, y: UNITS_PER_PIXEL * y },
        PortSide::Bottom => RoutePoint { x: cx, y: UNITS_PER_PIXEL * (y + h) },
        PortSide::Left => RoutePoint { x: UNITS_PER_PIXEL * x, y: cy },
        PortSide::Right => RoutePoint { x: UNITS_PER_PIXEL * (x + w), y: cy },
    }
}

pub open spec fn abs(v: int) -> int {
    if v < 0 { -v } else { v }
}

/// The length of a segment. The segments of a route are horizontal or
/// vertical ([`routes_turn_at_right_angles`]), so this is the distance
/// between its ends.
pub open spec fn segment_length(p: RoutePoint, q: RoutePoint) -> int {
    abs(q.x - p.x) + abs(q.y - p.y)
}

/// Where the label of a segment goes: its middle, lifted above it when it
/// is horizontal.
pub open spec fn label_point(p: RoutePoint, q: RoutePoint) -> RoutePoint {
    let lift = if p.y == q.y { LABEL_LIFT * UNITS_PER_PIXEL } else { 0 };
    point((p.x + q.x) / 2, (p.y + q.y) / 2 - lift)
}

/// The longest of the first `k` segments, the first of them where several
/// are longest, with the place of its label; zero and none where all are
/// empty.
pub open spec fn longest_upto(pts: Seq<RoutePoint>, k: int) -> (int, Option<RoutePoint>)
    decreases k,
{
    if k <= 0 {
        (0, None)
    } else {
        let best = longest_upto(pts, k - 1);
        let len = segment_length(pts[k - 1], pts[k]);
        if len > best.0 {
            (len, Some(label_point(pts[k - 1], pts[k])))
        } else {
            best
        }
    }
}

/// Where the label of a route goes: on its longest segment.
pub open spec fn label_position(pts: Seq<RoutePoint>) -> Option<RoutePoint> {
    if pts.len() < 2 {
        None
    } else {
        longest_upto(pts, pts.len() - 1).1
    }
}

/// Whether every point lies within `lim` of the origin on both axes.
pub open spec fn bounded_by(pts: Seq<RoutePoint>, lim: int) -> bool {
    forall|k: int| 0 <= k < pts.len() ==> -lim <= #[trigger] pts[k].x <= lim && -lim <= pts[k].y <= lim
}

proof fn lemma_longest_nonnegative(pts: Seq<RoutePoint>, k: int)
    ensures
        longest_upto(pts, k).0 >= 0,
    decreases k,
{
    if k > 0 {
        lemma_longest_nonnegative(pts, k - 1);
    }
}

proof fn lemma_longest_upto(pts: Seq<RoutePoint>, k: int)
    requires
        0 <= k < pts.len(),
    ensures
        forall|j: int| 1 <= j <= k ==> #[trigger] segment_length(pts[j - 1], pts[j]) <= longest_upto(pts, k).0,
        longest_upto(pts, k).0 == 0 ==> longest_upto(pts, k).1 is None,
        longest_upto(pts, k).0 != 0 ==> exists|j: int|
            1 <= j <= k && #[trigger] segment_length(pts[j - 1], pts[j]) == longest_upto(pts, k).0
                && longest_upto(pts, k).1 == Some(label_point(pts[j - 1], pts[j])) && forall|i: int|
                1 <= i < j ==> #[trigger] segment_length(pts[i - 1], pts[i]) < longest_upto(pts, k).0,
    decreases k,
{
    if k > 0 {
        lemma_longest_upto(pts, k - 1);
        lemma_longest_nonnegative(pts, k - 1);
        let len = segment_length(pts[k - 1], pts[k]);
        if len > longest_upto(pts, k - 1).0 {
            assert(segment_length(pts[k - 1], pts[k]) == longest_upto(pts, k).0);
        }
    }
}

/// The label of a route sits in the middle of a segment that no other
/// segment of the route is longer than, the first such segment; a route
/// whose segments are all empty gets no label place.
pub proof fn label_sits_on_a_longest_segment(pts: Seq<RoutePoint>)
    ensures
        (exists|k: int| 1 <= k < pts.len() && #[trigger] segment_length(pts[k - 1], pts[k]) > 0) ==> exists|k: int|
            1 <= k < pts.len() && label_position(pts) == Some(#[trigger] label_point(pts[k - 1], pts[k])) && forall|j: int|
                1 <= j < pts.len() ==> #[trigger] segment_length(pts[j - 1], pts[j]) <= segment_length(pts[k - 1], pts[k])
                    && (j < k ==> segment_length(pts[j - 1], pts[j]) < segment_length(pts[k - 1], pts[k])),
        (forall|k: int| 1 <= k < pts.len() ==> #[trigger] segment_length(pts[k - 1], pts[k]) == 0) ==> label_position(
            pts,
        ) is None,
{
    if pts.len() >= 2 {
        let last = pts.len() - 1;
        lemma_longest_upto(pts, last);
        lemma_longest_nonnegative(pts, last);
        let best = longest_upto(pts, last);
        if exists|k: int| 1 <= k < pts.len() && #[trigger] segment_length(pts[k - 1], pts[k]) > 0 {
            let k0 = choose|k: int| 1 <= k < pts.len() && #[trigger] segment_length(pts[k - 1], pts[k]) > 0;
            assert(segment_length(pts[k0 - 1], pts[k0]) <= best.0);
            let k = choose|j: int|
                1 <= j <= last && #[trigger] segment_length(pts[j - 1], pts[j]) == best.0 && best.1 == Some(
                    label_point(pts[j - 1], pts[j]),
                ) && forall|i: int| 1 <= i < j ==> #[trigger] segment_length(pts[i - 1], pts[i]) < best.0;
            assert(label_position(pts) == Some(label_point(pts[k - 1], pts[k])));
        }
        if forall|k: int| 1 <= k < pts.len() ==> #[trigger] segment_length(pts[k - 1], pts[k]) == 0 {
            if best.0 != 0 {
                let k = choose|j: int|
                    1 <= j <= last && #[trigger] segment_length(pts[j - 1], pts[j]) == best.0 && best.1 == Some(
                        label_point(pts[j - 1], pts[j]),
                    ) && forall|i: int| 1 <= i < j ==> #[trigger] segment_length(pts[i - 1], pts[i]) < best.0;
                assert(segment_length(pts[k - 1], pts[k]) == 0);
            }
        }
    }
}

fn compute_label_pos(points: &Vec<RoutePoint>) -> (res: Option<RoutePoint>)
    requires
        bounded_by(points@, 2 * coordinate_limit()),
    ensures
        res == label_position(points@),
{
    if points.len() < 2 {
        return None;
    }
    let mut best_len: i128 = 0;
    let mut best_pos: Option<RoutePoint> = None;
    let mut k: usize = 1;
    while k < points.len()
        invariant
            1 <= k <= points@.len(),
            bounded_by(points@, 2 * coordinate_limit()),
            (best_len as int, best_pos) == longest_upto(points@, k - 1),
            0 <= best_len <= 8 * coordinate_limit(),
        decreases points@.len() - k,
    {
        let p1 = points[k - 1];
        let p2 = points[k];
        let dx = if p2.x >= p1.x { p2.x - p1.x } else { p1.x - p2.x };
        let dy = if p2.y >= p1.y { p2.y - p1.y } else { p1.y - p2.y };
        let len = dx + dy;
        if len > best_len {
            best_len = len;
            let lift: i128 = if p1.y == p2.y { LABEL_LIFT * UNITS_PER_PIXEL } else { 0 };
            let mx = floor_half(p1.x + p2.x);
            let my = floor_half(p1.y + p2.y);
            best_pos = Some(RoutePoint { x: mx, y: my - lift });
        }
        k += 1;
    }
    best_pos
}

proof fn lemma_corner_points_bounded(
    start: RoutePoint,
    end: RoutePoint,
    start_side: PortSide,
    end_side: PortSide,
    channel: int,
)
    requires
        within(start),
        within(end),
        channel >= 0,
    ensures
        bounded_by(corner_points(start, end, start_side, end_side, channel), 2 * coordinate_limit()),
{
}

proof fn lemma_kept_upto_bounded(pts: Seq<RoutePoint>, i: int, lim: int)
    requires
        bounded_by(pts, lim),
        1 <= i < pts.len(),
    ensures
        bounded_by(kept_upto(pts, i), lim),
    decreases i,
{
    if i > 1 {
        lemma_kept_upto_bounded(pts, i - 1, lim);
        assert(-lim <= pts[i - 1].x <= lim);
    } else {
        assert(-lim <= pts[0].x <= lim);
    }
}

proof fn lemma_path_bounded(start: RoutePoint, end: RoutePoint, start_side: PortSide, end_side: PortSide, channel: int)
    requires
        within(start),
        within(end),
        channel >= 0,
    ensures
        bounded_by(orthogonal_path(start, end, start_side, end_side, channel), 2 * coordinate_limit()),
{
    let pts = corner_points(start, end, start_side, end_side, channel);
    lemma_corner_points_bounded(start, end, start_side, end_side, channel);
    lemma_corner_points_orthogonal(start, end, start_side, end_side, channel);
    let lim = 2 * coordinate_limit();
    lemma_kept_upto_bounded(pts, pts.len() - 1, lim);
    assert(-lim <= pts.last().x <= lim);
}

/// A relation drawn between two nodes at the sides and slots assigned to
/// it: a generalisation ends in an arrowhead and has no label, a
/// composition starts with a diamond, a directed association ends in a
/// barb; the path stops short of the arrowhead and the diamond, and the
/// label sits on its longest segment. It has no hops yet.
pub open spec fn route_of(
    f: NodeBox,
    t: NodeBox,
    e: RouteEdge,
    label: Option<Seq<char>>,
    a: EdgePortAssignment,
) -> RoutedView {
    let start = port_point(f, a.from_side, a.from_slot_offset as int);
    let end = port_point(t, a.to_side, a.to_slot_offset as int);
    let generalization = a.kind == RelationKind::Generalization;
    let composition = a.kind == RelationKind::Composition;
    let line_start = if composition {
        away(start, a.from_side, DIAMOND_LENGTH * UNITS_PER_PIXEL)
    } else {
        start
    };
    let line_end = if generalization {
        away(end, a.to_side, ARROW_HEAD_LENGTH * UNITS_PER_PIXEL)
    } else {
        end
    };
    let points = orthogonal_path(line_start, line_end, a.from_side, a.to_side, a.channel_index as int);
    let shown = if generalization { None } else { label };
    RoutedView {
        from: f.id,
        to: t.id,
        kind: a.kind,
        label: shown,
        label_pos: if shown is Some { label_position(points) } else { None },
        points,
        arrow_head: if generalization { Some(arrow_head(end, a.to_side)) } else { None },
        half_arrow: if a.kind == RelationKind::Association && e.directed {
            Some(half_arrow(end, a.to_side))
        } else {
            None
        },
        source_diamond: if composition { Some(diamond(start, a.from_side)) } else { None },
        bridges: Seq::empty(),
        from_side: a.from_side,
        to_side: a.to_side,
    }
}

pub(crate) fn generate_route(
    from: &NodeBox,
    to: &NodeBox,
    edge: &RouteEdge,
    label: Option<&str>,
    assign: &EdgePortAssignment,
) -> (res: RoutedEdge)
    requires
        -slot_offset_limit() <= assign.from_slot_offset <= slot_offset_limit(),
        -slot_offset_limit() <= assign.to_slot_offset <= slot_offset_limit(),
    ensures
        res@ == route_of(*from, *to, *edge, opt_str_view(label), *assign),
        bounded_by(res@.points, 2 * coordinate_limit()),
{
    let start = compute_port_point(from, assign.from_side, assign.from_slot_offset);
    let end = compute_port_point(to, assign.to_side, assign.to_slot_offset);
    let generalization = assign.kind == RelationKind::Generalization;
    let composition = assign.kind == RelationKind::Composition;
    let arrow_head = if generalization {
        Some(compute_arrow_head(end, assign.to_side))
    } else {
        None
    };
    let line_end = if generalization {
        away_exec(end, assign.to_side, ARROW_HEAD_LENGTH * UNITS_PER_PIXEL)
    } else {
        end
    };
    let source_diamond = if composition {
        Some(compute_diamond(start, assign.from_side))
    } else {
        None
    };
    let line_start = if composition {
        away_exec(start, assign.from_side, DIAMOND_LENGTH * UNITS_PER_PIXEL)
    } else {
        start
    };
    let points = build_orthogonal_path(line_start, line_end, assign.from_side, assign.to_side, assign.channel_index);
    proof {
        lemma_path_bounded(line_start, line_end, assign.from_side, assign.to_side, assign.channel_index as int);
    }
    let shown: Option<String> = if generalization {
        None
    } else {
        match label {
            Some(s) => Some(String::from_str(s)),
            None => None,
        }
    };
    let label_pos = if shown.is_some() {
        compute_label_pos(&points)
    } else {
        None
    };
    let half_arrow = if assign.kind == RelationKind::Association && edge.directed {
        Some(compute_half_arrow(end, assign.to_side))
    } else {
        None
    };
    RoutedEdge {
        from: from.id,
        to: to.id,
        kind: assign.kind,
        label: shown,
        label_pos,
        points,
        arrow_head,
        half_arrow,
        source_diamond,
        bridges: Vec::new(),
        from_side: assign.from_side,
        to_side: assign.to_side,
    }
}

/// Whether a horizontal segment and a vertical one cross inside both,
/// clear of their ends by more than [`BRIDGE_MARGIN`].
pub open spec fn crosses(h1: RoutePoint, h2: RoutePoint, v1: RoutePoint, v2: RoutePoint) -> bool {
    let m = BRIDGE_MARGIN * UNITS_PER_PIXEL;
    &&& v1.x > min(h1.x as int, h2.x as int) + m
    &&& v1.x < max(h1.x as int, h2.x as int) - m
    &&& h1.y > min(v1.y as int, v2.y as int) + m
    &&& h1.y < max(v1.y as int, v2.y as int) - m
}

/// The hops on the horizontal segment from `h1` to `h2` where it crosses
/// the vertical ones among the first `b` segments of another path.
pub open spec fn hops_on_segment(h1: RoutePoint, h2: RoutePoint, v: Seq<RoutePoint>, b: int) -> Seq<BridgeHop>
    decreases b,
{
    if b <= 0 {
        Seq::empty()
    } else {
        let before = hops_on_segment(h1, h2, v, b - 1);
        let (v1, v2) = (v[b - 1], v[b]);
        if v1.x == v2.x && crosses(h1, h2, v1, v2) {
            before.push(BridgeHop { center: RoutePoint { x: v1.x, y: h1.y }, is_horizontal: true })
        } else {
            before
        }
    }
}

/// The hops on the horizontal ones among the first `a` segments of path
/// `h` where they cross the vertical segments of path `v`, segment by
/// segment.
pub open spec fn crossing_hops(h: Seq<RoutePoint>, v: Seq<RoutePoint>, a: int) -> Seq<BridgeHop>
    decreases a,
{
    if a <= 0 {
        Seq::empty()
    } else {
        let on = if h[a - 1].y == h[a].y {
            hops_on_segment(h[a - 1], h[a], v, v.len() - 1)
        } else {
            Seq::empty()
        };
        crossing_hops(h, v, a - 1) + on
    }
}

/// The hops of path `i` over the first `j` other paths, path by path.
pub open spec fn hops_over(paths: Seq<Seq<RoutePoint>>, i: int, j: int) -> Seq<BridgeHop>
    decreases j,
{
    if j <= 0 {
        Seq::empty()
    } else {
        let with = if j - 1 == i {
            Seq::empty()
        } else {
            crossing_hops(paths[i], paths[j - 1], paths[i].len() - 1)
        };
        hops_over(paths, i, j - 1) + with
    }
}

fn segment_hops(h1: RoutePoint, h2: RoutePoint, v: &Vec<RoutePoint>, out: &mut Vec<BridgeHop>)
    requires
        near(h1, 2 * coordinate_limit()),
        near(h2, 2 * coordinate_limit()),
        bounded_by(v@, 2 * coordinate_limit()),
    ensures
        final(out)@ == old(out)@ + hops_on_segment(h1, h2, v@, v@.len() - 1),
{
    if v.len() < 2 {
        assert(old(out)@ + hops_on_segment(h1, h2, v@, v@.len() - 1) =~= old(out)@);
        return;
    }
    let m = BRIDGE_MARGIN * UNITS_PER_PIXEL;
    let h_min = if h1.x <= h2.x { h1.x } else { h2.x };
    let h_max = if h1.x >= h2.x { h1.x } else { h2.x };
    let mut b: usize = 1;
    while b < v.len()
        invariant
            1 <= b <= v@.len(),
            near(h1, 2 * coordinate_limit()),
            near(h2, 2 * coordinate_limit()),
            bounded_by(v@, 2 * coordinate_limit()),
            h_min == min(h1.x as int, h2.x as int),
            h_max == max(h1.x as int, h2.x as int),
            m == BRIDGE_MARGIN * UNITS_PER_PIXEL,
            out@ == old(out)@ + hops_on_segment(h1, h2, v@, b - 1),
        decreases v@.len() - b,
    {
        let q1 = v[b - 1];
        let q2 = v[b];
        let ghost before = out@;
        if q1.x == q2.x {
            let v_min = if q1.y <= q2.y { q1.y } else { q2.y };
            let v_max = if q1.y >= q2.y { q1.y } else { q2.y };
            if q1.x > h_min + m && q1.x < h_max - m && h1.y > v_min + m && h1.y < v_max - m {
                out.push(BridgeHop { center: RoutePoint { x: q1.x, y: h1.y }, is_horizontal: true });
            }
        }
        proof {
            assert(out@ =~= old(out)@ + hops_on_segment(h1, h2, v@, b as int));
        }
        b += 1;
    }
}

fn path_hops(h: &Vec<RoutePoint>, v: &Vec<RoutePoint>, out: &mut Vec<BridgeHop>)
    requires
        bounded_by(h@, 2 * coordinate_limit()),
        bounded_by(v@, 2 * coordinate_limit()),
    ensures
        final(out)@ == old(out)@ + crossing_hops(h@, v@, h@.len() - 1),
{
    if h.len() < 2 {
        assert(old(out)@ + crossing_hops(h@, v@, h@.len() - 1) =~= old(out)@);
        return;
    }
    let mut a: usize = 1;
    while a < h.len()
        invariant
            1 <= a <= h@.len(),
            bounded_by(h@, 2 * coordinate_limit()),
            bounded_by(v@, 2 * coordinate_limit()),
            out@ == old(out)@ + crossing_hops(h@, v@, a - 1),
        decreases h@.len() - a,
    {
        let p1 = h[a - 1];
        let p2 = h[a];
        let ghost before = out@;
        if p1.y == p2.y {
            segment_hops(p1, p2, v, out);
        }
        proof {
            assert(out@ =~= old(out)@ + crossing_hops(h@, v@, a as int));
        }
        a += 1;
    }
}

/// The paths of drawn relations.
pub open spec fn route_paths(rs: Seq<RoutedEdge>) -> Seq<Seq<RoutePoint>> {
    rs.map_values(|r: RoutedEdge| r@.points)
}

/// A drawn relation with hops added where its horizontal segments cross the
/// vertical segments of each other relation, relation by relation.
pub open spec fn with_hops(r: RoutedView, paths: Seq<Seq<RoutePoint>>, i: int) -> RoutedView {
    RoutedView { bridges: r.bridges + hops_over(paths, i, paths.len() as int), ..r }
}

/// The hop a horizontal segment starting at `h1` makes over the vertical
/// segment starting at `v1`.
pub open spec fn hop_at(h1: RoutePoint, v1: RoutePoint) -> BridgeHop {
    BridgeHop { center: RoutePoint { x: v1.x, y: h1.y }, is_horizontal: true }
}

/// Whether segment `a` of path `h` is horizontal, segment `b` of path `v`
/// vertical, and the two cross clear of their ends.
pub open spec fn segments_cross(h: Seq<RoutePoint>, a: int, v: Seq<RoutePoint>, b: int) -> bool {
    &&& 1 <= a < h.len()
    &&& 1 <= b < v.len()
    &&& h[a - 1].y == h[a].y
    &&& v[b - 1].x == v[b].x
    &&& crosses(h[a - 1], h[a], v[b - 1], v[b])
}

proof fn lemma_segment_hop_found(h1: RoutePoint, h2: RoutePoint, v: Seq<RoutePoint>, bb: int, b: int)
    requires
        1 <= b <= bb < v.len(),
        v[b - 1].x == v[b].x,
        crosses(h1, h2, v[b - 1], v[b]),
    ensures
        hops_on_segment(h1, h2, v, bb).contains(hop_at(h1, v[b - 1])),
    decreases bb,
{
    let cur = hops_on_segment(h1, h2, v, bb);
    if b == bb {
        assert(cur.last() == hop_at(h1, v[b - 1]));
        assert(cur[cur.len() - 1] == hop_at(h1, v[b - 1]));
    } else {
        lemma_segment_hop_found(h1, h2, v, bb - 1, b);
        let prev = hops_on_segment(h1, h2, v, bb - 1);
        let k = choose|k: int| 0 <= k < prev.len() && prev[k] == hop_at(h1, v[b - 1]);
        assert(cur[k] == prev[k]);
    }
}

proof fn lemma_segment_hop_source(h1: RoutePoint, h2: RoutePoint, v: Seq<RoutePoint>, bb: int, x: BridgeHop)
    requires
        bb < v.len(),
        hops_on_segment(h1, h2, v, bb).contains(x),
    ensures
        exists|b: int| 1 <= b <= bb && v[b - 1].x == v[b].x && #[trigger] crosses(h1, h2, v[b - 1], v[b]) && x == hop_at(h1, v[b - 1]),
    decreases bb,
{
    let cur = hops_on_segment(h1, h2, v, bb);
    if bb <= 0 {
        assert(cur.len() == 0);
    } else {
        let prev = hops_on_segment(h1, h2, v, bb - 1);
        let k = choose|k: int| 0 <= k < cur.len() && cur[k] == x;
        if k < prev.len() {
            assert(prev[k] == x);
            lemma_segment_hop_source(h1, h2, v, bb - 1, x);
        } else {
            assert(x == hop_at(h1, v[bb - 1]));
        }
    }
}

proof fn lemma_path_hop_found(h: Seq<RoutePoint>, v: Seq<RoutePoint>, aa: int, a: int, b: int)
    requires
        a <= aa < h.len(),
        segments_cross(h, a, v, b),
    ensures
        crossing_hops(h, v, aa).contains(hop_at(h[a - 1], v[b - 1])),
    decreases aa,
{
    let cur = crossing_hops(h, v, aa);
    let prev = crossing_hops(h, v, aa - 1);
    if a == aa {
        lemma_segment_hop_found(h[a - 1], h[a], v, v.len() - 1, b);
        let on = hops_on_segment(h[a - 1], h[a], v, v.len() - 1);
        let k = choose|k: int| 0 <= k < on.len() && on[k] == hop_at(h[a - 1], v[b - 1]);
        assert(cur[prev.len() + k] == on[k]);
    } else {
        lemma_path_hop_found(h, v, aa - 1, a, b);
        let k = choose|k: int| 0 <= k < prev.len() && prev[k] == hop_at(h[a - 1], v[b - 1]);
        assert(cur[k] == prev[k]);
    }
}

proof fn lemma_path_hop_source(h: Seq<RoutePoint>, v: Seq<RoutePoint>, aa: int, x: BridgeHop)
    requires
        aa < h.len(),
        crossing_hops(h, v, aa).contains(x),
    ensures
        exists|a: int, b: int| a <= aa && #[trigger] segments_cross(h, a, v, b) && x == hop_at(h[a - 1], v[b - 1]),
    decreases aa,
{
    let cur = crossing_hops(h, v, aa);
    if aa <= 0 {
        assert(cur.len() == 0);
    } else {
        let prev = crossing_hops(h, v, aa - 1);
        let k = choose|k: int| 0 <= k < cur.len() && cur[k] == x;
        if k < prev.len() {
            assert(prev[k] == x);
            lemma_path_hop_source(h, v, aa - 1, x);
        } else {
            let on = if h[aa - 1].y == h[aa].y {
                hops_on_segment(h[aa - 1], h[aa], v, v.len() - 1)
            } else {
                Seq::empty()
            };
            assert(on[k - prev.len()] == x);
            assert(h[aa - 1].y == h[aa].y);
            assert(on.contains(x));
            lemma_segment_hop_source(h[aa - 1], h[aa], v, v.len() - 1, x);
            let b = choose|b: int| 1 <= b <= v.len() - 1 && v[b - 1].x == v[b].x && #[trigger] crosses(h[aa - 1], h[aa], v[b - 1], v[b])
                && x == hop_at(h[aa - 1], v[b - 1]);
            assert(segments_cross(h, aa, v, b));
        }
    }
}

proof fn lemma_over_found(paths: Seq<Seq<RoutePoint>>, i: int, jj: int, j: int, x: BridgeHop)
    requires
        0 <= i < paths.len(),
        0 <= j < jj <= paths.len(),
        j != i,
        crossing_hops(paths[i], paths[j], paths[i].len() - 1).contains(x),
    ensures
        hops_over(paths, i, jj).contains(x),
    decreases jj,
{
    let cur = hops_over(paths, i, jj);
    let prev = hops_over(paths, i, jj - 1);
    if j == jj - 1 {
        let w = crossing_hops(paths[i], paths[j], paths[i].len() - 1);
        let k = choose|k: int| 0 <= k < w.len() && w[k] == x;
        assert(cur[prev.len() + k] == w[k]);
    } else {
        lemma_over_found(paths, i, jj - 1, j, x);
        let k = choose|k: int| 0 <= k < prev.len() && prev[k] == x;
        assert(cur[k] == prev[k]);
    }
}

proof fn lemma_over_source(paths: Seq<Seq<RoutePoint>>, i: int, jj: int, x: BridgeHop)
    requires
        0 <= i < paths.len(),
        jj <= paths.len(),
        hops_over(paths, i, jj).contains(x),
    ensures
        exists|j: int| 0 <= j < jj && j != i && #[trigger] crossing_hops(paths[i], paths[j], paths[i].len() - 1).contains(x),
    decreases jj,
{
    let cur = hops_over(paths, i, jj);
    if jj <= 0 {
        assert(cur.len() == 0);
    } else {
        let prev = hops_over(paths, i, jj - 1);
        let k = choose|k: int| 0 <= k < cur.len() && cur[k] == x;
        if k < prev.len() {
            assert(prev[k] == x);
            lemma_over_source(paths, i, jj - 1, x);
        } else {
            let j = jj - 1;
            if j == i {
                assert(cur.len() == prev.len());
            } else {
                let w = crossing_hops(paths[i], paths[j], paths[i].len() - 1);
                assert(w[k - prev.len()] == x);
                assert(w.contains(x));
            }
        }
    }
}

/// Whether a hop of route `i` sits where a horizontal segment of it crosses
/// a vertical segment of another route.
pub open spec fn marks_crossing(paths: Seq<Seq<RoutePoint>>, i: int, x: BridgeHop) -> bool {
    exists|j: int, a: int, b: int|
        0 <= j < paths.len() && j != i && #[trigger] segments_cross(paths[i], a, paths[j], b) && x == hop_at(
            paths[i][a - 1],
            paths[j][b - 1],
        )
}

/// Hops do not depend on the order of the relations: wherever a horizontal
/// segment of one route crosses a vertical segment of any other route, clear
/// of both their ends, the first route gets a hop at the crossing, whether
/// the other comes before or after it; and every hop it gets beyond those it
/// had marks such a crossing with some other route.
pub proof fn hops_mark_every_crossing(r: RoutedView, paths: Seq<Seq<RoutePoint>>, i: int)
    requires
        0 <= i < paths.len(),
        paths[i].len() >= 1,
    ensures
        forall|j: int, a: int, b: int|
            0 <= j < paths.len() && j != i && #[trigger] segments_cross(paths[i], a, paths[j], b) ==> with_hops(
                r,
                paths,
                i,
            ).bridges.contains(hop_at(paths[i][a - 1], paths[j][b - 1])),
        with_hops(r, paths, i).bridges.len() >= r.bridges.len(),
        with_hops(r, paths, i).bridges.subrange(0, r.bridges.len() as int) == r.bridges,
        forall|k: int|
            r.bridges.len() <= k < with_hops(r, paths, i).bridges.len() ==> marks_crossing(
                paths,
                i,
                #[trigger] with_hops(r, paths, i).bridges[k],
            ),
{
    let n = paths.len() as int;
    let all = hops_over(paths, i, n);
    let out = with_hops(r, paths, i).bridges;
    assert(out == r.bridges + all);
    assert forall|j: int, a: int, b: int|
        0 <= j < paths.len() && j != i && #[trigger] segments_cross(paths[i], a, paths[j], b) implies out.contains(
            hop_at(paths[i][a - 1], paths[j][b - 1]),
        ) by {
        lemma_path_hop_found(paths[i], paths[j], paths[i].len() - 1, a, b);
        lemma_over_found(paths, i, n, j, hop_at(paths[i][a - 1], paths[j][b - 1]));
        let k = choose|k: int| 0 <= k < all.len() && all[k] == hop_at(paths[i][a - 1], paths[j][b - 1]);
        assert(out[r.bridges.len() + k] == all[k]);
    }
    assert(out.subrange(0, r.bridges.len() as int) =~= r.bridges);
    assert forall|k: int| r.bridges.len() <= k < out.len() implies marks_crossing(paths, i, #[trigger] out[k]) by {
        let x = out[k];
        assert(all[k - r.bridges.len()] == x);
        assert(all.contains(x));
        lemma_over_source(paths, i, n, x);
        let j = choose|j: int| 0 <= j < n && j != i && #[trigger] crossing_hops(paths[i], paths[j], paths[i].len() - 1).contains(x);
        lemma_path_hop_source(paths[i], paths[j], paths[i].len() - 1, x);
        let (a, b) = choose|a: int, b: int| a <= paths[i].len() - 1 && #[trigger] segments_cross(paths[i], a, paths[j], b) && x
            == hop_at(paths[i][a - 1], paths[j][b - 1]);
        assert(segments_cross(paths[i], a, paths[j], b));
    }
}

pub(crate) fn detect_bridges(routes: &mut Vec<RoutedEdge>)
    requires
        forall|k: int| 0 <= k < old(routes)@.len() ==> bounded_by(#[trigger] old(routes)@[k]@.points, 2 * coordinate_limit()),
    ensures
        final(routes)@.len() == old(routes)@.len(),
        forall|k: int|
            0 <= k < old(routes)@.len() ==> #[trigger] final(routes)@[k]@ == with_hops(
                old(routes)@[k]@,
                route_paths(old(routes)@),
                k,
            ),
{
    let ghost paths = route_paths(routes@);
    let n = routes.len();
    let mut i: usize = 0;
    while i < n
        invariant
            n == routes@.len(),
            n == old(routes)@.len(),
            paths == route_paths(old(routes)@),
            0 <= i <= n,
            forall|k: int| 0 <= k < n ==> bounded_by(#[trigger] old(routes)@[k]@.points, 2 * coordinate_limit()),
            forall|k: int| 0 <= k < n ==> (#[trigger] routes@[k])@.points == old(routes)@[k]@.points,
            forall|k: int| 0 <= k < i ==> #[trigger] routes@[k]@ == with_hops(old(routes)@[k]@, paths, k),
            forall|k: int| i <= k < n ==> #[trigger] routes@[k]@ == old(routes)@[k]@,
        decreases n - i,
    {
        let mut hops: Vec<BridgeHop> = Vec::new();
        let mut j: usize = 0;
        while j < n
            invariant
                n == routes@.len(),
                n == old(routes)@.len(),
                paths == route_paths(old(routes)@),
                0 <= i < n,
                0 <= j <= n,
                forall|k: int| 0 <= k < n ==> bounded_by(#[trigger] old(routes)@[k]@.points, 2 * coordinate_limit()),
                forall|k: int| 0 <= k < n ==> (#[trigger] routes@[k])@.points == old(routes)@[k]@.points,
                forall|k: int| 0 <= k < i ==> #[trigger] routes@[k]@ == with_hops(old(routes)@[k]@, paths, k),
                forall|k: int| i <= k < n ==> #[trigger] routes@[k]@ == old(routes)@[k]@,
                hops@ == hops_over(paths, i as int, j as int),
            decreases n - j,
        {
            if i != j {
                assert(paths[i as int] == routes@[i as int]@.points);
                assert(paths[j as int] == routes@[j as int]@.points);
                path_hops(&routes[i].points, &routes[j].points, &mut hops);
            }
            proof {
                assert(hops@ =~= hops_over(paths, i as int, j + 1));
            }
            j += 1;
        }
        let ghost before = routes@[i as int]@;
        routes[i].bridges.append(&mut hops);
        proof {
            assert(routes@[i as int]@ == with_hops(old(routes)@[i as int]@, paths, i as int));
        }
        i += 1;
    }
}

} // verus!
