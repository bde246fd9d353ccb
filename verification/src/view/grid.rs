//! Grids: indexes whose keys are points of the plane.
use vstd::prelude::*;
use crate::view::index::{Area, IndexArea};

verus! {

/// A point of the grid.
#[derive(Clone, Copy, PartialEq, Eq, Structural)]
pub struct Point2 {
    pub x: i16,
    pub y: i16,
}

/// A displacement on the grid.
#[derive(Clone, Copy, PartialEq, Eq, Structural)]
pub struct Vector2 {
    pub x: i16,
    pub y: i16,
}

/// `v` brought into the range of the coordinates.
pub open spec fn clamp(v: int) -> i16 {
    if v < i16::MIN {
        i16::MIN
    } else if v > i16::MAX {
        i16::MAX
    } else {
        v as i16
    }
}

/// `v` brought into the range of the coordinates.
pub fn clamped(v: i32) -> (r: i16)
    ensures
        r == clamp(v as int),
{
    if v < -32768 {
        -32768
    } else if v > 32767 {
        32767
    } else {
        v as i16
    }
}

impl Point2 {
    /// The point with the coordinates `x` and `y`.
    pub fn new(x: i16, y: i16) -> (p: Self)
        ensures
            p.x == x,
            p.y == y,
    {
        Point2 { x, y }
    }

    /// The point moved by `v`; each coordinate stops at the edge of its
    /// range.
    pub open spec fn moved(self, v: Vector2) -> Point2 {
        Point2 { x: clamp(self.x + v.x), y: clamp(self.y + v.y) }
    }

    /// The point moved back by `v`; each coordinate stops at the edge of its
    /// range.
    pub open spec fn moved_back(self, v: Vector2) -> Point2 {
        Point2 { x: clamp(self.x - v.x), y: clamp(self.y - v.y) }
    }

    /// The point moved by `v`.
    pub fn offset(&self, v: Vector2) -> (p: Self)
        ensures
            p == self.moved(v),
    {
        Point2 { x: clamped(self.x as i32 + v.x as i32), y: clamped(self.y as i32 + v.y as i32) }
    }

    /// The point moved back by `v`.
    pub fn offset_back(&self, v: Vector2) -> (p: Self)
        ensures
            p == self.moved_back(v),
    {
        Point2 { x: clamped(self.x as i32 - v.x as i32), y: clamped(self.y as i32 - v.y as i32) }
    }
}

impl Vector2 {
    /// The displacement by `x` and `y`.
    pub fn new(x: i16, y: i16) -> (v: Self)
        ensures
            v.x == x,
            v.y == y,
    {
        Vector2 { x, y }
    }
}

/// The number of columns, or of rows, from `start` up to `end`, which is not
/// part of them.
pub open spec fn span(start: i16, end: int) -> nat {
    if end > start {
        (end - start) as nat
    } else {
        0
    }
}

/// The `k`-th point of a window of `width` columns that starts at `start`,
/// counted row by row, each row from left to right.
pub open spec fn window_point(start: Point2, width: nat, k: int) -> Point2 {
    Point2 { x: (start.x + k % (width as int)) as i16, y: (start.y + k / (width as int)) as i16 }
}

/// The points of the window of `width` columns and `height` rows that starts
/// at `start`, row by row, each row from left to right.
pub open spec fn window_points(start: Point2, width: nat, height: nat) -> Seq<Point2> {
    Seq::new(width * height, |k: int| window_point(start, width, k))
}

/// A walk over the points of a window of the grid, row by row.
pub struct GridWindowIterator {
    pub start: Point2,
    pub width: u32,
    pub height: u32,
    pub index: u64,
}

impl GridWindowIterator {
    /// The window lies within the range of the coordinates.
    pub open spec fn wf(&self) -> bool {
        &&& self.start.x + self.width <= i16::MAX + 1
        &&& self.start.y + self.height <= i16::MAX + 1
        &&& self.index <= self.width * self.height
    }

    /// The points of the window.
    pub open spec fn points(&self) -> Seq<Point2> {
        window_points(self.start, self.width as nat, self.height as nat)
    }

    /// The points that the walk has yet to give.
    pub open spec fn rest(&self) -> Seq<Point2> {
        self.points().subrange(self.index as int, self.points().len() as int)
    }

    /// The walk over the window from `start` up to the column `end_x` and
    /// the row `end_y`, which are not part of it.
    pub fn window(start: Point2, end_x: i32, end_y: i32) -> (it: Self)
        requires
            end_x <= i16::MAX + 1,
            end_y <= i16::MAX + 1,
        ensures
            it.wf(),
            it.start == start,
            it.width == span(start.x, end_x as int),
            it.height == span(start.y, end_y as int),
            it.index == 0,
    {
        let width: u32 = if end_x > start.x as i32 {
            (end_x - start.x as i32) as u32
        } else {
            0
        };
        let height: u32 = if end_y > start.y as i32 {
            (end_y - start.y as i32) as u32
        } else {
            0
        };
        proof {
            assert(0 <= width * height) by (nonlinear_arith)
                requires
                    0 <= width,
                    0 <= height,
            ;
        }
        GridWindowIterator { start, width, height, index: 0 }
    }

    /// The walk over the points from `start` up to `end`, which is not part
    /// of the window.
    pub fn from_range(start: Point2, end: Point2) -> (it: Self)
        ensures
            it.wf(),
            it.start == start,
            it.width == span(start.x, end.x as int),
            it.height == span(start.y, end.y as int),
            it.index == 0,
    {
        Self::window(start, end.x as i32, end.y as i32)
    }

    /// The walk over the points from `start` up to and with `end`.
    pub fn from_inclusive(start: Point2, end: Point2) -> (it: Self)
        ensures
            it.wf(),
            it.start == start,
            it.width == span(start.x, end.x + 1),
            it.height == span(start.y, end.y + 1),
            it.index == 0,
    {
        Self::window(start, end.x as i32 + 1, end.y as i32 + 1)
    }

    /// The next point of the walk, if any is left.
    pub fn next(&mut self) -> (p: Option<Point2>)
        requires
            old(self).wf(),
        ensures
            final(self).wf(),
            final(self).start == old(self).start,
            final(self).width == old(self).width,
            final(self).height == old(self).height,
            match p {
                Some(p) => {
                    &&& old(self).index < old(self).points().len()
                    &&& p == old(self).points()[old(self).index as int]
                    &&& final(self).index == old(self).index + 1
                    &&& final(self).rest() == old(self).rest().drop_first()
                },
                None => {
                    &&& old(self).index == old(self).points().len()
                    &&& final(self).index == old(self).index
                    &&& old(self).rest() == Seq::<Point2>::empty()
                },
            },
    {
        proof {
            assert(self.width * self.height <= 0x1_0000 * 0x1_0000) by (nonlinear_arith)
                requires
                    0 <= self.width <= 0x1_0000,
                    0 <= self.height <= 0x1_0000,
            ;
        }
        let total: u64 = self.width as u64 * self.height as u64;
        if self.index < total {
            let k = self.index;
            let width = self.width as u64;
            proof {
                assert(width > 0) by (nonlinear_arith)
                    requires
                        k < width * self.height,
                        0 <= k,
                        0 <= width,
                        0 <= self.height,
                ;
                assert(k / width < self.height) by (nonlinear_arith)
                    requires
                        k < width * self.height,
                        width > 0,
                        0 <= k,
                ;
            }
            let dx = (k % width) as i32;
            let dy = (k / width) as i32;
            let p = Point2 { x: (self.start.x as i32 + dx) as i16, y: (self.start.y as i32 + dy) as i16 };
            self.index = k + 1;
            proof {
                assert(self.rest() =~= old(self).rest().drop_first());
            }
            Some(p)
        } else {
            proof {
                assert(old(self).rest() =~= Seq::<Point2>::empty());
            }
            None
        }
    }
}


/// The smallest x of `keys`, or the largest coordinate if there is none.
pub open spec fn min_x(keys: Seq<Point2>) -> i16
    decreases keys.len(),
{
    if keys.len() == 0 {
        i16::MAX
    } else if keys.last().x < min_x(keys.drop_last()) {
        keys.last().x
    } else {
        min_x(keys.drop_last())
    }
}

/// The smallest y of `keys`, or the largest coordinate if there is none.
pub open spec fn min_y(keys: Seq<Point2>) -> i16
    decreases keys.len(),
{
    if keys.len() == 0 {
        i16::MAX
    } else if keys.last().y < min_y(keys.drop_last()) {
        keys.last().y
    } else {
        min_y(keys.drop_last())
    }
}

/// The largest x of `keys`, or the smallest coordinate if there is none.
pub open spec fn max_x(keys: Seq<Point2>) -> i16
    decreases keys.len(),
{
    if keys.len() == 0 {
        i16::MIN
    } else if keys.last().x > max_x(keys.drop_last()) {
        keys.last().x
    } else {
        max_x(keys.drop_last())
    }
}

/// The largest y of `keys`, or the smallest coordinate if there is none.
pub open spec fn max_y(keys: Seq<Point2>) -> i16
    decreases keys.len(),
{
    if keys.len() == 0 {
        i16::MIN
    } else if keys.last().y > max_y(keys.drop_last()) {
        keys.last().y
    } else {
        max_y(keys.drop_last())
    }
}

/// The corners of the smallest window that holds `area`: the empty window
/// at the origin for the empty area, the window of the range for a range,
/// and for a set of keys the window from their smallest to their largest
/// coordinates.  The full area has no such window.
pub open spec fn bounds(area: Area<Point2>) -> (Point2, Point2) {
    match area {
        Area::Empty => (Point2 { x: 0i16, y: 0i16 }, Point2 { x: -1i16, y: -1i16 }),
        Area::Full => (Point2 { x: 0i16, y: 0i16 }, Point2 { x: -1i16, y: -1i16 }),
        Area::Keys(keys) => (
            Point2 { x: min_x(keys), y: min_y(keys) },
            Point2 { x: max_x(keys), y: max_y(keys) },
        ),
        Area::Range { start, end } => (start, end),
    }
}

/// The points from `start` up to and with `end`, row by row.
pub open spec fn range_points(start: Point2, end: Point2) -> Seq<Point2> {
    window_points(start, span(start.x, end.x + 1), span(start.y, end.y + 1))
}

/// The smaller of two coordinates.
pub open spec fn lower(a: i16, b: i16) -> i16 {
    if a <= b {
        a
    } else {
        b
    }
}

/// The larger of two coordinates.
pub open spec fn upper(a: i16, b: i16) -> i16 {
    if a >= b {
        a
    } else {
        b
    }
}

/// The union of two areas, as [`IndexArea::union`] forms it: the other area
/// where one is empty; the full area where one is full; of two sets of keys
/// the keys of both; of a set and a range the keys of the set and the points
/// of the range; of two ranges the smallest range that holds both.
pub open spec fn union_of(a: Area<Point2>, b: Area<Point2>) -> Area<Point2> {
    match (a, b) {
        (Area::Empty, _) => b,
        (_, Area::Empty) => a,
        (Area::Full, _) => Area::Full,
        (_, Area::Full) => Area::Full,
        (Area::Keys(va), Area::Keys(vb)) => Area::Keys(va + vb),
        (Area::Range { start, end }, Area::Keys(v)) => Area::Keys(v + range_points(start, end)),
        (Area::Keys(v), Area::Range { start, end }) => Area::Keys(v + range_points(start, end)),
        (Area::Range { start: sa, end: ea }, Area::Range { start: sb, end: eb }) => Area::Range {
            start: Point2 { x: lower(sa.x, sb.x), y: lower(sa.y, sb.y) },
            end: Point2 { x: upper(ea.x, eb.x), y: upper(ea.y, eb.y) },
        },
    }
}

/// Whether the point `p` lies in `area`.
pub open spec fn covers(area: Area<Point2>, p: Point2) -> bool {
    match area {
        Area::Empty => false,
        Area::Full => true,
        Area::Keys(keys) => keys.contains(p),
        Area::Range { start, end } => start.x <= p.x <= end.x && start.y <= p.y <= end.y,
    }
}

/// Appends the points from `start` up to and with `end` to `keys`.
pub fn extend_with_range(keys: &mut Vec<Point2>, start: Point2, end: Point2)
    ensures
        final(keys)@ == old(keys)@ + range_points(start, end),
{
    let mut it = GridWindowIterator::from_inclusive(start, end);
    proof {
        assert(it.rest() =~= it.points());
        assert(old(keys)@ + it.points().subrange(0, 0) =~= old(keys)@);
    }
    loop
        invariant
            it.wf(),
            it.start == start,
            it.width == span(start.x, end.x + 1),
            it.height == span(start.y, end.y + 1),
            keys@ == old(keys)@ + it.points().subrange(0, it.index as int),
        decreases it.points().len() - it.index,
    {
        let ghost before = it.index;
        match it.next() {
            Some(p) => {
                keys.push(p);
                proof {
                    assert(it.points().subrange(0, before as int).push(p) =~= it.points().subrange(
                        0,
                        it.index as int,
                    ));
                    assert((old(keys)@ + it.points().subrange(0, before as int)).push(p) =~= old(
                        keys,
                    )@ + it.points().subrange(0, it.index as int));
                }
            },
            None => {
                proof {
                    assert(it.points().subrange(0, it.index as int) =~= it.points());
                }
                return ;
            },
        }
    }
}

impl IndexArea<Point2> {
    /// The corners of the smallest window that holds this area.
    pub fn range(&self) -> (r: (Point2, Point2))
        requires
            !(self@ is Full),
        ensures
            r == bounds(self@),
    {
        match self {
            IndexArea::Empty => (Point2 { x: 0, y: 0 }, Point2 { x: -1, y: -1 }),
            IndexArea::Full => (Point2 { x: 0, y: 0 }, Point2 { x: -1, y: -1 }),
            IndexArea::Keys(keys) => {
                let mut lo = Point2 { x: 32767, y: 32767 };
                let mut hi = Point2 { x: -32768, y: -32768 };
                let mut i: usize = 0;
                while i < keys.len()
                    invariant
                        i <= keys@.len(),
                        lo.x == min_x(keys@.subrange(0, i as int)),
                        lo.y == min_y(keys@.subrange(0, i as int)),
                        hi.x == max_x(keys@.subrange(0, i as int)),
                        hi.y == max_y(keys@.subrange(0, i as int)),
                    decreases keys@.len() - i,
                {
                    let p = keys[i];
                    proof {
                        assert(keys@.subrange(0, i as int + 1).drop_last() =~= keys@.subrange(
                            0,
                            i as int,
                        ));
                    }
                    if p.x < lo.x {
                        lo.x = p.x;
                    }
                    if p.y < lo.y {
                        lo.y = p.y;
                    }
                    if p.x > hi.x {
                        hi.x = p.x;
                    }
                    if p.y > hi.y {
                        hi.y = p.y;
                    }
                    i += 1;
                }
                proof {
                    assert(keys@.subrange(0, i as int) =~= keys@);
                }
                (lo, hi)
            },
            IndexArea::Range { start, end } => (*start, *end),
        }
    }

    /// A walk over the points of the smallest window that holds this area.
    pub fn iter(&self) -> (it: GridWindowIterator)
        requires
            !(self@ is Full),
        ensures
            it.wf(),
            it.index == 0,
            it.points() == range_points(bounds(self@).0, bounds(self@).1),
    {
        let (start, end) = self.range();
        GridWindowIterator::from_inclusive(start, end)
    }

    /// The union of this area and `other`.
    pub fn union(self, other: IndexArea<Point2>) -> (area: IndexArea<Point2>)
        ensures
            area@ == union_of(self@, other@),
    {
        match (self, other) {
            (IndexArea::Empty, a) => a,
            (a, IndexArea::Empty) => a,
            (IndexArea::Full, _) => IndexArea::Full,
            (_, IndexArea::Full) => IndexArea::Full,
            (IndexArea::Keys(mut va), IndexArea::Keys(mut vb)) => {
                va.append(&mut vb);
                IndexArea::Keys(va)
            },
            (IndexArea::Range { start, end }, IndexArea::Keys(mut v)) => {
                extend_with_range(&mut v, start, end);
                IndexArea::Keys(v)
            },
            (IndexArea::Keys(mut v), IndexArea::Range { start, end }) => {
                extend_with_range(&mut v, start, end);
                IndexArea::Keys(v)
            },
            (
                IndexArea::Range { start: sa, end: ea },
                IndexArea::Range { start: sb, end: eb },
            ) => IndexArea::Range {
                start: Point2 {
                    x: if sa.x <= sb.x {
                        sa.x
                    } else {
                        sb.x
                    },
                    y: if sa.y <= sb.y {
                        sa.y
                    } else {
                        sb.y
                    },
                },
                end: Point2 {
                    x: if ea.x >= eb.x {
                        ea.x
                    } else {
                        eb.x
                    },
                    y: if ea.y >= eb.y {
                        ea.y
                    } else {
                        eb.y
                    },
                },
            },
        }
    }
}

/// Every point of a range is one of its points.
pub proof fn lemma_range_points_cover(start: Point2, end: Point2, p: Point2)
    requires
        start.x <= p.x <= end.x,
        start.y <= p.y <= end.y,
    ensures
        range_points(start, end).contains(p),
{
    let width = span(start.x, end.x + 1) as int;
    let height = span(start.y, end.y + 1) as int;
    let dx = p.x - start.x;
    let dy = p.y - start.y;
    let k = dy * width + dx;
    assert(0 <= k < width * height && k % width == dx && k / width == dy) by (nonlinear_arith)
        requires
            0 <= dx < width,
            0 <= dy < height,
            k == dy * width + dx,
    ;
    assert(range_points(start, end)[k] == p);
}

/// The union of two areas holds every point of either.
pub proof fn lemma_union_covers(a: Area<Point2>, b: Area<Point2>, p: Point2)
    requires
        covers(a, p) || covers(b, p),
    ensures
        covers(union_of(a, b), p),
{
    match (a, b) {
        (Area::Keys(va), Area::Keys(vb)) => {
            if va.contains(p) {
                let i = choose|i: int| 0 <= i < va.len() && va[i] == p;
                assert((va + vb)[i] == p);
            } else {
                let i = choose|i: int| 0 <= i < vb.len() && vb[i] == p;
                assert((va + vb)[va.len() + i] == p);
            }
        },
        (Area::Range { start, end }, Area::Keys(v)) => {
            let pts = range_points(start, end);
            if v.contains(p) {
                let i = choose|i: int| 0 <= i < v.len() && v[i] == p;
                assert((v + pts)[i] == p);
            } else {
                lemma_range_points_cover(start, end, p);
                let i = choose|i: int| 0 <= i < pts.len() && pts[i] == p;
                assert((v + pts)[v.len() + i] == p);
            }
        },
        (Area::Keys(v), Area::Range { start, end }) => {
            let pts = range_points(start, end);
            if v.contains(p) {
                let i = choose|i: int| 0 <= i < v.len() && v[i] == p;
                assert((v + pts)[i] == p);
            } else {
                lemma_range_points_cover(start, end, p);
                let i = choose|i: int| 0 <= i < pts.len() && pts[i] == p;
                assert((v + pts)[v.len() + i] == p);
            }
        },
        _ => {},
    }
}

} // verus!
