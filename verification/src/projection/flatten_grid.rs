//! Flattening a grid of grids.
use vstd::prelude::*;
use crate::projection::projection_helper::{ArgHandler, Keepalive, ProjectionHelper};
use crate::view::ViewRef;
use crate::view::index::Index;
use crate::view::port::{Hook, InnerViewPort, OuterViewPort, ViewPort};
use crate::view::channel::{ChannelReceiver, ChannelSender};
use crate::graph::{opt_ok, Graph, Node};
use crate::projection::vec2seq::one_msg;
use crate::view::channel::{queue_channel, ChannelData};
use crate::view::grid::{span, GridWindowIterator};
use crate::view::Msg;
use crate::view::grid::{
    bounds, clamp, clamped, max_x, max_y, min_x, min_y, range_points, upper, Point2, Vector2,
};
use crate::view::observer::is_live;
use crate::view::index::{map_msg, Area, AreaMsg, IndexArea, Key, KeyMap};

verus! {

/// What a flattening knows of one nested grid: the point of the outer grid
/// that names it, where its origin lies in the flat grid, its last point
/// when the offsets were last computed, and the port it is read from.
#[derive(Clone, Copy)]
pub struct Chunk {
    pub at: Point2,
    pub offset: Vector2,
    pub limit: Point2,
    pub view: usize,
}

/// The grid that is laid out of the grids that the items of an outer grid
/// name: the nested grids of one column of the outer grid stand in one
/// column of the flat grid, as wide as the widest of them, and those of one
/// row in one row, as high as the highest of them.
pub struct Flatten {
    pub limit: Point2,
    pub top: usize,
    pub chunks: Vec<Chunk>,
    pub cast: usize,
    pub proj_helper: ProjectionHelper,
}

/// The place of a point in the order of a walk row by row: points of a lower
/// row come first, and within a row points further left.
pub open spec fn rank(p: Point2) -> nat {
    ((p.y + 32768) * 65536 + (p.x + 32768)) as nat
}

/// The place of a point in the order of a walk row by row.
pub fn rank_of(p: Point2) -> (r: usize)
    ensures
        r == rank(p),
        r < 0x1_0000_0000,
{
    let y: u32 = (p.y as i32 + 32768) as u32;
    let x: u32 = (p.x as i32 + 32768) as u32;
    (y * 65536 + x) as usize
}

/// Different points have different ranks.
pub proof fn lemma_rank_injective(p: Point2, q: Point2)
    requires
        rank(p) == rank(q),
    ensures
        p == q,
{
}

/// Whether `p` lies in the window from `start` up to and with `end` and has
/// no negative coordinate.
pub open spec fn in_window(start: Point2, end: Point2, p: Point2) -> bool {
    &&& start.x <= p.x <= end.x
    &&& start.y <= p.y <= end.y
    &&& p.x >= 0
    &&& p.y >= 0
}

/// The number of columns, or of rows, of a grid whose last one is `limit`.
pub open spec fn extent(limit: i16) -> int {
    if limit < 0 {
        0
    } else {
        limit + 1
    }
}

/// The width of the column `x` of the flat grid: the largest width among the
/// first `n` chunks that stand in the column `x` of the window.
pub open spec fn col_width(
    chunks: Seq<Chunk>,
    limits: Seq<Point2>,
    start: Point2,
    end: Point2,
    x: int,
    n: nat,
) -> int
    decreases n,
{
    if n == 0 || n > chunks.len() || n > limits.len() {
        0
    } else {
        let rest = col_width(chunks, limits, start, end, x, (n - 1) as nat);
        let c = chunks[n - 1];
        if in_window(start, end, c.at) && c.at.x == x && extent(limits[n - 1].x) > rest {
            extent(limits[n - 1].x)
        } else {
            rest
        }
    }
}

/// The height of the row `y` of the flat grid: the largest height among the
/// first `n` chunks that stand in the row `y` of the window.
pub open spec fn row_height(
    chunks: Seq<Chunk>,
    limits: Seq<Point2>,
    start: Point2,
    end: Point2,
    y: int,
    n: nat,
) -> int
    decreases n,
{
    if n == 0 || n > chunks.len() || n > limits.len() {
        0
    } else {
        let rest = row_height(chunks, limits, start, end, y, (n - 1) as nat);
        let c = chunks[n - 1];
        if in_window(start, end, c.at) && c.at.y == y && extent(limits[n - 1].y) > rest {
            extent(limits[n - 1].y)
        } else {
            rest
        }
    }
}

/// The sum of the widths of the columns before the column `x`.
pub open spec fn left_of(
    chunks: Seq<Chunk>,
    limits: Seq<Point2>,
    start: Point2,
    end: Point2,
    x: int,
) -> int
    decreases x,
{
    if x <= 0 {
        0
    } else {
        left_of(chunks, limits, start, end, x - 1) + col_width(
            chunks,
            limits,
            start,
            end,
            x - 1,
            chunks.len(),
        )
    }
}

/// The sum of the heights of the rows before the row `y`.
pub open spec fn above(
    chunks: Seq<Chunk>,
    limits: Seq<Point2>,
    start: Point2,
    end: Point2,
    y: int,
) -> int
    decreases y,
{
    if y <= 0 {
        0
    } else {
        above(chunks, limits, start, end, y - 1) + row_height(
            chunks,
            limits,
            start,
            end,
            y - 1,
            chunks.len(),
        )
    }
}

/// The chunk at position `k` after the offsets were recomputed: a chunk of
/// the window gets the limit that its grid has now, and lies behind the
/// columns to its left and the rows above it; a chunk outside the window
/// stays as it is.
pub open spec fn placed_chunk(
    chunks: Seq<Chunk>,
    limits: Seq<Point2>,
    start: Point2,
    end: Point2,
    k: int,
) -> Chunk {
    let c = chunks[k];
    if in_window(start, end, c.at) {
        Chunk {
            at: c.at,
            offset: Vector2 {
                x: clamp(left_of(chunks, limits, start, end, c.at.x as int)),
                y: clamp(above(chunks, limits, start, end, c.at.y as int)),
            },
            limit: limits[k],
            view: c.view,
        }
    } else {
        c
    }
}

/// The last point of the flat grid: the sum of the widths of the columns of
/// the window, and of the heights of its rows, less one.
pub open spec fn flat_limit(chunks: Seq<Chunk>, limits: Seq<Point2>, start: Point2, end: Point2) -> Point2 {
    Point2 {
        x: clamp(left_of(chunks, limits, start, end, end.x + 1) - 1),
        y: clamp(above(chunks, limits, start, end, end.y + 1) - 1),
    }
}

/// The widths are not negative and not larger than a grid can be wide.
pub proof fn lemma_col_width_bounds(
    chunks: Seq<Chunk>,
    limits: Seq<Point2>,
    start: Point2,
    end: Point2,
    x: int,
    n: nat,
)
    ensures
        0 <= col_width(chunks, limits, start, end, x, n) <= 32768,
        0 <= row_height(chunks, limits, start, end, x, n) <= 32768,
    decreases n,
{
    if n > 0 {
        lemma_col_width_bounds(chunks, limits, start, end, x, (n - 1) as nat);
    }
}

/// The sums are not negative and grow with each column or row by no more
/// than its share.
pub proof fn lemma_sum_bounds(
    chunks: Seq<Chunk>,
    limits: Seq<Point2>,
    start: Point2,
    end: Point2,
    x: int,
)
    requires
        x >= 0,
    ensures
        0 <= left_of(chunks, limits, start, end, x) <= 32768 * x,
        0 <= above(chunks, limits, start, end, x) <= 32768 * x,
    decreases x,
{
    if x > 0 {
        lemma_sum_bounds(chunks, limits, start, end, x - 1);
        lemma_col_width_bounds(chunks, limits, start, end, x - 1, chunks.len());
    }
}

/// A column is as wide as each chunk that stands in it, and a row as high.
pub proof fn lemma_band_holds_chunk(
    chunks: Seq<Chunk>,
    limits: Seq<Point2>,
    start: Point2,
    end: Point2,
    k: int,
    n: nat,
)
    requires
        0 <= k < n <= chunks.len(),
        limits.len() == chunks.len(),
        in_window(start, end, chunks[k].at),
    ensures
        col_width(chunks, limits, start, end, chunks[k].at.x as int, n) >= extent(limits[k].x),
        row_height(chunks, limits, start, end, chunks[k].at.y as int, n) >= extent(limits[k].y),
    decreases n,
{
    if k < n - 1 {
        lemma_band_holds_chunk(chunks, limits, start, end, k, (n - 1) as nat);
    }
}

/// The sums grow from column to column and from row to row.
pub proof fn lemma_sums_grow(
    chunks: Seq<Chunk>,
    limits: Seq<Point2>,
    start: Point2,
    end: Point2,
    x: int,
    y: int,
)
    requires
        0 <= x <= y,
    ensures
        left_of(chunks, limits, start, end, x) <= left_of(chunks, limits, start, end, y),
        above(chunks, limits, start, end, x) <= above(chunks, limits, start, end, y),
    decreases y - x,
{
    if x < y {
        lemma_sums_grow(chunks, limits, start, end, x, y - 1);
        lemma_col_width_bounds(chunks, limits, start, end, y - 1, chunks.len());
    }
}

/// The layout pads and does not overlap: after a recomputation of the
/// offsets, each chunk of the window lies within its column and its row, so
/// that its box ends before the next column and the next row begin, and
/// within the flat grid.
pub proof fn lemma_chunk_in_band(
    chunks: Seq<Chunk>,
    limits: Seq<Point2>,
    start: Point2,
    end: Point2,
    k: int,
)
    requires
        0 <= k < chunks.len(),
        limits.len() == chunks.len(),
        in_window(start, end, chunks[k].at),
    ensures
        ({
            let at = chunks[k].at;
            &&& left_of(chunks, limits, start, end, at.x as int) + extent(limits[k].x) <= left_of(
                chunks,
                limits,
                start,
                end,
                at.x + 1,
            )
            &&& above(chunks, limits, start, end, at.y as int) + extent(limits[k].y) <= above(
                chunks,
                limits,
                start,
                end,
                at.y + 1,
            )
            &&& left_of(chunks, limits, start, end, at.x + 1) <= left_of(
                chunks,
                limits,
                start,
                end,
                end.x + 1,
            )
            &&& above(chunks, limits, start, end, at.y + 1) <= above(
                chunks,
                limits,
                start,
                end,
                end.y + 1,
            )
        }),
{
    let at = chunks[k].at;
    lemma_band_holds_chunk(chunks, limits, start, end, k, chunks.len());
    lemma_sums_grow(chunks, limits, start, end, at.x + 1, end.x + 1);
    lemma_sums_grow(chunks, limits, start, end, at.y + 1, end.y + 1);
}

impl Flatten {
    /// Recomputes the offset of every chunk and the last point of the flat
    /// grid.  `start` and `end` are the corners of the smallest window that
    /// holds the outer grid, `limits` the last points that the nested grids
    /// have now, one for each chunk.  Hands out the message for the area
    /// that may differ: from the origin up to the larger of the old and the
    /// new last point.
    pub fn update_all_offsets(&mut self, start: Point2, end: Point2, limits: &Vec<Point2>) -> (msg:
        AreaMsg)
        requires
            limits@.len() == old(self).chunks@.len(),
        ensures
            final(self).chunks@.len() == old(self).chunks@.len(),
            forall|k: int|
                0 <= k < old(self).chunks@.len() ==> #[trigger] final(self).chunks@[k] == placed_chunk(
                    old(self).chunks@,
                    limits@,
                    start,
                    end,
                    k,
                ),
            final(self).limit == flat_limit(old(self).chunks@, limits@, start, end),
            final(self).top == old(self).top,
            final(self).cast == old(self).cast,
            final(self).proj_helper == old(self).proj_helper,
            msg == AreaMsg::Range(
                Key::Point(Point2 { x: 0, y: 0 }),
                Key::Point(
                    Point2 {
                        x: upper(final(self).limit.x, old(self).limit.x),
                        y: upper(final(self).limit.y, old(self).limit.y),
                    },
                ),
            ),
    {
        let ghost chunks = self.chunks@;
        let cols: usize = if end.x >= 0 {
            end.x as usize + 1
        } else {
            0
        };
        let rows: usize = if end.y >= 0 {
            end.y as usize + 1
        } else {
            0
        };
        // The width of each column and the height of each row.
        let mut widths: Vec<i32> = Vec::new();
        let mut heights: Vec<i32> = Vec::new();
        let mut i: usize = 0;
        while i < cols
            invariant
                i <= cols,
                widths@.len() == i,
                forall|x: int| 0 <= x < i ==> widths@[x] == 0,
            decreases cols - i,
        {
            widths.push(0);
            i += 1;
        }
        i = 0;
        while i < rows
            invariant
                i <= rows,
                heights@.len() == i,
                forall|y: int| 0 <= y < i ==> heights@[y] == 0,
            decreases rows - i,
        {
            heights.push(0);
            i += 1;
        }
        let mut k: usize = 0;
        while k < self.chunks.len()
            invariant
                k <= self.chunks@.len(),
                self.chunks@ == chunks,
                limits@.len() == chunks.len(),
                widths@.len() == cols,
                heights@.len() == rows,
                cols == extent(end.x),
                rows == extent(end.y),
                self.limit == old(self).limit,
                self.top == old(self).top,
                self.cast == old(self).cast,
                self.proj_helper == old(self).proj_helper,
                forall|x: int|
                    0 <= x < cols ==> #[trigger] widths@[x] == col_width(
                        chunks,
                        limits@,
                        start,
                        end,
                        x,
                        k as nat,
                    ),
                forall|y: int|
                    0 <= y < rows ==> #[trigger] heights@[y] == row_height(
                        chunks,
                        limits@,
                        start,
                        end,
                        y,
                        k as nat,
                    ),
            decreases self.chunks@.len() - k,
        {
            let c = self.chunks[k];
            let lim = limits[k];
            if start.x <= c.at.x && c.at.x <= end.x && start.y <= c.at.y && c.at.y <= end.y
                && c.at.x >= 0 && c.at.y >= 0 {
                let w: i32 = if lim.x < 0 {
                    0
                } else {
                    lim.x as i32 + 1
                };
                let h: i32 = if lim.y < 0 {
                    0
                } else {
                    lim.y as i32 + 1
                };
                let cx = c.at.x as usize;
                let cy = c.at.y as usize;
                if w > widths[cx] {
                    widths[cx] = w;
                }
                if h > heights[cy] {
                    heights[cy] = h;
                }
            }
            k += 1;
        }
        // The sums of the widths before each column and of the heights
        // before each row.
        let mut lefts: Vec<i32> = Vec::new();
        lefts.push(0);
        let mut x: usize = 0;
        while x < cols
            invariant
                x <= cols,
                cols <= 32768,
                widths@.len() == cols,
                lefts@.len() == x + 1,
                forall|j: int|
                    0 <= j < cols ==> #[trigger] widths@[j] == col_width(
                        chunks,
                        limits@,
                        start,
                        end,
                        j,
                        chunks.len(),
                    ),
                forall|j: int|
                    0 <= j <= x ==> #[trigger] lefts@[j] == left_of(chunks, limits@, start, end, j),
            decreases cols - x,
        {
            proof {
                lemma_sum_bounds(chunks, limits@, start, end, x as int);
                lemma_col_width_bounds(chunks, limits@, start, end, x as int, chunks.len());
            }
            let next = lefts[x] + widths[x];
            lefts.push(next);
            x += 1;
        }
        let mut tops: Vec<i32> = Vec::new();
        tops.push(0);
        let mut y: usize = 0;
        while y < rows
            invariant
                y <= rows,
                rows <= 32768,
                heights@.len() == rows,
                tops@.len() == y + 1,
                forall|j: int|
                    0 <= j < rows ==> #[trigger] heights@[j] == row_height(
                        chunks,
                        limits@,
                        start,
                        end,
                        j,
                        chunks.len(),
                    ),
                forall|j: int|
                    0 <= j <= y ==> #[trigger] tops@[j] == above(chunks, limits@, start, end, j),
            decreases rows - y,
        {
            proof {
                lemma_sum_bounds(chunks, limits@, start, end, y as int);
                lemma_col_width_bounds(chunks, limits@, start, end, y as int, chunks.len());
            }
            let next = tops[y] + heights[y];
            tops.push(next);
            y += 1;
        }
        // The new offset and limit of each chunk of the window.
        k = 0;
        while k < self.chunks.len()
            invariant
                k <= self.chunks@.len(),
                self.chunks@.len() == chunks.len(),
                limits@.len() == chunks.len(),
                cols == extent(end.x),
                rows == extent(end.y),
                lefts@.len() == cols + 1,
                tops@.len() == rows + 1,
                self.limit == old(self).limit,
                self.top == old(self).top,
                self.cast == old(self).cast,
                self.proj_helper == old(self).proj_helper,
                forall|j: int|
                    0 <= j <= cols ==> #[trigger] lefts@[j] == left_of(chunks, limits@, start, end, j),
                forall|j: int|
                    0 <= j <= rows ==> #[trigger] tops@[j] == above(chunks, limits@, start, end, j),
                forall|j: int|
                    0 <= j < k ==> #[trigger] self.chunks@[j] == placed_chunk(
                        chunks,
                        limits@,
                        start,
                        end,
                        j,
                    ),
                forall|j: int| k <= j < chunks.len() ==> self.chunks@[j] == chunks[j],
            decreases self.chunks@.len() - k,
        {
            let c = self.chunks[k];
            if start.x <= c.at.x && c.at.x <= end.x && start.y <= c.at.y && c.at.y <= end.y
                && c.at.x >= 0 && c.at.y >= 0 {
                self.chunks[k] = Chunk {
                    at: c.at,
                    offset: Vector2 {
                        x: clamped(lefts[c.at.x as usize]),
                        y: clamped(tops[c.at.y as usize]),
                    },
                    limit: limits[k],
                    view: c.view,
                };
            }
            k += 1;
        }
        let old_limit = self.limit;
        proof {
            lemma_sum_bounds(chunks, limits@, start, end, cols as int);
            lemma_sum_bounds(chunks, limits@, start, end, rows as int);
            if end.x < 0 {
                assert(left_of(chunks, limits@, start, end, end.x + 1) == 0);
            }
            if end.y < 0 {
                assert(above(chunks, limits@, start, end, end.y + 1) == 0);
            }
        }
        self.limit = Point2 { x: clamped(lefts[cols] - 1), y: clamped(tops[rows] - 1) };
        AreaMsg::Range(
            Key::Point(Point2 { x: 0, y: 0 }),
            Key::Point(
                Point2 {
                    x: if self.limit.x >= old_limit.x {
                        self.limit.x
                    } else {
                        old_limit.x
                    },
                    y: if self.limit.y >= old_limit.y {
                        self.limit.y
                    } else {
                        old_limit.y
                    },
                },
            ),
        )
    }
}


/// The position of the first chunk, from position `k` on, whose point does
/// not come before `at` in the order of a walk row by row: where a chunk for
/// `at` stands, or would stand, in a list that is ordered so.
pub open spec fn slot_of(chunks: Seq<Chunk>, at: Point2, k: nat) -> nat
    decreases chunks.len() - k,
{
    if k >= chunks.len() || rank(chunks[k as int].at) >= rank(at) {
        k
    } else {
        slot_of(chunks, at, k + 1)
    }
}

/// Whether `chunks` holds a chunk for `at` at the slot of the point.
pub open spec fn has_chunk(chunks: Seq<Chunk>, at: Point2) -> bool {
    let p = slot_of(chunks, at, 0);
    p < chunks.len() && chunks[p as int].at == at
}

/// The chunks stand in the order of a walk row by row over their points, and
/// no two stand for the same point.
pub open spec fn ordered(chunks: Seq<Chunk>) -> bool {
    forall|j: int, k: int|
        0 <= j < k < chunks.len() ==> rank((#[trigger] chunks[j]).at) < rank(
            (#[trigger] chunks[k]).at,
        )
}

/// `chunks` after the nested grid on `view` was put under `at`: a chunk that
/// was there keeps its offset and its limit, a new chunk has none of either.
pub open spec fn with_chunk(chunks: Seq<Chunk>, at: Point2, view: usize) -> Seq<Chunk> {
    let p = slot_of(chunks, at, 0) as int;
    if has_chunk(chunks, at) {
        chunks.update(p, Chunk { at, offset: chunks[p].offset, limit: chunks[p].limit, view })
    } else {
        chunks.insert(
            p,
            Chunk { at, offset: Vector2 { x: -1i16, y: -1i16 }, limit: Point2 { x: -1i16, y: -1i16 }, view },
        )
    }
}

/// `chunks` without the chunk for `at`.
pub open spec fn without_chunk(chunks: Seq<Chunk>, at: Point2) -> Seq<Chunk> {
    let p = slot_of(chunks, at, 0) as int;
    if has_chunk(chunks, at) {
        chunks.remove(p)
    } else {
        chunks
    }
}

/// Whether the box of the chunk `c` holds the flat point `pos`: the point
/// lies between the origin of the chunk and its last point, each moved by
/// the offset of the chunk.
pub open spec fn holds_point(c: Chunk, pos: Point2) -> bool {
    &&& c.offset.x <= pos.x <= c.limit.x + c.offset.x
    &&& c.offset.y <= pos.y <= c.limit.y + c.offset.y
}

/// The position of the first chunk of the window, from position `k` on,
/// whose box holds `pos`.
pub open spec fn chunk_for(chunks: Seq<Chunk>, pos: Point2, start: Point2, end: Point2, k: nat) -> Option<
    int,
>
    decreases chunks.len() - k,
{
    if k >= chunks.len() {
        None
    } else {
        let c = chunks[k as int];
        if start.x <= c.at.x <= end.x && start.y <= c.at.y <= end.y && holds_point(c, pos) {
            Some(k as int)
        } else {
            chunk_for(chunks, pos, start, end, k + 1)
        }
    }
}

impl Flatten {
    /// The position of the chunk for `at`, or of the place where it would
    /// stand.
    pub fn slot(&self, at: Point2) -> (p: usize)
        ensures
            p == slot_of(self.chunks@, at, 0),
            p <= self.chunks@.len(),
    {
        let r = rank_of(at);
        let mut k: usize = 0;
        while k < self.chunks.len() && rank_of(self.chunks[k].at) < r
            invariant
                k <= self.chunks@.len(),
                r == rank(at),
                slot_of(self.chunks@, at, k as nat) == slot_of(self.chunks@, at, 0),
            decreases self.chunks@.len() - k,
        {
            k += 1;
        }
        k
    }

    /// The chunk for `at`.
    pub fn chunk(&self, at: Point2) -> (c: Option<Chunk>)
        ensures
            c == if has_chunk(self.chunks@, at) {
                Some(self.chunks@[slot_of(self.chunks@, at, 0) as int])
            } else {
                None
            },
    {
        let p = self.slot(at);
        if p < self.chunks.len() && self.chunks[p].at == at {
            Some(self.chunks[p])
        } else {
            None
        }
    }

    /// Puts the nested grid on `view` under `at`; hands out the chunk that
    /// was there.
    pub fn put_chunk(&mut self, at: Point2, view: usize) -> (was: Option<Chunk>)
        ensures
            was == if has_chunk(old(self).chunks@, at) {
                Some(old(self).chunks@[slot_of(old(self).chunks@, at, 0) as int])
            } else {
                None
            },
            final(self).chunks@ == with_chunk(old(self).chunks@, at, view),
            final(self).limit == old(self).limit,
            final(self).top == old(self).top,
            final(self).cast == old(self).cast,
            final(self).proj_helper == old(self).proj_helper,
    {
        let p = self.slot(at);
        if p < self.chunks.len() && self.chunks[p].at == at {
            let was = self.chunks[p];
            self.chunks[p] = Chunk { at, offset: was.offset, limit: was.limit, view };
            Some(was)
        } else {
            self.chunks.insert(
                p,
                Chunk { at, offset: Vector2 { x: -1, y: -1 }, limit: Point2 { x: -1, y: -1 }, view },
            );
            None
        }
    }

    /// Drops the chunk for `at`; says whether there was one.
    pub fn remove_chunk(&mut self, at: Point2) -> (found: bool)
        ensures
            found == has_chunk(old(self).chunks@, at),
            final(self).chunks@ == without_chunk(old(self).chunks@, at),
            final(self).limit == old(self).limit,
            final(self).top == old(self).top,
            final(self).cast == old(self).cast,
            final(self).proj_helper == old(self).proj_helper,
    {
        let p = self.slot(at);
        if p < self.chunks.len() && self.chunks[p].at == at {
            self.chunks.remove(p);
            true
        } else {
            false
        }
    }

    /// The position of the chunk that holds the flat point `pos`: the first
    /// chunk of the window from `start` up to and with `end`, in the order of
    /// a walk row by row, whose box holds `pos`.
    pub fn get_chunk_idx(&self, pos: Point2, start: Point2, end: Point2) -> (r: Option<usize>)
        ensures
            match r {
                Some(k) => chunk_for(self.chunks@, pos, start, end, 0) == Some(k as int) && k
                    < self.chunks@.len(),
                None => chunk_for(self.chunks@, pos, start, end, 0).is_none(),
            },
    {
        let mut k: usize = 0;
        while k < self.chunks.len()
            invariant
                k <= self.chunks@.len(),
                chunk_for(self.chunks@, pos, start, end, k as nat) == chunk_for(
                    self.chunks@,
                    pos,
                    start,
                    end,
                    0,
                ),
            decreases self.chunks@.len() - k,
        {
            let c = self.chunks[k];
            if start.x <= c.at.x && c.at.x <= end.x && start.y <= c.at.y && c.at.y <= end.y
                && c.offset.x <= pos.x && c.offset.y <= pos.y && pos.x as i32 <= c.limit.x as i32
                + c.offset.x as i32 && pos.y as i32 <= c.limit.y as i32 + c.offset.y as i32 {
                return Some(k);
            }
            k += 1;
        }
        None
    }
}

/// The observer of one index dependency.  It collects the areas that the
/// upstream view announces in a queue; they reach the projection when the
/// argument is updated.
pub struct IndexArg {
    pub src: Option<usize>,
    pub notify: ArgHandler,
    pub owner: usize,
    pub rx: ChannelReceiver<Vec<AreaMsg>>,
    pub tx: ChannelSender,
}

/// The messages in which `area` waits in a queue: one for each key of a set
/// of keys, one for any other area.
pub open spec fn area_items(area: Area<Key>) -> Seq<AreaMsg> {
    match area {
        Area::Empty => seq![AreaMsg::Empty],
        Area::Full => seq![AreaMsg::Full],
        Area::Keys(keys) => Seq::new(keys.len(), |i: int| AreaMsg::Key(keys[i])),
        Area::Range { start, end } => seq![AreaMsg::Range(start, end)],
    }
}

impl IndexArg {
    /// The areas that wait for the projection, oldest first.
    pub open spec fn pending(&self) -> Seq<AreaMsg> {
        self.rx.pending()
    }

    /// The upstream view changed in `area`: the area waits for the next
    /// update.
    pub fn notify(&mut self, area: AreaMsg)
        ensures
            final(self).pending() == old(self).pending().push(area),
            final(self).src == old(self).src,
            final(self).notify == old(self).notify,
            final(self).owner == old(self).owner,
            final(self).tx == old(self).tx,
            final(self).rx.num_senders == old(self).rx.num_senders,
    {
        self.tx.send(&mut self.rx, area);
    }

    /// Queues `area`.
    pub fn notify_area(&mut self, area: &IndexArea<Key>)
        ensures
            final(self).pending() == old(self).pending() + area_items(area@),
            final(self).src == old(self).src,
            final(self).notify == old(self).notify,
            final(self).owner == old(self).owner,
            final(self).tx == old(self).tx,
            final(self).rx.num_senders == old(self).rx.num_senders,
    {
        match area {
            IndexArea::Empty => {
                self.notify(AreaMsg::Empty);
                proof {
                    assert(old(self).pending().push(AreaMsg::Empty) =~= old(self).pending()
                        + area_items(area@));
                }
            },
            IndexArea::Full => {
                self.notify(AreaMsg::Full);
                proof {
                    assert(old(self).pending().push(AreaMsg::Full) =~= old(self).pending()
                        + area_items(area@));
                }
            },
            IndexArea::Keys(keys) => {
                let mut i: usize = 0;
                proof {
                    assert(old(self).pending() + area_items(area@).subrange(0, 0) =~= old(
                        self,
                    ).pending());
                }
                while i < keys.len()
                    invariant
                        i <= keys@.len(),
                        area@ == Area::Keys(keys@),
                        self.pending() == old(self).pending() + area_items(area@).subrange(
                            0,
                            i as int,
                        ),
                        self.src == old(self).src,
                        self.notify == old(self).notify,
                        self.owner == old(self).owner,
                        self.tx == old(self).tx,
                        self.rx.num_senders == old(self).rx.num_senders,
                    decreases keys@.len() - i,
                {
                    self.notify(AreaMsg::Key(keys[i]));
                    proof {
                        let items = area_items(area@);
                        assert(items.subrange(0, i as int).push(items[i as int]) =~= items.subrange(
                            0,
                            i as int + 1,
                        ));
                        assert((old(self).pending() + items.subrange(0, i as int)).push(
                            items[i as int],
                        ) =~= old(self).pending() + items.subrange(0, i as int + 1));
                    }
                    i += 1;
                }
                proof {
                    assert(area_items(area@).subrange(0, i as int) =~= area_items(area@));
                }
            },
            IndexArea::Range { start, end } => {
                self.notify(AreaMsg::Range(*start, *end));
                proof {
                    assert(old(self).pending().push(AreaMsg::Range(*start, *end)) =~= old(
                        self,
                    ).pending() + area_items(area@));
                }
            },
        }
    }

    /// Rebinds to the upstream view `new_src`: the area that the old view
    /// had and the area that the new view has wait for the next update.
    pub fn reset(&mut self, new_src: Option<usize>, old_area: &IndexArea<Key>, new_area: &IndexArea<Key>)
        ensures
            final(self).pending() == old(self).pending() + area_items(old_area@) + area_items(
                new_area@,
            ),
            final(self).src == new_src,
            final(self).notify == old(self).notify,
            final(self).owner == old(self).owner,
            final(self).tx == old(self).tx,
            final(self).rx.num_senders == old(self).rx.num_senders,
    {
        self.src = new_src;
        self.notify_area(old_area);
        self.notify_area(new_area);
    }
}


/// The points among `keys`, in their order.
pub open spec fn points_of(keys: Seq<Key>) -> Seq<Point2>
    decreases keys.len(),
{
    if keys.len() == 0 {
        Seq::empty()
    } else {
        match keys.last() {
            Key::Point(p) => points_of(keys.drop_last()).push(p),
            _ => points_of(keys.drop_last()),
        }
    }
}

/// The corners of the smallest window that holds the points of `area`.  An
/// area without points, and the full area, have the empty window at the
/// origin.
pub open spec fn key_bounds(area: Area<Key>) -> (Point2, Point2) {
    match area {
        Area::Keys(keys) => bounds(Area::Keys(points_of(keys))),
        Area::Range { start: Key::Point(a), end: Key::Point(b) } => (a, b),
        _ => (Point2 { x: 0i16, y: 0i16 }, Point2 { x: -1i16, y: -1i16 }),
    }
}

/// The corners of the smallest window that holds the points of `area`.
pub fn window_of(area: &IndexArea<Key>) -> (r: (Point2, Point2))
    ensures
        r == key_bounds(area@),
{
    match area {
        IndexArea::Keys(keys) => {
            let mut lo = Point2 { x: 32767, y: 32767 };
            let mut hi = Point2 { x: -32768, y: -32768 };
            let mut i: usize = 0;
            while i < keys.len()
                invariant
                    i <= keys@.len(),
                    lo.x == min_x(points_of(keys@.subrange(0, i as int))),
                    lo.y == min_y(points_of(keys@.subrange(0, i as int))),
                    hi.x == max_x(points_of(keys@.subrange(0, i as int))),
                    hi.y == max_y(points_of(keys@.subrange(0, i as int))),
                decreases keys@.len() - i,
            {
                proof {
                    assert(keys@.subrange(0, i as int + 1).drop_last() =~= keys@.subrange(
                        0,
                        i as int,
                    ));
                    let pts = points_of(keys@.subrange(0, i as int));
                    match keys@[i as int] {
                        Key::Point(p) => {
                            assert(pts.push(p).drop_last() =~= pts);
                        },
                        _ => {},
                    }
                }
                match keys[i] {
                    Key::Point(p) => {
                        if p.x < lo.x {
                            lo.x = p.x;
                        }
                        if p.y < lo.y {
                            lo.y = p.y;
                        }
                        if p.x > hi.x {
                            hi.x = p.x;
                        }
                        if p.y > hi.y {
                            hi.y = p.y;
                        }
                    },
                    _ => {},
                }
                i += 1;
            }
            proof {
                assert(keys@.subrange(0, i as int) =~= keys@);
            }
            (lo, hi)
        },
        IndexArea::Range { start: Key::Point(a), end: Key::Point(b) } => (*a, *b),
        _ => (Point2 { x: 0, y: 0 }, Point2 { x: -1, y: -1 }),
    }
}

/// The points of the outer grid that a message names: the point of a key,
/// the points of a range of points row by row, and none for any other area.
pub open spec fn grid_points(msg: AreaMsg) -> Seq<Point2> {
    match msg {
        AreaMsg::Key(Key::Point(p)) => seq![p],
        AreaMsg::Range(Key::Point(a), Key::Point(b)) => range_points(a, b),
        _ => Seq::empty(),
    }
}

/// The chunks after the offsets were recomputed.
pub open spec fn placed(chunks: Seq<Chunk>, limits: Seq<Point2>, start: Point2, end: Point2) -> Seq<
    Chunk,
> {
    Seq::new(chunks.len(), |k: int| placed_chunk(chunks, limits, start, end, k))
}

/// The message for the area that may differ after a recomputation of the
/// offsets: from the origin up to the larger of the old and the new last
/// point.
pub open spec fn refresh_msg(old_limit: Point2, new_limit: Point2) -> AreaMsg {
    AreaMsg::Range(
        Key::Point(Point2 { x: 0, y: 0 }),
        Key::Point(
            Point2 { x: upper(new_limit.x, old_limit.x), y: upper(new_limit.y, old_limit.y) },
        ),
    )
}

/// The message for the area of a chunk whose nested grid was replaced: from
/// its origin up to the larger of its old and its new last point.
pub open spec fn replaced_msg(chunk: Chunk, new_limit: Point2) -> AreaMsg {
    AreaMsg::Range(
        Key::Point(Point2 { x: chunk.offset.x, y: chunk.offset.y }),
        Key::Point(
            Point2 {
                x: clamp(chunk.offset.x + upper(chunk.limit.x, new_limit.x)),
                y: clamp(chunk.offset.y + upper(chunk.limit.y, new_limit.y)),
            },
        ),
    )
}

impl<T: Copy, F: Fn(&T) -> T, P: Fn(&T) -> bool> Graph<T, F, P> {
    /// The flattening of grids at `node`.
    pub open spec fn grid_at(&self, node: usize) -> Option<Flatten> {
        if node < self.nodes@.len() {
            match self.nodes@[node as int] {
                Node::FlattenGrid(f) => Some(f),
                _ => None,
            }
        } else {
            None
        }
    }

    /// The corners of the smallest window that holds the grid that `port`
    /// publishes.
    pub open spec fn grid_window(&self, port: usize) -> (Point2, Point2) {
        key_bounds(self.opt_idx_area_at(self.view_of(port), self.depth()))
    }

    /// The last points that the nested grids of `chunks` have now.
    pub open spec fn grid_limits(&self, chunks: Seq<Chunk>) -> Seq<Point2> {
        Seq::new(chunks.len(), |k: int| self.grid_window(chunks[k].view).1)
    }

    /// The port of the nested grid under `key` of the grid that `port`
    /// publishes.
    pub open spec fn idx_nested_at(&self, port: usize, key: Key) -> Option<usize> {
        match self.view_of(port) {
            Some(view) => self.idx_view_at(view, key),
            None => None,
        }
    }

    /// `self` is `pre`, but the flattening of grids at `node` has the chunks
    /// `chunks` and the last point `limit`, and `msgs` are queued on its
    /// port.
    pub open spec fn grid_stepped(
        &self,
        pre: &Self,
        node: usize,
        chunks: Seq<Chunk>,
        limit: Point2,
        msgs: Seq<Msg<T>>,
    ) -> bool {
        match (pre.grid_at(node), self.grid_at(node)) {
            (Some(f), Some(g)) => {
                &&& self.stepped(pre, node, f.cast, msgs)
                &&& g.chunks@ == chunks
                &&& g.limit == limit
                &&& g.top == f.top
                &&& g.cast == f.cast
                &&& g.proj_helper == f.proj_helper
            },
            _ => false,
        }
    }

    /// What it means that the offsets of the flattening of grids at `node`
    /// of `pre` were recomputed, after `first` was queued on its port, and
    /// `self` is the outcome.
    pub open spec fn grid_refreshed(&self, pre: &Self, node: usize, first: Seq<Msg<T>>) -> bool {
        match pre.grid_at(node) {
            Some(f) => {
                let lims = pre.grid_limits(f.chunks@);
                let w = pre.grid_window(f.top);
                let limit = flat_limit(f.chunks@, lims, w.0, w.1);
                self.grid_stepped(
                    pre,
                    node,
                    placed(f.chunks@, lims, w.0, w.1),
                    limit,
                    first.push(Msg::Area(refresh_msg(f.limit, limit))),
                )
            },
            None => self.same(pre),
        }
    }

    /// The projection and the handler that the index argument at `arg` runs
    /// for: none unless the argument is alive, its owner names a projection,
    /// and the projection is alive.
    pub open spec fn runnable_index(&self, arg: usize) -> Option<(usize, ArgHandler)> {
        if is_live(self.alive@, arg) && arg < self.nodes@.len() {
            match self.nodes@[arg as int] {
                Node::IndexArg(a) => match self.helper_at(a.owner) {
                    Some(h) => match h.proj {
                        Some(p) => if is_live(self.alive@, p) && p < self.nodes@.len() {
                            Some((p, a.notify))
                        } else {
                            None
                        },
                        None => None,
                    },
                    None => None,
                },
                _ => None,
            }
        } else {
            None
        }
    }

    /// The areas that wait in the queue of the index argument at `arg`.
    pub open spec fn index_arg_pending(&self, arg: usize) -> Seq<AreaMsg> {
        if arg < self.nodes@.len() {
            match self.nodes@[arg as int] {
                Node::IndexArg(a) => a.rx.pending(),
                _ => Seq::empty(),
            }
        } else {
            Seq::empty()
        }
    }

    /// The upstream view of the index argument at `arg`.
    pub open spec fn index_arg_src(&self, arg: usize) -> Option<usize> {
        if arg < self.nodes@.len() {
            match self.nodes@[arg as int] {
                Node::IndexArg(a) => a.src,
                _ => None,
            }
        } else {
            None
        }
    }

    /// `self` is `pre`, but the index argument at `arg` has the source `src`
    /// and the areas `pending` in its queue.
    pub open spec fn index_arg_received(
        &self,
        pre: &Self,
        arg: usize,
        src: Option<usize>,
        pending: Seq<AreaMsg>,
    ) -> bool {
        &&& self.alive@ == pre.alive@
        &&& self.ports@ == pre.ports@
        &&& self.nodes@.len() == pre.nodes@.len()
        &&& forall|n: int|
            0 <= n < self.nodes@.len() && n != arg ==> self.nodes@[n] == pre.nodes@[n]
        &&& match (pre.nodes@[arg as int], self.nodes@[arg as int]) {
            (Node::IndexArg(a), Node::IndexArg(b)) => {
                &&& b.src == src
                &&& b.notify == a.notify
                &&& b.owner == a.owner
                &&& b.tx == a.tx
                &&& b.rx.num_senders == a.rx.num_senders
                &&& b.rx.pending() == pending
            },
            _ => false,
        }
    }

    /// What it means that the projection at `proj` handled each of `msgs`
    /// with `handler`, one after the other, and `self` is the outcome.
    pub open spec fn areas_handled(
        &self,
        pre: &Self,
        proj: usize,
        handler: ArgHandler,
        msgs: Seq<AreaMsg>,
        fuel: nat,
    ) -> bool
        decreases fuel, 4nat, msgs.len(),
    {
        if msgs.len() == 0 {
            self.same(pre)
        } else {
            exists|mid: Self|
                #[trigger] mid.extends(pre) && mid.areas_handled(
                    pre,
                    proj,
                    handler,
                    msgs.drop_last(),
                    fuel,
                ) && self.area_handled(&mid, proj, handler, msgs.last(), fuel)
        }
    }

    /// What it means that the projection at `proj` handled the area `msg`
    /// with `handler` and `self` is the outcome.
    pub open spec fn area_handled(
        &self,
        pre: &Self,
        proj: usize,
        handler: ArgHandler,
        msg: AreaMsg,
        fuel: nat,
    ) -> bool
        decreases fuel, 3nat, 0nat,
    {
        match handler {
            ArgHandler::GridTop => self.grid_points_changed(pre, proj, grid_points(msg), fuel),
            ArgHandler::GridChunk(at) => self.grid_chunk_changed(pre, proj, at, msg),
            _ => self.same(pre),
        }
    }

    /// What it means that the outer grid of the flattening at `node` changed
    /// at each of `points`, one after the other, and `self` is the outcome.
    pub open spec fn grid_points_changed(
        &self,
        pre: &Self,
        node: usize,
        points: Seq<Point2>,
        fuel: nat,
    ) -> bool
        decreases fuel, 2nat, 10 + points.len(),
    {
        if points.len() == 0 {
            self.same(pre)
        } else {
            exists|mid: Self|
                #[trigger] mid.extends(pre) && mid.grid_points_changed(
                    pre,
                    node,
                    points.drop_last(),
                    fuel,
                ) && self.grid_top_changed(&mid, node, points.last(), fuel)
        }
    }

    /// An observer of an index for the projection at `owner`, with nothing
    /// in its queue.
    pub open spec fn fresh_index_arg(node: Node<T, F, P>, owner: usize, handler: ArgHandler) -> bool {
        match node {
            Node::IndexArg(a) => {
                &&& a.src.is_none()
                &&& a.notify == handler
                &&& a.owner == owner
                &&& a.rx.send_buf.is_none()
                &&& a.rx.num_senders == 1
            },
            _ => false,
        }
    }

    /// What it means that the projection at `owner` of `pre` took the index
    /// on `port` as its dependency `key` and `self` is the outcome.
    pub open spec fn index_arg_renewed(
        &self,
        pre: &Self,
        owner: usize,
        key: usize,
        port: usize,
        handler: ArgHandler,
        fuel: nat,
    ) -> bool
        decreases fuel, 2nat, 1nat,
    {
        exists|arg_node: Node<T, F, P>|
            self.arg_renewed(pre, owner, key, port, arg_node, fuel)
                && #[trigger] Self::fresh_index_arg(arg_node, owner, handler)
    }

    /// What it means that the outer grid of the flattening at `node` of
    /// `pre` changed at `at` and `self` is the outcome.  If the outer grid
    /// names a nested grid there, the flattening takes it as its dependency
    /// for the point and puts a chunk for it; the area of a chunk that was
    /// there is announced.  Else it drops the dependency and the chunk.  The
    /// offsets are recomputed, unless nothing was there to drop.
    pub open spec fn grid_top_changed(&self, pre: &Self, node: usize, at: Point2, fuel: nat) -> bool
        decreases fuel, 2nat, 2nat,
    {
        match pre.grid_at(node) {
            Some(f) => match pre.idx_nested_at(f.top, Key::Point(at)) {
                Some(port) => exists|m1: Self, m2: Self|
                    #[trigger] Self::in_turn(m1, m2, m2) && m1.index_arg_renewed(
                        pre,
                        node,
                        rank(at) as usize,
                        port,
                        ArgHandler::GridChunk(at),
                        fuel,
                    ) && (match m1.grid_at(node) {
                        Some(g) => m2.grid_stepped(
                            &m1,
                            node,
                            with_chunk(g.chunks@, at, port),
                            g.limit,
                            if has_chunk(g.chunks@, at) {
                                seq![
                                    Msg::Area(
                                        replaced_msg(
                                            g.chunks@[slot_of(g.chunks@, at, 0) as int],
                                            m1.grid_window(port).1,
                                        ),
                                    ),
                                ]
                            } else {
                                Seq::empty()
                            },
                        ),
                        None => m2.same(&m1),
                    }) && self.grid_refreshed(&m2, node, Seq::empty()),
                None => exists|m1: Self, m2: Self|
                    #[trigger] Self::in_turn(m1, m2, m2) && m1.arg_dropped(
                        pre,
                        node,
                        rank(at) as usize,
                    ) && (match m1.grid_at(node) {
                        Some(g) => if has_chunk(g.chunks@, at) {
                            m2.grid_stepped(
                                &m1,
                                node,
                                without_chunk(g.chunks@, at),
                                g.limit,
                                Seq::empty(),
                            ) && self.grid_refreshed(&m2, node, Seq::empty())
                        } else {
                            self.same(&m1)
                        },
                        None => self.same(&m1),
                    }),
            },
            None => self.same(pre),
        }
    }

    /// What it means that the nested grid at `at` of the flattening at
    /// `node` of `pre` changed in the area `msg` and `self` is the outcome.
    /// With a chunk for the point, the offsets are recomputed if the last
    /// point of the nested grid is not the one of the chunk, and the area is
    /// announced, moved by the offset that the chunk has then.  Without one,
    /// nothing happens.
    pub open spec fn grid_chunk_changed(&self, pre: &Self, node: usize, at: Point2, msg: AreaMsg) -> bool {
        match pre.grid_at(node) {
            Some(f) => if has_chunk(f.chunks@, at) {
                let k = slot_of(f.chunks@, at, 0) as int;
                let chunk = f.chunks@[k];
                if chunk.limit != pre.grid_window(chunk.view).1 {
                    let lims = pre.grid_limits(f.chunks@);
                    let w = pre.grid_window(f.top);
                    let moved = placed_chunk(f.chunks@, lims, w.0, w.1, k);
                    let limit = flat_limit(f.chunks@, lims, w.0, w.1);
                    self.grid_stepped(
                        pre,
                        node,
                        placed(f.chunks@, lims, w.0, w.1),
                        limit,
                        seq![
                            Msg::Area(refresh_msg(f.limit, limit)),
                            Msg::Area(map_msg(KeyMap::Offset(moved.offset), msg)),
                        ],
                    )
                } else {
                    self.grid_stepped(
                        pre,
                        node,
                        f.chunks@,
                        f.limit,
                        seq![Msg::Area(map_msg(KeyMap::Offset(chunk.offset), msg))],
                    )
                }
            } else {
                self.same(pre)
            },
            None => self.same(pre),
        }
    }
}


impl<T: Copy, F: Fn(&T) -> T, P: Fn(&T) -> bool> Graph<T, F, P> {
    /// The corners of the smallest window that holds the grid that `port`
    /// publishes.
    pub fn window_at(&self, port: usize) -> (r: (Point2, Point2))
        requires
            self.wf(),
        ensures
            r == self.grid_window(port),
    {
        let area = self.opt_idx_area(self.port_view(port), self.nodes.len());
        window_of(&area)
    }

    /// Recomputes the offsets of the flattening of grids at `node`, and
    /// queues `first` and then the message of the recomputation on its port.
    pub fn refresh_grid(&mut self, node: usize, first: Vec<Msg<T>>)
        requires
            old(self).wf(),
        ensures
            final(self).wf(),
            final(self).extends(old(self)),
            final(self).nodes@.len() == old(self).nodes@.len(),
            final(self).grid_refreshed(old(self), node, first@),
    {
        if node >= self.nodes.len() {
            return ;
        }
        let mut limits: Vec<Point2> = Vec::new();
        let (cast, top) = match &self.nodes[node] {
            Node::FlattenGrid(f) => {
                let mut k: usize = 0;
                while k < f.chunks.len()
                    invariant
                        self.wf(),
                        k <= f.chunks@.len(),
                        limits@.len() == k,
                        forall|j: int| 0 <= j < k ==> limits@[j] == self.grid_limits(f.chunks@)[j],
                    decreases f.chunks@.len() - k,
                {
                    let w = self.window_at(f.chunks[k].view);
                    limits.push(w.1);
                    k += 1;
                }
                proof {
                    assert(limits@ =~= self.grid_limits(f.chunks@));
                }
                (f.cast, f.top)
            },
            _ => {
                return ;
            },
        };
        let (start, end) = self.window_at(top);
        let mut out = first;
        match &mut self.nodes[node] {
            Node::FlattenGrid(f) => {
                let msg = f.update_all_offsets(start, end, &limits);
                out.push(Msg::Area(msg));
            },
            _ => {},
        }
        proof {
            assert(self.ports@ =~= old(self).ports@);
            let f = old(self).grid_at(node).unwrap();
            let g = self.grid_at(node).unwrap();
            assert(g.chunks@ =~= placed(f.chunks@, limits@, start, end));
            assert(old(self).nodes@[node as int].wf(self.ports@.len(), self.nodes@.len()));
            assert forall|k: int| 0 <= k < g.chunks@.len() implies (#[trigger] g.chunks@[k]).view
                < self.ports@.len() by {
                assert(g.chunks@[k].view == f.chunks@[k].view);
            }
            self.lemma_wf_after_step(old(self), node);
        }
        self.emit(cast, out);
    }

    /// Changes the chunks of the flattening of grids at `node`: puts the
    /// nested grid on `view` under `at`, or drops the chunk for `at` where
    /// `view` is none; `msgs` are queued on its port.  Hands out the chunk
    /// that was there.
    pub fn set_grid_chunk(&mut self, node: usize, at: Point2, view: Option<usize>) -> (was: Option<
        Chunk,
    >)
        requires
            old(self).wf(),
            opt_ok(view, old(self).ports@.len()),
        ensures
            final(self).wf(),
            final(self).extends(old(self)),
            final(self).nodes@.len() == old(self).nodes@.len(),
            match old(self).grid_at(node) {
                Some(g) => {
                    &&& final(self).grid_stepped(
                        old(self),
                        node,
                        match view {
                            Some(port) => with_chunk(g.chunks@, at, port),
                            None => without_chunk(g.chunks@, at),
                        },
                        g.limit,
                        Seq::empty(),
                    )
                    &&& was == if has_chunk(g.chunks@, at) {
                        Some(g.chunks@[slot_of(g.chunks@, at, 0) as int])
                    } else {
                        None
                    }
                },
                None => final(self).same(old(self)) && was.is_none(),
            },
    {
        if node >= self.nodes.len() {
            return None;
        }
        match &self.nodes[node] {
            Node::FlattenGrid(_) => {},
            _ => {
                return None;
            },
        }
        let was = match &mut self.nodes[node] {
            Node::FlattenGrid(f) => match view {
                Some(port) => f.put_chunk(at, port),
                None => {
                    let was = f.chunk(at);
                    f.remove_chunk(at);
                    was
                },
            },
            _ => None,
        };
        proof {
            assert(self.ports@ =~= old(self).ports@);
            let f = old(self).grid_at(node).unwrap();
            let g = self.grid_at(node).unwrap();
            assert(old(self).nodes@[node as int].wf(self.ports@.len(), self.nodes@.len()));
            lemma_grid_slot_bounds(f.chunks@, at, 0);
            assert forall|k: int| 0 <= k < g.chunks@.len() implies (#[trigger] g.chunks@[k]).view
                < self.ports@.len() by {
                let p = slot_of(f.chunks@, at, 0) as int;
                match view {
                    Some(port) => {
                        if has_chunk(f.chunks@, at) {
                            if k != p {
                                assert(g.chunks@[k] == f.chunks@[k]);
                            }
                        } else {
                            if k < p {
                                assert(g.chunks@[k] == f.chunks@[k]);
                            } else if k > p {
                                assert(g.chunks@[k] == f.chunks@[k - 1]);
                            }
                        }
                    },
                    None => {
                        if has_chunk(f.chunks@, at) {
                            if k < p {
                                assert(g.chunks@[k] == f.chunks@[k]);
                            } else {
                                assert(g.chunks@[k] == f.chunks@[k + 1]);
                            }
                        } else {
                            assert(g.chunks@[k] == f.chunks@[k]);
                        }
                    },
                }
            }
            self.lemma_wf_after_step(old(self), node);
            let cast = f.cast;
            if cast < self.ports@.len() {
                assert(self.ports@[cast as int].cast.pending() + Seq::<Msg<T>>::empty()
                    =~= self.ports@[cast as int].cast.pending());
            }
        }
        was
    }

    /// Takes the index on `port` as the dependency `key` of the projection
    /// at `owner`, in place of the one that was under the key.
    pub fn new_index_arg(
        &mut self,
        owner: usize,
        key: usize,
        port: usize,
        handler: ArgHandler,
        fuel: usize,
    )
        requires
            old(self).wf(),
            port < old(self).ports@.len(),
            owner < old(self).nodes@.len(),
        ensures
            final(self).wf(),
            final(self).extends(old(self)),
            final(self).index_arg_renewed(old(self), owner, key, port, handler, fuel as nat),
        decreases fuel, 3nat,
    {
        let (tx, rx) = queue_channel::<AreaMsg>();
        let arg = IndexArg { src: None, notify: handler, owner, rx, tx };
        let ghost made = Node::<T, F, P>::IndexArg(arg);
        self.new_arg(owner, key, port, Node::IndexArg(arg), fuel);
        proof {
            assert(Self::fresh_index_arg(made, owner, handler));
        }
    }


    /// The nested grid at `at` of the flattening at `node` changed in the
    /// area `msg`.
    pub fn grid_chunk_notified(&mut self, node: usize, at: Point2, msg: AreaMsg)
        requires
            old(self).wf(),
        ensures
            final(self).wf(),
            final(self).extends(old(self)),
            final(self).nodes@.len() == old(self).nodes@.len(),
            final(self).grid_chunk_changed(old(self), node, at, msg),
    {
        if node >= self.nodes.len() {
            return ;
        }
        let (slot, chunk, cast) = match &self.nodes[node] {
            Node::FlattenGrid(f) => (f.slot(at), f.chunk(at), f.cast),
            _ => {
                return ;
            },
        };
        match chunk {
            Some(chunk) => {
                let limit = self.window_at(chunk.view).1;
                if chunk.limit != limit {
                    self.refresh_grid(node, Vec::new());
                    let ghost mid = *self;
                    let moved = match &self.nodes[node] {
                        Node::FlattenGrid(f) => if slot < f.chunks.len() {
                            f.chunks[slot].offset
                        } else {
                            chunk.offset
                        },
                        _ => chunk.offset,
                    };
                    let mapped = msg.map_keys(KeyMap::Offset(moved));
                    self.emit(cast, one_msg(Msg::Area(mapped)));
                    proof {
                        let f = old(self).grid_at(node).unwrap();
                        let lims = old(self).grid_limits(f.chunks@);
                        let w = old(self).grid_window(f.top);
                        let limit = flat_limit(f.chunks@, lims, w.0, w.1);
                        let first = Seq::<Msg<T>>::empty().push(
                            Msg::Area(refresh_msg(f.limit, limit)),
                        );
                        assert(first + seq![Msg::Area(mapped)] =~= seq![
                            Msg::Area(refresh_msg(f.limit, limit)),
                            Msg::Area(mapped),
                        ]);
                        if cast < self.ports@.len() {
                            let p0 = old(self).ports@[cast as int].cast.pending();
                            assert((p0 + first) + seq![Msg::Area(mapped)] =~= p0 + (first + seq![
                                Msg::Area(mapped),
                            ]));
                        }
                    }
                } else {
                    self.emit(cast, one_msg(Msg::Area(msg.map_keys(KeyMap::Offset(chunk.offset)))));
                }
            },
            None => {},
        }
    }

    /// Lets the projection at `proj` handle the area `msg` with `handler`.
    pub fn run_area_handler(&mut self, proj: usize, handler: ArgHandler, msg: AreaMsg, fuel: usize)
        requires
            old(self).wf(),
        ensures
            final(self).wf(),
            final(self).extends(old(self)),
            final(self).area_handled(old(self), proj, handler, msg, fuel as nat),
        decreases fuel, 5nat,
    {
        match handler {
            ArgHandler::GridTop => {
                let (start, end) = match msg {
                    AreaMsg::Key(Key::Point(p)) => (p, p),
                    AreaMsg::Range(Key::Point(a), Key::Point(b)) => (a, b),
                    _ => {
                        return ;
                    },
                };
                let mut it = GridWindowIterator::from_inclusive(start, end);
                proof {
                    lemma_one_point(start);
                    assert(it.points() =~= grid_points(msg));
                    assert(it.points().subrange(0, 0) =~= Seq::<Point2>::empty());
                }
                loop
                    invariant
                        handler == ArgHandler::GridTop,
                        it.wf(),
                        it.points() == grid_points(msg),
                        self.wf(),
                        self.extends(old(self)),
                        self.grid_points_changed(
                            old(self),
                            proj,
                            it.points().subrange(0, it.index as int),
                            fuel as nat,
                        ),
                    decreases it.points().len() - it.index,
                {
                    let ghost before = it.index;
                    let ghost mid = *self;
                    match it.next() {
                        Some(p) => {
                            Flatten::update_chunk(self, proj, p, fuel);
                            proof {
                                let now = it.points().subrange(0, it.index as int);
                                assert(now.drop_last() =~= it.points().subrange(0, before as int));
                                assert(now.last() == p);
                                assert(mid.extends(old(self)));
                                assert(self.grid_points_changed(old(self), proj, now, fuel as nat));
                            }
                        },
                        None => {
                            proof {
                                assert(it.points().subrange(0, it.index as int) =~= it.points());
                                assert(self.grid_points_changed(
                                    old(self),
                                    proj,
                                    grid_points(msg),
                                    fuel as nat,
                                ));
                            }
                            return ;
                        },
                    }
                }
            },
            ArgHandler::GridChunk(at) => self.grid_chunk_notified(proj, at, msg),
            _ => {},
        }
    }

    /// Drains the queue of the index argument at `arg` and lets its
    /// projection handle each area.
    pub fn update_index_arg(&mut self, arg: usize, fuel: usize)
        requires
            old(self).wf(),
            arg < old(self).nodes@.len(),
            is_live(old(self).alive@, arg),
            old(self).nodes@[arg as int] is IndexArg,
        ensures
            final(self).wf(),
            final(self).extends(old(self)),
            final(self).arg_ran(old(self), arg, fuel as nat),
        decreases fuel, 6nat,
    {
        let (owner, handler) = match &self.nodes[arg] {
            Node::IndexArg(a) => (a.owner, a.notify),
            _ => {
                return ;
            },
        };
        let proj = match self.nodes[owner].helper_links() {
            Some((_, proj)) => proj,
            None => None,
        };
        let proj = match proj {
            Some(p) => {
                if p < self.nodes.len() && self.alive[p] {
                    p
                } else {
                    return ;
                }
            },
            None => {
                return ;
            },
        };
        let msgs: Vec<AreaMsg> = match &mut self.nodes[arg] {
            Node::IndexArg(a) => match a.rx.try_recv() {
                Some(buf) => buf.into_items(),
                None => Vec::new(),
            },
            _ => Vec::new(),
        };
        let ghost taken = *self;
        proof {
            assert(self.ports@ =~= old(self).ports@);
            self.lemma_wf_after_step(old(self), arg);
            assert(taken.index_arg_received(
                old(self),
                arg,
                old(self).index_arg_src(arg),
                Seq::empty(),
            ));
            assert(msgs@ == old(self).index_arg_pending(arg));
        }
        let mut i: usize = 0;
        while i < msgs.len()
            invariant
                i <= msgs@.len(),
                self.wf(),
                self.extends(&taken),
                self.areas_handled(&taken, proj, handler, msgs@.subrange(0, i as int), fuel as nat),
            decreases msgs@.len() - i,
        {
            let ghost mid = *self;
            self.run_area_handler(proj, handler, msgs[i], fuel);
            proof {
                let now = msgs@.subrange(0, i as int + 1);
                assert(now.drop_last() =~= msgs@.subrange(0, i as int));
                assert(now.last() == msgs@[i as int]);
                assert(mid.extends(&taken));
                assert(self.areas_handled(&taken, proj, handler, now, fuel as nat));
            }
            i += 1;
        }
        proof {
            assert(msgs@.subrange(0, i as int) =~= msgs@);
        }
    }
}

/// The window from a point up to and with itself holds the point alone.
pub proof fn lemma_one_point(p: Point2)
    ensures
        range_points(p, p) =~= seq![p],
{
    assert(span(p.x, p.x + 1) == 1);
    assert(span(p.y, p.y + 1) == 1);
    assert(range_points(p, p)[0] == p);
}

/// The slot of a point: every chunk before it, from `k` on, comes earlier
/// in the order of a walk row by row, and the chunk at it, if any, does not.
pub proof fn lemma_grid_slot_bounds(chunks: Seq<Chunk>, at: Point2, k: nat)
    requires
        k <= chunks.len(),
    ensures
        k <= slot_of(chunks, at, k) <= chunks.len(),
        forall|j: int| k <= j < slot_of(chunks, at, k) ==> rank((#[trigger] chunks[j]).at) < rank(at),
        slot_of(chunks, at, k) < chunks.len() ==> rank(chunks[slot_of(chunks, at, k) as int].at)
            >= rank(at),
    decreases chunks.len() - k,
{
    if k < chunks.len() && rank(chunks[k as int].at) < rank(at) {
        lemma_grid_slot_bounds(chunks, at, k + 1);
    }
}


/// A flattening of the grid on `top` without chunks, whose last point lies
/// at the origin, which announces on `out` and whose helper keeps its hooks
/// in the hook chain of `out`.
pub open spec fn fresh_flatten(flat: Flatten, top: usize, out: usize) -> bool {
    &&& flat.limit == Point2 { x: 0, y: 0 }
    &&& flat.top == top
    &&& flat.chunks@ == Seq::<Chunk>::empty()
    &&& flat.cast == out
    &&& flat.proj_helper.keepalive@ == Seq::<Keepalive>::empty()
    &&& flat.proj_helper.proj.is_none()
    &&& flat.proj_helper.update_hooks == out
}

/// The key under which a flattening of grids keeps the outer grid as its
/// dependency: the rank of the point left of and above the origin.
pub open spec fn top_key() -> usize {
    rank(Point2 { x: -1i16, y: -1i16 }) as usize
}

impl Flatten {
    /// A flattening of the grid of views on `top_port`, published on
    /// `out_port`.
    pub fn new<T: Copy, F: Fn(&T) -> T, P: Fn(&T) -> bool>(
        g: &mut Graph<T, F, P>,
        top_port: OuterViewPort<Index>,
        out_port: InnerViewPort<Index>,
    ) -> (view: ViewRef<Index>)
        requires
            old(g).wf(),
            top_port.0.valid(old(g)),
            out_port.0.valid(old(g)),
            old(g).ports@.len() < usize::MAX,
        ensures
            final(g).wf(),
            final(g).sized(old(g)),
            view.node == old(g).nodes@.len(),
            final(g).view_of(out_port.0.id) == Some(view.node),
            exists|flat: Flatten|
                #[trigger] final(g).installed(
                    old(g),
                    top_port.0.id,
                    out_port.0.id,
                    Node::FlattenGrid(flat),
                    top_key(),
                    ArgHandler::GridTop,
                ) && fresh_flatten(flat, top_port.0.id, out_port.0.id),
    {
        let flat = Flatten {
            limit: Point2 { x: 0, y: 0 },
            top: top_port.0.id,
            chunks: Vec::new(),
            cast: out_port.0.id,
            proj_helper: ProjectionHelper::new(out_port.0.id),
        };
        let ghost made = flat;
        let node = g.install(
            top_port.0.id,
            out_port.0.id,
            Node::FlattenGrid(flat),
            rank_of(Point2 { x: -1, y: -1 }),
            ArgHandler::GridTop,
        );
        proof {
            assert(g.installed(
                old(g),
                top_port.0.id,
                out_port.0.id,
                Node::FlattenGrid(made),
                top_key(),
                ArgHandler::GridTop,
            ));
        }
        ViewRef { node, shape: Index }
    }
}

impl OuterViewPort<Index> {
    /// The grid that is laid out of the grids that the items of this grid
    /// name, on a new port.  The new port pulls this one before it updates.
    pub fn flatten<T: Copy, F: Fn(&T) -> T, P: Fn(&T) -> bool>(&self, g: &mut Graph<T, F, P>) -> (port:
        OuterViewPort<Index>)
        requires
            old(g).wf(),
            self.0.valid(old(g)),
            old(g).ports@.len() + 1 < usize::MAX,
        ensures
            final(g).wf(),
            port.0.id == old(g).ports@.len(),
            final(g).ports@.len() == old(g).ports@.len() + 1,
            final(g).nodes@.len() > old(g).nodes@.len(),
            final(g).view_of(port.0.id) == Some(old(g).nodes@.len() as usize),
            exists|m1: Graph<T, F, P>, m2: Graph<T, F, P>, flat: Flatten|
                final(g).installed(
                    &m2,
                    self.0.id,
                    port.0.id,
                    Node::FlattenGrid(flat),
                    top_key(),
                    ArgHandler::GridTop,
                ) && #[trigger] fresh_flatten(flat, self.0.id, port.0.id) && #[trigger] m2.hooked(
                    &m1,
                    port.0.id,
                    Hook::Port(self.0.id),
                ) && m1.nodes@ == old(g).nodes@ && m1.alive@ == old(g).alive@ && m1.ports@.len()
                    == old(g).ports@.len() + 1,
    {
        let port = ViewPort::<Index>::new(g);
        let ghost m1 = *g;
        port.add_update_hook(g, Hook::Port(self.0.id));
        let ghost m2 = *g;
        Flatten::new(g, *self, port.inner());
        proof {
            assert(m2.hooked(&m1, port.id, Hook::Port(self.0.id)));
        }
        port.into_outer()
    }
}


impl Flatten {
    /// The outer grid of the flattening at `node` changed at `at`.
    pub fn update_chunk<T: Copy, F: Fn(&T) -> T, P: Fn(&T) -> bool>(
        g: &mut Graph<T, F, P>,
        node: usize,
        at: Point2,
        fuel: usize,
    )
        requires
            old(g).wf(),
        ensures
            final(g).wf(),
            final(g).extends(old(g)),
            final(g).grid_top_changed(old(g), node, at, fuel as nat),
        decreases fuel, 4nat,
    {
        if node >= g.nodes.len() {
            return ;
        }
        let top = match &g.nodes[node] {
            Node::FlattenGrid(f) => f.top,
            _ => {
                return ;
            },
        };
        let nested = match g.port_view(top) {
            Some(view) => g.idx_view(view, Key::Point(at)),
            None => None,
        };
        match nested {
            Some(port) => {
                g.new_index_arg(node, rank_of(at), port, ArgHandler::GridChunk(at), fuel);
                let ghost m1 = *g;
                proof {
                    assert(m1.nodes@[node as int].kind() == old(g).nodes@[node as int].kind());
                }
                let new_limit = g.window_at(port).1;
                let was = g.set_grid_chunk(node, at, Some(port));
                let cast = match &g.nodes[node] {
                    Node::FlattenGrid(f) => f.cast,
                    _ => 0,
                };
                match was {
                    Some(chunk) => {
                        let top_x = if chunk.limit.x >= new_limit.x {
                            chunk.limit.x
                        } else {
                            new_limit.x
                        };
                        let top_y = if chunk.limit.y >= new_limit.y {
                            chunk.limit.y
                        } else {
                            new_limit.y
                        };
                        let msg = AreaMsg::Range(
                            Key::Point(Point2 { x: chunk.offset.x, y: chunk.offset.y }),
                            Key::Point(
                                Point2 {
                                    x: clamped(chunk.offset.x as i32 + top_x as i32),
                                    y: clamped(chunk.offset.y as i32 + top_y as i32),
                                },
                            ),
                        );
                        g.emit(cast, one_msg(Msg::Area(msg)));
                        proof {
                            assert(msg == replaced_msg(chunk, new_limit));
                            if cast < g.ports@.len() {
                                let p0 = m1.ports@[cast as int].cast.pending();
                                assert((p0 + Seq::<Msg<T>>::empty()) + seq![Msg::Area(msg)] =~= p0
                                    + seq![Msg::Area(msg)]);
                            }
                        }
                    },
                    None => {},
                }
                let ghost m2 = *g;
                g.refresh_grid(node, Vec::new());
                proof {
                    assert(Graph::<T, F, P>::in_turn(m1, m2, m2));
                }
            },
            None => {
                g.remove_arg(node, rank_of(at));
                let ghost m1 = *g;
                proof {
                    assert(m1.nodes@[node as int].kind() == old(g).nodes@[node as int].kind());
                }
                let has = match &g.nodes[node] {
                    Node::FlattenGrid(f) => f.chunk(at).is_some(),
                    _ => false,
                };
                if has {
                    g.set_grid_chunk(node, at, None);
                    let ghost m2 = *g;
                    g.refresh_grid(node, Vec::new());
                    proof {
                        assert(Graph::<T, F, P>::in_turn(m1, m2, m2));
                    }
                } else {
                    proof {
                        assert(Graph::<T, F, P>::in_turn(m1, m1, m1));
                    }
                }
            },
        }
    }
}

} // verus!
