//! A uniform grid over the world plane, rebuilt fresh every tick: clear,
//! insert every living entity, then answer neighborhood queries. An insert
//! outside the grid is silently dropped by design, and a query returns the
//! raw concatenation of the 3x3 block of buckets around the query point;
//! callers re-check exact distances against the candidates.

use vstd::prelude::*;

verus! {

use vstd::pervasive::VecAdditionalExecFns;
use crate::constants::{MAX_COORD, MAX_GRID_CELLS};
use crate::fixed::floor_div;

pub struct SpatialGrid {
    pub cell_size: i64,
    pub cols: usize,
    pub rows: usize,
    /// Bucket `(c, r)` is `cells[r * cols + c]`.
    pub cells: Vec<Vec<usize>>,
}

/// The bucket coordinate of a world coordinate (floor division).
pub open spec fn bucket_of(v: int, cell: int) -> int {
    v / cell
}

/// The contents of bucket `(c, r)`, empty outside the grid.
pub open spec fn bucket_at(bs: Seq<Seq<usize>>, cols: int, rows: int, c: int, r: int) -> Seq<
    usize,
> {
    if 0 <= c < cols && 0 <= r < rows {
        bs[r * cols + c]
    } else {
        Seq::empty()
    }
}

/// Whether `(x, y)` falls in some bucket of the grid.
pub open spec fn in_grid(cols: int, rows: int, cell: int, x: int, y: int) -> bool {
    0 <= x && 0 <= y && bucket_of(x, cell) < cols && bucket_of(y, cell) < rows
}

/// The bucket array after inserting `id` at `(x, y)`: `id` appended to the
/// bucket under `(x, y)`, or nothing when the point lies off the grid.
pub open spec fn inserted(
    bs: Seq<Seq<usize>>,
    cols: int,
    rows: int,
    cell: int,
    x: int,
    y: int,
    id: usize,
) -> Seq<Seq<usize>> {
    if in_grid(cols, rows, cell, x, y) {
        let b = bucket_of(y, cell) * cols + bucket_of(x, cell);
        bs.update(b, bs[b].push(id))
    } else {
        bs
    }
}

/// What a query at `(x, y)` returns: the concatenation, row by row, of the
/// 3x3 block of buckets centered on `(x, y)`'s bucket.
pub open spec fn query_of(
    bs: Seq<Seq<usize>>,
    cols: int,
    rows: int,
    cell: int,
    x: int,
    y: int,
) -> Seq<usize> {
    let c = bucket_of(x, cell);
    let r = bucket_of(y, cell);
    bucket_at(bs, cols, rows, c - 1, r - 1) + bucket_at(bs, cols, rows, c, r - 1) + bucket_at(
        bs,
        cols,
        rows,
        c + 1,
        r - 1,
    ) + bucket_at(bs, cols, rows, c - 1, r) + bucket_at(bs, cols, rows, c, r) + bucket_at(
        bs,
        cols,
        rows,
        c + 1,
        r,
    ) + bucket_at(bs, cols, rows, c - 1, r + 1) + bucket_at(bs, cols, rows, c, r + 1) + bucket_at(
        bs,
        cols,
        rows,
        c + 1,
        r + 1,
    )
}

/// A bucket coordinate pair in range addresses a cell of the backing array.
pub proof fn lemma_bucket_index(cols: int, rows: int, c: int, r: int)
    requires
        0 <= c < cols,
        0 <= r < rows,
    ensures
        0 <= r * cols + c < cols * rows,
{
    assert(0 <= r * cols + c < cols * rows) by (nonlinear_arith)
        requires
            0 <= c < cols,
            0 <= r < rows,
    ;
}

/// Membership distributes over sequence concatenation.
pub proof fn lemma_add_contains<A>(a: Seq<A>, b: Seq<A>)
    ensures
        forall|e: A| #[trigger] (a + b).contains(e) <==> a.contains(e) || b.contains(e),
{
    assert forall|e: A| #[trigger] (a + b).contains(e) implies a.contains(e) || b.contains(e) by {
        let i = choose|i: int| 0 <= i < (a + b).len() && (a + b)[i] == e;
        if i < a.len() {
            assert(a[i] == e);
        } else {
            assert(b[i - a.len()] == e);
        }
    }
    assert forall|e: A| a.contains(e) || b.contains(e) implies #[trigger] (a + b).contains(e) by {
        if a.contains(e) {
            let i = choose|i: int| 0 <= i < a.len() && a[i] == e;
            assert((a + b)[i] == e);
        } else {
            let i = choose|i: int| 0 <= i < b.len() && b[i] == e;
            assert((a + b)[a.len() + i] == e);
        }
    }
}

/// An element is in a query's answer exactly when it is in one of the nine
/// buckets the query reads.
pub proof fn lemma_query_of_contains(
    bs: Seq<Seq<usize>>,
    cols: int,
    rows: int,
    cell: int,
    x: int,
    y: int,
    id: usize,
)
    ensures
        query_of(bs, cols, rows, cell, x, y).contains(id) <==> exists|dc: int, dr: int|
            -1 <= dc <= 1 && -1 <= dr <= 1 && #[trigger] bucket_at(
                bs,
                cols,
                rows,
                bucket_of(x, cell) + dc,
                bucket_of(y, cell) + dr,
            ).contains(id),
{
    let c = bucket_of(x, cell);
    let r = bucket_of(y, cell);
    let t1 = bucket_at(bs, cols, rows, c - 1, r - 1);
    let t2 = bucket_at(bs, cols, rows, c, r - 1);
    let t3 = bucket_at(bs, cols, rows, c + 1, r - 1);
    let t4 = bucket_at(bs, cols, rows, c - 1, r);
    let t5 = bucket_at(bs, cols, rows, c, r);
    let t6 = bucket_at(bs, cols, rows, c + 1, r);
    let t7 = bucket_at(bs, cols, rows, c - 1, r + 1);
    let t8 = bucket_at(bs, cols, rows, c, r + 1);
    let t9 = bucket_at(bs, cols, rows, c + 1, r + 1);
    lemma_add_contains(t1, t2);
    lemma_add_contains(t1 + t2, t3);
    lemma_add_contains(t1 + t2 + t3, t4);
    lemma_add_contains(t1 + t2 + t3 + t4, t5);
    lemma_add_contains(t1 + t2 + t3 + t4 + t5, t6);
    lemma_add_contains(t1 + t2 + t3 + t4 + t5 + t6, t7);
    lemma_add_contains(t1 + t2 + t3 + t4 + t5 + t6 + t7, t8);
    lemma_add_contains(t1 + t2 + t3 + t4 + t5 + t6 + t7 + t8, t9);
    if query_of(bs, cols, rows, cell, x, y).contains(id) {
        if t1.contains(id) {
            assert(bucket_at(bs, cols, rows, c + -1, r + -1).contains(id));
        } else if t2.contains(id) {
            assert(bucket_at(bs, cols, rows, c + 0, r + -1).contains(id));
        } else if t3.contains(id) {
            assert(bucket_at(bs, cols, rows, c + 1, r + -1).contains(id));
        } else if t4.contains(id) {
            assert(bucket_at(bs, cols, rows, c + -1, r + 0).contains(id));
        } else if t5.contains(id) {
            assert(bucket_at(bs, cols, rows, c + 0, r + 0).contains(id));
        } else if t6.contains(id) {
            assert(bucket_at(bs, cols, rows, c + 1, r + 0).contains(id));
        } else if t7.contains(id) {
            assert(bucket_at(bs, cols, rows, c + -1, r + 1).contains(id));
        } else if t8.contains(id) {
            assert(bucket_at(bs, cols, rows, c + 0, r + 1).contains(id));
        } else {
            assert(bucket_at(bs, cols, rows, c + 1, r + 1).contains(id));
        }
    }
    if exists|dc: int, dr: int|
        -1 <= dc <= 1 && -1 <= dr <= 1 && #[trigger] bucket_at(
            bs,
            cols,
            rows,
            c + dc,
            r + dr,
        ).contains(id) {
        let (dc, dr) = choose|dc: int, dr: int|
            -1 <= dc <= 1 && -1 <= dr <= 1 && #[trigger] bucket_at(
                bs,
                cols,
                rows,
                c + dc,
                r + dr,
            ).contains(id);
        assert(bucket_at(bs, cols, rows, c + dc, r + dr) == if dr == -1 {
            if dc == -1 {
                t1
            } else if dc == 0 {
                t2
            } else {
                t3
            }
        } else if dr == 0 {
            if dc == -1 {
                t4
            } else if dc == 0 {
                t5
            } else {
                t6
            }
        } else {
            if dc == -1 {
                t7
            } else if dc == 0 {
                t8
            } else {
                t9
            }
        });
    }
}

/// Distinct bucket coordinates address distinct cells.
pub proof fn lemma_bucket_index_injective(cols: int, c1: int, r1: int, c2: int, r2: int)
    requires
        0 <= c1 < cols,
        0 <= c2 < cols,
        r1 * cols + c1 == r2 * cols + c2,
    ensures
        c1 == c2,
        r1 == r2,
{
    assert((r1 - r2) * cols == c2 - c1) by (nonlinear_arith)
        requires
            r1 * cols + c1 == r2 * cols + c2,
    ;
    if r1 != r2 {
        assert((r1 - r2) * cols >= cols || (r1 - r2) * cols <= -cols) by (nonlinear_arith)
            requires
                r1 != r2,
                0 < cols,
        ;
        assert(false);
    }
}

/// Once every bucket is empty, a query anywhere returns the empty
/// sequence: `clear` makes the whole index blank until reinsertion.
pub proof fn lemma_cleared_grid_query_empty(
    bs: Seq<Seq<usize>>,
    cols: int,
    rows: int,
    cell: int,
    x: int,
    y: int,
)
    requires
        bs.len() == cols * rows,
        forall|b: int| 0 <= b < bs.len() ==> #[trigger] bs[b].len() == 0,
    ensures
        query_of(bs, cols, rows, cell, x, y).len() == 0,
{
    assert forall|c: int, r: int| (#[trigger] bucket_at(bs, cols, rows, c, r)).len() == 0 by {
        if 0 <= c < cols && 0 <= r < rows {
            lemma_bucket_index(cols, rows, c, r);
        }
    }
}

/// After inserting `id` at an in-grid point `(x, y)`, a query at any
/// point whose bucket lies in the 3x3 neighborhood of `(x, y)`'s bucket
/// includes `id`.
pub proof fn lemma_insert_then_query_finds(
    bs: Seq<Seq<usize>>,
    cols: int,
    rows: int,
    cell: int,
    x: int,
    y: int,
    id: usize,
    qx: int,
    qy: int,
)
    requires
        1 <= cell,
        bs.len() == cols * rows,
        in_grid(cols, rows, cell, x, y),
        -1 <= bucket_of(x, cell) - bucket_of(qx, cell) <= 1,
        -1 <= bucket_of(y, cell) - bucket_of(qy, cell) <= 1,
    ensures
        query_of(inserted(bs, cols, rows, cell, x, y, id), cols, rows, cell, qx, qy).contains(id),
{
    let nb = inserted(bs, cols, rows, cell, x, y, id);
    let bc = bucket_of(x, cell);
    let br = bucket_of(y, cell);
    vstd::arithmetic::div_mod::lemma_div_pos_is_pos(x, cell);
    vstd::arithmetic::div_mod::lemma_div_pos_is_pos(y, cell);
    lemma_bucket_index(cols, rows, bc, br);
    let b = br * cols + bc;
    assert(nb[b][bs[b].len() as int] == id);
    assert(nb[b].contains(id));
    assert(bucket_at(nb, cols, rows, bc, br).contains(id));
    lemma_query_of_contains(nb, cols, rows, cell, qx, qy, id);
    let dc = bc - bucket_of(qx, cell);
    let dr = br - bucket_of(qy, cell);
    assert(bucket_at(
        nb,
        cols,
        rows,
        bucket_of(qx, cell) + dc,
        bucket_of(qy, cell) + dr,
    ).contains(id));
}

/// An id inserted more than two full cells away from the query point on
/// some axis is not in the query's answer, provided it was nowhere in
/// the grid before the insert.
pub proof fn lemma_insert_far_query_misses(
    bs: Seq<Seq<usize>>,
    cols: int,
    rows: int,
    cell: int,
    x: int,
    y: int,
    id: usize,
    qx: int,
    qy: int,
)
    requires
        1 <= cell,
        bs.len() == cols * rows,
        forall|b: int| 0 <= b < bs.len() ==> !(#[trigger] bs[b]).contains(id),
        qx - x > 2 * cell || x - qx > 2 * cell || qy - y > 2 * cell || y - qy > 2 * cell,
    ensures
        !query_of(inserted(bs, cols, rows, cell, x, y, id), cols, rows, cell, qx, qy).contains(
            id,
        ),
{
    let nb = inserted(bs, cols, rows, cell, x, y, id);
    let bc = bucket_of(x, cell);
    let br = bucket_of(y, cell);
    let qc = bucket_of(qx, cell);
    let qr = bucket_of(qy, cell);
    lemma_far_bucket(x, qx, cell);
    lemma_far_bucket(y, qy, cell);
    assert(bc - qc > 1 || qc - bc > 1 || br - qr > 1 || qr - br > 1);
    lemma_query_of_contains(nb, cols, rows, cell, qx, qy, id);
    assert forall|dc: int, dr: int| -1 <= dc <= 1 && -1 <= dr <= 1 implies !(
    #[trigger] bucket_at(nb, cols, rows, qc + dc, qr + dr)).contains(id) by {
        let c = qc + dc;
        let r = qr + dr;
        if 0 <= c < cols && 0 <= r < rows {
            lemma_bucket_index(cols, rows, c, r);
            if in_grid(cols, rows, cell, x, y) {
                vstd::arithmetic::div_mod::lemma_div_pos_is_pos(x, cell);
                vstd::arithmetic::div_mod::lemma_div_pos_is_pos(y, cell);
                lemma_bucket_index(cols, rows, bc, br);
                let b = br * cols + bc;
                if r * cols + c == b {
                    lemma_bucket_index_injective(cols, c, r, bc, br);
                    assert(false);
                }
                assert(nb[r * cols + c] == bs[r * cols + c]);
            }
            assert(!bs[r * cols + c].contains(id));
        }
    }
}

/// Points more than two full cells apart lie in buckets more than one
/// column (or row) apart.
proof fn lemma_far_bucket(v: int, q: int, cell: int)
    requires
        1 <= cell,
    ensures
        q - v > 2 * cell ==> bucket_of(q, cell) - bucket_of(v, cell) > 1,
        v - q > 2 * cell ==> bucket_of(v, cell) - bucket_of(q, cell) > 1,
{
    if q - v > 2 * cell {
        vstd::arithmetic::div_mod::lemma_div_is_ordered(v + 2 * cell + 1, q, cell);
        vstd::arithmetic::div_mod::lemma_div_plus_one(v + cell, cell);
        vstd::arithmetic::div_mod::lemma_div_plus_one(v, cell);
        vstd::arithmetic::div_mod::lemma_div_plus_one(v + 2 * cell, cell);
        assert((v + 2 * cell + 1) / cell >= (v + 2 * cell) / cell) by {
            vstd::arithmetic::div_mod::lemma_div_is_ordered(v + 2 * cell, v + 2 * cell + 1, cell);
        }
        assert((v + 2 * cell) / cell == 2 + v / cell);
    }
    if v - q > 2 * cell {
        vstd::arithmetic::div_mod::lemma_div_is_ordered(q + 2 * cell + 1, v, cell);
        vstd::arithmetic::div_mod::lemma_div_plus_one(q + cell, cell);
        vstd::arithmetic::div_mod::lemma_div_plus_one(q, cell);
        vstd::arithmetic::div_mod::lemma_div_plus_one(q + 2 * cell, cell);
        assert((q + 2 * cell + 1) / cell >= (q + 2 * cell) / cell) by {
            vstd::arithmetic::div_mod::lemma_div_is_ordered(q + 2 * cell, q + 2 * cell + 1, cell);
        }
        assert((q + 2 * cell) / cell == 2 + q / cell);
    }
}

impl SpatialGrid {
    /// Well-formed: a positive cell size and a backing array of exactly
    /// `cols * rows` buckets, within the allocation limit.
    pub open spec fn wf(&self) -> bool {
        &&& 1 <= self.cell_size <= MAX_COORD
        &&& self.cols <= 200_000_000
        &&& self.rows <= 200_000_000
        &&& self.cells@.len() == (self.cols as int) * (self.rows as int)
        &&& self.cells@.len() <= MAX_GRID_CELLS
    }

    /// The grid as a sequence of bucket contents.
    pub open spec fn buckets(&self) -> Seq<Seq<usize>> {
        self.cells@.map_values(|cell: Vec<usize>| cell@)
    }

    /// A grid of ceil(width / cell_size) by ceil(height / cell_size)
    /// empty buckets.
    pub fn new(width: i64, height: i64, cell_size: i64) -> (g: SpatialGrid)
        requires
            0 <= width <= MAX_COORD,
            0 <= height <= MAX_COORD,
            1 <= cell_size <= MAX_COORD,
            ((width + cell_size - 1) as int / cell_size as int) * ((height + cell_size - 1) as int
                / cell_size as int) <= MAX_GRID_CELLS,
        ensures
            g.wf(),
            g.cell_size == cell_size,
            g.cols == (width + cell_size - 1) as int / cell_size as int,
            g.rows == (height + cell_size - 1) as int / cell_size as int,
            g.buckets().len() == (g.cols as int) * (g.rows as int),
            forall|b: int| 0 <= b < g.buckets().len() ==> g.buckets()[b].len() == 0,
    {
        let cols_w = (width + cell_size - 1) / cell_size;
        let rows_w = (height + cell_size - 1) / cell_size;
        proof {
            vstd::arithmetic::div_mod::lemma_div_nonincreasing(
                (width + cell_size - 1) as int,
                cell_size as int,
            );
            vstd::arithmetic::div_mod::lemma_div_nonincreasing(
                (height + cell_size - 1) as int,
                cell_size as int,
            );
            vstd::arithmetic::div_mod::lemma_div_pos_is_pos(
                (width + cell_size - 1) as int,
                cell_size as int,
            );
            vstd::arithmetic::div_mod::lemma_div_pos_is_pos(
                (height + cell_size - 1) as int,
                cell_size as int,
            );
            assert(0 <= (cols_w as int) * (rows_w as int)) by (nonlinear_arith)
                requires
                    0 <= cols_w as int,
                    0 <= rows_w as int,
            ;
            assert(cols_w as int <= (cols_w as int) * (rows_w as int) || rows_w as int == 0)
                by (nonlinear_arith)
                requires
                    0 <= cols_w as int,
                    0 <= rows_w as int,
            ;
            assert(rows_w as int <= (cols_w as int) * (rows_w as int) || cols_w as int == 0)
                by (nonlinear_arith)
                requires
                    0 <= cols_w as int,
                    0 <= rows_w as int,
            ;
        }
        let cols = cols_w as usize;
        let rows = rows_w as usize;
        let n = cols * rows;
        let mut cells: Vec<Vec<usize>> = Vec::new();
        for k in 0..n
            invariant
                cells@.len() == k,
                forall|j: int| 0 <= j < k ==> #[trigger] cells@[j]@.len() == 0,
        {
            cells.push(Vec::new());
        }
        let g = SpatialGrid { cell_size, cols, rows, cells };
        proof {
            assert(forall|b: int|
                0 <= b < g.buckets().len() ==> #[trigger] g.buckets()[b].len() == 0);
        }
        g
    }

    /// Empty every bucket; the grid keeps its shape.
    pub fn clear(&mut self)
        requires
            old(self).wf(),
        ensures
            final(self).wf(),
            final(self).cell_size == old(self).cell_size,
            final(self).cols == old(self).cols,
            final(self).rows == old(self).rows,
            final(self).buckets().len() == old(self).buckets().len(),
            forall|b: int|
                0 <= b < final(self).buckets().len() ==> final(self).buckets()[b].len() == 0,
    {
        let n = self.cells.len();
        for i in 0..n
            invariant
                self.cell_size == old(self).cell_size,
                self.cols == old(self).cols,
                self.rows == old(self).rows,
                self.cells@.len() == n,
                n == old(self).cells@.len(),
                forall|j: int| 0 <= j < i ==> #[trigger] self.cells@[j]@.len() == 0,
        {
            self.cells.set(i, Vec::new());
        }
    }

    /// Append `id` to the bucket under `(x, y)`; a point outside the grid
    /// is silently dropped, under the precondition that callers clamp
    /// positions before inserting.
    pub fn insert(&mut self, x: i64, y: i64, id: usize)
        requires
            old(self).wf(),
            -4_000_000_000_000_000_000 <= x <= 4_000_000_000_000_000_000,
            -4_000_000_000_000_000_000 <= y <= 4_000_000_000_000_000_000,
        ensures
            final(self).wf(),
            final(self).cell_size == old(self).cell_size,
            final(self).cols == old(self).cols,
            final(self).rows == old(self).rows,
            final(self).buckets() == inserted(
                old(self).buckets(),
                old(self).cols as int,
                old(self).rows as int,
                old(self).cell_size as int,
                x as int,
                y as int,
                id,
            ),
    {
        let ghost bs0 = self.buckets();
        if x >= 0 && y >= 0 {
            let c = floor_div(x, self.cell_size);
            let r = floor_div(y, self.cell_size);
            if c < self.cols as i64 && r < self.rows as i64 {
                proof {
                    lemma_bucket_index(
                        self.cols as int,
                        self.rows as int,
                        c as int,
                        r as int,
                    );
                }
                let idx = (r as usize) * self.cols + (c as usize);
                let mut tmp: Vec<usize> = Vec::new();
                self.cells.set_and_swap(idx, &mut tmp);
                tmp.push(id);
                self.cells.set_and_swap(idx, &mut tmp);
                proof {
                    assert(self.buckets() =~~= inserted(
                        bs0,
                        self.cols as int,
                        self.rows as int,
                        self.cell_size as int,
                        x as int,
                        y as int,
                        id,
                    ));
                }
            }
        }
    }

    /// The ids in the 3x3 block of buckets around `(x, y)`'s bucket,
    /// unsorted and without any distance filtering.
    pub fn query(&self, x: i64, y: i64) -> (found: Vec<usize>)
        requires
            self.wf(),
            -4_000_000_000_000_000_000 <= x <= 4_000_000_000_000_000_000,
            -4_000_000_000_000_000_000 <= y <= 4_000_000_000_000_000_000,
        ensures
            found@ == query_of(
                self.buckets(),
                self.cols as int,
                self.rows as int,
                self.cell_size as int,
                x as int,
                y as int,
            ),
    {
        let c = floor_div(x, self.cell_size);
        let r = floor_div(y, self.cell_size);
        let mut found: Vec<usize> = Vec::new();
        self.append_bucket(&mut found, c - 1, r - 1);
        self.append_bucket(&mut found, c, r - 1);
        self.append_bucket(&mut found, c + 1, r - 1);
        self.append_bucket(&mut found, c - 1, r);
        self.append_bucket(&mut found, c, r);
        self.append_bucket(&mut found, c + 1, r);
        self.append_bucket(&mut found, c - 1, r + 1);
        self.append_bucket(&mut found, c, r + 1);
        self.append_bucket(&mut found, c + 1, r + 1);
        proof {
            assert(found@ =~= query_of(
                self.buckets(),
                self.cols as int,
                self.rows as int,
                self.cell_size as int,
                x as int,
                y as int,
            ));
        }
        found
    }

    /// Append the contents of bucket `(c, r)` to `out`; off-grid
    /// coordinates contribute nothing.
    fn append_bucket(&self, out: &mut Vec<usize>, c: i64, r: i64)
        requires
            self.wf(),
        ensures
            final(out)@ == old(out)@ + bucket_at(
                self.buckets(),
                self.cols as int,
                self.rows as int,
                c as int,
                r as int,
            ),
    {
        let ghost start = out@;
        if c >= 0 && r >= 0 && c < self.cols as i64 && r < self.rows as i64 {
            proof {
                lemma_bucket_index(self.cols as int, self.rows as int, c as int, r as int);
            }
            let idx = (r as usize) * self.cols + (c as usize);
            let bucket = &self.cells[idx];
            let m = bucket.len();
            for k in 0..m
                invariant
                    out@ == start + bucket@.subrange(0, k as int),
                    m == bucket@.len(),
            {
                out.push(bucket[k]);
                assert(out@ =~= start + bucket@.subrange(0, k as int + 1));
            }
            proof {
                assert(bucket@.subrange(0, m as int) =~= bucket@);
            }
        } else {
            proof {
                assert(out@ =~= start + Seq::<usize>::empty());
            }
        }
    }
}

} // verus!
