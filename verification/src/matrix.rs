//! Model of a block's extended data matrix.
//!
//! A block's payload is erasure-coded into an extended matrix with twice
//! as many rows as the original. Cells are addressed by `(row, col)`
//! positions; a [`Partition`] selects one of `fraction` equal slices of
//! the cell index space for sampling.

use vstd::prelude::*;
use vstd::arithmetic::div_mod::lemma_div_pos_is_pos;
use vstd::arithmetic::div_mod::lemma_fundamental_div_mod;
use vstd::arithmetic::div_mod::lemma_mod_division_less_than_divisor;
use vstd::arithmetic::div_mod::lemma_multiply_divide_lt;

verus! {

/// Dimensions of a block's data matrix before extension.
///
/// Well-formed dimensions have at least one row and one column.
#[derive(Clone, Copy, PartialEq, Eq, Structural, Debug)]
pub struct Dimensions {
    pub rows: u16,
    pub cols: u16,
}

/// One cell of the extended matrix, addressed by row and column.
#[derive(Clone, Copy, PartialEq, Eq, Structural, Debug)]
pub struct Position {
    pub row: u32,
    pub col: u16,
}

/// The `number`-th of `fraction` equal slices of a block's extended matrix.
///
/// Well-formed partitions satisfy `1 <= number <= fraction`; the
/// whole-matrix partition is `number = 1, fraction = 1`.
#[derive(Clone, Copy, PartialEq, Eq, Structural, Debug)]
pub struct Partition {
    pub number: u8,
    pub fraction: u8,
}

impl Partition {
    pub open spec fn wf(self) -> bool {
        1 <= self.number <= self.fraction
    }

    /// The sentinel partition that covers the entire extended matrix.
    pub fn entire_block() -> (r: Partition)
        ensures
            r.number == 1,
            r.fraction == 1,
            r.wf(),
    {
        Partition { number: 1, fraction: 1 }
    }
}

impl Dimensions {
    pub open spec fn wf(self) -> bool {
        self.rows >= 1 && self.cols >= 1
    }

    /// Number of rows after erasure-coding extension: twice the original.
    pub open spec fn spec_extended_rows(self) -> int {
        2 * self.rows
    }

    /// Total number of cells in the extended matrix.
    pub open spec fn spec_extended_size(self) -> int {
        self.spec_extended_rows() * self.cols
    }

    pub fn extended_rows(&self) -> (r: u32)
        ensures
            r == self.spec_extended_rows(),
    {
        2 * (self.rows as u32)
    }

    pub fn extended_size(&self) -> (r: u64)
        ensures
            r == self.spec_extended_size(),
    {
        let rows_ext = (2 * (self.rows as u64));
        assert(rows_ext * (self.cols as u64) <= 131070 * 65535) by (nonlinear_arith)
            requires
                rows_ext <= 131070,
                self.cols <= 65535,
        {
        }
        let size = rows_ext * (self.cols as u64);
        size
    }

    /// The cell at index `i` of the row-major cell ordering.
    pub open spec fn cell_at(self, i: int) -> Position {
        Position { row: (i / (self.cols as int)) as u32, col: (i % (self.cols as int)) as u16 }
    }

    /// Size of one partition slice: the cell count divided by the
    /// fraction, rounded up, so that `fraction` slices cover every cell.
    pub open spec fn slice_size(self, fraction: int) -> int {
        (self.spec_extended_size() + fraction - 1) / fraction
    }

    /// First cell index of the given partition slice.
    pub open spec fn slice_start(self, p: Partition) -> int {
        self.slice_size(p.fraction as int) * (p.number - 1)
    }

    /// One-past-last cell index of the given partition slice.
    pub open spec fn slice_end(self, p: Partition) -> int {
        vstd::math::min(
            self.slice_size(p.fraction as int) * (p.number as int),
            self.spec_extended_size(),
        )
    }

    /// The cell positions that belong to partition `p`, in index order.
    pub open spec fn partition_positions(self, p: Partition) -> Seq<Position> {
        if self.slice_start(p) <= self.slice_end(p) {
            Seq::new(
                (self.slice_end(p) - self.slice_start(p)) as nat,
                |k: int| self.cell_at(self.slice_start(p) + k),
            )
        } else {
            Seq::empty()
        }
    }
}

/// Enumerate the cell positions of partition `p` of the extended matrix,
/// in row-major index order.
pub fn cell_positions(dims: &Dimensions, p: &Partition) -> (r: Vec<Position>)
    requires
        dims.wf(),
        p.wf(),
    ensures
        r@ == dims.partition_positions(*p),
{
    let total: u64 = dims.extended_size();
    proof {
        assert(total <= 8589672450) by (nonlinear_arith)
            requires
                total == 2 * dims.rows * dims.cols,
                dims.rows <= 65535,
                dims.cols <= 65535,
        {
        }
    }
    let fraction: u64 = p.fraction as u64;
    let size: u64 = (total + fraction - 1) / fraction;
    proof {
        assert(size <= total + 254) by (nonlinear_arith)
            requires
                size == ((total + fraction - 1) as int) / (fraction as int),
                1 <= fraction <= 255,
                total >= 0,
        {
        }
        assert(size * (p.number - 1) <= size * 255 && size * (p.number as int) <= size * 255
            && size * 255 <= 8589672704 * 255) by (nonlinear_arith)
            requires
                p.number <= 255,
                0 <= size <= 8589672704,
        {
        }
    }
    let start: u64 = size * ((p.number - 1) as u64);
    let bound: u64 = size * (p.number as u64);
    let end: u64 = if bound < total {
        bound
    } else {
        total
    };
    let mut r: Vec<Position> = Vec::new();
    let mut i: u64 = start;
    while i < end
        invariant
            dims.wf(),
            start == dims.slice_start(*p),
            end == dims.slice_end(*p),
            start <= i,
            i <= end || i == start,
            end <= total,
            total == dims.spec_extended_size(),
            r@ =~= dims.partition_positions(*p).take(i - start),
        decreases end - i,
    {
        let cols: u64 = dims.cols as u64;
        proof {
            assert(i / cols < 2 * dims.rows && i % cols < cols) by (nonlinear_arith)
                requires
                    0 <= i,
                    i < 2 * dims.rows * dims.cols,
                    cols == dims.cols,
                    cols >= 1,
            {
            }
        }
        let pos = Position { row: (i / cols) as u32, col: (i % cols) as u16 };
        assert(pos == dims.cell_at(i as int));
        r.push(pos);
        i = i + 1;
        proof {
            assert(r@ =~= dims.partition_positions(*p).take(i - start));
        }
    }
    proof {
        if start > end {
            assert(dims.partition_positions(*p) =~= Seq::<Position>::empty());
        } else {
            assert(r@ =~= dims.partition_positions(*p).take(end - start));
            assert(dims.partition_positions(*p).take(end - start) =~= dims.partition_positions(
                *p,
            ));
        }
    }
    r
}

/// Distinct cell indices of the extended matrix name distinct positions.
proof fn lemma_cell_at_injective(dims: Dimensions, i: int, j: int)
    requires
        dims.wf(),
        0 <= i < dims.spec_extended_size(),
        0 <= j < dims.spec_extended_size(),
        i != j,
    ensures
        dims.cell_at(i) != dims.cell_at(j),
{
    let c = dims.cols as int;
    lemma_fundamental_div_mod(i, c);
    lemma_fundamental_div_mod(j, c);
    lemma_mod_division_less_than_divisor(i, c);
    lemma_mod_division_less_than_divisor(j, c);
    lemma_div_pos_is_pos(i, c);
    lemma_div_pos_is_pos(j, c);
    assert(i < c * (2 * dims.rows) && j < c * (2 * dims.rows)) by (nonlinear_arith)
        requires
            i < 2 * dims.rows * dims.cols,
            j < 2 * dims.rows * dims.cols,
            c == dims.cols,
    {
    }
    lemma_multiply_divide_lt(i, c, 2 * (dims.rows as int));
    lemma_multiply_divide_lt(j, c, 2 * (dims.rows as int));
    assert(dims.cell_at(i).row == i / c && dims.cell_at(i).col == i % c);
    assert(dims.cell_at(j).row == j / c && dims.cell_at(j).col == j % c);
    if dims.cell_at(i) == dims.cell_at(j) {
        assert(i == c * (i / c) + i % c);
        assert(j == c * (j / c) + j % c);
        assert(false);
    }
}

/// The whole-block partition enumerates every cell index in order.
proof fn lemma_whole_block_slice(dims: Dimensions)
    requires
        dims.wf(),
    ensures
        dims.slice_start(Partition { number: 1, fraction: 1 }) == 0,
        dims.slice_end(Partition { number: 1, fraction: 1 }) == dims.spec_extended_size(),
        dims.partition_positions(Partition { number: 1, fraction: 1 }).len()
            == dims.spec_extended_size(),
{
    let t = dims.spec_extended_size();
    assert(t >= 2) by (nonlinear_arith)
        requires
            t == 2 * dims.rows * dims.cols,
            dims.rows >= 1,
            dims.cols >= 1,
    {
    }
    assert(dims.slice_size(1) == t);
    assert(t * (1 - 1) == 0) by (nonlinear_arith) {
    }
    assert(t * 1 == t) by (nonlinear_arith) {
    }
}

/// A slice's cell indices stay within the matrix: it starts no earlier
/// than index 0 and ends by the matrix end, no later than `size`
/// indices per slice number.
proof fn lemma_slice_bounds(dims: Dimensions, p: Partition)
    requires
        dims.wf(),
        p.wf(),
    ensures
        0 <= dims.slice_start(p),
        dims.slice_end(p) <= dims.spec_extended_size(),
        dims.slice_end(p) <= dims.slice_size(p.fraction as int) * (p.number as int),
{
    let t = dims.spec_extended_size();
    let f = p.fraction as int;
    assert(t >= 2) by (nonlinear_arith)
        requires
            t == 2 * dims.rows * dims.cols,
            dims.rows >= 1,
            dims.cols >= 1,
    {
    }
    lemma_div_pos_is_pos(t + f - 1, f);
    let s = dims.slice_size(f);
    assert(0 <= s * (p.number - 1)) by (nonlinear_arith)
        requires
            s >= 0,
            p.number >= 1,
    {
    }
}

/// A partition never plans more cells than the extended matrix holds,
/// and the matrix never holds more cells than its dimensions allow.
pub proof fn lemma_slice_len_bounded(dims: Dimensions, p: Partition)
    requires
        dims.wf(),
        p.wf(),
    ensures
        dims.partition_positions(p).len() <= dims.spec_extended_size(),
        dims.spec_extended_size() <= 8589672450,
{
    lemma_slice_bounds(dims, p);
    assert(dims.spec_extended_size() <= 8589672450) by (nonlinear_arith)
        requires
            dims.spec_extended_size() == 2 * dims.rows * dims.cols,
            dims.rows <= 65535,
            dims.cols <= 65535,
    {
    }
}

/// Law: for the same fractioning, two distinct partitions enumerate
/// disjoint sets of cell positions.
pub proof fn lemma_partitions_disjoint(dims: Dimensions, p: Partition, q: Partition)
    requires
        dims.wf(),
        p.wf(),
        q.wf(),
        p.fraction == q.fraction,
        p.number != q.number,
    ensures
        forall|pos: Position|
            !(#[trigger] dims.partition_positions(p).contains(pos)
                && #[trigger] dims.partition_positions(q).contains(pos)),
{
    let f = p.fraction as int;
    let s = dims.slice_size(f);
    let t = dims.spec_extended_size();
    lemma_slice_bounds(dims, p);
    lemma_slice_bounds(dims, q);
    assert forall|pos: Position|
        !(#[trigger] dims.partition_positions(p).contains(pos)
            && #[trigger] dims.partition_positions(q).contains(pos)) by {
        if dims.partition_positions(p).contains(pos) && dims.partition_positions(q).contains(
            pos,
        ) {
            let lo = if p.number < q.number {
                p
            } else {
                q
            };
            let hi = if p.number < q.number {
                q
            } else {
                p
            };
            assert(s * (lo.number as int) <= s * (hi.number - 1)) by (nonlinear_arith)
                requires
                    s >= 0,
                    lo.number <= hi.number - 1,
            {
            }
            let ki = choose|k: int|
                0 <= k < dims.partition_positions(lo).len() && dims.partition_positions(lo)[k]
                    == pos;
            let kj = choose|k: int|
                0 <= k < dims.partition_positions(hi).len() && dims.partition_positions(hi)[k]
                    == pos;
            let i = dims.slice_start(lo) + ki;
            let j = dims.slice_start(hi) + kj;
            assert(dims.cell_at(i) == pos && dims.cell_at(j) == pos);
            assert(i < dims.slice_end(lo) && j < dims.slice_end(hi));
            assert(i < j);
            lemma_cell_at_injective(dims, i, j);
            assert(false);
        }
    }
}

/// Law: a cell position belongs to the whole-block enumeration exactly
/// when some partition of the given fractioning enumerates it; together
/// the `fraction` slices cover the whole block and nothing more.
pub proof fn lemma_partitions_cover(dims: Dimensions, fraction: u8, pos: Position)
    requires
        dims.wf(),
        fraction >= 1,
    ensures
        dims.partition_positions(Partition { number: 1, fraction: 1 }).contains(pos)
            <==> exists|n: u8|
            1 <= n <= fraction && #[trigger] dims.partition_positions(
                (Partition { number: n, fraction: fraction }),
            ).contains(pos),
{
    let whole = Partition { number: 1, fraction: 1 };
    let t = dims.spec_extended_size();
    let f = fraction as int;
    let s = dims.slice_size(f);
    assert(t >= 2) by (nonlinear_arith)
        requires
            t == 2 * dims.rows * dims.cols,
            dims.rows >= 1,
            dims.cols >= 1,
    {
    }
    lemma_whole_block_slice(dims);
    lemma_div_pos_is_pos(t + f - 1, f);
    lemma_fundamental_div_mod(t + f - 1, f);
    lemma_mod_division_less_than_divisor(t + f - 1, f);
    assert(f * s >= t);
    assert(s * f == f * s && s >= 1) by (nonlinear_arith)
        requires
            f >= 1,
            f * s >= t,
            t >= 2,
            s == ((t + f - 1) as int) / (f as int),
            s >= 0,
    {
    }
    if dims.partition_positions(whole).contains(pos) {
        let i = choose|k: int|
            0 <= k < dims.partition_positions(whole).len() && dims.partition_positions(whole)[k]
                == pos;
        assert(dims.cell_at(i) == pos);
        let q = i / s;
        lemma_fundamental_div_mod(i, s);
        lemma_mod_division_less_than_divisor(i, s);
        lemma_div_pos_is_pos(i, s);
        lemma_multiply_divide_lt(i, s, f);
        let n: u8 = (q + 1) as u8;
        let part = Partition { number: n, fraction: fraction };
        assert(dims.slice_start(part) == s * q);
        assert(s * (q + 1) == s * q + s) by (nonlinear_arith) {
        }
        assert(s * q <= i < s * q + s);
        assert(i < dims.slice_end(part));
        assert(dims.partition_positions(part)[i - s * q] == pos);
        assert(0 <= i - s * q < dims.partition_positions(part).len());
        assert(dims.partition_positions(part).contains(pos));
        assert(1 <= n <= fraction && dims.partition_positions(
            (Partition { number: n, fraction: fraction }),
        ).contains(pos));
    }
    if exists|n: u8|
        1 <= n <= fraction && #[trigger] dims.partition_positions(
            (Partition { number: n, fraction: fraction }),
        ).contains(pos) {
        let n = choose|n: u8|
            1 <= n <= fraction && #[trigger] dims.partition_positions(
                (Partition { number: n, fraction: fraction }),
            ).contains(pos);
        let part = Partition { number: n, fraction: fraction };
        lemma_slice_bounds(dims, part);
        let k = choose|k: int|
            0 <= k < dims.partition_positions(part).len() && dims.partition_positions(part)[k]
                == pos;
        let i = dims.slice_start(part) + k;
        assert(dims.cell_at(i) == pos);
        assert(0 <= i < t);
        assert(dims.partition_positions(whole)[i] == pos);
        assert(dims.partition_positions(whole).contains(pos));
    }
}

} // verus!

