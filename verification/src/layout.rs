//! The grid layout engine: placing blocks as absolute pixel rectangles.
//!
//! [`layout`] consumes a [`LayoutModel`] and the window geometry and yields
//! one [`PlacedBlock`] per grid cell. Within a column, a running cursor
//! stacks the blocks top to bottom: every block's rectangle starts `border`
//! pixels below its predecessor's end, the first starts `border` pixels
//! below the window's top edge, and the last ends `border` pixels above the
//! window's bottom edge. In explicit mode each block's gross height is its
//! declared share of the window height; in implicit mode the blocks are
//! dealt into `columns` columns of `rows` rows each, all of gross height
//! `height / rows`, and a column that runs out of blocks ends in a single
//! filler block covering its remaining space.
//!
//! The whole computation is a pure function of the model and the
//! configuration: [`layout`] returns exactly [`layout_spec`] of its inputs.

use vstd::prelude::*;
use vstd::arithmetic::div_mod::lemma_fundamental_div_mod;
use vstd::arithmetic::div_mod::lemma_div_is_ordered;
use vstd::arithmetic::div_mod::lemma_div_multiples_vanish;
use crate::geom::Rect;
use crate::geom::RectV;
use crate::geom::sum_prefix;
use crate::geom::lemma_sum_prefix_monotonic;
use crate::model::Block;
use crate::model::BlockV;
use crate::model::General;
use crate::model::LayoutModel;
use crate::model::LayoutModelV;
use crate::model::SizedBlock;
use crate::model::SizedBlockV;

verus! {

/// A block, or a filler, placed at an absolute window rectangle. Derived
/// and ephemeral: recomputed by every layout pass, never persisted.
#[derive(Debug, PartialEq)]
pub struct PlacedBlock {
    /// Index of the column this block was placed in.
    pub col: usize,
    /// The block content, or `None` for a filler rectangle.
    pub block: Option<Block>,
    /// The absolute rectangle covered, within the window.
    pub rect: Rect,
}

/// The mathematical value of a [`PlacedBlock`].
pub ghost struct PlacedBlockV {
    pub col: int,
    pub block: Option<BlockV>,
    pub rect: RectV,
}

impl View for PlacedBlock {
    type V = PlacedBlockV;

    open spec fn view(&self) -> PlacedBlockV {
        PlacedBlockV {
            col: self.col as int,
            block: match self.block {
                Some(b) => Some(b@),
                None => None,
            },
            rect: self.rect@,
        }
    }
}

/// The values of a sequence of placed blocks.
pub open spec fn placed_views(s: Seq<PlacedBlock>) -> Seq<PlacedBlockV> {
    s.map_values(|p: PlacedBlock| p@)
}

/// How many columns the grid has: the declared columns in explicit mode,
/// the configured count in implicit mode.
pub open spec fn ncols_of(m: LayoutModelV, cfg: General) -> int {
    match m {
        LayoutModelV::Explicit { columns } => columns.len() as int,
        LayoutModelV::Implicit { .. } => cfg.columns as int,
    }
}

/// The uniform column width: the window width, less one border per column
/// plus one, divided evenly.
pub open spec fn col_width(ncols: int, cfg: General) -> int {
    (cfg.width - (ncols + 1) * cfg.border) / ncols
}

/// The left edge of column `j`.
pub open spec fn col_x(ncols: int, j: int, cfg: General) -> int {
    cfg.border + j * (col_width(ncols, cfg) + cfg.border)
}

/// The gross heights of one explicit column: each block's declared share
/// of the window height, rounded down to whole pixels.
pub open spec fn gross_explicit(col: Seq<SizedBlockV>, height: int) -> Seq<int> {
    col.map_values(|b: SizedBlockV| b.rel_mille * height / 1000)
}

/// The row count of the implicit grid: `total` blocks dealt into `ncols`
/// columns, by ceiling division.
pub open spec fn rows_implicit(total: int, ncols: int) -> int {
    total / ncols + if total % ncols == 0 {
        0int
    } else {
        1int
    }
}

/// The uniform gross height of an implicit-mode row.
pub open spec fn unit_implicit(total: int, cfg: General) -> int {
    cfg.height as int / rows_implicit(total, cfg.columns as int)
}

/// The content of column `j`: the blocks it shows, in order, with `None`
/// for a trailing filler. In implicit mode column `j` takes the `j`-th run
/// of `rows` blocks from the flat list; a column holding fewer than `rows`
/// blocks — or none — ends in one filler.
pub open spec fn content_of(m: LayoutModelV, cfg: General, j: int) -> Seq<Option<BlockV>> {
    match m {
        LayoutModelV::Explicit { columns } => columns[j].map_values(
            |b: SizedBlockV| Some(b.block),
        ),
        LayoutModelV::Implicit { blocks } => {
            let total = blocks.len() as int;
            let rows = rows_implicit(total, cfg.columns as int);
            let start = j * rows;
            if total == 0 || start >= total {
                seq![None]
            } else if total - start >= rows {
                Seq::new(rows as nat, |i: int| Some(blocks[start + i]))
            } else {
                Seq::new((total - start) as nat, |i: int| Some(blocks[start + i])).push(None)
            }
        },
    }
}

/// The gross heights of column `j`: what each cell's rectangle occupies
/// together with its leading border gap (and, for the last cell, the
/// trailing one). An implicit filler's gross height is whatever the real
/// blocks above it leave of the window height.
pub open spec fn gross_of(m: LayoutModelV, cfg: General, j: int) -> Seq<int> {
    match m {
        LayoutModelV::Explicit { columns } => gross_explicit(columns[j], cfg.height as int),
        LayoutModelV::Implicit { blocks } => {
            let total = blocks.len() as int;
            let rows = rows_implicit(total, cfg.columns as int);
            let unit = unit_implicit(total, cfg);
            let start = j * rows;
            if total == 0 || start >= total {
                seq![cfg.height as int]
            } else if total - start >= rows {
                Seq::new(rows as nat, |i: int| unit)
            } else {
                Seq::new((total - start) as nat, |i: int| unit).push(
                    cfg.height - (total - start) * unit,
                )
            }
        },
    }
}

/// The rectangle of the cell at index `i` of a column with gross heights
/// `gross`: it starts one border below the gross extent of its
/// predecessors and pays for its leading border gap; the last cell also
/// pays for the trailing gap against the window's bottom edge.
pub open spec fn block_rect(gross: Seq<int>, i: int, x: int, w: int, border: int) -> RectV {
    RectV {
        x,
        y: border + sum_prefix(gross, i),
        w,
        h: gross[i] - border - if i + 1 == gross.len() {
            border
        } else {
            0int
        },
    }
}

/// All placed blocks of column `j`, top to bottom.
pub open spec fn column_spec(m: LayoutModelV, cfg: General, j: int) -> Seq<PlacedBlockV> {
    let content = content_of(m, cfg, j);
    let gross = gross_of(m, cfg, j);
    let ncols = ncols_of(m, cfg);
    Seq::new(
        content.len(),
        |i: int|
            PlacedBlockV {
                col: j,
                block: content[i],
                rect: block_rect(
                    gross,
                    i,
                    col_x(ncols, j, cfg),
                    col_width(ncols, cfg),
                    cfg.border as int,
                ),
            },
    )
}

/// The placed blocks of the first `j` columns, column by column.
pub open spec fn layout_prefix(m: LayoutModelV, cfg: General, j: int) -> Seq<PlacedBlockV>
    decreases j,
{
    if j <= 0 {
        Seq::empty()
    } else {
        layout_prefix(m, cfg, j - 1) + column_spec(m, cfg, j - 1)
    }
}

/// What [`layout`] returns: every column's placed blocks, in column order.
pub open spec fn layout_spec(m: LayoutModelV, cfg: General) -> Seq<PlacedBlockV> {
    layout_prefix(m, cfg, ncols_of(m, cfg))
}

/// The declared height shares of one explicit column, summed.
pub open spec fn rel_sum(col: Seq<SizedBlockV>) -> int {
    sum_prefix(col.map_values(|b: SizedBlockV| b.rel_mille), col.len() as int)
}

/// The window options a layout pass relies on, for a grid of `ncols`
/// columns: positive window, non-negative border, opacity a fraction, at
/// least one column, and room for every column to be at least one pixel
/// wide between its borders. The last bound also keeps all horizontal
/// arithmetic within `i32`; the bound on `height + border` does the same
/// vertically.
pub open spec fn valid_general(cfg: General, ncols: int) -> bool {
    &&& cfg.width > 0
    &&& cfg.height > 0
    &&& cfg.border >= 0
    &&& 0 <= cfg.opacity_mille <= 1000
    &&& 1 <= ncols
    &&& ncols + (ncols + 1) * cfg.border <= cfg.width
    &&& cfg.height + cfg.border <= i32::MAX
}

/// What one explicit column must satisfy: shares that sum to at most the
/// whole, each large enough that its block keeps a positive height after
/// paying for its border gaps.
pub open spec fn valid_explicit_column(col: Seq<SizedBlockV>, cfg: General) -> bool {
    &&& forall|i: int|
        0 <= i < col.len() ==> 0 <= #[trigger] col[i].rel_mille && col[i].rel_mille * cfg.height
            / 1000 >= 2 * cfg.border + 1
    &&& rel_sum(col) <= 1000
}

/// The precondition of [`layout`]: a validated model. Implicit mode needs
/// every cell — rows and fillers alike — to keep a positive height after
/// its border gaps; the bound on the block count keeps index arithmetic
/// within `i32`.
pub open spec fn valid_model(m: LayoutModelV, cfg: General) -> bool {
    match m {
        LayoutModelV::Explicit { columns } => {
            &&& valid_general(cfg, columns.len() as int)
            &&& forall|j: int|
                0 <= j < columns.len() ==> valid_explicit_column(#[trigger] columns[j], cfg)
        },
        LayoutModelV::Implicit { blocks } => {
            &&& valid_general(cfg, cfg.columns as int)
            &&& blocks.len() <= 0x7fff_ffff
            &&& cfg.height >= 2 * cfg.border + 1
            &&& blocks.len() > 0 ==> unit_implicit(blocks.len() as int, cfg) >= 2 * cfg.border + 1
        },
    }
}

/// What the stacking arithmetic needs of a column's gross heights: each
/// cell keeps a positive net height, and together they fit the window.
pub open spec fn valid_gross(g: Seq<int>, height: int, border: int) -> bool {
    &&& forall|i: int| 0 <= i < g.len() ==> #[trigger] g[i] >= 2 * border + 1
    &&& sum_prefix(g, g.len() as int) <= height
}

/// Rounding down distributes over addition only in the caller's favor:
/// summing two rounded-down quotients never exceeds the rounded-down sum.
proof fn lemma_div_add_le(x: int, y: int, d: int)
    requires
        x >= 0,
        y >= 0,
        d > 0,
    ensures
        x / d + y / d <= (x + y) / d,
{
    lemma_fundamental_div_mod(x, d);
    lemma_fundamental_div_mod(y, d);
    assert(d * (x / d + y / d) == d * (x / d) + d * (y / d)) by (nonlinear_arith);
    lemma_div_multiples_vanish(x / d + y / d, d);
    lemma_div_is_ordered(d * (x / d + y / d), x + y, d);
}

/// In a valid explicit column the rounded-down gross heights fit the
/// window: their sum stays below the height itself.
proof fn lemma_gross_explicit_sum(col: Seq<SizedBlockV>, height: int, i: int)
    requires
        forall|k: int| 0 <= k < col.len() ==> #[trigger] col[k].rel_mille >= 0,
        height > 0,
        0 <= i <= col.len(),
    ensures
        sum_prefix(gross_explicit(col, height), i) <= sum_prefix(
            col.map_values(|b: SizedBlockV| b.rel_mille),
            i,
        ) * height / 1000,
        sum_prefix(col.map_values(|b: SizedBlockV| b.rel_mille), i) >= 0,
    decreases i,
{
    let rels = col.map_values(|b: SizedBlockV| b.rel_mille);
    let gross = gross_explicit(col, height);
    if i > 0 {
        lemma_gross_explicit_sum(col, height, i - 1);
        let s = sum_prefix(rels, i - 1);
        let r = rels[i - 1];
        assert(gross[i - 1] == r * height / 1000);
        assert(r * height >= 0) by (nonlinear_arith)
            requires
                r >= 0,
                height > 0,
        ;
        assert(s * height >= 0) by (nonlinear_arith)
            requires
                s >= 0,
                height > 0,
        ;
        lemma_div_add_le(s * height, r * height, 1000);
        assert(s * height + r * height == (s + r) * height) by (nonlinear_arith);
        assert(sum_prefix(rels, i) == s + r);
    }
}

/// Multiplying both sides of `a <= b` by a positive `c` keeps the order.
proof fn lemma_mul_le(a: int, b: int, c: int)
    requires
        a <= b,
        c >= 0,
    ensures
        a * c <= b * c,
{
    assert(a * c <= b * c) by (nonlinear_arith)
        requires
            a <= b,
            c >= 0,
    ;
}

/// A valid model yields, for every column, as many gross heights as
/// content cells, and gross heights the stacking arithmetic can rely on.
pub proof fn lemma_valid_gross(m: LayoutModelV, cfg: General, j: int)
    requires
        valid_model(m, cfg),
        0 <= j < ncols_of(m, cfg),
    ensures
        gross_of(m, cfg, j).len() == content_of(m, cfg, j).len(),
        valid_gross(gross_of(m, cfg, j), cfg.height as int, cfg.border as int),
{
    let g = gross_of(m, cfg, j);
    let h = cfg.height as int;
    let b = cfg.border as int;
    match m {
        LayoutModelV::Explicit { columns } => {
            let col = columns[j];
            let rels = col.map_values(|bb: SizedBlockV| bb.rel_mille);
            assert(valid_explicit_column(col, cfg));
            lemma_gross_explicit_sum(col, h, col.len() as int);
            lemma_sum_prefix_is_rel_sum(col);
            assert(rel_sum(col) * h / 1000 <= 1000 * h / 1000) by {
                lemma_mul_le(rel_sum(col), 1000, h);
                lemma_div_is_ordered(rel_sum(col) * h, 1000 * h, 1000);
            }
            lemma_div_multiples_vanish(h, 1000);
            assert(1000 * h / 1000 == h);
        },
        LayoutModelV::Implicit { blocks } => {
            let total = blocks.len() as int;
            let ncols = cfg.columns as int;
            if total == 0 || j * rows_implicit(total, ncols) >= total {
                assert(g =~= seq![h]);
                assert(sum_prefix(g, 0) == 0);
                assert(sum_prefix(g, 1) == h);
            } else {
                let rows = rows_implicit(total, ncols);
                let unit = unit_implicit(total, cfg);
                let start = j * rows;
                lemma_rows_implicit_bounds(total, ncols);
                lemma_fundamental_div_mod(h, rows);
                assert(h % rows >= 0);
                assert(rows * unit <= h);
                if total - start >= rows {
                    lemma_sum_prefix_constant(g, rows, unit);
                    assert(sum_prefix(g, g.len() as int) == rows * unit);
                } else {
                    let k = total - start;
                    assert(k < rows);
                    lemma_sum_prefix_constant(g, k, unit);
                    assert(sum_prefix(g, k) == k * unit);
                    assert(sum_prefix(g, k + 1) == k * unit + (h - k * unit));
                    assert(g[k] == h - k * unit);
                    assert(k * unit <= (rows - 1) * unit) by {
                        lemma_mul_le(k, rows - 1, unit);
                    }
                    assert((rows - 1) * unit == rows * unit - unit) by (nonlinear_arith);
                    assert(h - k * unit >= unit);
                }
            }
        },
    }
}

/// The row count of the implicit grid is positive, and at least one when
/// there is content; the uniform unit divides into the height.
proof fn lemma_rows_implicit_bounds(total: int, ncols: int)
    requires
        total >= 1,
        ncols >= 1,
    ensures
        1 <= rows_implicit(total, ncols) <= total,
{
    let rows = rows_implicit(total, ncols);
    lemma_fundamental_div_mod(total, ncols);
    assert(total / ncols >= 0) by (nonlinear_arith)
        requires
            total >= 1,
            ncols >= 1,
            total == ncols * (total / ncols) + total % ncols,
            0 <= total % ncols < ncols,
    ;
    if total % ncols == 0 {
        assert(total / ncols >= 1) by (nonlinear_arith)
            requires
                total >= 1,
                ncols >= 1,
                total == ncols * (total / ncols),
                total / ncols >= 0,
        ;
        assert(total / ncols <= total) by (nonlinear_arith)
            requires
                ncols >= 1,
                total == ncols * (total / ncols),
                total / ncols >= 0,
        ;
    } else {
        assert(total / ncols + 1 <= total) by (nonlinear_arith)
            requires
                total >= 1,
                ncols >= 1,
                total == ncols * (total / ncols) + total % ncols,
                1 <= total % ncols < ncols,
                total / ncols >= 0,
        ;
    }
}

/// A prefix of constant elements sums to length times the element.
proof fn lemma_sum_prefix_constant(g: Seq<int>, i: int, unit: int)
    requires
        0 <= i <= g.len(),
        forall|k: int| 0 <= k < i ==> g[k] == unit,
    ensures
        sum_prefix(g, i) == i * unit,
    decreases i,
{
    if i > 0 {
        lemma_sum_prefix_constant(g, i - 1, unit);
        assert(g[i - 1] == unit);
        assert((i - 1) * unit + unit == i * unit) by (nonlinear_arith);
    } else {
        assert(i * unit == 0) by (nonlinear_arith)
            requires
                i == 0,
        ;
    }
}

/// `rel_sum` is the prefix sum of the shares over the whole column.
proof fn lemma_sum_prefix_is_rel_sum(col: Seq<SizedBlockV>)
    ensures
        rel_sum(col) == sum_prefix(col.map_values(|b: SizedBlockV| b.rel_mille), col.len() as int),
{
}

/// A non-negative element never exceeds the sum of its whole sequence.
proof fn lemma_element_le_sum(s: Seq<int>, i: int)
    requires
        0 <= i < s.len(),
        forall|k: int| 0 <= k < s.len() ==> s[k] >= 0,
    ensures
        0 <= s[i] <= sum_prefix(s, s.len() as int),
{
    lemma_sum_prefix_monotonic(s, 0, i);
    lemma_sum_prefix_monotonic(s, i + 1, s.len() as int);
}

/// The horizontal geometry of a valid grid: every column is at least one
/// pixel wide, column edges advance by one column width plus one border,
/// and every column lies within the window.
pub proof fn lemma_col_geometry(ncols: int, cfg: General)
    requires
        valid_general(cfg, ncols),
    ensures
        1 <= col_width(ncols, cfg) <= cfg.width,
        forall|j: int|
            0 <= j <= ncols ==> cfg.border <= #[trigger] col_x(ncols, j, cfg) <= cfg.width,
        forall|j: int|
            0 <= j < ncols ==> #[trigger] col_x(ncols, j, cfg) + col_width(ncols, cfg) + cfg.border
                <= cfg.width,
        forall|j: int|
            0 <= j < ncols ==> #[trigger] col_x(ncols, j + 1, cfg) == col_x(ncols, j, cfg)
                + col_width(ncols, cfg) + cfg.border,
{
    let w = cfg.width as int;
    let b = cfg.border as int;
    let num = w - (ncols + 1) * b;
    let cw = col_width(ncols, cfg);
    assert(num >= ncols);
    lemma_div_is_ordered(ncols, num, ncols);
    assert(ncols / ncols == 1) by {
        lemma_div_multiples_vanish(1, ncols);
        assert(ncols * 1 == ncols) by (nonlinear_arith);
    }
    assert(cw >= 1);
    lemma_fundamental_div_mod(num, ncols);
    assert(ncols * cw <= num);
    assert(cw <= num) by (nonlinear_arith)
        requires
            ncols >= 1,
            cw >= 1,
            ncols * cw <= num,
    ;
    assert(num <= w) by (nonlinear_arith)
        requires
            (ncols + 1) * b >= 0,
            num == w - (ncols + 1) * b,
    ;
    assert((ncols + 1) * b >= 0) by (nonlinear_arith)
        requires
            ncols >= 1,
            b >= 0,
    ;
    assert forall|j: int| 0 <= j <= ncols implies cfg.border <= #[trigger] col_x(ncols, j, cfg)
        <= cfg.width by {
        assert(0 <= j * (cw + b) <= ncols * (cw + b)) by (nonlinear_arith)
            requires
                0 <= j <= ncols,
                cw + b >= 0,
        ;
        assert(ncols * (cw + b) == ncols * cw + ncols * b) by (nonlinear_arith);
        assert((ncols + 1) * b == ncols * b + b) by (nonlinear_arith);
    }
    assert forall|j: int| 0 <= j < ncols implies #[trigger] col_x(ncols, j, cfg) + col_width(
        ncols,
        cfg,
    ) + cfg.border <= cfg.width by {
        assert(j * (cw + b) + (cw + b) == (j + 1) * (cw + b)) by (nonlinear_arith);
        assert((j + 1) * (cw + b) <= ncols * (cw + b)) by (nonlinear_arith)
            requires
                j + 1 <= ncols,
                cw + b >= 0,
        ;
        assert(ncols * (cw + b) == ncols * cw + ncols * b) by (nonlinear_arith);
        assert((ncols + 1) * b == ncols * b + b) by (nonlinear_arith);
    }
    assert forall|j: int| 0 <= j < ncols implies #[trigger] col_x(ncols, j + 1, cfg) == col_x(
        ncols,
        j,
        cfg,
    ) + col_width(ncols, cfg) + cfg.border by {
        assert((j + 1) * (cw + b) == j * (cw + b) + (cw + b)) by (nonlinear_arith);
    }
}

/// Lays the model out: one placed block per grid cell, in column order,
/// exactly as [`layout_spec`] describes. A pure function of its inputs:
/// the same model and configuration always yield the same rectangles.
pub fn layout(model: &LayoutModel, cfg: &General) -> (r: Vec<PlacedBlock>)
    requires
        valid_model(model@, *cfg),
    ensures
        placed_views(r@) == layout_spec(model@, *cfg),
{
    match model {
        LayoutModel::Explicit { columns } => layout_explicit(columns, cfg),
        LayoutModel::Implicit { blocks } => layout_implicit(blocks, cfg),
    }
}

/// Explicit mode: every column's blocks are stacked with their declared
/// gross heights.
#[verifier::loop_isolation(false)]
fn layout_explicit(columns: &Vec<Vec<SizedBlock>>, cfg: &General) -> (r: Vec<PlacedBlock>)
    requires
        valid_model(
            LayoutModelV::Explicit { columns: crate::model::columns_view(columns@) },
            *cfg,
        ),
    ensures
        placed_views(r@) == layout_spec(
            LayoutModelV::Explicit { columns: crate::model::columns_view(columns@) },
            *cfg,
        ),
{
    let ghost m = LayoutModelV::Explicit { columns: crate::model::columns_view(columns@) };
    let ncols = columns.len();
    proof {
        assert((ncols as int + 1) * cfg.border >= 0) by (nonlinear_arith)
            requires
                cfg.border >= 0,
                ncols as int >= 1,
        ;
        lemma_col_geometry(ncols as int, *cfg);
    }
    let nc64: i64 = ncols as i64;
    let cw64: i64 = ((cfg.width as i64) - (nc64 + 1) * (cfg.border as i64)) / nc64;
    let cw: i32 = cw64 as i32;
    proof {
        assert(cw as int == col_width(ncols as int, *cfg));
    }
    let mut out: Vec<PlacedBlock> = Vec::new();
    let mut x: i32 = cfg.border;
    let mut j: usize = 0;
    while j < ncols
        invariant
            0 <= j <= ncols,
            placed_views(out@) == layout_prefix(m, *cfg, j as int),
            x as int == col_x(ncols as int, j as int, *cfg),
        decreases ncols - j,
    {
        let col: &Vec<SizedBlock> = &columns[j];
        proof {
            assert(crate::model::columns_view(columns@)[j as int] == crate::model::sized_view(
                col@,
            ));
            lemma_valid_gross(m, *cfg, j as int);
        }
        let ghost gross = gross_of(m, *cfg, j as int);
        let ghost colspec = column_spec(m, *cfg, j as int);
        let n = col.len();
        let mut y: i32 = cfg.border;
        let mut i: usize = 0;
        proof {
            assert(colspec.take(0) =~= Seq::<PlacedBlockV>::empty());
            assert(placed_views(out@) =~= layout_prefix(m, *cfg, j as int) + colspec.take(0));
        }
        while i < n
            invariant
                0 <= i <= n,
                placed_views(out@) == layout_prefix(m, *cfg, j as int) + colspec.take(i as int),
                y as int == cfg.border + sum_prefix(gross, i as int),
            decreases n - i,
        {
            let ghost colv = crate::model::sized_view(col@);
            let rel: u32 = col[i].rel_mille;
            proof {
                let rels = colv.map_values(|b: SizedBlockV| b.rel_mille);
                lemma_element_le_sum(rels, i as int);
                assert(rel <= 1000);
                assert((rel as int) * (cfg.height as int) <= 1000 * (cfg.height as int))
                    by (nonlinear_arith)
                    requires
                        rel as int <= 1000,
                        cfg.height as int > 0,
                ;
                lemma_div_is_ordered(
                    (rel as int) * (cfg.height as int),
                    1000 * (cfg.height as int),
                    1000,
                );
                lemma_div_multiples_vanish(cfg.height as int, 1000);
            }
            let gross_i: i32 = (((rel as u64) * (cfg.height as u64)) / 1000) as i32;
            proof {
                assert(gross_i as int == gross[i as int]);
                assert(gross[i as int] >= 2 * cfg.border + 1);
                lemma_sum_prefix_monotonic(gross, i as int + 1, gross.len() as int);
                lemma_sum_prefix_monotonic(gross, 0, i as int);
            }
            let h: i32 = if i + 1 == n {
                gross_i - 2 * cfg.border
            } else {
                gross_i - cfg.border
            };
            let pb = PlacedBlock {
                col: j,
                block: Some(col[i].block.clone()),
                rect: (Rect { x, y, w: cw, h }),
            };
            let ghost old_out = out@;
            out.push(pb);
            proof {
                assert(colspec.take(i as int + 1) =~= colspec.take(i as int).push(
                    colspec[i as int],
                ));
                assert(pb@ == colspec[i as int]);
                assert(placed_views(out@) =~= placed_views(old_out).push(pb@));
                assert(placed_views(out@) =~= layout_prefix(m, *cfg, j as int) + colspec.take(
                    i as int + 1,
                ));
            }
            y = y + gross_i;
            i = i + 1;
        }
        proof {
            assert(colspec.take(n as int) =~= colspec);
            assert(placed_views(out@) =~= layout_prefix(m, *cfg, j as int + 1));
        }
        x = x + cw + cfg.border;
        j = j + 1;
    }
    out
}

/// Implicit mode: the flat ordered block list is dealt into the configured
/// column count, `rows` blocks per column, every cell one row unit high; a
/// column left short of `rows` blocks ends in one filler covering its
/// remaining space, and a column with no blocks at all is one full filler.
#[verifier::loop_isolation(false)]
fn layout_implicit(blocks: &Vec<Block>, cfg: &General) -> (r: Vec<PlacedBlock>)
    requires
        valid_model(LayoutModelV::Implicit { blocks: crate::model::blocks_view(blocks@) }, *cfg),
    ensures
        placed_views(r@) == layout_spec(
            LayoutModelV::Implicit { blocks: crate::model::blocks_view(blocks@) },
            *cfg,
        ),
{
    let ghost m = LayoutModelV::Implicit { blocks: crate::model::blocks_view(blocks@) };
    let ncols: usize = cfg.columns as usize;
    proof {
        assert((ncols as int + 1) * cfg.border >= 0) by (nonlinear_arith)
            requires
                cfg.border >= 0,
                ncols as int >= 1,
        ;
        lemma_col_geometry(ncols as int, *cfg);
    }
    let nc64: i64 = cfg.columns as i64;
    let cw64: i64 = ((cfg.width as i64) - (nc64 + 1) * (cfg.border as i64)) / nc64;
    let cw: i32 = cw64 as i32;
    proof {
        assert(cw as int == col_width(ncols as int, *cfg));
    }
    let total: usize = blocks.len();
    let mut rows: usize = 1;
    let mut unit: i32 = 0;
    if total > 0 {
        let rq: usize = total / ncols;
        rows = if total % ncols == 0 {
            rq
        } else {
            rq + 1
        };
        proof {
            lemma_rows_implicit_bounds(total as int, ncols as int);
            assert(rows as int == rows_implicit(total as int, ncols as int));
        }
        unit = cfg.height / (rows as i32);
        proof {
            assert(unit as int == unit_implicit(total as int, *cfg));
        }
    }
    let mut out: Vec<PlacedBlock> = Vec::new();
    let mut x: i32 = cfg.border;
    let mut start: usize = 0;
    let mut j: usize = 0;
    while j < ncols
        invariant
            0 <= j <= ncols,
            placed_views(out@) == layout_prefix(m, *cfg, j as int),
            x as int == col_x(ncols as int, j as int, *cfg),
            total > 0 ==> start as int == (if (j as int) * (rows as int) <= total as int {
                (j as int) * (rows as int)
            } else {
                total as int
            }),
            total == 0 ==> start == 0,
        decreases ncols - j,
    {
        let ghost gross = gross_of(m, *cfg, j as int);
        let ghost colspec = column_spec(m, *cfg, j as int);
        proof {
            lemma_valid_gross(m, *cfg, j as int);
        }
        if total == 0 || start >= total {
            let hh: i32 = cfg.height - 2 * cfg.border;
            let pb = PlacedBlock {
                col: j,
                block: None,
                rect: (Rect { x, y: cfg.border, w: cw, h: hh }),
            };
            let ghost old_out = out@;
            out.push(pb);
            proof {
                assert(sum_prefix(gross, 0) == 0);
                assert(pb@ == colspec[0]);
                assert(placed_views(out@) =~= placed_views(old_out).push(pb@));
                assert(placed_views(out@) =~= layout_prefix(m, *cfg, j as int + 1));
            }
        } else {
            let k: usize = if total - start >= rows {
                rows
            } else {
                total - start
            };
            proof {
                assert(gross.len() == (if k < rows {
                    k as int + 1
                } else {
                    k as int
                }));
                assert(forall|i: int| 0 <= i < k ==> #[trigger] gross[i] == unit as int);
            }
            let mut y: i32 = cfg.border;
            let mut i: usize = 0;
            proof {
                assert(colspec.take(0) =~= Seq::<PlacedBlockV>::empty());
                assert(placed_views(out@) =~= layout_prefix(m, *cfg, j as int) + colspec.take(0));
            }
            while i < k
                invariant
                    0 <= i <= k,
                    placed_views(out@) == layout_prefix(m, *cfg, j as int) + colspec.take(
                        i as int,
                    ),
                    y as int == cfg.border + sum_prefix(gross, i as int),
                decreases k - i,
            {
                proof {
                    lemma_sum_prefix_monotonic(gross, i as int + 1, gross.len() as int);
                    lemma_sum_prefix_monotonic(gross, 0, i as int);
                }
                let h: i32 = if k == rows && i + 1 == k {
                    unit - 2 * cfg.border
                } else {
                    unit - cfg.border
                };
                let pb = PlacedBlock {
                    col: j,
                    block: Some(blocks[start + i].clone()),
                    rect: (Rect { x, y, w: cw, h }),
                };
                let ghost old_out = out@;
                out.push(pb);
                proof {
                    assert(colspec.take(i as int + 1) =~= colspec.take(i as int).push(
                        colspec[i as int],
                    ));
                    assert(pb@ == colspec[i as int]);
                    assert(placed_views(out@) =~= placed_views(old_out).push(pb@));
                    assert(placed_views(out@) =~= layout_prefix(m, *cfg, j as int) + colspec.take(
                        i as int + 1,
                    ));
                }
                y = y + unit;
                i = i + 1;
            }
            if k < rows {
                proof {
                    lemma_sum_prefix_constant(gross, k as int, unit as int);
                    lemma_sum_prefix_monotonic(gross, k as int + 1, gross.len() as int);
                    assert(sum_prefix(gross, k as int + 1) == (k as int) * (unit as int) + gross[
                        k as int
                    ]);
                }
                let hh: i32 = cfg.height - (k as i32) * unit - 2 * cfg.border;
                let pb = PlacedBlock { col: j, block: None, rect: (Rect { x, y, w: cw, h: hh }) };
                let ghost old_out = out@;
                out.push(pb);
                proof {
                    assert(colspec.take(k as int + 1) =~= colspec.take(k as int).push(
                        colspec[k as int],
                    ));
                    assert(pb@ == colspec[k as int]);
                    assert(placed_views(out@) =~= placed_views(old_out).push(pb@));
                    assert(placed_views(out@) =~= layout_prefix(m, *cfg, j as int) + colspec.take(
                        k as int + 1,
                    ));
                }
            }
            proof {
                assert(colspec.take(colspec.len() as int) =~= colspec);
                assert(placed_views(out@) =~= layout_prefix(m, *cfg, j as int + 1));
            }
        }
        proof {
            assert((j as int + 1) * (rows as int) == (j as int) * (rows as int) + rows as int)
                by (nonlinear_arith);
        }
        start = if total > 0 && total - start > rows {
            start + rows
        } else {
            total
        };
        x = x + cw + cfg.border;
        j = j + 1;
    }
    out
}

/// Checks a model and window configuration against everything [`layout`]
/// relies on. This is the validation the loading boundary runs, before
/// any window exists: content whose declared shares overflow a column, or
/// geometry without room for every block and its border gaps, is rejected
/// here rather than painted wrong. Returns `true` exactly on valid input.
#[verifier::loop_isolation(false)]
pub fn validate(model: &LayoutModel, cfg: &General) -> (ok: bool)
    ensures
        ok == valid_model(model@, *cfg),
{
    if cfg.width <= 0 || cfg.height <= 0 || cfg.border < 0 {
        return false;
    }
    if cfg.opacity_mille < 0 || cfg.opacity_mille > 1000 {
        return false;
    }
    match model {
        LayoutModel::Explicit { columns } => {
            let n = columns.len();
            if n < 1 {
                return false;
            }
            if n > 0x7fff_ffff {
                proof {
                    assert((n as int + 1) * cfg.border >= 0) by (nonlinear_arith)
                        requires
                            cfg.border >= 0,
                            n as int >= 1,
                    ;
                }
                return false;
            }
            let n64: i64 = n as i64;
            proof {
                assert(0 <= ((n64 as int) + 1) * (cfg.border as int) <= 0x4000_0000_0000_0000)
                    by (nonlinear_arith)
                    requires
                        0 <= cfg.border as int,
                        (cfg.border as int) < 0x8000_0000,
                        1 <= (n64 as int) + 1,
                        (n64 as int) + 1 <= 0x8000_0000,
                ;
            }
            if n64 + (n64 + 1) * (cfg.border as i64) > cfg.width as i64 {
                return false;
            }
            if cfg.height as i64 + cfg.border as i64 > 0x7fff_ffff {
                return false;
            }
            let ghost colsv = crate::model::columns_view(columns@);
            let mut j: usize = 0;
            while j < n
                invariant
                    0 <= j <= n,
                    forall|jj: int|
                        0 <= jj < j ==> valid_explicit_column(#[trigger] colsv[jj], *cfg),
                decreases n - j,
            {
                let col = &columns[j];
                let ghost colv = crate::model::sized_view(col@);
                let ghost rels = colv.map_values(|b: SizedBlockV| b.rel_mille);
                let mut sum: u64 = 0;
                let mut i: usize = 0;
                while i < col.len()
                    invariant
                        0 <= i <= col@.len(),
                        sum == sum_prefix(rels, i as int),
                        sum <= 1000,
                        forall|ii: int|
                            0 <= ii < i ==> (#[trigger] colv[ii].rel_mille) * cfg.height / 1000
                                >= 2 * cfg.border + 1,
                    decreases col@.len() - i,
                {
                    let rel = col[i].rel_mille;
                    if rel as u64 + sum > 1000 {
                        proof {
                            assert(colsv[j as int] == colv);
                            assert(rels[i as int] == rel as int);
                            assert(sum_prefix(rels, i as int + 1) > 1000);
                            assert(forall|k: int| 0 <= k < rels.len() ==> #[trigger] rels[k] >= 0);
                            lemma_sum_prefix_monotonic(rels, i as int + 1, rels.len() as int);
                            assert(rel_sum(colv) > 1000);
                            assert(!valid_explicit_column(colv, *cfg));
                        }
                        return false;
                    }
                    proof {
                        assert((rel as int) * (cfg.height as int) <= 1000 * 0x7fff_ffff)
                            by (nonlinear_arith)
                            requires
                                0 <= rel as int,
                                rel as int <= 1000,
                                0 <= cfg.height as int,
                                cfg.height as int <= 0x7fff_ffff,
                        ;
                    }
                    let gross: u64 = (rel as u64) * (cfg.height as u64) / 1000;
                    if gross < 2 * (cfg.border as u64) + 1 {
                        proof {
                            assert(colsv[j as int] == colv);
                            assert(colv[i as int].rel_mille == rel as int);
                            assert(gross as int == (rel as int) * (cfg.height as int) / 1000);
                            assert(!valid_explicit_column(colv, *cfg));
                        }
                        return false;
                    }
                    sum = sum + rel as u64;
                    i = i + 1;
                }
                j = j + 1;
            }
            true
        },
        LayoutModel::Implicit { blocks } => {
            if cfg.columns < 1 {
                return false;
            }
            let n64: i64 = cfg.columns as i64;
            proof {
                assert(0 <= ((n64 as int) + 1) * (cfg.border as int) <= 0x4000_0000_0000_0000)
                    by (nonlinear_arith)
                    requires
                        0 <= cfg.border as int,
                        (cfg.border as int) < 0x8000_0000,
                        1 <= (n64 as int) + 1,
                        (n64 as int) + 1 <= 0x8000_0000,
                ;
            }
            if n64 + (n64 + 1) * (cfg.border as i64) > cfg.width as i64 {
                return false;
            }
            if cfg.height as i64 + cfg.border as i64 > 0x7fff_ffff {
                return false;
            }
            if blocks.len() > 0x7fff_ffff {
                return false;
            }
            if (cfg.height as i64) < 2 * (cfg.border as i64) + 1 {
                return false;
            }
            let total = blocks.len();
            if total > 0 {
                let ncols = cfg.columns as usize;
                let rq: usize = total / ncols;
                let rows: usize = if total % ncols == 0 {
                    rq
                } else {
                    rq + 1
                };
                proof {
                    lemma_rows_implicit_bounds(total as int, ncols as int);
                    assert(rows as int == rows_implicit(total as int, ncols as int));
                }
                let unit: i32 = cfg.height / (rows as i32);
                if (unit as i64) < 2 * (cfg.border as i64) + 1 {
                    return false;
                }
            }
            true
        },
    }
}

/// A rectangle lying within the window: non-degenerate, and between the
/// window's edges.
pub open spec fn in_window(r: RectV, cfg: General) -> bool {
    &&& 0 <= r.x
    &&& r.x + r.w <= cfg.width
    &&& 0 <= r.y
    &&& r.y + r.h <= cfg.height
    &&& 1 <= r.w
    &&& 1 <= r.h
}

/// Law: the layout is deterministic. Two layout passes over the same
/// model and configuration yield identical placed blocks — the layout is
/// a pure function of its inputs.
pub proof fn lemma_layout_deterministic(
    m: LayoutModelV,
    cfg: General,
    a: Seq<PlacedBlockV>,
    b: Seq<PlacedBlockV>,
)
    requires
        a == layout_spec(m, cfg),
        b == layout_spec(m, cfg),
    ensures
        a == b,
{
}

proof fn lemma_column_geometry_facts(m: LayoutModelV, cfg: General, j: int)
    requires
        valid_model(m, cfg),
        0 <= j < ncols_of(m, cfg),
    ensures
        forall|i: int|
            0 <= i < column_spec(m, cfg, j).len() ==> {
                let p = #[trigger] column_spec(m, cfg, j)[i];
                &&& p.col == j
                &&& in_window(p.rect, cfg)
                &&& p.rect.y == cfg.border + sum_prefix(gross_of(m, cfg, j), i)
                &&& p.rect.y + p.rect.h + cfg.border <= cfg.border + sum_prefix(
                    gross_of(m, cfg, j),
                    i + 1,
                )
                &&& (i + 1 < column_spec(m, cfg, j).len() ==> p.rect.y + p.rect.h + cfg.border
                    == cfg.border + sum_prefix(gross_of(m, cfg, j), i + 1))
            },
{
    let gross = gross_of(m, cfg, j);
    let ncols = ncols_of(m, cfg);
    lemma_valid_gross(m, cfg, j);
    lemma_col_geometry(ncols, cfg);
    assert forall|i: int| 0 <= i < column_spec(m, cfg, j).len() implies {
        let p = #[trigger] column_spec(m, cfg, j)[i];
        &&& p.col == j
        &&& in_window(p.rect, cfg)
        &&& p.rect.y == cfg.border + sum_prefix(gross, i)
        &&& p.rect.y + p.rect.h + cfg.border <= cfg.border + sum_prefix(gross, i + 1)
        &&& (i + 1 < column_spec(m, cfg, j).len() ==> p.rect.y + p.rect.h + cfg.border
            == cfg.border + sum_prefix(gross, i + 1))
    } by {
        lemma_sum_prefix_monotonic(gross, 0, i);
        lemma_sum_prefix_monotonic(gross, i + 1, gross.len() as int);
    }
}

/// Law: containment. Every placed rectangle lies within the window
/// bounds, with a positive width and height.
pub proof fn lemma_layout_contained(m: LayoutModelV, cfg: General)
    requires
        valid_model(m, cfg),
    ensures
        forall|k: int|
            0 <= k < layout_spec(m, cfg).len() ==> in_window(
                #[trigger] layout_spec(m, cfg)[k].rect,
                cfg,
            ),
{
    lemma_prefix_placement(m, cfg, ncols_of(m, cfg));
}

/// Every placed block of the first `j` columns carries the index of a
/// column below `j`, lies within the window, and keeps at least a border
/// gap — exactly a border gap, when adjacent — to every later block of
/// its column.
proof fn lemma_prefix_placement(m: LayoutModelV, cfg: General, j: int)
    requires
        valid_model(m, cfg),
        0 <= j <= ncols_of(m, cfg),
    ensures
        forall|k: int|
            0 <= k < layout_prefix(m, cfg, j).len() ==> {
                let p = #[trigger] layout_prefix(m, cfg, j)[k];
                &&& 0 <= p.col < j
                &&& in_window(p.rect, cfg)
            },
        forall|k1: int, k2: int|
            0 <= k1 < k2 < layout_prefix(m, cfg, j).len() && #[trigger] layout_prefix(
                m,
                cfg,
                j,
            )[k1].col == #[trigger] layout_prefix(m, cfg, j)[k2].col ==> {
                let p1 = layout_prefix(m, cfg, j)[k1];
                let p2 = layout_prefix(m, cfg, j)[k2];
                &&& p1.rect.y + p1.rect.h + cfg.border <= p2.rect.y
                &&& (k2 == k1 + 1 ==> p1.rect.y + p1.rect.h + cfg.border == p2.rect.y)
            },
    decreases j,
{
    if j > 0 {
        lemma_prefix_placement(m, cfg, j - 1);
        lemma_column_geometry_facts(m, cfg, j - 1);
        let prev = layout_prefix(m, cfg, j - 1);
        let colseq = column_spec(m, cfg, j - 1);
        let cur = layout_prefix(m, cfg, j);
        let gross = gross_of(m, cfg, j - 1);
        assert forall|k1: int, k2: int|
            0 <= k1 < k2 < cur.len() && #[trigger] cur[k1].col == #[trigger] cur[k2].col implies {
            let p1 = cur[k1];
            let p2 = cur[k2];
            &&& p1.rect.y + p1.rect.h + cfg.border <= p2.rect.y
            &&& (k2 == k1 + 1 ==> p1.rect.y + p1.rect.h + cfg.border == p2.rect.y)
        } by {
            if k2 >= prev.len() && k1 >= prev.len() {
                let i1 = k1 - prev.len();
                let i2 = k2 - prev.len();
                assert(cur[k1] == colseq[i1]);
                assert(cur[k2] == colseq[i2]);
                lemma_valid_gross(m, cfg, j - 1);
                lemma_sum_prefix_monotonic(gross, i1 + 1, i2);
            } else if k1 < prev.len() && k2 >= prev.len() {
                assert(cur[k1] == prev[k1]);
                assert(cur[k1].col < j - 1 && cur[k2].col == j - 1);
            } else {
                assert(cur[k1] == prev[k1]);
                assert(cur[k2] == prev[k2]);
            }
        }
    }
}

/// Law: non-overlap. Any two placed blocks of the same column keep
/// disjoint y ranges, at least one border apart; consecutive ones are
/// separated by exactly `border` pixels.
pub proof fn lemma_layout_column_gaps(m: LayoutModelV, cfg: General)
    requires
        valid_model(m, cfg),
    ensures
        forall|k1: int, k2: int|
            0 <= k1 < k2 < layout_spec(m, cfg).len() && #[trigger] layout_spec(
                m,
                cfg,
            )[k1].col == #[trigger] layout_spec(m, cfg)[k2].col ==> {
                let p1 = layout_spec(m, cfg)[k1];
                let p2 = layout_spec(m, cfg)[k2];
                &&& p1.rect.y + p1.rect.h + cfg.border <= p2.rect.y
                &&& (k2 == k1 + 1 ==> p1.rect.y + p1.rect.h + cfg.border == p2.rect.y)
            },
{
    lemma_prefix_placement(m, cfg, ncols_of(m, cfg));
}

/// Law: implicit-mode distribution. Column `j` shows the `j`-th run of
/// `rows` blocks of the flat list, in order; a column holding fewer than
/// `rows` blocks ends in exactly one filler, and a column holding none is
/// a single filler.
pub proof fn lemma_implicit_distribution(blocks: Seq<BlockV>, cfg: General, j: int)
    requires
        valid_model(LayoutModelV::Implicit { blocks }, cfg),
        0 <= j < cfg.columns,
    ensures
        ({
            let m = LayoutModelV::Implicit { blocks };
            let col = column_spec(m, cfg, j);
            let total = blocks.len() as int;
            let rows = rows_implicit(total, cfg.columns as int);
            let start = j * rows;
            &&& (total == 0 || start >= total ==> col.len() == 1 && col[0].block is None)
            &&& (total > 0 && start < total && total - start >= rows ==> col.len() == rows
                && forall|i: int| 0 <= i < rows ==> (#[trigger] col[i].block) == Some(
                blocks[start + i],
            ))
            &&& (total > 0 && start < total && total - start < rows ==> col.len() == total - start
                + 1 && col[total - start].block is None && forall|i: int|
                0 <= i < total - start ==> (#[trigger] col[i].block) == Some(blocks[start + i]))
        }),
{
}

} // verus!
