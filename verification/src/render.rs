//! The block renderer: from one placed block to an ordered list of draw
//! commands.
//!
//! A rendering pass paints, in painter's order (later commands overlay
//! earlier ones): the block's background rectangle; its title at the
//! heading size; then, per entry, the key binding and its description on a
//! common baseline. All descriptions start at the same x offset — the
//! widest key binding plus a fixed gap — so that entries with bindings of
//! different lengths still align. The vertical cursor advances by each
//! description's measured height.
//!
//! Text is measured outside this crate (the toolkit owns the font
//! engine); the measured pixel values come in as a [`Metrics`] record, and
//! rendering is a pure function of block, rectangle, palette and
//! measurements: [`render_block`] returns exactly [`render_spec`] of its
//! inputs.

use vstd::prelude::*;
use crate::color::Colors;
use crate::geom::RectV;
use crate::geom::Rect;
use crate::geom::max_prefix;
use crate::geom::max_value;
use crate::geom::sum_prefix;
use crate::geom::lemma_max_value_nonneg;
use crate::geom::lemma_sum_prefix_monotonic;
use crate::layout::PlacedBlock;
use crate::layout::PlacedBlockV;
use crate::model::Block;
use crate::model::BlockV;
use crate::model::EntryV;

verus! {

/// Horizontal padding between a block's left edge and its text.
pub const PADDING_X: i32 = 8;

/// The fixed gap between the widest key binding and the description column.
pub const SPACING: i32 = 32;

/// Font size of a block title.
pub const HEADING_SIZE: i32 = 24;

/// Font size of key bindings and descriptions.
pub const SHROT_SIZE: i32 = 12;

/// One drawing instruction for the canvas: a filled rectangle, or a text
/// run at a position, with its color and font size.
#[derive(Debug, PartialEq)]
pub enum DrawCommand {
    FillRect { x: i32, y: i32, w: i32, h: i32, color: u32 },
    TextRun { text: String, x: i32, y: i32, size: i32, color: u32 },
}

/// The mathematical value of a [`DrawCommand`].
pub ghost enum DrawCommandV {
    FillRect { x: int, y: int, w: int, h: int, color: u32 },
    TextRun { text: Seq<char>, x: int, y: int, size: int, color: u32 },
}

impl View for DrawCommand {
    type V = DrawCommandV;

    open spec fn view(&self) -> DrawCommandV {
        match self {
            DrawCommand::FillRect { x, y, w, h, color } => DrawCommandV::FillRect {
                x: x as int,
                y: y as int,
                w: w as int,
                h: h as int,
                color: *color,
            },
            DrawCommand::TextRun { text, x, y, size, color } => DrawCommandV::TextRun {
                text: text@,
                x: x as int,
                y: y as int,
                size: size as int,
                color: *color,
            },
        }
    }
}

/// The values of a sequence of draw commands.
pub open spec fn cmd_views(s: Seq<DrawCommand>) -> Seq<DrawCommandV> {
    s.map_values(|c: DrawCommand| c@)
}

/// The pixel measurements of one block's text, as the text measurer
/// reports them: the title's height at the heading size, and each entry's
/// key-binding width and description height at the shortcut size.
#[derive(Debug)]
pub struct Metrics {
    pub title_height: i32,
    pub bind_widths: Vec<i32>,
    pub about_heights: Vec<i32>,
}

/// The values of a sequence of measured pixels.
pub open spec fn int_seq(s: Seq<i32>) -> Seq<int> {
    s.map_values(|v: i32| v as int)
}

/// A filler block: no title and no entries. Only its background is
/// painted.
pub open spec fn is_filler(b: BlockV) -> bool {
    b.title.len() == 0 && b.shrots.len() == 0
}

/// The x offset, from a block's text edge, at which every description
/// starts: the widest key binding plus the fixed gap.
pub open spec fn about_offset(ws: Seq<int>) -> int {
    max_value(ws) + SPACING
}

/// The top edge of entry `i`'s line: below the title and the descriptions
/// of all earlier entries.
pub open spec fn entry_line_y(rect: RectV, title_h: int, hs: Seq<int>, i: int) -> int {
    rect.y + title_h + sum_prefix(hs, i)
}

/// The background fill covering a block's whole rectangle.
pub open spec fn background_cmd(rect: RectV, pal: Colors) -> DrawCommandV {
    DrawCommandV::FillRect { x: rect.x, y: rect.y, w: rect.w, h: rect.h, color: pal.background }
}

/// The two text runs of entry `i`: its key binding at the text edge, its
/// description at the common description column.
pub open spec fn entry_cmds(
    e: EntryV,
    rect: RectV,
    pal: Colors,
    title_h: int,
    ws: Seq<int>,
    hs: Seq<int>,
    i: int,
) -> Seq<DrawCommandV> {
    seq![
        DrawCommandV::TextRun {
            text: e.bind,
            x: rect.x + PADDING_X,
            y: entry_line_y(rect, title_h, hs, i),
            size: SHROT_SIZE as int,
            color: pal.shrot,
        },
        DrawCommandV::TextRun {
            text: e.about,
            x: rect.x + PADDING_X + about_offset(ws),
            y: entry_line_y(rect, title_h, hs, i),
            size: SHROT_SIZE as int,
            color: pal.about,
        },
    ]
}

/// The text runs of the first `i` entries, in order.
pub open spec fn entries_cmds_prefix(
    es: Seq<EntryV>,
    rect: RectV,
    pal: Colors,
    title_h: int,
    ws: Seq<int>,
    hs: Seq<int>,
    i: int,
) -> Seq<DrawCommandV>
    decreases i,
{
    if i <= 0 {
        Seq::empty()
    } else {
        entries_cmds_prefix(es, rect, pal, title_h, ws, hs, i - 1) + entry_cmds(
            es[i - 1],
            rect,
            pal,
            title_h,
            ws,
            hs,
            i - 1,
        )
    }
}

/// The first `i` entries yield two text runs each.
pub proof fn lemma_entries_cmds_prefix_len(
    es: Seq<EntryV>,
    rect: RectV,
    pal: Colors,
    title_h: int,
    ws: Seq<int>,
    hs: Seq<int>,
    i: int,
)
    requires
        0 <= i,
    ensures
        entries_cmds_prefix(es, rect, pal, title_h, ws, hs, i).len() == 2 * i,
    decreases i,
{
    if i > 0 {
        lemma_entries_cmds_prefix_len(es, rect, pal, title_h, ws, hs, i - 1);
    }
}

/// The background and the title heading of a non-filler block.
pub open spec fn header_cmds(b: BlockV, rect: RectV, pal: Colors) -> Seq<DrawCommandV> {
    seq![
        background_cmd(rect, pal),
        DrawCommandV::TextRun {
            text: b.title,
            x: rect.x + PADDING_X,
            y: rect.y,
            size: HEADING_SIZE as int,
            color: pal.foreground,
        },
    ]
}

/// What [`render_block`] returns: the background alone for a filler;
/// otherwise background, title, and every entry's two text runs in entry
/// order — painter's order throughout.
pub open spec fn render_spec(
    b: BlockV,
    rect: RectV,
    pal: Colors,
    title_h: int,
    ws: Seq<int>,
    hs: Seq<int>,
) -> Seq<DrawCommandV> {
    if is_filler(b) {
        seq![background_cmd(rect, pal)]
    } else {
        header_cmds(b, rect, pal) + entries_cmds_prefix(
            b.shrots,
            rect,
            pal,
            title_h,
            ws,
            hs,
            b.shrots.len() as int,
        )
    }
}

/// What a rendering pass relies on of its measurements: one width and one
/// height per entry, all non-negative, a rectangle at a non-negative
/// position, and enough headroom below `i32::MAX` for the cursor and
/// offset arithmetic.
pub open spec fn valid_metrics(
    b: BlockV,
    rect: RectV,
    title_h: int,
    ws: Seq<int>,
    hs: Seq<int>,
) -> bool {
    &&& ws.len() == b.shrots.len()
    &&& hs.len() == b.shrots.len()
    &&& 0 <= title_h
    &&& forall|i: int| 0 <= i < ws.len() ==> #[trigger] ws[i] >= 0
    &&& forall|i: int| 0 <= i < hs.len() ==> #[trigger] hs[i] >= 0
    &&& rect.x >= 0
    &&& rect.y >= 0
    &&& rect.y + title_h + sum_prefix(hs, hs.len() as int) <= i32::MAX
    &&& rect.x + PADDING_X + max_value(ws) + SPACING <= i32::MAX
}

/// Renders one block into draw commands, in painter's order, exactly as
/// [`render_spec`] describes: a pure function of block, rectangle, palette
/// and measurements.
#[verifier::loop_isolation(false)]
pub fn render_block(block: &Block, rect: Rect, palette: &Colors, metrics: &Metrics) -> (r: Vec<
    DrawCommand,
>)
    requires
        valid_metrics(
            block@,
            rect@,
            metrics.title_height as int,
            int_seq(metrics.bind_widths@),
            int_seq(metrics.about_heights@),
        ),
    ensures
        cmd_views(r@) == render_spec(
            block@,
            rect@,
            *palette,
            metrics.title_height as int,
            int_seq(metrics.bind_widths@),
            int_seq(metrics.about_heights@),
        ),
{
    let ghost ws = int_seq(metrics.bind_widths@);
    let ghost hs = int_seq(metrics.about_heights@);
    let ghost title_h = metrics.title_height as int;
    let mut out: Vec<DrawCommand> = Vec::new();
    out.push(
        DrawCommand::FillRect {
            x: rect.x,
            y: rect.y,
            w: rect.w,
            h: rect.h,
            color: palette.background,
        },
    );
    if block.title.as_str().is_empty() && block.shrots.len() == 0 {
        proof {
            assert(cmd_views(out@) =~= render_spec(block@, rect@, *palette, title_h, ws, hs));
        }
        return out;
    }
    proof {
        lemma_max_value_nonneg(ws);
    }
    out.push(
        DrawCommand::TextRun {
            text: block.title.clone(),
            x: rect.x + PADDING_X,
            y: rect.y,
            size: HEADING_SIZE,
            color: palette.foreground,
        },
    );
    let mut max_w: i32 = 0;
    let mut i: usize = 0;
    while i < metrics.bind_widths.len()
        invariant
            0 <= i <= metrics.bind_widths@.len(),
            max_w as int == max_prefix(ws, i as int),
        decreases metrics.bind_widths@.len() - i,
    {
        let w = metrics.bind_widths[i];
        if w > max_w {
            max_w = w;
        }
        i = i + 1;
    }
    let bind_x: i32 = rect.x + PADDING_X;
    let about_x: i32 = rect.x + PADDING_X + max_w + SPACING;
    proof {
        lemma_sum_prefix_monotonic(hs, 0, hs.len() as int);
        assert(sum_prefix(hs, 0) == 0);
    }
    let mut ty: i32 = rect.y + metrics.title_height;
    proof {
        assert(cmd_views(out@) =~= header_cmds(block@, rect@, *palette) + entries_cmds_prefix(
            block@.shrots,
            rect@,
            *palette,
            title_h,
            ws,
            hs,
            0,
        ));
    }
    let mut e: usize = 0;
    while e < block.shrots.len()
        invariant
            0 <= e <= block.shrots@.len(),
            ty as int == entry_line_y(rect@, title_h, hs, e as int),
            cmd_views(out@) == header_cmds(block@, rect@, *palette) + entries_cmds_prefix(
                block@.shrots,
                rect@,
                *palette,
                title_h,
                ws,
                hs,
                e as int,
            ),
        decreases block.shrots@.len() - e,
    {
        proof {
            lemma_sum_prefix_monotonic(hs, e as int + 1, hs.len() as int);
            lemma_sum_prefix_monotonic(hs, 0, e as int);
        }
        let entry = &block.shrots[e];
        let ghost old_out = out@;
        out.push(
            DrawCommand::TextRun {
                text: entry.bind.clone(),
                x: bind_x,
                y: ty,
                size: SHROT_SIZE,
                color: palette.shrot,
            },
        );
        out.push(
            DrawCommand::TextRun {
                text: entry.about.clone(),
                x: about_x,
                y: ty,
                size: SHROT_SIZE,
                color: palette.about,
            },
        );
        proof {
            assert(block@.shrots[e as int] == block.shrots@[e as int]@);
            lemma_entries_cmds_prefix_len(
                block@.shrots,
                rect@,
                *palette,
                title_h,
                ws,
                hs,
                e as int,
            );
            lemma_entries_cmds_prefix_len(
                block@.shrots,
                rect@,
                *palette,
                title_h,
                ws,
                hs,
                e as int + 1,
            );
            let pair = entry_cmds(
                block@.shrots[e as int],
                rect@,
                *palette,
                title_h,
                ws,
                hs,
                e as int,
            );
            assert(out@[out@.len() - 2]@ == pair[0]);
            assert(out@[out@.len() - 1]@ == pair[1]);
            assert(cmd_views(out@) =~= cmd_views(old_out) + pair);
            assert(cmd_views(out@) =~= header_cmds(block@, rect@, *palette) + entries_cmds_prefix(
                block@.shrots,
                rect@,
                *palette,
                title_h,
                ws,
                hs,
                e as int + 1,
            ));
        }
        ty = ty + metrics.about_heights[e];
        e = e + 1;
    }
    proof {
        assert(cmd_views(out@) =~= render_spec(block@, rect@, *palette, title_h, ws, hs));
    }
    out
}

proof fn lemma_entries_prefix_index(
    es: Seq<EntryV>,
    rect: RectV,
    pal: Colors,
    title_h: int,
    ws: Seq<int>,
    hs: Seq<int>,
    i: int,
    n: int,
)
    requires
        0 <= i < n,
    ensures
        entries_cmds_prefix(es, rect, pal, title_h, ws, hs, n)[2 * i] == entry_cmds(
            es[i],
            rect,
            pal,
            title_h,
            ws,
            hs,
            i,
        )[0],
        entries_cmds_prefix(es, rect, pal, title_h, ws, hs, n)[2 * i + 1] == entry_cmds(
            es[i],
            rect,
            pal,
            title_h,
            ws,
            hs,
            i,
        )[1],
    decreases n,
{
    lemma_entries_cmds_prefix_len(es, rect, pal, title_h, ws, hs, n - 1);
    if i < n - 1 {
        lemma_entries_prefix_index(es, rect, pal, title_h, ws, hs, i, n - 1);
    }
}

/// Law: alignment. In one rendered block, every entry's description
/// starts at the same x offset — the widest key binding plus the fixed
/// gap — whatever the entry's own binding width; and each entry's two
/// runs stand at positions 2i+2 and 2i+3 of the command list, on a common
/// line.
pub proof fn lemma_about_alignment(
    b: BlockV,
    rect: RectV,
    pal: Colors,
    title_h: int,
    ws: Seq<int>,
    hs: Seq<int>,
    i: int,
)
    requires
        !is_filler(b),
        0 <= i < b.shrots.len(),
    ensures
        ({
            let cmds = render_spec(b, rect, pal, title_h, ws, hs);
            &&& cmds.len() == 2 + 2 * b.shrots.len()
            &&& cmds[2 + 2 * i] == (DrawCommandV::TextRun {
                text: b.shrots[i].bind,
                x: rect.x + PADDING_X,
                y: entry_line_y(rect, title_h, hs, i),
                size: SHROT_SIZE as int,
                color: pal.shrot,
            })
            &&& cmds[3 + 2 * i] == (DrawCommandV::TextRun {
                text: b.shrots[i].about,
                x: rect.x + PADDING_X + about_offset(ws),
                y: entry_line_y(rect, title_h, hs, i),
                size: SHROT_SIZE as int,
                color: pal.about,
            })
        }),
{
    let n = b.shrots.len() as int;
    lemma_entries_cmds_prefix_len(b.shrots, rect, pal, title_h, ws, hs, n);
    lemma_entries_prefix_index(b.shrots, rect, pal, title_h, ws, hs, i, n);
}

/// Law: re-rendering is idempotent. The same block, rectangle, palette
/// and measurements always yield the very same command sequence: what
/// [`render_block`] returns is a pure function of its inputs.
pub proof fn lemma_render_deterministic(
    b: BlockV,
    rect: RectV,
    pal: Colors,
    title_h: int,
    ws: Seq<int>,
    hs: Seq<int>,
    a: Seq<DrawCommandV>,
    c: Seq<DrawCommandV>,
)
    requires
        a == render_spec(b, rect, pal, title_h, ws, hs),
        c == render_spec(b, rect, pal, title_h, ws, hs),
    ensures
        a == c,
{
}

/// What [`render_placed`] returns: for a filler cell the background fill
/// alone, for a block cell the block's full rendering.
pub open spec fn render_placed_spec(
    p: PlacedBlockV,
    pal: Colors,
    title_h: int,
    ws: Seq<int>,
    hs: Seq<int>,
) -> Seq<DrawCommandV> {
    match p.block {
        None => seq![background_cmd(p.rect, pal)],
        Some(b) => render_spec(b, p.rect, pal, title_h, ws, hs),
    }
}

/// Renders one placed grid cell: a filler gets its background rectangle
/// only, a block gets its full command list.
pub fn render_placed(p: &PlacedBlock, palette: &Colors, metrics: &Metrics) -> (r: Vec<DrawCommand>)
    requires
        match p.block {
            Some(b) => valid_metrics(
                b@,
                p.rect@,
                metrics.title_height as int,
                int_seq(metrics.bind_widths@),
                int_seq(metrics.about_heights@),
            ),
            None => true,
        },
    ensures
        cmd_views(r@) == render_placed_spec(
            p@,
            *palette,
            metrics.title_height as int,
            int_seq(metrics.bind_widths@),
            int_seq(metrics.about_heights@),
        ),
{
    match &p.block {
        None => {
            let mut out: Vec<DrawCommand> = Vec::new();
            out.push(
                DrawCommand::FillRect {
                    x: p.rect.x,
                    y: p.rect.y,
                    w: p.rect.w,
                    h: p.rect.h,
                    color: palette.background,
                },
            );
            proof {
                assert(cmd_views(out@) =~= seq![background_cmd(p.rect@, *palette)]);
            }
            out
        },
        Some(b) => render_block(b, p.rect, palette, metrics),
    }
}

} // verus!
