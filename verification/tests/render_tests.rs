use shrots::Block;
use shrots::Colors;
use shrots::DrawCommand;
use shrots::Entry;
use shrots::Metrics;
use shrots::PlacedBlock;
use shrots::Rect;
use shrots::render_block;
use shrots::render_placed;

fn entry(bind: &str, about: &str) -> Entry {
    Entry { bind: bind.to_string(), about: about.to_string() }
}

fn palette() -> Colors {
    Colors {
        background: 0x101010,
        foreground: 0xEEEEEE,
        border: 0x202020,
        shrot: 0x80C080,
        about: 0xC0C0C0,
    }
}

fn editor_block() -> Block {
    Block {
        title: "Editor".to_string(),
        shrots: vec![entry("Ctrl+S", "Save"), entry("Ctrl+Shift+P", "Command palette")],
    }
}

fn editor_metrics() -> Metrics {
    Metrics { title_height: 24, bind_widths: vec![50, 120], about_heights: vec![14, 14] }
}

// The Editor scenario: header at (8, 0); the description column starts at
// the width of "Ctrl+Shift+P" (the longer binding) plus the 32-pixel gap;
// both descriptions share that x.
#[test]
fn editor_block_commands() {
    let rect = Rect { x: 0, y: 0, w: 300, h: 100 };
    let cmds = render_block(&editor_block(), rect, &palette(), &editor_metrics());
    assert_eq!(cmds.len(), 6);
    assert_eq!(
        cmds[0],
        DrawCommand::FillRect { x: 0, y: 0, w: 300, h: 100, color: 0x101010 }
    );
    assert_eq!(
        cmds[1],
        DrawCommand::TextRun {
            text: "Editor".to_string(),
            x: 8,
            y: 0,
            size: 24,
            color: 0xEEEEEE,
        }
    );
    // first entry on the line below the 24-pixel header
    assert_eq!(
        cmds[2],
        DrawCommand::TextRun {
            text: "Ctrl+S".to_string(),
            x: 8,
            y: 24,
            size: 12,
            color: 0x80C080,
        }
    );
    // description column: 8 + 120 + 32 = 160
    assert_eq!(
        cmds[3],
        DrawCommand::TextRun {
            text: "Save".to_string(),
            x: 160,
            y: 24,
            size: 12,
            color: 0xC0C0C0,
        }
    );
    // second entry advances by the first description's height
    assert_eq!(
        cmds[4],
        DrawCommand::TextRun {
            text: "Ctrl+Shift+P".to_string(),
            x: 8,
            y: 38,
            size: 12,
            color: 0x80C080,
        }
    );
    assert_eq!(
        cmds[5],
        DrawCommand::TextRun {
            text: "Command palette".to_string(),
            x: 160,
            y: 38,
            size: 12,
            color: 0xC0C0C0,
        }
    );
}

// Every description starts at the same x, whatever its binding's width.
#[test]
fn descriptions_share_one_column() {
    let block = Block {
        title: "Misc".to_string(),
        shrots: vec![entry("a", "one"), entry("bbbb", "two"), entry("cc", "three")],
    };
    let metrics = Metrics {
        title_height: 24,
        bind_widths: vec![9, 44, 21],
        about_heights: vec![14, 14, 14],
    };
    let rect = Rect { x: 100, y: 50, w: 200, h: 200 };
    let cmds = render_block(&block, rect, &palette(), &metrics);
    let about_xs: Vec<i32> = cmds
        .iter()
        .skip(2)
        .enumerate()
        .filter(|(k, _)| k % 2 == 1)
        .map(|(_, c)| match c {
            DrawCommand::TextRun { x, .. } => *x,
            DrawCommand::FillRect { x, .. } => *x,
        })
        .collect();
    assert_eq!(about_xs, vec![100 + 8 + 44 + 32; 3]);
}

// Rendering the same block twice with the same palette produces identical
// command sequences.
#[test]
fn rerender_is_idempotent() {
    let rect = Rect { x: 10, y: 20, w: 300, h: 100 };
    let first = render_block(&editor_block(), rect, &palette(), &editor_metrics());
    let second = render_block(&editor_block(), rect, &palette(), &editor_metrics());
    assert_eq!(first, second);
}

// A block with no title and no entries paints its background only.
#[test]
fn empty_block_paints_background_only() {
    let block = Block { title: String::new(), shrots: vec![] };
    let metrics = Metrics { title_height: 0, bind_widths: vec![], about_heights: vec![] };
    let rect = Rect { x: 5, y: 6, w: 70, h: 80 };
    let cmds = render_block(&block, rect, &palette(), &metrics);
    assert_eq!(
        cmds,
        vec![DrawCommand::FillRect { x: 5, y: 6, w: 70, h: 80, color: 0x101010 }]
    );
}

// A filler cell renders as its background rectangle alone.
#[test]
fn filler_cell_renders_background() {
    let placed = PlacedBlock {
        col: 2,
        block: None,
        rect: Rect { x: 40, y: 4, w: 100, h: 392 },
    };
    let metrics = Metrics { title_height: 0, bind_widths: vec![], about_heights: vec![] };
    let cmds = render_placed(&placed, &palette(), &metrics);
    assert_eq!(
        cmds,
        vec![DrawCommand::FillRect { x: 40, y: 4, w: 100, h: 392, color: 0x101010 }]
    );
}

// Rendering a placed block matches rendering the block itself.
#[test]
fn placed_block_renders_like_its_block() {
    let rect = Rect { x: 0, y: 0, w: 300, h: 100 };
    let placed = PlacedBlock { col: 0, block: Some(editor_block()), rect };
    let via_placed = render_placed(&placed, &palette(), &editor_metrics());
    let direct = render_block(&editor_block(), rect, &palette(), &editor_metrics());
    assert_eq!(via_placed, direct);
}
