use shrots::Block;
use shrots::Entry;
use shrots::General;
use shrots::LayoutModel;
use shrots::SizedBlock;
use shrots::layout;
use shrots::validate;

fn entry(bind: &str, about: &str) -> Entry {
    Entry { bind: bind.to_string(), about: about.to_string() }
}

fn block(title: &str) -> Block {
    Block { title: title.to_string(), shrots: vec![entry("Ctrl+S", "Save")] }
}

fn sized(title: &str, rel_mille: u32) -> SizedBlock {
    SizedBlock { block: block(title), rel_mille }
}

fn general(width: i32, height: i32, columns: i32, border: i32) -> General {
    General { width, height, opacity_mille: 900, columns, border }
}

// Explicit-mode column of two half-height blocks in a 400-pixel window
// with a 4-pixel border: the first block is 196 pixels tall at y = 4, the
// second, last one 192 pixels tall at y = 204.
#[test]
fn explicit_two_half_blocks() {
    let model = LayoutModel::Explicit {
        columns: vec![vec![sized("One", 500), sized("Two", 500)]],
    };
    let cfg = general(300, 400, 1, 4);
    assert!(validate(&model, &cfg));
    let placed = layout(&model, &cfg);
    assert_eq!(placed.len(), 2);
    assert_eq!(placed[0].rect.y, 4);
    assert_eq!(placed[0].rect.h, 196);
    assert_eq!(placed[1].rect.y, 204);
    assert_eq!(placed[1].rect.h, 192);
    // the column spans the window width minus its two borders
    assert_eq!(placed[0].rect.x, 4);
    assert_eq!(placed[0].rect.w, 292);
    // consecutive blocks are separated by exactly the border
    assert_eq!(placed[1].rect.y, placed[0].rect.y + placed[0].rect.h + 4);
}

#[test]
fn layout_is_deterministic() {
    let model = LayoutModel::Explicit {
        columns: vec![
            vec![sized("A", 300), sized("B", 700)],
            vec![sized("C", 1000)],
        ],
    };
    let cfg = general(640, 480, 1, 2);
    assert!(validate(&model, &cfg));
    let first = layout(&model, &cfg);
    let second = layout(&model, &cfg);
    assert_eq!(first, second);
}

// Implicit mode with 7 blocks over 3 columns: rows = ceil(7/3) = 3, so
// column 0 and 1 get 3 blocks each and column 2 gets 1 plus one filler.
#[test]
fn implicit_seven_blocks_three_columns() {
    let names = ["a", "b", "c", "d", "e", "f", "g"];
    let blocks: Vec<Block> = names.iter().map(|n| block(n)).collect();
    let model = LayoutModel::Implicit { blocks };
    let cfg = general(600, 400, 3, 4);
    assert!(validate(&model, &cfg));
    let placed = layout(&model, &cfg);
    assert_eq!(placed.len(), 8);
    let count = |c: usize| placed.iter().filter(|p| p.col == c).count();
    assert_eq!(count(0), 3);
    assert_eq!(count(1), 3);
    assert_eq!(count(2), 2);
    let fillers: Vec<usize> = placed
        .iter()
        .enumerate()
        .filter(|(_, p)| p.block.is_none())
        .map(|(k, _)| k)
        .collect();
    assert_eq!(fillers, vec![7]);
    assert_eq!(placed[7].col, 2);
    // the blocks keep their given order, dealt column by column
    assert_eq!(placed[0].block.as_ref().unwrap().title, "a");
    assert_eq!(placed[3].block.as_ref().unwrap().title, "d");
    assert_eq!(placed[6].block.as_ref().unwrap().title, "g");
}

// With no content at all, every column still gets one full-height filler.
#[test]
fn implicit_empty_content_yields_fillers() {
    let model = LayoutModel::Implicit { blocks: vec![] };
    let cfg = general(600, 400, 3, 4);
    assert!(validate(&model, &cfg));
    let placed = layout(&model, &cfg);
    assert_eq!(placed.len(), 3);
    for (j, p) in placed.iter().enumerate() {
        assert_eq!(p.col, j);
        assert!(p.block.is_none());
        assert_eq!(p.rect.y, 4);
        assert_eq!(p.rect.h, 400 - 8);
    }
}

// Every placed rectangle lies within the window bounds.
#[test]
fn rectangles_stay_within_window() {
    let names = ["q", "w", "e", "r", "t"];
    let blocks: Vec<Block> = names.iter().map(|n| block(n)).collect();
    let model = LayoutModel::Implicit { blocks };
    let cfg = general(500, 300, 2, 6);
    assert!(validate(&model, &cfg));
    for p in layout(&model, &cfg) {
        assert!(p.rect.x >= 0);
        assert!(p.rect.y >= 0);
        assert!(p.rect.w >= 1);
        assert!(p.rect.h >= 1);
        assert!(p.rect.x + p.rect.w <= cfg.width);
        assert!(p.rect.y + p.rect.h <= cfg.height);
    }
}

#[test]
fn validate_rejects_overfull_column() {
    let model = LayoutModel::Explicit {
        columns: vec![vec![sized("One", 600), sized("Two", 600)]],
    };
    let cfg = general(300, 400, 1, 4);
    assert!(!validate(&model, &cfg));
}

#[test]
fn validate_rejects_bad_geometry() {
    let model = LayoutModel::Implicit { blocks: vec![block("a")] };
    assert!(!validate(&model, &general(0, 400, 1, 4)));
    assert!(!validate(&model, &general(300, 0, 1, 4)));
    assert!(!validate(&model, &general(300, 400, 0, 4)));
    assert!(!validate(&model, &general(300, 400, 1, -1)));
    // no room for one-pixel columns between the borders
    assert!(!validate(&model, &general(10, 400, 8, 2)));
}

#[test]
fn validate_rejects_bad_opacity() {
    let model = LayoutModel::Implicit { blocks: vec![block("a")] };
    let mut cfg = general(300, 400, 1, 4);
    cfg.opacity_mille = 1001;
    assert!(!validate(&model, &cfg));
    cfg.opacity_mille = -1;
    assert!(!validate(&model, &cfg));
}

// A block whose share leaves no room for its border gaps is rejected.
#[test]
fn validate_rejects_sliver_blocks() {
    let model = LayoutModel::Explicit { columns: vec![vec![sized("One", 1)]] };
    let cfg = general(300, 400, 1, 4);
    assert!(!validate(&model, &cfg));
}
