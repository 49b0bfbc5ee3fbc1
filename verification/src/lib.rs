//! A layout and rendering engine for a static, grid-organized cheat-sheet
//! overlay: blocks of keyboard shortcuts are partitioned into columns,
//! placed as pixel rectangles, and rendered into an ordered list of draw
//! commands. Window creation, configuration parsing and painting live
//! outside this crate; the engine is a pure function from a layout model,
//! window geometry and text measurements to rectangles and draw commands.

pub mod color;
pub mod geom;
pub mod layout;
pub mod model;
pub mod render;

pub use color::Colors;
pub use color::rgb;
pub use geom::Rect;
pub use layout::PlacedBlock;
pub use layout::layout;
pub use layout::validate;
pub use model::Block;
pub use model::Config;
pub use model::Entry;
pub use model::General;
pub use model::LayoutModel;
pub use model::SizedBlock;
pub use render::DrawCommand;
pub use render::Metrics;
pub use render::render_block;
pub use render::render_placed;
