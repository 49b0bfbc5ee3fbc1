//! The layout model: the pure data a cheat sheet is built from.
//!
//! An [`Entry`] pairs a key-binding string with a description. A [`Block`] is
//! a titled, ordered group of entries. A [`LayoutModel`] is either an
//! explicit matrix of columns, each block carrying a relative height, or a
//! flat ordered list of blocks to be auto-distributed over a fixed column
//! count. [`General`] holds the window geometry; fractions such as relative
//! height and opacity are stored in thousandths, so that all geometry is
//! integer arithmetic.

use vstd::prelude::*;

verus! {

/// A single shortcut: a key-binding string and its description.
/// Entries are immutable once loaded; duplicates are allowed and
/// are rendered in the given order.
#[derive(Debug, PartialEq)]
pub struct Entry {
    pub bind: String,
    pub about: String,
}

/// The mathematical value of an [`Entry`]: its two strings.
pub ghost struct EntryV {
    pub bind: Seq<char>,
    pub about: Seq<char>,
}

impl View for Entry {
    type V = EntryV;

    open spec fn view(&self) -> EntryV {
        EntryV { bind: self.bind@, about: self.about@ }
    }
}

impl Clone for Entry {
    fn clone(&self) -> (r: Self)
        ensures
            r == *self,
    {
        Entry { bind: self.bind.clone(), about: self.about.clone() }
    }
}

/// A titled group of shortcut entries, rendered as one rectangle.
/// The entries keep their insertion order: it is the rendering order.
#[derive(Debug, PartialEq)]
pub struct Block {
    pub title: String,
    pub shrots: Vec<Entry>,
}

impl Clone for Block {
    fn clone(&self) -> (r: Self)
        ensures
            r@ == self@,
    {
        let shrots = self.shrots.clone();
        proof {
            assert forall|i: int| 0 <= i < shrots@.len() implies shrots@[i] == self.shrots@[i] by {
                assert(cloned::<Entry>(self.shrots[i], shrots[i]));
            }
            assert(entries_view(shrots@) =~= entries_view(self.shrots@));
        }
        Block { title: self.title.clone(), shrots }
    }
}

/// The mathematical value of a [`Block`].
pub ghost struct BlockV {
    pub title: Seq<char>,
    pub shrots: Seq<EntryV>,
}

/// The values of a sequence of entries.
pub open spec fn entries_view(s: Seq<Entry>) -> Seq<EntryV> {
    s.map_values(|e: Entry| e@)
}

impl View for Block {
    type V = BlockV;

    open spec fn view(&self) -> BlockV {
        BlockV { title: self.title@, shrots: entries_view(self.shrots@) }
    }
}

/// A block together with its declared share of the column height,
/// in thousandths of the window height (explicit mode only).
#[derive(Debug)]
pub struct SizedBlock {
    pub block: Block,
    pub rel_mille: u32,
}

/// The mathematical value of a [`SizedBlock`].
pub ghost struct SizedBlockV {
    pub block: BlockV,
    pub rel_mille: int,
}

impl View for SizedBlock {
    type V = SizedBlockV;

    open spec fn view(&self) -> SizedBlockV {
        SizedBlockV { block: self.block@, rel_mille: self.rel_mille as int }
    }
}

/// The values of a sequence of blocks.
pub open spec fn blocks_view(s: Seq<Block>) -> Seq<BlockV> {
    s.map_values(|b: Block| b@)
}

/// The values of one explicit column.
pub open spec fn sized_view(s: Seq<SizedBlock>) -> Seq<SizedBlockV> {
    s.map_values(|b: SizedBlock| b@)
}

/// The values of a sequence of explicit columns.
pub open spec fn columns_view(s: Seq<Vec<SizedBlock>>) -> Seq<Seq<SizedBlockV>> {
    s.map_values(|v: Vec<SizedBlock>| sized_view(v@))
}

/// What content the grid is built from, and how.
///
/// In explicit mode the author declares the columns and each block's share
/// of the height. In implicit mode a flat ordered list of blocks is dealt
/// into `columns` (from [`General`]) columns, row count by ceiling division.
#[derive(Debug)]
pub enum LayoutModel {
    Explicit { columns: Vec<Vec<SizedBlock>> },
    Implicit { blocks: Vec<Block> },
}

/// The mathematical value of a [`LayoutModel`].
pub ghost enum LayoutModelV {
    Explicit { columns: Seq<Seq<SizedBlockV>> },
    Implicit { blocks: Seq<BlockV> },
}

impl View for LayoutModel {
    type V = LayoutModelV;

    open spec fn view(&self) -> LayoutModelV {
        match self {
            LayoutModel::Explicit { columns } => LayoutModelV::Explicit {
                columns: columns_view(columns@),
            },
            LayoutModel::Implicit { blocks } => LayoutModelV::Implicit {
                blocks: blocks_view(blocks@),
            },
        }
    }
}

/// General window options. All lengths are pixels; `opacity_mille` is the
/// window opacity in thousandths (0 through 1000). `columns` is read in
/// implicit mode only.
#[derive(Debug, Clone, Copy, PartialEq, Eq, Structural)]
pub struct General {
    /// Window width
    pub width: i32,
    /// Window height
    pub height: i32,
    /// Window opacity, in thousandths
    pub opacity_mille: i32,
    /// The column amount (implicit mode)
    pub columns: i32,
    /// The border in pixels
    pub border: i32,
}

/// The whole configuration: window options, palette and content.
#[derive(Debug)]
pub struct Config {
    pub general: General,
    pub colors: crate::color::Colors,
    pub model: LayoutModel,
}

} // verus!
