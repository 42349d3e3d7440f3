//! The pages under construction and the vertical cursor.

use crate::draw::{ops_view, DrawOp, DrawOpView};
use crate::model::Document;
use vstd::prelude::*;

verus! {

/// Lowest position of the cursor: a block that does not fit on an empty page
/// is placed all the same and may reach this far down.
pub const MIN_SLOT: i64 = -500_000_000_000_000_000;

/// How near the top of the text area the cursor has to be for the page to
/// count as empty: within a point.
pub const TOP_TOLERANCE: i64 = 1000;

/// The finished pages, the page being filled, and the cursor.
#[derive(Debug)]
pub struct PageBuilder {
    pub pages: Vec<Vec<DrawOp>>,
    pub content: Vec<DrawOp>,
    /// The top of the free space on the page being filled.
    pub slot_top: i64,
    /// The space after the block placed last.
    pub prev_space_after: i64,
    /// The number of images met so far.
    pub images: usize,
}

pub struct Layout {
    pub pages: Seq<Seq<DrawOpView>>,
    pub content: Seq<DrawOpView>,
    pub slot_top: int,
    pub prev_space_after: int,
    pub images: int,
}

pub open spec fn pages_view(pages: Seq<Vec<DrawOp>>) -> Seq<Seq<DrawOpView>> {
    Seq::new(pages.len(), |i: int| ops_view(pages[i]@))
}

impl View for PageBuilder {
    type V = Layout;

    open spec fn view(&self) -> Layout {
        Layout {
            pages: pages_view(self.pages@),
            content: ops_view(self.content@),
            slot_top: self.slot_top as int,
            prev_space_after: self.prev_space_after as int,
            images: self.images as int,
        }
    }
}

/// The top of the text area.
pub open spec fn page_top(doc: Document) -> int {
    doc.page_height - doc.margin_top
}

/// Whether the cursor is at the top of the text area, give or take a point.
pub open spec fn at_top(slot_top: int, top: int) -> bool {
    -TOP_TOLERANCE < slot_top - top < TOP_TOLERANCE
}

pub fn is_at_top(slot_top: i64, top: i64) -> (b: bool)
    requires
        -4_000_000_000_000_000_000 <= slot_top <= 4_000_000_000_000_000_000,
        -4_000_000_000_000_000_000 <= top <= 4_000_000_000_000_000_000,
    ensures
        b == at_top(slot_top as int, top as int),
{
    let d = slot_top - top;
    -TOP_TOLERANCE < d && d < TOP_TOLERANCE
}

/// The state after the page being filled is finished and an empty one begun.
pub open spec fn turned(st: Layout, top: int) -> Layout {
    Layout { pages: st.pages.push(st.content), content: Seq::empty(), slot_top: top, ..st }
}

impl PageBuilder {
    pub fn new(top: i64) -> (b: PageBuilder)
        ensures
            b@ == (Layout {
                pages: Seq::empty(),
                content: Seq::empty(),
                slot_top: top as int,
                prev_space_after: 0,
                images: 0,
            }),
    {
        let b = PageBuilder {
            pages: Vec::new(),
            content: Vec::new(),
            slot_top: top,
            prev_space_after: 0,
            images: 0,
        };
        assert(b@.pages =~= Seq::empty());
        assert(b@.content =~= Seq::empty());
        b
    }

    /// Finishes the page being filled and begins an empty one.
    pub fn new_page(&mut self, top: i64)
        ensures
            final(self)@ == turned(old(self)@, top as int),
    {
        let ghost before = self@;
        let mut done: Vec<DrawOp> = Vec::new();
        std::mem::swap(&mut self.content, &mut done);
        self.pages.push(done);
        self.slot_top = top;
        proof {
            assert(self@.pages =~= before.pages.push(before.content));
            assert(self@.content =~= Seq::empty());
        }
    }
}

} // verus!
