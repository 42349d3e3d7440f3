//! The content of a document as mathematical values: for every type of the
//! model that holds text or lists, a view that holds sequences in their
//! place.

use crate::model::{
    Alignment, Block, BorderBottom, EmbeddedFont, EmbeddedImage, FieldCode, Paragraph, Run,
    TabStop, Table, TableCell, TableRow, VertAlign,
};
use vstd::prelude::*;

verus! {

pub struct RunView {
    pub text: Seq<char>,
    pub font_size: i64,
    pub font_name: Seq<char>,
    pub bold: bool,
    pub italic: bool,
    pub underline: bool,
    pub strikethrough: bool,
    pub color: Option<[u8; 3]>,
    pub is_tab: bool,
    pub vertical_align: VertAlign,
    pub field_code: Option<FieldCode>,
}

impl View for Run {
    type V = RunView;

    open spec fn view(&self) -> RunView {
        RunView {
            text: self.text@,
            font_size: self.font_size,
            font_name: self.font_name@,
            bold: self.bold,
            italic: self.italic,
            underline: self.underline,
            strikethrough: self.strikethrough,
            color: self.color,
            is_tab: self.is_tab,
            vertical_align: self.vertical_align,
            field_code: self.field_code,
        }
    }
}

pub open spec fn runs_view(runs: Seq<Run>) -> Seq<RunView> {
    Seq::new(runs.len(), |i: int| runs[i]@)
}

pub struct ImageView {
    pub data: Seq<u8>,
    pub pixel_width: u32,
    pub pixel_height: u32,
    pub display_width: i64,
    pub display_height: i64,
}

impl View for EmbeddedImage {
    type V = ImageView;

    open spec fn view(&self) -> ImageView {
        ImageView {
            data: self.data@,
            pixel_width: self.pixel_width,
            pixel_height: self.pixel_height,
            display_width: self.display_width,
            display_height: self.display_height,
        }
    }
}

pub open spec fn image_view(image: Option<EmbeddedImage>) -> Option<ImageView> {
    match image {
        Some(i) => Some(i@),
        None => None,
    }
}

pub struct ParagraphView {
    pub runs: Seq<RunView>,
    pub space_before: i64,
    pub space_after: i64,
    pub content_height: i64,
    pub alignment: Alignment,
    pub indent_left: i64,
    pub indent_hanging: i64,
    pub list_label: Seq<char>,
    pub contextual_spacing: bool,
    pub keep_next: bool,
    pub line_spacing: Option<i64>,
    pub image: Option<ImageView>,
    pub border_bottom: Option<BorderBottom>,
    pub page_break_before: bool,
    pub tab_stops: Seq<TabStop>,
}

impl View for Paragraph {
    type V = ParagraphView;

    open spec fn view(&self) -> ParagraphView {
        ParagraphView {
            runs: runs_view(self.runs@),
            space_before: self.space_before,
            space_after: self.space_after,
            content_height: self.content_height,
            alignment: self.alignment,
            indent_left: self.indent_left,
            indent_hanging: self.indent_hanging,
            list_label: self.list_label@,
            contextual_spacing: self.contextual_spacing,
            keep_next: self.keep_next,
            line_spacing: self.line_spacing,
            image: image_view(self.image),
            border_bottom: self.border_bottom,
            page_break_before: self.page_break_before,
            tab_stops: self.tab_stops@,
        }
    }
}

pub open spec fn paragraphs_view(paragraphs: Seq<Paragraph>) -> Seq<ParagraphView> {
    Seq::new(paragraphs.len(), |i: int| paragraphs[i]@)
}

pub struct CellView {
    pub width: i64,
    pub paragraphs: Seq<ParagraphView>,
}

impl View for TableCell {
    type V = CellView;

    open spec fn view(&self) -> CellView {
        CellView { width: self.width, paragraphs: paragraphs_view(self.paragraphs@) }
    }
}

pub open spec fn cells_view(cells: Seq<TableCell>) -> Seq<CellView> {
    Seq::new(cells.len(), |i: int| cells[i]@)
}

pub struct RowView {
    pub cells: Seq<CellView>,
}

impl View for TableRow {
    type V = RowView;

    open spec fn view(&self) -> RowView {
        RowView { cells: cells_view(self.cells@) }
    }
}

pub open spec fn rows_view(rows: Seq<TableRow>) -> Seq<RowView> {
    Seq::new(rows.len(), |i: int| rows[i]@)
}

pub struct TableView {
    pub col_widths: Seq<i64>,
    pub rows: Seq<RowView>,
}

impl View for Table {
    type V = TableView;

    open spec fn view(&self) -> TableView {
        TableView { col_widths: self.col_widths@, rows: rows_view(self.rows@) }
    }
}

pub enum BlockView {
    Paragraph(ParagraphView),
    Table(TableView),
}

impl View for Block {
    type V = BlockView;

    open spec fn view(&self) -> BlockView {
        match *self {
            Block::Paragraph(p) => BlockView::Paragraph(p@),
            Block::Table(t) => BlockView::Table(t@),
        }
    }
}

pub open spec fn blocks_view(blocks: Seq<Block>) -> Seq<BlockView> {
    Seq::new(blocks.len(), |i: int| blocks[i]@)
}

pub struct CarriedView {
    pub family: Seq<char>,
    pub bold: bool,
    pub italic: bool,
    pub data: Seq<u8>,
}

impl View for EmbeddedFont {
    type V = CarriedView;

    open spec fn view(&self) -> CarriedView {
        CarriedView {
            family: self.family@,
            bold: self.bold,
            italic: self.italic,
            data: self.data@,
        }
    }
}

pub open spec fn carried_view(fonts: Seq<EmbeddedFont>) -> Seq<CarriedView> {
    Seq::new(fonts.len(), |i: int| fonts[i]@)
}

} // verus!
