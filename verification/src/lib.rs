//! A layout and pagination engine for word-processing documents.
//!
//! A document is a list of paragraphs and tables with page geometry, headers
//! and footers. The engine resolves the fonts the document asks for, breaks
//! its text into lines, fits the columns of its tables, places its blocks on
//! pages and lays headers and footers over them. What comes out is, for every
//! page, a list of drawing instructions.
//!
//! All lengths are integers in thousandths of a point, and all ratios are
//! integers in thousandths; nothing is computed in floating point. What the
//! font parser and two functions of the standard library return is taken on
//! trust, as `face` and `text` state it; everything else is verified against
//! its contract.
//!
//! The modules, from the ground up:
//!
//! - `units`, `number`, `text`, `winansi`: arithmetic, numbers as text,
//!   words and whitespace, and the character set of the output.
//! - `model`, `content`: the document, when it is well formed, and what it
//!   holds as mathematical values.
//! - `fonts`, `face`, `registry`, `requests`: the table of registered fonts
//!   and text measurement; what a font file states; how a family and style
//!   resolve to metrics; and which fonts a document asks for.
//! - `flow`, `tabs`: line breaking, and lines with tab stops.
//! - `metrics`: line heights and baselines.
//! - `draw`: drawing instructions, and the drawing of lines.
//! - `columns`, `table`: column fitting and table layout.
//! - `page`, `pagination`, `header_footer`, `render`: the cursor and the
//!   pages, the placing of blocks, headers and footers, and the whole.
//! - `xml`, `docx`, `styles`, `numbering`, `package`: from the parts of a
//!   word-processing package to the document.
//! - `error`: what can go wrong.
//! - `inspect`: helpers of the tools around the converter.

pub mod units;
pub mod number;
pub mod text;
pub mod winansi;
pub mod error;
pub mod model;
pub mod content;
pub mod fonts;
pub mod face;
pub mod registry;
pub mod requests;
pub mod flow;
pub mod tabs;
pub mod metrics;
pub mod draw;
pub mod columns;
pub mod table;
pub mod page;
pub mod pagination;
pub mod header_footer;
pub mod render;
pub mod xml;
pub mod docx;
pub mod styles;
pub mod numbering;
pub mod package;
pub mod inspect;
