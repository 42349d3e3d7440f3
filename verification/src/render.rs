//! From a document to the drawing instructions of its pages.

use crate::draw::{ops_view, DrawOp, DrawOpView};
use crate::error::Error;
use crate::fonts::FontTable;
use crate::header_footer::{
    check_room, hf_ops, hf_resolved, hf_room, render_header_footer,
};
use crate::model::{Block, Document, HeaderFooter, Paragraph, Run, Table};
use crate::page::pages_view;
use crate::pagination::{blocks_covered, body_pages, place_blocks};
use crate::table::{paragraphs_covered, table_covered};
use vstd::prelude::*;
use vstd::string::StringExecFns;

verus! {

/// The header of page `i`, counted from zero: the one for the first page
/// where the document sets the first page apart, the default one else.
pub open spec fn header_of(doc: Document, i: int) -> Option<HeaderFooter> {
    if i == 0 && doc.different_first_page {
        doc.header_first
    } else {
        doc.header_default
    }
}

/// The footer of page `i`, counted from zero.
pub open spec fn footer_of(doc: Document, i: int) -> Option<HeaderFooter> {
    if i == 0 && doc.different_first_page {
        doc.footer_first
    } else {
        doc.footer_default
    }
}

pub open spec fn optional_room(hf: Option<HeaderFooter>) -> bool {
    hf matches Some(h) ==> hf_room(h)
}

pub open spec fn optional_covered(fonts: FontTable, hf: Option<HeaderFooter>) -> bool {
    hf matches Some(h) ==> paragraphs_covered(fonts, h.paragraphs@)
}

/// Every header and footer leaves room for the text of its fields.
pub open spec fn fields_have_room(doc: Document) -> bool {
    &&& optional_room(doc.header_default)
    &&& optional_room(doc.header_first)
    &&& optional_room(doc.footer_default)
    &&& optional_room(doc.footer_first)
}

/// Every run of the document has its font registered.
pub open spec fn document_covered(fonts: FontTable, doc: Document) -> bool {
    &&& blocks_covered(fonts, doc.blocks@)
    &&& optional_covered(fonts, doc.header_default)
    &&& optional_covered(fonts, doc.header_first)
    &&& optional_covered(fonts, doc.footer_default)
    &&& optional_covered(fonts, doc.footer_first)
}

/// Why a document is not rendered, if it is not: it holds no block; its page
/// has no positive size; a number in it is outside the range the engine
/// computes in; the font table is malformed; a run's font is not registered.
pub open spec fn refusal(doc: Document, fonts: FontTable) -> Option<Seq<char>> {
    if doc.blocks@.len() == 0 {
        Some("empty document"@)
    } else if !doc.has_page() {
        Some("page size is not positive"@)
    } else if !doc.in_bounds() || !fields_have_room(doc) {
        Some("document exceeds the layout limits"@)
    } else if !fonts.wf() {
        Some("font table is malformed"@)
    } else if !document_covered(fonts, doc) {
        Some("font not registered"@)
    } else {
        None
    }
}

/// The instructions laid over a page for a header or footer.
pub open spec fn overlay(
    doc: Document,
    fonts: FontTable,
    hf: Option<HeaderFooter>,
    resolved: Seq<Seq<Run>>,
    is_header: bool,
) -> Seq<DrawOpView> {
    match hf {
        Some(h) => hf_ops(doc, fonts, h, resolved, is_header, h.paragraphs@.len() as int),
        None => Seq::empty(),
    }
}

pub open spec fn optional_resolved(
    resolved: Seq<Seq<Run>>,
    hf: Option<HeaderFooter>,
    page: nat,
    total: nat,
) -> bool {
    hf matches Some(h) ==> hf_resolved(resolved, h, page, total)
}

/// Whether `page` is the body of page `i` of `n` with its header and then
/// its footer laid over it, where `header` and `footer` hold their runs with
/// the fields resolved.
pub open spec fn composed_with(
    page: Seq<DrawOpView>,
    body: Seq<DrawOpView>,
    doc: Document,
    fonts: FontTable,
    i: int,
    n: int,
    header: Seq<Seq<Run>>,
    footer: Seq<Seq<Run>>,
) -> bool {
    &&& optional_resolved(header, header_of(doc, i), (i + 1) as nat, n as nat)
    &&& optional_resolved(footer, footer_of(doc, i), (i + 1) as nat, n as nat)
    &&& page == body + overlay(doc, fonts, header_of(doc, i), header, true) + overlay(
        doc,
        fonts,
        footer_of(doc, i),
        footer,
        false,
    )
}

/// Whether `page` is the body of page `i` of `n` with its header and footer,
/// their fields showing `i + 1` and `n`.
pub open spec fn page_composed(
    page: Seq<DrawOpView>,
    body: Seq<DrawOpView>,
    doc: Document,
    fonts: FontTable,
    i: int,
    n: int,
) -> bool {
    exists|header: Seq<Seq<Run>>, footer: Seq<Seq<Run>>| #[trigger]
        composed_with(page, body, doc, fonts, i, n, header, footer)
}

/// Whether `pages` are the pages of a document: the pages of its body, each
/// with its header and footer.
pub open spec fn rendered(pages: Seq<Seq<DrawOpView>>, doc: Document, fonts: FontTable) -> bool {
    let body = body_pages(doc, fonts);
    &&& pages.len() == body.len()
    &&& forall|i: int|
        0 <= i < body.len() ==> page_composed(
            #[trigger] pages[i],
            body[i],
            doc,
            fonts,
            i,
            body.len() as int,
        )
}

fn check_paragraphs_covered(fonts: &FontTable, paragraphs: &Vec<Paragraph>) -> (b: bool)
    requires
        fonts.wf(),
    ensures
        b == paragraphs_covered(*fonts, paragraphs@),
{
    let mut p: usize = 0;
    while p < paragraphs.len()
        invariant
            p <= paragraphs@.len(),
            fonts.wf(),
            forall|k: int| 0 <= k < p ==> fonts.covers_all((#[trigger] paragraphs@[k]).runs@),
        decreases paragraphs.len() - p,
    {
        if !fonts.check_cover(&paragraphs[p].runs) {
            return false;
        }
        p += 1;
    }
    true
}

fn check_table_covered(fonts: &FontTable, table: &Table) -> (b: bool)
    requires
        fonts.wf(),
    ensures
        b == table_covered(*fonts, *table),
{
    let mut r: usize = 0;
    while r < table.rows.len()
        invariant
            r <= table.rows@.len(),
            fonts.wf(),
            forall|k: int, c: int|
                0 <= k < r && 0 <= c < table.rows@[k].cells@.len() ==> paragraphs_covered(
                    *fonts,
                    (#[trigger] table.rows@[k].cells@[c]).paragraphs@,
                ),
        decreases table.rows.len() - r,
    {
        let row = &table.rows[r];
        let mut c: usize = 0;
        while c < row.cells.len()
            invariant
                c <= row.cells@.len(),
                r < table.rows@.len(),
                row == table.rows@[r as int],
                fonts.wf(),
                forall|j: int|
                    0 <= j < c ==> paragraphs_covered(
                        *fonts,
                        (#[trigger] table.rows@[r as int].cells@[j]).paragraphs@,
                    ),
            decreases row.cells.len() - c,
        {
            if !check_paragraphs_covered(fonts, &row.cells[c].paragraphs) {
                return false;
            }
            c += 1;
        }
        r += 1;
    }
    true
}

fn check_blocks_covered(fonts: &FontTable, blocks: &Vec<Block>) -> (b: bool)
    requires
        fonts.wf(),
    ensures
        b == blocks_covered(*fonts, blocks@),
{
    let mut i: usize = 0;
    while i < blocks.len()
        invariant
            i <= blocks@.len(),
            fonts.wf(),
            forall|k: int|
                0 <= k < i ==> match #[trigger] blocks@[k] {
                    Block::Paragraph(p) => fonts.covers_all(p.runs@),
                    Block::Table(t) => table_covered(*fonts, t),
                },
        decreases blocks.len() - i,
    {
        let ok = match &blocks[i] {
            Block::Paragraph(p) => fonts.check_cover(&p.runs),
            Block::Table(t) => check_table_covered(fonts, t),
        };
        if !ok {
            return false;
        }
        i += 1;
    }
    true
}

fn check_optional_covered(fonts: &FontTable, hf: &Option<HeaderFooter>) -> (b: bool)
    requires
        fonts.wf(),
    ensures
        b == optional_covered(*fonts, *hf),
{
    match hf {
        Some(h) => check_paragraphs_covered(fonts, &h.paragraphs),
        None => true,
    }
}

fn check_optional_room(hf: &Option<HeaderFooter>) -> (b: bool)
    requires
        crate::model::header_footer_wf(*hf),
    ensures
        b == optional_room(*hf),
{
    match hf {
        Some(h) => check_room(h),
        None => true,
    }
}

/// Finds why a document is not rendered, if it is not.
pub fn check_document(doc: &Document, fonts: &FontTable) -> (r: Option<Error>)
    ensures
        match r {
            Some(e) => e matches Error::Pdf(reason) && refusal(*doc, *fonts) == Some(reason@),
            None => refusal(*doc, *fonts) is None,
        },
{
    if doc.blocks.len() == 0 {
        return Some(Error::Pdf(String::from_str("empty document")));
    }
    if !(doc.page_width > 0 && doc.page_height > 0) {
        return Some(Error::Pdf(String::from_str("page size is not positive")));
    }
    if !doc.check_bounds() {
        return Some(Error::Pdf(String::from_str("document exceeds the layout limits")));
    }
    if !(check_optional_room(&doc.header_default) && check_optional_room(&doc.header_first)
        && check_optional_room(&doc.footer_default) && check_optional_room(&doc.footer_first)) {
        return Some(Error::Pdf(String::from_str("document exceeds the layout limits")));
    }
    if !fonts.check() {
        return Some(Error::Pdf(String::from_str("font table is malformed")));
    }
    if !(check_blocks_covered(fonts, &doc.blocks) && check_optional_covered(
        fonts,
        &doc.header_default,
    ) && check_optional_covered(fonts, &doc.header_first) && check_optional_covered(
        fonts,
        &doc.footer_default,
    ) && check_optional_covered(fonts, &doc.footer_first)) {
        return Some(Error::Pdf(String::from_str("font not registered")));
    }
    None
}

/// Lays the header and the footer of page `i` of `n` over the page.
fn compose_page(content: &mut Vec<DrawOp>, doc: &Document, fonts: &FontTable, i: usize, n: usize)
    requires
        refusal(*doc, *fonts) is None,
        i < n,
    ensures
        page_composed(
            ops_view(final(content)@),
            ops_view(old(content)@),
            *doc,
            *fonts,
            i as int,
            n as int,
        ),
{
    let ghost body = ops_view(content@);
    let ghost mut header: Seq<Seq<Run>> = Seq::empty();
    let ghost mut footer: Seq<Seq<Run>> = Seq::empty();
    let first = i == 0 && doc.different_first_page;
    let top = if first {
        &doc.header_first
    } else {
        &doc.header_default
    };
    match top {
        Some(h) => {
            render_header_footer(content, h, fonts, doc, true, i + 1, n);
            proof {
                header = choose|resolved: Seq<Seq<Run>>|
                    hf_resolved(resolved, *h, (i + 1) as nat, n as nat) && ops_view(content@)
                        == body + #[trigger] hf_ops(
                        *doc,
                        *fonts,
                        *h,
                        resolved,
                        true,
                        h.paragraphs@.len() as int,
                    );
            }
        },
        None => {
        },
    }
    let ghost with_header = ops_view(content@);
    let bottom = if first {
        &doc.footer_first
    } else {
        &doc.footer_default
    };
    match bottom {
        Some(f) => {
            render_header_footer(content, f, fonts, doc, false, i + 1, n);
            proof {
                footer = choose|resolved: Seq<Seq<Run>>|
                    hf_resolved(resolved, *f, (i + 1) as nat, n as nat) && ops_view(content@)
                        == with_header + #[trigger] hf_ops(
                        *doc,
                        *fonts,
                        *f,
                        resolved,
                        false,
                        f.paragraphs@.len() as int,
                    );
            }
        },
        None => {
        },
    }
    proof {
        assert(composed_with(
            ops_view(content@),
            body,
            *doc,
            *fonts,
            i as int,
            n as int,
            header,
            footer,
        ));
    }
}

/// Renders a document: lays out its blocks page by page, and lays the
/// headers and footers over the pages once their number is known.
///
/// Fonts are not resolved here: `seen_fonts` has to hold an entry for the
/// font of every run. A document that cannot be rendered is refused before
/// anything is laid out.
pub fn render(doc: &Document, seen_fonts: &FontTable) -> (r: Result<Vec<Vec<DrawOp>>, Error>)
    ensures
        match r {
            Ok(pages) => refusal(*doc, *seen_fonts) is None && rendered(
                pages_view(pages@),
                *doc,
                *seen_fonts,
            ) && pages@.len() >= 1,
            Err(e) => e matches Error::Pdf(reason) && refusal(*doc, *seen_fonts) == Some(reason@),
        },
{
    match check_document(doc, seen_fonts) {
        Some(e) => {
            return Err(e);
        },
        None => {},
    }
    let builder = place_blocks(doc, seen_fonts);
    let ghost body = body_pages(*doc, *seen_fonts);
    let mut pages = builder.pages;
    pages.push(builder.content);
    let n = pages.len();
    let mut i: usize = 0;
    while i < n
        invariant
            i <= n,
            n == pages@.len(),
            n == body.len(),
            body == body_pages(*doc, *seen_fonts),
            refusal(*doc, *seen_fonts) is None,
            forall|k: int| i <= k < n ==> #[trigger] pages_view(pages@)[k] == body[k],
            forall|k: int|
                0 <= k < i ==> page_composed(
                    #[trigger] pages_view(pages@)[k],
                    body[k],
                    *doc,
                    *seen_fonts,
                    k,
                    n as int,
                ),
        decreases n - i,
    {
        let ghost before = pages_view(pages@);
        assert(before[i as int] == body[i as int]);
        compose_page(&mut pages[i], doc, seen_fonts, i, n);
        proof {
            let after = pages_view(pages@);
            assert forall|k: int| i < k < n implies #[trigger] after[k] == body[k] by {
                assert(before[k] == body[k]);
            }
            assert forall|k: int| 0 <= k < i + 1 implies page_composed(
                #[trigger] after[k],
                body[k],
                *doc,
                *seen_fonts,
                k,
                n as int,
            ) by {
                if k < i {
                    assert(after[k] == before[k]);
                }
            }
        }
        i += 1;
    }
    Ok(pages)
}

/// A document has one rendering: two lists of pages that are both the pages
/// of a document are the same.
pub proof fn lemma_rendered_unique(
    a: Seq<Seq<DrawOpView>>,
    b: Seq<Seq<DrawOpView>>,
    doc: Document,
    fonts: FontTable,
)
    requires
        rendered(a, doc, fonts),
        rendered(b, doc, fonts),
    ensures
        a == b,
{
    let body = body_pages(doc, fonts);
    let n = body.len() as int;
    assert forall|i: int| 0 <= i < n implies a[i] == b[i] by {
        let (ha, fa) = choose|h: Seq<Seq<Run>>, f: Seq<Seq<Run>>| #[trigger]
            composed_with(a[i], body[i], doc, fonts, i, n, h, f);
        let (hb, fb) = choose|h: Seq<Seq<Run>>, f: Seq<Seq<Run>>| #[trigger]
            composed_with(b[i], body[i], doc, fonts, i, n, h, f);
        match header_of(doc, i) {
            Some(h) => {
                crate::header_footer::lemma_hf_ops_unique(
                    doc,
                    fonts,
                    h,
                    ha,
                    hb,
                    true,
                    (i + 1) as nat,
                    n as nat,
                    h.paragraphs@.len() as int,
                );
            },
            None => {},
        }
        match footer_of(doc, i) {
            Some(f) => {
                crate::header_footer::lemma_hf_ops_unique(
                    doc,
                    fonts,
                    f,
                    fa,
                    fb,
                    false,
                    (i + 1) as nat,
                    n as nat,
                    f.paragraphs@.len() as int,
                );
            },
            None => {},
        }
    }
}

proof fn lemma_key_found(keys: Seq<String>, key: Seq<char>, from: int, at: int)
    requires
        0 <= from <= at < keys.len(),
        keys[at]@ == key,
    ensures
        crate::fonts::key_index(keys, key, from) is Some,
    decreases at - from,
{
    if keys[from]@ != key {
        lemma_key_found(keys, key, from + 1, at);
    }
}

proof fn lemma_asked_found(
    keys: Seq<String>,
    requests: Seq<crate::requests::RequestView>,
    key: Seq<char>,
    n: int,
)
    requires
        keys.len() == requests.len(),
        forall|i: int| 0 <= i < keys.len() ==> (#[trigger] keys[i])@ == requests[i].key,
        0 <= n <= requests.len(),
        crate::requests::asked(requests, key, n),
    ensures
        crate::fonts::key_index(keys, key, 0) is Some,
    decreases n,
{
    if n > 0 {
        if requests[n - 1].key == key {
            lemma_key_found(keys, key, 0, n - 1);
        } else {
            lemma_asked_found(keys, requests, key, n - 1);
        }
    }
}

/// A font table that holds an entry under the key of every font that a
/// document asks for, in the order of asking, has an entry for the font of
/// every run of the document.
pub proof fn lemma_requests_cover(fonts: FontTable, doc: Document)
    requires
        fonts.keys@.len() == crate::requests::requested(doc).len(),
        forall|i: int|
            0 <= i < fonts.keys@.len() ==> (#[trigger] fonts.keys@[i])@
                == crate::requests::requested(doc)[i].key,
    ensures
        document_covered(fonts, doc),
{
    let requests = crate::requests::requested(doc);
    crate::requests::lemma_requested_covers(doc);
    let n = requests.len() as int;
    assert forall|run: Run| crate::requests::asked(requests, crate::requests::key_of(run), n)
        implies #[trigger] fonts.entry_of(run) is Some by {
        lemma_asked_found(fonts.keys@, requests, crate::requests::key_of(run), n);
    }
    assert forall|i: int| 0 <= i < doc.blocks@.len() implies match #[trigger] doc.blocks@[i] {
        Block::Paragraph(p) => fonts.covers_all(p.runs@),
        Block::Table(t) => table_covered(fonts, t),
    } by {
        match doc.blocks@[i] {
            Block::Paragraph(p) => {},
            Block::Table(t) => {
            },
        }
    }
}

} // verus!
