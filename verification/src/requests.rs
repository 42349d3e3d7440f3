//! Which fonts a document asks for.
//!
//! Every family and style that a run of the document is set in is asked for
//! once, in the order in which the runs come: the blocks first, then the
//! default header, the header of the first page, the default footer and the
//! footer of the first page. A document without runs asks for Helvetica.

use crate::fonts::{font_key, font_key_of, primary_font_name, primary_name};
use crate::model::{Block, Document, HeaderFooter, Paragraph, Run, Table, TableCell, TableRow};
use crate::number::{numbered, numbered_name};
use vstd::prelude::*;
use vstd::string::StringExecFns;

verus! {

/// A font that the document asks for.
#[derive(Debug)]
pub struct FontRequest {
    /// The key under which the font is registered.
    pub key: String,
    /// The family to look for.
    pub family: String,
    pub bold: bool,
    pub italic: bool,
    /// The name of the font resource: `F` and the request's number.
    pub pdf_name: String,
}

pub struct RequestView {
    pub key: Seq<char>,
    pub family: Seq<char>,
    pub bold: bool,
    pub italic: bool,
    pub pdf_name: Seq<char>,
}

impl View for FontRequest {
    type V = RequestView;

    open spec fn view(&self) -> RequestView {
        RequestView {
            key: self.key@,
            family: self.family@,
            bold: self.bold,
            italic: self.italic,
            pdf_name: self.pdf_name@,
        }
    }
}

pub open spec fn requests_view(requests: Seq<FontRequest>) -> Seq<RequestView> {
    Seq::new(requests.len(), |i: int| requests[i]@)
}

/// Whether one of the first `n` requests has the key.
pub open spec fn asked(requests: Seq<RequestView>, key: Seq<char>, n: int) -> bool
    decreases n,
{
    if n <= 0 {
        false
    } else {
        requests[n - 1].key == key || asked(requests, key, n - 1)
    }
}

/// The name of the `n`-th font resource.
pub open spec fn font_resource_name(n: nat) -> Seq<char> {
    numbered_name(seq!['F'], n)
}

/// The requests after a run is noted: a request more if the run's key was
/// not asked for.
pub open spec fn note_run(requests: Seq<RequestView>, run: Run) -> Seq<RequestView> {
    let key = font_key_of(run.font_name@, run.bold, run.italic);
    if asked(requests, key, requests.len() as int) {
        requests
    } else {
        requests.push(
            RequestView {
                key,
                family: primary_name(run.font_name@),
                bold: run.bold,
                italic: run.italic,
                pdf_name: font_resource_name(requests.len() + 1),
            },
        )
    }
}

pub open spec fn note_runs(requests: Seq<RequestView>, runs: Seq<Run>, n: int) -> Seq<RequestView>
    decreases n,
{
    if n <= 0 {
        requests
    } else {
        note_run(note_runs(requests, runs, n - 1), runs[n - 1])
    }
}

pub open spec fn note_paragraphs(requests: Seq<RequestView>, paragraphs: Seq<Paragraph>, n: int) -> Seq<
    RequestView,
>
    decreases n,
{
    if n <= 0 {
        requests
    } else {
        note_runs(
            note_paragraphs(requests, paragraphs, n - 1),
            paragraphs[n - 1].runs@,
            paragraphs[n - 1].runs@.len() as int,
        )
    }
}

pub open spec fn note_cells(requests: Seq<RequestView>, cells: Seq<TableCell>, n: int) -> Seq<
    RequestView,
>
    decreases n,
{
    if n <= 0 {
        requests
    } else {
        note_paragraphs(
            note_cells(requests, cells, n - 1),
            cells[n - 1].paragraphs@,
            cells[n - 1].paragraphs@.len() as int,
        )
    }
}

pub open spec fn note_rows(requests: Seq<RequestView>, rows: Seq<TableRow>, n: int) -> Seq<
    RequestView,
>
    decreases n,
{
    if n <= 0 {
        requests
    } else {
        note_cells(
            note_rows(requests, rows, n - 1),
            rows[n - 1].cells@,
            rows[n - 1].cells@.len() as int,
        )
    }
}

pub open spec fn note_block(requests: Seq<RequestView>, block: Block) -> Seq<RequestView> {
    match block {
        Block::Paragraph(p) => note_runs(requests, p.runs@, p.runs@.len() as int),
        Block::Table(t) => note_rows(requests, t.rows@, t.rows@.len() as int),
    }
}

pub open spec fn note_blocks(requests: Seq<RequestView>, blocks: Seq<Block>, n: int) -> Seq<
    RequestView,
>
    decreases n,
{
    if n <= 0 {
        requests
    } else {
        note_block(note_blocks(requests, blocks, n - 1), blocks[n - 1])
    }
}

pub open spec fn note_header_footer(requests: Seq<RequestView>, hf: Option<HeaderFooter>) -> Seq<
    RequestView,
> {
    match hf {
        Some(h) => note_paragraphs(requests, h.paragraphs@, h.paragraphs@.len() as int),
        None => requests,
    }
}

/// The request of a document without runs.
pub open spec fn fallback_request() -> RequestView {
    RequestView {
        key: "Helvetica"@,
        family: "Helvetica"@,
        bold: false,
        italic: false,
        pdf_name: font_resource_name(1),
    }
}

/// The fonts that a document asks for.
pub open spec fn requested(doc: Document) -> Seq<RequestView> {
    let body = note_blocks(Seq::empty(), doc.blocks@, doc.blocks@.len() as int);
    let all = note_header_footer(
        note_header_footer(
            note_header_footer(note_header_footer(body, doc.header_default), doc.header_first),
            doc.footer_default,
        ),
        doc.footer_first,
    );
    if all.len() == 0 {
        seq![fallback_request()]
    } else {
        all
    }
}

fn is_asked(requests: &Vec<FontRequest>, key: &String) -> (b: bool)
    ensures
        b == asked(requests_view(requests@), key@, requests@.len() as int),
{
    let mut i: usize = 0;
    while i < requests.len()
        invariant
            i <= requests@.len(),
            !asked(requests_view(requests@), key@, i as int),
        decreases requests.len() - i,
    {
        if requests[i].key == *key {
            proof {
                lemma_asked_later(requests_view(requests@), key@, i as int + 1, requests@.len() as int);
            }
            return true;
        }
        i += 1;
    }
    false
}

pub proof fn lemma_asked_later(requests: Seq<RequestView>, key: Seq<char>, n: int, m: int)
    requires
        0 <= n <= m,
        asked(requests, key, n),
    ensures
        asked(requests, key, m),
    decreases m - n,
{
    if n < m {
        lemma_asked_later(requests, key, n, m - 1);
    }
}

proof fn lemma_asked_prefix(a: Seq<RequestView>, b: Seq<RequestView>, key: Seq<char>, n: int)
    requires
        0 <= n <= a.len(),
        n <= b.len(),
        forall|i: int| 0 <= i < n ==> a[i] == b[i],
    ensures
        asked(a, key, n) == asked(b, key, n),
    decreases n,
{
    if n > 0 {
        lemma_asked_prefix(a, b, key, n - 1);
    }
}

fn note(requests: &mut Vec<FontRequest>, run: &Run)
    ensures
        requests_view(final(requests)@) == note_run(requests_view(old(requests)@), *run),
{
    let key = font_key(run);
    if !is_asked(requests, &key) {
        proof {
            reveal_strlit("F");
            assert("F"@ =~= seq!['F']);
        }
        let request = FontRequest {
            key,
            family: String::from_str(primary_font_name(run.font_name.as_str())),
            bold: run.bold,
            italic: run.italic,
            pdf_name: numbered("F", requests.len() as u128 + 1),
        };
        requests.push(request);
    }
}

fn note_all(requests: &mut Vec<FontRequest>, runs: &Vec<Run>)
    ensures
        requests_view(final(requests)@) == note_runs(
            requests_view(old(requests)@),
            runs@,
            runs@.len() as int,
        ),
{
    let mut i: usize = 0;
    while i < runs.len()
        invariant
            i <= runs@.len(),
            requests_view(requests@) == note_runs(requests_view(old(requests)@), runs@, i as int),
        decreases runs.len() - i,
    {
        note(requests, &runs[i]);
        i += 1;
    }
}

fn note_paragraph_list(requests: &mut Vec<FontRequest>, paragraphs: &Vec<Paragraph>)
    ensures
        requests_view(final(requests)@) == note_paragraphs(
            requests_view(old(requests)@),
            paragraphs@,
            paragraphs@.len() as int,
        ),
{
    let mut p: usize = 0;
    while p < paragraphs.len()
        invariant
            p <= paragraphs@.len(),
            requests_view(requests@) == note_paragraphs(
                requests_view(old(requests)@),
                paragraphs@,
                p as int,
            ),
        decreases paragraphs.len() - p,
    {
        note_all(requests, &paragraphs[p].runs);
        p += 1;
    }
}

fn note_table(requests: &mut Vec<FontRequest>, table: &Table)
    ensures
        requests_view(final(requests)@) == note_rows(
            requests_view(old(requests)@),
            table.rows@,
            table.rows@.len() as int,
        ),
{
    let mut r: usize = 0;
    while r < table.rows.len()
        invariant
            r <= table.rows@.len(),
            requests_view(requests@) == note_rows(
                requests_view(old(requests)@),
                table.rows@,
                r as int,
            ),
        decreases table.rows.len() - r,
    {
        let row = &table.rows[r];
        let ghost row_start = requests_view(requests@);
        let mut c: usize = 0;
        while c < row.cells.len()
            invariant
                c <= row.cells@.len(),
                requests_view(requests@) == note_cells(row_start, row.cells@, c as int),
            decreases row.cells.len() - c,
        {
            note_paragraph_list(requests, &row.cells[c].paragraphs);
            c += 1;
        }
        r += 1;
    }
}

fn note_optional(requests: &mut Vec<FontRequest>, hf: &Option<HeaderFooter>)
    ensures
        requests_view(final(requests)@) == note_header_footer(requests_view(old(requests)@), *hf),
{
    match hf {
        Some(h) => note_paragraph_list(requests, &h.paragraphs),
        None => {},
    }
}

/// Collects the fonts that a document asks for.
pub fn collect_fonts(doc: &Document) -> (requests: Vec<FontRequest>)
    ensures
        requests_view(requests@) == requested(*doc),
{
    let mut requests: Vec<FontRequest> = Vec::new();
    let mut i: usize = 0;
    while i < doc.blocks.len()
        invariant
            i <= doc.blocks@.len(),
            requests_view(requests@) == note_blocks(Seq::empty(), doc.blocks@, i as int),
        decreases doc.blocks.len() - i,
    {
        match &doc.blocks[i] {
            Block::Paragraph(p) => {
                note_all(&mut requests, &p.runs);
            },
            Block::Table(t) => {
                note_table(&mut requests, t);
            },
        }
        i += 1;
    }
    note_optional(&mut requests, &doc.header_default);
    note_optional(&mut requests, &doc.header_first);
    note_optional(&mut requests, &doc.footer_default);
    note_optional(&mut requests, &doc.footer_first);
    if requests.len() == 0 {
        proof {
            reveal_strlit("F");
            assert("F"@ =~= seq!['F']);
        }
        let request = FontRequest {
            key: String::from_str("Helvetica"),
            family: String::from_str("Helvetica"),
            bold: false,
            italic: false,
            pdf_name: numbered("F", 1),
        };
        requests.push(request);
    }
    requests
}

/// Whether every key that is asked for in `a` is asked for in `b`.
pub open spec fn extends(a: Seq<RequestView>, b: Seq<RequestView>) -> bool {
    forall|key: Seq<char>|
        asked(a, key, a.len() as int) ==> #[trigger] asked(b, key, b.len() as int)
}

pub open spec fn key_of(run: Run) -> Seq<char> {
    font_key_of(run.font_name@, run.bold, run.italic)
}

/// Whether the font of every run is asked for.
pub open spec fn runs_asked(requests: Seq<RequestView>, runs: Seq<Run>) -> bool {
    forall|i: int|
        0 <= i < runs.len() ==> asked(requests, key_of(#[trigger] runs[i]), requests.len() as int)
}

pub open spec fn paragraphs_asked(requests: Seq<RequestView>, paragraphs: Seq<Paragraph>) -> bool {
    forall|p: int|
        0 <= p < paragraphs.len() ==> runs_asked(requests, (#[trigger] paragraphs[p]).runs@)
}

pub open spec fn table_asked(requests: Seq<RequestView>, table: Table) -> bool {
    forall|r: int, c: int|
        0 <= r < table.rows@.len() && 0 <= c < table.rows@[r].cells@.len() ==> paragraphs_asked(
            requests,
            (#[trigger] table.rows@[r].cells@[c]).paragraphs@,
        )
}

pub open spec fn block_asked(requests: Seq<RequestView>, block: Block) -> bool {
    match block {
        Block::Paragraph(p) => runs_asked(requests, p.runs@),
        Block::Table(t) => table_asked(requests, t),
    }
}

pub open spec fn optional_asked(requests: Seq<RequestView>, hf: Option<HeaderFooter>) -> bool {
    hf matches Some(h) ==> paragraphs_asked(requests, h.paragraphs@)
}

/// Whether the font of every run of a document is asked for.
pub open spec fn document_asked(requests: Seq<RequestView>, doc: Document) -> bool {
    &&& forall|i: int|
        0 <= i < doc.blocks@.len() ==> block_asked(requests, #[trigger] doc.blocks@[i])
    &&& optional_asked(requests, doc.header_default)
    &&& optional_asked(requests, doc.header_first)
    &&& optional_asked(requests, doc.footer_default)
    &&& optional_asked(requests, doc.footer_first)
}

proof fn lemma_asked_push(requests: Seq<RequestView>, r: RequestView, key: Seq<char>)
    ensures
        asked(requests.push(r), key, requests.len() as int + 1) == (r.key == key || asked(
            requests,
            key,
            requests.len() as int,
        )),
{
    lemma_asked_prefix(requests, requests.push(r), key, requests.len() as int);
}

proof fn lemma_note_run(requests: Seq<RequestView>, run: Run)
    ensures
        extends(requests, note_run(requests, run)),
        asked(note_run(requests, run), key_of(run), note_run(requests, run).len() as int),
{
    let after = note_run(requests, run);
    let key = key_of(run);
    if !asked(requests, key, requests.len() as int) {
        let r = after[requests.len() as int];
        assert forall|k: Seq<char>| asked(requests, k, requests.len() as int) implies #[trigger] asked(
            after,
            k,
            after.len() as int,
        ) by {
            lemma_asked_push(requests, r, k);
        }
        lemma_asked_push(requests, r, key);
    }
}

proof fn lemma_extends_trans(a: Seq<RequestView>, b: Seq<RequestView>, c: Seq<RequestView>)
    requires
        extends(a, b),
        extends(b, c),
    ensures
        extends(a, c),
{
}

proof fn lemma_runs_asked_extends(a: Seq<RequestView>, b: Seq<RequestView>, runs: Seq<Run>)
    requires
        extends(a, b),
        runs_asked(a, runs),
    ensures
        runs_asked(b, runs),
{
}

proof fn lemma_paragraphs_asked_extends(
    a: Seq<RequestView>,
    b: Seq<RequestView>,
    paragraphs: Seq<Paragraph>,
)
    requires
        extends(a, b),
        paragraphs_asked(a, paragraphs),
    ensures
        paragraphs_asked(b, paragraphs),
{
    assert forall|p: int| 0 <= p < paragraphs.len() implies runs_asked(
        b,
        (#[trigger] paragraphs[p]).runs@,
    ) by {
        lemma_runs_asked_extends(a, b, paragraphs[p].runs@);
    }
}

proof fn lemma_note_runs(requests: Seq<RequestView>, runs: Seq<Run>, n: int)
    requires
        0 <= n <= runs.len(),
    ensures
        extends(requests, note_runs(requests, runs, n)),
        forall|i: int|
            0 <= i < n ==> asked(
                note_runs(requests, runs, n),
                key_of(#[trigger] runs[i]),
                note_runs(requests, runs, n).len() as int,
            ),
    decreases n,
{
    if n > 0 {
        lemma_note_runs(requests, runs, n - 1);
        let before = note_runs(requests, runs, n - 1);
        lemma_note_run(before, runs[n - 1]);
        lemma_extends_trans(requests, before, note_runs(requests, runs, n));
    }
}

proof fn lemma_note_paragraphs(requests: Seq<RequestView>, paragraphs: Seq<Paragraph>, n: int)
    requires
        0 <= n <= paragraphs.len(),
    ensures
        extends(requests, note_paragraphs(requests, paragraphs, n)),
        forall|p: int|
            0 <= p < n ==> runs_asked(
                note_paragraphs(requests, paragraphs, n),
                (#[trigger] paragraphs[p]).runs@,
            ),
    decreases n,
{
    if n > 0 {
        lemma_note_paragraphs(requests, paragraphs, n - 1);
        let before = note_paragraphs(requests, paragraphs, n - 1);
        let runs = paragraphs[n - 1].runs@;
        lemma_note_runs(before, runs, runs.len() as int);
        let after = note_paragraphs(requests, paragraphs, n);
        lemma_extends_trans(requests, before, after);
        assert forall|p: int| 0 <= p < n implies runs_asked(after, (#[trigger] paragraphs[p]).runs@) by {
            if p < n - 1 {
                lemma_runs_asked_extends(before, after, paragraphs[p].runs@);
            }
        }
    }
}

proof fn lemma_note_cells(requests: Seq<RequestView>, cells: Seq<TableCell>, n: int)
    requires
        0 <= n <= cells.len(),
    ensures
        extends(requests, note_cells(requests, cells, n)),
        forall|c: int|
            0 <= c < n ==> paragraphs_asked(
                note_cells(requests, cells, n),
                (#[trigger] cells[c]).paragraphs@,
            ),
    decreases n,
{
    if n > 0 {
        lemma_note_cells(requests, cells, n - 1);
        let before = note_cells(requests, cells, n - 1);
        let paragraphs = cells[n - 1].paragraphs@;
        lemma_note_paragraphs(before, paragraphs, paragraphs.len() as int);
        let after = note_cells(requests, cells, n);
        lemma_extends_trans(requests, before, after);
        assert forall|c: int| 0 <= c < n implies paragraphs_asked(
            after,
            (#[trigger] cells[c]).paragraphs@,
        ) by {
            if c < n - 1 {
                lemma_paragraphs_asked_extends(before, after, cells[c].paragraphs@);
            }
        }
    }
}

proof fn lemma_note_rows(requests: Seq<RequestView>, rows: Seq<TableRow>, n: int)
    requires
        0 <= n <= rows.len(),
    ensures
        extends(requests, note_rows(requests, rows, n)),
        forall|r: int, c: int|
            0 <= r < n && 0 <= c < rows[r].cells@.len() ==> paragraphs_asked(
                note_rows(requests, rows, n),
                (#[trigger] rows[r].cells@[c]).paragraphs@,
            ),
    decreases n,
{
    if n > 0 {
        lemma_note_rows(requests, rows, n - 1);
        let before = note_rows(requests, rows, n - 1);
        let cells = rows[n - 1].cells@;
        lemma_note_cells(before, cells, cells.len() as int);
        let after = note_rows(requests, rows, n);
        lemma_extends_trans(requests, before, after);
        assert forall|r: int, c: int| 0 <= r < n && 0 <= c < rows[r].cells@.len() implies paragraphs_asked(
            after,
            (#[trigger] rows[r].cells@[c]).paragraphs@,
        ) by {
            if r < n - 1 {
                lemma_paragraphs_asked_extends(before, after, rows[r].cells@[c].paragraphs@);
            }
        }
    }
}

proof fn lemma_block_asked_extends(a: Seq<RequestView>, b: Seq<RequestView>, block: Block)
    requires
        extends(a, b),
        block_asked(a, block),
    ensures
        block_asked(b, block),
{
    match block {
        Block::Paragraph(p) => {
            lemma_runs_asked_extends(a, b, p.runs@);
        },
        Block::Table(t) => {
            assert forall|r: int, c: int|
                0 <= r < t.rows@.len() && 0 <= c < t.rows@[r].cells@.len() implies paragraphs_asked(
                b,
                (#[trigger] t.rows@[r].cells@[c]).paragraphs@,
            ) by {
                lemma_paragraphs_asked_extends(a, b, t.rows@[r].cells@[c].paragraphs@);
            }
        },
    }
}

proof fn lemma_note_blocks(requests: Seq<RequestView>, blocks: Seq<Block>, n: int)
    requires
        0 <= n <= blocks.len(),
    ensures
        extends(requests, note_blocks(requests, blocks, n)),
        forall|i: int|
            0 <= i < n ==> block_asked(note_blocks(requests, blocks, n), #[trigger] blocks[i]),
    decreases n,
{
    if n > 0 {
        lemma_note_blocks(requests, blocks, n - 1);
        let before = note_blocks(requests, blocks, n - 1);
        let after = note_blocks(requests, blocks, n);
        match blocks[n - 1] {
            Block::Paragraph(p) => {
                lemma_note_runs(before, p.runs@, p.runs@.len() as int);
            },
            Block::Table(t) => {
                lemma_note_rows(before, t.rows@, t.rows@.len() as int);
            },
        }
        lemma_extends_trans(requests, before, after);
        assert forall|i: int| 0 <= i < n implies block_asked(after, #[trigger] blocks[i]) by {
            if i < n - 1 {
                lemma_block_asked_extends(before, after, blocks[i]);
            }
        }
    }
}

proof fn lemma_note_header_footer(requests: Seq<RequestView>, hf: Option<HeaderFooter>)
    ensures
        extends(requests, note_header_footer(requests, hf)),
        optional_asked(note_header_footer(requests, hf), hf),
{
    match hf {
        Some(h) => {
            lemma_note_paragraphs(requests, h.paragraphs@, h.paragraphs@.len() as int);
        },
        None => {},
    }
}

proof fn lemma_optional_asked_extends(
    a: Seq<RequestView>,
    b: Seq<RequestView>,
    hf: Option<HeaderFooter>,
)
    requires
        extends(a, b),
        optional_asked(a, hf),
    ensures
        optional_asked(b, hf),
{
    match hf {
        Some(h) => {
            lemma_paragraphs_asked_extends(a, b, h.paragraphs@);
        },
        None => {},
    }
}

/// The font of every run of a document is among the fonts that the document
/// asks for.
pub proof fn lemma_requested_covers(doc: Document)
    ensures
        document_asked(requested(doc), doc),
{
    let body = note_blocks(Seq::empty(), doc.blocks@, doc.blocks@.len() as int);
    lemma_note_blocks(Seq::empty(), doc.blocks@, doc.blocks@.len() as int);
    let a = note_header_footer(body, doc.header_default);
    lemma_note_header_footer(body, doc.header_default);
    let b = note_header_footer(a, doc.header_first);
    lemma_note_header_footer(a, doc.header_first);
    let c = note_header_footer(b, doc.footer_default);
    lemma_note_header_footer(b, doc.footer_default);
    let d = note_header_footer(c, doc.footer_first);
    lemma_note_header_footer(c, doc.footer_first);
    lemma_extends_trans(body, a, b);
    lemma_extends_trans(body, b, c);
    lemma_extends_trans(body, c, d);
    lemma_extends_trans(a, b, c);
    lemma_extends_trans(a, c, d);
    lemma_extends_trans(b, c, d);
    lemma_optional_asked_extends(a, d, doc.header_default);
    lemma_optional_asked_extends(b, d, doc.header_first);
    lemma_optional_asked_extends(c, d, doc.footer_default);
    assert forall|i: int| 0 <= i < doc.blocks@.len() implies block_asked(
        d,
        #[trigger] doc.blocks@[i],
    ) by {
        lemma_block_asked_extends(body, d, doc.blocks@[i]);
    }
    if d.len() == 0 {
        // A document whose requests are empty has no runs at all.
        let fallback = requested(doc);
        lemma_optional_asked_extends(d, fallback, doc.header_default);
        lemma_optional_asked_extends(d, fallback, doc.header_first);
        lemma_optional_asked_extends(d, fallback, doc.footer_default);
        lemma_optional_asked_extends(d, fallback, doc.footer_first);
        assert forall|i: int| 0 <= i < doc.blocks@.len() implies block_asked(
            fallback,
            #[trigger] doc.blocks@[i],
        ) by {
            lemma_block_asked_extends(d, fallback, doc.blocks@[i]);
        }
    }
}

} // verus!
