//! Reading the text of a page out of its HTML: the document is parsed and
//! queried by the `scraper` crate.

use vstd::prelude::*;
use scraper::{ElementRef, Html, Selector};
use crate::cell::{viewed, CellError};
use crate::page::{owner, page_outcome, walk, Page, PageView};
use crate::schedule::{Schedule, ScheduleView};
use crate::types::{Entity, EntityView};

verus! {

#[verifier::external_type_specification]
#[verifier::external_body]
pub struct ExHtml(Html);

#[verifier::external_type_specification]
#[verifier::external_body]
pub struct ExSelector(Selector);

#[verifier::external_type_specification]
#[verifier::external_body]
pub struct ExElementRef<'a>(ElementRef<'a>);

/// The document that `scraper` builds from the text of a page.
pub uninterp spec fn parsed_document(text: Seq<char>) -> Html;

/// The selector that `scraper` reads from a CSS selector group, if it
/// accepts the group.
pub uninterp spec fn parsed_selector(css: Seq<char>) -> Option<Selector>;

/// The elements of a document that match a selector, in the order in
/// which `scraper` yields them.
pub uninterp spec fn document_matches(doc: Html, selector: Selector) -> Seq<ElementRef<'static>>;

/// The descendants of an element that match a selector, in the order in
/// which `scraper` yields them.
pub uninterp spec fn element_matches(element: ElementRef<'static>, selector: Selector) -> Seq<
    ElementRef<'static>,
>;

/// The text nodes below an element, in the order in which `scraper`
/// yields them.
pub uninterp spec fn element_text(element: ElementRef<'static>) -> Seq<Seq<char>>;

/// The longest text, in characters, that is handed to the HTML parser. The
/// parser keeps text in buffers of the `tendril` crate, which panic once a
/// buffer that grows would need more than 2^31 bytes; no character takes
/// more than four bytes there.
pub const MAX_PAGE_CHARS: usize = 0x1fff_ffff;

/// `scraper::Html::parse_document`: parses the text of a page. For a text
/// within the bound parsing never fails; the contract only names the
/// document that comes out.
#[verifier::external_body]
fn parse_html(text: &str) -> (doc: Html)
    requires
        text@.len() <= MAX_PAGE_CHARS,
    ensures
        doc == parsed_document(text@),
{
    Html::parse_document(text)
}

/// `scraper::Selector::parse`: reads a CSS selector group. The contract
/// names the result and says that an error on the outside is `None` here.
#[verifier::external_body]
fn parse_selector(css: &str) -> (r: Option<Selector>)
    ensures
        r == parsed_selector(css@),
{
    Selector::parse(css).ok()
}

/// `scraper::Html::select`, run to its end: the contract names the matching
/// elements, in the order in which the iterator yields them.
#[verifier::external_body]
fn select_in_document<'a>(doc: &'a Html, selector: &Selector) -> (found: Vec<ElementRef<'a>>)
    ensures
        found@ == document_matches(*doc, *selector),
{
    doc.select(selector).collect()
}

/// `scraper::ElementRef::select`, run to its end: the contract names the
/// matching descendants, in the order in which the iterator yields them.
#[verifier::external_body]
fn select_in_element<'a>(element: &ElementRef<'a>, selector: &Selector) -> (found: Vec<
    ElementRef<'a>,
>)
    ensures
        found@ == element_matches(*element, *selector),
{
    element.select(selector).collect()
}

/// `scraper::ElementRef::text`, run to its end: the contract names the text
/// nodes, in the order in which the iterator yields them.
#[verifier::external_body]
fn text_nodes(element: &ElementRef<'_>) -> (lines: Vec<String>)
    ensures
        lines.deep_view() == element_text(*element),
{
    element.text().map(|t| t.to_string()).collect()
}

/// The selectors by which a page is read.
pub struct Selectors {
    /// Matches the element that shows the title of a page.
    pub title: Selector,
    /// Matches tables.
    pub table: Selector,
    /// Matches the rows of a table.
    pub row: Selector,
    /// Matches the cells of a row.
    pub cell: Selector,
}

/// The title of a page is set in a font of this face, size and colour.
pub open spec fn title_css() -> Seq<char> {
    "font[face=\"Times New Roman\"][size=\"6\"][color=\"\\#ff00ff\"]"@
}

/// The selectors for the layout that the pages have, where `scraper`
/// accepts all four.
pub open spec fn standard_selectors() -> Option<Selectors> {
    match (
        parsed_selector(title_css()),
        parsed_selector("table"@),
        parsed_selector("tr"@),
        parsed_selector("td"@),
    ) {
        (Some(title), Some(table), Some(row), Some(cell)) => Some(
            Selectors { title, table, row, cell },
        ),
        _ => None,
    }
}

/// The text of the cells of a row.
pub open spec fn row_text(row: ElementRef<'static>, selectors: Selectors) -> Seq<Seq<Seq<char>>> {
    let cells = element_matches(row, selectors.cell);
    Seq::new(cells.len(), |c: int| element_text(cells[c]))
}

/// The text of the rows of a table.
pub open spec fn table_text(table: ElementRef<'static>, selectors: Selectors) -> Seq<
    Seq<Seq<Seq<char>>>,
> {
    let rows = element_matches(table, selectors.row);
    Seq::new(rows.len(), |r: int| row_text(rows[r], selectors))
}

/// The text of the tables of a document.
pub open spec fn document_tables(doc: Html, selectors: Selectors) -> Seq<
    Seq<Seq<Seq<Seq<char>>>>,
> {
    let tables = document_matches(doc, selectors.table);
    Seq::new(tables.len(), |t: int| table_text(tables[t], selectors))
}

/// The first text node of the first title element of a document.
pub open spec fn document_title(doc: Html, selectors: Selectors) -> Option<Seq<char>> {
    let found = document_matches(doc, selectors.title);
    if found.len() == 0 {
        None
    } else {
        let lines = element_text(found[0]);
        if lines.len() == 0 {
            None
        } else {
            Some(lines[0])
        }
    }
}

/// What the parser reads of a document.
pub open spec fn document_page(doc: Html, selectors: Selectors) -> PageView {
    PageView { title: document_title(doc, selectors), tables: document_tables(doc, selectors) }
}

impl Selectors {
    /// The selectors for the layout that the pages have; `None` where one
    /// of them is not accepted.
    pub fn new() -> (r: Option<Selectors>)
        ensures
            r == standard_selectors(),
    {
        let title = parse_selector(
            "font[face=\"Times New Roman\"][size=\"6\"][color=\"\\#ff00ff\"]",
        );
        let table = parse_selector("table");
        let row = parse_selector("tr");
        let cell = parse_selector("td");
        match (title, table, row, cell) {
            (Some(title), Some(table), Some(row), Some(cell)) => Some(
                Selectors { title, table, row, cell },
            ),
            _ => None,
        }
    }
}

/// Reads the title of a page: the first text node of the first title
/// element, as it stands.
pub fn read_title(doc: &Html, selectors: &Selectors) -> (title: Option<String>)
    ensures
        title.deep_view() == document_title(*doc, *selectors),
{
    let found = select_in_document(doc, &selectors.title);
    if found.len() == 0 {
        return None;
    }
    let lines = text_nodes(&found[0]);
    if lines.len() == 0 {
        return None;
    }
    Some(lines[0].clone())
}

/// Reads the text of one row: the text nodes of each of its cells.
fn read_row<'a>(row: &ElementRef<'a>, selectors: &Selectors) -> (cells: Vec<Vec<String>>)
    ensures
        cells.deep_view() == row_text(*row, *selectors),
{
    let found = select_in_element(row, &selectors.cell);
    let mut cells: Vec<Vec<String>> = Vec::new();
    let mut i: usize = 0;
    while i < found.len()
        invariant
            i <= found.len(),
            cells.len() == i,
            forall|k: int| 0 <= k < i ==> (#[trigger] cells@[k]).deep_view() == element_text(found@[k]),
        decreases found.len() - i,
    {
        cells.push(text_nodes(&found[i]));
        i += 1;
    }
    cells
}

/// Reads the text of one table: the text of each of its rows.
fn read_table<'a>(table: &ElementRef<'a>, selectors: &Selectors) -> (rows: Vec<Vec<Vec<String>>>)
    ensures
        rows.deep_view() == table_text(*table, *selectors),
{
    let found = select_in_element(table, &selectors.row);
    let mut rows: Vec<Vec<Vec<String>>> = Vec::new();
    let mut i: usize = 0;
    while i < found.len()
        invariant
            i <= found.len(),
            rows.len() == i,
            forall|k: int|
                0 <= k < i ==> (#[trigger] rows@[k]).deep_view() == row_text(found@[k], *selectors),
        decreases found.len() - i,
    {
        rows.push(read_row(&found[i], selectors));
        i += 1;
    }
    rows
}

/// Reads the text of every table of a page, in the order in which the
/// tables are found.
pub fn read_tables(doc: &Html, selectors: &Selectors) -> (tables: Vec<Vec<Vec<Vec<String>>>>)
    ensures
        tables.deep_view() == document_tables(*doc, *selectors),
{
    let found = select_in_document(doc, &selectors.table);
    let mut tables: Vec<Vec<Vec<Vec<String>>>> = Vec::new();
    let mut i: usize = 0;
    while i < found.len()
        invariant
            i <= found.len(),
            tables.len() == i,
            forall|k: int|
                0 <= k < i ==> (#[trigger] tables@[k]).deep_view() == table_text(
                    found@[k],
                    *selectors,
                ),
        decreases found.len() - i,
    {
        tables.push(read_table(&found[i], selectors));
        i += 1;
    }
    tables
}

/// Reads of a document what the parser needs: the title and the text of
/// the tables.
pub fn read_page(doc: &Html, selectors: &Selectors) -> (page: Page)
    ensures
        page@ == document_page(*doc, *selectors),
{
    Page { title: read_title(doc, selectors), tables: read_tables(doc, selectors) }
}

/// Why a page could not be parsed from its HTML text.
#[derive(Debug, Clone, Copy, PartialEq, Eq, Structural)]
pub enum PageError {
    /// The text has more than [`MAX_PAGE_CHARS`] characters.
    TooLong,
    /// A cell of the page could not be read.
    Cell(CellError),
}

/// What the HTML text of a page comes to: a text that is too long for the
/// parser is an error; any other text comes to what its document does.
pub open spec fn html_page_outcome(text: Seq<char>, selectors: Selectors) -> Result<
    Option<(EntityView, ScheduleView)>,
    PageError,
> {
    if text.len() > MAX_PAGE_CHARS {
        Err(PageError::TooLong)
    } else {
        match page_outcome(document_page(parsed_document(text), selectors)) {
            Err(e) => Err(PageError::Cell(e)),
            Ok(found) => Ok(found),
        }
    }
}

/// Parses one page from its HTML text: `Ok(None)` for a page to be skipped,
/// else the owner of the page with its schedule. A text of more than
/// [`MAX_PAGE_CHARS`] characters is refused unread. The tables of a page
/// that is skipped are not read.
pub fn parse_html_page(text: &str, selectors: &Selectors) -> (r: Result<
    Option<(Entity, Schedule)>,
    PageError,
>)
    ensures
        viewed(r) == html_page_outcome(text@, *selectors),
{
    if text.unicode_len() > MAX_PAGE_CHARS {
        return Err(PageError::TooLong);
    }
    let doc = parse_html(text);
    let title = read_title(&doc, selectors);
    match owner(&title) {
        None => Ok(None),
        Some(entity) => {
            let tables = read_tables(&doc, selectors);
            match walk(&tables, &entity) {
                Err(e) => Err(PageError::Cell(e)),
                Ok(schedule) => Ok(Some((entity, schedule))),
            }
        },
    }
}

} // verus!
