//! Reading the portal's result tables out of HTML, with scraper doing the parsing.
//!
//! Each scraper lookup is named over the page's source text and plain coordinates: a table
//! (the first match of a selector), its `k`-th row (a selector within the table), and the
//! `j`-th match of a selector within that row.

use vstd::prelude::*;
use scraper::{Html, Selector};
use crate::markup::{
    deregistration_options_from_rows, exam_options_spec, exam_rows_ok, grade_records_spec,
    grade_rows_ok, grade_views, grades_from_rows, is_newest_first, rows_view, row_view,
    signup_options_from_rows, texts_view, cell_view, link_view, CellView, ExamListing,
    ExtractionError, LinkAttrs, LinkView, RowView, TableCell, TableRow,
};
use crate::types::{CampusDualGrade, CampusDualSignupOption, CampusDualVerfahrenOption};

verus! {

#[verifier::external_type_specification]
#[verifier::external_body]
pub struct ExHtml(Html);

/// A page's source text with its parsed document. It is made only by [`parse_page`], so the
/// document is always the one that the source parses to.
pub struct ParsedPage {
    source: String,
    doc: Html,
}

impl ParsedPage {
    pub closed spec fn source_spec(&self) -> Seq<char> {
        self.source@
    }
}

/// Relies on scraper's `Html::parse_document`, which parses any text and does not fail.
#[verifier::external_body]
pub fn parse_page(html: &str) -> (r: ParsedPage)
    ensures
        r.source_spec() == html@,
{
    ParsedPage { source: html.to_string(), doc: Html::parse_document(html) }
}

/// Attribute `name` of the first element that `css` matches.
pub uninterp spec fn first_attr_of(src: Seq<char>, css: Seq<char>, name: Seq<char>) -> Option<Seq<char>>;

/// Relies on scraper's `Selector::parse`, `Html::select` and `ElementRef::attr`.
#[verifier::external_body]
pub(crate) fn first_attr(page: &ParsedPage, css: &str, name: &str) -> (r: Option<String>)
    ensures
        r.deep_view() == first_attr_of(page.source_spec(), css@, name@),
{
    let sel = Selector::parse(css).ok()?;
    page.doc.select(&sel).next()?.attr(name).map(|v| v.to_string())
}

/// How many elements `row` matches within the first element that `table` matches; `None`
/// where nothing matches `table`.
pub uninterp spec fn row_count_of(src: Seq<char>, table: Seq<char>, row: Seq<char>) -> Option<nat>;

/// Relies on scraper's `Selector::parse`, `Html::select` and `ElementRef::select`.
#[verifier::external_body]
fn row_count(page: &ParsedPage, table: &str, row: &str) -> (r: Option<usize>)
    ensures
        match r {
            Some(n) => row_count_of(page.source_spec(), table@, row@) == Some(n as nat),
            None => row_count_of(page.source_spec(), table@, row@) is None,
        },
{
    let (t, r) = (Selector::parse(table).ok()?, Selector::parse(row).ok()?);
    Some(page.doc.select(&t).next()?.select(&r).count())
}

/// Attribute `name` of row `k`.
pub uninterp spec fn row_attr_of(src: Seq<char>, table: Seq<char>, row: Seq<char>, k: nat, name: Seq<char>) -> Option<Seq<char>>;

/// Relies on scraper's `Selector::parse`, `Html::select`, `ElementRef::select` and `ElementRef::attr`.
#[verifier::external_body]
fn row_attr(page: &ParsedPage, table: &str, row: &str, k: usize, name: &str) -> (r: Option<String>)
    ensures
        r.deep_view() == row_attr_of(page.source_spec(), table@, row@, k as nat, name@),
{
    let (t, r) = (Selector::parse(table).ok()?, Selector::parse(row).ok()?);
    page.doc.select(&t).next()?.select(&r).nth(k)?.attr(name).map(|v| v.to_string())
}

/// The text nodes below row `k`, in document order.
pub uninterp spec fn row_texts_of(src: Seq<char>, table: Seq<char>, row: Seq<char>, k: nat) -> Seq<Seq<char>>;

/// Relies on scraper's `Selector::parse`, `Html::select`, `ElementRef::select` and `ElementRef::text`.
#[verifier::external_body]
fn row_texts(page: &ParsedPage, table: &str, row: &str, k: usize) -> (r: Vec<String>)
    ensures
        texts_view(r@) == row_texts_of(page.source_spec(), table@, row@, k as nat),
{
    let (Ok(t), Ok(r)) = (Selector::parse(table), Selector::parse(row)) else { return Vec::new() };
    let found = page.doc.select(&t).next().and_then(|e| e.select(&r).nth(k));
    found.map(|e| e.text().map(|s| s.to_string()).collect()).unwrap_or_default()
}

/// How many elements `inner` matches within row `k`.
pub uninterp spec fn inner_count_of(src: Seq<char>, table: Seq<char>, row: Seq<char>, k: nat, inner: Seq<char>) -> nat;

/// Relies on scraper's `Selector::parse`, `Html::select` and `ElementRef::select`.
#[verifier::external_body]
fn inner_count(page: &ParsedPage, table: &str, row: &str, k: usize, inner: &str) -> (r: usize)
    ensures
        r as nat == inner_count_of(page.source_spec(), table@, row@, k as nat, inner@),
{
    let sels = (Selector::parse(table), Selector::parse(row), Selector::parse(inner));
    let (Ok(t), Ok(r), Ok(i)) = sels else { return 0 };
    let found = page.doc.select(&t).next().and_then(|e| e.select(&r).nth(k));
    found.map(|e| e.select(&i).count()).unwrap_or(0)
}

/// Attribute `name` of the `j`-th match of `inner` within row `k`.
pub uninterp spec fn inner_attr_of(src: Seq<char>, table: Seq<char>, row: Seq<char>, k: nat, inner: Seq<char>, j: nat, name: Seq<char>) -> Option<Seq<char>>;

/// Relies on scraper's `Selector::parse`, `Html::select`, `ElementRef::select` and `ElementRef::attr`.
#[verifier::external_body]
fn inner_attr(page: &ParsedPage, table: &str, row: &str, k: usize, inner: &str, j: usize, name: &str) -> (r: Option<String>)
    ensures
        r.deep_view() == inner_attr_of(page.source_spec(), table@, row@, k as nat, inner@, j as nat, name@),
{
    let (t, r, i) = (Selector::parse(table).ok()?, Selector::parse(row).ok()?, Selector::parse(inner).ok()?);
    let e = page.doc.select(&t).next()?.select(&r).nth(k)?.select(&i).nth(j)?;
    e.attr(name).map(|v| v.to_string())
}

/// The text nodes below the `j`-th match of `inner` within row `k`.
pub uninterp spec fn inner_texts_of(src: Seq<char>, table: Seq<char>, row: Seq<char>, k: nat, inner: Seq<char>, j: nat) -> Seq<Seq<char>>;

/// Relies on scraper's `Selector::parse`, `Html::select`, `ElementRef::select` and `ElementRef::text`.
#[verifier::external_body]
fn inner_texts(page: &ParsedPage, table: &str, row: &str, k: usize, inner: &str, j: usize) -> (r: Vec<String>)
    ensures
        texts_view(r@) == inner_texts_of(page.source_spec(), table@, row@, k as nat, inner@, j as nat),
{
    let sels = (Selector::parse(table), Selector::parse(row), Selector::parse(inner));
    let (Ok(t), Ok(r), Ok(i)) = sels else { return Vec::new() };
    let found = page.doc.select(&t).next().and_then(|e| e.select(&r).nth(k)).and_then(|e| e.select(&i).nth(j));
    found.map(|e| e.text().map(|s| s.to_string()).collect()).unwrap_or_default()
}

/// How many elements `deep` matches within the `j`-th match of `inner` within row `k`.
pub uninterp spec fn deep_count_of(src: Seq<char>, table: Seq<char>, row: Seq<char>, k: nat, inner: Seq<char>, j: nat, deep: Seq<char>) -> nat;

/// Relies on scraper's `Selector::parse`, `Html::select` and `ElementRef::select`.
#[verifier::external_body]
fn deep_count(page: &ParsedPage, table: &str, row: &str, k: usize, inner: &str, j: usize, deep: &str) -> (r: usize)
    ensures
        r as nat == deep_count_of(page.source_spec(), table@, row@, k as nat, inner@, j as nat, deep@),
{
    let sels = (Selector::parse(table), Selector::parse(row), Selector::parse(inner), Selector::parse(deep));
    let (Ok(t), Ok(r), Ok(i), Ok(d)) = sels else { return 0 };
    let found = page.doc.select(&t).next().and_then(|e| e.select(&r).nth(k)).and_then(|e| e.select(&i).nth(j));
    found.map(|e| e.select(&d).count()).unwrap_or(0)
}

/// Attribute `name` of the first match of `deep` within the `j`-th match of `inner` within row `k`.
pub uninterp spec fn deep_attr_of(src: Seq<char>, table: Seq<char>, row: Seq<char>, k: nat, inner: Seq<char>, j: nat, deep: Seq<char>, name: Seq<char>) -> Option<Seq<char>>;

/// Relies on scraper's `Selector::parse`, `Html::select`, `ElementRef::select` and `ElementRef::attr`.
#[verifier::external_body]
fn deep_attr(page: &ParsedPage, table: &str, row: &str, k: usize, inner: &str, j: usize, deep: &str, name: &str) -> (r: Option<String>)
    ensures
        r.deep_view() == deep_attr_of(page.source_spec(), table@, row@, k as nat, inner@, j as nat, deep@, name@),
{
    let (t, r) = (Selector::parse(table).ok()?, Selector::parse(row).ok()?);
    let (i, d) = (Selector::parse(inner).ok()?, Selector::parse(deep).ok()?);
    let e = page.doc.select(&t).next()?.select(&r).nth(k)?.select(&i).nth(j)?.select(&d).next()?;
    e.attr(name).map(|v| v.to_string())
}

// ---------------------------------------------------------------- the table model

pub open spec fn blank_if_none(a: Option<Seq<char>>) -> Seq<char> {
    match a {
        Some(s) => s,
        None => Seq::empty(),
    }
}

/// The `src` of the first image within row `k` (empty where it has none), if it has an image.
pub open spec fn row_icon_spec(src: Seq<char>, t: Seq<char>, k: nat) -> Option<Seq<char>> {
    if inner_count_of(src, t, "tr"@, k, "img"@) > 0 {
        Some(blank_if_none(inner_attr_of(src, t, "tr"@, k, "img"@, 0, "src"@)))
    } else {
        None
    }
}

pub open spec fn cell_spec(src: Seq<char>, t: Seq<char>, k: nat, j: nat) -> CellView {
    CellView {
        texts: inner_texts_of(src, t, "tr"@, k, "td"@, j),
        icon: if deep_count_of(src, t, "tr"@, k, "td"@, j, "img"@) > 0 {
            Some(blank_if_none(deep_attr_of(src, t, "tr"@, k, "td"@, j, "img"@, "src"@)))
        } else {
            None
        },
    }
}

/// The data attributes of the first link within row `k` that `css` matches.
pub open spec fn link_spec(src: Seq<char>, t: Seq<char>, k: nat, css: Seq<char>) -> Option<LinkView> {
    if inner_count_of(src, t, "tr"@, k, css) > 0 {
        Some(
            LinkView {
                module: inner_attr_of(src, t, "tr"@, k, css, 0, "data-module"@),
                assessment: inner_attr_of(src, t, "tr"@, k, css, 0, "data-evob_objid"@),
                peryr: inner_attr_of(src, t, "tr"@, k, css, 0, "data-peryr"@),
                perid: inner_attr_of(src, t, "tr"@, k, css, 0, "data-perid"@),
                offerno: inner_attr_of(src, t, "tr"@, k, css, 0, "data-offerno"@),
            },
        )
    } else {
        None
    }
}

/// Row `k` of the table that `t` selects.
pub open spec fn row_spec(src: Seq<char>, t: Seq<char>, k: nat) -> RowView {
    RowView {
        id: row_attr_of(src, t, "tr"@, k, "id"@),
        class: blank_if_none(row_attr_of(src, t, "tr"@, k, "class"@)),
        cells: Seq::new(inner_count_of(src, t, "tr"@, k, "td"@), |j: int| cell_spec(src, t, k, j as nat)),
        texts: row_texts_of(src, t, "tr"@, k),
        icon: row_icon_spec(src, t, k),
        score_link: link_spec(src, t, k, "td>div#mscore>a"@),
        booking_link: link_spec(src, t, k, "td>a.booking"@),
    }
}

/// The rows of the first element that `t` selects in the page `src`; `None` where there is none.
pub open spec fn table_rows_spec(src: Seq<char>, t: Seq<char>) -> Option<Seq<RowView>> {
    match row_count_of(src, t, "tr"@) {
        Some(n) => Some(Seq::new(n, |k: int| row_spec(src, t, k as nat))),
        None => None,
    }
}

fn blank_if_missing(a: Option<String>) -> (r: String)
    ensures
        r@ == blank_if_none(a.deep_view()),
{
    match a {
        Some(s) => s,
        None => String::new(),
    }
}

fn read_link(page: &ParsedPage, t: &str, k: usize, css: &str) -> (r: Option<LinkAttrs>)
    ensures
        link_view(r) == link_spec(page.source_spec(), t@, k as nat, css@),
{
    if inner_count(page, t, "tr", k, css) > 0 {
        Some(
            LinkAttrs {
                module: inner_attr(page, t, "tr", k, css, 0, "data-module"),
                assessment: inner_attr(page, t, "tr", k, css, 0, "data-evob_objid"),
                peryr: inner_attr(page, t, "tr", k, css, 0, "data-peryr"),
                perid: inner_attr(page, t, "tr", k, css, 0, "data-perid"),
                offerno: inner_attr(page, t, "tr", k, css, 0, "data-offerno"),
            },
        )
    } else {
        None
    }
}

fn read_row(page: &ParsedPage, t: &str, k: usize) -> (r: TableRow)
    ensures
        row_view(r) == row_spec(page.source_spec(), t@, k as nat),
{
    let ghost src = page.source_spec();
    let n = inner_count(page, t, "tr", k, "td");
    let mut cells: Vec<TableCell> = Vec::new();
    let mut j: usize = 0;
    while j < n
        invariant
            src == page.source_spec(),
            n as nat == inner_count_of(src, t@, "tr"@, k as nat, "td"@),
            j <= n,
            cells@.map_values(|c: TableCell| cell_view(c)) =~= Seq::new(
                j as nat,
                |q: int| cell_spec(src, t@, k as nat, q as nat),
            ),
        decreases n - j,
    {
        let icon = if deep_count(page, t, "tr", k, "td", j, "img") > 0 {
            Some(blank_if_missing(deep_attr(page, t, "tr", k, "td", j, "img", "src")))
        } else {
            None
        };
        let cell = TableCell { texts: inner_texts(page, t, "tr", k, "td", j), icon };
        assert(cell_view(cell) == cell_spec(src, t@, k as nat, j as nat));
        let ghost before = cells@;
        cells.push(cell);
        assert(cells@.map_values(|c: TableCell| cell_view(c)) =~= before.map_values(
            |c: TableCell| cell_view(c),
        ).push(cell_view(cell)));
        j = j + 1;
    }
    let icon = if inner_count(page, t, "tr", k, "img") > 0 {
        Some(blank_if_missing(inner_attr(page, t, "tr", k, "img", 0, "src")))
    } else {
        None
    };
    let r = TableRow {
        id: row_attr(page, t, "tr", k, "id"),
        class: blank_if_missing(row_attr(page, t, "tr", k, "class")),
        cells,
        texts: row_texts(page, t, "tr", k),
        icon,
        score_link: read_link(page, t, k, "td>div#mscore>a"),
        booking_link: read_link(page, t, k, "td>a.booking"),
    };
    assert(row_view(r).cells =~= row_spec(src, t@, k as nat).cells);
    r
}

/// The rows of the first element that `t` selects; `None` where the page has none.
fn read_table(page: &ParsedPage, t: &str) -> (r: Option<Vec<TableRow>>)
    ensures
        match table_rows_spec(page.source_spec(), t@) {
            Some(rv) => r matches Some(rows) && rows_view(rows@) == rv,
            None => r is None,
        },
{
    let ghost src = page.source_spec();
    let n = row_count(page, t, "tr")?;
    let mut rows: Vec<TableRow> = Vec::new();
    let mut k: usize = 0;
    while k < n
        invariant
            src == page.source_spec(),
            row_count_of(src, t@, "tr"@) == Some(n as nat),
            k <= n,
            rows_view(rows@) =~= Seq::new(k as nat, |q: int| row_spec(src, t@, q as nat)),
        decreases n - k,
    {
        let row = read_row(page, t, k);
        let ghost before = rows@;
        rows.push(row);
        assert(rows_view(rows@) =~= rows_view(before).push(row_view(row)));
        k = k + 1;
    }
    Some(rows)
}

/// What extracting from the table that `t` selects gives: `TableMissing` where the page has
/// no such table; otherwise the row-level result for the rows read from it.
pub open spec fn grades_page_spec(src: Seq<char>, r: Result<Vec<CampusDualGrade>, ExtractionError>) -> bool {
    match table_rows_spec(src, "#acwork tbody"@) {
        None => r == Err::<Vec<CampusDualGrade>, ExtractionError>(ExtractionError::TableMissing),
        Some(rv) => exists|rows: Seq<TableRow>|
            rows_view(rows) == rv && (r is Err <==> !grade_rows_ok(rows)) && (r matches Err(e)
                ==> e == ExtractionError::RowShapeMismatch) && (r matches Ok(g)
                ==> is_newest_first(grade_views(g@), grade_records_spec(rows))),
    }
}

pub open spec fn signup_page_spec(src: Seq<char>, r: Result<Vec<CampusDualSignupOption>, ExtractionError>) -> bool {
    match table_rows_spec(src, "#expproc tbody"@) {
        None => r == Err::<Vec<CampusDualSignupOption>, ExtractionError>(ExtractionError::TableMissing),
        Some(rv) => exists|rows: Seq<TableRow>|
            rows_view(rows) == rv && (r is Err <==> !exam_rows_ok(rows)) && (r matches Err(e)
                ==> e == ExtractionError::RowShapeMismatch) && (r matches Ok(v)
                ==> v@.map_values(|o: CampusDualSignupOption| o@) == exam_options_spec(rows, ExamListing::Signup)),
    }
}

pub open spec fn deregistration_page_spec(src: Seq<char>, r: Result<Vec<CampusDualVerfahrenOption>, ExtractionError>) -> bool {
    match table_rows_spec(src, "#exopen tbody"@) {
        None => r == Err::<Vec<CampusDualVerfahrenOption>, ExtractionError>(ExtractionError::TableMissing),
        Some(rv) => exists|rows: Seq<TableRow>|
            rows_view(rows) == rv && (r is Err <==> !exam_rows_ok(rows)) && (r matches Err(e)
                ==> e == ExtractionError::RowShapeMismatch) && (r matches Ok(v)
                ==> v@.map_values(|o: CampusDualVerfahrenOption| o@) == exam_options_spec(rows, ExamListing::Deregistration)),
    }
}

/// The grade records of the portal's results page, newest first.
pub fn extract_grades(html_text: String) -> (r: Result<Vec<CampusDualGrade>, ExtractionError>)
    ensures
        grades_page_spec(html_text@, r),
{
    let page = parse_page(html_text.as_str());
    match read_table(&page, "#acwork tbody") {
        Some(rows) => {
            let r = grades_from_rows(&rows);
            assert(rows_view(rows@) == rows_view(rows@));
            r
        },
        None => Err(ExtractionError::TableMissing),
    }
}

/// The options of the portal's exam signup page, in document order.
pub fn extract_exam_signup_options(html_text: String) -> (r: Result<Vec<CampusDualSignupOption>, ExtractionError>)
    ensures
        signup_page_spec(html_text@, r),
{
    let page = parse_page(html_text.as_str());
    match read_table(&page, "#expproc tbody") {
        Some(rows) => signup_options_from_rows(&rows),
        None => Err(ExtractionError::TableMissing),
    }
}

/// The options of the portal's exam deregistration page, in document order.
pub fn extract_exam_verfahren_options(html_text: String) -> (r: Result<Vec<CampusDualVerfahrenOption>, ExtractionError>)
    ensures
        deregistration_page_spec(html_text@, r),
{
    let page = parse_page(html_text.as_str());
    match read_table(&page, "#exopen tbody") {
        Some(rows) => deregistration_options_from_rows(&rows),
        None => Err(ExtractionError::TableMissing),
    }
}

/// The kinds of portal page that can be parsed.
#[derive(Clone, Copy, Debug, PartialEq, Eq, Structural)]
pub enum DocumentKind {
    Grades,
    ExamSignup,
    ExamDeregistration,
}

/// The records of one page, by its kind.
#[derive(Clone, Debug, PartialEq, Eq)]
pub enum Records {
    Grades(Vec<CampusDualGrade>),
    ExamSignup(Vec<CampusDualSignupOption>),
    ExamDeregistration(Vec<CampusDualVerfahrenOption>),
}

/// The records of a portal page of kind `kind`.
pub fn parse(raw_html: &str, kind: DocumentKind) -> (r: Result<Records, ExtractionError>)
    ensures
        kind == DocumentKind::Grades ==> grades_page_spec(
            raw_html@,
            match r {
                Ok(Records::Grades(g)) => Ok(g),
                Ok(_) => Err(ExtractionError::TableMissing),
                Err(e) => Err(e),
            },
        ) && (r is Ok ==> r->Ok_0 is Grades),
        kind == DocumentKind::ExamSignup ==> signup_page_spec(
            raw_html@,
            match r {
                Ok(Records::ExamSignup(v)) => Ok(v),
                Ok(_) => Err(ExtractionError::TableMissing),
                Err(e) => Err(e),
            },
        ) && (r is Ok ==> r->Ok_0 is ExamSignup),
        kind == DocumentKind::ExamDeregistration ==> deregistration_page_spec(
            raw_html@,
            match r {
                Ok(Records::ExamDeregistration(v)) => Ok(v),
                Ok(_) => Err(ExtractionError::TableMissing),
                Err(e) => Err(e),
            },
        ) && (r is Ok ==> r->Ok_0 is ExamDeregistration),
{
    let html = raw_html.to_owned();
    match kind {
        DocumentKind::Grades => match extract_grades(html) {
            Ok(g) => Ok(Records::Grades(g)),
            Err(e) => Err(e),
        },
        DocumentKind::ExamSignup => match extract_exam_signup_options(html) {
            Ok(v) => Ok(Records::ExamSignup(v)),
            Err(e) => Err(e),
        },
        DocumentKind::ExamDeregistration => match extract_exam_verfahren_options(html) {
            Ok(v) => Ok(Records::ExamDeregistration(v)),
            Err(e) => Err(e),
        },
    }
}

} // verus!
