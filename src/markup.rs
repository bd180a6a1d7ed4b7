//! Extraction of typed records from the portal's result tables.
//!
//! A table is read into [`TableRow`]s first. The portal does not nest rows in the
//! markup: a row whose class holds the token `child-of-<id>` belongs under the row
//! whose `id` is `<id>`. Top-level rows hang under `node-0`; ungrouped partial exams
//! under `node-1000`.
//!
//! A row that a record needs but that lacks one of the cells or texts it reads aborts the
//! whole extraction with [`ExtractionError::RowShapeMismatch`]: no partial result is given.

use vstd::prelude::*;
use crate::text::{
    contains, contains_spec, find, find_from, matches_at, occurs_at, parse_i32, parse_i32_spec,
    replace_all, replace_all_spec, strip_prefix, strip_prefix_spec, strip_suffix, strip_suffix_spec,
    substring, trim, trim_spec, trim_start, trim_start_spec,
};
use crate::types::{
    CampusDualGrade, CampusDualSignupOption, CampusDualSubGrade, CampusDualVerfahrenOption,
    ExamOptionView, ExamRegistrationMetadata, GradeView, SubGradeMetadata, SubGradeView,
};

verus! {

/// One `td` of a row.
pub struct TableCell {
    /// The cell's text nodes, in document order.
    pub texts: Vec<String>,
    /// The `src` of the first image in the cell (empty where it has none), if there is an image.
    pub icon: Option<String>,
}

/// The data attributes of a link inside a row.
pub struct LinkAttrs {
    pub module: Option<String>,
    pub assessment: Option<String>,
    pub peryr: Option<String>,
    pub perid: Option<String>,
    pub offerno: Option<String>,
}

/// One `tr` of a result table, as the extractor reads it.
pub struct TableRow {
    pub id: Option<String>,
    /// The class attribute, empty where there is none.
    pub class: String,
    pub cells: Vec<TableCell>,
    /// All text nodes of the row, in document order.
    pub texts: Vec<String>,
    /// The `src` of the first image in the row (empty where it has none), if there is an image.
    pub icon: Option<String>,
    /// The grade-statistics link (`td>div#mscore>a`).
    pub score_link: Option<LinkAttrs>,
    /// The booking link (`td>a.booking`).
    pub booking_link: Option<LinkAttrs>,
}

/// The value of a [`TableCell`] as contracts speak of it.
pub ghost struct CellView {
    pub texts: Seq<Seq<char>>,
    pub icon: Option<Seq<char>>,
}

/// The value of a [`LinkAttrs`] as contracts speak of it.
pub ghost struct LinkView {
    pub module: Option<Seq<char>>,
    pub assessment: Option<Seq<char>>,
    pub peryr: Option<Seq<char>>,
    pub perid: Option<Seq<char>>,
    pub offerno: Option<Seq<char>>,
}

/// The value of a [`TableRow`] as contracts speak of it.
pub ghost struct RowView {
    pub id: Option<Seq<char>>,
    pub class: Seq<char>,
    pub cells: Seq<CellView>,
    pub texts: Seq<Seq<char>>,
    pub icon: Option<Seq<char>>,
    pub score_link: Option<LinkView>,
    pub booking_link: Option<LinkView>,
}

pub open spec fn texts_view(t: Seq<String>) -> Seq<Seq<char>> {
    t.map_values(|s: String| s@)
}

pub open spec fn cell_view(c: TableCell) -> CellView {
    CellView { texts: texts_view(c.texts@), icon: c.icon.deep_view() }
}

pub open spec fn link_view(l: Option<LinkAttrs>) -> Option<LinkView> {
    match l {
        Some(a) => Some(
            LinkView {
                module: a.module.deep_view(),
                assessment: a.assessment.deep_view(),
                peryr: a.peryr.deep_view(),
                perid: a.perid.deep_view(),
                offerno: a.offerno.deep_view(),
            },
        ),
        None => None,
    }
}

pub open spec fn row_view(r: TableRow) -> RowView {
    RowView {
        id: r.id.deep_view(),
        class: r.class@,
        cells: r.cells@.map_values(|c: TableCell| cell_view(c)),
        texts: texts_view(r.texts@),
        icon: r.icon.deep_view(),
        score_link: link_view(r.score_link),
        booking_link: link_view(r.booking_link),
    }
}

pub open spec fn rows_view(rows: Seq<TableRow>) -> Seq<RowView> {
    rows.map_values(|r: TableRow| row_view(r))
}

#[derive(Clone, Copy, Debug, PartialEq, Eq, Structural)]
pub enum ExtractionError {
    /// The page has no result table.
    TableMissing,
    /// A row that the records need lacks a cell or a text.
    RowShapeMismatch,
}

// ---------------------------------------------------------------- adjacency

/// Separators of class tokens.
pub open spec fn is_class_separator(c: char) -> bool {
    c == ' ' || c == '\t' || c == '\n' || c == '\r' || (c as u32) == 0xc
}

fn class_separator(c: char) -> (r: bool)
    ensures
        r == is_class_separator(c),
{
    c == ' ' || c == '\t' || c == '\n' || c == '\r' || (c as u32) == 0xc
}

/// The end of the class token that starts at `j`.
pub open spec fn token_end(s: Seq<char>, j: int) -> int
    decreases s.len() - j,
{
    if j < 0 || j >= s.len() || is_class_separator(s[j]) {
        j
    } else {
        token_end(s, j + 1)
    }
}

/// The parent id named by the first `child-of-` token at or after `k`.
pub open spec fn parent_from(s: Seq<char>, k: int) -> Option<Seq<char>>
    decreases s.len() - k,
{
    if k < 0 || k >= s.len() {
        None
    } else if (k == 0 || is_class_separator(s[k - 1])) && occurs_at(s, "child-of-"@, k) {
        let start = k + "child-of-"@.len();
        Some(s.subrange(start, token_end(s, start)))
    } else {
        parent_from(s, k + 1)
    }
}

/// The logical parent that a row's class names.
pub open spec fn row_parent(r: TableRow) -> Option<Seq<char>> {
    parent_from(r.class@, 0)
}

proof fn lemma_token_end_bounds(s: Seq<char>, j: int)
    requires
        0 <= j <= s.len(),
    ensures
        j <= token_end(s, j) <= s.len(),
    decreases s.len() - j,
{
    if j < s.len() && !is_class_separator(s[j]) {
        lemma_token_end_bounds(s, j + 1);
    }
}

/// The parent id that `class` names, if any.
pub fn parent_of(class: &str) -> (r: Option<String>)
    ensures
        r.deep_view() == parent_from(class@, 0),
{
    let n = class.unicode_len();
    let marker = "child-of-";
    let m = marker.unicode_len();
    let mut k: usize = 0;
    while k < n
        invariant
            n == class@.len(),
            m == marker@.len(),
            marker@ == "child-of-"@,
            k <= n,
            parent_from(class@, 0) == parent_from(class@, k as int),
        decreases n - k,
    {
        if (k == 0 || class_separator(class.get_char(k - 1))) && matches_at(class, marker, k) {
            let start = k + m;
            let mut e: usize = start;
            proof {
                lemma_token_end_bounds(class@, start as int);
            }
            while e < n && !class_separator(class.get_char(e))
                invariant
                    n == class@.len(),
                    start <= e <= n,
                    token_end(class@, start as int) == token_end(class@, e as int),
                decreases n - e,
            {
                e = e + 1;
            }
            return Some(substring(class, start, e));
        }
        k = k + 1;
    }
    None
}

/// The rows of `rows` whose parent is `pid`, in document order.
pub open spec fn children_spec(rows: Seq<TableRow>, pid: Seq<char>) -> Seq<TableRow>
    decreases rows.len(),
{
    if rows.len() == 0 {
        Seq::empty()
    } else if row_parent(rows.last()) == Some(pid) {
        children_spec(rows.drop_last(), pid).push(rows.last())
    } else {
        children_spec(rows.drop_last(), pid)
    }
}

/// The parent of each row, computed once.
fn parent_table(rows: &Vec<TableRow>) -> (r: Vec<Option<String>>)
    ensures
        r@.len() == rows@.len(),
        forall|j: int| 0 <= j < rows@.len() ==> (#[trigger] r@[j]).deep_view() == row_parent(
            rows@[j],
        ),
{
    let mut out: Vec<Option<String>> = Vec::new();
    let mut j: usize = 0;
    while j < rows.len()
        invariant
            j <= rows@.len(),
            out@.len() == j,
            forall|i: int| 0 <= i < j ==> (#[trigger] out@[i]).deep_view() == row_parent(rows@[i]),
        decreases rows@.len() - j,
    {
        out.push(parent_of(rows[j].class.as_str()));
        j = j + 1;
    }
    out
}

/// The indices of the rows whose parent is `pid`, in document order.
fn children_of(rows: &Vec<TableRow>, parents: &Vec<Option<String>>, pid: &str) -> (r: Vec<usize>)
    requires
        parents@.len() == rows@.len(),
        forall|j: int| 0 <= j < rows@.len() ==> (#[trigger] parents@[j]).deep_view() == row_parent(
            rows@[j],
        ),
    ensures
        forall|k: int| 0 <= k < r@.len() ==> r@[k] < rows@.len(),
        r@.map_values(|j: usize| rows@[j as int]) == children_spec(rows@, pid@),
{
    let mut out: Vec<usize> = Vec::new();
    let mut j: usize = 0;
    while j < rows.len()
        invariant
            j <= rows@.len(),
            parents@.len() == rows@.len(),
            forall|i: int| 0 <= i < rows@.len() ==> (#[trigger] parents@[i]).deep_view()
                == row_parent(rows@[i]),
            forall|k: int| 0 <= k < out@.len() ==> out@[k] < j,
            out@.map_values(|i: usize| rows@[i as int]) == children_spec(
                rows@.subrange(0, j as int),
                pid@,
            ),
        decreases rows@.len() - j,
    {
        let ghost prefix = rows@.subrange(0, j as int + 1);
        assert(prefix.drop_last() =~= rows@.subrange(0, j as int));
        assert(prefix.last() == rows@[j as int]);
        let is_child = match &parents[j] {
            Some(p) => p.as_str().unicode_len() == pid.unicode_len() && matches_at(p.as_str(), pid, 0),
            None => false,
        };
        proof {
            if let Some(p) = parents@[j as int] {
                if is_child {
                    assert(p@ =~= pid@) by {
                        assert(p@.subrange(0, pid@.len() as int) =~= p@);
                    }
                } else if p@ == pid@ {
                    assert(p@.subrange(0, pid@.len() as int) =~= p@);
                }
            }
        }
        let ghost before = out@;
        if is_child {
            out.push(j);
            assert(out@.map_values(|i: usize| rows@[i as int]) =~= before.map_values(
                |i: usize| rows@[i as int],
            ).push(rows@[j as int]));
        }
        j = j + 1;
    }
    assert(rows@.subrange(0, rows@.len() as int) =~= rows@);
    out
}

// ---------------------------------------------------------------- cells

pub open spec fn has_text(r: TableRow, k: int) -> bool {
    0 <= k < r.cells@.len() && r.cells@[k].texts@.len() > 0
}

/// The first text node of cell `k`.
pub open spec fn text_at(r: TableRow, k: int) -> Seq<char> {
    r.cells@[k].texts@[0]@
}

pub open spec fn first_text(c: TableCell) -> Option<Seq<char>> {
    if c.texts@.len() > 0 {
        Some(c.texts@[0]@)
    } else {
        None
    }
}

pub open spec fn icon_at(r: TableRow, k: int) -> Option<Seq<char>> {
    r.cells@[k].icon.deep_view()
}

/// No image: no verdict yet; an image: passed exactly where its file is the green one.
pub open spec fn passed_spec(icon: Option<Seq<char>>) -> Option<bool> {
    match icon {
        Some(src) => Some(contains_spec(src, "green.png"@)),
        None => None,
    }
}

/// Credit points are the cell's number, 0 where it holds none.
pub open spec fn credit_points_spec(t: Seq<char>) -> i32 {
    match parse_i32_spec(trim_start_spec(t)) {
        Some(v) => v,
        None => 0,
    }
}

fn has_text_at(r: &TableRow, k: usize) -> (b: bool)
    ensures
        b == has_text(*r, k as int),
{
    k < r.cells.len() && r.cells[k].texts.len() > 0
}

fn text_of(r: &TableRow, k: usize) -> (s: String)
    requires
        has_text(*r, k as int),
    ensures
        s@ == text_at(*r, k as int),
{
    r.cells[k].texts[0].clone()
}

fn first_text_of(c: &TableCell) -> (r: Option<String>)
    ensures
        r.deep_view() == first_text(*c),
{
    if c.texts.len() > 0 {
        Some(c.texts[0].clone())
    } else {
        None
    }
}

/// The tri-state verdict that a status icon gives.
pub fn passed_of(icon: &Option<String>) -> (r: Option<bool>)
    ensures
        r == passed_spec(icon.deep_view()),
{
    match icon {
        Some(src) => Some(contains(src.as_str(), "green.png")),
        None => None,
    }
}

// ---------------------------------------------------------------- grade rows

/// A module row: an id and the cells that a module record reads.
pub open spec fn module_row_ok(r: TableRow) -> bool {
    r.id is Some && r.cells@.len() >= 8 && has_text(r, 0) && has_text(r, 1) && has_text(r, 3)
        && has_text(r, 7)
}

/// An assessment row: the cells that a subgrade reads.
pub open spec fn assessment_row_ok(r: TableRow) -> bool {
    r.cells@.len() >= 8 && has_text(r, 0) && has_text(r, 1) && has_text(r, 4) && has_text(r, 5)
        && has_text(r, 7)
}

pub open spec fn row_id(r: TableRow) -> Seq<char> {
    match r.id {
        Some(id) => id@,
        None => Seq::empty(),
    }
}

pub open spec fn score_metadata_spec(l: Option<LinkAttrs>) -> Option<(Seq<char>, Seq<char>, Seq<char>)> {
    match l {
        Some(a) => match (a.module, a.peryr, a.perid) {
            (Some(m), Some(y), Some(p)) => Some((m@, y@, p@)),
            _ => None,
        },
        None => None,
    }
}

/// The subgrade that an assessment row gives.
pub open spec fn subgrade_spec(r: TableRow) -> SubGradeView {
    SubGradeView {
        name: trim_start_spec(text_at(r, 0)),
        grade: text_at(r, 1),
        passed: passed_spec(icon_at(r, 2)),
        beurteilung: text_at(r, 4),
        bekanntgabe: text_at(r, 5),
        wiederholung: first_text(r.cells@[6]),
        akad_period: text_at(r, 7),
        internal_metadata: score_metadata_spec(r.score_link),
    }
}

/// The record that a module row and its child rows give.
pub open spec fn module_grade_spec(r: TableRow, children: Seq<TableRow>) -> GradeView {
    GradeView {
        name: text_at(r, 0),
        grade: text_at(r, 1),
        total_passed: passed_spec(icon_at(r, 2)),
        credit_points: credit_points_spec(text_at(r, 3)),
        akad_period: text_at(r, 7),
        subgrades: children.map_values(|c: TableRow| subgrade_spec(c)),
    }
}

/// The single-subgrade record, worth no credit points, that a partial exam row gives.
pub open spec fn partial_grade_spec(r: TableRow) -> GradeView {
    let name = trim_spec(text_at(r, 0));
    let passed = passed_spec(icon_at(r, 2));
    GradeView {
        name,
        grade: text_at(r, 1),
        total_passed: passed,
        credit_points: 0,
        akad_period: text_at(r, 7),
        subgrades: seq![
            SubGradeView {
                name,
                grade: text_at(r, 1),
                passed,
                beurteilung: text_at(r, 4),
                bekanntgabe: text_at(r, 5),
                wiederholung: None,
                akad_period: text_at(r, 7),
                internal_metadata: None,
            },
        ],
    }
}

pub open spec fn module_rows(rows: Seq<TableRow>) -> Seq<TableRow> {
    children_spec(rows, "node-0"@)
}

pub open spec fn partial_rows(rows: Seq<TableRow>) -> Seq<TableRow> {
    children_spec(rows, "node-1000"@)
}

/// Every row that a grade record reads has the cells it reads.
pub open spec fn grade_rows_ok(rows: Seq<TableRow>) -> bool {
    &&& forall|i: int|
        0 <= i < module_rows(rows).len() ==> module_row_ok(#[trigger] module_rows(rows)[i])
    &&& forall|i: int, j: int|
        0 <= i < module_rows(rows).len() && 0 <= j < children_spec(
            rows,
            row_id(module_rows(rows)[i]),
        ).len() ==> assessment_row_ok(
            #[trigger] children_spec(rows, row_id(#[trigger] module_rows(rows)[i]))[j],
        )
    &&& forall|i: int|
        0 <= i < partial_rows(rows).len() ==> assessment_row_ok(#[trigger] partial_rows(rows)[i])
}

/// The records in discovery order: module rows, then partial exam rows.
pub open spec fn grade_records_spec(rows: Seq<TableRow>) -> Seq<GradeView> {
    module_rows(rows).map_values(
        |t: TableRow| module_grade_spec(t, children_spec(rows, row_id(t))),
    ) + partial_rows(rows).map_values(|p: TableRow| partial_grade_spec(p))
}

pub open spec fn grade_views(g: Seq<CampusDualGrade>) -> Seq<GradeView> {
    g.map_values(|x: CampusDualGrade| x@)
}

fn module_row_valid(r: &TableRow) -> (b: bool)
    ensures
        b == module_row_ok(*r),
{
    r.id.is_some() && r.cells.len() >= 8 && has_text_at(r, 0) && has_text_at(r, 1) && has_text_at(
        r,
        3,
    ) && has_text_at(r, 7)
}

fn assessment_row_valid(r: &TableRow) -> (b: bool)
    ensures
        b == assessment_row_ok(*r),
{
    r.cells.len() >= 8 && has_text_at(r, 0) && has_text_at(r, 1) && has_text_at(r, 4)
        && has_text_at(r, 5) && has_text_at(r, 7)
}

fn copy_attr(a: &Option<String>) -> (r: Option<String>)
    ensures
        r.deep_view() == a.deep_view(),
{
    match a {
        Some(s) => Some(s.clone()),
        None => None,
    }
}

fn score_metadata(l: &Option<LinkAttrs>) -> (r: Option<SubGradeMetadata>)
    ensures
        match r {
            Some(m) => score_metadata_spec(*l) == Some((m.module@, m.peryr@, m.perid@)),
            None => score_metadata_spec(*l) is None,
        },
{
    match l {
        Some(a) => match (&a.module, &a.peryr, &a.perid) {
            (Some(m), Some(y), Some(p)) => Some(
                SubGradeMetadata { module: m.clone(), peryr: y.clone(), perid: p.clone() },
            ),
            _ => None,
        },
        None => None,
    }
}

fn subgrade_from(r: &TableRow) -> (g: CampusDualSubGrade)
    requires
        assessment_row_ok(*r),
    ensures
        g@ == subgrade_spec(*r),
{
    let name = trim_start(r.cells[0].texts[0].as_str());
    CampusDualSubGrade {
        name,
        grade: text_of(r, 1),
        passed: passed_of(&r.cells[2].icon),
        beurteilung: text_of(r, 4),
        bekanntgabe: text_of(r, 5),
        wiederholung: first_text_of(&r.cells[6]),
        akad_period: text_of(r, 7),
        internal_metadata: score_metadata(&r.score_link),
    }
}

fn module_grade(rows: &Vec<TableRow>, t: usize, kids: &Vec<usize>) -> (g: CampusDualGrade)
    requires
        t < rows@.len(),
        module_row_ok(rows@[t as int]),
        forall|k: int| 0 <= k < kids@.len() ==> kids@[k] < rows@.len(),
        forall|k: int| 0 <= k < kids@.len() ==> assessment_row_ok(#[trigger] rows@[kids@[k] as int]),
    ensures
        g@ == module_grade_spec(rows@[t as int], kids@.map_values(|j: usize| rows@[j as int])),
{
    let r = &rows[t];
    let ghost children = kids@.map_values(|j: usize| rows@[j as int]);
    let mut subgrades: Vec<CampusDualSubGrade> = Vec::new();
    let mut k: usize = 0;
    while k < kids.len()
        invariant
            k <= kids@.len(),
            children == kids@.map_values(|j: usize| rows@[j as int]),
            forall|q: int| 0 <= q < kids@.len() ==> kids@[q] < rows@.len(),
            forall|q: int| 0 <= q < kids@.len() ==> assessment_row_ok(#[trigger] rows@[kids@[q] as int]),
            subgrades@.map_values(|s: CampusDualSubGrade| s@) == children.subrange(0, k as int).map_values(
                |c: TableRow| subgrade_spec(c),
            ),
        decreases kids@.len() - k,
    {
        let sub = subgrade_from(&rows[kids[k]]);
        assert(children[k as int] == rows@[kids@[k as int] as int]);
        let ghost before = subgrades@;
        subgrades.push(sub);
        assert(subgrades@.map_values(|s: CampusDualSubGrade| s@) =~= before.map_values(
            |s: CampusDualSubGrade| s@,
        ).push(sub@));
        assert(children.subrange(0, k as int + 1).map_values(|c: TableRow| subgrade_spec(c))
            =~= children.subrange(0, k as int).map_values(|c: TableRow| subgrade_spec(c)).push(
            subgrade_spec(children[k as int]),
        ));
        assert(subgrades@.map_values(|s: CampusDualSubGrade| s@) =~= children.subrange(
            0,
            k as int + 1,
        ).map_values(|c: TableRow| subgrade_spec(c)));
        k = k + 1;
    }
    assert(children.subrange(0, kids@.len() as int) =~= children);
    let credit_text = trim_start(r.cells[3].texts[0].as_str());
    let credit_points = match parse_i32(credit_text.as_str()) {
        Some(v) => v,
        None => 0,
    };
    CampusDualGrade {
        name: text_of(r, 0),
        grade: text_of(r, 1),
        total_passed: passed_of(&r.cells[2].icon),
        credit_points,
        akad_period: text_of(r, 7),
        subgrades,
    }
}

fn partial_grade(r: &TableRow) -> (g: CampusDualGrade)
    requires
        assessment_row_ok(*r),
    ensures
        g@ == partial_grade_spec(*r),
{
    let name = trim(r.cells[0].texts[0].as_str());
    let passed = passed_of(&r.cells[2].icon);
    let sub = CampusDualSubGrade {
        name: name.clone(),
        grade: text_of(r, 1),
        passed,
        beurteilung: text_of(r, 4),
        bekanntgabe: text_of(r, 5),
        wiederholung: None,
        akad_period: text_of(r, 7),
        internal_metadata: None,
    };
    let subgrades = vec![sub];
    let g = CampusDualGrade {
        name,
        grade: text_of(r, 1),
        total_passed: passed,
        credit_points: 0,
        akad_period: text_of(r, 7),
        subgrades,
    };
    assert(g@.subgrades =~= partial_grade_spec(*r).subgrades);
    g
}

// ---------------------------------------------------------------- ordering

/// The calendar date that `s` spells in the strftime `format`, as year, month and day.
pub uninterp spec fn calendar_date_of(s: Seq<char>, format: Seq<char>) -> Option<(i32, u32, u32)>;

/// Relies on chrono's `NaiveDate::parse_from_str`, and `Datelike`'s `year`, `month` and `day`:
/// the date that `s` spells in `format`, `None` where it spells none.
#[verifier::external_body]
fn parse_calendar_date(s: &str, format: &str) -> (r: Option<(i32, u32, u32)>)
    ensures
        r == calendar_date_of(s@, format@),
{
    chrono::NaiveDate::parse_from_str(s, format).ok().map(
        |d| (chrono::Datelike::year(&d), chrono::Datelike::month(&d), chrono::Datelike::day(&d)),
    )
}

/// Below the key of every date.
pub open spec fn no_date() -> int {
    i64::MIN as int
}

/// A key that orders `day.month.year` dates as the calendar does; [`no_date`] where `s` is none.
pub open spec fn date_key(s: Seq<char>) -> int {
    match calendar_date_of(s, "%d.%m.%Y"@) {
        Some((y, m, d)) => y as int * 372 + m as int * 31 + d as int,
        None => no_date(),
    }
}

/// The key of the most recently announced subgrade.
pub open spec fn newest_key(subs: Seq<SubGradeView>) -> int
    decreases subs.len(),
{
    if subs.len() == 0 {
        no_date()
    } else {
        let a = newest_key(subs.drop_last());
        let b = date_key(subs.last().bekanntgabe);
        if a >= b {
            a
        } else {
            b
        }
    }
}

fn date_key_of(s: &str) -> (k: i64)
    ensures
        k as int == date_key(s@),
{
    match parse_calendar_date(s, "%d.%m.%Y") {
        Some((y, m, d)) => y as i64 * 372 + m as i64 * 31 + d as i64,
        None => i64::MIN,
    }
}

/// Record `a` comes before record `b`: newer, or as new and found earlier.
pub open spec fn ranked_before(keys: Seq<int>, a: int, b: int) -> bool {
    keys[a] > keys[b] || (keys[a] == keys[b] && a < b)
}

/// `order` lists the indices of `keys` newest first, ties in discovery order.
pub open spec fn is_rank_order(keys: Seq<int>, order: Seq<usize>) -> bool {
    &&& order.len() == keys.len()
    &&& forall|k: int| 0 <= k < order.len() ==> order[k] < keys.len()
    &&& forall|i: usize| i < keys.len() ==> #[trigger] order.contains(i)
    &&& forall|k1: int, k2: int|
        0 <= k1 < k2 < order.len() ==> ranked_before(keys, #[trigger] order[k1] as int, #[trigger] order[k2] as int)
}

proof fn lemma_rank_prefix(keys: Seq<int>, o1: Seq<usize>, o2: Seq<usize>, k: int)
    requires
        is_rank_order(keys, o1),
        is_rank_order(keys, o2),
        0 <= k < o1.len(),
    ensures
        forall|m: int| 0 <= m <= k ==> o1[m] == o2[m],
    decreases k,
{
    if k > 0 {
        lemma_rank_prefix(keys, o1, o2, k - 1);
    }
    let a = o1[k];
    let b = o2[k];
    if a != b {
        assert(o2.contains(a));
        let m = choose|m: int| 0 <= m < o2.len() && o2[m] == a;
        assert(o1.contains(b));
        let m2 = choose|m2: int| 0 <= m2 < o1.len() && o1[m2] == b;
        if m < k {
            assert(o1[m] == a);
            assert(ranked_before(keys, o1[m] as int, o1[k] as int));
        }
        if m2 < k {
            assert(o2[m2] == b);
            assert(ranked_before(keys, o2[m2] as int, o2[k] as int));
        }
        if m > k && m2 > k {
            assert(ranked_before(keys, o2[k] as int, o2[m] as int));
            assert(ranked_before(keys, o1[k] as int, o1[m2] as int));
        }
    }
}

/// There is one rank order of given keys.
pub proof fn lemma_rank_order_unique(keys: Seq<int>, o1: Seq<usize>, o2: Seq<usize>)
    requires
        is_rank_order(keys, o1),
        is_rank_order(keys, o2),
    ensures
        o1 == o2,
{
    if o1.len() > 0 {
        lemma_rank_prefix(keys, o1, o2, o1.len() - 1);
    }
    assert(o1 =~= o2);
}

pub open spec fn int_keys(keys: Seq<i64>) -> Seq<int> {
    keys.map_values(|k: i64| k as int)
}

/// The indices of `keys`, largest key first, equal keys in index order.
pub fn rank_order(keys: &Vec<i64>) -> (order: Vec<usize>)
    ensures
        is_rank_order(int_keys(keys@), order@),
{
    let ghost ks = int_keys(keys@);
    let mut order: Vec<usize> = Vec::new();
    let mut i: usize = 0;
    while i < keys.len()
        invariant
            ks == int_keys(keys@),
            i <= keys@.len(),
            order@.len() == i,
            forall|k: int| 0 <= k < order@.len() ==> order@[k] < i,
            forall|j: usize| j < i ==> #[trigger] order@.contains(j),
            forall|k1: int, k2: int|
                0 <= k1 < k2 < order@.len() ==> ranked_before(ks, #[trigger] order@[k1] as int, #[trigger] order@[k2] as int),
        decreases keys@.len() - i,
    {
        let mut p: usize = 0;
        while p < order.len() && keys[order[p]] >= keys[i]
            invariant
                ks == int_keys(keys@),
                i < keys@.len(),
                order@.len() == i,
                p <= order@.len(),
                forall|k: int| 0 <= k < order@.len() ==> order@[k] < i,
                forall|q: int| 0 <= q < p ==> ks[order@[q] as int] >= ks[i as int],
            decreases order@.len() - p,
        {
            p = p + 1;
        }
        let ghost old_order = order@;
        proof {
            assert forall|q: int| p <= q < old_order.len() implies ks[old_order[q] as int] < ks[i as int] by {
                if q > p {
                    assert(ranked_before(ks, old_order[p as int] as int, old_order[q] as int));
                }
            }
        }
        order.insert(p, i);
        proof {
            assert forall|j: usize| j < i + 1 implies #[trigger] order@.contains(j) by {
                if j == i {
                    assert(order@[p as int] == i);
                } else {
                    assert(old_order.contains(j));
                    let k = choose|k: int| 0 <= k < old_order.len() && old_order[k] == j;
                    if k < p {
                        assert(order@[k] == j);
                    } else {
                        assert(order@[k + 1] == j);
                    }
                }
            }
            assert forall|k1: int, k2: int|
                0 <= k1 < k2 < order@.len() implies ranked_before(ks, #[trigger] order@[k1] as int, #[trigger] order@[k2] as int) by {
                if k2 < p {
                    assert(order@[k1] == old_order[k1] && order@[k2] == old_order[k2]);
                } else if k2 == p {
                    assert(order@[k1] == old_order[k1]);
                } else if k1 < p {
                    assert(order@[k1] == old_order[k1] && order@[k2] == old_order[k2 - 1]);
                    assert(ranked_before(ks, old_order[k1] as int, old_order[k2 - 1] as int));
                } else if k1 == p {
                    assert(order@[k2] == old_order[k2 - 1]);
                } else {
                    assert(order@[k1] == old_order[k1 - 1] && order@[k2] == old_order[k2 - 1]);
                    assert(ranked_before(ks, old_order[k1 - 1] as int, old_order[k2 - 1] as int));
                }
            }
        }
        i = i + 1;
    }
    order
}

// ---------------------------------------------------------------- grades

pub open spec fn record_keys(records: Seq<GradeView>) -> Seq<int> {
    records.map_values(|g: GradeView| newest_key(g.subgrades))
}

/// `out` is `records` newest first, by each record's most recent announcement; records
/// announced on the same day keep their discovery order, and those with no date come last.
pub open spec fn is_newest_first(out: Seq<GradeView>, records: Seq<GradeView>) -> bool {
    exists|order: Seq<usize>|
        is_rank_order(record_keys(records), order) && out == order.map_values(
            |i: usize| records[i as int],
        )
}

pub open spec fn rows_at(rows: Seq<TableRow>, idx: Seq<usize>) -> Seq<TableRow> {
    idx.map_values(|j: usize| rows[j as int])
}

/// The key of the newest child among `kids`, each of which is an assessment row.
fn newest_child_key(rows: &Vec<TableRow>, kids: &Vec<usize>) -> (k: i64)
    requires
        forall|q: int| 0 <= q < kids@.len() ==> kids@[q] < rows@.len(),
        forall|q: int| 0 <= q < kids@.len() ==> assessment_row_ok(#[trigger] rows@[kids@[q] as int]),
    ensures
        k as int == newest_key(rows_at(rows@, kids@).map_values(|c: TableRow| subgrade_spec(c))),
{
    let ghost subs = rows_at(rows@, kids@).map_values(|c: TableRow| subgrade_spec(c));
    let mut acc: i64 = i64::MIN;
    let mut q: usize = 0;
    while q < kids.len()
        invariant
            q <= kids@.len(),
            subs == rows_at(rows@, kids@).map_values(|c: TableRow| subgrade_spec(c)),
            forall|t: int| 0 <= t < kids@.len() ==> kids@[t] < rows@.len(),
            forall|t: int| 0 <= t < kids@.len() ==> assessment_row_ok(#[trigger] rows@[kids@[t] as int]),
            acc as int == newest_key(subs.subrange(0, q as int)),
        decreases kids@.len() - q,
    {
        let r = &rows[kids[q]];
        let b = date_key_of(r.cells[5].texts[0].as_str());
        assert(subs.subrange(0, q as int + 1).drop_last() =~= subs.subrange(0, q as int));
        assert(subs[q as int].bekanntgabe == text_at(rows@[kids@[q as int] as int], 5));
        if b > acc {
            acc = b;
        }
        q = q + 1;
    }
    assert(subs.subrange(0, kids@.len() as int) =~= subs);
    acc
}

/// Whether every row that `ks` points at is an assessment row.
fn all_assessment_rows(rows: &Vec<TableRow>, ks: &Vec<usize>) -> (b: bool)
    requires
        forall|q: int| 0 <= q < ks@.len() ==> ks@[q] < rows@.len(),
    ensures
        b == (forall|q: int| 0 <= q < ks@.len() ==> assessment_row_ok(#[trigger] rows@[ks@[q] as int])),
{
    let mut q: usize = 0;
    while q < ks.len()
        invariant
            q <= ks@.len(),
            forall|w: int| 0 <= w < ks@.len() ==> ks@[w] < rows@.len(),
            forall|w: int| 0 <= w < q ==> assessment_row_ok(#[trigger] rows@[ks@[w] as int]),
        decreases ks@.len() - q,
    {
        if !assessment_row_valid(&rows[ks[q]]) {
            return false;
        }
        q = q + 1;
    }
    true
}

/// A module row `t` whose children are the rows that `ks` points at, all well-formed.
spec fn module_entry_ok(rows: Seq<TableRow>, t: TableRow, ks: Seq<usize>) -> bool {
    &&& module_row_ok(t)
    &&& rows_at(rows, ks) == children_spec(rows, row_id(t))
    &&& forall|q: int| 0 <= q < ks.len() ==> ks[q] < rows.len()
    &&& forall|q: int| 0 <= q < ks.len() ==> assessment_row_ok(#[trigger] rows[ks[q] as int])
}

/// The module row `t` and all its children have the cells that the records read.
spec fn module_tree_ok(rows: Seq<TableRow>, t: TableRow) -> bool {
    module_row_ok(t) && forall|j: int|
        0 <= j < children_spec(rows, row_id(t)).len() ==> assessment_row_ok(
            #[trigger] children_spec(rows, row_id(t))[j],
        )
}

/// For each module row: its child rows and its key; `None` where a row lacks a cell.
fn module_kids_and_keys(rows: &Vec<TableRow>, parents: &Vec<Option<String>>, tops: &Vec<usize>) -> (r:
    Option<(Vec<Vec<usize>>, Vec<i64>)>)
    requires
        parents@.len() == rows@.len(),
        forall|j: int| 0 <= j < rows@.len() ==> (#[trigger] parents@[j]).deep_view() == row_parent(
            rows@[j],
        ),
        forall|k: int| 0 <= k < tops@.len() ==> tops@[k] < rows@.len(),
    ensures
        r is None ==> exists|i: int|
            0 <= i < tops@.len() && !module_tree_ok(rows@, #[trigger] rows@[tops@[i] as int]),
        r matches Some((kids, keys)) ==> {
            &&& kids@.len() == tops@.len() && keys@.len() == tops@.len()
            &&& forall|i: int|
                0 <= i < tops@.len() ==> module_entry_ok(rows@, rows@[tops@[i] as int], (#[trigger] kids@[i])@)
            &&& forall|i: int|
                0 <= i < tops@.len() ==> (#[trigger] keys@[i]) as int == newest_key(
                    module_grade_spec(rows@[tops@[i] as int], children_spec(rows@, row_id(rows@[tops@[i] as int]))).subgrades,
                )
        },
{
    let mut kids: Vec<Vec<usize>> = Vec::new();
    let mut keys: Vec<i64> = Vec::new();
    let mut i: usize = 0;
    while i < tops.len()
        invariant
            parents@.len() == rows@.len(),
            forall|j: int| 0 <= j < rows@.len() ==> (#[trigger] parents@[j]).deep_view()
                == row_parent(rows@[j]),
            forall|k: int| 0 <= k < tops@.len() ==> tops@[k] < rows@.len(),
            i <= tops@.len(),
            kids@.len() == i && keys@.len() == i,
            forall|i2: int|
                0 <= i2 < i ==> module_entry_ok(rows@, rows@[tops@[i2] as int], (#[trigger] kids@[i2])@),
            forall|i2: int|
                0 <= i2 < i ==> (#[trigger] keys@[i2]) as int == newest_key(
                    module_grade_spec(rows@[tops@[i2] as int], children_spec(rows@, row_id(rows@[tops@[i2] as int]))).subgrades,
                ),
        decreases tops@.len() - i,
    {
        let r = &rows[tops[i]];
        let ghost t = rows@[tops@[i as int] as int];
        if !module_row_valid(r) {
            assert(!module_tree_ok(rows@, t));
            return None;
        }
        let ks = match &r.id {
            Some(id) => children_of(rows, parents, id.as_str()),
            None => Vec::new(),
        };
        let ghost children = children_spec(rows@, row_id(t));
        if !all_assessment_rows(rows, &ks) {
            proof {
                let q = choose|q: int| 0 <= q < ks@.len() && !assessment_row_ok(#[trigger] rows@[ks@[q] as int]);
                assert(children[q] == rows@[ks@[q] as int]);
                assert(!module_tree_ok(rows@, t));
            }
            return None;
        }
        let key = newest_child_key(rows, &ks);
        assert(module_grade_spec(t, children).subgrades == rows_at(rows@, ks@).map_values(
            |c: TableRow| subgrade_spec(c),
        ));
        kids.push(ks);
        keys.push(key);
        assert(module_entry_ok(rows@, t, kids@[i as int]@));
        i = i + 1;
    }
    Some((kids, keys))
}

/// For each partial exam row, its key; `None` where a row lacks a cell.
fn partial_keys(rows: &Vec<TableRow>, partials: &Vec<usize>) -> (r: Option<Vec<i64>>)
    requires
        forall|k: int| 0 <= k < partials@.len() ==> partials@[k] < rows@.len(),
    ensures
        r is None ==> exists|i: int|
            0 <= i < partials@.len() && !assessment_row_ok(#[trigger] rows@[partials@[i] as int]),
        r matches Some(keys) ==> keys@.len() == partials@.len() && forall|i: int|
            0 <= i < partials@.len() ==> assessment_row_ok(#[trigger] rows@[partials@[i] as int])
                && keys@[i] as int == newest_key(partial_grade_spec(rows@[partials@[i] as int]).subgrades),
{
    let mut keys: Vec<i64> = Vec::new();
    let mut i: usize = 0;
    while i < partials.len()
        invariant
            forall|k: int| 0 <= k < partials@.len() ==> partials@[k] < rows@.len(),
            i <= partials@.len(),
            keys@.len() == i,
            forall|i2: int|
                0 <= i2 < i ==> assessment_row_ok(#[trigger] rows@[partials@[i2] as int]) && keys@[i2] as int
                    == newest_key(partial_grade_spec(rows@[partials@[i2] as int]).subgrades),
        decreases partials@.len() - i,
    {
        let r = &rows[partials[i]];
        if !assessment_row_valid(r) {
            return None;
        }
        let key = date_key_of(r.cells[5].texts[0].as_str());
        let ghost subs = partial_grade_spec(*r).subgrades;
        assert(subs.drop_last() =~= Seq::<SubGradeView>::empty());
        assert(newest_key(subs.drop_last()) == no_date());
        keys.push(key);
        i = i + 1;
    }
    Some(keys)
}

/// Where each record of a table comes from: module rows `tops` with children `kids`,
/// then partial exam rows `partials`.
spec fn layout_ok(rows: Seq<TableRow>, tops: Seq<usize>, partials: Seq<usize>, kids: Seq<Vec<usize>>) -> bool {
    &&& rows_at(rows, tops) == module_rows(rows)
    &&& rows_at(rows, partials) == partial_rows(rows)
    &&& forall|k: int| 0 <= k < tops.len() ==> tops[k] < rows.len()
    &&& forall|k: int| 0 <= k < partials.len() ==> partials[k] < rows.len()
    &&& kids.len() == tops.len()
    &&& forall|i: int| 0 <= i < tops.len() ==> module_entry_ok(rows, rows[tops[i] as int], (#[trigger] kids[i])@)
    &&& forall|i: int| 0 <= i < partials.len() ==> assessment_row_ok(#[trigger] rows[partials[i] as int])
}

/// Record `idx` in discovery order.
fn build_record(rows: &Vec<TableRow>, tops: &Vec<usize>, partials: &Vec<usize>, kids: &Vec<Vec<usize>>, idx: usize) -> (g: CampusDualGrade)
    requires
        layout_ok(rows@, tops@, partials@, kids@),
        idx < tops@.len() + partials@.len(),
    ensures
        g@ == grade_records_spec(rows@)[idx as int],
{
    let ghost records = grade_records_spec(rows@);
    let ghost mods = module_rows(rows@);
    let ntop = tops.len();
    if idx < ntop {
        assert(mods[idx as int] == rows@[tops@[idx as int] as int]);
        assert(module_entry_ok(rows@, rows@[tops@[idx as int] as int], kids@[idx as int]@));
        assert(records[idx as int] == module_grade_spec(mods[idx as int], children_spec(rows@, row_id(mods[idx as int]))));
        module_grade(rows, tops[idx], &kids[idx])
    } else {
        let w = idx - ntop;
        assert(partial_rows(rows@)[w as int] == rows@[partials@[w as int] as int]);
        assert(records[idx as int] == partial_grade_spec(partial_rows(rows@)[w as int]));
        assert(assessment_row_ok(rows@[partials@[w as int] as int]));
        partial_grade(&rows[partials[w]])
    }
}

/// Extraction is a function of the table: any two results that the contract of
/// [`grades_from_rows`] admits for the same rows hold the same records in the same order.
pub proof fn lemma_grades_deterministic(rows: Seq<TableRow>, out1: Seq<GradeView>, out2: Seq<GradeView>)
    requires
        is_newest_first(out1, grade_records_spec(rows)),
        is_newest_first(out2, grade_records_spec(rows)),
    ensures
        out1 == out2,
{
    let records = grade_records_spec(rows);
    let o1 = choose|order: Seq<usize>|
        is_rank_order(record_keys(records), order) && out1 == order.map_values(
            |i: usize| records[i as int],
        );
    let o2 = choose|order: Seq<usize>|
        is_rank_order(record_keys(records), order) && out2 == order.map_values(
            |i: usize| records[i as int],
        );
    lemma_rank_order_unique(record_keys(records), o1, o2);
}

/// The grade records of a result table, newest first.
pub fn grades_from_rows(rows: &Vec<TableRow>) -> (r: Result<Vec<CampusDualGrade>, ExtractionError>)
    ensures
        r is Err <==> !grade_rows_ok(rows@),
        r matches Err(e) ==> e == ExtractionError::RowShapeMismatch,
        r matches Ok(g) ==> is_newest_first(grade_views(g@), grade_records_spec(rows@)),
{
    let parents = parent_table(rows);
    let tops = children_of(rows, &parents, "node-0");
    let partials = children_of(rows, &parents, "node-1000");
    let ghost mods = module_rows(rows@);
    let ghost parts = partial_rows(rows@);
    let ghost records = grade_records_spec(rows@);
    assert(forall|i: int| 0 <= i < tops@.len() ==> mods[i] == rows@[#[trigger] tops@[i] as int]);
    assert(forall|i: int| 0 <= i < partials@.len() ==> parts[i] == rows@[#[trigger] partials@[i] as int]);
    let (kids, mut keys) = match module_kids_and_keys(rows, &parents, &tops) {
        Some(x) => x,
        None => {
            proof {
                let i = choose|i: int|
                    0 <= i < tops@.len() && !module_tree_ok(rows@, #[trigger] rows@[tops@[i] as int]);
                assert(mods[i] == rows@[tops@[i] as int]);
                if module_row_ok(mods[i]) {
                    let j = choose|j: int|
                        0 <= j < children_spec(rows@, row_id(mods[i])).len() && !assessment_row_ok(
                            #[trigger] children_spec(rows@, row_id(mods[i]))[j],
                        );
                    assert(!assessment_row_ok(children_spec(rows@, row_id(mods[i]))[j]));
                }
            }
            return Err(ExtractionError::RowShapeMismatch);
        },
    };
    let pkeys = match partial_keys(rows, &partials) {
        Some(x) => x,
        None => {
            proof {
                let i = choose|i: int|
                    0 <= i < partials@.len() && !assessment_row_ok(#[trigger] rows@[partials@[i] as int]);
                assert(parts[i] == rows@[partials@[i] as int]);
            }
            return Err(ExtractionError::RowShapeMismatch);
        },
    };
    let ntop = tops.len();
    proof {
        assert(layout_ok(rows@, tops@, partials@, kids@));
        assert forall|i: int| 0 <= i < mods.len() implies module_tree_ok(rows@, #[trigger] mods[i]) by {
            assert(mods[i] == rows@[tops@[i] as int]);
            assert(module_entry_ok(rows@, rows@[tops@[i] as int], kids@[i]@));
            let ks = kids@[i]@;
            assert forall|j: int| 0 <= j < children_spec(rows@, row_id(mods[i])).len() implies assessment_row_ok(
                #[trigger] children_spec(rows@, row_id(mods[i]))[j]) by {
                assert(children_spec(rows@, row_id(mods[i]))[j] == rows@[ks[j] as int]);
            }
        }
        assert(grade_rows_ok(rows@));
        assert forall|i: int| 0 <= i < ntop implies (#[trigger] int_keys(keys@)[i]) == record_keys(records)[i] by {
            assert(records[i] == module_grade_spec(mods[i], children_spec(rows@, row_id(mods[i]))));
        }
        assert forall|w: int| 0 <= w < pkeys@.len() implies (#[trigger] pkeys@[w]) as int == record_keys(records)[ntop + w] by {
            assert(records[ntop + w] == partial_grade_spec(parts[w]));
        }
    }
    let mut w: usize = 0;
    while w < pkeys.len()
        invariant
            ntop == tops@.len(),
            records == grade_records_spec(rows@),
            records.len() == ntop + pkeys@.len(),
            w <= pkeys@.len(),
            keys@.len() == ntop + w,
            forall|i: int| 0 <= i < ntop + w ==> (#[trigger] int_keys(keys@)[i]) == record_keys(records)[i],
            forall|w2: int| 0 <= w2 < pkeys@.len() ==> (#[trigger] pkeys@[w2]) as int == record_keys(records)[ntop + w2],
        decreases pkeys@.len() - w,
    {
        let ghost prev = keys@;
        keys.push(pkeys[w]);
        assert forall|i: int| 0 <= i < ntop + w + 1 implies (#[trigger] int_keys(keys@)[i]) == record_keys(records)[i] by {
            if i < ntop + w {
                assert(keys@[i] == prev[i]);
                assert(int_keys(prev)[i] == record_keys(records)[i]);
            } else {
                assert(keys@[i] == pkeys@[w as int]);
            }
        }
        w = w + 1;
    }
    assert(int_keys(keys@) =~= record_keys(records));
    let order = rank_order(&keys);
    let mut out: Vec<CampusDualGrade> = Vec::new();
    let mut k: usize = 0;
    while k < order.len()
        invariant
            k <= order@.len(),
            records == grade_records_spec(rows@),
            records.len() == tops@.len() + partials@.len(),
            layout_ok(rows@, tops@, partials@, kids@),
            is_rank_order(record_keys(records), order@),
            grade_views(out@) == order@.subrange(0, k as int).map_values(|i: usize| records[i as int]),
        decreases order@.len() - k,
    {
        let g = build_record(rows, &tops, &partials, &kids, order[k]);
        let ghost before = out@;
        out.push(g);
        assert(grade_views(out@) =~= grade_views(before).push(g@));
        assert(order@.subrange(0, k as int + 1).map_values(|i: usize| records[i as int])
            =~= order@.subrange(0, k as int).map_values(|i: usize| records[i as int]).push(
            records[order@[k as int] as int],
        ));
        assert(grade_views(out@) =~= order@.subrange(0, k as int + 1).map_values(
            |i: usize| records[i as int],
        ));
        k = k + 1;
    }
    assert(order@.subrange(0, order@.len() as int) =~= order@);
    Ok(out)
}

// ---------------------------------------------------------------- exam options

/// The two exam listings; they differ in how the status text ends and in the deadline wording.
#[derive(Clone, Copy, Debug, PartialEq, Eq, Structural)]
pub enum ExamListing {
    Signup,
    Deregistration,
}

/// What the record holds in place of a status text where the main line has no text at all.
pub open spec fn not_extracted_text() -> Seq<char> {
    "data could not be extracted"@
}

/// The status that the main line's icon stands for.
pub open spec fn status_spec(icon: Option<Seq<char>>) -> Seq<char> {
    match icon {
        Some(src) => if src == "/images/missed.png"@ {
            "🚫"@
        } else if src == "/images/yellow.png"@ {
            "📝"@
        } else if src == "/images/exclamation.jpg"@ {
            "⚠️"@
        } else {
            "⁉️"@
        },
        None => "⁉️"@,
    }
}

/// The status text: the first text node without leading white space, cut before the exam date.
pub open spec fn information_spec(first: Seq<char>, listing: ExamListing) -> Seq<char> {
    let t = trim_start_spec(first);
    match listing {
        ExamListing::Signup => match strip_suffix_spec(t, ", Prüfungstermin: "@) {
            Some(x) => x,
            None => t,
        },
        ExamListing::Deregistration => match find_from(t, "Prüfungstermin"@, 0) {
            Some(i) => replace_all_spec(t.subrange(0, i), ", "@, ""@),
            None => t,
        },
    }
}

/// The room text without its leading separator.
pub open spec fn room_spec(t: Seq<char>) -> Seq<char> {
    match strip_prefix_spec(t, ", "@) {
        Some(x) => x,
        None => t,
    }
}

/// The text nodes of a row, joined.
pub open spec fn joined_spec(texts: Seq<String>) -> Seq<char>
    decreases texts.len(),
{
    if texts.len() == 0 {
        Seq::empty()
    } else {
        joined_spec(texts.drop_last()) + texts.last()@
    }
}

/// The warning line: its text, without leading white space and the portal's empty-time filler.
pub open spec fn warning_spec(line: TableRow) -> Seq<char> {
    replace_all_spec(trim_start_spec(joined_spec(line.texts@)), "   :  "@, ""@)
}

/// What capture group `group` of the first match of regex `pattern` in `text` holds.
pub uninterp spec fn regex_capture_of(pattern: Seq<char>, text: Seq<char>, group: int) -> Option<Seq<char>>;

/// Relies on regex's `Regex::new`, `Regex::captures` and `Captures::get`: group `group` of the
/// leftmost-first match of `pattern` in `text`; `None` where the pattern is invalid, nothing
/// matches, or the group took no part in the match.
#[verifier::external_body]
pub(crate) fn regex_capture(pattern: &str, text: &str, group: usize) -> (r: Option<String>)
    ensures
        r.deep_view() == regex_capture_of(pattern@, text@, group as int),
{
    let re = regex::Regex::new(pattern).ok()?;
    re.captures(text)?.get(group).map(|m| m.as_str().to_string())
}

pub open spec fn deadline_pattern(listing: ExamListing) -> Seq<char> {
    match listing {
        ExamListing::Signup => "bis (\\d{2}\\.\\d{2}\\.\\d{4})"@,
        ExamListing::Deregistration => "bis zum (\\d{2}\\.\\d{2}\\.\\d{4})"@,
    }
}

pub open spec fn booking_metadata_spec(l: Option<LinkAttrs>) -> Option<(Seq<char>, Seq<char>, Seq<char>, Seq<char>)> {
    match l {
        Some(a) => match (a.assessment, a.peryr, a.perid, a.offerno) {
            (Some(x), Some(y), Some(p), Some(o)) => Some((x@, y@, p@, o@)),
            _ => None,
        },
        None => None,
    }
}

pub open spec fn text_node(texts: Seq<String>, k: int) -> Option<Seq<char>> {
    if k < texts.len() {
        Some(texts[k]@)
    } else {
        None
    }
}

/// A listing row: the cells that an exam option reads, and at least one child line.
pub open spec fn exam_row_ok(rows: Seq<TableRow>, t: TableRow) -> bool {
    t.id is Some && t.cells@.len() >= 3 && has_text(t, 0) && has_text(t, 1) && has_text(t, 2)
        && children_spec(rows, row_id(t)).len() > 0
}

/// The option that listing row `t` gives. Its first child line holds the status icon and the
/// texts (status text, date, a separator, time, room); a second child line, if any, the warning.
pub open spec fn exam_option_spec(rows: Seq<TableRow>, t: TableRow, listing: ExamListing) -> ExamOptionView {
    let lines = children_spec(rows, row_id(t));
    let main = lines[0];
    let texts = main.texts@;
    let status = status_spec(main.icon.deep_view());
    if texts.len() == 0 {
        ExamOptionView {
            name: text_at(t, 0),
            verfahren: text_at(t, 1),
            pruefart: text_at(t, 2),
            status,
            signup_information: not_extracted_text(),
            exam_date: None,
            exam_time: None,
            exam_room: None,
            warning_message: None,
            deadline: None,
            internal_metadata: None,
        }
    } else {
        let warning = if lines.len() > 1 {
            Some(warning_spec(lines[1]))
        } else {
            None
        };
        ExamOptionView {
            name: text_at(t, 0),
            verfahren: text_at(t, 1),
            pruefart: text_at(t, 2),
            status,
            signup_information: information_spec(texts[0]@, listing),
            exam_date: text_node(texts, 1),
            exam_time: text_node(texts, 3),
            exam_room: match text_node(texts, 4) {
                Some(r) => Some(room_spec(r)),
                None => None,
            },
            warning_message: warning,
            deadline: match warning {
                Some(w) => regex_capture_of(deadline_pattern(listing), w, 1),
                None => None,
            },
            internal_metadata: booking_metadata_spec(main.booking_link),
        }
    }
}

/// Whether two strings hold the same characters.
fn same_text(a: &str, b: &str) -> (r: bool)
    ensures
        r == (a@ == b@),
{
    if a.unicode_len() != b.unicode_len() {
        return false;
    }
    let r = matches_at(a, b, 0);
    assert(a@.subrange(0, b@.len() as int) =~= a@);
    r
}

fn status_of(icon: &Option<String>) -> (r: String)
    ensures
        r@ == status_spec(icon.deep_view()),
{
    let unknown = "⁉️";
    let s = match icon {
        Some(src) => if same_text(src.as_str(), "/images/missed.png") {
            "🚫"
        } else if same_text(src.as_str(), "/images/yellow.png") {
            "📝"
        } else if same_text(src.as_str(), "/images/exclamation.jpg") {
            "⚠️"
        } else {
            unknown
        },
        None => unknown,
    };
    s.to_owned()
}

fn information_of(first: &str, listing: ExamListing) -> (r: String)
    ensures
        r@ == information_spec(first@, listing),
{
    let t = trim_start(first);
    match listing {
        ExamListing::Signup => match strip_suffix(t.as_str(), ", Prüfungstermin: ") {
            Some(x) => x,
            None => t,
        },
        ExamListing::Deregistration => match find(t.as_str(), "Prüfungstermin") {
            Some(i) => {
                let head = substring(t.as_str(), 0, i);
                replace_all(head.as_str(), ", ", "")
            },
            None => t,
        },
    }
}

fn joined(texts: &Vec<String>) -> (r: String)
    ensures
        r@ == joined_spec(texts@),
{
    let mut out = String::new();
    let mut k: usize = 0;
    while k < texts.len()
        invariant
            k <= texts@.len(),
            out@ == joined_spec(texts@.subrange(0, k as int)),
        decreases texts@.len() - k,
    {
        assert(texts@.subrange(0, k as int + 1).drop_last() =~= texts@.subrange(0, k as int));
        out.append(texts[k].as_str());
        k = k + 1;
    }
    assert(texts@.subrange(0, texts@.len() as int) =~= texts@);
    out
}

fn booking_metadata(l: &Option<LinkAttrs>) -> (r: Option<ExamRegistrationMetadata>)
    ensures
        crate::types::registration_view(r) == booking_metadata_spec(*l),
{
    match l {
        Some(a) => match (&a.assessment, &a.peryr, &a.perid, &a.offerno) {
            (Some(x), Some(y), Some(p), Some(o)) => Some(
                ExamRegistrationMetadata {
                    assessment: x.clone(),
                    peryr: y.clone(),
                    perid: p.clone(),
                    offerno: o.clone(),
                },
            ),
            _ => None,
        },
        None => None,
    }
}

fn text_node_of(texts: &Vec<String>, k: usize) -> (r: Option<String>)
    ensures
        r.deep_view() == text_node(texts@, k as int),
{
    if k < texts.len() {
        Some(texts[k].clone())
    } else {
        None
    }
}

/// The fields of one exam option, shared by both listings.
struct ExamFields {
    name: String,
    verfahren: String,
    pruefart: String,
    status: String,
    signup_information: String,
    exam_date: Option<String>,
    exam_time: Option<String>,
    exam_room: Option<String>,
    warning_message: Option<String>,
    deadline: Option<String>,
    internal_metadata: Option<ExamRegistrationMetadata>,
}

impl View for ExamFields {
    type V = ExamOptionView;

    closed spec fn view(&self) -> ExamOptionView {
        ExamOptionView {
            name: self.name@,
            verfahren: self.verfahren@,
            pruefart: self.pruefart@,
            status: self.status@,
            signup_information: self.signup_information@,
            exam_date: self.exam_date.deep_view(),
            exam_time: self.exam_time.deep_view(),
            exam_room: self.exam_room.deep_view(),
            warning_message: self.warning_message.deep_view(),
            deadline: self.deadline.deep_view(),
            internal_metadata: crate::types::registration_view(self.internal_metadata),
        }
    }
}

fn exam_fields(rows: &Vec<TableRow>, t: usize, lines: &Vec<usize>, listing: ExamListing) -> (f: ExamFields)
    requires
        t < rows@.len(),
        exam_row_ok(rows@, rows@[t as int]),
        forall|q: int| 0 <= q < lines@.len() ==> lines@[q] < rows@.len(),
        rows_at(rows@, lines@) == children_spec(rows@, row_id(rows@[t as int])),
    ensures
        f@ == exam_option_spec(rows@, rows@[t as int], listing),
{
    let r = &rows[t];
    let ghost spec_lines = children_spec(rows@, row_id(rows@[t as int]));
    assert(spec_lines[0] == rows@[lines@[0] as int]);
    let main = &rows[lines[0]];
    let status = status_of(&main.icon);
    if main.texts.len() == 0 {
        return ExamFields {
            name: text_of(r, 0),
            verfahren: text_of(r, 1),
            pruefart: text_of(r, 2),
            status,
            signup_information: "data could not be extracted".to_owned(),
            exam_date: None,
            exam_time: None,
            exam_room: None,
            warning_message: None,
            deadline: None,
            internal_metadata: None,
        };
    }
    let warning_message = if lines.len() > 1 {
        assert(spec_lines[1] == rows@[lines@[1] as int]);
        let all = joined(&rows[lines[1]].texts);
        let t2 = trim_start(all.as_str());
        Some(replace_all(t2.as_str(), "   :  ", ""))
    } else {
        None
    };
    let pattern = match listing {
        ExamListing::Signup => "bis (\\d{2}\\.\\d{2}\\.\\d{4})",
        ExamListing::Deregistration => "bis zum (\\d{2}\\.\\d{2}\\.\\d{4})",
    };
    let deadline = match &warning_message {
        Some(w) => regex_capture(pattern, w.as_str(), 1),
        None => None,
    };
    let exam_room = match text_node_of(&main.texts, 4) {
        Some(x) => match strip_prefix(x.as_str(), ", ") {
            Some(y) => Some(y),
            None => Some(x),
        },
        None => None,
    };
    ExamFields {
        name: text_of(r, 0),
        verfahren: text_of(r, 1),
        pruefart: text_of(r, 2),
        status,
        signup_information: information_of(main.texts[0].as_str(), listing),
        exam_date: text_node_of(&main.texts, 1),
        exam_time: text_node_of(&main.texts, 3),
        exam_room,
        warning_message,
        deadline,
        internal_metadata: booking_metadata(&main.booking_link),
    }
}

/// Every listing row has the cells and the child line that its option reads.
pub open spec fn exam_rows_ok(rows: Seq<TableRow>) -> bool {
    forall|i: int| 0 <= i < module_rows(rows).len() ==> exam_row_ok(rows, #[trigger] module_rows(rows)[i])
}

/// The options of a listing, in document order.
pub open spec fn exam_options_spec(rows: Seq<TableRow>, listing: ExamListing) -> Seq<ExamOptionView> {
    module_rows(rows).map_values(|t: TableRow| exam_option_spec(rows, t, listing))
}

fn exam_fields_from_rows(rows: &Vec<TableRow>, listing: ExamListing) -> (r: Result<Vec<ExamFields>, ExtractionError>)
    ensures
        r is Err <==> !exam_rows_ok(rows@),
        r matches Err(e) ==> e == ExtractionError::RowShapeMismatch,
        r matches Ok(v) ==> v@.map_values(|f: ExamFields| f@) == exam_options_spec(rows@, listing),
{
    let parents = parent_table(rows);
    let tops = children_of(rows, &parents, "node-0");
    let ghost mods = module_rows(rows@);
    let ghost options = exam_options_spec(rows@, listing);
    assert(forall|i: int| 0 <= i < tops@.len() ==> mods[i] == rows@[#[trigger] tops@[i] as int]);
    let mut out: Vec<ExamFields> = Vec::new();
    let mut i: usize = 0;
    while i < tops.len()
        invariant
            parents@.len() == rows@.len(),
            forall|j: int| 0 <= j < rows@.len() ==> (#[trigger] parents@[j]).deep_view()
                == row_parent(rows@[j]),
            forall|k: int| 0 <= k < tops@.len() ==> tops@[k] < rows@.len(),
            mods == module_rows(rows@),
            rows_at(rows@, tops@) == mods,
            options == exam_options_spec(rows@, listing),
            i <= tops@.len(),
            forall|i2: int| 0 <= i2 < i ==> exam_row_ok(rows@, #[trigger] mods[i2]),
            out@.map_values(|f: ExamFields| f@) == options.subrange(0, i as int),
        decreases tops@.len() - i,
    {
        let t = tops[i];
        let r = &rows[t];
        assert(mods[i as int] == rows@[t as int]);
        let lines = match &r.id {
            Some(id) => children_of(rows, &parents, id.as_str()),
            None => Vec::new(),
        };
        if !(r.id.is_some() && r.cells.len() >= 3 && has_text_at(r, 0) && has_text_at(r, 1)
            && has_text_at(r, 2) && lines.len() > 0) {
            return Err(ExtractionError::RowShapeMismatch);
        }
        let f = exam_fields(rows, t, &lines, listing);
        let ghost before = out@;
        out.push(f);
        assert(out@.map_values(|f: ExamFields| f@) =~= before.map_values(|f: ExamFields| f@).push(f@));
        assert(options.subrange(0, i as int + 1) =~= options.subrange(0, i as int).push(options[i as int]));
        i = i + 1;
    }
    assert(options.subrange(0, tops@.len() as int) =~= options);
    Ok(out)
}

/// The options of an exam signup listing, in document order.
pub fn signup_options_from_rows(rows: &Vec<TableRow>) -> (r: Result<Vec<CampusDualSignupOption>, ExtractionError>)
    ensures
        r is Err <==> !exam_rows_ok(rows@),
        r matches Err(e) ==> e == ExtractionError::RowShapeMismatch,
        r matches Ok(v) ==> v@.map_values(|o: CampusDualSignupOption| o@) == exam_options_spec(
            rows@,
            ExamListing::Signup,
        ),
{
    let fields = exam_fields_from_rows(rows, ExamListing::Signup)?;
    let ghost expected = exam_options_spec(rows@, ExamListing::Signup);
    let mut out: Vec<CampusDualSignupOption> = Vec::new();
    let mut k: usize = 0;
    while k < fields.len()
        invariant
            k <= fields@.len(),
            fields@.map_values(|f: ExamFields| f@) == expected,
            out@.map_values(|o: CampusDualSignupOption| o@) == expected.subrange(0, k as int),
        decreases fields@.len() - k,
    {
        let f = &fields[k];
        let o = CampusDualSignupOption {
            name: f.name.clone(),
            verfahren: f.verfahren.clone(),
            pruefart: f.pruefart.clone(),
            status: f.status.clone(),
            signup_information: f.signup_information.clone(),
            exam_date: copy_attr(&f.exam_date),
            exam_time: copy_attr(&f.exam_time),
            exam_room: copy_attr(&f.exam_room),
            warning_message: copy_attr(&f.warning_message),
            signup_until: copy_attr(&f.deadline),
            internal_metadata: copy_registration(&f.internal_metadata),
        };
        assert(o@ == fields@[k as int]@);
        let ghost before = out@;
        out.push(o);
        assert(out@.map_values(|o: CampusDualSignupOption| o@) =~= before.map_values(
            |o: CampusDualSignupOption| o@,
        ).push(o@));
        assert(expected.subrange(0, k as int + 1) =~= expected.subrange(0, k as int).push(expected[k as int]));
        k = k + 1;
    }
    assert(expected.subrange(0, fields@.len() as int) =~= expected);
    Ok(out)
}

/// The options of an exam deregistration listing, in document order.
pub fn deregistration_options_from_rows(rows: &Vec<TableRow>) -> (r: Result<Vec<CampusDualVerfahrenOption>, ExtractionError>)
    ensures
        r is Err <==> !exam_rows_ok(rows@),
        r matches Err(e) ==> e == ExtractionError::RowShapeMismatch,
        r matches Ok(v) ==> v@.map_values(|o: CampusDualVerfahrenOption| o@) == exam_options_spec(
            rows@,
            ExamListing::Deregistration,
        ),
{
    let fields = exam_fields_from_rows(rows, ExamListing::Deregistration)?;
    let ghost expected = exam_options_spec(rows@, ExamListing::Deregistration);
    let mut out: Vec<CampusDualVerfahrenOption> = Vec::new();
    let mut k: usize = 0;
    while k < fields.len()
        invariant
            k <= fields@.len(),
            fields@.map_values(|f: ExamFields| f@) == expected,
            out@.map_values(|o: CampusDualVerfahrenOption| o@) == expected.subrange(0, k as int),
        decreases fields@.len() - k,
    {
        let f = &fields[k];
        let o = CampusDualVerfahrenOption {
            name: f.name.clone(),
            verfahren: f.verfahren.clone(),
            pruefart: f.pruefart.clone(),
            status: f.status.clone(),
            signup_information: f.signup_information.clone(),
            exam_date: copy_attr(&f.exam_date),
            exam_time: copy_attr(&f.exam_time),
            exam_room: copy_attr(&f.exam_room),
            warning_message: copy_attr(&f.warning_message),
            signoff_until: copy_attr(&f.deadline),
            internal_metadata: copy_registration(&f.internal_metadata),
        };
        assert(o@ == fields@[k as int]@);
        let ghost before = out@;
        out.push(o);
        assert(out@.map_values(|o: CampusDualVerfahrenOption| o@) =~= before.map_values(
            |o: CampusDualVerfahrenOption| o@,
        ).push(o@));
        assert(expected.subrange(0, k as int + 1) =~= expected.subrange(0, k as int).push(expected[k as int]));
        k = k + 1;
    }
    assert(expected.subrange(0, fields@.len() as int) =~= expected);
    Ok(out)
}

fn copy_registration(m: &Option<ExamRegistrationMetadata>) -> (r: Option<ExamRegistrationMetadata>)
    ensures
        crate::types::registration_view(r) == crate::types::registration_view(*m),
{
    match m {
        Some(x) => Some(
            ExamRegistrationMetadata {
                assessment: x.assessment.clone(),
                peryr: x.peryr.clone(),
                perid: x.perid.clone(),
                offerno: x.offerno.clone(),
            },
        ),
        None => None,
    }
}

} // verus!
