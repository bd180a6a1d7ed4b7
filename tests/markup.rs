use campus_api::html::{
    extract_exam_signup_options, extract_exam_verfahren_options, extract_grades, parse, DocumentKind,
    Records,
};
use campus_api::markup::{
    deregistration_options_from_rows, grades_from_rows, parent_of, passed_of, rank_order,
    signup_options_from_rows, ExtractionError, LinkAttrs, TableCell, TableRow,
};

fn cell(text: &str) -> TableCell {
    TableCell { texts: vec![text.to_string()], icon: None }
}

fn empty_cell() -> TableCell {
    TableCell { texts: vec![], icon: None }
}

fn icon_cell(src: &str) -> TableCell {
    TableCell { texts: vec![], icon: Some(src.to_string()) }
}

fn row(id: &str, class: &str, cells: Vec<TableCell>) -> TableRow {
    TableRow {
        id: Some(id.to_string()),
        class: class.to_string(),
        cells,
        texts: vec![],
        icon: None,
        score_link: None,
        booking_link: None,
    }
}

fn module_row(id: &str, name: &str, credits: &str) -> TableRow {
    row(
        id,
        "child-of-node-0",
        vec![
            cell(name),
            cell("1,3"),
            icon_cell("/images/green.png"),
            cell(credits),
            empty_cell(),
            empty_cell(),
            empty_cell(),
            cell("SS 2024"),
        ],
    )
}

fn assessment_row(id: &str, parent: &str, name: &str, announced: &str, icon: Option<&str>) -> TableRow {
    row(
        id,
        &format!("child-of-{}", parent),
        vec![
            cell(name),
            cell("2,0"),
            match icon {
                Some(src) => icon_cell(src),
                None => empty_cell(),
            },
            empty_cell(),
            cell("10.12.2023"),
            cell(announced),
            empty_cell(),
            cell("WS 2023"),
        ],
    )
}

#[test]
fn grade_ordering_newest_first() {
    let rows = vec![
        module_row("node-1", "First", "5"),
        assessment_row("node-11", "node-1", "P First", "01.01.2024", None),
        module_row("node-2", "Second", "4"),
        assessment_row("node-21", "node-2", "P Second", "02.01.2024", None),
    ];
    let grades = grades_from_rows(&rows).unwrap();
    let names: Vec<&str> = grades.iter().map(|g| g.name.as_str()).collect();
    assert_eq!(names, vec!["Second", "First"]);
}

#[test]
fn grade_ordering_by_calendar_not_text() {
    let rows = vec![
        module_row("node-1", "Older", "5"),
        assessment_row("node-11", "node-1", "P", "31.12.2023", None),
        module_row("node-2", "Newer", "5"),
        assessment_row("node-21", "node-2", "P", "01.02.2024", None),
    ];
    let grades = grades_from_rows(&rows).unwrap();
    assert_eq!(grades[0].name, "Newer");
    assert_eq!(grades[1].name, "Older");
}

#[test]
fn grade_ties_keep_discovery_order_and_undated_come_last() {
    let rows = vec![
        module_row("node-1", "A", "5"),
        assessment_row("node-11", "node-1", "P", "05.05.2024", None),
        module_row("node-2", "NoChildren", "5"),
        module_row("node-3", "B", "5"),
        assessment_row("node-31", "node-3", "P", "05.05.2024", None),
    ];
    let grades = grades_from_rows(&rows).unwrap();
    let names: Vec<&str> = grades.iter().map(|g| g.name.as_str()).collect();
    assert_eq!(names, vec!["A", "B", "NoChildren"]);
}

#[test]
fn subgrades_take_the_newest_announcement() {
    let rows = vec![
        module_row("node-1", "Two parts", "6"),
        assessment_row("node-11", "node-1", "Part 1", "01.03.2024", None),
        assessment_row("node-12", "node-1", "Part 2", "15.01.2023", None),
        module_row("node-2", "One part", "6"),
        assessment_row("node-21", "node-2", "Part", "01.02.2024", None),
    ];
    let grades = grades_from_rows(&rows).unwrap();
    assert_eq!(grades[0].name, "Two parts");
    assert_eq!(grades[0].subgrades.len(), 2);
    assert_eq!(grades[0].subgrades[0].name, "Part 1");
    assert_eq!(grades[0].subgrades[1].bekanntgabe, "15.01.2023");
}

#[test]
fn tri_state_passed() {
    assert_eq!(passed_of(&None), None);
    assert_eq!(passed_of(&Some("/images/red.png".to_string())), Some(false));
    assert_eq!(passed_of(&Some("/images/green.png".to_string())), Some(true));
    let rows = vec![
        module_row("node-1", "M", "5"),
        assessment_row("node-11", "node-1", "none", "01.01.2024", None),
        assessment_row("node-12", "node-1", "red", "01.01.2024", Some("/images/red.png")),
        assessment_row("node-13", "node-1", "green", "01.01.2024", Some("/images/green.png")),
    ];
    let grades = grades_from_rows(&rows).unwrap();
    let passed: Vec<Option<bool>> = grades[0].subgrades.iter().map(|s| s.passed).collect();
    assert_eq!(passed, vec![None, Some(false), Some(true)]);
}

#[test]
fn module_fields_and_credit_points() {
    let mut parent = module_row("node-1", "Recht (5CS-RECHT-CS)", " 4");
    parent.cells[2] = empty_cell();
    let mut child = assessment_row("node-11", "node-1", "  P Recht (K)", "22.05.2024", Some("/images/green.png"));
    child.cells[6] = cell("2. Wdh.");
    child.score_link = Some(LinkAttrs {
        module: Some("5CS-RECHT-00".to_string()),
        assessment: None,
        peryr: Some("2024".to_string()),
        perid: Some("001".to_string()),
        offerno: None,
    });
    let grades = grades_from_rows(&vec![parent, child]).unwrap();
    let g = &grades[0];
    assert_eq!(g.name, "Recht (5CS-RECHT-CS)");
    assert_eq!(g.credit_points, 4);
    assert_eq!(g.total_passed, None);
    assert_eq!(g.akad_period, "SS 2024");
    let s = &g.subgrades[0];
    assert_eq!(s.name, "P Recht (K)");
    assert_eq!(s.grade, "2,0");
    assert_eq!(s.passed, Some(true));
    assert_eq!(s.beurteilung, "10.12.2023");
    assert_eq!(s.wiederholung, Some("2. Wdh.".to_string()));
    let meta = s.internal_metadata.as_ref().unwrap();
    assert_eq!(meta.module, "5CS-RECHT-00");
    assert_eq!(meta.peryr, "2024");
    assert_eq!(meta.perid, "001");
}

#[test]
fn unreadable_credit_points_count_zero() {
    let rows = vec![module_row("node-1", "M", "n/a")];
    assert_eq!(grades_from_rows(&rows).unwrap()[0].credit_points, 0);
    let rows = vec![module_row("node-1", "M", "-3")];
    assert_eq!(grades_from_rows(&rows).unwrap()[0].credit_points, -3);
}

#[test]
fn partial_exams_are_single_records_without_credit() {
    let mut partial = assessment_row("node-9", "node-1000", "  Teilprüfung  ", "03.03.2024", Some("/images/red.png"));
    partial.cells[6] = cell("ignored");
    let rows = vec![
        module_row("node-1", "M", "5"),
        assessment_row("node-11", "node-1", "P", "01.01.2024", None),
        partial,
    ];
    let grades = grades_from_rows(&rows).unwrap();
    assert_eq!(grades.len(), 2);
    let p = &grades[0];
    assert_eq!(p.name, "Teilprüfung");
    assert_eq!(p.credit_points, 0);
    assert_eq!(p.total_passed, Some(false));
    assert_eq!(p.subgrades.len(), 1);
    assert_eq!(p.subgrades[0].name, "Teilprüfung");
    assert_eq!(p.subgrades[0].wiederholung, None);
    assert_eq!(p.subgrades[0].bekanntgabe, "03.03.2024");
}

#[test]
fn malformed_row_aborts_extraction() {
    let mut child = assessment_row("node-11", "node-1", "P", "01.01.2024", None);
    child.cells.truncate(5);
    let rows = vec![module_row("node-1", "M", "5"), child];
    assert_eq!(grades_from_rows(&rows), Err(ExtractionError::RowShapeMismatch));
}

#[test]
fn parent_from_class_tokens() {
    assert_eq!(parent_of("child-of-node-3"), Some("node-3".to_string()));
    assert_eq!(parent_of("initialized child-of-node-0 expanded"), Some("node-0".to_string()));
    assert_eq!(parent_of("xchild-of-node-0"), None);
    assert_eq!(parent_of(""), None);
}

#[test]
fn rank_order_is_stable_and_descending() {
    assert_eq!(rank_order(&vec![3, 7, 3, 9, i64::MIN]), vec![3, 1, 0, 2, 4]);
    assert_eq!(rank_order(&vec![]), Vec::<usize>::new());
}

fn exam_parent(id: &str) -> TableRow {
    row(id, "child-of-node-0", vec![cell("Mathe"), cell("Verfahren"), cell("Klausur")])
}

fn subline(id: &str, parent: &str, texts: &[&str], icon: Option<&str>) -> TableRow {
    let mut r = row(id, &format!("child-of-{}", parent), vec![]);
    r.texts = texts.iter().map(|t| t.to_string()).collect();
    r.icon = icon.map(|s| s.to_string());
    r
}

#[test]
fn empty_main_subline_gives_placeholder() {
    let rows = vec![exam_parent("node-1"), subline("node-11", "node-1", &[], Some("/images/yellow.png"))];
    let options = signup_options_from_rows(&rows).unwrap();
    let o = &options[0];
    assert_eq!(o.signup_information, "data could not be extracted");
    assert_eq!(o.status, "📝");
    assert_eq!(o.exam_date, None);
    assert_eq!(o.exam_time, None);
    assert_eq!(o.exam_room, None);
    assert_eq!(o.warning_message, None);
    assert_eq!(o.signup_until, None);
    assert!(o.internal_metadata.is_none());
}

#[test]
fn signup_option_fields() {
    let mut main = subline(
        "node-11",
        "node-1",
        &["  Anmeldung möglich, Prüfungstermin: ", "12.02.2025", " um ", "09:00", ", SR 101"],
        Some("/images/missed.png"),
    );
    main.booking_link = Some(LinkAttrs {
        module: None,
        assessment: Some("500".to_string()),
        peryr: Some("2024".to_string()),
        perid: Some("002".to_string()),
        offerno: Some("7".to_string()),
    });
    let warning = subline("node-12", "node-1", &["  Anmeldung ", "bis 31.01.2025", "   :  möglich"], None);
    let rows = vec![exam_parent("node-1"), main, warning];
    let options = signup_options_from_rows(&rows).unwrap();
    let o = &options[0];
    assert_eq!(o.name, "Mathe");
    assert_eq!(o.verfahren, "Verfahren");
    assert_eq!(o.pruefart, "Klausur");
    assert_eq!(o.status, "🚫");
    assert_eq!(o.signup_information, "Anmeldung möglich");
    assert_eq!(o.exam_date, Some("12.02.2025".to_string()));
    assert_eq!(o.exam_time, Some("09:00".to_string()));
    assert_eq!(o.exam_room, Some("SR 101".to_string()));
    assert_eq!(o.warning_message, Some("Anmeldung bis 31.01.2025möglich".to_string()));
    assert_eq!(o.signup_until, Some("31.01.2025".to_string()));
    let meta = o.internal_metadata.as_ref().unwrap();
    assert_eq!(meta.assessment, "500");
    assert_eq!(meta.offerno, "7");
}

#[test]
fn unknown_or_missing_icon_is_unknown_status() {
    let rows = vec![
        exam_parent("node-1"),
        subline("node-11", "node-1", &["x"], Some("/images/other.gif")),
        exam_parent("node-2"),
        subline("node-21", "node-2", &["y"], None),
        exam_parent("node-3"),
        subline("node-31", "node-3", &["z"], Some("/images/exclamation.jpg")),
    ];
    let options = signup_options_from_rows(&rows).unwrap();
    assert_eq!(options[0].status, "⁉️");
    assert_eq!(options[1].status, "⁉️");
    assert_eq!(options[2].status, "⚠️");
}

#[test]
fn deregistration_wording() {
    let main = subline("node-11", "node-1", &["Abmeldung, möglich, Prüfungstermin: ", "12.02.2025"], None);
    let warning = subline("node-12", "node-1", &["Abmeldung bis zum 05.02.2025 möglich"], None);
    let rows = vec![exam_parent("node-1"), main, warning];
    let options = deregistration_options_from_rows(&rows).unwrap();
    let o = &options[0];
    assert_eq!(o.signup_information, "Abmeldungmöglich");
    assert_eq!(o.exam_date, Some("12.02.2025".to_string()));
    assert_eq!(o.exam_time, None);
    assert_eq!(o.signoff_until, Some("05.02.2025".to_string()));
    let signup = signup_options_from_rows(&rows).unwrap();
    assert_eq!(signup[0].signup_until, None);
}

#[test]
fn exam_row_without_subline_aborts() {
    let rows = vec![exam_parent("node-1")];
    assert_eq!(signup_options_from_rows(&rows), Err(ExtractionError::RowShapeMismatch));
}

const GRADES_PAGE: &str = "<html><body><table id=\"acwork\"><tbody><tr id=\"node-1\" class=\"child-of-node-0\"><td>Integrierte Informationssysteme</td><td>1,3</td><td><img src=\"/images/green.png\"></td><td> 5</td><td></td><td></td><td></td><td>SS 2023/2024</td></tr><tr id=\"node-2\" class=\"child-of-node-1\"><td> P Integrierte Informationssysteme (C)</td><td>1,3</td><td><img src=\"/images/green.png\"></td><td></td><td>17.07.2024</td><td>18.07.2024</td><td></td><td>SS 2023/2024<div id=\"mscore\"><a data-module=\"5CS-ERPS-00\" data-peryr=\"2024\" data-perid=\"002\">x</a></div></td></tr><tr id=\"node-3\" class=\"child-of-node-0\"><td>Recht</td><td>1,8</td><td><img src=\"/images/green.png\"></td><td>4</td><td></td><td></td><td></td><td>WS 2021/2022</td></tr><tr id=\"node-4\" class=\"child-of-node-3\"><td>P Recht (K)</td><td>1,8</td><td></td><td></td><td>22.03.2024</td><td>22.05.2024</td><td></td><td>WS 2023/2024</td></tr></tbody></table></body></html>";

#[test]
fn grades_page_through_html() {
    let grades = extract_grades(GRADES_PAGE.to_string()).unwrap();
    assert_eq!(grades.len(), 2);
    assert_eq!(grades[0].name, "Integrierte Informationssysteme");
    assert_eq!(grades[0].credit_points, 5);
    assert_eq!(grades[0].total_passed, Some(true));
    let sub = &grades[0].subgrades[0];
    assert_eq!(sub.name, "P Integrierte Informationssysteme (C)");
    assert_eq!(sub.bekanntgabe, "18.07.2024");
    assert_eq!(sub.wiederholung, None);
    let meta = sub.internal_metadata.as_ref().unwrap();
    assert_eq!(meta.module, "5CS-ERPS-00");
    assert_eq!(meta.perid, "002");
    assert_eq!(grades[1].name, "Recht");
    assert_eq!(grades[1].subgrades[0].passed, None);
    assert!(grades[1].subgrades[0].internal_metadata.is_none());
}

#[test]
fn extraction_is_deterministic() {
    let first = extract_grades(GRADES_PAGE.to_string()).unwrap();
    let second = extract_grades(GRADES_PAGE.to_string()).unwrap();
    assert_eq!(first, second);
    assert_eq!(format!("{:?}", first), format!("{:?}", second));
}

#[test]
fn missing_table_is_fatal() {
    let page = "<html><body><p>Wartungsarbeiten</p></body></html>".to_string();
    assert_eq!(extract_grades(page.clone()), Err(ExtractionError::TableMissing));
    assert_eq!(extract_exam_signup_options(page.clone()), Err(ExtractionError::TableMissing));
    assert_eq!(extract_exam_verfahren_options(page), Err(ExtractionError::TableMissing));
}

#[test]
fn signup_page_through_html() {
    let page = "<html><body><table id=\"expproc\"><tbody><tr id=\"node-5\" class=\"child-of-node-0\"><td>Datenbanken</td><td>Modulprüfung</td><td>Klausur</td></tr><tr id=\"node-6\" class=\"child-of-node-5\"><td><img src=\"/images/yellow.png\"></td><td>Angemeldet, Prüfungstermin: <b>12.02.2025</b> um <b>09:00</b>, SR 101</td><td><a class=\"booking\" data-evob_objid=\"500\" data-peryr=\"2024\" data-perid=\"002\" data-offerno=\"7\">b</a></td></tr><tr id=\"node-7\" class=\"child-of-node-5\"><td>Anmeldung bis 31.01.2025 möglich</td></tr><tr id=\"node-8\" class=\"child-of-node-0\"><td>Netze</td><td>Modulprüfung</td><td>Klausur</td></tr><tr id=\"node-9\" class=\"child-of-node-8\"><td><img src=\"/images/missed.png\"></td><td></td></tr></tbody></table></body></html>";
    let options = extract_exam_signup_options(page.to_string()).unwrap();
    assert_eq!(options.len(), 2);
    let o = &options[0];
    assert_eq!(o.name, "Datenbanken");
    assert_eq!(o.status, "📝");
    assert_eq!(o.signup_information, "Angemeldet");
    assert_eq!(o.exam_date, Some("12.02.2025".to_string()));
    assert_eq!(o.exam_time, Some("09:00".to_string()));
    assert_eq!(o.exam_room, Some("SR 101".to_string()));
    assert_eq!(o.signup_until, Some("31.01.2025".to_string()));
    assert_eq!(o.internal_metadata.as_ref().unwrap().assessment, "500");
    let empty = &options[1];
    assert_eq!(empty.status, "🚫");
    assert_eq!(empty.signup_information, "data could not be extracted");
}

#[test]
fn parse_by_document_kind() {
    match parse(GRADES_PAGE, DocumentKind::Grades) {
        Ok(Records::Grades(g)) => assert_eq!(g.len(), 2),
        other => panic!("unexpected {:?}", other),
    }
    assert_eq!(parse(GRADES_PAGE, DocumentKind::ExamSignup), Err(ExtractionError::TableMissing));
}

#[test]
fn empty_table_gives_no_records() {
    let page = "<table id=\"acwork\"><tbody></tbody></table>".to_string();
    assert_eq!(extract_grades(page), Ok(vec![]));
    assert_eq!(grades_from_rows(&vec![]), Ok(vec![]));
    assert_eq!(signup_options_from_rows(&vec![]), Ok(vec![]));
}
