use campus_api::timeline::{
    _campusdate_to_iso8601, _events_by_color, hex_to_rgb, string_to_rgb, timetable_color,
};
use campus_api::types::CampusTimelineEvent;

#[test]
fn colors_from_fnv() {
    assert_eq!(string_to_rgb("abc"), "#DC0608");
    assert_eq!(string_to_rgb(""), "#6EEB02");
    assert_eq!(timetable_color("egal", "n-ZSPM1"), "#ACF6A0");
    assert_eq!(timetable_color("darkred", "n-ZSPM1"), "#D41610");
}

#[test]
fn hex_colors_parse() {
    assert_eq!(hex_to_rgb("#ff8000"), Some((255, 128, 0)));
    assert_eq!(hex_to_rgb("##0A0b0C"), Some((10, 11, 12)));
    assert_eq!(hex_to_rgb("+f0000"), Some((15, 0, 0)));
    assert_eq!(hex_to_rgb("#fff"), None);
    assert_eq!(hex_to_rgb("#gg0000"), None);
}

#[test]
fn portal_dates_to_rfc3339() {
    assert_eq!(
        _campusdate_to_iso8601("Tue, 01 Oct 2024 08:00:00 +0200"),
        Some("2024-10-01T08:00:00+02:00".to_string())
    );
    assert_eq!(_campusdate_to_iso8601("yesterday"), None);
}

fn event(color: &str, title: &str, start: &str) -> CampusTimelineEvent {
    CampusTimelineEvent {
        start: start.to_string(),
        end: "Wed, 02 Oct 2024 18:00:00 +0200".to_string(),
        duration_event: Some(true),
        color: color.to_string(),
        title: title.to_string(),
        caption: String::new(),
        description: "<strong>Theorie</strong><br>Semester".to_string(),
        track_num: None,
        duration: None,
    }
}

#[test]
fn events_filtered_by_color() {
    let events = vec![
        event("#fcbe04", "FS 1", "Tue, 01 Oct 2024 08:00:00 +0200"),
        event("#0070a3", "TS 1", "Tue, 01 Oct 2024 08:00:00 +0200"),
        event("#fcbe04", "FS 2", "Tue, 01 Oct 2024 09:30:00 +0200"),
    ];
    let out = _events_by_color("#fcbe04", &events).unwrap();
    assert_eq!(out.len(), 2);
    assert_eq!(out[0].name, "FS 1");
    assert_eq!(out[0].description, "Theorie Semester");
    assert_eq!(out[0].start, "2024-10-01T08:00:00+02:00");
    assert_eq!(out[1].start, "2024-10-01T09:30:00+02:00");
    assert_eq!(out[1].end, "2024-10-02T18:00:00+02:00");
    assert!(_events_by_color("#000000", &events).unwrap().is_empty());
    let bad = vec![event("#fcbe04", "FS", "soon")];
    assert!(_events_by_color("#fcbe04", &bad).is_none());
    assert!(_events_by_color("#0070a3", &bad).unwrap().is_empty());
}
