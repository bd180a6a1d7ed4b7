//! The records this library produces and consumes.

use vstd::prelude::*;

verus! {

/// Credentials a caller signs in with.
#[derive(Clone, Debug, PartialEq, Eq)]
pub struct CampusLoginData {
    pub username: String,
    pub password: String,
}

/// Claims carried inside a bearer token.
#[derive(Clone, Debug, PartialEq, Eq)]
pub struct Claims {
    /// Expiry, seconds since the epoch.
    pub exp: usize,
    /// Issue time, seconds since the epoch.
    pub iat: usize,
    /// Base64 of the AEAD nonce.
    pub nonce: String,
    /// Base64 of the sealed session state.
    pub cipher: String,
}

/// What a successful sign-in returns.
#[derive(Clone, Debug, PartialEq, Eq)]
pub struct LoginResponse {
    pub token: String,
    pub user: UserBasicInfo,
}

/// The session state that a bearer token seals.
#[derive(Clone, Debug, PartialEq, Eq)]
pub struct CdAuthData {
    pub cookie: String,
    pub hash: String,
    pub user: String,
    pub password: String,
}

/// One graded module with its partial results.
#[derive(Clone, Debug, PartialEq, Eq)]
pub struct CampusDualGrade {
    pub name: String,
    pub grade: String,
    /// `None`: no verdict yet; `Some(true)`: passed; `Some(false)`: not passed.
    pub total_passed: Option<bool>,
    pub credit_points: i32,
    pub akad_period: String,
    pub subgrades: Vec<CampusDualSubGrade>,
}

/// One assessment inside a graded module.
#[derive(Clone, Debug, PartialEq, Eq)]
pub struct CampusDualSubGrade {
    pub name: String,
    pub grade: String,
    pub passed: Option<bool>,
    /// Date of assessment.
    pub beurteilung: String,
    /// Date of announcement, `dd.mm.yyyy`.
    pub bekanntgabe: String,
    /// Retake label, if the cell has one.
    pub wiederholung: Option<String>,
    pub akad_period: String,
    pub internal_metadata: Option<SubGradeMetadata>,
}

/// Identifies an assessment for follow-up queries.
#[derive(Clone, Debug, PartialEq, Eq)]
pub struct SubGradeMetadata {
    pub module: String,
    pub peryr: String,
    pub perid: String,
}

/// An exam that can be signed up for.
#[derive(Clone, Debug, PartialEq, Eq)]
pub struct CampusDualSignupOption {
    pub name: String,
    pub verfahren: String,
    pub pruefart: String,
    pub status: String,
    pub signup_information: String,
    pub exam_date: Option<String>,
    pub exam_time: Option<String>,
    pub exam_room: Option<String>,
    pub warning_message: Option<String>,
    pub signup_until: Option<String>,
    pub internal_metadata: Option<ExamRegistrationMetadata>,
}

/// Identifies an exam offer for registration or cancellation.
#[derive(Clone, Debug, PartialEq, Eq)]
pub struct ExamRegistrationMetadata {
    pub assessment: String,
    pub peryr: String,
    pub perid: String,
    pub offerno: String,
}

/// An exam that can be deregistered from.
#[derive(Clone, Debug, PartialEq, Eq)]
pub struct CampusDualVerfahrenOption {
    pub name: String,
    pub verfahren: String,
    pub pruefart: String,
    pub status: String,
    pub signup_information: String,
    pub exam_date: Option<String>,
    pub exam_time: Option<String>,
    pub exam_room: Option<String>,
    pub warning_message: Option<String>,
    pub signoff_until: Option<String>,
    pub internal_metadata: Option<ExamRegistrationMetadata>,
}

/// Profile fields read from the portal, blank where the page did not match.
#[derive(Clone, Debug, PartialEq, Eq, Default)]
pub struct UserBasicInfo {
    pub first_name: String,
    pub last_name: String,
    pub seminar_group: String,
    pub seminar_name: String,
    pub user: String,
}

/// Exam counters of one student.
#[derive(Clone, Copy, Debug, PartialEq, Eq)]
pub struct CdExamStats {
    pub total: i64,
    pub successful: i64,
    pub unsuccessful: i64,
    pub unassessed: i64,
    pub booked: i64,
    pub finished: i64,
    pub ronmodus: i64,
}

/// One timetable entry; times are milliseconds since the epoch.
#[derive(Clone, Debug, PartialEq, Eq)]
pub struct StundenplanItem {
    pub all_day: bool,
    pub color: String,
    pub font_color: Option<String>,
    pub description: String,
    pub editable: bool,
    pub end: i64,
    pub instructor: String,
    pub remarks: String,
    pub room: String,
    pub sinstructor: String,
    pub sroom: String,
    pub start: i64,
    pub title: String,
}

/// A recently booked result.
#[derive(Clone, Debug, PartialEq, Eq)]
pub struct LatestReminder {
    pub acad_session: String,
    pub acad_year: String,
    pub agrdate: String,
    pub agrtype: String,
    pub awobject: String,
    pub awobject_short: String,
    pub awotype: String,
    pub awstatus: String,
    pub bookdate: String,
    pub bookreason: String,
    pub cpgraded: String,
    pub cpunit: String,
    pub gradesymbol: String,
}

/// An upcoming appointment.
#[derive(Clone, Debug, PartialEq, Eq)]
pub struct UpcomingReminder {
    pub beguz: String,
    pub comment: String,
    pub enduz: String,
    pub evdat: String,
    pub instructor: String,
    pub location: String,
    pub objid: String,
    pub room: String,
    pub sinstructor: String,
    pub sm_short: String,
    pub sm_stext: String,
    pub sroom: String,
}

/// Counters and lists shown on the portal's start page.
#[derive(Clone, Debug, PartialEq, Eq)]
pub struct CampusReminders {
    pub electives: i64,
    pub exams: i64,
    pub latest: Vec<LatestReminder>,
    pub semester: i64,
    pub upcoming: Vec<UpcomingReminder>,
}

/// The portal's study timeline.
#[derive(Clone, Debug, PartialEq, Eq)]
pub struct CampusTimeline {
    pub events: Vec<CampusTimelineEvent>,
}

/// One timeline event as the portal sends it.
#[derive(Clone, Debug, PartialEq, Eq)]
pub struct CampusTimelineEvent {
    pub start: String,
    pub end: String,
    pub duration_event: Option<bool>,
    pub color: String,
    pub title: String,
    pub caption: String,
    pub description: String,
    pub track_num: Option<i64>,
    pub duration: Option<bool>,
}

/// Timeline events grouped by kind.
#[derive(Clone, Debug, PartialEq, Eq, Default)]
pub struct ExportTimelineEvents {
    pub fachsemester: Vec<ExportTimelineEvent>,
    pub theoriesemester: Vec<ExportTimelineEvent>,
    pub praxissemester: Vec<ExportTimelineEvent>,
    pub specials: Vec<ExportTimelineEvent>,
}

/// One timeline event in the exported shape.
#[derive(Clone, Debug, PartialEq, Eq)]
pub struct ExportTimelineEvent {
    pub name: String,
    pub description: String,
    pub color: String,
    pub start: String,
    pub end: String,
}

/// Details of one exam offer.
#[derive(Clone, Debug, PartialEq, Eq)]
pub struct CdExamDetails {
    pub ev_agrtype_text: String,
    pub ev_audtype_text: String,
    pub ev_continue_indicator: String,
    pub ev_dereg_end: String,
    pub ev_dereg_endtime: String,
    pub ev_duration: String,
    pub ev_durunit: String,
    pub ev_exambegtime: String,
    pub ev_examdate: String,
    pub ev_examendtime: String,
    pub ev_examorg_text: String,
    pub ev_examorg_longtext: Option<String>,
    pub ev_instructor: String,
    pub ev_location_short: String,
    pub ev_location_stext: String,
    pub ev_obtype_text: String,
    pub ev_reason: String,
    pub ev_regis_begin: String,
    pub ev_regis_begtime: String,
    pub ev_regis_end: String,
    pub ev_regis_endtime: String,
    pub ev_room_short: String,
    pub ev_room_stext: String,
    pub ev_short: String,
    pub ev_stext: String,
}

/// How many students got one grade.
#[derive(Clone, Debug, PartialEq, Eq)]
pub struct CdGradeStatEntry {
    pub gradetext: String,
    pub count: i64,
}

/// Grade distribution over all students of one assessment.
#[derive(Clone, Copy, Debug, PartialEq, Eq, Default)]
pub struct GradeStatsAllStudents {
    pub one: i64,
    pub two: i64,
    pub three: i64,
    pub four: i64,
    pub ronmodus: i64,
}

/// The value of a [`CampusDualSubGrade`] as contracts speak of it.
pub ghost struct SubGradeView {
    pub name: Seq<char>,
    pub grade: Seq<char>,
    pub passed: Option<bool>,
    pub beurteilung: Seq<char>,
    pub bekanntgabe: Seq<char>,
    pub wiederholung: Option<Seq<char>>,
    pub akad_period: Seq<char>,
    /// Module, year period and term period.
    pub internal_metadata: Option<(Seq<char>, Seq<char>, Seq<char>)>,
}

impl View for CampusDualSubGrade {
    type V = SubGradeView;

    open spec fn view(&self) -> SubGradeView {
        SubGradeView {
            name: self.name@,
            grade: self.grade@,
            passed: self.passed,
            beurteilung: self.beurteilung@,
            bekanntgabe: self.bekanntgabe@,
            wiederholung: self.wiederholung.deep_view(),
            akad_period: self.akad_period@,
            internal_metadata: match self.internal_metadata {
                Some(m) => Some((m.module@, m.peryr@, m.perid@)),
                None => None,
            },
        }
    }
}

/// The value of a [`CampusDualGrade`] as contracts speak of it.
pub ghost struct GradeView {
    pub name: Seq<char>,
    pub grade: Seq<char>,
    pub total_passed: Option<bool>,
    pub credit_points: i32,
    pub akad_period: Seq<char>,
    pub subgrades: Seq<SubGradeView>,
}

impl View for CampusDualGrade {
    type V = GradeView;

    open spec fn view(&self) -> GradeView {
        GradeView {
            name: self.name@,
            grade: self.grade@,
            total_passed: self.total_passed,
            credit_points: self.credit_points,
            akad_period: self.akad_period@,
            subgrades: self.subgrades@.map_values(|s: CampusDualSubGrade| s@),
        }
    }
}

/// The value of an exam option, of either document kind, as contracts speak of it.
pub ghost struct ExamOptionView {
    pub name: Seq<char>,
    pub verfahren: Seq<char>,
    pub pruefart: Seq<char>,
    pub status: Seq<char>,
    pub signup_information: Seq<char>,
    pub exam_date: Option<Seq<char>>,
    pub exam_time: Option<Seq<char>>,
    pub exam_room: Option<Seq<char>>,
    pub warning_message: Option<Seq<char>>,
    pub deadline: Option<Seq<char>>,
    /// Assessment, year period, term period and offer number.
    pub internal_metadata: Option<(Seq<char>, Seq<char>, Seq<char>, Seq<char>)>,
}

pub open spec fn registration_view(m: Option<ExamRegistrationMetadata>) -> Option<
    (Seq<char>, Seq<char>, Seq<char>, Seq<char>),
> {
    match m {
        Some(m) => Some((m.assessment@, m.peryr@, m.perid@, m.offerno@)),
        None => None,
    }
}

impl View for CampusDualSignupOption {
    type V = ExamOptionView;

    open spec fn view(&self) -> ExamOptionView {
        ExamOptionView {
            name: self.name@,
            verfahren: self.verfahren@,
            pruefart: self.pruefart@,
            status: self.status@,
            signup_information: self.signup_information@,
            exam_date: self.exam_date.deep_view(),
            exam_time: self.exam_time.deep_view(),
            exam_room: self.exam_room.deep_view(),
            warning_message: self.warning_message.deep_view(),
            deadline: self.signup_until.deep_view(),
            internal_metadata: registration_view(self.internal_metadata),
        }
    }
}

impl View for CampusDualVerfahrenOption {
    type V = ExamOptionView;

    open spec fn view(&self) -> ExamOptionView {
        ExamOptionView {
            name: self.name@,
            verfahren: self.verfahren@,
            pruefart: self.pruefart@,
            status: self.status@,
            signup_information: self.signup_information@,
            exam_date: self.exam_date.deep_view(),
            exam_time: self.exam_time.deep_view(),
            exam_room: self.exam_room.deep_view(),
            warning_message: self.warning_message.deep_view(),
            deadline: self.signoff_until.deep_view(),
            internal_metadata: registration_view(self.internal_metadata),
        }
    }
}

/// The value of an [`ExportTimelineEvent`] as contracts speak of it.
pub ghost struct ExportEventView {
    pub name: Seq<char>,
    pub description: Seq<char>,
    pub color: Seq<char>,
    pub start: Seq<char>,
    pub end: Seq<char>,
}

impl View for ExportTimelineEvent {
    type V = ExportEventView;

    open spec fn view(&self) -> ExportEventView {
        ExportEventView {
            name: self.name@,
            description: self.description@,
            color: self.color@,
            start: self.start@,
            end: self.end@,
        }
    }
}

} // verus!
