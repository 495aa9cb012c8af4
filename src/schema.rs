use vstd::prelude::*;

use crate::date::{CalendarDate, DateTime};

verus! {

/// How an attendee took part in an event.
#[derive(Clone, Copy, Debug, PartialEq, Eq, Structural)]
pub enum AttendanceStatus {
    Attended,
    Excused,
    Absent,
}

/// The committee (directorship) that held a meeting.
#[derive(Clone, Copy, Debug, PartialEq, Eq, Structural)]
pub enum CommitteeType {
    Evaluations,
    History,
    Social,
    Opcomm,
    ResearchAndDevelopment,
    HouseImprovements,
    Financial,
    PublicRelations,
    Chairman,
    AdHoc,
}

/// The semester of a co-op.
#[derive(Clone, Copy, Debug, PartialEq, Eq, Structural)]
pub enum CoopSemester {
    Fall,
    Spring,
    Neither,
}

/// Where a major project stands.
#[derive(Clone, Copy, Debug, PartialEq, Eq, Structural)]
pub enum MajorProjectStatus {
    Pending,
    Passed,
    Failed,
}

/// A generated row id.
#[derive(Clone, Copy, Debug, PartialEq, Eq, Structural)]
pub struct ID {
    pub id: i32,
}

/// A single date, as the attendance queries report it.
#[derive(Clone, Copy, Debug, PartialEq, Eq, Structural)]
pub struct Date {
    pub date: CalendarDate,
}

/// One house meeting as seen by evaluations.
#[derive(Clone, Debug)]
pub struct EvalsHmAtt {
    pub attendance_status: AttendanceStatus,
    pub excuse: Option<String>,
    pub date: CalendarDate,
}

/// A technical seminar and who attended it.
#[derive(Clone, Debug)]
pub struct Seminar {
    /// Name of the technical seminar
    pub name: String,
    /// When this seminar occurred
    pub timestamp: DateTime,
    /// Usernames of the members who attended
    pub members: Option<Vec<String>>,
    /// Ids of the frosh who attended
    pub frosh: Option<Vec<i32>>,
    /// Whether the seminar has been approved
    pub approved: bool,
}

/// A committee meeting and who attended it.
#[derive(Clone, Debug)]
pub struct Directorship {
    pub committee: CommitteeType,
    pub timestamp: DateTime,
    pub members: Option<Vec<String>>,
    pub frosh: Option<Vec<i32>>,
    pub approved: bool,
}

/// A named meeting with the members and frosh who attended.
#[derive(Clone, Debug)]
pub struct MeetingAttendance {
    pub name: String,
    pub date: DateTime,
    pub members: Vec<String>,
    pub frosh: Vec<i32>,
}

/// A committee meeting with the members and frosh who attended.
#[derive(Clone, Debug)]
pub struct DirectorshipAttendance {
    pub committee: CommitteeType,
    pub timestamp: DateTime,
    pub approved: bool,
    pub members: Vec<String>,
    pub frosh: Vec<i32>,
}

/// A member's status at a house meeting.
#[derive(Clone, Debug)]
pub struct MemberHouseAttendance {
    pub name: String,
    pub att_status: AttendanceStatus,
}

/// A frosh's status at a house meeting.
#[derive(Clone, Copy, Debug, PartialEq, Eq, Structural)]
pub struct FroshHouseAttendance {
    pub name: i32,
    pub att_status: AttendanceStatus,
}

/// A house meeting and the status of everyone expected at it.
#[derive(Clone, Debug)]
pub struct HouseAttendance {
    pub date: CalendarDate,
    pub members: Vec<MemberHouseAttendance>,
    pub frosh: Vec<FroshHouseAttendance>,
}

pub struct MajorProjectSubmission {
    /// Username of member who submitted this major project
    pub uid: String,
    /// Name of this major project
    pub name: String,
    /// Description of this major project
    pub description: Option<String>,
}

pub struct MajorProjectSubmissionEboard {
    /// Username of member who submitted this major project
    pub uid: String,
    /// Name of this major project
    pub name: String,
    /// Description of this major project
    pub description: Option<String>,
    /// Where the project stands
    pub status: MajorProjectStatus,
}

pub struct CoopSubmission {
    pub uid: String,
    pub date: DateTime,
    pub semester: CoopSemester,
}

pub struct IntroFormSubmission {
    pub uid: String,
    pub social_events: String,
    pub comments: String,
}

} // verus!
