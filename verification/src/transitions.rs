use vstd::prelude::*;

use crate::errors::ErrorCode;
use crate::model::{
    AttendanceModel, CourseModel, LedgerModel, LessonModel, course_at, course_index, has_course,
    has_record, lesson_at, record_at, record_index,
};

verus! {

/// No operation ever removes a course or unenrolls a student: every course
/// present before is still present at the same position, and its enrollment
/// list before is a prefix of its enrollment list after — so an enrollment
/// list's length never decreases.
pub open spec fn enrollment_preserved(pre: LedgerModel, post: LedgerModel) -> bool {
    &&& pre.courses.len() <= post.courses.len()
    &&& forall|i: int|
        0 <= i < pre.courses.len() ==> pre.courses[i].students.is_prefix_of(
            (#[trigger] post.courses[i]).students,
        )
}

/// The actor is the bound manager.
pub open spec fn authorized(m: LedgerModel, actor: u64) -> bool {
    m.manager == Some(actor)
}

/// Result of `initialize`: binding the manager fails once an authority is
/// already bound; idempotent re-initialization is intentionally not offered.
pub open spec fn initialize_outcome(m: LedgerModel, signer: u64) -> Result<(), ErrorCode> {
    if m.manager is Some {
        Err(ErrorCode::AlreadyInitialized)
    } else {
        Ok(())
    }
}

/// State after `initialize`.
pub open spec fn initialize_post(m: LedgerModel, signer: u64) -> LedgerModel {
    if initialize_outcome(m, signer) is Ok {
        LedgerModel { manager: Some(signer), ..m }
    } else {
        m
    }
}

/// A freshly created course: empty enrollment, lesson counter at zero.
pub open spec fn new_course(
    name: Seq<char>,
    manager: u64,
    deposit: u64,
    lock_until: u64,
    num_of_lessons: u8,
    deposit_token: u64,
) -> CourseModel {
    CourseModel {
        name,
        manager,
        students: Seq::empty(),
        deposit,
        lock_until,
        num_of_lessons,
        last_lesson_id: 0,
        deposit_token,
    }
}

/// Result of `create_course`: only the bound manager may create a course,
/// and the name must be an unused key.
pub open spec fn create_course_outcome(
    m: LedgerModel,
    manager: u64,
    name: Seq<char>,
) -> Result<(), ErrorCode> {
    if !authorized(m, manager) {
        Err(ErrorCode::UnauthorizedAccess)
    } else if has_course(m.courses, name) {
        Err(ErrorCode::CourseAlreadyExists)
    } else {
        Ok(())
    }
}

/// State after `create_course`.
pub open spec fn create_course_post(
    m: LedgerModel,
    manager: u64,
    name: Seq<char>,
    deposit: u64,
    lock_until: u64,
    num_of_lessons: u8,
    deposit_token: u64,
) -> LedgerModel {
    if create_course_outcome(m, manager, name) is Ok {
        LedgerModel {
            courses: m.courses.push(
                new_course(name, manager, deposit, lock_until, num_of_lessons, deposit_token),
            ),
            ..m
        }
    } else {
        m
    }
}

/// Result of `register` (the course named `name` must exist): the student's
/// external balance must cover the deposit, the registration window must
/// still be open (no lesson created yet), the student must not already be
/// enrolled, and the deposit transfer into custody must go through (it fails
/// only if the custody balance would overflow).
pub open spec fn register_outcome(
    m: LedgerModel,
    student: u64,
    name: Seq<char>,
    balance: u64,
    custody: u64,
) -> Result<(), ErrorCode> {
    let c = course_at(m.courses, name);
    if balance < c.deposit {
        Err(ErrorCode::InsufficientDeposit)
    } else if c.last_lesson_id != 0 {
        Err(ErrorCode::RegistrationClosed)
    } else if c.students.contains(student) {
        Err(ErrorCode::StudentAlreadyEnrolled)
    } else if custody + c.deposit > u64::MAX {
        Err(ErrorCode::InsufficientDeposit)
    } else {
        Ok(())
    }
}

/// State after `register`: the student is appended to the enrollment list.
pub open spec fn register_post(
    m: LedgerModel,
    student: u64,
    name: Seq<char>,
    balance: u64,
    custody: u64,
) -> LedgerModel {
    if register_outcome(m, student, name, balance, custody) is Ok {
        let ci = course_index(m.courses, name);
        let c = m.courses[ci];
        LedgerModel {
            courses: m.courses.update(ci, CourseModel { students: c.students.push(student), ..c }),
            ..m
        }
    } else {
        m
    }
}

/// Result of `create_lesson` (the course named `name` must exist): only the
/// bound manager may create a lesson, and the next lesson id may not exceed
/// the course's lesson count.
pub open spec fn create_lesson_outcome(
    m: LedgerModel,
    manager: u64,
    name: Seq<char>,
) -> Result<(), ErrorCode> {
    let c = course_at(m.courses, name);
    if !authorized(m, manager) {
        Err(ErrorCode::UnauthorizedAccess)
    } else if c.last_lesson_id + 1 > c.num_of_lessons {
        Err(ErrorCode::ExceededCourseLessons)
    } else {
        Ok(())
    }
}

/// State after `create_lesson`: a lesson keyed by (course, last_lesson_id + 1)
/// is added and the course's counter moves up to the new id.
pub open spec fn create_lesson_post(
    m: LedgerModel,
    manager: u64,
    name: Seq<char>,
    attendance_deadline: u64,
) -> LedgerModel {
    if create_lesson_outcome(m, manager, name) is Ok {
        let ci = course_index(m.courses, name);
        let c = m.courses[ci];
        let next = (c.last_lesson_id + 1) as u8;
        LedgerModel {
            courses: m.courses.update(ci, CourseModel { last_lesson_id: next, ..c }),
            lessons: m.lessons.push(
                LessonModel { course: name, lesson_id: next, attendance_deadline },
            ),
            ..m
        }
    } else {
        m
    }
}

/// Result of `mark_attendance` (the course and the lesson must exist): the
/// student must be enrolled, must not have marked this lesson before, and the
/// current time must not be past the lesson's attendance deadline.
pub open spec fn mark_attendance_outcome(
    m: LedgerModel,
    student: u64,
    name: Seq<char>,
    lesson_id: u8,
    now: u64,
) -> Result<(), ErrorCode> {
    let c = course_at(m.courses, name);
    let l = lesson_at(m.lessons, name, lesson_id);
    if !c.students.contains(student) {
        Err(ErrorCode::StudentNotEnrolled)
    } else if has_record(m.records, name, student) && record_at(
        m.records,
        name,
        student,
    ).attendance.contains(lesson_id) {
        Err(ErrorCode::AttendanceAlreadyMarked)
    } else if now > l.attendance_deadline {
        Err(ErrorCode::LateForLesson)
    } else {
        Ok(())
    }
}

/// State after `mark_attendance`: the lesson id is added to the student's
/// attendance record, which is created on first use.
pub open spec fn mark_attendance_post(
    m: LedgerModel,
    student: u64,
    name: Seq<char>,
    lesson_id: u8,
    now: u64,
) -> LedgerModel {
    if mark_attendance_outcome(m, student, name, lesson_id, now) is Ok {
        if has_record(m.records, name, student) {
            let ri = record_index(m.records, name, student);
            let r = m.records[ri];
            LedgerModel {
                records: m.records.update(
                    ri,
                    AttendanceModel { attendance: r.attendance.push(lesson_id), ..r },
                ),
                ..m
            }
        } else {
            LedgerModel {
                records: m.records.push(
                    AttendanceModel {
                        course: name,
                        student,
                        attendance: seq![lesson_id],
                        withdrawn: false,
                    },
                ),
                ..m
            }
        }
    } else {
        m
    }
}

/// The attendance list length the student holds for the course; a missing
/// record counts as empty.
pub open spec fn attended_count(m: LedgerModel, name: Seq<char>, student: u64) -> int {
    if has_record(m.records, name, student) {
        record_at(m.records, name, student).attendance.len() as int
    } else {
        0
    }
}

/// Whether the student's deposit for the course was already withdrawn; a
/// missing record counts as not withdrawn.
pub open spec fn already_withdrawn(m: LedgerModel, name: Seq<char>, student: u64) -> bool {
    has_record(m.records, name, student) && record_at(m.records, name, student).withdrawn
}

/// Result of `withdraw` (the course named `name` must exist): the student
/// must be enrolled, the lock time must have elapsed, attendance must be
/// complete, and the deposit must not have been withdrawn before. The last
/// three all surface as the one `NotReadyForWithdrawal` kind.
pub open spec fn withdraw_outcome(
    m: LedgerModel,
    student: u64,
    name: Seq<char>,
    now: u64,
) -> Result<(), ErrorCode> {
    let c = course_at(m.courses, name);
    if !c.students.contains(student) {
        Err(ErrorCode::StudentNotEnrolled)
    } else if now < c.lock_until {
        Err(ErrorCode::NotReadyForWithdrawal)
    } else if !(attended_count(m, name, student) == c.num_of_lessons && !already_withdrawn(
        m,
        name,
        student,
    )) {
        Err(ErrorCode::NotReadyForWithdrawal)
    } else {
        Ok(())
    }
}

/// State after `withdraw`: the record's withdrawn flag is set; a record that
/// was never created (possible only for a course without lessons) is created
/// already withdrawn.
pub open spec fn withdraw_post(
    m: LedgerModel,
    student: u64,
    name: Seq<char>,
    now: u64,
) -> LedgerModel {
    if withdraw_outcome(m, student, name, now) is Ok {
        if has_record(m.records, name, student) {
            let ri = record_index(m.records, name, student);
            let r = m.records[ri];
            LedgerModel {
                records: m.records.update(ri, AttendanceModel { withdrawn: true, ..r }),
                ..m
            }
        } else {
            LedgerModel {
                records: m.records.push(
                    AttendanceModel {
                        course: name,
                        student,
                        attendance: Seq::empty(),
                        withdrawn: true,
                    },
                ),
                ..m
            }
        }
    } else {
        m
    }
}

} // verus!
