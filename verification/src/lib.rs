//! An attendance-incentive escrow ledger.
//!
//! A manager creates a course with a refundable deposit and a fixed lesson
//! count; students lock a deposit to enroll; each lesson has an attendance
//! deadline; a student who attends every lesson and waits past the course's
//! lock time may reclaim the deposit. The ledger here is the state machine
//! over plain values; reading the clock, verifying signatures and moving the
//! real asset are the surrounding runtime's work: the runtime hands each
//! operation the current time and the balances it read, and commits or
//! aborts the whole operation atomically.

pub mod errors;
pub mod escrow;
pub mod invariants;
pub mod laws;
pub mod ledger;
pub mod model;
pub mod structs;
pub mod transitions;

use vstd::prelude::*;

use crate::errors::ErrorCode;
use crate::invariants::{
    lemma_create_course_preserves_wf, lemma_create_lesson_preserves_wf,
    lemma_enrollment_preserved_same, lemma_mark_attendance_preserves_wf, lemma_prefix_push,
    lemma_prefix_refl, lemma_register_preserves_wf, lemma_withdraw_preserves_wf,
};
use crate::ledger::Ledger;
use crate::model::{
    AttendanceModel, CourseModel, LessonModel, course_at, has_course, has_lesson,
    lemma_course_index_is, lemma_lesson_index_is, lemma_record_index_is,
};
use crate::structs::{Attendance, Course, Lesson, contains_u64, contains_u8};
use crate::transitions::{
    create_course_outcome, create_course_post, create_lesson_outcome, create_lesson_post,
    enrollment_preserved, initialize_outcome, initialize_post, mark_attendance_outcome,
    mark_attendance_post, new_course, register_outcome, register_post, withdraw_outcome,
    withdraw_post,
};

verus! {

/// Binds the manager identity. Fails with `AlreadyInitialized` when an
/// authority is already bound: a second call is an error, not a no-op.
pub fn initialize(ledger: &mut Ledger, signer: u64) -> (r: Result<(), ErrorCode>)
    requires
        old(ledger)@.wf(),
    ensures
        final(ledger)@.wf(),
        r == initialize_outcome(old(ledger)@, signer),
        final(ledger)@ == initialize_post(old(ledger)@, signer),
        enrollment_preserved(old(ledger)@, final(ledger)@),
{
    if ledger.authority.manager.is_some() {
        proof {
            lemma_enrollment_preserved_same(old(ledger)@, ledger@);
        }
        return Err(ErrorCode::AlreadyInitialized);
    }
    ledger.authority.manager = Some(signer);
    proof {
        assert(ledger@ =~~= initialize_post(old(ledger)@, signer));
        lemma_enrollment_preserved_same(old(ledger)@, ledger@);
    }
    Ok(())
}

/// Creates a course under an unused name. Only the bound manager may do so;
/// the new course starts with an empty enrollment list and its lesson
/// counter at zero.
pub fn create_course(
    ledger: &mut Ledger,
    manager: u64,
    name: String,
    deposit: u64,
    lock_until: u64,
    num_of_lessons: u8,
    deposit_token: u64,
) -> (r: Result<(), ErrorCode>)
    requires
        old(ledger)@.wf(),
    ensures
        final(ledger)@.wf(),
        r == create_course_outcome(old(ledger)@, manager, name@),
        final(ledger)@ == create_course_post(old(ledger)@, manager, name@, deposit, lock_until,
            num_of_lessons, deposit_token),
        enrollment_preserved(old(ledger)@, final(ledger)@),
{
    if let Err(e) = ledger.authority.authorize(manager) {
        proof {
            lemma_enrollment_preserved_same(old(ledger)@, ledger@);
        }
        return Err(e);
    }
    if let Some(i) = ledger.find_course(&name) {
        proof {
            assert(has_course(ledger@.courses, name@));
            lemma_enrollment_preserved_same(old(ledger)@, ledger@);
        }
        return Err(ErrorCode::CourseAlreadyExists);
    }
    let mut course = Course {
        name: String::new(),
        manager: 0,
        students: Vec::new(),
        deposit: 0,
        lock_until: 0,
        num_of_lessons: 0,
        last_lesson_id: 0,
        deposit_token: 0,
    };
    let created = course.new(name, manager, deposit, lock_until, num_of_lessons, deposit_token);
    ledger.courses.push(course);
    proof {
        assert(ledger@.courses =~~= old(ledger)@.courses.push(
            new_course(name@, manager, deposit, lock_until, num_of_lessons, deposit_token),
        ));
        assert(ledger@ =~~= create_course_post(old(ledger)@, manager, name@, deposit, lock_until,
            num_of_lessons, deposit_token));
        lemma_create_course_preserves_wf(old(ledger)@, manager, name@, deposit, lock_until,
            num_of_lessons, deposit_token);
        assert forall|i: int| 0 <= i < old(ledger)@.courses.len() implies old(
            ledger,
        )@.courses[i].students.is_prefix_of((#[trigger] ledger@.courses[i]).students) by {
            lemma_prefix_refl(old(ledger)@.courses[i].students);
        }
    }
    match created {
        Ok(()) => Ok(()),
        Err(e) => Err(e),
    }
}

/// Enrolls a student in the course named `name`, locking the course's
/// deposit from the student's balance into course custody as one atomic
/// unit with the enrollment append: a failed transfer leaves the student
/// unenrolled. Registration closes permanently the instant the first lesson
/// is created.
pub fn register(
    ledger: &mut Ledger,
    student: u64,
    name: &String,
    student_balance: &mut u64,
    course_custody: &mut u64,
) -> (r: Result<(), ErrorCode>)
    requires
        old(ledger)@.wf(),
        has_course(old(ledger)@.courses, name@),
    ensures
        final(ledger)@.wf(),
        r == register_outcome(old(ledger)@, student, name@, *old(student_balance), *old(
            course_custody,
        )),
        final(ledger)@ == register_post(old(ledger)@, student, name@, *old(student_balance), *old(
            course_custody,
        )),
        r is Ok ==> *final(student_balance) == *old(student_balance) - course_at(
            old(ledger)@.courses,
            name@,
        ).deposit && *final(course_custody) == *old(course_custody) + course_at(
            old(ledger)@.courses,
            name@,
        ).deposit,
        r is Err ==> *final(student_balance) == *old(student_balance) && *final(course_custody)
            == *old(course_custody),
        enrollment_preserved(old(ledger)@, final(ledger)@),
{
    let ci = match ledger.find_course(name) {
        Some(i) => i,
        None => {
            proof {
                lemma_enrollment_preserved_same(old(ledger)@, ledger@);
            }
            return Err(ErrorCode::InsufficientDeposit);
        },
    };
    proof {
        lemma_course_index_is(old(ledger)@.courses, name@, ci as int);
    }
    let deposit = ledger.courses[ci].deposit;
    if *student_balance < deposit {
        proof {
            lemma_enrollment_preserved_same(old(ledger)@, ledger@);
        }
        return Err(ErrorCode::InsufficientDeposit);
    }
    if ledger.courses[ci].last_lesson_id != 0 {
        proof {
            lemma_enrollment_preserved_same(old(ledger)@, ledger@);
        }
        return Err(ErrorCode::RegistrationClosed);
    }
    if contains_u64(&ledger.courses[ci].students, student) {
        proof {
            lemma_enrollment_preserved_same(old(ledger)@, ledger@);
        }
        return Err(ErrorCode::StudentAlreadyEnrolled);
    }
    if let Err(e) = escrow::lock(student_balance, course_custody, deposit) {
        proof {
            lemma_enrollment_preserved_same(old(ledger)@, ledger@);
        }
        return Err(e);
    }
    let course = &mut ledger.courses[ci];
    let appended = course.register(student);
    proof {
        let pre = old(ledger)@;
        let c = pre.courses[ci as int];
        let c2 = CourseModel { students: c.students.push(student), ..c };
        assert(ledger@.courses =~~= pre.courses.update(ci as int, c2));
        assert(ledger@ =~~= register_post(pre, student, name@, *old(student_balance), *old(
            course_custody,
        )));
        lemma_register_preserves_wf(pre, student, name@, *old(student_balance), *old(
            course_custody,
        ));
        assert forall|i: int| 0 <= i < pre.courses.len() implies pre.courses[i].students.is_prefix_of(
            (#[trigger] ledger@.courses[i]).students,
        ) by {
            if i == ci as int {
                lemma_prefix_push(c.students, student);
            } else {
                lemma_prefix_refl(pre.courses[i].students);
            }
        }
    }
    match appended {
        Ok(()) => Ok(()),
        Err(e) => Err(e),
    }
}

/// Creates the next lesson of the course named `name`. Only the bound
/// manager may do so; the lesson takes the id `last_lesson_id + 1`, which
/// must not exceed the course's lesson count, and the course's counter
/// moves up with it.
pub fn create_lesson(
    ledger: &mut Ledger,
    manager: u64,
    name: &String,
    attendance_deadline: u64,
) -> (r: Result<(), ErrorCode>)
    requires
        old(ledger)@.wf(),
        has_course(old(ledger)@.courses, name@),
    ensures
        final(ledger)@.wf(),
        r == create_lesson_outcome(old(ledger)@, manager, name@),
        final(ledger)@ == create_lesson_post(old(ledger)@, manager, name@, attendance_deadline),
        enrollment_preserved(old(ledger)@, final(ledger)@),
{
    if let Err(e) = ledger.authority.authorize(manager) {
        proof {
            lemma_enrollment_preserved_same(old(ledger)@, ledger@);
        }
        return Err(e);
    }
    let ci = match ledger.find_course(name) {
        Some(i) => i,
        None => {
            proof {
                lemma_enrollment_preserved_same(old(ledger)@, ledger@);
            }
            return Err(ErrorCode::ExceededCourseLessons);
        },
    };
    proof {
        lemma_course_index_is(old(ledger)@.courses, name@, ci as int);
    }
    let mut lesson = Lesson { course: String::new(), lesson_id: 0, attendance_deadline: 0 };
    let course = &mut ledger.courses[ci];
    let created = lesson.new(course, attendance_deadline);
    match created {
        Err(e) => {
            proof {
                assert(ledger@.courses =~~= old(ledger)@.courses);
                assert(ledger@ =~~= old(ledger)@);
                lemma_enrollment_preserved_same(old(ledger)@, ledger@);
            }
            Err(e)
        },
        Ok(()) => {
            ledger.lessons.push(lesson);
            proof {
                let pre = old(ledger)@;
                let c = pre.courses[ci as int];
                let next = (c.last_lesson_id + 1) as u8;
                let c2 = CourseModel { last_lesson_id: next, ..c };
                assert(ledger@.courses =~~= pre.courses.update(ci as int, c2));
                assert(ledger@.lessons =~~= pre.lessons.push(
                    LessonModel { course: name@, lesson_id: next, attendance_deadline },
                ));
                assert(ledger@ =~~= create_lesson_post(pre, manager, name@, attendance_deadline));
                lemma_create_lesson_preserves_wf(pre, manager, name@, attendance_deadline);
                assert forall|i: int|
                    0 <= i < pre.courses.len() implies pre.courses[i].students.is_prefix_of(
                    (#[trigger] ledger@.courses[i]).students,
                ) by {
                    lemma_prefix_refl(pre.courses[i].students);
                }
            }
            Ok(())
        },
    }
}

/// Marks the student's attendance for a lesson of the course named `name`.
/// The student must be enrolled, must not have marked this lesson before,
/// and `now` must not be past the lesson's attendance deadline; the
/// student's attendance record is created on first use. No failure path
/// writes anything.
pub fn mark_attendance(
    ledger: &mut Ledger,
    student: u64,
    name: &String,
    lesson_id: u8,
    now: u64,
) -> (r: Result<(), ErrorCode>)
    requires
        old(ledger)@.wf(),
        has_course(old(ledger)@.courses, name@),
        has_lesson(old(ledger)@.lessons, name@, lesson_id),
    ensures
        final(ledger)@.wf(),
        r == mark_attendance_outcome(old(ledger)@, student, name@, lesson_id, now),
        final(ledger)@ == mark_attendance_post(old(ledger)@, student, name@, lesson_id, now),
        enrollment_preserved(old(ledger)@, final(ledger)@),
{
    let ci = match ledger.find_course(name) {
        Some(i) => i,
        None => {
            proof {
                lemma_enrollment_preserved_same(old(ledger)@, ledger@);
            }
            return Err(ErrorCode::StudentNotEnrolled);
        },
    };
    proof {
        lemma_course_index_is(old(ledger)@.courses, name@, ci as int);
    }
    if !contains_u64(&ledger.courses[ci].students, student) {
        proof {
            lemma_enrollment_preserved_same(old(ledger)@, ledger@);
        }
        return Err(ErrorCode::StudentNotEnrolled);
    }
    let li = match ledger.find_lesson(name, lesson_id) {
        Some(i) => i,
        None => {
            proof {
                lemma_enrollment_preserved_same(old(ledger)@, ledger@);
            }
            return Err(ErrorCode::LateForLesson);
        },
    };
    proof {
        lemma_lesson_index_is(old(ledger)@.lessons, name@, lesson_id, li as int);
    }
    match ledger.find_record(name, student) {
        Some(ri) => {
            proof {
                lemma_record_index_is(old(ledger)@.records, name@, student, ri as int);
            }
            if contains_u8(&ledger.records[ri].attendance, lesson_id) {
                proof {
                    lemma_enrollment_preserved_same(old(ledger)@, ledger@);
                }
                return Err(ErrorCode::AttendanceAlreadyMarked);
            }
            if now > ledger.lessons[li].attendance_deadline {
                proof {
                    lemma_enrollment_preserved_same(old(ledger)@, ledger@);
                }
                return Err(ErrorCode::LateForLesson);
            }
            let rec = &mut ledger.records[ri];
            rec.attendance.push(lesson_id);
            proof {
                let pre = old(ledger)@;
                let r0 = pre.records[ri as int];
                let r2 = AttendanceModel { attendance: r0.attendance.push(lesson_id), ..r0 };
                assert(ledger@.records =~~= pre.records.update(ri as int, r2));
                assert(ledger@ =~~= mark_attendance_post(pre, student, name@, lesson_id, now));
                lemma_mark_attendance_preserves_wf(pre, student, name@, lesson_id, now);
                lemma_enrollment_preserved_same(pre, ledger@);
            }
            Ok(())
        },
        None => {
            if now > ledger.lessons[li].attendance_deadline {
                proof {
                    lemma_enrollment_preserved_same(old(ledger)@, ledger@);
                }
                return Err(ErrorCode::LateForLesson);
            }
            let mut marked: Vec<u8> = Vec::new();
            marked.push(lesson_id);
            let rec = Attendance {
                course: name.clone(),
                student,
                attendance: marked,
                withdrawn: false,
            };
            ledger.records.push(rec);
            proof {
                let pre = old(ledger)@;
                assert(ledger@.records =~~= pre.records.push(
                    AttendanceModel {
                        course: name@,
                        student,
                        attendance: seq![lesson_id],
                        withdrawn: false,
                    },
                ));
                assert(ledger@ =~~= mark_attendance_post(pre, student, name@, lesson_id, now));
                lemma_mark_attendance_preserves_wf(pre, student, name@, lesson_id, now);
                lemma_enrollment_preserved_same(pre, ledger@);
            }
            Ok(())
        },
    }
}

/// Releases the deposit of the course named `name` back to the student and
/// marks the record withdrawn, as one atomic unit. The student must be
/// enrolled, `now` must have reached the course's lock time, attendance must
/// be complete, and the deposit must not have been withdrawn before; the
/// last three all surface as `NotReadyForWithdrawal`. The caller passes the
/// course's custody balance, which covers the deposit whenever withdrawal is
/// possible.
pub fn withdraw(
    ledger: &mut Ledger,
    student: u64,
    name: &String,
    now: u64,
    student_balance: &mut u64,
    course_custody: &mut u64,
) -> (r: Result<(), ErrorCode>)
    requires
        old(ledger)@.wf(),
        has_course(old(ledger)@.courses, name@),
        withdraw_outcome(old(ledger)@, student, name@, now) is Ok ==> *old(course_custody)
            >= course_at(old(ledger)@.courses, name@).deposit && *old(student_balance) + course_at(
            old(ledger)@.courses,
            name@,
        ).deposit <= u64::MAX,
    ensures
        final(ledger)@.wf(),
        r == withdraw_outcome(old(ledger)@, student, name@, now),
        final(ledger)@ == withdraw_post(old(ledger)@, student, name@, now),
        r is Ok ==> *final(student_balance) == *old(student_balance) + course_at(
            old(ledger)@.courses,
            name@,
        ).deposit && *final(course_custody) == *old(course_custody) - course_at(
            old(ledger)@.courses,
            name@,
        ).deposit,
        r is Err ==> *final(student_balance) == *old(student_balance) && *final(course_custody)
            == *old(course_custody),
        enrollment_preserved(old(ledger)@, final(ledger)@),
{
    let ci = match ledger.find_course(name) {
        Some(i) => i,
        None => {
            proof {
                lemma_enrollment_preserved_same(old(ledger)@, ledger@);
            }
            return Err(ErrorCode::StudentNotEnrolled);
        },
    };
    proof {
        lemma_course_index_is(old(ledger)@.courses, name@, ci as int);
    }
    if !contains_u64(&ledger.courses[ci].students, student) {
        proof {
            lemma_enrollment_preserved_same(old(ledger)@, ledger@);
        }
        return Err(ErrorCode::StudentNotEnrolled);
    }
    if now < ledger.courses[ci].lock_until {
        proof {
            lemma_enrollment_preserved_same(old(ledger)@, ledger@);
        }
        return Err(ErrorCode::NotReadyForWithdrawal);
    }
    let deposit = ledger.courses[ci].deposit;
    let num_of_lessons = ledger.courses[ci].num_of_lessons;
    match ledger.find_record(name, student) {
        Some(ri) => {
            proof {
                lemma_record_index_is(old(ledger)@.records, name@, student, ri as int);
            }
            let complete = ledger.records[ri].attendance.len() == num_of_lessons as usize
                && !ledger.records[ri].withdrawn;
            if !complete {
                proof {
                    lemma_enrollment_preserved_same(old(ledger)@, ledger@);
                }
                return Err(ErrorCode::NotReadyForWithdrawal);
            }
            escrow::release(course_custody, student_balance, deposit);
            let rec = &mut ledger.records[ri];
            rec.withdrawn = true;
            proof {
                let pre = old(ledger)@;
                let r0 = pre.records[ri as int];
                let r2 = AttendanceModel { withdrawn: true, ..r0 };
                assert(ledger@.records =~~= pre.records.update(ri as int, r2));
                assert(ledger@ =~~= withdraw_post(pre, student, name@, now));
                lemma_withdraw_preserves_wf(pre, student, name@, now);
                lemma_enrollment_preserved_same(pre, ledger@);
            }
            Ok(())
        },
        None => {
            if num_of_lessons != 0 {
                proof {
                    lemma_enrollment_preserved_same(old(ledger)@, ledger@);
                }
                return Err(ErrorCode::NotReadyForWithdrawal);
            }
            escrow::release(course_custody, student_balance, deposit);
            let rec = Attendance {
                course: name.clone(),
                student,
                attendance: Vec::new(),
                withdrawn: true,
            };
            ledger.records.push(rec);
            proof {
                let pre = old(ledger)@;
                assert(ledger@.records =~~= pre.records.push(
                    AttendanceModel {
                        course: name@,
                        student,
                        attendance: Seq::empty(),
                        withdrawn: true,
                    },
                ));
                assert(ledger@ =~~= withdraw_post(pre, student, name@, now));
                lemma_withdraw_preserves_wf(pre, student, name@, now);
                lemma_enrollment_preserved_same(pre, ledger@);
            }
            Ok(())
        },
    }
}

} // verus!
