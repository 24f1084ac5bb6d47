use vstd::prelude::*;

use crate::errors::ErrorCode;
use crate::invariants::{
    lemma_record_lookup_update, lemma_unique_record_keys_push,
};
use crate::model::{
    AttendanceModel, LedgerModel, course_at, course_index, course_wf, has_course, has_lesson, has_record,
    lemma_course_index_valid, lemma_lesson_index_valid, lemma_record_index_is,
    lemma_record_index_valid, lesson_index, lesson_wf, record_at, record_index,
};
use crate::transitions::{
    already_withdrawn, attended_count, create_lesson_outcome,
    create_lesson_post, mark_attendance_outcome, mark_attendance_post, withdraw_outcome,
    withdraw_post,
};

verus! {

/// Enrollment entries are unique: in a well-formed ledger no student appears
/// twice in any course's enrollment list. Together with the
/// `enrollment_preserved` clause every operation ensures, an enrollment list
/// only ever grows, and never gains a duplicate.
pub proof fn lemma_enrollment_entries_unique(m: LedgerModel, i: int, p: int, q: int)
    requires
        m.wf(),
        0 <= i < m.courses.len(),
        0 <= p < q < m.courses[i].students.len(),
    ensures
        m.courses[i].students[p] != m.courses[i].students[q],
{
    assert(course_wf(m.courses[i]));
}

/// Marking attendance succeeds at most once: after a successful mark of a
/// lesson, a second mark of the same lesson by the same student fails with
/// `AttendanceAlreadyMarked`, whatever time it is attempted at.
pub proof fn lemma_mark_attendance_at_most_once(
    m: LedgerModel,
    student: u64,
    name: Seq<char>,
    lesson_id: u8,
    now1: u64,
    now2: u64,
)
    requires
        m.wf(),
        has_course(m.courses, name),
        has_lesson(m.lessons, name, lesson_id),
        mark_attendance_outcome(m, student, name, lesson_id, now1) is Ok,
    ensures
        mark_attendance_outcome(
            mark_attendance_post(m, student, name, lesson_id, now1),
            student,
            name,
            lesson_id,
            now2,
        ) == Err::<(), ErrorCode>(ErrorCode::AttendanceAlreadyMarked),
{
    let p = mark_attendance_post(m, student, name, lesson_id, now1);
    assert(p.courses == m.courses);
    if has_record(m.records, name, student) {
        lemma_record_index_valid(m.records, name, student);
        let ri = record_index(m.records, name, student);
        let r0 = m.records[ri];
        let r2 = AttendanceModel { attendance: r0.attendance.push(lesson_id), ..r0 };
        assert(p.records == m.records.update(ri, r2));
        lemma_record_lookup_update(m.records, ri, r2, name, student);
        assert(record_at(p.records, name, student) == r2);
        assert(r2.attendance[r0.attendance.len() as int] == lesson_id);
        assert(r2.attendance.contains(lesson_id));
    } else {
        let rnew = AttendanceModel {
            course: name,
            student,
            attendance: seq![lesson_id],
            withdrawn: false,
        };
        assert(p.records == m.records.push(rnew));
        lemma_unique_record_keys_push(m.records, rnew);
        lemma_record_index_is(p.records, name, student, m.records.len() as int);
        assert(record_at(p.records, name, student) == rnew);
        assert(rnew.attendance[0] == lesson_id);
        assert(rnew.attendance.contains(lesson_id));
    }
}

/// Withdrawal succeeds only under the full precondition: when `withdraw` reports
/// success, the student was enrolled, the lock time had elapsed, attendance
/// was complete, and the deposit had not been withdrawn before.
pub proof fn lemma_withdraw_requires_completion(
    m: LedgerModel,
    student: u64,
    name: Seq<char>,
    now: u64,
)
    requires
        withdraw_outcome(m, student, name, now) is Ok,
    ensures
        course_at(m.courses, name).students.contains(student),
        now >= course_at(m.courses, name).lock_until,
        attended_count(m, name, student) == course_at(m.courses, name).num_of_lessons,
        !already_withdrawn(m, name, student),
{
}

/// Withdrawal succeeds at most once: after a successful withdrawal, a second
/// attempt by the same student for the same course fails with
/// `NotReadyForWithdrawal`, whatever time it is attempted at.
pub proof fn lemma_withdraw_at_most_once(
    m: LedgerModel,
    student: u64,
    name: Seq<char>,
    now1: u64,
    now2: u64,
)
    requires
        m.wf(),
        has_course(m.courses, name),
        withdraw_outcome(m, student, name, now1) is Ok,
    ensures
        withdraw_outcome(withdraw_post(m, student, name, now1), student, name, now2)
            == Err::<(), ErrorCode>(ErrorCode::NotReadyForWithdrawal),
{
    let p = withdraw_post(m, student, name, now1);
    assert(p.courses == m.courses);
    if has_record(m.records, name, student) {
        lemma_record_index_valid(m.records, name, student);
        let ri = record_index(m.records, name, student);
        let r0 = m.records[ri];
        let r2 = AttendanceModel { withdrawn: true, ..r0 };
        assert(p.records == m.records.update(ri, r2));
        lemma_record_lookup_update(m.records, ri, r2, name, student);
        assert(record_at(p.records, name, student) == r2);
        assert(already_withdrawn(p, name, student));
    } else {
        let rnew = AttendanceModel {
            course: name,
            student,
            attendance: Seq::empty(),
            withdrawn: true,
        };
        assert(p.records == m.records.push(rnew));
        lemma_unique_record_keys_push(m.records, rnew);
        lemma_record_index_is(p.records, name, student, m.records.len() as int);
        assert(record_at(p.records, name, student) == rnew);
        assert(already_withdrawn(p, name, student));
    }
}

/// Lesson ids of a course form exactly the gapless range
/// 1..=last_lesson_id, and no id is claimed by two lessons.
pub proof fn lemma_lesson_ids_sequential(m: LedgerModel, name: Seq<char>)
    requires
        m.wf(),
        has_course(m.courses, name),
    ensures
        forall|id: u8|
            1 <= id <= course_at(m.courses, name).last_lesson_id ==> has_lesson(
                m.lessons,
                name,
                id,
            ),
        forall|id: u8|
            has_lesson(m.lessons, name, id) ==> 1 <= id <= course_at(
                m.courses,
                name,
            ).last_lesson_id,
        forall|i: int, j: int|
            0 <= i < j < m.lessons.len() && m.lessons[i].course == name && m.lessons[j].course
                == name ==> m.lessons[i].lesson_id != m.lessons[j].lesson_id,
{
    lemma_course_index_valid(m.courses, name);
    let ci = course_index(m.courses, name);
    assert forall|id: u8| 1 <= id <= course_at(m.courses, name).last_lesson_id implies has_lesson(
        m.lessons,
        name,
        id,
    ) by {
        assert(has_lesson(m.lessons, m.courses[ci].name, id));
    }
    assert forall|id: u8| has_lesson(m.lessons, name, id) implies 1 <= id <= course_at(
        m.courses,
        name,
    ).last_lesson_id by {
        lemma_lesson_index_valid(m.lessons, name, id);
        let k = lesson_index(m.lessons, name, id);
        assert(lesson_wf(m, m.lessons[k]));
    }
}

/// A lesson id above the course's counter is still unclaimed, so each
/// `create_lesson` call claims a fresh id: the ids a course hands out are
/// the strictly increasing sequence 1, 2, ... with no repeats.
pub proof fn lemma_create_lesson_assigns_next(
    m: LedgerModel,
    manager: u64,
    name: Seq<char>,
    attendance_deadline: u64,
)
    requires
        m.wf(),
        has_course(m.courses, name),
        create_lesson_outcome(m, manager, name) is Ok,
    ensures
        !has_lesson(m.lessons, name, (course_at(m.courses, name).last_lesson_id + 1) as u8),
        has_lesson(
            create_lesson_post(m, manager, name, attendance_deadline).lessons,
            name,
            (course_at(m.courses, name).last_lesson_id + 1) as u8,
        ),
        course_at(
            create_lesson_post(m, manager, name, attendance_deadline).courses,
            name,
        ).last_lesson_id == course_at(m.courses, name).last_lesson_id + 1,
{
    lemma_course_index_valid(m.courses, name);
    let ci = course_index(m.courses, name);
    let c = m.courses[ci];
    let next = (c.last_lesson_id + 1) as u8;
    assert(!has_lesson(m.lessons, name, next)) by {
        if has_lesson(m.lessons, name, next) {
            lemma_lesson_index_valid(m.lessons, name, next);
            let k = lesson_index(m.lessons, name, next);
            assert(lesson_wf(m, m.lessons[k]));
        }
    }
    let p = create_lesson_post(m, manager, name, attendance_deadline);
    assert(p.lessons[m.lessons.len() as int].course == name);
    assert(p.lessons[m.lessons.len() as int].lesson_id == next);
    let c2 = crate::model::CourseModel { last_lesson_id: next, ..c };
    crate::invariants::lemma_course_lookup_update(m.courses, ci, c2, name);
}

} // verus!
