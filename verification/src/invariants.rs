use vstd::prelude::*;

use crate::model::{
    AttendanceModel, CourseModel, LedgerModel, LessonModel, course_at, course_index, course_wf,
    courses_wf, has_course, has_lesson, has_record, lemma_course_index_is,
    lemma_course_index_valid, lemma_lesson_index_is, lemma_lesson_index_valid,
    lemma_record_index_is, lemma_record_index_valid, lesson_at, lesson_index, lesson_wf,
    lessons_complete, lessons_wf, record_at, record_index, record_wf, records_wf,
    unique_course_names, unique_lesson_keys, unique_record_keys,
};
use crate::transitions::{
    create_course_outcome, create_course_post, create_lesson_outcome, create_lesson_post,
    enrollment_preserved, mark_attendance_outcome, mark_attendance_post, new_course,
    register_outcome, register_post, withdraw_outcome, withdraw_post,
};

verus! {

/// A sequence is a prefix of itself.
pub proof fn lemma_prefix_refl(s: Seq<u64>)
    ensures
        s.is_prefix_of(s),
{
    assert(s =~= s.subrange(0, s.len() as int));
}

/// A sequence is a prefix of itself extended by one element.
pub proof fn lemma_prefix_push(s: Seq<u64>, x: u64)
    ensures
        s.is_prefix_of(s.push(x)),
{
    assert(s =~= s.push(x).subrange(0, s.len() as int));
}

/// A step that leaves the course store unchanged preserves every enrollment
/// list.
pub proof fn lemma_enrollment_preserved_same(pre: LedgerModel, post: LedgerModel)
    requires
        pre.courses == post.courses,
    ensures
        enrollment_preserved(pre, post),
{
    assert forall|i: int| 0 <= i < pre.courses.len() implies pre.courses[i].students.is_prefix_of(
        (#[trigger] post.courses[i]).students,
    ) by {
        lemma_prefix_refl(pre.courses[i].students);
    }
}

/// Appending a course with a fresh name keeps names unique and leaves every
/// existing course lookup unchanged.
pub proof fn lemma_course_lookup_push(courses: Seq<CourseModel>, c: CourseModel, n: Seq<char>)
    requires
        unique_course_names(courses),
        !has_course(courses, c.name),
        has_course(courses, n),
    ensures
        unique_course_names(courses.push(c)),
        has_course(courses.push(c), n),
        course_index(courses.push(c), n) == course_index(courses, n),
        course_at(courses.push(c), n) == course_at(courses, n),
{
    let p = courses.push(c);
    assert forall|i: int, j: int| 0 <= i < j < p.len() implies p[i].name != p[j].name by {
        if j == courses.len() as int {
            if p[i].name == c.name {
                assert(courses[i].name == c.name);
                assert(has_course(courses, c.name));
            }
        }
    }
    let i = course_index(courses, n);
    lemma_course_index_valid(courses, n);
    assert(p[i] == courses[i]);
    lemma_course_index_is(p, n, i);
}

/// Replacing a course by one with the same name keeps names unique; the
/// lookup for that name yields the replacement and every other lookup is
/// unchanged.
pub proof fn lemma_course_lookup_update(
    courses: Seq<CourseModel>,
    ci: int,
    c2: CourseModel,
    n: Seq<char>,
)
    requires
        unique_course_names(courses),
        0 <= ci < courses.len(),
        c2.name == courses[ci].name,
        has_course(courses, n),
    ensures
        unique_course_names(courses.update(ci, c2)),
        has_course(courses.update(ci, c2), n),
        course_index(courses.update(ci, c2), n) == course_index(courses, n),
        course_at(courses.update(ci, c2), n) == (if n == courses[ci].name {
            c2
        } else {
            course_at(courses, n)
        }),
{
    let u = courses.update(ci, c2);
    assert forall|i: int, j: int| 0 <= i < j < u.len() implies u[i].name != u[j].name by {
        assert(u[i].name == courses[i].name);
        assert(u[j].name == courses[j].name);
    }
    let i = course_index(courses, n);
    lemma_course_index_valid(courses, n);
    assert(u[i].name == courses[i].name);
    lemma_course_index_is(u, n, i);
    if n == courses[ci].name {
        assert(i == ci) by {
            if i != ci {
                assert(courses[i].name == courses[ci].name);
            }
        }
    }
}

/// Appending a lesson under a fresh (course, id) key keeps lesson keys
/// unique.
pub proof fn lemma_unique_lesson_keys_push(lessons: Seq<LessonModel>, l: LessonModel)
    requires
        unique_lesson_keys(lessons),
        !has_lesson(lessons, l.course, l.lesson_id),
    ensures
        unique_lesson_keys(lessons.push(l)),
{
    let p = lessons.push(l);
    assert forall|i: int, j: int| 0 <= i < j < p.len() implies !(p[i].course == p[j].course
        && p[i].lesson_id == p[j].lesson_id) by {
        if j == lessons.len() as int {
            if p[i].course == l.course && p[i].lesson_id == l.lesson_id {
                assert(lessons[i].course == l.course && lessons[i].lesson_id == l.lesson_id);
                assert(has_lesson(lessons, l.course, l.lesson_id));
            }
        }
    }
}

/// Appending an attendance record under a fresh (course, student) key keeps
/// record keys unique.
pub proof fn lemma_unique_record_keys_push(records: Seq<AttendanceModel>, r: AttendanceModel)
    requires
        unique_record_keys(records),
        !has_record(records, r.course, r.student),
    ensures
        unique_record_keys(records.push(r)),
{
    let p = records.push(r);
    assert forall|i: int, j: int| 0 <= i < j < p.len() implies !(p[i].course == p[j].course
        && p[i].student == p[j].student) by {
        if j == records.len() as int {
            if p[i].course == r.course && p[i].student == r.student {
                assert(records[i].course == r.course && records[i].student == r.student);
                assert(has_record(records, r.course, r.student));
            }
        }
    }
}

/// Replacing an attendance record by one with the same key keeps record keys
/// unique; the lookup for that key yields the replacement and every other
/// lookup is unchanged.
pub proof fn lemma_record_lookup_update(
    records: Seq<AttendanceModel>,
    ri: int,
    r2: AttendanceModel,
    n: Seq<char>,
    student: u64,
)
    requires
        unique_record_keys(records),
        0 <= ri < records.len(),
        r2.course == records[ri].course,
        r2.student == records[ri].student,
        has_record(records, n, student),
    ensures
        unique_record_keys(records.update(ri, r2)),
        has_record(records.update(ri, r2), n, student),
        record_index(records.update(ri, r2), n, student) == record_index(records, n, student),
        record_at(records.update(ri, r2), n, student) == (if n == records[ri].course && student
            == records[ri].student {
            r2
        } else {
            record_at(records, n, student)
        }),
{
    let u = records.update(ri, r2);
    assert forall|i: int, j: int| 0 <= i < j < u.len() implies !(u[i].course == u[j].course
        && u[i].student == u[j].student) by {
        assert(u[i].course == records[i].course && u[i].student == records[i].student);
        assert(u[j].course == records[j].course && u[j].student == records[j].student);
    }
    let i = record_index(records, n, student);
    lemma_record_index_valid(records, n, student);
    assert(u[i].course == records[i].course && u[i].student == records[i].student);
    lemma_record_index_is(u, n, student, i);
    if n == records[ri].course && student == records[ri].student {
        assert(i == ri) by {
            if i != ri {
                assert(!(records[i].course == records[ri].course
                    && records[i].student == records[ri].student));
            }
        }
    }
}

/// `create_course` preserves the ledger invariant, and on success the new
/// course is found under its name.
pub proof fn lemma_create_course_preserves_wf(
    m: LedgerModel,
    manager: u64,
    name: Seq<char>,
    deposit: u64,
    lock_until: u64,
    num_of_lessons: u8,
    deposit_token: u64,
)
    requires
        m.wf(),
    ensures
        create_course_post(m, manager, name, deposit, lock_until, num_of_lessons,
            deposit_token).wf(),
        create_course_outcome(m, manager, name) is Ok ==> has_course(
            create_course_post(m, manager, name, deposit, lock_until, num_of_lessons,
                deposit_token).courses,
            name,
        ) && course_at(
            create_course_post(m, manager, name, deposit, lock_until, num_of_lessons,
                deposit_token).courses,
            name,
        ) == new_course(name, manager, deposit, lock_until, num_of_lessons, deposit_token),
{
    if create_course_outcome(m, manager, name) is Ok {
        let c = new_course(name, manager, deposit, lock_until, num_of_lessons, deposit_token);
        let p = create_course_post(m, manager, name, deposit, lock_until, num_of_lessons,
            deposit_token);
        assert(p.courses == m.courses.push(c));
        assert forall|i: int, j: int| 0 <= i < j < p.courses.len() implies p.courses[i].name
            != p.courses[j].name by {
            if j == m.courses.len() as int {
                if p.courses[i].name == c.name {
                    assert(m.courses[i].name == name);
                    assert(has_course(m.courses, name));
                }
            }
        }
        assert forall|i: int| 0 <= i < p.courses.len() implies course_wf(#[trigger] p.courses[i]) by {
            if i < m.courses.len() {
                assert(course_wf(m.courses[i]));
            }
        }
        assert forall|i: int| 0 <= i < p.lessons.len() implies lesson_wf(p, #[trigger] p.lessons[i]) by {
            assert(lesson_wf(m, m.lessons[i]));
            lemma_course_lookup_push(m.courses, c, m.lessons[i].course);
        }
        assert forall|i: int, id: u8|
            0 <= i < p.courses.len() && 1 <= id <= p.courses[i].last_lesson_id implies #[trigger] has_lesson(
            p.lessons,
            p.courses[i].name,
            id,
        ) by {
            if i < m.courses.len() {
                assert(has_lesson(m.lessons, m.courses[i].name, id));
            }
        }
        assert forall|i: int| 0 <= i < p.records.len() implies record_wf(p, #[trigger] p.records[i]) by {
            assert(record_wf(m, m.records[i]));
            lemma_course_lookup_push(m.courses, c, m.records[i].course);
        }
        let i0 = m.courses.len() as int;
        lemma_course_index_is(p.courses, name, i0);
    }
}

/// A course update that keeps the name, the lesson counter and the lesson
/// count preserves the parts of the invariant that mention the course store,
/// provided the updated course itself is well formed.
pub proof fn lemma_wf_after_course_update(m: LedgerModel, ci: int, c2: CourseModel)
    requires
        m.wf(),
        0 <= ci < m.courses.len(),
        c2.name == m.courses[ci].name,
        c2.last_lesson_id == m.courses[ci].last_lesson_id,
        c2.num_of_lessons == m.courses[ci].num_of_lessons,
        course_wf(c2),
    ensures
        (LedgerModel { courses: m.courses.update(ci, c2), ..m }).wf(),
{
    let p = LedgerModel { courses: m.courses.update(ci, c2), ..m };
    lemma_course_lookup_update(m.courses, ci, c2, m.courses[ci].name);
    assert forall|i: int| 0 <= i < p.courses.len() implies course_wf(#[trigger] p.courses[i]) by {
        if i != ci {
            assert(p.courses[i] == m.courses[i]);
            assert(course_wf(m.courses[i]));
        }
    }
    assert forall|i: int| 0 <= i < p.lessons.len() implies lesson_wf(p, #[trigger] p.lessons[i]) by {
        assert(lesson_wf(m, m.lessons[i]));
        lemma_course_lookup_update(m.courses, ci, c2, m.lessons[i].course);
    }
    assert forall|i: int, id: u8|
        0 <= i < p.courses.len() && 1 <= id <= p.courses[i].last_lesson_id implies #[trigger] has_lesson(
        p.lessons,
        p.courses[i].name,
        id,
    ) by {
        assert(p.courses[i].name == m.courses[i].name);
        assert(p.courses[i].last_lesson_id == m.courses[i].last_lesson_id);
        assert(has_lesson(m.lessons, m.courses[i].name, id));
    }
    assert forall|i: int| 0 <= i < p.records.len() implies record_wf(p, #[trigger] p.records[i]) by {
        assert(record_wf(m, m.records[i]));
        lemma_course_lookup_update(m.courses, ci, c2, m.records[i].course);
    }
}

/// Appending a lesson never removes an existing lesson key.
pub proof fn lemma_has_lesson_push(lessons: Seq<LessonModel>, l: LessonModel, n: Seq<char>, id: u8)
    requires
        has_lesson(lessons, n, id),
    ensures
        has_lesson(lessons.push(l), n, id),
{
    let k = choose|k: int|
        0 <= k < lessons.len() && lessons[k].course == n && lessons[k].lesson_id == id;
    assert(lessons.push(l)[k] == lessons[k]);
}

/// `create_lesson` preserves the ledger invariant, and on success the new
/// lesson is found under its (course, id) key.
pub proof fn lemma_create_lesson_preserves_wf(
    m: LedgerModel,
    manager: u64,
    name: Seq<char>,
    attendance_deadline: u64,
)
    requires
        m.wf(),
        has_course(m.courses, name),
    ensures
        create_lesson_post(m, manager, name, attendance_deadline).wf(),
{
    if create_lesson_outcome(m, manager, name) is Ok {
        lemma_course_index_valid(m.courses, name);
        let ci = course_index(m.courses, name);
        let c = m.courses[ci];
        let next = (c.last_lesson_id + 1) as u8;
        let c2 = CourseModel { last_lesson_id: next, ..c };
        let lnew = LessonModel { course: name, lesson_id: next, attendance_deadline };
        let p = create_lesson_post(m, manager, name, attendance_deadline);
        assert(p.courses == m.courses.update(ci, c2));
        assert(p.lessons == m.lessons.push(lnew));
        lemma_course_lookup_update(m.courses, ci, c2, name);
        assert forall|i: int| 0 <= i < p.courses.len() implies course_wf(#[trigger] p.courses[i]) by {
            if i != ci {
                assert(p.courses[i] == m.courses[i]);
            }
            assert(course_wf(m.courses[i]));
        }
        assert(!has_lesson(m.lessons, name, next)) by {
            if has_lesson(m.lessons, name, next) {
                let k = lesson_index(m.lessons, name, next);
                lemma_lesson_index_valid(m.lessons, name, next);
                assert(lesson_wf(m, m.lessons[k]));
                assert(m.lessons[k].lesson_id <= course_at(m.courses, name).last_lesson_id);
            }
        }
        lemma_unique_lesson_keys_push(m.lessons, lnew);
        assert forall|i: int| 0 <= i < p.lessons.len() implies lesson_wf(p, #[trigger] p.lessons[i]) by {
            if i < m.lessons.len() {
                assert(lesson_wf(m, m.lessons[i]));
                lemma_course_lookup_update(m.courses, ci, c2, m.lessons[i].course);
                assert(p.lessons[i] == m.lessons[i]);
            } else {
                assert(p.lessons[i] == lnew);
                lemma_course_lookup_update(m.courses, ci, c2, name);
            }
        }
        assert forall|i: int, id: u8|
            0 <= i < p.courses.len() && 1 <= id <= p.courses[i].last_lesson_id implies #[trigger] has_lesson(
            p.lessons,
            p.courses[i].name,
            id,
        ) by {
            if i == ci {
                if id <= c.last_lesson_id {
                    assert(has_lesson(m.lessons, m.courses[i].name, id));
                    lemma_has_lesson_push(m.lessons, lnew, m.courses[i].name, id);
                } else {
                    assert(id == next);
                    assert(p.lessons[m.lessons.len() as int] == lnew);
                    assert(p.courses[i].name == name);
                }
            } else {
                assert(p.courses[i] == m.courses[i]);
                assert(has_lesson(m.lessons, m.courses[i].name, id));
                lemma_has_lesson_push(m.lessons, lnew, m.courses[i].name, id);
            }
        }
        assert forall|i: int| 0 <= i < p.records.len() implies record_wf(p, #[trigger] p.records[i]) by {
            assert(record_wf(m, m.records[i]));
            lemma_course_lookup_update(m.courses, ci, c2, m.records[i].course);
        }
    }
}

/// `register` preserves the ledger invariant.
pub proof fn lemma_register_preserves_wf(
    m: LedgerModel,
    student: u64,
    name: Seq<char>,
    balance: u64,
    custody: u64,
)
    requires
        m.wf(),
        has_course(m.courses, name),
    ensures
        register_post(m, student, name, balance, custody).wf(),
{
    if register_outcome(m, student, name, balance, custody) is Ok {
        lemma_course_index_valid(m.courses, name);
        let ci = course_index(m.courses, name);
        let c = m.courses[ci];
        let c2 = CourseModel { students: c.students.push(student), ..c };
        assert(!c.students.contains(student));
        assert(course_wf(c2)) by {
            assert forall|i: int, j: int| 0 <= i < j < c2.students.len() implies c2.students[i]
                != c2.students[j] by {
                if j == c.students.len() as int {
                    assert(c2.students[i] == c.students[i]);
                    if c.students[i] == student {
                        assert(c.students.contains(student));
                    }
                }
            }
        }
        lemma_wf_after_course_update(m, ci, c2);
        assert(register_post(m, student, name, balance, custody) =~~= (LedgerModel {
            courses: m.courses.update(ci, c2),
            ..m
        }));
    }
}

/// A record store change that keeps every record's key and well-formedness
/// preserves the parts of the invariant that mention records, and the rest
/// of the invariant does not mention them.
pub proof fn lemma_wf_after_records_change(m: LedgerModel, records2: Seq<AttendanceModel>)
    requires
        m.wf(),
        unique_record_keys(records2),
        forall|i: int|
            0 <= i < records2.len() ==> record_wf(m, #[trigger] records2[i]),
    ensures
        (LedgerModel { records: records2, ..m }).wf(),
{
    let p = LedgerModel { records: records2, ..m };
    assert forall|i: int| 0 <= i < p.lessons.len() implies lesson_wf(p, #[trigger] p.lessons[i]) by {
        assert(lesson_wf(m, m.lessons[i]));
    }
    assert forall|i: int, id: u8|
        0 <= i < p.courses.len() && 1 <= id <= p.courses[i].last_lesson_id implies #[trigger] has_lesson(
        p.lessons,
        p.courses[i].name,
        id,
    ) by {
        assert(has_lesson(m.lessons, m.courses[i].name, id));
    }
    assert forall|i: int| 0 <= i < p.records.len() implies record_wf(p, #[trigger] p.records[i]) by {
        assert(record_wf(m, records2[i]));
    }
}

/// `mark_attendance` preserves the ledger invariant.
pub proof fn lemma_mark_attendance_preserves_wf(
    m: LedgerModel,
    student: u64,
    name: Seq<char>,
    lesson_id: u8,
    now: u64,
)
    requires
        m.wf(),
        has_course(m.courses, name),
        has_lesson(m.lessons, name, lesson_id),
    ensures
        mark_attendance_post(m, student, name, lesson_id, now).wf(),
{
    if mark_attendance_outcome(m, student, name, lesson_id, now) is Ok {
        lemma_lesson_index_valid(m.lessons, name, lesson_id);
        let li = lesson_index(m.lessons, name, lesson_id);
        assert(lesson_wf(m, m.lessons[li]));
        assert(1 <= lesson_id && lesson_id <= course_at(m.courses, name).last_lesson_id);
        if has_record(m.records, name, student) {
            lemma_record_index_valid(m.records, name, student);
            let ri = record_index(m.records, name, student);
            let r = m.records[ri];
            let r2 = AttendanceModel { attendance: r.attendance.push(lesson_id), ..r };
            assert(!r.attendance.contains(lesson_id));
            assert(record_wf(m, r));
            assert(record_wf(m, r2)) by {
                assert forall|i: int, j: int|
                    0 <= i < j < r2.attendance.len() implies r2.attendance[i]
                    != r2.attendance[j] by {
                    if j == r.attendance.len() as int {
                        assert(r2.attendance[i] == r.attendance[i]);
                        if r.attendance[i] == lesson_id {
                            assert(r.attendance.contains(lesson_id));
                        }
                    }
                }
                assert(r.course == name);
                assert forall|i: int|
                    0 <= i < r2.attendance.len() implies 1 <= #[trigger] r2.attendance[i]
                    && r2.attendance[i] <= course_at(m.courses, r2.course).last_lesson_id by {
                    if i < r.attendance.len() {
                        assert(r2.attendance[i] == r.attendance[i]);
                    } else {
                        assert(r2.attendance[i] == lesson_id);
                    }
                }
            }
            let records2 = m.records.update(ri, r2);
            lemma_record_lookup_update(m.records, ri, r2, name, student);
            assert forall|i: int| 0 <= i < records2.len() implies record_wf(
                m,
                #[trigger] records2[i],
            ) by {
                if i != ri {
                    assert(records2[i] == m.records[i]);
                }
                assert(record_wf(m, m.records[i]));
            }
            lemma_wf_after_records_change(m, records2);
            assert(mark_attendance_post(m, student, name, lesson_id, now) =~~= (LedgerModel {
                records: records2,
                ..m
            }));
        } else {
            let rnew = AttendanceModel {
                course: name,
                student,
                attendance: seq![lesson_id],
                withdrawn: false,
            };
            assert(record_wf(m, rnew)) by {
                assert(rnew.attendance[0] == lesson_id);
            }
            lemma_unique_record_keys_push(m.records, rnew);
            let records2 = m.records.push(rnew);
            assert forall|i: int| 0 <= i < records2.len() implies record_wf(
                m,
                #[trigger] records2[i],
            ) by {
                if i < m.records.len() {
                    assert(records2[i] == m.records[i]);
                    assert(record_wf(m, m.records[i]));
                }
            }
            lemma_wf_after_records_change(m, records2);
            assert(mark_attendance_post(m, student, name, lesson_id, now) =~~= (LedgerModel {
                records: records2,
                ..m
            }));
        }
    }
}

/// `withdraw` preserves the ledger invariant.
pub proof fn lemma_withdraw_preserves_wf(m: LedgerModel, student: u64, name: Seq<char>, now: u64)
    requires
        m.wf(),
        has_course(m.courses, name),
    ensures
        withdraw_post(m, student, name, now).wf(),
{
    if withdraw_outcome(m, student, name, now) is Ok {
        if has_record(m.records, name, student) {
            lemma_record_index_valid(m.records, name, student);
            let ri = record_index(m.records, name, student);
            let r = m.records[ri];
            let r2 = AttendanceModel { withdrawn: true, ..r };
            assert(record_wf(m, r));
            let records2 = m.records.update(ri, r2);
            lemma_record_lookup_update(m.records, ri, r2, name, student);
            assert forall|i: int| 0 <= i < records2.len() implies record_wf(
                m,
                #[trigger] records2[i],
            ) by {
                if i != ri {
                    assert(records2[i] == m.records[i]);
                }
                assert(record_wf(m, m.records[i]));
            }
            lemma_wf_after_records_change(m, records2);
            assert(withdraw_post(m, student, name, now) =~~= (LedgerModel {
                records: records2,
                ..m
            }));
        } else {
            let rnew = AttendanceModel {
                course: name,
                student,
                attendance: Seq::empty(),
                withdrawn: true,
            };
            assert(record_wf(m, rnew));
            lemma_unique_record_keys_push(m.records, rnew);
            let records2 = m.records.push(rnew);
            assert forall|i: int| 0 <= i < records2.len() implies record_wf(
                m,
                #[trigger] records2[i],
            ) by {
                if i < m.records.len() {
                    assert(records2[i] == m.records[i]);
                    assert(record_wf(m, m.records[i]));
                }
            }
            lemma_wf_after_records_change(m, records2);
            assert(withdraw_post(m, student, name, now) =~~= (LedgerModel {
                records: records2,
                ..m
            }));
        }
    }
}

} // verus!
