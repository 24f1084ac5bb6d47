use vstd::prelude::*;

verus! {

/// Mathematical model of a course record: the unique name key, the manager
/// that created it, the ordered enrollment list, the fixed deposit amount,
/// the earliest withdrawal time, the fixed lesson count, the lesson counter,
/// and the reference to the deposit asset.
#[verifier::ext_equal]
pub ghost struct CourseModel {
    pub name: Seq<char>,
    pub manager: u64,
    pub students: Seq<u64>,
    pub deposit: u64,
    pub lock_until: u64,
    pub num_of_lessons: u8,
    pub last_lesson_id: u8,
    pub deposit_token: u64,
}

/// Mathematical model of a lesson record, keyed by (course name, lesson id).
#[verifier::ext_equal]
pub ghost struct LessonModel {
    pub course: Seq<char>,
    pub lesson_id: u8,
    pub attendance_deadline: u64,
}

/// Mathematical model of an attendance record, keyed by (course name, student).
#[verifier::ext_equal]
pub ghost struct AttendanceModel {
    pub course: Seq<char>,
    pub student: u64,
    pub attendance: Seq<u8>,
    pub withdrawn: bool,
}

/// Mathematical model of the whole ledger: the bound manager (if any) and the
/// three keyed record stores.
#[verifier::ext_equal]
pub ghost struct LedgerModel {
    pub manager: Option<u64>,
    pub courses: Seq<CourseModel>,
    pub lessons: Seq<LessonModel>,
    pub records: Seq<AttendanceModel>,
}

/// Some course in `courses` has the name `name`.
pub open spec fn has_course(courses: Seq<CourseModel>, name: Seq<char>) -> bool {
    exists|i: int| 0 <= i < courses.len() && courses[i].name == name
}

/// The index of the course named `name` (meaningful when `has_course` holds
/// and names are unique).
pub open spec fn course_index(courses: Seq<CourseModel>, name: Seq<char>) -> int {
    choose|i: int| 0 <= i < courses.len() && courses[i].name == name
}

/// The course named `name`.
pub open spec fn course_at(courses: Seq<CourseModel>, name: Seq<char>) -> CourseModel {
    courses[course_index(courses, name)]
}

/// Some lesson in `lessons` is keyed by (`name`, `lesson_id`).
pub open spec fn has_lesson(lessons: Seq<LessonModel>, name: Seq<char>, lesson_id: u8) -> bool {
    exists|i: int|
        0 <= i < lessons.len() && lessons[i].course == name && lessons[i].lesson_id == lesson_id
}

/// The index of the lesson keyed by (`name`, `lesson_id`).
pub open spec fn lesson_index(lessons: Seq<LessonModel>, name: Seq<char>, lesson_id: u8) -> int {
    choose|i: int|
        0 <= i < lessons.len() && lessons[i].course == name && lessons[i].lesson_id == lesson_id
}

/// The lesson keyed by (`name`, `lesson_id`).
pub open spec fn lesson_at(lessons: Seq<LessonModel>, name: Seq<char>, lesson_id: u8) -> LessonModel {
    lessons[lesson_index(lessons, name, lesson_id)]
}

/// Some attendance record in `records` is keyed by (`name`, `student`).
pub open spec fn has_record(records: Seq<AttendanceModel>, name: Seq<char>, student: u64) -> bool {
    exists|i: int|
        0 <= i < records.len() && records[i].course == name && records[i].student == student
}

/// The index of the attendance record keyed by (`name`, `student`).
pub open spec fn record_index(records: Seq<AttendanceModel>, name: Seq<char>, student: u64) -> int {
    choose|i: int|
        0 <= i < records.len() && records[i].course == name && records[i].student == student
}

/// The attendance record keyed by (`name`, `student`).
pub open spec fn record_at(
    records: Seq<AttendanceModel>,
    name: Seq<char>,
    student: u64,
) -> AttendanceModel {
    records[record_index(records, name, student)]
}

/// Course names are unique keys.
pub open spec fn unique_course_names(courses: Seq<CourseModel>) -> bool {
    forall|i: int, j: int| 0 <= i < j < courses.len() ==> courses[i].name != courses[j].name
}

/// (course, lesson id) pairs are unique keys.
pub open spec fn unique_lesson_keys(lessons: Seq<LessonModel>) -> bool {
    forall|i: int, j: int|
        0 <= i < j < lessons.len() ==> !(lessons[i].course == lessons[j].course
            && lessons[i].lesson_id == lessons[j].lesson_id)
}

/// (course, student) pairs are unique keys.
pub open spec fn unique_record_keys(records: Seq<AttendanceModel>) -> bool {
    forall|i: int, j: int|
        0 <= i < j < records.len() ==> !(records[i].course == records[j].course
            && records[i].student == records[j].student)
}

/// A course on its own is well formed: the lesson counter never exceeds the
/// lesson count, and no student is enrolled twice.
pub open spec fn course_wf(c: CourseModel) -> bool {
    &&& c.last_lesson_id <= c.num_of_lessons
    &&& forall|i: int, j: int| 0 <= i < j < c.students.len() ==> c.students[i] != c.students[j]
}

/// Every course is well formed.
pub open spec fn courses_wf(courses: Seq<CourseModel>) -> bool {
    forall|i: int| 0 <= i < courses.len() ==> course_wf(#[trigger] courses[i])
}

/// A lesson is well formed with respect to the ledger: it belongs to an
/// existing course and its id was assigned from that course's counter.
pub open spec fn lesson_wf(m: LedgerModel, l: LessonModel) -> bool {
    &&& has_course(m.courses, l.course)
    &&& 1 <= l.lesson_id
    &&& l.lesson_id <= course_at(m.courses, l.course).last_lesson_id
}

/// Every lesson is well formed.
pub open spec fn lessons_wf(m: LedgerModel) -> bool {
    forall|i: int| 0 <= i < m.lessons.len() ==> lesson_wf(m, #[trigger] m.lessons[i])
}

/// Every id a course's counter has reached is the key of some lesson of that
/// course: assigned ids have no gaps.
pub open spec fn lessons_complete(m: LedgerModel) -> bool {
    forall|i: int, id: u8|
        0 <= i < m.courses.len() && 1 <= id <= m.courses[i].last_lesson_id
            ==> #[trigger] has_lesson(m.lessons, m.courses[i].name, id)
}

/// An attendance record is well formed with respect to the ledger: it belongs
/// to an existing course, no lesson is marked twice, and every marked lesson
/// id was assigned by that course.
pub open spec fn record_wf(m: LedgerModel, r: AttendanceModel) -> bool {
    &&& has_course(m.courses, r.course)
    &&& forall|i: int, j: int|
        0 <= i < j < r.attendance.len() ==> r.attendance[i] != r.attendance[j]
    &&& forall|i: int|
        0 <= i < r.attendance.len() ==> 1 <= #[trigger] r.attendance[i] && r.attendance[i]
            <= course_at(m.courses, r.course).last_lesson_id
}

/// Every attendance record is well formed.
pub open spec fn records_wf(m: LedgerModel) -> bool {
    forall|i: int| 0 <= i < m.records.len() ==> record_wf(m, #[trigger] m.records[i])
}

impl LedgerModel {
    /// The ledger invariant: the three stores are uniquely keyed, every
    /// record is well formed, and the lessons of each course cover exactly
    /// the ids 1..=last_lesson_id assigned so far.
    pub open spec fn wf(self) -> bool {
        &&& unique_course_names(self.courses)
        &&& courses_wf(self.courses)
        &&& lessons_wf(self)
        &&& unique_lesson_keys(self.lessons)
        &&& lessons_complete(self)
        &&& records_wf(self)
        &&& unique_record_keys(self.records)
    }
}

/// Under unique names, the course index of a matching position is that
/// position itself.
pub proof fn lemma_course_index_is(courses: Seq<CourseModel>, name: Seq<char>, i: int)
    requires
        unique_course_names(courses),
        0 <= i < courses.len(),
        courses[i].name == name,
    ensures
        has_course(courses, name),
        course_index(courses, name) == i,
        course_at(courses, name) == courses[i],
{
    assert(has_course(courses, name));
    let j = course_index(courses, name);
    assert(0 <= j < courses.len() && courses[j].name == name);
    if i < j {
        assert(courses[i].name != courses[j].name);
    } else if j < i {
        assert(courses[j].name != courses[i].name);
    }
}

/// Under unique (course, id) keys, the lesson index of a matching position is
/// that position itself.
pub proof fn lemma_lesson_index_is(lessons: Seq<LessonModel>, name: Seq<char>, id: u8, i: int)
    requires
        unique_lesson_keys(lessons),
        0 <= i < lessons.len(),
        lessons[i].course == name,
        lessons[i].lesson_id == id,
    ensures
        has_lesson(lessons, name, id),
        lesson_index(lessons, name, id) == i,
        lesson_at(lessons, name, id) == lessons[i],
{
    assert(has_lesson(lessons, name, id));
    let j = lesson_index(lessons, name, id);
    assert(0 <= j < lessons.len() && lessons[j].course == name && lessons[j].lesson_id == id);
    if i < j {
        assert(!(lessons[i].course == lessons[j].course
            && lessons[i].lesson_id == lessons[j].lesson_id));
    } else if j < i {
        assert(!(lessons[j].course == lessons[i].course
            && lessons[j].lesson_id == lessons[i].lesson_id));
    }
}

/// Under unique (course, student) keys, the record index of a matching
/// position is that position itself.
pub proof fn lemma_record_index_is(
    records: Seq<AttendanceModel>,
    name: Seq<char>,
    student: u64,
    i: int,
)
    requires
        unique_record_keys(records),
        0 <= i < records.len(),
        records[i].course == name,
        records[i].student == student,
    ensures
        has_record(records, name, student),
        record_index(records, name, student) == i,
        record_at(records, name, student) == records[i],
{
    assert(has_record(records, name, student));
    let j = record_index(records, name, student);
    assert(0 <= j < records.len() && records[j].course == name && records[j].student == student);
    if i < j {
        assert(!(records[i].course == records[j].course
            && records[i].student == records[j].student));
    } else if j < i {
        assert(!(records[j].course == records[i].course
            && records[j].student == records[i].student));
    }
}

/// When `has_course` holds, the chosen index is in range and matches.
pub proof fn lemma_course_index_valid(courses: Seq<CourseModel>, name: Seq<char>)
    requires
        has_course(courses, name),
    ensures
        0 <= course_index(courses, name) < courses.len(),
        courses[course_index(courses, name)].name == name,
        course_at(courses, name).name == name,
{
}

/// When `has_lesson` holds, the chosen index is in range and matches.
pub proof fn lemma_lesson_index_valid(lessons: Seq<LessonModel>, name: Seq<char>, id: u8)
    requires
        has_lesson(lessons, name, id),
    ensures
        0 <= lesson_index(lessons, name, id) < lessons.len(),
        lesson_at(lessons, name, id).course == name,
        lesson_at(lessons, name, id).lesson_id == id,
{
}

/// When `has_record` holds, the chosen index is in range and matches.
pub proof fn lemma_record_index_valid(records: Seq<AttendanceModel>, name: Seq<char>, student: u64)
    requires
        has_record(records, name, student),
    ensures
        0 <= record_index(records, name, student) < records.len(),
        record_at(records, name, student).course == name,
        record_at(records, name, student).student == student,
{
}

} // verus!
