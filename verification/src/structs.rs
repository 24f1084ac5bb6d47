use vstd::prelude::*;

use crate::errors::ErrorCode;
use crate::model::{AttendanceModel, CourseModel, LessonModel};
use crate::transitions::new_course;

verus! {

/// A course record: the unique name key, the manager that created it, the
/// enrollment list, the deposit amount, the earliest withdrawal time, the
/// fixed lesson count, the lesson counter, and the deposit-asset reference.
pub struct Course {
    pub name: String,
    pub manager: u64,
    pub students: Vec<u64>,
    pub deposit: u64,
    pub lock_until: u64,
    pub num_of_lessons: u8,
    pub last_lesson_id: u8,
    pub deposit_token: u64,
}

/// The authority record: the single manager identity permitted to create
/// courses and lessons, unset until `initialize` binds it.
pub struct CourseManager {
    pub manager: Option<u64>,
}

/// A lesson record, keyed by (course name, lesson id), with the latest time
/// at which attendance for it may still be marked.
pub struct Lesson {
    pub course: String,
    pub lesson_id: u8,
    pub attendance_deadline: u64,
}

/// An attendance record, keyed by (course name, student): the lesson ids the
/// student attended and whether the deposit was already withdrawn.
pub struct Attendance {
    pub course: String,
    pub student: u64,
    pub attendance: Vec<u8>,
    pub withdrawn: bool,
}

impl View for Course {
    type V = CourseModel;

    open spec fn view(&self) -> CourseModel {
        CourseModel {
            name: self.name@,
            manager: self.manager,
            students: self.students@,
            deposit: self.deposit,
            lock_until: self.lock_until,
            num_of_lessons: self.num_of_lessons,
            last_lesson_id: self.last_lesson_id,
            deposit_token: self.deposit_token,
        }
    }
}

impl View for Lesson {
    type V = LessonModel;

    open spec fn view(&self) -> LessonModel {
        LessonModel {
            course: self.course@,
            lesson_id: self.lesson_id,
            attendance_deadline: self.attendance_deadline,
        }
    }
}

impl View for Attendance {
    type V = AttendanceModel;

    open spec fn view(&self) -> AttendanceModel {
        AttendanceModel {
            course: self.course@,
            student: self.student,
            attendance: self.attendance@,
            withdrawn: self.withdrawn,
        }
    }
}

impl CourseManager {
    /// The check for privileged operations: only the bound manager passes.
    pub fn authorize(&self, actor: u64) -> (r: Result<(), ErrorCode>)
        ensures
            r == (if self.manager == Some(actor) {
                Ok::<(), ErrorCode>(())
            } else {
                Err::<(), ErrorCode>(ErrorCode::UnauthorizedAccess)
            }),
    {
        match self.manager {
            Some(m) => if m == actor {
                Ok(())
            } else {
                Err(ErrorCode::UnauthorizedAccess)
            },
            None => Err(ErrorCode::UnauthorizedAccess),
        }
    }
}

impl Course {
    /// Overwrites this record as a freshly created course: the given fields,
    /// an empty enrollment list, and the lesson counter at zero.
    pub fn new(
        &mut self,
        name: String,
        manager: u64,
        deposit: u64,
        lock_until: u64,
        num_of_lessons: u8,
        deposit_token: u64,
    ) -> (r: Result<(), ErrorCode>)
        ensures
            r is Ok,
            final(self)@ == new_course(name@, manager, deposit, lock_until, num_of_lessons,
                deposit_token),
    {
        self.name = name;
        self.manager = manager;
        self.deposit = deposit;
        self.lock_until = lock_until;
        self.num_of_lessons = num_of_lessons;
        self.last_lesson_id = 0;
        self.deposit_token = deposit_token;
        self.students = Vec::new();
        proof {
            assert(self@ =~~= new_course(self.name@, manager, deposit, lock_until, num_of_lessons,
                deposit_token));
        }
        Ok(())
    }

    /// Appends a student to the enrollment list; fails if the student is
    /// already enrolled, leaving the record unchanged.
    pub fn register(&mut self, student: u64) -> (r: Result<(), ErrorCode>)
        ensures
            r == (if old(self)@.students.contains(student) {
                Err::<(), ErrorCode>(ErrorCode::StudentAlreadyEnrolled)
            } else {
                Ok::<(), ErrorCode>(())
            }),
            final(self)@ == (if old(self)@.students.contains(student) {
                old(self)@
            } else {
                (CourseModel { students: old(self)@.students.push(student), ..old(self)@ })
            }),
    {
        if contains_u64(&self.students, student) {
            return Err(ErrorCode::StudentAlreadyEnrolled);
        }
        self.students.push(student);
        proof {
            assert(self@ =~~= (CourseModel {
                students: old(self)@.students.push(student),
                ..old(self)@
            }));
        }
        Ok(())
    }
}

impl Lesson {
    /// Overwrites this record as the course's next lesson: the id is the
    /// course's counter plus one and the counter moves up with it; fails if
    /// that id would exceed the course's lesson count, leaving both records
    /// unchanged. The bound is checked before the increment, so the counter
    /// cannot overflow.
    pub fn new(&mut self, course: &mut Course, attendance_deadline: u64) -> (r: Result<
        (),
        ErrorCode,
    >)
        ensures
            r == (if old(course)@.last_lesson_id + 1 > old(course)@.num_of_lessons {
                Err::<(), ErrorCode>(ErrorCode::ExceededCourseLessons)
            } else {
                Ok::<(), ErrorCode>(())
            }),
            r is Ok ==> final(course)@ == (CourseModel {
                last_lesson_id: (old(course)@.last_lesson_id + 1) as u8,
                ..old(course)@
            }) && final(self)@ == (LessonModel {
                course: old(course)@.name,
                lesson_id: (old(course)@.last_lesson_id + 1) as u8,
                attendance_deadline,
            }),
            r is Err ==> final(course)@ == old(course)@ && final(self)@ == old(self)@,
    {
        if course.last_lesson_id >= course.num_of_lessons {
            return Err(ErrorCode::ExceededCourseLessons);
        }
        let next_lesson_id = course.last_lesson_id + 1;
        course.last_lesson_id = next_lesson_id;
        self.course = course.name.clone();
        self.lesson_id = next_lesson_id;
        self.attendance_deadline = attendance_deadline;
        Ok(())
    }
}

/// Whether the list holds the given identity.
pub fn contains_u64(v: &Vec<u64>, x: u64) -> (r: bool)
    ensures
        r == v@.contains(x),
{
    let mut k: usize = 0;
    while k < v.len()
        invariant
            0 <= k <= v@.len(),
            forall|j: int| 0 <= j < k ==> v@[j] != x,
        decreases v@.len() - k,
    {
        if v[k] == x {
            return true;
        }
        k = k + 1;
    }
    false
}

/// Whether the list holds the given lesson id.
pub fn contains_u8(v: &Vec<u8>, x: u8) -> (r: bool)
    ensures
        r == v@.contains(x),
{
    let mut k: usize = 0;
    while k < v.len()
        invariant
            0 <= k <= v@.len(),
            forall|j: int| 0 <= j < k ==> v@[j] != x,
        decreases v@.len() - k,
    {
        if v[k] == x {
            return true;
        }
        k = k + 1;
    }
    false
}

} // verus!
