use vstd::prelude::*;

use crate::model::{LedgerModel, has_course, has_lesson, has_record};
use crate::structs::{Attendance, Course, CourseManager, Lesson};

verus! {

/// The whole ledger: the authority record and the three keyed record stores.
/// Courses are keyed by name, lessons by (course name, lesson id), and
/// attendance records by (course name, student); the well-formedness
/// invariant `self@.wf()` says those keys are unique.
pub struct Ledger {
    pub authority: CourseManager,
    pub courses: Vec<Course>,
    pub lessons: Vec<Lesson>,
    pub records: Vec<Attendance>,
}

impl View for Ledger {
    type V = LedgerModel;

    open spec fn view(&self) -> LedgerModel {
        LedgerModel {
            manager: self.authority.manager,
            courses: self.courses@.map_values(|c: Course| c@),
            lessons: self.lessons@.map_values(|l: Lesson| l@),
            records: self.records@.map_values(|r: Attendance| r@),
        }
    }
}

impl Ledger {
    /// An empty ledger: no authority bound, no records of any kind.
    pub fn empty() -> (r: Ledger)
        ensures
            r@.manager is None,
            r@.courses =~= Seq::<crate::model::CourseModel>::empty(),
            r@.lessons =~= Seq::<crate::model::LessonModel>::empty(),
            r@.records =~= Seq::<crate::model::AttendanceModel>::empty(),
            r@.wf(),
    {
        let r = Ledger {
            authority: CourseManager { manager: None },
            courses: Vec::new(),
            lessons: Vec::new(),
            records: Vec::new(),
        };
        proof {
            assert(r@.courses =~= Seq::<crate::model::CourseModel>::empty());
            assert(r@.lessons =~= Seq::<crate::model::LessonModel>::empty());
            assert(r@.records =~= Seq::<crate::model::AttendanceModel>::empty());
        }
        r
    }

    /// The position of the course named `name`, if one exists.
    pub fn find_course(&self, name: &String) -> (r: Option<usize>)
        ensures
            match r {
                Some(i) => i < self@.courses.len() && self@.courses[i as int].name == name@,
                None => !has_course(self@.courses, name@),
            },
    {
        let mut k: usize = 0;
        while k < self.courses.len()
            invariant
                0 <= k <= self.courses@.len(),
                forall|j: int| 0 <= j < k ==> self@.courses[j].name != name@,
            decreases self.courses@.len() - k,
        {
            if self.courses[k].name == *name {
                return Some(k);
            }
            k = k + 1;
        }
        None
    }

    /// The position of the lesson keyed by (`name`, `lesson_id`), if one
    /// exists.
    pub fn find_lesson(&self, name: &String, lesson_id: u8) -> (r: Option<usize>)
        ensures
            match r {
                Some(i) => i < self@.lessons.len() && self@.lessons[i as int].course == name@
                    && self@.lessons[i as int].lesson_id == lesson_id,
                None => !has_lesson(self@.lessons, name@, lesson_id),
            },
    {
        let mut k: usize = 0;
        while k < self.lessons.len()
            invariant
                0 <= k <= self.lessons@.len(),
                forall|j: int|
                    0 <= j < k ==> !(self@.lessons[j].course == name@ && self@.lessons[j].lesson_id
                        == lesson_id),
            decreases self.lessons@.len() - k,
        {
            if self.lessons[k].lesson_id == lesson_id && self.lessons[k].course == *name {
                return Some(k);
            }
            k = k + 1;
        }
        None
    }

    /// The position of the attendance record keyed by (`name`, `student`),
    /// if one exists.
    pub fn find_record(&self, name: &String, student: u64) -> (r: Option<usize>)
        ensures
            match r {
                Some(i) => i < self@.records.len() && self@.records[i as int].course == name@
                    && self@.records[i as int].student == student,
                None => !has_record(self@.records, name@, student),
            },
    {
        let mut k: usize = 0;
        while k < self.records.len()
            invariant
                0 <= k <= self.records@.len(),
                forall|j: int|
                    0 <= j < k ==> !(self@.records[j].course == name@ && self@.records[j].student
                        == student),
            decreases self.records@.len() - k,
        {
            if self.records[k].student == student && self.records[k].course == *name {
                return Some(k);
            }
            k = k + 1;
        }
        None
    }
}

} // verus!
