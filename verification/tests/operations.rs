use attendance_deposit::errors::ErrorCode;
use attendance_deposit::ledger::Ledger;
use attendance_deposit::structs::{Course, CourseManager, Lesson};
use attendance_deposit::{create_course, create_lesson, initialize, mark_attendance, register, withdraw};

const MANAGER: u64 = 1;
const TOKEN: u64 = 7;

fn ledger_with_course(name: &str, deposit: u64, lock_until: u64, num_of_lessons: u8) -> Ledger {
    let mut ledger = Ledger::empty();
    assert_eq!(initialize(&mut ledger, MANAGER), Ok(()));
    assert_eq!(
        create_course(&mut ledger, MANAGER, String::from(name), deposit, lock_until, num_of_lessons, TOKEN),
        Ok(())
    );
    ledger
}

#[test]
fn initialize_binds_manager_once() {
    let mut ledger = Ledger::empty();
    assert_eq!(initialize(&mut ledger, MANAGER), Ok(()));
    assert_eq!(ledger.authority.manager, Some(MANAGER));
    assert_eq!(initialize(&mut ledger, MANAGER), Err(ErrorCode::AlreadyInitialized));
    assert_eq!(initialize(&mut ledger, 9), Err(ErrorCode::AlreadyInitialized));
    assert_eq!(ledger.authority.manager, Some(MANAGER));
}

#[test]
fn create_course_rejects_unbound_authority() {
    let mut ledger = Ledger::empty();
    assert_eq!(
        create_course(&mut ledger, MANAGER, String::from("music"), 10, 100, 1, TOKEN),
        Err(ErrorCode::UnauthorizedAccess)
    );
}

#[test]
fn duplicate_course_name_rejected() {
    let mut ledger = ledger_with_course("music", 10, 100, 1);
    assert_eq!(
        create_course(&mut ledger, MANAGER, String::from("music"), 25, 300, 4, TOKEN),
        Err(ErrorCode::CourseAlreadyExists)
    );
    assert_eq!(ledger.courses.len(), 1);
    assert_eq!(ledger.courses[0].deposit, 10);
}

#[test]
fn create_course_sets_fresh_fields() {
    let ledger = ledger_with_course("music", 10, 100, 3);
    let course = &ledger.courses[0];
    assert_eq!(course.name, "music");
    assert_eq!(course.manager, MANAGER);
    assert_eq!(course.deposit, 10);
    assert_eq!(course.lock_until, 100);
    assert_eq!(course.num_of_lessons, 3);
    assert_eq!(course.last_lesson_id, 0);
    assert_eq!(course.deposit_token, TOKEN);
    assert!(course.students.is_empty());
}

#[test]
fn register_rejects_short_balance() {
    let mut ledger = ledger_with_course("music", 10, 100, 1);
    let name = String::from("music");
    let mut balance: u64 = 9;
    let mut custody: u64 = 0;
    assert_eq!(
        register(&mut ledger, 2, &name, &mut balance, &mut custody),
        Err(ErrorCode::InsufficientDeposit)
    );
    assert_eq!(balance, 9);
    assert_eq!(custody, 0);
    assert!(ledger.courses[0].students.is_empty());
}

#[test]
fn register_rejects_custody_overflow() {
    let mut ledger = ledger_with_course("music", 10, 100, 1);
    let name = String::from("music");
    let mut balance: u64 = 10;
    let mut custody: u64 = u64::MAX - 9;
    assert_eq!(
        register(&mut ledger, 2, &name, &mut balance, &mut custody),
        Err(ErrorCode::InsufficientDeposit)
    );
    assert_eq!(balance, 10);
    assert_eq!(custody, u64::MAX - 9);
    assert!(ledger.courses[0].students.is_empty());
}

#[test]
fn register_keeps_enrollment_order_and_rejects_twice() {
    let mut ledger = ledger_with_course("music", 10, 100, 1);
    let name = String::from("music");
    let mut balance_a: u64 = 30;
    let mut balance_b: u64 = 30;
    let mut custody: u64 = 0;
    assert_eq!(register(&mut ledger, 2, &name, &mut balance_a, &mut custody), Ok(()));
    assert_eq!(register(&mut ledger, 3, &name, &mut balance_b, &mut custody), Ok(()));
    assert_eq!(
        register(&mut ledger, 2, &name, &mut balance_a, &mut custody),
        Err(ErrorCode::StudentAlreadyEnrolled)
    );
    assert_eq!(ledger.courses[0].students, vec![2, 3]);
    assert_eq!(balance_a, 20);
    assert_eq!(balance_b, 20);
    assert_eq!(custody, 20);
}

#[test]
fn lesson_ids_are_sequential_from_one() {
    let mut ledger = ledger_with_course("music", 10, 100, 3);
    let name = String::from("music");
    assert_eq!(create_lesson(&mut ledger, MANAGER, &name, 11), Ok(()));
    assert_eq!(create_lesson(&mut ledger, MANAGER, &name, 22), Ok(()));
    assert_eq!(create_lesson(&mut ledger, MANAGER, &name, 33), Ok(()));
    assert_eq!(
        create_lesson(&mut ledger, MANAGER, &name, 44),
        Err(ErrorCode::ExceededCourseLessons)
    );
    assert_eq!(ledger.lessons.len(), 3);
    for (k, lesson) in ledger.lessons.iter().enumerate() {
        assert_eq!(lesson.course, "music");
        assert_eq!(lesson.lesson_id as usize, k + 1);
    }
    assert_eq!(ledger.lessons[0].attendance_deadline, 11);
    assert_eq!(ledger.courses[0].last_lesson_id, 3);
}

#[test]
fn create_lesson_requires_manager() {
    let mut ledger = ledger_with_course("music", 10, 100, 3);
    let name = String::from("music");
    assert_eq!(
        create_lesson(&mut ledger, 9, &name, 11),
        Err(ErrorCode::UnauthorizedAccess)
    );
    assert_eq!(ledger.lessons.len(), 0);
    assert_eq!(ledger.courses[0].last_lesson_id, 0);
}

#[test]
fn mark_attendance_requires_enrollment() {
    let mut ledger = ledger_with_course("music", 10, 100, 1);
    let name = String::from("music");
    assert_eq!(create_lesson(&mut ledger, MANAGER, &name, 11), Ok(()));
    assert_eq!(
        mark_attendance(&mut ledger, 2, &name, 1, 5),
        Err(ErrorCode::StudentNotEnrolled)
    );
    assert!(ledger.records.is_empty());
}

#[test]
fn mark_attendance_rejects_past_deadline() {
    let mut ledger = ledger_with_course("music", 10, 100, 1);
    let name = String::from("music");
    let mut balance: u64 = 10;
    let mut custody: u64 = 0;
    assert_eq!(register(&mut ledger, 2, &name, &mut balance, &mut custody), Ok(()));
    assert_eq!(create_lesson(&mut ledger, MANAGER, &name, 11), Ok(()));
    assert_eq!(
        mark_attendance(&mut ledger, 2, &name, 1, 12),
        Err(ErrorCode::LateForLesson)
    );
    assert!(ledger.records.is_empty());
    assert_eq!(mark_attendance(&mut ledger, 2, &name, 1, 11), Ok(()));
    assert_eq!(ledger.records[0].course, "music");
    assert_eq!(ledger.records[0].student, 2);
    assert_eq!(ledger.records[0].attendance, vec![1]);
    assert!(!ledger.records[0].withdrawn);
}

#[test]
fn withdraw_requires_enrollment() {
    let mut ledger = ledger_with_course("music", 10, 100, 0);
    let name = String::from("music");
    let mut balance: u64 = 10;
    let mut custody: u64 = 10;
    assert_eq!(
        withdraw(&mut ledger, 2, &name, 200, &mut balance, &mut custody),
        Err(ErrorCode::StudentNotEnrolled)
    );
    assert_eq!(balance, 10);
    assert_eq!(custody, 10);
}

#[test]
fn course_methods_check_their_own_preconditions() {
    let mut course = Course {
        name: String::new(),
        manager: 0,
        students: Vec::new(),
        deposit: 0,
        lock_until: 0,
        num_of_lessons: 0,
        last_lesson_id: 0,
        deposit_token: 0,
    };
    assert_eq!(
        course.new(String::from("music"), MANAGER, 10, 100, 1, TOKEN),
        Ok(())
    );
    assert_eq!(course.register(2), Ok(()));
    assert_eq!(course.register(2), Err(ErrorCode::StudentAlreadyEnrolled));
    assert_eq!(course.students, vec![2]);
    let mut lesson = Lesson { course: String::new(), lesson_id: 0, attendance_deadline: 0 };
    assert_eq!(lesson.new(&mut course, 11), Ok(()));
    assert_eq!(lesson.lesson_id, 1);
    assert_eq!(lesson.course, "music");
    assert_eq!(lesson.attendance_deadline, 11);
    assert_eq!(course.last_lesson_id, 1);
    let mut second = Lesson { course: String::new(), lesson_id: 0, attendance_deadline: 0 };
    assert_eq!(second.new(&mut course, 12), Err(ErrorCode::ExceededCourseLessons));
    assert_eq!(course.last_lesson_id, 1);
}

#[test]
fn authorize_admits_only_bound_manager() {
    let unset = CourseManager { manager: None };
    assert_eq!(unset.authorize(MANAGER), Err(ErrorCode::UnauthorizedAccess));
    let bound = CourseManager { manager: Some(MANAGER) };
    assert_eq!(bound.authorize(MANAGER), Ok(()));
    assert_eq!(bound.authorize(9), Err(ErrorCode::UnauthorizedAccess));
}
