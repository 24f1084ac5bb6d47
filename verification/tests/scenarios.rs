use attendance_deposit::errors::ErrorCode;
use attendance_deposit::ledger::Ledger;
use attendance_deposit::{create_course, create_lesson, initialize, mark_attendance, register, withdraw};

const MANAGER: u64 = 1;
const STUDENT: u64 = 2;
const TOKEN: u64 = 7;

/// A ledger with a bound manager and one course: deposit 100, two lessons,
/// withdrawal locked until time 1010.
fn two_lesson_course() -> (Ledger, String) {
    let mut ledger = Ledger::empty();
    assert_eq!(initialize(&mut ledger, MANAGER), Ok(()));
    let name = String::from("algebra");
    assert_eq!(
        create_course(&mut ledger, MANAGER, name.clone(), 100, 1010, 2, TOKEN),
        Ok(())
    );
    (ledger, name)
}

#[test]
fn incomplete_attendance_blocks_withdrawal() {
    let (mut ledger, name) = two_lesson_course();
    let mut balance: u64 = 150;
    let mut custody: u64 = 0;
    assert_eq!(register(&mut ledger, STUDENT, &name, &mut balance, &mut custody), Ok(()));
    assert_eq!(balance, 50);
    assert_eq!(custody, 100);
    assert_eq!(create_lesson(&mut ledger, MANAGER, &name, 1001), Ok(()));
    assert_eq!(create_lesson(&mut ledger, MANAGER, &name, 1005), Ok(()));
    assert_eq!(mark_attendance(&mut ledger, STUDENT, &name, 1, 1000), Ok(()));
    assert_eq!(
        mark_attendance(&mut ledger, STUDENT, &name, 2, 1006),
        Err(ErrorCode::LateForLesson)
    );
    assert_eq!(
        withdraw(&mut ledger, STUDENT, &name, 1011, &mut balance, &mut custody),
        Err(ErrorCode::NotReadyForWithdrawal)
    );
    assert_eq!(balance, 50);
    assert_eq!(custody, 100);
}

#[test]
fn complete_attendance_withdraws_exactly_once() {
    let (mut ledger, name) = two_lesson_course();
    let mut balance: u64 = 150;
    let mut custody: u64 = 0;
    assert_eq!(register(&mut ledger, STUDENT, &name, &mut balance, &mut custody), Ok(()));
    assert_eq!(balance, 50);
    assert_eq!(custody, 100);
    assert_eq!(create_lesson(&mut ledger, MANAGER, &name, 1001), Ok(()));
    assert_eq!(create_lesson(&mut ledger, MANAGER, &name, 1005), Ok(()));
    assert_eq!(mark_attendance(&mut ledger, STUDENT, &name, 1, 1000), Ok(()));
    assert_eq!(mark_attendance(&mut ledger, STUDENT, &name, 2, 1004), Ok(()));
    assert_eq!(
        withdraw(&mut ledger, STUDENT, &name, 1009, &mut balance, &mut custody),
        Err(ErrorCode::NotReadyForWithdrawal)
    );
    assert_eq!(balance, 50);
    assert_eq!(
        withdraw(&mut ledger, STUDENT, &name, 1011, &mut balance, &mut custody),
        Ok(())
    );
    assert_eq!(balance, 150);
    assert_eq!(custody, 0);
    assert!(ledger.records[0].withdrawn);
    assert_eq!(
        withdraw(&mut ledger, STUDENT, &name, 1012, &mut balance, &mut custody),
        Err(ErrorCode::NotReadyForWithdrawal)
    );
    assert_eq!(balance, 150);
    assert_eq!(custody, 0);
}

#[test]
fn only_bound_manager_creates_courses() {
    let mut ledger = Ledger::empty();
    assert_eq!(initialize(&mut ledger, MANAGER), Ok(()));
    assert_eq!(
        create_course(&mut ledger, 9, String::from("geometry"), 100, 1010, 2, TOKEN),
        Err(ErrorCode::UnauthorizedAccess)
    );
    assert_eq!(ledger.courses.len(), 0);
    assert_eq!(
        create_course(&mut ledger, MANAGER, String::from("geometry"), 100, 1010, 2, TOKEN),
        Ok(())
    );
    assert_eq!(ledger.courses.len(), 1);
}

#[test]
fn registration_closes_once_a_lesson_exists() {
    let (mut ledger, name) = two_lesson_course();
    assert_eq!(create_lesson(&mut ledger, MANAGER, &name, 1001), Ok(()));
    let mut balance: u64 = 150;
    let mut custody: u64 = 0;
    assert_eq!(
        register(&mut ledger, STUDENT, &name, &mut balance, &mut custody),
        Err(ErrorCode::RegistrationClosed)
    );
    assert_eq!(balance, 150);
    assert_eq!(custody, 0);
    assert!(ledger.courses[0].students.is_empty());
}

#[test]
fn marking_twice_fails_with_already_marked() {
    let (mut ledger, name) = two_lesson_course();
    let mut balance: u64 = 150;
    let mut custody: u64 = 0;
    assert_eq!(register(&mut ledger, STUDENT, &name, &mut balance, &mut custody), Ok(()));
    assert_eq!(create_lesson(&mut ledger, MANAGER, &name, 1001), Ok(()));
    assert_eq!(mark_attendance(&mut ledger, STUDENT, &name, 1, 1000), Ok(()));
    assert_eq!(
        mark_attendance(&mut ledger, STUDENT, &name, 1, 1000),
        Err(ErrorCode::AttendanceAlreadyMarked)
    );
    assert_eq!(ledger.records[0].attendance, vec![1]);
}

#[test]
fn course_without_lessons_withdraws_after_lock() {
    let mut ledger = Ledger::empty();
    assert_eq!(initialize(&mut ledger, MANAGER), Ok(()));
    let name = String::from("seminar");
    assert_eq!(
        create_course(&mut ledger, MANAGER, name.clone(), 40, 500, 0, TOKEN),
        Ok(())
    );
    let mut balance: u64 = 40;
    let mut custody: u64 = 0;
    assert_eq!(register(&mut ledger, STUDENT, &name, &mut balance, &mut custody), Ok(()));
    assert_eq!(balance, 0);
    assert_eq!(custody, 40);
    assert_eq!(
        withdraw(&mut ledger, STUDENT, &name, 499, &mut balance, &mut custody),
        Err(ErrorCode::NotReadyForWithdrawal)
    );
    assert_eq!(
        withdraw(&mut ledger, STUDENT, &name, 500, &mut balance, &mut custody),
        Ok(())
    );
    assert_eq!(balance, 40);
    assert_eq!(custody, 0);
    assert!(ledger.records[0].withdrawn);
    assert_eq!(
        withdraw(&mut ledger, STUDENT, &name, 501, &mut balance, &mut custody),
        Err(ErrorCode::NotReadyForWithdrawal)
    );
}

#[test]
fn already_marked_wins_over_late() {
    let (mut ledger, name) = two_lesson_course();
    let mut balance: u64 = 150;
    let mut custody: u64 = 0;
    assert_eq!(register(&mut ledger, STUDENT, &name, &mut balance, &mut custody), Ok(()));
    assert_eq!(create_lesson(&mut ledger, MANAGER, &name, 1001), Ok(()));
    assert_eq!(mark_attendance(&mut ledger, STUDENT, &name, 1, 1000), Ok(()));
    // A repeated mark reports the duplicate even when the deadline has also
    // passed by then.
    assert_eq!(
        mark_attendance(&mut ledger, STUDENT, &name, 1, 1006),
        Err(ErrorCode::AttendanceAlreadyMarked)
    );
    assert_eq!(ledger.records[0].attendance, vec![1]);
}

#[test]
fn attendance_records_are_kept_per_course() {
    let mut ledger = Ledger::empty();
    assert_eq!(initialize(&mut ledger, MANAGER), Ok(()));
    let first = String::from("algebra");
    let second = String::from("geometry");
    assert_eq!(create_course(&mut ledger, MANAGER, first.clone(), 10, 1010, 1, TOKEN), Ok(()));
    assert_eq!(create_course(&mut ledger, MANAGER, second.clone(), 10, 1010, 1, TOKEN), Ok(()));
    let mut balance: u64 = 30;
    let mut custody_a: u64 = 0;
    let mut custody_b: u64 = 0;
    assert_eq!(register(&mut ledger, STUDENT, &first, &mut balance, &mut custody_a), Ok(()));
    assert_eq!(register(&mut ledger, STUDENT, &second, &mut balance, &mut custody_b), Ok(()));
    assert_eq!(create_lesson(&mut ledger, MANAGER, &first, 1001), Ok(()));
    assert_eq!(create_lesson(&mut ledger, MANAGER, &second, 1001), Ok(()));
    assert_eq!(mark_attendance(&mut ledger, STUDENT, &first, 1, 1000), Ok(()));
    // The mark in one course leaves the other course's record untouched.
    assert_eq!(mark_attendance(&mut ledger, STUDENT, &second, 1, 1000), Ok(()));
    assert_eq!(ledger.records.len(), 2);
    assert_eq!(ledger.records[0].course, "algebra");
    assert_eq!(ledger.records[1].course, "geometry");
    assert_eq!(ledger.records[0].attendance, vec![1]);
    assert_eq!(ledger.records[1].attendance, vec![1]);
}
