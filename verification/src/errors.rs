use vstd::prelude::*;

verus! {

/// The error kinds an operation can report. Every failure is detected before
/// any state is written, so an error always means the attempted operation had
/// no effect at all.
#[derive(Clone, Copy, Debug, PartialEq, Eq, Structural)]
pub enum ErrorCode {
    /// A non-manager identity attempted a privileged operation.
    UnauthorizedAccess,
    /// The authority was already bound to a manager by an earlier call.
    AlreadyInitialized,
    /// The student is not in the course's enrollment list.
    StudentNotEnrolled,
    /// The student is already in the course's enrollment list.
    StudentAlreadyEnrolled,
    /// A lesson already exists for the course, so registration is closed.
    RegistrationClosed,
    /// The student's balance cannot cover the deposit, or the deposit
    /// transfer itself failed.
    InsufficientDeposit,
    /// The course already has its full number of lessons.
    ExceededCourseLessons,
    /// The student already marked attendance for this lesson.
    AttendanceAlreadyMarked,
    /// The current time is past the lesson's attendance deadline.
    LateForLesson,
    /// Withdrawal conditions are not met: the lock time has not elapsed,
    /// attendance is incomplete, or the deposit was already withdrawn.
    NotReadyForWithdrawal,
    /// A course with the same name already exists.
    CourseAlreadyExists,
}

} // verus!
