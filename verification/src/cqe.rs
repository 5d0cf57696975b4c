//! Interpreting the result that an io_uring completion queue entry (CQE) reports: a
//! non-negative value on success, or a negated `errno` on failure.

use vstd::prelude::*;

verus! {

/// The text of `nix::errno::Errno::from_raw(errno)` under its `Display` impl: the error's
/// name, a colon and the system's description (for example
/// `ENOENT: No such file or directory`). A function of `errno` alone.
pub uninterp spec fn errno_text(errno: i32) -> Seq<char>;

/// `nix::errno::Errno::from_raw` followed by `to_string`: the name and description of an
/// `errno` value, as [`errno_text`] names them.
#[verifier::external_body]
fn errno_to_string(errno: i32) -> (s: String)
    ensures
        s@ == errno_text(errno),
{
    nix::errno::Errno::from_raw(errno).to_string()
}

/// An error that a CQE reported.
#[derive(Debug, PartialEq, Eq)]
pub struct CqeError {
    /// The `errno` value: the negated CQE result.
    pub errno: i32,
    /// The error's name and description.
    pub description: String,
    /// What the caller said about the submission that failed, for example the operation and
    /// the file it concerns.
    pub context: String,
}

/// Turns a CQE result into `Ok(result)` when it is non-negative, and otherwise into the error
/// whose `errno` is the negated result, described by its name and text and carrying `context`.
/// The result must not be `i32::MIN`, whose negation does not fit an `i32`.
pub fn cqe_error_to_error(cqe_result: i32, context: String) -> (r: Result<i32, CqeError>)
    requires
        cqe_result != i32::MIN,
    ensures
        cqe_result >= 0 <==> r == Ok::<i32, CqeError>(cqe_result),
        cqe_result < 0 <==> r is Err,
        r matches Err(e) ==> e.errno == -cqe_result && e.description@ == errno_text(
            -cqe_result as i32,
        ) && e.context@ == context@,
{
    if cqe_result < 0 {
        let errno = -cqe_result;
        Err(CqeError { errno, description: errno_to_string(errno), context })
    } else {
        Ok(cqe_result)
    }
}

} // verus!
