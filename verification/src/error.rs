//! The faults that end a run of the reactor, and how a failed wait on the ring is told
//! apart into its two kinds.

use vstd::prelude::*;

verus! {

/// A fault that stops the reactor loop. Faults of one connection are no errors: they
/// close that connection and the loop goes on.
#[derive(Clone, Copy, PartialEq, Eq, Debug, Structural)]
pub enum ServerError {
    /// The ring was saturated when the loop waited on it. This ends the run and is not
    /// retried.
    RingSaturated,
    /// Submitting to the ring or waiting on it failed for any other reason, with this
    /// operating system error code where there was one.
    RingIoFault { os_error: Option<i32> },
    /// An accept completed with a negative result.
    AcceptFailed,
    /// A completion carried a correlation identifier that the correlation table does
    /// not hold.
    UnknownCorrelation,
}

/// The operating system error code of a saturated ring.
pub open spec fn busy_code() -> i32 {
    16
}

/// `libc::EBUSY`, the error code with which a wait on a saturated ring fails. libc
/// defines it as 16 on Linux and Android, the systems that have the ring.
#[verifier::external_body]
fn busy_errno() -> (code: i32)
    ensures
        code == busy_code(),
{
    libc::EBUSY
}

impl ServerError {
    /// The fault that a failed wait on the ring stands for.
    pub open spec fn of_failed_wait(os_error: Option<i32>) -> ServerError {
        if os_error == Some(busy_code()) {
            ServerError::RingSaturated
        } else {
            ServerError::RingIoFault { os_error }
        }
    }

    /// Tells a saturated ring from every other failure of a wait on the ring, by the
    /// operating system error code of the failure.
    pub fn from_failed_wait(os_error: Option<i32>) -> (fault: ServerError)
        ensures
            fault == ServerError::of_failed_wait(os_error),
    {
        let busy: i32 = busy_errno();
        match os_error {
            Some(code) => {
                if code == busy {
                    ServerError::RingSaturated
                } else {
                    ServerError::RingIoFault { os_error }
                }
            },
            None => ServerError::RingIoFault { os_error },
        }
    }

    /// Whether a run that this fault stopped has failed. A saturated ring is the one
    /// fault that ends a run without failing it.
    pub open spec fn fails_run(self) -> bool {
        self != ServerError::RingSaturated
    }

    /// What a run returns that this fault stopped.
    pub fn run_result(self) -> (result: Result<(), ServerError>)
        ensures
            result == if self.fails_run() {
                Err::<(), ServerError>(self)
            } else {
                Ok::<(), ServerError>(())
            },
    {
        match self {
            ServerError::RingSaturated => Ok(()),
            _ => Err(self),
        }
    }
}

} // verus!
