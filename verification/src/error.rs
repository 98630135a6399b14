//! Error codes.
use vstd::prelude::*;

verus! {

/// No such entry.
pub const ENOENT: i32 = -2;

/// Out of memory.
pub const ENOMEM: i32 = -12;

/// Resource busy.
pub const EBUSY: i32 = -16;

/// Already exists.
pub const EEXIST: i32 = -17;

/// No such device.
pub const ENODEV: i32 = -19;

/// Invalid argument.
pub const EINVAL: i32 = -22;

/// No space left.
pub const ENOSPC: i32 = -28;

/// The largest magnitude of an error code.
pub const MAX_ERRNO: i32 = 4095;

/// An error, held as its negative code.
#[derive(Clone, Copy, Debug, PartialEq, Eq, Hash, Structural)]
pub struct Error(pub i32);

impl Error {
    /// The code lies in the range reserved for error codes.
    pub open spec fn wf(self) -> bool {
        -MAX_ERRNO <= self.0 < 0
    }

    /// The error that a code stands for; `EINVAL` where the code is out of range.
    pub open spec fn of_errno(errno: i32) -> Error {
        if -MAX_ERRNO <= errno < 0 {
            Error(errno)
        } else {
            Error(EINVAL)
        }
    }

    /// Makes an error from a code. A code out of range becomes `EINVAL`.
    pub fn from_errno(errno: i32) -> (e: Error)
        ensures
            e == Error::of_errno(errno),
            e.wf(),
    {
        if -MAX_ERRNO <= errno && errno < 0 {
            Error(errno)
        } else {
            Error(EINVAL)
        }
    }

    /// The code of this error.
    pub fn to_errno(self) -> (errno: i32)
        ensures
            errno == self.0,
    {
        self.0
    }
}

/// What a return code says: a negative one is an error, any other is success.
pub open spec fn result_of(code: i32) -> Result<(), Error> {
    if code < 0 {
        Err(Error::of_errno(code))
    } else {
        Ok(())
    }
}

/// Turns a return code into a result.
pub fn to_result(code: i32) -> (r: Result<(), Error>)
    ensures
        r == result_of(code),
{
    if code < 0 {
        Err(Error::from_errno(code))
    } else {
        Ok(())
    }
}

/// A well-formed error survives the way through its code.
pub proof fn law_errno_round_trip(e: Error)
    requires
        e.wf(),
    ensures
        Error::of_errno(e.0) == e,
        result_of(e.0) == Err::<(), Error>(e),
{
}

/// A code that is not negative is success. A negative one is an error, held as it is from -4095 on
/// and as -22 below.
pub proof fn law_code_is_kept(code: i32)
    ensures
        code >= 0 ==> result_of(code) == Ok::<(), Error>(()),
        -4095 <= code < 0 ==> result_of(code) == Err::<(), Error>(Error(code)),
        code < -4095 ==> result_of(code) == Err::<(), Error>(Error(-22i32)),
{
}

} // verus!
