use vstd::prelude::*;

verus! {

/// The kernel's error codes, in the order the kernel numbers them (FAIL is 1).
#[derive(Clone, Copy, Debug, PartialEq, Eq, Structural)]
pub enum ErrorCode {
    FAIL,
    BUSY,
    ALREADY,
    OFF,
    RESERVE,
    INVAL,
    SIZE,
    CANCEL,
    NOMEM,
    NOSUPPORT,
    NODEVICE,
    UNINSTALLED,
    NOACK,
}

impl ErrorCode {
    /// The kernel's number for this error code.
    pub fn number(&self) -> (n: usize)
        ensures
            n == self.spec_number(),
            1 <= n <= 13,
    {
        match self {
            ErrorCode::FAIL => 1,
            ErrorCode::BUSY => 2,
            ErrorCode::ALREADY => 3,
            ErrorCode::OFF => 4,
            ErrorCode::RESERVE => 5,
            ErrorCode::INVAL => 6,
            ErrorCode::SIZE => 7,
            ErrorCode::CANCEL => 8,
            ErrorCode::NOMEM => 9,
            ErrorCode::NOSUPPORT => 10,
            ErrorCode::NODEVICE => 11,
            ErrorCode::UNINSTALLED => 12,
            ErrorCode::NOACK => 13,
        }
    }

    pub open spec fn spec_number(&self) -> nat {
        match self {
            ErrorCode::FAIL => 1,
            ErrorCode::BUSY => 2,
            ErrorCode::ALREADY => 3,
            ErrorCode::OFF => 4,
            ErrorCode::RESERVE => 5,
            ErrorCode::INVAL => 6,
            ErrorCode::SIZE => 7,
            ErrorCode::CANCEL => 8,
            ErrorCode::NOMEM => 9,
            ErrorCode::NOSUPPORT => 10,
            ErrorCode::NODEVICE => 11,
            ErrorCode::UNINSTALLED => 12,
            ErrorCode::NOACK => 13,
        }
    }
}

} // verus!
