//! The outcomes of running a machine.

use vstd::prelude::*;

verus! {

/// Capture represents the result of execution.
#[derive(Clone, Copy, Debug, PartialEq, Eq, Structural)]
pub enum Capture<E, T> {
    /// The machine has exited. It cannot be executed again.
    Exit(E),
    /// The machine has trapped. It is waiting for external information, and can
    /// be executed again.
    Trap(T),
}

/// Exit reason.
#[derive(Clone, Copy, Debug, PartialEq, Eq, Structural)]
pub enum ExitReason {
    /// Machine reached a step limit
    StepLimitReached,
    /// Machine has succeeded.
    Succeed(ExitSucceed),
    /// Machine returns a normal EVM error.
    Error(ExitError),
    /// Machine encountered an explicit revert.
    Revert(ExitRevert),
    /// Machine encountered an error that is not supposed to be normal EVM
    /// errors, such as requiring too much memory to execute.
    Fatal(ExitFatal),
}

impl ExitReason {
    /// Whether the exit is succeeded.
    pub fn is_succeed(&self) -> (r: bool)
        ensures
            r == (self is Succeed),
    {
        matches!(self, ExitReason::Succeed(_))
    }

    /// Whether the exit is error.
    pub fn is_error(&self) -> (r: bool)
        ensures
            r == (self is Error),
    {
        matches!(self, ExitReason::Error(_))
    }

    /// Whether the exit is revert.
    pub fn is_revert(&self) -> (r: bool)
        ensures
            r == (self is Revert),
    {
        matches!(self, ExitReason::Revert(_))
    }

    /// Whether the exit is fatal.
    pub fn is_fatal(&self) -> (r: bool)
        ensures
            r == (self is Fatal),
    {
        matches!(self, ExitReason::Fatal(_))
    }
}

/// Exit succeed reason.
#[derive(Clone, Copy, Debug, PartialEq, Eq, Structural)]
pub enum ExitSucceed {
    /// Machine encountered an explicit stop.
    Stopped,
    /// Machine encountered an explicit return.
    Returned,
    /// Machine encountered an explicit suicide.
    Suicided,
}

/// Exit revert reason.
#[derive(Clone, Copy, Debug, PartialEq, Eq, Structural)]
pub enum ExitRevert {
    /// Machine encountered an explicit revert.
    Reverted,
}

/// Exit error reason.
#[derive(Clone, Copy, Debug, PartialEq, Eq, Structural)]
pub enum ExitError {
    /// Trying to pop from an empty stack.
    StackUnderflow,
    /// Trying to push into a stack over stack limit.
    StackOverflow,
    /// Jump destination is invalid.
    InvalidJump,
    /// An opcode accesses memory region, but the region is invalid.
    InvalidRange,
    /// Encountered the designated invalid opcode.
    DesignatedInvalid,
    /// Call stack is too deep (runtime).
    CallTooDeep,
    /// Create opcode encountered collision (runtime).
    CreateCollision,
    /// Create init code exceeds limit (runtime).
    CreateContractLimit,
    /// An opcode accesses external information, but the request is off offset
    /// limit (runtime).
    OutOfOffset,
    /// Execution runs out of gas (runtime).
    OutOfGas,
    /// Not enough fund to start the execution (runtime).
    OutOfFund,
    /// PC underflowed (unused).
    PCUnderflow,
    /// Attempt to create an empty account (runtime, unused).
    CreateEmpty,
    /// Indicates that a STATICCALL tried to change state
    StaticModeViolation,
}

/// Exit fatal reason.
#[derive(Clone, Copy, Debug, PartialEq, Eq, Structural)]
pub enum ExitFatal {
    /// The operation is not supported.
    NotSupported,
    /// The trap (interrupt) is unhandled.
    UnhandledInterrupt,
    /// The environment explicitly set call errors as fatal error.
    CallErrorAsFatal(ExitError),
}

impl From<ExitSucceed> for ExitReason {
    fn from(s: ExitSucceed) -> (r: Self)
        ensures
            r == ExitReason::Succeed(s),
    {
        ExitReason::Succeed(s)
    }
}

impl vstd::std_specs::convert::FromSpecImpl<ExitSucceed> for ExitReason {
    open spec fn obeys_from_spec() -> bool {
        true
    }

    open spec fn from_spec(s: ExitSucceed) -> Self {
        ExitReason::Succeed(s)
    }
}

impl From<ExitRevert> for ExitReason {
    fn from(s: ExitRevert) -> (r: Self)
        ensures
            r == ExitReason::Revert(s),
    {
        ExitReason::Revert(s)
    }
}

impl vstd::std_specs::convert::FromSpecImpl<ExitRevert> for ExitReason {
    open spec fn obeys_from_spec() -> bool {
        true
    }

    open spec fn from_spec(s: ExitRevert) -> Self {
        ExitReason::Revert(s)
    }
}

impl From<ExitError> for ExitReason {
    fn from(s: ExitError) -> (r: Self)
        ensures
            r == ExitReason::Error(s),
    {
        ExitReason::Error(s)
    }
}

impl vstd::std_specs::convert::FromSpecImpl<ExitError> for ExitReason {
    open spec fn obeys_from_spec() -> bool {
        true
    }

    open spec fn from_spec(s: ExitError) -> Self {
        ExitReason::Error(s)
    }
}

impl From<ExitFatal> for ExitReason {
    fn from(s: ExitFatal) -> (r: Self)
        ensures
            r == ExitReason::Fatal(s),
    {
        ExitReason::Fatal(s)
    }
}

impl vstd::std_specs::convert::FromSpecImpl<ExitFatal> for ExitReason {
    open spec fn obeys_from_spec() -> bool {
        true
    }

    open spec fn from_spec(s: ExitFatal) -> Self {
        ExitReason::Fatal(s)
    }
}

} // verus!
