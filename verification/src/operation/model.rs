//! What a profile is doing right now.
use vstd::prelude::*;

verus! {

#[derive(Debug, Clone, Copy, PartialEq, Eq, Hash, Structural)]
pub enum OperationKind {
    Authentication,
    OneTimeSync,
    Preview,
    Monitor,
}

#[derive(Debug, Clone, Copy, PartialEq, Eq, Hash, Structural)]
pub enum OperationPhase {
    Running,
    Stopping,
}

/// The operation a profile runs, and whether a stop was requested.
#[derive(Debug, Clone, Copy, PartialEq, Eq, Hash, Structural)]
pub struct AccountOperation {
    pub kind: OperationKind,
    pub phase: OperationPhase,
}

impl AccountOperation {
    pub fn running(kind: OperationKind) -> (r: Self)
        ensures
            r == (AccountOperation { kind, phase: OperationPhase::Running }),
    {
        AccountOperation { kind, phase: OperationPhase::Running }
    }

    pub fn stopping(kind: OperationKind) -> (r: Self)
        ensures
            r == (AccountOperation { kind, phase: OperationPhase::Stopping }),
    {
        AccountOperation { kind, phase: OperationPhase::Stopping }
    }

    pub fn is_stopping(self) -> (r: bool)
        ensures
            r == (self.phase == OperationPhase::Stopping),
    {
        match self.phase {
            OperationPhase::Stopping => true,
            OperationPhase::Running => false,
        }
    }
}

} // verus!
