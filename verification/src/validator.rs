//! The statement rule checked when a statement has been analysed: a delete
//! must say which rows it means.

use vstd::prelude::*;

verus! {

/// The kind of command that a parsed statement carries out.
#[derive(Copy, Clone, Debug, PartialEq, Eq, Structural)]
pub enum CommandKind {
    Unknown,
    Select,
    Update,
    Insert,
    Delete,
    Merge,
    Utility,
    Nothing,
}

/// Why a statement was refused.
#[derive(Copy, Clone, Debug, PartialEq, Eq, Structural)]
pub enum ValidationError {
    /// A delete without a filter clause would remove every row.
    DeleteWithoutFilter,
}

/// The rule: a delete without a filter clause is refused, and nothing else.
/// Whether a filter that is present can ever be false plays no part.
pub open spec fn refused(kind: CommandKind, has_filter: bool) -> bool {
    kind == CommandKind::Delete && !has_filter
}

impl ValidationError {
    /// The reason shown to whoever sent the statement.
    pub fn message(&self) -> (text: &'static str)
        ensures
            text@ == "DELETE queries must have a WHERE clause"@,
    {
        match self {
            ValidationError::DeleteWithoutFilter => "DELETE queries must have a WHERE clause",
        }
    }
}

/// Decides whether a statement may go on to planning. The decision looks at
/// this statement alone and changes nothing.
pub fn validate(kind: CommandKind, has_filter: bool) -> (verdict: Result<(), ValidationError>)
    ensures
        refused(kind, has_filter) ==> verdict == Err::<(), ValidationError>(
            ValidationError::DeleteWithoutFilter,
        ),
        !refused(kind, has_filter) ==> verdict == Ok::<(), ValidationError>(()),
{
    match kind {
        CommandKind::Delete => {
            if has_filter {
                Ok(())
            } else {
                Err(ValidationError::DeleteWithoutFilter)
            }
        },
        _ => Ok(()),
    }
}

} // verus!
