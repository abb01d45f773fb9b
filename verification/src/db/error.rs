//! The three kinds of failure that an operation of the engine can report.

use vstd::prelude::*;
use vstd::string::*;
use crate::domain::rules::RuleError;

verus! {

/// Why an operation failed.
#[derive(Debug)]
pub enum DbError {
    /// A referenced entity does not exist.
    NotFound(String),
    /// Storage or infrastructure failure.
    Internal(String),
    /// A rule of the game was violated.
    Constraint(String),
}

/// What an operation returns: its result, or why it failed.
pub type DbResult<T> = Result<T, DbError>;

impl DbError {
    /// The message of the failure, as a user reads it.
    pub open spec fn text(self) -> Seq<char> {
        match self {
            DbError::NotFound(what) => "Not found: "@ + what@,
            DbError::Internal(what) => "Database error: "@ + what@,
            DbError::Constraint(what) => "Constraint violation: "@ + what@,
        }
    }

    /// Renders the failure for the user.
    pub fn message(&self) -> (r: String)
        ensures
            r@ == self.text(),
    {
        match self {
            DbError::NotFound(what) => {
                let mut out: String = "Not found: ".to_string();
                out.append(what.as_str());
                out
            },
            DbError::Internal(what) => {
                let mut out: String = "Database error: ".to_string();
                out.append(what.as_str());
                out
            },
            DbError::Constraint(what) => {
                let mut out: String = "Constraint violation: ".to_string();
                out.append(what.as_str());
                out
            },
        }
    }

    /// The failure is the violation of `rule`.
    pub open spec fn is_violation_of(self, rule: RuleError) -> bool {
        self matches DbError::Constraint(what) && what@ == rule.text()
    }

    /// The failure that reports a broken rule to the caller: a constraint
    /// violation with the rule's message.
    pub fn violation(rule: &RuleError) -> (r: DbError)
        ensures
            r.is_violation_of(*rule),
    {
        DbError::Constraint(rule.message())
    }
}

} // verus!
