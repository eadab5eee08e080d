//! Board-owned active-work assessment seam.

use vstd::prelude::*;

verus! {

/// The only Board decision Core needs before storing an active Work item reference.
#[derive(Clone, Copy, Debug, PartialEq, Eq, Structural)]
pub enum BoardActiveWorkAssessment {
    Eligible,
    Ineligible,
}

/// Stable failure classes at the Core-to-Board seam.
#[derive(Clone, Copy, Debug, PartialEq, Eq, Structural)]
pub enum BoardPortError {
    ProjectNotFound,
    WorkItemNotFound,
    Unavailable,
    InvalidResponse,
}

/// Port implemented by the production Board process Adapter and in-memory tests.
pub trait BoardPort {
    /// Whether `r` is an answer this Board gives for the Work item of the project. What each
    /// implementation answers is its own; one that does not state it promises nothing more of
    /// its answers.
    closed spec fn assesses(
        &self,
        project_id: Seq<char>,
        work_item_id: Seq<char>,
        r: Result<BoardActiveWorkAssessment, BoardPortError>,
    ) -> bool {
        true
    }

    /// Ask Board whether one Work item belongs to the project and may be active.
    fn assess_active_work(&self, project_id: &str, work_item_id: &str) -> (r: Result<
        BoardActiveWorkAssessment,
        BoardPortError,
    >)
        ensures
            self.assesses(project_id@, work_item_id@, r),
    ;
}

/// Fail-closed Adapter used when no Board process is configured.
pub struct UnavailableBoard;

impl Default for UnavailableBoard {
    fn default() -> (r: UnavailableBoard)
        ensures
            r == UnavailableBoard,
    {
        UnavailableBoard
    }
}

impl BoardPort for UnavailableBoard {
    /// It answers that Board is unavailable, whatever is asked.
    open spec fn assesses(
        &self,
        project_id: Seq<char>,
        work_item_id: Seq<char>,
        r: Result<BoardActiveWorkAssessment, BoardPortError>,
    ) -> bool {
        r == Err::<BoardActiveWorkAssessment, BoardPortError>(BoardPortError::Unavailable)
    }

    fn assess_active_work(&self, project_id: &str, work_item_id: &str) -> (r: Result<
        BoardActiveWorkAssessment,
        BoardPortError,
    >)
        ensures
            r == Err::<BoardActiveWorkAssessment, BoardPortError>(BoardPortError::Unavailable),
    {
        Err(BoardPortError::Unavailable)
    }
}

} // verus!
