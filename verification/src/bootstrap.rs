//! The first-launch wizard. The backend is installed by its operator, so there
//! is never anything to do: every request is answered with the resting state.

use crate::json::Json;
use vstd::prelude::*;

verus! {

/// What the wizard shows.
pub struct DesktopBootstrapState {
    pub active: bool,
    pub manifest: Option<Json>,
    pub stages: Vec<(String, Json)>,
    pub error: Option<String>,
    pub log: Vec<Json>,
    pub started_at: Option<i64>,
    pub completed_at: Option<i64>,
    pub setup_choice: Option<Json>,
    pub unsupported_platform: Option<Json>,
}

/// Nothing is running, nothing has failed, and nothing is recorded.
pub open spec fn at_rest(s: DesktopBootstrapState) -> bool {
    &&& !s.active
    &&& s.manifest is None
    &&& s.stages@.len() == 0
    &&& s.error is None
    &&& s.log@.len() == 0
    &&& s.started_at is None
    &&& s.completed_at is None
    &&& s.setup_choice is None
    &&& s.unsupported_platform is None
}

/// The resting state.
pub fn empty_state() -> (r: DesktopBootstrapState)
    ensures
        at_rest(r),
{
    DesktopBootstrapState {
        active: false,
        manifest: None,
        stages: Vec::new(),
        error: None,
        log: Vec::new(),
        started_at: None,
        completed_at: None,
        setup_choice: None,
        unsupported_platform: None,
    }
}

} // verus!
