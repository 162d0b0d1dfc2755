//! The planner's output: the intent, whether it continues the current board, and new gaps.
use vstd::prelude::*;
use crate::moss::types::opt_view;

verus! {

/// The `is_follow_up` flag read from the planner's reply: a missing or null value means false.
pub fn follow_up_flag(value: Option<bool>) -> (b: bool)
    ensures
        b == (value == Some(true)),
{
    match value {
        Some(v) => v,
        None => false,
    }
}

/// One gap as described by the planner; consumed once to build a gap.
pub struct GapSpec {
    pub name: String,
    pub description: String,
    pub dependencies: Vec<String>,
    /// JSON text, pretty-printed.
    pub constraints: Option<String>,
    pub expected_output: Option<String>,
}

pub struct GapSpecView {
    pub name: Seq<char>,
    pub description: Seq<char>,
    pub dependencies: Seq<Seq<char>>,
    pub constraints: Option<Seq<char>>,
    pub expected_output: Option<Seq<char>>,
}

impl View for GapSpec {
    type V = GapSpecView;

    open spec fn view(&self) -> GapSpecView {
        GapSpecView {
            name: self.name@,
            description: self.description@,
            dependencies: self.dependencies@.map_values(|d: String| d@),
            constraints: opt_view(self.constraints),
            expected_output: opt_view(self.expected_output),
        }
    }
}

/// The planner's decision for one user query.
pub struct Decomposition {
    pub intent: Option<String>,
    pub gaps: Option<Vec<GapSpec>>,
    pub is_follow_up: bool,
}

} // verus!
