//! The Blackboard's records: gaps (tasks of the plan) and the evidence they produce.
use vstd::prelude::*;
use vstd::string::*;

verus! {

/// The lifecycle state of a gap: Blocked -> Ready -> Assigned -> Closed.
#[derive(PartialEq, Eq, Structural, Clone, Copy, Debug)]
pub enum GapState {
    Blocked,
    Ready,
    Assigned,
    Closed,
}

/// A gap as a mathematical value.
pub struct GapView {
    pub id: u128,
    pub name: Seq<char>,
    pub state: GapState,
    pub description: Seq<char>,
    pub dependencies: Seq<Seq<char>>,
    pub constraints: Option<Seq<char>>,
    pub expected_output: Option<Seq<char>>,
}

impl GapView {
    pub open spec fn with_state(self, state: GapState) -> GapView {
        GapView { state, ..self }
    }
}

/// One atomic task of the plan. `dependencies` are names of other gaps;
/// `constraints` is JSON text, pretty-printed.
#[derive(Clone, Debug)]
pub struct Gap {
    pub gap_id: u128,
    pub name: String,
    pub state: GapState,
    pub description: String,
    pub dependencies: Vec<String>,
    pub constraints: Option<String>,
    pub expected_output: Option<String>,
}

pub open spec fn opt_view(o: Option<String>) -> Option<Seq<char>> {
    match o {
        Some(s) => Some(s@),
        None => None,
    }
}

pub open spec fn strings_view(v: Seq<String>) -> Seq<Seq<char>> {
    crate::text::texts(v)
}

impl View for Gap {
    type V = GapView;

    open spec fn view(&self) -> GapView {
        GapView {
            id: self.gap_id,
            name: self.name@,
            state: self.state,
            description: self.description@,
            dependencies: strings_view(self.dependencies@),
            constraints: opt_view(self.constraints),
            expected_output: opt_view(self.expected_output),
        }
    }
}

/// The state a new gap starts in: Ready when it has no dependencies, else Blocked.
pub open spec fn initial_state(dependencies: Seq<Seq<char>>) -> GapState {
    if dependencies.len() == 0 {
        GapState::Ready
    } else {
        GapState::Blocked
    }
}

/// Calls `uuid::Uuid::new_v4` and returns the identifier as a 128-bit integer.
/// The value is random, so no clause is stated about it.
#[verifier::external_body]
fn fresh_gap_id() -> u128 {
    uuid::Uuid::new_v4().as_u128()
}

impl Gap {
    /// A new gap with a fresh random identifier.
    pub fn new(
        name: String,
        description: String,
        dependencies: Vec<String>,
        constraints: Option<String>,
        expected_output: Option<String>,
    ) -> (g: Gap)
        ensures
            g@.name == name@,
            g@.description == description@,
            g@.dependencies == strings_view(dependencies@),
            g@.constraints == opt_view(constraints),
            g@.expected_output == opt_view(expected_output),
            g@.state == initial_state(strings_view(dependencies@)),
    {
        let id = fresh_gap_id();
        Gap::with_id(id, name, description, dependencies, constraints, expected_output)
    }

    /// A new gap with the given identifier.
    fn with_id(
        gap_id: u128,
        name: String,
        description: String,
        dependencies: Vec<String>,
        constraints: Option<String>,
        expected_output: Option<String>,
    ) -> (g: Gap)
        ensures
            g@ == (GapView {
                id: gap_id,
                name: name@,
                state: initial_state(strings_view(dependencies@)),
                description: description@,
                dependencies: strings_view(dependencies@),
                constraints: opt_view(constraints),
                expected_output: opt_view(expected_output),
            }),
    {
        let state = if dependencies.len() == 0 {
            GapState::Ready
        } else {
            GapState::Blocked
        };
        Gap { gap_id, name, state, description, dependencies, constraints, expected_output }
    }

    pub fn gap_id(&self) -> (r: u128)
        ensures
            r == self@.id,
    {
        self.gap_id
    }

    pub fn name(&self) -> (r: &str)
        ensures
            r@ == self@.name,
    {
        self.name.as_str()
    }

    pub fn state(&self) -> (r: &GapState)
        ensures
            *r == self@.state,
    {
        &self.state
    }

    pub fn description(&self) -> (r: &str)
        ensures
            r@ == self@.description,
    {
        self.description.as_str()
    }

    pub fn dependencies(&self) -> (r: &Vec<String>)
        ensures
            strings_view(r@) == self@.dependencies,
    {
        &self.dependencies
    }

    pub fn constraints(&self) -> (r: &Option<String>)
        ensures
            opt_view(*r) == self@.constraints,
    {
        &self.constraints
    }

    pub fn expected_output(&self) -> (r: &Option<String>)
        ensures
            opt_view(*r) == self@.expected_output,
    {
        &self.expected_output
    }

    pub fn set_state(&mut self, state: GapState)
        ensures
            final(self)@ == old(self)@.with_state(state),
    {
        self.state = state;
    }
}

/// Whether running a gap succeeded.
#[derive(Clone, Debug)]
pub enum EvidenceStatus {
    Success,
    /// The code ran but its output was not JSON; the raw output is kept as a JSON string.
    Partial,
    Failure { reason: String },
}

/// A status as a mathematical value.
pub enum StatusView {
    Success,
    Partial,
    Failure(Seq<char>),
}

impl View for EvidenceStatus {
    type V = StatusView;

    open spec fn view(&self) -> StatusView {
        match self {
            EvidenceStatus::Success => StatusView::Success,
            EvidenceStatus::Partial => StatusView::Partial,
            EvidenceStatus::Failure { reason } => StatusView::Failure(reason@),
        }
    }
}

impl EvidenceStatus {
    pub fn is_success(&self) -> (b: bool)
        ensures
            b == (self@ is Success),
    {
        match self {
            EvidenceStatus::Success => true,
            _ => false,
        }
    }
}

/// Evidence as a mathematical value.
pub struct EvidenceView {
    pub gap_id: u128,
    pub attempt: u32,
    pub content: Seq<char>,
    pub status: StatusView,
}

/// A result posted for a gap: which run of the gap it came from (counting from 1), and
/// `content` as JSON text.
#[derive(Clone, Debug)]
pub struct Evidence {
    pub gap_id: u128,
    pub attempt: u32,
    pub content: String,
    pub status: EvidenceStatus,
}

impl View for Evidence {
    type V = EvidenceView;

    open spec fn view(&self) -> EvidenceView {
        EvidenceView {
            gap_id: self.gap_id,
            attempt: self.attempt,
            content: self.content@,
            status: self.status@,
        }
    }
}

impl Evidence {
    /// A copy of this record.
    pub fn clone_evidence(&self) -> (e: Evidence)
        ensures
            e@ == self@,
    {
        let status = match &self.status {
            EvidenceStatus::Success => EvidenceStatus::Success,
            EvidenceStatus::Partial => EvidenceStatus::Partial,
            EvidenceStatus::Failure { reason } => EvidenceStatus::Failure { reason: reason.clone() },
        };
        Evidence { gap_id: self.gap_id, attempt: self.attempt, content: self.content.clone(), status }
    }

    /// The record of a gap's first run.
    pub fn new(gap_id: u128, content: String, status: EvidenceStatus) -> (e: Evidence)
        ensures
            e@ == (EvidenceView { gap_id, attempt: 1, content: content@, status: status@ }),
    {
        Evidence { gap_id, attempt: 1, content, status }
    }

    /// The record of run number `attempt` of a gap.
    pub fn with_attempt(gap_id: u128, attempt: u32, content: String, status: EvidenceStatus) -> (e: Evidence)
        ensures
            e@ == (EvidenceView { gap_id, attempt, content: content@, status: status@ }),
    {
        Evidence { gap_id, attempt, content, status }
    }

    pub fn gap_id(&self) -> (r: u128)
        ensures
            r == self@.gap_id,
    {
        self.gap_id
    }

    pub fn attempt(&self) -> (r: u32)
        ensures
            r == self@.attempt,
    {
        self.attempt
    }

    pub fn content(&self) -> (r: &str)
        ensures
            r@ == self@.content,
    {
        self.content.as_str()
    }

    pub fn status(&self) -> (r: &EvidenceStatus)
        ensures
            r@ == self@.status,
    {
        &self.status
    }
}

/// The gap ids of a snapshot's gap entries, in order.
pub open spec fn pairs_gap_ids(v: Seq<(u128, Gap)>) -> Seq<u128> {
    v.map_values(|p: (u128, Gap)| p.0)
}

pub open spec fn pairs_evidence_ids(v: Seq<(u128, Vec<Evidence>)>) -> Seq<u128> {
    v.map_values(|p: (u128, Vec<Evidence>)| p.0)
}

/// The number of evidence records in `v`, over all gaps.
pub open spec fn evidence_total(v: Seq<(u128, Vec<Evidence>)>) -> nat
    decreases v.len(),
{
    if v.len() == 0 {
        0
    } else {
        evidence_total(v.drop_last()) + v.last().1@.len()
    }
}

/// The state of the first gap named `name`, in the order given.
pub open spec fn first_state(gaps: Seq<(u128, Gap)>, name: Seq<char>) -> Option<GapState>
    decreases gaps.len(),
{
    if gaps.len() == 0 {
        None
    } else if gaps[0].1@.name == name {
        Some(gaps[0].1.state)
    } else {
        first_state(gaps.drop_first(), name)
    }
}

/// A copy of a Blackboard's contents at one moment: intent, gaps and evidence, by gap id.
#[derive(Clone, Debug)]
pub struct BlackboardSnapshot {
    pub intent: Option<String>,
    pub gaps: Vec<(u128, Gap)>,
    pub evidences: Vec<(u128, Vec<Evidence>)>,
}

impl BlackboardSnapshot {
    pub fn new(
        intent: Option<String>,
        gaps: Vec<(u128, Gap)>,
        evidences: Vec<(u128, Vec<Evidence>)>,
    ) -> (s: BlackboardSnapshot)
        ensures
            s.intent == intent,
            s.gaps == gaps,
            s.evidences == evidences,
    {
        BlackboardSnapshot { intent, gaps, evidences }
    }

    pub fn intent(&self) -> (r: Option<&str>)
        ensures
            r matches Some(t) ==> self.intent matches Some(i) && t@ == i@,
            r is None <==> self.intent is None,
    {
        match &self.intent {
            Some(i) => Some(i.as_str()),
            None => None,
        }
    }

    /// The gaps of the snapshot, in its order.
    pub fn gaps(&self) -> (r: Vec<&Gap>)
        ensures
            r@.len() == self.gaps@.len(),
            forall|i: int| 0 <= i < r@.len() ==> *(#[trigger] r@[i]) == self.gaps@[i].1,
    {
        let mut r: Vec<&Gap> = Vec::new();
        let n = self.gaps.len();
        for i in 0..n
            invariant
                n == self.gaps@.len(),
                r@.len() == i,
                forall|j: int| 0 <= j < i ==> *(#[trigger] r@[j]) == self.gaps@[j].1,
        {
            r.push(&self.gaps[i].1);
        }
        r
    }

    /// The state of the first gap (in the snapshot's order) named `name`, if any.
    pub fn gap_state(&self, name: &str) -> (r: Option<GapState>)
        ensures
            r == first_state(self.gaps@, name@),
            r matches Some(st) ==> exists|i: int|
                0 <= i < self.gaps@.len() && (#[trigger] self.gaps@[i]).1@.name == name@
                    && self.gaps@[i].1@.state == st,
            r is None ==> forall|i: int|
                0 <= i < self.gaps@.len() ==> (#[trigger] self.gaps@[i]).1@.name != name@,
    {
        let n = self.gaps.len();
        assert(self.gaps@.skip(0) =~= self.gaps@);
        for i in 0..n
            invariant
                n == self.gaps@.len(),
                forall|j: int| 0 <= j < i ==> (#[trigger] self.gaps@[j]).1@.name != name@,
                first_state(self.gaps@, name@) == first_state(self.gaps@.skip(i as int), name@),
        {
            let g = &self.gaps[i].1;
            assert(self.gaps@.skip(i as int)[0] == self.gaps@[i as int]);
            if g.name.eq(&String::from_str(name)) {
                return Some(g.state);
            }
            assert(self.gaps@.skip(i as int).drop_first() =~= self.gaps@.skip(i + 1));
        }
        None
    }

    /// The number of evidence records over all gaps.
    pub fn evidence_count(&self) -> (c: usize)
        requires
            evidence_total(self.evidences@) <= usize::MAX,
        ensures
            c == evidence_total(self.evidences@),
    {
        let mut c: usize = 0;
        let n = self.evidences.len();
        for i in 0..n
            invariant
                n == self.evidences@.len(),
                evidence_total(self.evidences@) <= usize::MAX,
                c == evidence_total(self.evidences@.take(i as int)),
        {
            assert(self.evidences@.take(i + 1).drop_last() == self.evidences@.take(i as int));
            proof {
                lemma_evidence_total_prefix(self.evidences@, i + 1);
            }
            c = c + self.evidences[i].1.len();
        }
        assert(self.evidences@.take(n as int) == self.evidences@);
        c
    }

    pub fn into_parts(self) -> (r: (Option<String>, Vec<(u128, Gap)>, Vec<(u128, Vec<Evidence>)>))
        ensures
            r == (self.intent, self.gaps, self.evidences),
    {
        (self.intent, self.gaps, self.evidences)
    }
}

/// A prefix's total is at most the whole total.
proof fn lemma_evidence_total_prefix(v: Seq<(u128, Vec<Evidence>)>, k: int)
    requires
        0 <= k <= v.len(),
    ensures
        evidence_total(v.take(k)) <= evidence_total(v),
    decreases v.len(),
{
    if k < v.len() {
        assert(v.drop_last().take(k) == v.take(k));
        lemma_evidence_total_prefix(v.drop_last(), k);
    } else {
        assert(v.take(k) == v);
    }
}

} // verus!
