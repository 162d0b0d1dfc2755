//! The per-gap solver: the decisions of its loop (prompt, guard, run, ask, finish),
//! the prompt it renders, and the reading of the LLM's reply envelope.
use vstd::prelude::*;
use vstd::string::*;
use crate::error::MossError;
use crate::moss::artifact_guard::{scan_verdict, utf8_len, ArtifactGuard, ScanVerdict, Verdict};
use crate::moss::blackboard::{BoardView, Blackboard};
use crate::moss::json::{lossy_text, lossy_utf8};
use crate::moss::prompts::SOLVER_PROMPT;
use crate::moss::template::{render_template, rendered, vars_view};
use crate::moss::types::{
    opt_view, strings_view, Evidence, EvidenceStatus, EvidenceView, Gap, GapState, GapView, StatusView,
};
use crate::text::{
    chars_of, matches_at, occurs_at, sub_vec, decimal, ends_with, join, join_strings, lemma_texts_push, push_decimal, starts_with,
    texts, trim, trim_bounds,
};

verus! {

/// Maximum number of LLM turns before the solver gives up on a gap.
pub const MAX_ITERATIONS: u32 = 10;

/// Maximum execution time, in seconds, of one code block.
pub const CODE_TIMEOUT_SECS: u64 = 120;

// ── Reply envelope ────────────────────────────────────────────────────────────

/// `s` with surrounding whitespace and one markdown fence (```json or ```) removed, when the
/// whole trimmed reply is fenced; otherwise `s` trimmed.
pub open spec fn fences_stripped(s: Seq<char>) -> Seq<char> {
    let t = trim(s);
    let inner = if starts_with(t, "```json"@) {
        Some(t.skip("```json"@.len() as int))
    } else if starts_with(t, "```"@) {
        Some(t.skip("```"@.len() as int))
    } else {
        None
    };
    match inner {
        Some(a) => if ends_with(a, "```"@) {
            trim(a.take(a.len() - "```"@.len()))
        } else {
            t
        },
        None => t,
    }
}

/// Strip markdown fences that some models wrap around JSON output.
pub fn strip_json_fences(response: &str) -> (r: &str)
    ensures
        r@ == fences_stripped(response@),
{
    let v = chars_of(response);
    let (i, j) = trim_bounds(&v);
    let t = sub_vec(&v, i, j);
    let fence_json = chars_of("```json");
    let fence = chars_of("```");
    let k: usize = if matches_at(&t, &fence_json, 0) {
        fence_json.len()
    } else if matches_at(&t, &fence, 0) {
        fence.len()
    } else {
        return response.substring_char(i, j);
    };
    assert(t@.subrange(0, k as int) == t@.take(k as int));
    let n = t.len();
    if n - k < fence.len() || !matches_at(&t, &fence, n - fence.len()) {
        proof {
            let a = t@.skip(k as int);
            if ends_with(a, "```"@) {
                assert(a.skip(a.len() - fence@.len()) == t@.subrange(n - fence@.len(), n as int));
            }
        }
        return response.substring_char(i, j);
    }
    let a = sub_vec(&t, k, n - fence.len());
    let (ai, aj) = trim_bounds(&a);
    proof {
        let av = t@.skip(k as int);
        assert(av.skip(av.len() - fence@.len()) == t@.subrange(n - fence@.len(), n as int));
        assert(av.take(av.len() - fence@.len()) == a@);
        assert(v@.subrange(i + k + ai, i + k + aj) == a@.subrange(ai as int, aj as int));
    }
    response.substring_char(i + k + ai, i + k + aj)
}

// ── Reply model ───────────────────────────────────────────────────────────────

/// The action the LLM chose on one turn.
pub enum Step {
    /// Run `code` with `interpreter`, from a file with extension `ext`.
    Code { interpreter: String, ext: String, code: String },
    /// Ask the human `question`.
    Ask { question: String },
    /// The final answer; `value` is JSON text.
    Done { value: String },
}

/// One turn's reply: the step and an optional note to append to working memory.
pub struct SolverResponse {
    pub step: Step,
    pub scratch: Option<String>,
}

pub enum StepView {
    Code { interpreter: Seq<char>, ext: Seq<char>, code: Seq<char> },
    Ask { question: Seq<char> },
    Done { value: Seq<char> },
}

pub struct ResponseView {
    pub step: StepView,
    pub scratch: Option<Seq<char>>,
}

impl View for SolverResponse {
    type V = ResponseView;

    open spec fn view(&self) -> ResponseView {
        ResponseView {
            step: match self.step {
                Step::Code { interpreter, ext, code } => StepView::Code {
                    interpreter: interpreter@,
                    ext: ext@,
                    code: code@,
                },
                Step::Ask { question } => StepView::Ask { question: question@ },
                Step::Done { value } => StepView::Done { value: value@ },
            },
            scratch: opt_view(self.scratch),
        }
    }
}

// ── Loop state machine ────────────────────────────────────────────────────────

/// What the solver is waiting for.
pub enum Phase {
    /// The LLM's reply to the last prompt.
    AwaitingResponse,
    /// A human's decision on gated code.
    AwaitingApproval { interpreter: String, ext: String, code: String, reason: String },
    /// The output of code that is running.
    AwaitingExecution,
    /// A human's answer to a question.
    AwaitingAnswer,
    /// Nothing: the gap is finished.
    Finished,
}

pub enum PhaseView {
    AwaitingResponse,
    AwaitingApproval { interpreter: Seq<char>, ext: Seq<char>, code: Seq<char>, reason: Seq<char> },
    AwaitingExecution,
    AwaitingAnswer,
    Finished,
}

/// The solver loop's state for one gap.
pub struct SolverState {
    pub gap_id: u128,
    /// Number of completed LLM turns.
    pub iteration: u32,
    pub working_memory: String,
    pub last_output: Option<String>,
    pub phase: Phase,
}

pub struct StateView {
    pub gap_id: u128,
    pub iteration: nat,
    pub working_memory: Seq<char>,
    pub last_output: Option<Seq<char>>,
    pub phase: PhaseView,
}

impl View for SolverState {
    type V = StateView;

    open spec fn view(&self) -> StateView {
        StateView {
            gap_id: self.gap_id,
            iteration: self.iteration as nat,
            working_memory: self.working_memory@,
            last_output: opt_view(self.last_output),
            phase: match self.phase {
                Phase::AwaitingResponse => PhaseView::AwaitingResponse,
                Phase::AwaitingApproval { interpreter, ext, code, reason } => PhaseView::AwaitingApproval {
                    interpreter: interpreter@,
                    ext: ext@,
                    code: code@,
                    reason: reason@,
                },
                Phase::AwaitingExecution => PhaseView::AwaitingExecution,
                Phase::AwaitingAnswer => PhaseView::AwaitingAnswer,
                Phase::Finished => PhaseView::Finished,
            },
        }
    }
}

/// What happened outside the solver since its last action.
pub enum SolverEvent {
    /// The LLM replied; `None` when the reply was not a valid envelope.
    Responded(Option<SolverResponse>),
    /// A human approved (`true`) or denied gated code.
    Approved(bool),
    /// Code ran: its output text, or the text of the error that stopped it from running.
    Executed(Result<String, String>),
    /// The human's answer, or `None` when no answer came.
    Answered(Option<String>),
}

pub enum EventView {
    Responded(Option<ResponseView>),
    Approved(bool),
    Executed(Result<Seq<char>, Seq<char>>),
    Answered(Option<Seq<char>>),
}

impl View for SolverEvent {
    type V = EventView;

    open spec fn view(&self) -> EventView {
        match self {
            SolverEvent::Responded(r) => EventView::Responded(match r {
                Some(x) => Some(x@),
                None => None,
            }),
            SolverEvent::Approved(b) => EventView::Approved(*b),
            SolverEvent::Executed(r) => EventView::Executed(match r {
                Ok(o) => Ok(o@),
                Err(e) => Err(e@),
            }),
            SolverEvent::Answered(a) => EventView::Answered(opt_view(*a)),
        }
    }
}

/// What the solver asks its driver to do next.
pub enum SolverAction {
    /// Render the prompt for the current state and send it to the LLM.
    Prompt,
    /// Ask a human to approve gated code.
    RequestApproval { reason: String },
    /// Run `code` with `interpreter` from a file with extension `ext`.
    RunCode { interpreter: String, ext: String, code: String },
    /// Ask the human `question`.
    AskHuman { question: String },
    /// Post `evidence` for the gap; the solver is done.
    Finish { evidence: Evidence },
}

pub enum ActionView {
    Prompt,
    RequestApproval(Seq<char>),
    RunCode { interpreter: Seq<char>, ext: Seq<char>, code: Seq<char> },
    AskHuman(Seq<char>),
    Finish(EvidenceView),
}

impl View for SolverAction {
    type V = ActionView;

    open spec fn view(&self) -> ActionView {
        match self {
            SolverAction::Prompt => ActionView::Prompt,
            SolverAction::RequestApproval { reason } => ActionView::RequestApproval(reason@),
            SolverAction::RunCode { interpreter, ext, code } => ActionView::RunCode {
                interpreter: interpreter@,
                ext: ext@,
                code: code@,
            },
            SolverAction::AskHuman { question } => ActionView::AskHuman(question@),
            SolverAction::Finish { evidence } => ActionView::Finish(evidence@),
        }
    }
}

/// The event is the kind the state waits for.
pub open spec fn accepts(s: StateView, e: EventView) -> bool {
    match s.phase {
        PhaseView::AwaitingResponse => e is Responded,
        PhaseView::AwaitingApproval { .. } => e is Approved,
        PhaseView::AwaitingExecution => e is Executed,
        PhaseView::AwaitingAnswer => e is Answered,
        PhaseView::Finished => false,
    }
}

/// Reply text that tells the LLM its reply was not a valid envelope.
pub open spec fn invalid_reply_text() -> Seq<char> {
    "ERROR: your previous response was not valid JSON. Respond with a single JSON object: {\"step\":\"code\",...}, {\"step\":\"ask\",...}, or {\"step\":\"done\",...}"@
}

fn invalid_reply() -> (r: String)
    ensures
        r@ == invalid_reply_text(),
{
    String::from_str("ERROR: your previous response was not valid JSON. Respond with a single JSON object: {\"step\":\"code\",...}, {\"step\":\"ask\",...}, or {\"step\":\"done\",...}")
}

/// The evidence posted when the solver runs out of turns.
pub open spec fn exhausted_evidence(gap_id: u128) -> EvidenceView {
    EvidenceView {
        gap_id,
        attempt: 1,
        content: "null"@,
        status: StatusView::Failure(
            "solver exhausted "@ + decimal(MAX_ITERATIONS as nat) + " iterations"@,
        ),
    }
}

/// Working memory after a reply's scratch note.
pub open spec fn with_scratch(wm: Seq<char>, scratch: Option<Seq<char>>) -> Seq<char> {
    match scratch {
        None => wm,
        Some(t) => if wm.len() == 0 {
            t
        } else {
            wm + "\n"@ + t
        },
    }
}

/// One turn ends with `out` as the last output: prompt again, or finish when the turns are used up.
pub open spec fn end_turn(s: StateView, out: Seq<char>) -> (StateView, ActionView) {
    let it = s.iteration + 1;
    if it >= MAX_ITERATIONS {
        (
            StateView { iteration: it, last_output: Some(out), phase: PhaseView::Finished, ..s },
            ActionView::Finish(exhausted_evidence(s.gap_id)),
        )
    } else {
        (
            StateView { iteration: it, last_output: Some(out), phase: PhaseView::AwaitingResponse, ..s },
            ActionView::Prompt,
        )
    }
}

/// The solver's transition: from a state and an accepted event to the next state and action.
pub open spec fn solver_step(s: StateView, e: EventView) -> (StateView, ActionView) {
    match e {
        EventView::Responded(None) => end_turn(s, invalid_reply_text()),
        EventView::Responded(Some(r)) => {
            let s1 = StateView { working_memory: with_scratch(s.working_memory, r.scratch), ..s };
            match r.step {
                StepView::Code { interpreter, ext, code } => match scan_verdict(code, utf8_len(code)) {
                    Verdict::Approved => (
                        StateView { phase: PhaseView::AwaitingExecution, ..s1 },
                        ActionView::RunCode { interpreter, ext, code },
                    ),
                    Verdict::Rejected(reason) => end_turn(
                        s1,
                        "ERROR: code rejected by guard: "@ + reason,
                    ),
                    Verdict::Gated(reason) => (
                        StateView {
                            phase: PhaseView::AwaitingApproval { interpreter, ext, code, reason },
                            ..s1
                        },
                        ActionView::RequestApproval(reason),
                    ),
                },
                StepView::Ask { question } => (
                    StateView { phase: PhaseView::AwaitingAnswer, ..s1 },
                    ActionView::AskHuman(question),
                ),
                StepView::Done { value } => (
                    StateView { phase: PhaseView::Finished, ..s1 },
                    ActionView::Finish(
                        EvidenceView { gap_id: s.gap_id, attempt: 1, content: value, status: StatusView::Success },
                    ),
                ),
            }
        },
        EventView::Approved(ok) => match s.phase {
            PhaseView::AwaitingApproval { interpreter, ext, code, reason } => if ok {
                (
                    StateView { phase: PhaseView::AwaitingExecution, ..s },
                    ActionView::RunCode { interpreter, ext, code },
                )
            } else {
                end_turn(s, "ERROR: code denied by user: "@ + reason)
            },
            _ => (s, ActionView::Prompt),
        },
        EventView::Executed(Ok(out)) => end_turn(s, out),
        EventView::Executed(Err(err)) => end_turn(s, "ERROR: execution error: "@ + err),
        EventView::Answered(a) => end_turn(
            s,
            "Human answered: "@ + match a {
                Some(t) => t,
                None => "(no answer received)"@,
            },
        ),
    }
}

/// The solver's invariant: fewer turns than the limit unless finished, and gated code waiting
/// for approval is exactly code the guard gated with that reason.
pub open spec fn solver_inv(s: StateView) -> bool {
    &&& s.iteration <= MAX_ITERATIONS
    &&& !(s.phase is Finished) ==> s.iteration < MAX_ITERATIONS
    &&& match s.phase {
        PhaseView::AwaitingApproval { code, reason, .. } => scan_verdict(code, utf8_len(code))
            == Verdict::Gated(reason),
        _ => true,
    }
}

/// Solves one gap: decides each step of the loop; its driver performs the I/O.
pub struct Solver {
    pub guard: ArtifactGuard,
    pub environment: String,
}

impl Solver {
    pub fn new(guard: ArtifactGuard, environment: String) -> (s: Solver)
        ensures
            s.environment@ == environment@,
    {
        Solver { guard, environment }
    }

    /// The state before the first turn for gap `gap_id`; the first action is `Prompt`.
    pub fn start(&self, gap_id: u128) -> (r: (SolverState, SolverAction))
        ensures
            r.0@ == (StateView {
                gap_id,
                iteration: 0,
                working_memory: Seq::empty(),
                last_output: None,
                phase: PhaseView::AwaitingResponse,
            }),
            r.1@ == ActionView::Prompt,
            solver_inv(r.0@),
    {
        let st = SolverState {
            gap_id,
            iteration: 0,
            working_memory: String::new(),
            last_output: None,
            phase: Phase::AwaitingResponse,
        };
        (st, SolverAction::Prompt)
    }

    fn end_turn(&self, state: &mut SolverState, out: String) -> (a: SolverAction)
        requires
            solver_inv(old(state)@),
            !(old(state)@.phase is Finished),
        ensures
            (final(state)@, a@) == end_turn(old(state)@, out@),
            solver_inv(final(state)@),
    {
        state.iteration = state.iteration + 1;
        state.last_output = Some(out);
        if state.iteration >= MAX_ITERATIONS {
            state.phase = Phase::Finished;
            let mut reason = String::from_str("solver exhausted ");
            push_decimal(&mut reason, MAX_ITERATIONS as u64);
            reason.append(" iterations");
            SolverAction::Finish {
                evidence: Evidence::new(
                    state.gap_id,
                    String::from_str("null"),
                    EvidenceStatus::Failure { reason },
                ),
            }
        } else {
            state.phase = Phase::AwaitingResponse;
            SolverAction::Prompt
        }
    }

    /// One step of the loop: consume `event`, update `state`, and say what to do next.
    pub fn step(&self, state: &mut SolverState, event: SolverEvent) -> (a: SolverAction)
        requires
            solver_inv(old(state)@),
            accepts(old(state)@, event@),
        ensures
            (final(state)@, a@) == solver_step(old(state)@, event@),
            solver_inv(final(state)@),
    {
        match event {
            SolverEvent::Responded(None) => {
                self.end_turn(state, invalid_reply())
            },
            SolverEvent::Responded(Some(resp)) => {
                let SolverResponse { step, scratch } = resp;
                match scratch {
                    Some(t) => {
                        if !state.working_memory.as_str().is_empty() {
                            state.working_memory.append("\n");
                        }
                        state.working_memory.append(t.as_str());
                    },
                    None => {},
                }
                match step {
                    Step::Code { interpreter, ext, code } => {
                        let verdict = self.guard.scan_code(code.as_str());
                        match verdict {
                            ScanVerdict::Approved => {
                                state.phase = Phase::AwaitingExecution;
                                SolverAction::RunCode { interpreter, ext, code }
                            },
                            ScanVerdict::Rejected { reason } => {
                                let mut out = String::from_str("ERROR: code rejected by guard: ");
                                out.append(reason.as_str());
                                self.end_turn(state, out)
                            },
                            ScanVerdict::Gated { reason } => {
                                let shown = reason.clone();
                                state.phase = Phase::AwaitingApproval { interpreter, ext, code, reason };
                                SolverAction::RequestApproval { reason: shown }
                            },
                        }
                    },
                    Step::Ask { question } => {
                        state.phase = Phase::AwaitingAnswer;
                        SolverAction::AskHuman { question }
                    },
                    Step::Done { value } => {
                        state.phase = Phase::Finished;
                        SolverAction::Finish {
                            evidence: Evidence::new(state.gap_id, value, EvidenceStatus::Success),
                        }
                    },
                }
            },
            SolverEvent::Approved(ok) => {
                let mut phase = Phase::AwaitingExecution;
                std::mem::swap(&mut phase, &mut state.phase);
                match phase {
                    Phase::AwaitingApproval { interpreter, ext, code, reason } => {
                        if ok {
                            SolverAction::RunCode { interpreter, ext, code }
                        } else {
                            state.phase = Phase::AwaitingResponse;
                            let mut out = String::from_str("ERROR: code denied by user: ");
                            out.append(reason.as_str());
                            self.end_turn(state, out)
                        }
                    },
                    other => {
                        state.phase = other;
                        SolverAction::Prompt
                    },
                }
            },
            SolverEvent::Executed(Ok(out)) => self.end_turn(state, out),
            SolverEvent::Executed(Err(err)) => {
                let mut out = String::from_str("ERROR: execution error: ");
                out.append(err.as_str());
                self.end_turn(state, out)
            },
            SolverEvent::Answered(a) => {
                let mut out = String::from_str("Human answered: ");
                match a {
                    Some(t) => out.append(t.as_str()),
                    None => out.append("(no answer received)"),
                }
                self.end_turn(state, out)
            },
        }
    }
}

// ── Prompt ────────────────────────────────────────────────────────────────────

/// The context lines for dependency `dep`: one per successful evidence record, in order.
pub open spec fn evidence_lines(dep: Seq<char>, evs: Seq<EvidenceView>) -> Seq<Seq<char>>
    decreases evs.len(),
{
    if evs.len() == 0 {
        Seq::empty()
    } else {
        let rest = evidence_lines(dep, evs.drop_last());
        if evs.last().status is Success {
            rest.push("**"@ + dep + ":** "@ + evs.last().content)
        } else {
            rest
        }
    }
}

/// The context lines for the dependencies `deps`, in order; unknown names give none.
pub open spec fn related_lines(b: BoardView, deps: Seq<Seq<char>>) -> Seq<Seq<char>>
    decreases deps.len(),
{
    if deps.len() == 0 {
        Seq::empty()
    } else {
        related_lines(b, deps.drop_last()) + if b.names.contains_key(deps.last()) {
            evidence_lines(deps.last(), b.evidence_of(b.names[deps.last()]))
        } else {
            Seq::empty()
        }
    }
}

/// The dependency context shown to the solver for gap `g`.
pub open spec fn related_evidence(b: BoardView, g: GapView) -> Seq<char> {
    join(related_lines(b, g.dependencies), "\n\n"@)
}

/// The working-memory text shown in the prompt.
pub open spec fn shown_memory(wm: Seq<char>) -> Seq<char> {
    if wm.len() == 0 {
        "(empty — this is iteration 1)"@
    } else {
        wm
    }
}

/// The top-level variables of the solver prompt.
pub open spec fn solver_vars(
    environment: Seq<char>,
    related: Seq<char>,
    wm: Seq<char>,
    last_output: Option<Seq<char>>,
) -> Seq<(Seq<char>, Option<Seq<char>>)> {
    seq![
        ("environment"@, Some(environment)),
        ("related_evidence"@, if related.len() == 0 { None } else { Some(related) }),
        ("working_memory"@, Some(shown_memory(wm))),
        ("last_output"@, last_output),
    ]
}

/// The variables of the `gap` object in the solver prompt.
pub open spec fn solver_gap_vars(g: GapView) -> Seq<(Seq<char>, Option<Seq<char>>)> {
    seq![
        ("description"@, Some(g.description)),
        ("expected_output"@, g.expected_output),
        ("constraints"@, g.constraints),
    ]
}

/// The rendered solver prompt, or the render error's text.
pub open spec fn solver_prompt(
    environment: Seq<char>,
    g: GapView,
    wm: Seq<char>,
    last_output: Option<Seq<char>>,
    related: Seq<char>,
) -> Result<Seq<char>, Seq<char>> {
    rendered(
        "solver"@,
        SOLVER_PROMPT@,
        solver_vars(environment, related, wm, last_output),
        "gap"@,
        solver_gap_vars(g),
    )
}

fn clone_opt(o: &Option<String>) -> (r: Option<String>)
    ensures
        opt_view(r) == opt_view(*o),
{
    match o {
        Some(t) => Some(t.clone()),
        None => None,
    }
}

fn var(name: &str, value: Option<String>) -> (r: (String, Option<String>))
    ensures
        r.0@ == name@,
        r.1 == value,
{
    (String::from_str(name), value)
}

impl Solver {
    /// The dependency context for `gap`: the content of each successful evidence record of each
    /// dependency, as "**name:** content", separated by blank lines.
    pub fn gather_related_evidence(&self, gap: &Gap, blackboard: &Blackboard) -> (r: String)
        ensures
            r@ == related_evidence(blackboard@, gap@),
    {
        let mut parts: Vec<String> = Vec::new();
        let n = gap.dependencies.len();
        for i in 0..n
            invariant
                n == gap@.dependencies.len(),
                texts(parts@) == related_lines(blackboard@, gap@.dependencies.take(i as int)),
        {
            let dep = &gap.dependencies[i];
            assert(gap@.dependencies.take(i + 1).drop_last() =~= gap@.dependencies.take(i as int));
            assert(gap@.dependencies.take(i + 1).last() == dep@);
            let ghost before = parts@;
            match blackboard.get_gap_id_by_name(dep.as_str()) {
                Some(dep_id) => {
                    let evs = blackboard.get_evidence(dep_id);
                    let m = evs.len();
                    for j in 0..m
                        invariant
                            m == evs@.len(),
                            texts(parts@) == texts(before) + evidence_lines(
                                dep@,
                                crate::moss::blackboard::evidence_view(evs@.take(j as int)),
                            ),
                    {
                        let ghost evv = crate::moss::blackboard::evidence_view(evs@.take(j + 1));
                        assert(evv.drop_last() =~= crate::moss::blackboard::evidence_view(
                            evs@.take(j as int),
                        ));
                        assert(evv.last() == evs@[j as int]@);
                        if evs[j].status.is_success() {
                            let mut line = String::from_str("**");
                            line.append(dep.as_str());
                            line.append(":** ");
                            line.append(evs[j].content.as_str());
                            let ghost prev = parts@;
                            let ghost lv = line@;
                            parts.push(line);
                            proof {
                                lemma_texts_push(prev, parts@.last());
                                assert(parts@ == prev.push(parts@.last()));
                            }
                        }
                    }
                    assert(evs@.take(m as int) == evs@);
                },
                None => {},
            }
        }
        assert(gap@.dependencies.take(n as int) == gap@.dependencies);
        join_strings(&parts, "\n\n")
    }

    /// Renders the solver prompt for `gap` with the current working memory, the last output and
    /// the dependency context.
    pub fn render_prompt(
        &self,
        gap: &Gap,
        working_memory: &str,
        last_output: Option<String>,
        related_evidence: &str,
    ) -> (r: Result<String, MossError>)
        ensures
            r matches Ok(t) ==> solver_prompt(
                self.environment@,
                gap@,
                working_memory@,
                opt_view(last_output),
                related_evidence@,
            ) == Ok::<Seq<char>, Seq<char>>(t@),
            r matches Err(e) ==> exists|msg: Seq<char>|
                solver_prompt(
                    self.environment@,
                    gap@,
                    working_memory@,
                    opt_view(last_output),
                    related_evidence@,
                ) == Err::<Seq<char>, Seq<char>>(msg) && (e matches MossError::Blackboard(m) && m@
                    == "template render error: "@ + msg),
    {
        let wm = if working_memory.is_empty() {
            String::from_str("(empty — this is iteration 1)")
        } else {
            String::from_str(working_memory)
        };
        let related = if related_evidence.is_empty() {
            None
        } else {
            Some(String::from_str(related_evidence))
        };
        let mut vars: Vec<(String, Option<String>)> = Vec::new();
        vars.push(var("environment", Some(self.environment.clone())));
        vars.push(var("related_evidence", related));
        vars.push(var("working_memory", Some(wm)));
        vars.push(var("last_output", last_output));
        let mut group: Vec<(String, Option<String>)> = Vec::new();
        group.push(var("description", Some(gap.description.clone())));
        group.push(var("expected_output", clone_opt(&gap.expected_output)));
        group.push(var("constraints", clone_opt(&gap.constraints)));
        assert(vars_view(vars@) =~= solver_vars(
            self.environment@,
            related_evidence@,
            working_memory@,
            opt_view(last_output),
        ));
        assert(vars_view(group@) =~= solver_gap_vars(gap@));
        match render_template("solver", SOLVER_PROMPT, &vars, "gap", &group) {
            Ok(t) => Ok(t),
            Err(e) => {
                let mut m = String::from_str("template render error: ");
                m.append(e.as_str());
                Err(MossError::Blackboard(m))
            },
        }
    }

    /// The prompt for the solver's next turn on `gap`.
    pub fn prompt(&self, gap: &Gap, blackboard: &Blackboard, state: &SolverState) -> (r: Result<
        String,
        MossError,
    >)
        ensures
            r matches Ok(t) ==> solver_prompt(
                self.environment@,
                gap@,
                state@.working_memory,
                state@.last_output,
                related_evidence(blackboard@, gap@),
            ) == Ok::<Seq<char>, Seq<char>>(t@),
            r matches Err(e) ==> exists|msg: Seq<char>|
                solver_prompt(
                    self.environment@,
                    gap@,
                    state@.working_memory,
                    state@.last_output,
                    related_evidence(blackboard@, gap@),
                ) == Err::<Seq<char>, Seq<char>>(msg) && (e matches MossError::Blackboard(m) && m@
                    == "template render error: "@ + msg),
    {
        let related = self.gather_related_evidence(gap, blackboard);
        self.render_prompt(gap, state.working_memory.as_str(), clone_opt(&state.last_output), related.as_str())
    }
}

// ── Ending a gap ──────────────────────────────────────────────────────────────

/// Ends the solver's work on a gap: posts the evidence of its `Finish` action and marks the gap
/// Closed. Fails, with the evidence posted and nothing else changed, when the board has no such
/// gap.
pub fn finish_gap(board: &mut Blackboard, evidence: Evidence) -> (r: Result<(), MossError>)
    requires
        old(board).wf(),
    ensures
        final(board).wf(),
        r is Ok <==> old(board)@.gaps.contains_key(evidence@.gap_id),
        r is Ok ==> final(board)@ == old(board)@.with_evidence(evidence@).with_gap_state(
            evidence@.gap_id,
            GapState::Closed,
        ),
        r is Err ==> final(board)@ == old(board)@.with_evidence(evidence@),
{
    let id = evidence.gap_id;
    board.append_evidence(evidence);
    board.set_gap_state(id, GapState::Closed)
}

// ── Code output ───────────────────────────────────────────────────────────────

/// How a code block finished.
pub enum CodeOutcome {
    /// It did not finish within `CODE_TIMEOUT_SECS`.
    TimedOut,
    /// It exited; `status` is the exit status as text.
    Exited { success: bool, status: String, stdout: Vec<u8>, stderr: Vec<u8> },
}

/// The output shown to the LLM for a finished code block.
pub open spec fn report_text(outcome: CodeOutcome) -> Seq<char> {
    match outcome {
        CodeOutcome::TimedOut => "ERROR: execution timed out after "@ + decimal(
            CODE_TIMEOUT_SECS as nat,
        ) + "s"@,
        CodeOutcome::Exited { success, status, stdout, stderr } => {
            let out = lossy_utf8(stdout@);
            let err = lossy_utf8(stderr@);
            if success {
                if err.len() == 0 {
                    out
                } else {
                    out + "\n[stderr]: "@ + err
                }
            } else {
                "EXIT CODE: "@ + status@ + "\n[stdout]: "@ + out + "\n[stderr]: "@ + err
            }
        },
    }
}

/// The output shown to the LLM for a finished code block: stdout (with stderr after it when
/// there is any) on success, else the exit status with both streams.
pub fn execution_report(outcome: CodeOutcome) -> (r: String)
    ensures
        r@ == report_text(outcome),
{
    match outcome {
        CodeOutcome::TimedOut => {
            let mut r = String::from_str("ERROR: execution timed out after ");
            push_decimal(&mut r, CODE_TIMEOUT_SECS);
            r.append("s");
            r
        },
        CodeOutcome::Exited { success, status, stdout, stderr } => {
            let out = lossy_text(&stdout);
            let err = lossy_text(&stderr);
            if success {
                if err.as_str().is_empty() {
                    out
                } else {
                    let mut r = out;
                    r.append("\n[stderr]: ");
                    r.append(err.as_str());
                    r
                }
            } else {
                let mut r = String::from_str("EXIT CODE: ");
                r.append(status.as_str());
                r.append("\n[stdout]: ");
                r.append(out.as_str());
                r.append("\n[stderr]: ");
                r.append(err.as_str());
                r
            }
        },
    }
}

// ── Laws of the loop ──────────────────────────────────────────────────────────

/// Generated code is handed over to run only when the guard approved it, or the guard gated it
/// and a human approved that very code. Code the guard rejects never runs.
pub proof fn law_code_runs_only_when_cleared(s: StateView, e: EventView)
    requires
        solver_inv(s),
        accepts(s, e),
    ensures
        solver_step(s, e).1 matches ActionView::RunCode { code, .. } ==> (scan_verdict(
            code,
            utf8_len(code),
        ) is Approved || (e == EventView::Approved(true) && (s.phase matches PhaseView::AwaitingApproval {
            code: c,
            ..
        } && c == code) && scan_verdict(code, utf8_len(code)) is Gated)),
        solver_step(s, e).1 matches ActionView::RunCode { code, .. } ==> !(scan_verdict(
            code,
            utf8_len(code),
        ) is Rejected),
{
}

/// Each step keeps the invariant, never lowers the turn count, raises it by one before every
/// new prompt, and never goes past the limit; since the first prompt comes at turn 0, the LLM
/// is prompted at most `MAX_ITERATIONS` times for a gap.
pub proof fn law_turns_bounded(s: StateView, e: EventView)
    requires
        solver_inv(s),
        accepts(s, e),
    ensures
        solver_inv(solver_step(s, e).0),
        solver_step(s, e).0.iteration >= s.iteration,
        solver_step(s, e).0.iteration <= MAX_ITERATIONS,
        solver_step(s, e).1 is Prompt ==> solver_step(s, e).0.iteration == s.iteration + 1
            && solver_step(s, e).0.iteration < MAX_ITERATIONS,
{
}

/// Finishing is final: after a `Finish` action the solver accepts no event, and the evidence
/// is the `done` value as a success, or the exhaustion failure once the turns are used up.
pub proof fn law_finish_is_final(s: StateView, e: EventView)
    requires
        solver_inv(s),
        accepts(s, e),
    ensures
        solver_step(s, e).1 is Finish ==> solver_step(s, e).0.phase is Finished,
        solver_step(s, e).0.phase is Finished ==> forall|e2: EventView| !accepts(solver_step(s, e).0, e2),
        solver_step(s, e).1 matches ActionView::Finish(ev) ==> ev.gap_id == s.gap_id && (ev.status
            is Success || (ev == exhausted_evidence(s.gap_id) && solver_step(s, e).0.iteration
            == MAX_ITERATIONS)),
{
}

/// A `done` reply finishes the gap with its value as successful evidence.
pub proof fn law_done_posts_success(s: StateView, r: ResponseView, value: Seq<char>)
    requires
        solver_inv(s),
        s.phase is AwaitingResponse,
        r.step == (StepView::Done { value }),
    ensures
        solver_step(s, EventView::Responded(Some(r))).1 == ActionView::Finish(
            EvidenceView { gap_id: s.gap_id, attempt: 1, content: value, status: StatusView::Success },
        ),
{
}

/// What the code printed reaches the LLM unchanged: after a run that finished with output
/// `out`, the next turn's last output is exactly `out`, while a run that failed with `err`
/// shows `ERROR: execution error: ` followed by `err`. Either way the turn count grows by one,
/// the gap and the working memory stay, and the LLM is prompted again unless that was the last
/// turn.
pub proof fn law_run_output_reaches_the_llm(s: StateView, out: Seq<char>, err: Seq<char>)
    ensures
        solver_step(s, EventView::Executed(Ok(out))).0.last_output == Some(out),
        solver_step(s, EventView::Executed(Err(err))).0.last_output == Some(
            "ERROR: execution error: "@ + err,
        ),
        solver_step(s, EventView::Executed(Ok(out))).0.iteration == s.iteration + 1,
        solver_step(s, EventView::Executed(Ok(out))).0.gap_id == s.gap_id,
        solver_step(s, EventView::Executed(Ok(out))).0.working_memory == s.working_memory,
        s.iteration + 1 < MAX_ITERATIONS ==> solver_step(s, EventView::Executed(Ok(out))).1
            == ActionView::Prompt && solver_step(s, EventView::Executed(Ok(out))).0.phase
            == PhaseView::AwaitingResponse,
{
}

/// The prompt shows what the last turn left: the solver prompt is the solver template rendered
/// with variables that carry the last output exactly as given (none when there is none),
/// beside the environment, the dependency context (none when empty) and the working memory.
pub proof fn law_prompt_carries_last_output(
    environment: Seq<char>,
    g: GapView,
    related: Seq<char>,
    wm: Seq<char>,
    last_output: Option<Seq<char>>,
)
    ensures
        solver_prompt(environment, g, wm, last_output, related) == rendered(
            "solver"@,
            SOLVER_PROMPT@,
            solver_vars(environment, related, wm, last_output),
            "gap"@,
            solver_gap_vars(g),
        ),
        solver_vars(environment, related, wm, last_output).contains(("last_output"@, last_output)),
        forall|i: int|
            0 <= i < solver_vars(environment, related, wm, last_output).len() && (#[trigger] solver_vars(
                environment,
                related,
                wm,
                last_output,
            )[i]).0 == "last_output"@ ==> solver_vars(environment, related, wm, last_output)[i].1
                == last_output,
        solver_vars(environment, related, wm, last_output).contains(("environment"@, Some(environment))),
        wm.len() > 0 ==> solver_vars(environment, related, wm, last_output).contains(
            ("working_memory"@, Some(wm)),
        ),
        related.len() > 0 ==> solver_vars(environment, related, wm, last_output).contains(
            ("related_evidence"@, Some(related)),
        ),
{
    reveal_strlit("last_output");
    reveal_strlit("environment");
    reveal_strlit("working_memory");
    reveal_strlit("related_evidence");
    let v = solver_vars(environment, related, wm, last_output);
    assert(v[3] == ("last_output"@, last_output));
    assert(v[0] == ("environment"@, Some(environment)));
    assert("last_output"@.len() == 11 && "environment"@.len() == 11 && "working_memory"@.len() == 14);
    assert("related_evidence"@.len() == 16 && "last_output"@[0] == 'l' && "environment"@[0] == 'e');
    if wm.len() > 0 {
        assert(v[2] == ("working_memory"@, Some(wm)));
    }
    if related.len() > 0 {
        assert(v[1] == ("related_evidence"@, Some(related)));
    }
}

/// Why a turn ended reaches the LLM: code the guard rejects shows
/// `ERROR: code rejected by guard: ` and the reason, gated code the human denies shows
/// `ERROR: code denied by user: ` and the guard's reason, and a question's answer shows
/// `Human answered: ` and the answer (or `(no answer received)`).
pub proof fn law_turn_end_reaches_the_llm(
    s: StateView,
    r: ResponseView,
    interpreter: Seq<char>,
    ext: Seq<char>,
    code: Seq<char>,
    reason: Seq<char>,
    answer: Option<Seq<char>>,
)
    ensures
        r.step == (StepView::Code { interpreter, ext, code }) && scan_verdict(code, utf8_len(code))
            == Verdict::Rejected(reason) ==> solver_step(s, EventView::Responded(Some(r))).0.last_output
            == Some("ERROR: code rejected by guard: "@ + reason),
        s.phase == (PhaseView::AwaitingApproval { interpreter, ext, code, reason }) ==> solver_step(
            s,
            EventView::Approved(false),
        ).0.last_output == Some("ERROR: code denied by user: "@ + reason),
        answer matches Some(t) ==> solver_step(s, EventView::Answered(answer)).0.last_output == Some(
            "Human answered: "@ + t,
        ),
        answer is None ==> solver_step(s, EventView::Answered(answer)).0.last_output == Some(
            "Human answered: "@ + "(no answer received)"@,
        ),
{
}

} // verus!
