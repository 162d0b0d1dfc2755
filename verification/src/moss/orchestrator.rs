//! The orchestrator's decisions: planting the planner's gaps, each round of the gap scheduler,
//! the synthesis prompt, the environment report, and reading the planner's reply.
use vstd::prelude::*;
use vstd::string::*;
use crate::error::MossError;
use crate::moss::blackboard::{BoardView, Blackboard};
use crate::moss::decomposition::{Decomposition, GapSpec, GapSpecView};
use crate::moss::prompts::SYNTHESIZE_PROMPT;
use crate::moss::template::{render_template, rendered, vars_view};
use crate::moss::types::{initial_state, opt_view, strings_view, EvidenceView, Gap, GapState, GapView};
use crate::text::{
    chars_of, join, join_strings, lemma_texts_push, string_of, strip_leading, strip_leading_vec,
    strip_trailing, strip_trailing_vec, texts, trim, trim_vec,
};

verus! {

// ── Planting the plan ─────────────────────────────────────────────────────────

/// `g` is the gap built from `spec` (its identifier aside).
pub open spec fn made_from(g: GapView, spec: GapSpecView) -> bool {
    &&& g.name == spec.name
    &&& g.description == spec.description
    &&& g.dependencies == spec.dependencies
    &&& g.constraints == spec.constraints
    &&& g.expected_output == spec.expected_output
    &&& g.state == initial_state(spec.dependencies)
}

/// `b` after adding the gaps `gs` in order.
pub open spec fn with_gaps(b: BoardView, gs: Seq<GapView>) -> BoardView
    decreases gs.len(),
{
    if gs.len() == 0 {
        b
    } else {
        with_gaps(b, gs.drop_last()).with_gap(gs.last())
    }
}

/// The index of the first spec whose name is taken, by the board (`taken`) or an earlier spec.
pub open spec fn first_clash(taken: Set<Seq<char>>, specs: Seq<GapSpecView>, k: nat) -> Option<nat>
    decreases specs.len() - k,
{
    if k >= specs.len() {
        None
    } else if taken.contains(specs[k as int].name) {
        Some(k)
    } else {
        first_clash(taken.insert(specs[k as int].name), specs, k + 1)
    }
}

proof fn lemma_first_clash_bound(taken: Set<Seq<char>>, specs: Seq<GapSpecView>, i: nat)
    ensures
        first_clash(taken, specs, i) matches Some(k) ==> i <= k < specs.len(),
    decreases specs.len() - i,
{
    if i < specs.len() && !taken.contains(specs[i as int].name) {
        lemma_first_clash_bound(taken.insert(specs[i as int].name), specs, i + 1);
    }
}

pub open spec fn specs_view(v: Seq<GapSpec>) -> Seq<GapSpecView> {
    v.map_values(|s: GapSpec| s@)
}

/// The board with the planner's intent, when it gives one.
pub open spec fn with_intent(b: BoardView, intent: Option<Seq<char>>) -> BoardView {
    match intent {
        Some(t) => BoardView { intent: Some(t), ..b },
        None => b,
    }
}

fn copy_strings(v: &Vec<String>) -> (r: Vec<String>)
    ensures
        strings_view(r@) == strings_view(v@),
{
    let mut r: Vec<String> = Vec::new();
    let n = v.len();
    for i in 0..n
        invariant
            n == v@.len(),
            strings_view(r@) == strings_view(v@.take(i as int)),
    {
        let c = v[i].clone();
        assert(c@ == v@[i as int]@);
        r.push(c);
        assert(v@.take(i + 1) == v@.take(i as int).push(v@[i as int]));
        proof {
            lemma_texts_push(r@.drop_last(), c);
            lemma_texts_push(v@.take(i as int), v@[i as int]);
            assert(r@.drop_last().push(c) == r@);
        }
    }
    assert(v@.take(n as int) == v@);
    r
}

fn clone_opt(o: &Option<String>) -> (r: Option<String>)
    ensures
        opt_view(r) == opt_view(*o),
{
    match o {
        Some(t) => Some(t.clone()),
        None => None,
    }
}

/// `after` is `b` with the intent set and the gaps `gs`, built from the specs before the first
/// clash (or from all of them), added in order.
pub open spec fn plants(
    b: BoardView,
    intent: Option<Seq<char>>,
    specs: Seq<GapSpecView>,
    gs: Seq<GapView>,
    after: BoardView,
) -> bool {
    &&& gs.len() == match first_clash(b.names.dom(), specs, 0) {
        Some(k) => k as int,
        None => specs.len() as int,
    }
    &&& forall|i: int| 0 <= i < gs.len() ==> made_from(#[trigger] gs[i], specs[i])
    &&& after == with_gaps(with_intent(b, intent), gs)
}

/// Sets the planner's intent (when given) and adds a gap for each spec, in order. Stops at the
/// first spec whose name is already taken, with the error of that insertion; the gaps before it
/// stay added.
pub fn plant_gaps(board: &mut Blackboard, intent: Option<String>, specs: Vec<GapSpec>) -> (r: Result<
    (),
    MossError,
>)
    requires
        old(board).wf(),
    ensures
        final(board).wf(),
        r is Ok <==> first_clash(old(board)@.names.dom(), specs_view(specs@), 0) is None,
        exists|gs: Seq<GapView>|
            #[trigger] plants(old(board)@, opt_view(intent), specs_view(specs@), gs, final(board)@),
        r matches Err(e) ==> (first_clash(old(board)@.names.dom(), specs_view(specs@), 0) matches Some(
            k,
        ) && e matches MossError::Blackboard(m) && m@ == "gap '"@ + specs@[k as int]@.name
            + "' already exists"@),
{
    let ghost b0 = with_intent(board@, opt_view(intent));
    match intent {
        Some(t) => board.set_intent(t),
        None => {},
    }
    assert(board@ == b0);
    let ghost mut gs: Seq<GapView> = Seq::empty();
    let ghost sv = specs_view(specs@);
    let n = specs.len();
    for i in 0..n
        invariant
            n == specs@.len(),
            sv == specs_view(specs@),
            board.wf(),
            b0.names == old(board)@.names,
            b0 == with_intent(old(board)@, opt_view(intent)),
            gs.len() == i,
            forall|j: int| 0 <= j < i ==> made_from(#[trigger] gs[j], specs@[j]@),
            board@ == with_gaps(b0, gs),
            first_clash(old(board)@.names.dom(), sv, 0) == first_clash(board@.names.dom(), sv, i as nat),
    {
        let spec = &specs[i];
        assert(sv[i as int] == spec@);
        let gap = Gap::new(
            spec.name.clone(),
            spec.description.clone(),
            copy_strings(&spec.dependencies),
            clone_opt(&spec.constraints),
            clone_opt(&spec.expected_output),
        );
        let ghost gv = gap@;
        assert(made_from(gv, spec@));
        match board.insert_gap(gap) {
            Ok(()) => {
                proof {
                    let gs2 = gs.push(gv);
                    assert(gs2.drop_last() == gs);
                    gs = gs2;
                }
            },
            Err(e) => {
                proof {
                    assert(board@.names.dom().contains(sv[i as int].name));
                    assert(first_clash(board@.names.dom(), sv, i as nat) == Some(i as nat));
                    assert(gs.len() == i);
                    assert(board@ == with_gaps(b0, gs));
                    assert(first_clash(old(board)@.names.dom(), sv, 0) == Some(i as nat));
                    assert(b0 == with_intent(old(board)@, opt_view(intent)));
                    assert(forall|j: int| 0 <= j < gs.len() ==> made_from(#[trigger] gs[j], sv[j]));
                    assert(plants(old(board)@, opt_view(intent), sv, gs, board@));
                }
                return Err(e);
            },
        }
    }
    assert(plants(old(board)@, opt_view(intent), sv, gs, board@));
    Ok(())
}

/// The empty board a new topic starts on.
pub open spec fn empty_board() -> BoardView {
    BoardView { intent: None, gaps: Map::empty(), names: Map::empty(), evidence: Map::empty() }
}

/// The board a plan goes on: the current one for a follow-up, else a fresh one.
pub open spec fn session_base(b: BoardView, is_follow_up: bool) -> BoardView {
    if is_follow_up {
        b
    } else {
        empty_board()
    }
}

/// The gap specs of a plan (none when the planner gave none).
pub open spec fn plan_specs(plan: Decomposition) -> Seq<GapSpecView> {
    match plan.gaps {
        Some(v) => specs_view(v@),
        None => Seq::empty(),
    }
}

/// Applies the planner's decision for a query: a follow-up keeps the living board, anything
/// else starts a clean one; then the intent is set (when given) and the planned gaps are added
/// in order, stopping at the first name already taken.
pub fn apply_plan(board: &mut Blackboard, plan: Decomposition) -> (r: Result<(), MossError>)
    requires
        old(board).wf(),
    ensures
        final(board).wf(),
        r is Ok <==> first_clash(
            session_base(old(board)@, plan.is_follow_up).names.dom(),
            plan_specs(plan),
            0,
        ) is None,
        exists|gs: Seq<GapView>|
            #[trigger] plants(
                session_base(old(board)@, plan.is_follow_up),
                opt_view(plan.intent),
                plan_specs(plan),
                gs,
                final(board)@,
            ),
        r matches Err(e) ==> (first_clash(
            session_base(old(board)@, plan.is_follow_up).names.dom(),
            plan_specs(plan),
            0,
        ) matches Some(k) && e matches MossError::Blackboard(m) && m@ == "gap '"@ + plan_specs(
            plan,
        )[k as int].name + "' already exists"@),
{
    let Decomposition { intent, gaps, is_follow_up } = plan;
    if !is_follow_up {
        *board = Blackboard::new();
        assert(board@.gaps =~= Map::empty());
        assert(board@.names =~= Map::empty());
        assert(board@.evidence =~= Map::empty());
        assert(board@ == empty_board());
    }
    assert(board@ == session_base(old(board)@, is_follow_up));
    let specs = match gaps {
        Some(v) => v,
        None => Vec::new(),
    };
    let ghost sv = specs_view(specs@);
    assert(sv =~= plan_specs(plan));
    let ghost base = board@;
    let r = plant_gaps(board, intent, specs);
    proof {
        let gs = choose|gs: Seq<GapView>| #[trigger] plants(base, opt_view(intent), sv, gs, board@);
        assert(plants(base, opt_view(intent), sv, gs, board@));
        lemma_first_clash_bound(base.names.dom(), sv, 0);
        assert(base == session_base(old(board)@, plan.is_follow_up));
        assert(r is Ok <==> first_clash(base.names.dom(), sv, 0) is None);
        assert(plants(base, opt_view(plan.intent), plan_specs(plan), gs, board@));
    }
    r
}

proof fn lemma_with_gaps_frame(b: BoardView, gs: Seq<GapView>)
    ensures
        with_gaps(b, gs).evidence == b.evidence,
        b.gaps.dom().subset_of(with_gaps(b, gs).gaps.dom()),
        forall|k: u128|
            #[trigger] with_gaps(b, gs).gaps.contains_key(k) ==> b.gaps.contains_key(k) || exists|i: int|
                0 <= i < gs.len() && gs[i].id == k,
    decreases gs.len(),
{
    if gs.len() > 0 {
        lemma_with_gaps_frame(b, gs.drop_last());
        let prev = with_gaps(b, gs.drop_last());
        assert forall|k: u128| #[trigger] with_gaps(b, gs).gaps.contains_key(k) implies b.gaps.contains_key(k)
            || exists|i: int| 0 <= i < gs.len() && gs[i].id == k by {
            if k == gs.last().id {
                assert(gs[gs.len() - 1].id == k);
            } else {
                assert(prev.gaps.contains_key(k));
                if !b.gaps.contains_key(k) {
                    let i = choose|i: int| 0 <= i < gs.drop_last().len() && gs.drop_last()[i].id == k;
                    assert(gs[i].id == k);
                }
            }
        }
    }
}

proof fn lemma_with_gaps_keeps(b: BoardView, gs: Seq<GapView>)
    requires
        forall|i: int| 0 <= i < gs.len() ==> !b.gaps.contains_key(#[trigger] gs[i].id),
    ensures
        with_gaps(b, gs).intent == b.intent,
        forall|k: u128| #[trigger] b.gaps.contains_key(k) ==> with_gaps(b, gs).gaps[k] == b.gaps[k],
        forall|i: int| 0 <= i < gs.len() ==> with_gaps(b, gs).gaps.contains_key(#[trigger] gs[i].id),
    decreases gs.len(),
{
    if gs.len() > 0 {
        let init = gs.drop_last();
        assert forall|i: int| 0 <= i < init.len() implies !b.gaps.contains_key(#[trigger] init[i].id) by {
            assert(init[i] == gs[i]);
        }
        lemma_with_gaps_keeps(b, init);
        assert(!b.gaps.contains_key(gs[gs.len() - 1].id));
        assert forall|i: int| 0 <= i < gs.len() implies with_gaps(b, gs).gaps.contains_key(
            #[trigger] gs[i].id,
        ) by {
            if i < gs.len() - 1 {
                assert(init[i] == gs[i]);
            }
        }
    }
}

/// A follow-up question grows the living board: the plan's gaps are added to it, every gap it
/// held stays as it was, its evidence stays, and it takes the planner's intent when one is
/// given (else keeps its own). This holds when the new gaps' identifiers are not already on
/// the board, as freshly drawn identifiers are not.
pub proof fn law_follow_up_keeps_board(
    b: BoardView,
    intent: Option<Seq<char>>,
    specs: Seq<GapSpecView>,
    gs: Seq<GapView>,
    after: BoardView,
)
    requires
        plants(session_base(b, true), intent, specs, gs, after),
        forall|i: int| 0 <= i < gs.len() ==> !b.gaps.contains_key(#[trigger] gs[i].id),
    ensures
        after.evidence == b.evidence,
        forall|k: u128| #[trigger] b.gaps.contains_key(k) ==> after.gaps.contains_key(k) && after.gaps[k]
            == b.gaps[k],
        forall|i: int| 0 <= i < gs.len() ==> after.gaps.contains_key(#[trigger] gs[i].id) && made_from(
            gs[i],
            specs[i],
        ),
        after.intent == match intent {
            Some(t) => Some(t),
            None => b.intent,
        },
{
    let start = with_intent(b, intent);
    assert(start.gaps == b.gaps);
    lemma_with_gaps_frame(start, gs);
    lemma_with_gaps_keeps(start, gs);
}

/// A question on a new topic leaves the living board alone and starts a clean one: afterwards
/// the board holds no evidence, only the plan's gaps, and the planner's intent (or none).
pub proof fn law_new_topic_fresh_board(
    b: BoardView,
    intent: Option<Seq<char>>,
    specs: Seq<GapSpecView>,
    gs: Seq<GapView>,
    after: BoardView,
)
    requires
        plants(session_base(b, false), intent, specs, gs, after),
    ensures
        after.evidence.is_empty(),
        forall|k: u128| #[trigger] after.gaps.contains_key(k) ==> exists|i: int| 0 <= i < gs.len() && gs[i].id == k,
        forall|i: int| 0 <= i < gs.len() ==> after.gaps.contains_key(#[trigger] gs[i].id),
        after.intent == intent,
{
    let start = with_intent(empty_board(), intent);
    lemma_with_gaps_frame(start, gs);
    lemma_with_gaps_keeps(start, gs);
    assert(after.evidence =~= Map::empty());
}

// ── The gap scheduler ─────────────────────────────────────────────────────────

/// What the scheduler decided in one round.
pub enum DriveStep {
    /// Start a solver for each of these gaps (possibly none) and wait for a running one to end.
    Dispatch(Vec<Gap>),
    /// Nothing is running or ready and every gap is Closed.
    Finished,
    /// Nothing is running or ready but some gap is not Closed.
    Deadlocked,
}

/// The board after the promotion sweep of a round.
pub open spec fn after_promotion(b: BoardView) -> BoardView {
    BoardView { gaps: b.promoted(), ..b }
}

/// The board after the promotion sweep and the dispatch of a round.
pub open spec fn after_round(b: BoardView) -> BoardView {
    let p = after_promotion(b);
    BoardView { gaps: p.drained(), ..p }
}

/// One round of the scheduler: promote unblocked gaps, take every Ready gap (marking it
/// Assigned), and decide. With `in_flight` solvers still running, or new gaps to start, the
/// round dispatches; otherwise it reports the end: finished when every gap is Closed,
/// deadlocked when not.
pub fn drive_step(board: &mut Blackboard, in_flight: usize) -> (r: DriveStep)
    requires
        old(board).wf(),
    ensures
        final(board).wf(),
        final(board)@ == after_round(old(board)@),
        r matches DriveStep::Dispatch(gs) ==> {
            &&& (in_flight > 0 || !after_promotion(old(board)@).ready_ids().is_empty())
            &&& forall|i: int|
                0 <= i < gs@.len() ==> final(board)@.gaps.contains_key(#[trigger] gs@[i]@.id)
                    && gs@[i]@ == final(board)@.gaps[gs@[i]@.id]
            &&& forall|i: int, j: int|
                0 <= i < gs@.len() && 0 <= j < gs@.len() && i != j ==> #[trigger] gs@[i]@.id
                    != #[trigger] gs@[j]@.id
            &&& forall|k: u128|
                after_promotion(old(board)@).ready_ids().contains(k) <==> exists|i: int|
                    0 <= i < gs@.len() && #[trigger] gs@[i]@.id == k
        },
        r is Finished <==> (in_flight == 0 && after_promotion(old(board)@).ready_ids().is_empty()
            && final(board)@.all_closed()),
        r is Deadlocked <==> (in_flight == 0 && after_promotion(old(board)@).ready_ids().is_empty()
            && !final(board)@.all_closed()),
{
    board.promote_unblocked();
    let ghost p = board@;
    let ready = board.drain_ready();
    if in_flight == 0 && ready.len() == 0 {
        proof {
            assert forall|k: u128| !p.ready_ids().contains(k) by {
                if p.ready_ids().contains(k) {
                    let i = choose|i: int| 0 <= i < ready@.len() && #[trigger] ready@[i]@.id == k;
                }
            }
            assert(p.ready_ids() =~= Set::empty());
        }
        if board.all_closed() {
            DriveStep::Finished
        } else {
            DriveStep::Deadlocked
        }
    } else {
        proof {
            if in_flight == 0 {
                assert(ready@.len() > 0);
                assert(p.ready_ids().contains(ready@[0]@.id));
            }
        }
        DriveStep::Dispatch(ready)
    }
}

/// A plan that cannot move deadlocks: when no gap is Ready and every Blocked gap waits on a
/// dependency that is missing or not Closed, a round promotes nothing and dispatches nothing,
/// and if some gap is still Blocked the round (with nothing running) reports a deadlock.
pub proof fn law_stuck_plan_deadlocks(b: BoardView, blocked: u128)
    requires
        forall|k: u128| #[trigger] b.gaps.contains_key(k) ==> b.gaps[k].state != crate::moss::types::GapState::Ready,
        forall|k: u128|
            #[trigger] b.gaps.contains_key(k) && b.gaps[k].state == crate::moss::types::GapState::Blocked
                ==> exists|i: int|
                0 <= i < b.gaps[k].dependencies.len() && !b.dep_closed(
                    #[trigger] b.gaps[k].dependencies[i],
                ),
        b.gaps.contains_key(blocked),
        b.gaps[blocked].state == crate::moss::types::GapState::Blocked,
    ensures
        after_promotion(b).ready_ids().is_empty(),
        after_round(b) == after_promotion(b),
        after_promotion(b).gaps == b.gaps,
        !after_round(b).all_closed(),
{
    assert(b.promoted() =~= b.gaps);
    assert(after_promotion(b).ready_ids() =~= Set::empty());
    assert(after_promotion(b).drained() =~= b.gaps);
}

// ── Reading the planner's reply ───────────────────────────────────────────────

/// The JSON text inside an LLM reply: trimmed, leading ```json and ``` fences and trailing
/// ``` fences removed (each as often as they repeat), trimmed again.
pub open spec fn reply_json(s: Seq<char>) -> Seq<char> {
    trim(strip_trailing(strip_leading(strip_leading(trim(s), "```json"@), "```"@), "```"@))
}

/// The JSON text inside an LLM reply.
pub fn reply_json_text(raw: &str) -> (r: String)
    ensures
        r@ == reply_json(raw@),
{
    let v = chars_of(raw);
    let t = trim_vec(&v);
    let a = strip_leading_vec(&t, "```json");
    let b = strip_leading_vec(&a, "```");
    let c = strip_trailing_vec(&b, "```");
    let d = trim_vec(&c);
    string_of(&d)
}

// ── Synthesis ─────────────────────────────────────────────────────────────────

/// The intent shown to the synthesizer.
pub open spec fn shown_intent(intent: Option<Seq<char>>) -> Seq<char> {
    match intent {
        Some(t) => t,
        None => "unknown intent"@,
    }
}

/// The rendered synthesis prompt, or the render error's text.
pub open spec fn synthesis_prompt_text(intent: Option<Seq<char>>, evidence: Seq<char>) -> Result<
    Seq<char>,
    Seq<char>,
> {
    rendered(
        "synthesize"@,
        SYNTHESIZE_PROMPT@,
        seq![("intent"@, Some(shown_intent(intent))), ("evidence"@, Some(evidence))],
        "gap"@,
        Seq::empty(),
    )
}

/// The synthesis prompt for the board's latest intent and its evidence (as JSON text).
pub fn synthesis_prompt(intent: Option<String>, evidence_json: &str) -> (r: Result<String, MossError>)
    ensures
        r matches Ok(t) ==> synthesis_prompt_text(opt_view(intent), evidence_json@) == Ok::<
            Seq<char>,
            Seq<char>,
        >(t@),
        r matches Err(e) ==> exists|msg: Seq<char>|
            synthesis_prompt_text(opt_view(intent), evidence_json@) == Err::<Seq<char>, Seq<char>>(
                msg,
            ) && (e matches MossError::Blackboard(m) && m@ == "template render error: "@ + msg),
{
    let shown = match intent {
        Some(t) => t,
        None => String::from_str("unknown intent"),
    };
    let mut vars: Vec<(String, Option<String>)> = Vec::new();
    vars.push((String::from_str("intent"), Some(shown)));
    vars.push((String::from_str("evidence"), Some(String::from_str(evidence_json))));
    let group: Vec<(String, Option<String>)> = Vec::new();
    assert(vars_view(vars@) =~= seq![
        ("intent"@, Some(shown_intent(opt_view(intent)))),
        ("evidence"@, Some(evidence_json@)),
    ]);
    assert(vars_view(group@) =~= Seq::empty());
    match render_template("synthesize", SYNTHESIZE_PROMPT, &vars, "gap", &group) {
        Ok(t) => Ok(t),
        Err(e) => {
            let mut m = String::from_str("template render error: ");
            m.append(e.as_str());
            Err(MossError::Blackboard(m))
        },
    }
}

// ── Environment report ────────────────────────────────────────────────────────

/// The runtimes probed at startup: display name, program, and its version argument.
pub fn runtime_commands() -> (v: Vec<(&'static str, &'static str, &'static str)>)
    ensures
        v@.len() == 3,
        v@[0].0@ == "python3"@ && v@[0].1@ == "python3"@ && v@[0].2@ == "--version"@,
        v@[1].0@ == "node"@ && v@[1].1@ == "node"@ && v@[1].2@ == "--version"@,
        v@[2].0@ == "sh"@ && v@[2].1@ == "sh"@ && v@[2].2@ == "--version"@,
{
    vec![("python3", "python3", "--version"), ("node", "node", "--version"), ("sh", "sh", "--version")]
}

/// What probing one runtime found.
pub enum ProbeOutcome {
    /// The program could not be started.
    Missing,
    /// It started but exited unsuccessfully.
    Failed,
    /// It printed this (already trimmed) version.
    Found(String),
}

pub struct RuntimeProbe {
    pub name: String,
    pub outcome: ProbeOutcome,
}

/// The entry for one probe in the runtime list, if it is listed.
pub open spec fn probe_entry(p: RuntimeProbe) -> Option<Seq<char>> {
    match p.outcome {
        ProbeOutcome::Missing => None,
        ProbeOutcome::Failed => Some(p.name@),
        ProbeOutcome::Found(v) => Some(p.name@ + " ("@ + v@ + ")"@),
    }
}

/// The runtime entries of the probes, in order.
pub open spec fn runtime_entries(ps: Seq<RuntimeProbe>) -> Seq<Seq<char>>
    decreases ps.len(),
{
    if ps.len() == 0 {
        Seq::empty()
    } else {
        match probe_entry(ps.last()) {
            Some(e) => runtime_entries(ps.drop_last()).push(e),
            None => runtime_entries(ps.drop_last()),
        }
    }
}

/// The environment description given to the solver.
pub open spec fn environment_text(os: Seq<char>, arch: Seq<char>, ps: Seq<RuntimeProbe>) -> Seq<char> {
    let entries = runtime_entries(ps);
    "**OS:** "@ + os + " ("@ + arch + ")"@ + "\n"@ + if entries.len() == 0 {
        "**Runtimes:** none detected"@
    } else {
        "**Runtimes:** "@ + join(entries, ", "@)
    }
}

/// Describes the OS and the runtimes found, for the solver prompt.
pub fn environment_report(os: &str, arch: &str, probes: &Vec<RuntimeProbe>) -> (r: String)
    ensures
        r@ == environment_text(os@, arch@, probes@),
{
    let mut entries: Vec<String> = Vec::new();
    let n = probes.len();
    for i in 0..n
        invariant
            n == probes@.len(),
            texts(entries@) == runtime_entries(probes@.take(i as int)),
    {
        let p = &probes[i];
        assert(probes@.take(i + 1).drop_last() == probes@.take(i as int));
        assert(probes@.take(i + 1).last() == *p);
        let ghost prev = entries@;
        match &p.outcome {
            ProbeOutcome::Missing => {},
            ProbeOutcome::Failed => {
                let e = p.name.clone();
                entries.push(e);
                proof {
                    lemma_texts_push(prev, entries@.last());
                    assert(entries@ == prev.push(entries@.last()));
                }
            },
            ProbeOutcome::Found(v) => {
                let mut e = p.name.clone();
                e.append(" (");
                e.append(v.as_str());
                e.append(")");
                entries.push(e);
                proof {
                    lemma_texts_push(prev, entries@.last());
                    assert(entries@ == prev.push(entries@.last()));
                }
            },
        }
    }
    assert(probes@.take(n as int) == probes@);
    let mut r = String::from_str("**OS:** ");
    r.append(os);
    r.append(" (");
    r.append(arch);
    r.append(")");
    r.append("\n");
    if entries.len() == 0 {
        r.append("**Runtimes:** none detected");
    } else {
        r.append("**Runtimes:** ");
        let joined = join_strings(&entries, ", ");
        r.append(joined.as_str());
    }
    r
}

// ── Dependencies come first ───────────────────────────────────────────────────

/// Every gap that is Ready or Assigned has all its dependencies stored and Closed.
pub open spec fn dispatch_safe(b: BoardView) -> bool {
    forall|k: u128|
        #[trigger] b.gaps.contains_key(k) && (b.gaps[k].state == GapState::Ready || b.gaps[k].state
            == GapState::Assigned) ==> forall|i: int|
            0 <= i < b.gaps[k].dependencies.len() ==> b.dep_closed(#[trigger] b.gaps[k].dependencies[i])
}

/// Dependencies come first, over a whole run: the empty board is dispatch-safe, and adding a
/// new gap, a scheduler round, closing a gap and posting evidence all keep a board
/// dispatch-safe; so every gap a round dispatches has all its dependencies Closed, and a gap
/// is only solved after the gaps it depends on.
pub proof fn law_dependencies_first(b: BoardView, g: GapView, id: u128, ev: EvidenceView)
    ensures
        dispatch_safe(empty_board()),
        b.wf() && dispatch_safe(b) && !b.names.contains_key(g.name) && !b.gaps.contains_key(g.id)
            && g.state == crate::moss::types::initial_state(g.dependencies) ==> dispatch_safe(
            b.with_gap(g),
        ),
        dispatch_safe(b) ==> dispatch_safe(after_promotion(b)) && dispatch_safe(after_round(b)),
        dispatch_safe(b) && b.gaps.contains_key(id) ==> dispatch_safe(b.with_gap_state(id, GapState::Closed)),
        dispatch_safe(b) ==> dispatch_safe(b.with_evidence(ev)),
        dispatch_safe(b) ==> forall|k: u128|
            #[trigger] after_promotion(b).ready_ids().contains(k) ==> forall|i: int|
                0 <= i < after_promotion(b).gaps[k].dependencies.len() ==> after_promotion(b).dep_closed(
                    #[trigger] after_promotion(b).gaps[k].dependencies[i],
                ),
{
    if b.wf() && dispatch_safe(b) && !b.names.contains_key(g.name) && !b.gaps.contains_key(g.id)
        && g.state == crate::moss::types::initial_state(g.dependencies) {
        lemma_safe_with_gap(b, g);
    }
    if dispatch_safe(b) {
        lemma_safe_round(b);
        if b.gaps.contains_key(id) {
            lemma_safe_close(b, id);
        }
        assert(dispatch_safe(b.with_evidence(ev)));
    }
}

proof fn lemma_safe_with_gap(b: BoardView, g: GapView)
    requires
        b.wf(),
        dispatch_safe(b),
        !b.names.contains_key(g.name),
        !b.gaps.contains_key(g.id),
        g.state == crate::moss::types::initial_state(g.dependencies),
    ensures
        dispatch_safe(b.with_gap(g)),
{
    let b2 = b.with_gap(g);
    assert forall|k: u128|
        #[trigger] b2.gaps.contains_key(k) && (b2.gaps[k].state == GapState::Ready || b2.gaps[k].state
            == GapState::Assigned) implies forall|i: int|
            0 <= i < b2.gaps[k].dependencies.len() ==> b2.dep_closed(#[trigger] b2.gaps[k].dependencies[i]) by {
        if k != g.id {
            assert forall|i: int| 0 <= i < b2.gaps[k].dependencies.len() implies b2.dep_closed(
                #[trigger] b2.gaps[k].dependencies[i],
            ) by {
                let d = b.gaps[k].dependencies[i];
                assert(b.dep_closed(d));
                assert(d != g.name);
                assert(b.names[d] != g.id);
            }
        }
    }
}

proof fn lemma_safe_round(b: BoardView)
    requires
        dispatch_safe(b),
    ensures
        dispatch_safe(after_promotion(b)),
        dispatch_safe(after_round(b)),
{
    let p = after_promotion(b);
    assert forall|k: u128|
        #[trigger] p.gaps.contains_key(k) && (p.gaps[k].state == GapState::Ready || p.gaps[k].state
            == GapState::Assigned) implies forall|i: int|
            0 <= i < p.gaps[k].dependencies.len() ==> p.dep_closed(#[trigger] p.gaps[k].dependencies[i]) by {
        assert forall|i: int| 0 <= i < p.gaps[k].dependencies.len() implies p.dep_closed(
            #[trigger] p.gaps[k].dependencies[i],
        ) by {
            let d = b.gaps[k].dependencies[i];
            assert(b.dep_closed(d));
        }
    }
    let r = after_round(b);
    assert forall|k: u128|
        #[trigger] r.gaps.contains_key(k) && (r.gaps[k].state == GapState::Ready || r.gaps[k].state
            == GapState::Assigned) implies forall|i: int|
            0 <= i < r.gaps[k].dependencies.len() ==> r.dep_closed(#[trigger] r.gaps[k].dependencies[i]) by {
        assert forall|i: int| 0 <= i < r.gaps[k].dependencies.len() implies r.dep_closed(
            #[trigger] r.gaps[k].dependencies[i],
        ) by {
            let d = p.gaps[k].dependencies[i];
            assert(p.dep_closed(d));
        }
    }
}

proof fn lemma_safe_close(b: BoardView, id: u128)
    requires
        dispatch_safe(b),
        b.gaps.contains_key(id),
    ensures
        dispatch_safe(b.with_gap_state(id, GapState::Closed)),
{
    let c = b.with_gap_state(id, GapState::Closed);
    assert forall|k: u128|
        #[trigger] c.gaps.contains_key(k) && (c.gaps[k].state == GapState::Ready || c.gaps[k].state
            == GapState::Assigned) implies forall|i: int|
            0 <= i < c.gaps[k].dependencies.len() ==> c.dep_closed(#[trigger] c.gaps[k].dependencies[i]) by {
        assert(k != id);
        assert forall|i: int| 0 <= i < c.gaps[k].dependencies.len() implies c.dep_closed(
            #[trigger] c.gaps[k].dependencies[i],
        ) by {
            let d = b.gaps[k].dependencies[i];
            assert(b.dep_closed(d));
        }
    }
}

} // verus!
