//! The artifact executor's decisions: which interpreter and file extension a script gets, and
//! what evidence a finished script leaves.
use vstd::prelude::*;
use vstd::string::*;
use crate::moss::blackboard::{Blackboard, BoardView};
use crate::moss::json::{compact_json, json_compact, json_quoted, lossy_text, lossy_utf8, quote_json};
use crate::moss::types::{Evidence, EvidenceStatus, EvidenceView, StatusView};
use crate::text::{chars_of, decimal, push_decimal, string_of, trim, trim_vec};

verus! {

/// The interpreter for a script language; unknown languages are passed through.
pub open spec fn interpreter_of(language: Seq<char>) -> Seq<char> {
    if language == "python"@ || language == "python3"@ {
        "python3"@
    } else if language == "shell"@ || language == "sh"@ || language == "bash"@ {
        "sh"@
    } else if language == "javascript"@ || language == "js"@ {
        "node"@
    } else {
        language
    }
}

/// The file extension an interpreter recognises.
pub open spec fn extension_of(interpreter: Seq<char>) -> Seq<char> {
    if interpreter == "python3"@ {
        ".py"@
    } else if interpreter == "sh"@ {
        ".sh"@
    } else if interpreter == "node"@ {
        ".js"@
    } else {
        ".tmp"@
    }
}

fn is(s: &str, lit: &str) -> (b: bool)
    ensures
        b == (s@ == lit@),
{
    let a = String::from_str(s);
    let b = String::from_str(lit);
    a.eq(&b)
}

/// How a script finished.
pub enum ScriptOutcome {
    /// It did not finish within the timeout.
    TimedOut,
    /// It exited; `success` is whether the exit status was success.
    Exited { success: bool, stdout: Vec<u8>, stderr: Vec<u8> },
}

/// The evidence content and status a finished script leaves.
pub open spec fn script_result(timeout_secs: u64, outcome: ScriptOutcome) -> (Seq<char>, StatusView) {
    match outcome {
        ScriptOutcome::TimedOut => (
            "null"@,
            StatusView::Failure("timed out after "@ + decimal(timeout_secs as nat) + "s"@),
        ),
        ScriptOutcome::Exited { success, stdout, stderr } => if success {
            let out = trim(lossy_utf8(stdout@));
            match json_compact(out) {
                Some(j) => (j, StatusView::Success),
                None => (json_quoted(out), StatusView::Partial),
            }
        } else {
            ("null"@, StatusView::Failure(trim(lossy_utf8(stderr@))))
        },
    }
}

/// Stateless runner of artifacts.
#[derive(Clone, Copy)]
pub struct Executor;

impl Executor {
    pub fn new() -> (e: Executor) {
        Executor
    }

    /// Maps common language aliases to the real interpreter name.
    pub fn interpreter(&self, language: &str) -> (r: String)
        ensures
            r@ == interpreter_of(language@),
    {
        if is(language, "python") || is(language, "python3") {
            String::from_str("python3")
        } else if is(language, "shell") || is(language, "sh") || is(language, "bash") {
            String::from_str("sh")
        } else if is(language, "javascript") || is(language, "js") {
            String::from_str("node")
        } else {
            String::from_str(language)
        }
    }

    /// The temporary file's extension for an interpreter.
    pub fn extension(&self, interpreter: &str) -> (r: &'static str)
        ensures
            r@ == extension_of(interpreter@),
    {
        if is(interpreter, "python3") {
            ".py"
        } else if is(interpreter, "sh") {
            ".sh"
        } else if is(interpreter, "node") {
            ".js"
        } else {
            ".tmp"
        }
    }

    /// The attempt number of the next run of gap `gap_id`: one more than its evidence count.
    pub fn next_attempt(&self, gap_id: u128, blackboard: &Blackboard) -> (n: u32)
        requires
            blackboard@.evidence_of(gap_id).len() < u32::MAX,
        ensures
            n == blackboard@.evidence_of(gap_id).len() + 1,
    {
        let evs = blackboard.get_evidence(gap_id);
        (evs.len() as u32) + 1
    }

    /// The evidence of run number `attempt` of gap `gap_id` after its script finished as
    /// `outcome`: the parsed JSON output on success, the raw output as a JSON string when it
    /// was not JSON, and a failure with the timeout or the trimmed error output otherwise.
    pub fn script_evidence(&self, gap_id: u128, attempt: u32, timeout_secs: u64, outcome: ScriptOutcome) -> (e: Evidence)
        ensures
            (e@.content, e@.status) == script_result(timeout_secs, outcome),
            e@.gap_id == gap_id,
            e@.attempt == attempt,
    {
        match outcome {
            ScriptOutcome::TimedOut => {
                let mut reason = String::from_str("timed out after ");
                push_decimal(&mut reason, timeout_secs);
                reason.append("s");
                Evidence::with_attempt(gap_id, attempt, String::from_str("null"), EvidenceStatus::Failure { reason })
            },
            ScriptOutcome::Exited { success, stdout, stderr } => {
                if success {
                    let text = lossy_text(&stdout);
                    let out = string_of(&trim_vec(&chars_of(text.as_str())));
                    match compact_json(out.as_str()) {
                        Some(j) => Evidence::with_attempt(gap_id, attempt, j, EvidenceStatus::Success),
                        None => Evidence::with_attempt(
                            gap_id,
                            attempt,
                            quote_json(out.as_str()),
                            EvidenceStatus::Partial,
                        ),
                    }
                } else {
                    let text = lossy_text(&stderr);
                    let reason = string_of(&trim_vec(&chars_of(text.as_str())));
                    Evidence::with_attempt(gap_id, attempt, String::from_str("null"), EvidenceStatus::Failure { reason })
                }
            },
        }
    }

    /// The evidence of run number `attempt` of an agent artifact, which cannot be run yet.
    pub fn agent_evidence(&self, gap_id: u128, attempt: u32) -> (e: Evidence)
        ensures
            e@ == agent_result(gap_id, attempt),
    {
        Evidence::with_attempt(
            gap_id,
            attempt,
            String::from_str("null"),
            EvidenceStatus::Failure { reason: String::from_str("agent execution not yet implemented") },
        )
    }

    /// Posts on `blackboard` the evidence of the next run of gap `gap_id`, whose script
    /// finished as `outcome`; the record carries the run's attempt number.
    pub fn record_script_run(
        &self,
        blackboard: &mut Blackboard,
        gap_id: u128,
        timeout_secs: u64,
        outcome: ScriptOutcome,
    )
        requires
            old(blackboard).wf(),
            old(blackboard)@.evidence_of(gap_id).len() < u32::MAX,
        ensures
            final(blackboard).wf(),
            final(blackboard)@ == old(blackboard)@.with_evidence(EvidenceView {
                gap_id,
                attempt: (old(blackboard)@.evidence_of(gap_id).len() + 1) as u32,
                content: script_result(timeout_secs, outcome).0,
                status: script_result(timeout_secs, outcome).1,
            }),
    {
        let attempt = self.next_attempt(gap_id, blackboard);
        let ev = self.script_evidence(gap_id, attempt, timeout_secs, outcome);
        blackboard.append_evidence(ev);
    }

    /// Posts on `blackboard` the evidence of the next run of gap `gap_id`, whose artifact is
    /// an agent.
    pub fn record_agent_run(&self, blackboard: &mut Blackboard, gap_id: u128)
        requires
            old(blackboard).wf(),
            old(blackboard)@.evidence_of(gap_id).len() < u32::MAX,
        ensures
            final(blackboard).wf(),
            final(blackboard)@ == old(blackboard)@.with_evidence(
                agent_result(gap_id, (old(blackboard)@.evidence_of(gap_id).len() + 1) as u32),
            ),
    {
        let attempt = self.next_attempt(gap_id, blackboard);
        let ev = self.agent_evidence(gap_id, attempt);
        blackboard.append_evidence(ev);
    }
}

/// The interpreter table: `python` and `python3` run under `python3`, `shell`, `sh` and
/// `bash` under `sh`, `javascript` and `js` under `node`, and any other language name is
/// passed through as the program to run. The script file takes `.py`, `.sh` or `.js` for those
/// three interpreters and `.tmp` for any other.
pub proof fn law_interpreter_table(language: Seq<char>)
    ensures
        interpreter_of("python"@) == "python3"@,
        interpreter_of("python3"@) == "python3"@,
        interpreter_of("shell"@) == "sh"@,
        interpreter_of("sh"@) == "sh"@,
        interpreter_of("bash"@) == "sh"@,
        interpreter_of("javascript"@) == "node"@,
        interpreter_of("js"@) == "node"@,
        language != "python"@ && language != "python3"@ && language != "shell"@ && language != "sh"@
            && language != "bash"@ && language != "javascript"@ && language != "js"@
            ==> interpreter_of(language) == language,
        extension_of("python3"@) == ".py"@,
        extension_of("sh"@) == ".sh"@,
        extension_of("node"@) == ".js"@,
        language != "python3"@ && language != "sh"@ && language != "node"@ ==> extension_of(language)
            == ".tmp"@,
{
    reveal_strlit("python");
    reveal_strlit("python3");
    reveal_strlit("shell");
    reveal_strlit("sh");
    reveal_strlit("bash");
    reveal_strlit("javascript");
    reveal_strlit("js");
    reveal_strlit("node");
    assert("python"@.len() == 6 && "python3"@.len() == 7 && "shell"@.len() == 5 && "sh"@.len() == 2);
    assert("bash"@.len() == 4 && "javascript"@.len() == 10 && "js"@.len() == 2 && "node"@.len() == 4);
    assert("sh"@[0] == 's' && "js"@[0] == 'j' && "bash"@[0] == 'b' && "node"@[0] == 'n');
}

/// The evidence an agent artifact leaves: it cannot be run yet.
pub open spec fn agent_result(gap_id: u128, attempt: u32) -> EvidenceView {
    EvidenceView {
        gap_id,
        attempt,
        content: "null"@,
        status: StatusView::Failure("agent execution not yet implemented"@),
    }
}

/// The records of gap `id` on board `b` carry the attempt numbers 1, 2, ... in order.
pub open spec fn attempts_numbered(b: BoardView, id: u128) -> bool {
    forall|i: int| 0 <= i < b.evidence_of(id).len() ==> #[trigger] b.evidence_of(id)[i].attempt == i + 1
}

/// Each run of a gap is numbered one more than the runs recorded before it: recording a run
/// of any gap keeps the records of every gap numbered 1, 2, ... in order.
pub proof fn law_attempts_count_runs(b: BoardView, ev: EvidenceView, id: u128)
    requires
        attempts_numbered(b, id),
        ev.attempt == b.evidence_of(ev.gap_id).len() + 1,
    ensures
        attempts_numbered(b.with_evidence(ev), id),
{
    let b2 = b.with_evidence(ev);
    if ev.gap_id == id {
        assert(b2.evidence_of(id) =~= b.evidence_of(id).push(ev));
    } else {
        assert(b2.evidence_of(id) =~= b.evidence_of(id));
    }
}

} // verus!
