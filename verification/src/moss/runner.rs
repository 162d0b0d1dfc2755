//! The compile-and-run scheduler's retry policy.
use vstd::prelude::*;
use crate::moss::blackboard::evidence_view;
use crate::moss::compiler::Compiler;
use crate::moss::types::{Evidence, EvidenceStatus, EvidenceView, GapState, StatusView};
use crate::providers::Provider;
use crate::text::{lemma_texts_push, texts};

verus! {

/// After this many attempts a gap is force-closed to prevent infinite loops.
pub const MAX_RETRIES: u32 = 3;

/// The failure reasons in an evidence log, oldest first.
pub open spec fn failure_reasons(evs: Seq<EvidenceView>) -> Seq<Seq<char>>
    decreases evs.len(),
{
    if evs.len() == 0 {
        Seq::empty()
    } else {
        match evs.last().status {
            StatusView::Failure(r) => failure_reasons(evs.drop_last()).push(r),
            _ => failure_reasons(evs.drop_last()),
        }
    }
}

/// What to do with a dispatched gap before running it again.
pub enum AttemptPlan {
    /// It has used up its attempts: close it.
    ForceClose,
    /// Compile and run it, telling the compiler these earlier errors.
    Attempt { prior: Vec<String> },
}

/// Compiles and runs gaps, retrying failures.
pub struct Runner<P: Provider> {
    pub compiler: Compiler<P>,
}

impl<P: Provider> Runner<P> {
    pub fn new(provider: P) -> (r: Runner<P>)
        ensures
            r.compiler.provider == provider,
    {
        Runner { compiler: Compiler::new(provider) }
    }

    /// The plan for a gap whose evidence log is `evidence`: force-close after `MAX_RETRIES`
    /// attempts, else attempt again with the reasons of the earlier failures.
    pub fn plan_attempt(&self, evidence: &Vec<Evidence>) -> (r: AttemptPlan)
        ensures
            evidence@.len() >= MAX_RETRIES <==> r is ForceClose,
            r matches AttemptPlan::Attempt { prior } ==> texts(prior@) == failure_reasons(
                evidence_view(evidence@),
            ),
    {
        if evidence.len() >= MAX_RETRIES as usize {
            return AttemptPlan::ForceClose;
        }
        let mut prior: Vec<String> = Vec::new();
        let n = evidence.len();
        for i in 0..n
            invariant
                n == evidence@.len(),
                texts(prior@) == failure_reasons(evidence_view(evidence@.take(i as int))),
        {
            let ghost ev = evidence_view(evidence@.take(i + 1));
            assert(ev.drop_last() =~= evidence_view(evidence@.take(i as int)));
            assert(ev.last() == evidence@[i as int]@);
            match &evidence[i].status {
                EvidenceStatus::Failure { reason } => {
                    let ghost before = prior@;
                    prior.push(reason.clone());
                    proof {
                        lemma_texts_push(before, prior@.last());
                        assert(prior@ == before.push(prior@.last()));
                    }
                },
                _ => {},
            }
        }
        assert(evidence@.take(n as int) == evidence@);
        AttemptPlan::Attempt { prior }
    }

    /// The state a gap takes after a run: Closed when its latest evidence is a success, else
    /// Ready (to be retried).
    pub fn state_after_run(&self, evidence: &Vec<Evidence>) -> (s: GapState)
        ensures
            s == (if evidence@.len() > 0 && evidence@.last()@.status is Success {
                GapState::Closed
            } else {
                GapState::Ready
            }),
    {
        if evidence.len() > 0 && evidence[evidence.len() - 1].status.is_success() {
            GapState::Closed
        } else {
            GapState::Ready
        }
    }
}

/// The earlier errors handed to the compiler are the failure reasons of the log, one per
/// failed run, oldest first: a one-record log gives its reason when it failed and nothing
/// otherwise, and the reasons of two logs put together are the reasons of the first followed
/// by those of the second.
pub proof fn law_failure_reasons_in_order(evs: Seq<EvidenceView>, more: Seq<EvidenceView>, e: EvidenceView)
    ensures
        failure_reasons(seq![e]) == match e.status {
            StatusView::Failure(r) => seq![r],
            _ => Seq::<Seq<char>>::empty(),
        },
        failure_reasons(evs + more) == failure_reasons(evs) + failure_reasons(more),
    decreases more.len(),
{
    assert(seq![e].drop_last() =~= Seq::<EvidenceView>::empty());
    assert(failure_reasons(Seq::<EvidenceView>::empty()) == Seq::<Seq<char>>::empty());
    assert(seq![e].last() == e);
    match e.status {
        StatusView::Failure(r) => {
            assert(failure_reasons(seq![e]) =~= seq![r]);
        },
        _ => {},
    }
    if more.len() == 0 {
        assert(evs + more =~= evs);
        assert(failure_reasons(evs) + failure_reasons(more) =~= failure_reasons(evs));
    } else {
        law_failure_reasons_in_order(evs, more.drop_last(), e);
        assert((evs + more).drop_last() =~= evs + more.drop_last());
        assert((evs + more).last() == more.last());
        match more.last().status {
            StatusView::Failure(r) => {
                assert(failure_reasons(evs + more) =~= failure_reasons(evs) + failure_reasons(more));
            },
            _ => {},
        }
    }
}

} // verus!
