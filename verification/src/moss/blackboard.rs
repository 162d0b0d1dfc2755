//! The Blackboard: the shared workspace holding the intent, the gap DAG and the evidence log.
use dashmap::DashMap;
use vstd::prelude::*;
use vstd::string::*;
use crate::error::MossError;
use crate::moss::store::{
    evidence_entries, evidence_get, evidence_insert, evidence_keys, evidence_new, gap_entries,
    gaps_get, gaps_insert, gaps_keys, gaps_new, name_entries, names_get, names_insert, names_new,
};
use crate::moss::types::{
    opt_view, pairs_evidence_ids, pairs_gap_ids, BlackboardSnapshot, Evidence, EvidenceView, Gap,
    GapState, GapView,
};
use crate::text::{uuid_string, uuid_text};

verus! {

broadcast use vstd::seq_lib::group_seq_properties;

/// Appending an element not yet present keeps a sequence free of duplicates.
proof fn lemma_push_no_dup<A>(s: Seq<A>, x: A)
    requires
        s.no_duplicates(),
        !s.contains(x),
    ensures
        s.push(x).no_duplicates(),
{
    assert forall|i: int, j: int|
        0 <= i < s.push(x).len() && 0 <= j < s.push(x).len() && i != j implies s.push(x)[i]
        != s.push(x)[j] by {
        if i == s.len() as int {
            assert(s.contains(s[j]));
        }
        if j == s.len() as int {
            assert(s.contains(s[i]));
        }
    }
}

proof fn lemma_evidence_view_push(s: Seq<Evidence>, x: Evidence)
    ensures
        evidence_view(s.push(x)) == evidence_view(s).push(x@),
{
    assert(evidence_view(s.push(x)) =~= evidence_view(s).push(x@));
}

proof fn lemma_gap_ids_push(s: Seq<(u128, Gap)>, x: (u128, Gap))
    ensures
        pairs_gap_ids(s.push(x)) == pairs_gap_ids(s).push(x.0),
{
    assert(pairs_gap_ids(s.push(x)) =~= pairs_gap_ids(s).push(x.0));
}

proof fn lemma_evidence_ids_push(s: Seq<(u128, Vec<Evidence>)>, x: (u128, Vec<Evidence>))
    ensures
        pairs_evidence_ids(s.push(x)) == pairs_evidence_ids(s).push(x.0),
{
    assert(pairs_evidence_ids(s.push(x)) =~= pairs_evidence_ids(s).push(x.0));
}

/// The Blackboard as a mathematical value.
pub struct BoardView {
    pub intent: Option<Seq<char>>,
    pub gaps: Map<u128, GapView>,
    pub names: Map<Seq<char>, u128>,
    pub evidence: Map<u128, Seq<EvidenceView>>,
}

pub open spec fn evidence_view(v: Seq<Evidence>) -> Seq<EvidenceView> {
    v.map_values(|e: Evidence| e@)
}

impl BoardView {
    /// The board's maps are finite, each gap is stored under its own id, every indexed name
    /// leads to a stored gap, and every stored gap's name is indexed to that gap.
    pub open spec fn wf(self) -> bool {
        &&& self.gaps.dom().finite()
        &&& self.names.dom().finite()
        &&& self.evidence.dom().finite()
        &&& forall|k: u128| #[trigger] self.gaps.contains_key(k) ==> self.gaps[k].id == k
        &&& forall|n: Seq<char>|
            #[trigger] self.names.contains_key(n) ==> self.gaps.contains_key(self.names[n])
        &&& forall|k: u128| #[trigger]
            self.gaps.contains_key(k) ==> self.names.contains_key(self.gaps[k].name)
                && self.names[self.gaps[k].name] == k
    }

    /// The evidence posted for gap `id`, oldest first.
    pub open spec fn evidence_of(self, id: u128) -> Seq<EvidenceView> {
        if self.evidence.contains_key(id) {
            self.evidence[id]
        } else {
            Seq::empty()
        }
    }

    /// The dependency named `dep` names a stored gap that is Closed.
    pub open spec fn dep_closed(self, dep: Seq<char>) -> bool {
        &&& self.names.contains_key(dep)
        &&& self.gaps.contains_key(self.names[dep])
        &&& self.gaps[self.names[dep]].state == GapState::Closed
    }

    /// `g` is Blocked and every one of its dependencies is Closed.
    pub open spec fn promotable(self, g: GapView) -> bool {
        &&& g.state == GapState::Blocked
        &&& forall|i: int| 0 <= i < g.dependencies.len() ==> self.dep_closed(#[trigger] g.dependencies[i])
    }

    /// The gaps after promoting every promotable gap to Ready.
    pub open spec fn promoted(self) -> Map<u128, GapView> {
        self.gaps.map_values(|g: GapView| if self.promotable(g) {
            g.with_state(GapState::Ready)
        } else {
            g
        })
    }

    /// The gaps after marking every Ready gap Assigned.
    pub open spec fn drained(self) -> Map<u128, GapView> {
        self.gaps.map_values(|g: GapView| if g.state == GapState::Ready {
            g.with_state(GapState::Assigned)
        } else {
            g
        })
    }

    /// The evidence of the gaps `keys`, concatenated in that order.
    pub open spec fn evidence_in_order(self, keys: Seq<u128>) -> Seq<EvidenceView>
        decreases keys.len(),
    {
        if keys.len() == 0 {
            Seq::empty()
        } else {
            self.evidence_in_order(keys.drop_last()) + self.evidence_of(keys.last())
        }
    }

    /// The board after adding gap `g` and indexing its name.
    pub open spec fn with_gap(self, g: GapView) -> BoardView {
        BoardView {
            gaps: self.gaps.insert(g.id, g),
            names: self.names.insert(g.name, g.id),
            ..self
        }
    }

    /// The board after setting the state of the stored gap `id`.
    pub open spec fn with_gap_state(self, id: u128, state: GapState) -> BoardView {
        BoardView { gaps: self.gaps.insert(id, self.gaps[id].with_state(state)), ..self }
    }

    /// The board after appending `ev` to the log of its gap.
    pub open spec fn with_evidence(self, ev: EvidenceView) -> BoardView {
        BoardView {
            evidence: self.evidence.insert(ev.gap_id, self.evidence_of(ev.gap_id).push(ev)),
            ..self
        }
    }

    /// Every gap on the board is Closed.
    pub open spec fn all_closed(self) -> bool {
        forall|k: u128| #[trigger] self.gaps.contains_key(k) ==> self.gaps[k].state == GapState::Closed
    }

    /// The ids of the gaps that are Ready.
    pub open spec fn ready_ids(self) -> Set<u128> {
        Set::new(|k: u128| self.gaps.contains_key(k) && self.gaps[k].state == GapState::Ready)
    }
}

/// The shared workspace of one conversation thread.
pub struct Blackboard {
    intent: Option<String>,
    gaps: DashMap<u128, Gap>,
    name_index: DashMap<String, u128>,
    evidences: DashMap<u128, Vec<Evidence>>,
}

impl View for Blackboard {
    type V = BoardView;

    closed spec fn view(&self) -> BoardView {
        BoardView {
            intent: opt_view(self.intent),
            gaps: gap_entries(self.gaps).map_values(|g: Gap| g@),
            names: name_entries(self.name_index),
            evidence: evidence_entries(self.evidences).map_values(|v: Seq<Evidence>| evidence_view(v)),
        }
    }
}

impl Blackboard {
    /// The view of the gap table agrees with the table, entry by entry.
    proof fn lemma_gap_view(&self, id: u128)
        ensures
            gap_entries(self.gaps).contains_key(id) == self@.gaps.contains_key(id),
            gap_entries(self.gaps).contains_key(id) ==> gap_entries(self.gaps)[id]@ == self@.gaps[id],
    {
    }

    pub open spec fn wf(&self) -> bool {
        self@.wf()
    }

    /// An empty board: no intent, no gaps, no evidence.
    pub fn new() -> (b: Blackboard)
        ensures
            b.wf(),
            b@.intent is None,
            b@.gaps.is_empty(),
            b@.names.is_empty(),
            b@.evidence.is_empty(),
    {
        let b = Blackboard {
            intent: None,
            gaps: gaps_new(),
            name_index: names_new(),
            evidences: evidence_new(),
        };
        assert(b@.gaps =~= Map::empty());
        assert(b@.evidence =~= Map::empty());
        b
    }

    pub fn set_intent(&mut self, intent: String)
        requires
            old(self).wf(),
        ensures
            final(self).wf(),
            final(self)@ == (BoardView { intent: Some(intent@), ..old(self)@ }),
    {
        self.intent = Some(intent);
    }

    pub fn get_intent(&self) -> (r: Option<String>)
        ensures
            opt_view(r) == self@.intent,
    {
        match &self.intent {
            Some(s) => Some(s.clone()),
            None => None,
        }
    }

    /// Adds a gap. Fails, leaving the board unchanged, when a gap of that name exists.
    pub fn insert_gap(&mut self, gap: Gap) -> (r: Result<(), MossError>)
        requires
            old(self).wf(),
        ensures
            final(self).wf(),
            r is Ok <==> !old(self)@.names.contains_key(gap@.name),
            r is Ok ==> final(self)@ == old(self)@.with_gap(gap@),
            r matches Err(e) ==> final(self)@ == old(self)@ && (e matches MossError::Blackboard(m)
                && m@ == "gap '"@ + gap@.name + "' already exists"@),
    {
        if names_get(&self.name_index, gap.name.as_str()).is_some() {
            let mut msg = String::from_str("gap '");
            msg.append(gap.name.as_str());
            msg.append("' already exists");
            return Err(MossError::Blackboard(msg));
        }
        let id = gap.gap_id;
        let name = gap.name.clone();
        let ghost gv = gap@;
        let ghost old_view = self@;
        gaps_insert(&mut self.gaps, id, gap);
        names_insert(&mut self.name_index, name, id);
        assert(self@.gaps =~= old_view.gaps.insert(id, gv));
        assert(self@.evidence =~= old_view.evidence);
        proof {
            let b = self@;
            assert forall|k: u128| #[trigger] b.gaps.contains_key(k) implies b.names.contains_key(
                b.gaps[k].name,
            ) && b.names[b.gaps[k].name] == k by {
                if k != id {
                    assert(old_view.gaps.contains_key(k));
                    assert(old_view.names.contains_key(old_view.gaps[k].name));
                }
            }
        }
        Ok(())
    }

    /// Sets the state of gap `gap_id`. Fails, leaving the board unchanged, when there is no such gap.
    pub fn set_gap_state(&mut self, gap_id: u128, new_state: GapState) -> (r: Result<(), MossError>)
        requires
            old(self).wf(),
        ensures
            final(self).wf(),
            r is Ok <==> old(self)@.gaps.contains_key(gap_id),
            r is Ok ==> final(self)@ == old(self)@.with_gap_state(gap_id, new_state),
            r matches Err(e) ==> final(self)@ == old(self)@ && (e matches MossError::Blackboard(m)
                && m@ == "gap "@ + uuid_text(gap_id) + " not found"@),
    {
        match gaps_get(&self.gaps, gap_id) {
            Some(g) => {
                let mut g = g;
                let ghost old_view = self@;
                g.set_state(new_state);
                gaps_insert(&mut self.gaps, gap_id, g);
                assert(self@.gaps =~= old_view.gaps.insert(
                    gap_id,
                    old_view.gaps[gap_id].with_state(new_state),
                ));
                assert(self@.evidence =~= old_view.evidence);
                proof {
                    let b = self@;
                    assert forall|k: u128| #[trigger] b.gaps.contains_key(k) implies b.names.contains_key(
                        b.gaps[k].name,
                    ) && b.names[b.gaps[k].name] == k by {
                        assert(old_view.gaps.contains_key(k));
                    }
                }
                Ok(())
            },
            None => {
                let mut msg = String::from_str("gap ");
                let id_text = uuid_string(gap_id);
                msg.append(id_text.as_str());
                msg.append(" not found");
                Err(MossError::Blackboard(msg))
            },
        }
    }

    /// Appends `ev` to the evidence log of its gap.
    pub fn append_evidence(&mut self, ev: Evidence)
        requires
            old(self).wf(),
        ensures
            final(self).wf(),
            final(self)@ == old(self)@.with_evidence(ev@),
    {
        let id = ev.gap_id;
        let ghost ev_view = ev@;
        let ghost old_view = self@;
        let mut list = match evidence_get(&self.evidences, id) {
            Some(v) => v,
            None => Vec::new(),
        };
        assert(evidence_view(list@) == old_view.evidence_of(id));
        list.push(ev);
        assert(evidence_view(list@) =~= old_view.evidence_of(id).push(ev_view));
        evidence_insert(&mut self.evidences, id, list);
        assert(self@.evidence =~= old_view.evidence.insert(id, old_view.evidence_of(id).push(ev_view)));
        assert(self@.gaps =~= old_view.gaps);
    }

    /// A copy of gap `gap_id`, if it exists.
    pub fn get_gap(&self, gap_id: u128) -> (r: Option<Gap>)
        ensures
            r matches Some(g) ==> self@.gaps.contains_key(gap_id) && g@ == self@.gaps[gap_id],
            r is None ==> !self@.gaps.contains_key(gap_id),
    {
        gaps_get(&self.gaps, gap_id)
    }

    /// The id of the gap named `name`, if there is one.
    pub fn get_gap_id_by_name(&self, name: &str) -> (r: Option<u128>)
        ensures
            r == (if self@.names.contains_key(name@) {
                Some(self@.names[name@])
            } else {
                None
            }),
    {
        names_get(&self.name_index, name)
    }

    /// The evidence posted for gap `gap_id`, oldest first (empty when there is none).
    pub fn get_evidence(&self, gap_id: u128) -> (r: Vec<Evidence>)
        ensures
            evidence_view(r@) == self@.evidence_of(gap_id),
    {
        match evidence_get(&self.evidences, gap_id) {
            Some(v) => v,
            None => {
                let v: Vec<Evidence> = Vec::new();
                assert(evidence_view(v@) =~= Seq::empty());
                v
            },
        }
    }

    /// Whether every dependency of `g` names a stored gap that is Closed.
    fn deps_all_closed(&self, g: &Gap) -> (b: bool)
        ensures
            b == (forall|i: int|
                0 <= i < g@.dependencies.len() ==> self@.dep_closed(#[trigger] g@.dependencies[i])),
    {
        let n = g.dependencies.len();
        for i in 0..n
            invariant
                n == g@.dependencies.len(),
                forall|j: int| 0 <= j < i ==> self@.dep_closed(#[trigger] g@.dependencies[j]),
        {
            let dep = &g.dependencies[i];
            assert(dep@ == g@.dependencies[i as int]);
            match names_get(&self.name_index, dep.as_str()) {
                Some(id) => match gaps_get(&self.gaps, id) {
                    Some(d) => {
                        if d.state != GapState::Closed {
                            return false;
                        }
                    },
                    None => {
                        return false;
                    },
                },
                None => {
                    return false;
                },
            }
        }
        true
    }

    /// Promotes every Blocked gap whose dependencies are all Closed to Ready.
    pub fn promote_unblocked(&mut self)
        requires
            old(self).wf(),
        ensures
            final(self).wf(),
            final(self)@ == (BoardView { gaps: old(self)@.promoted(), ..old(self)@ }),
    {
        let ghost old_view = self@;
        let keys = gaps_keys(&self.gaps);
        let mut to_promote: Vec<u128> = Vec::new();
        let n = keys.len();
        for i in 0..n
            invariant
                n == keys@.len(),
                self@ == old_view,
                keys@.no_duplicates(),
                forall|k: u128| keys@.contains(k) <==> old_view.gaps.contains_key(k),
                to_promote@.no_duplicates(),
                forall|k: u128|
                    #![trigger to_promote@.contains(k)]
                    to_promote@.contains(k) <==> (keys@.take(i as int).contains(k)
                        && old_view.promotable(old_view.gaps[k])),
        {
            let id = keys[i];
            assert(keys@.contains(id));
            assert(keys@.take(i + 1) == keys@.take(i as int).push(id));
            assert(!keys@.take(i as int).contains(id));
            proof {
                self.lemma_gap_view(id);
            }
            match gaps_get(&self.gaps, id) {
                Some(g) => {
                    if g.state == GapState::Blocked && self.deps_all_closed(&g) {
                        proof {
                            lemma_push_no_dup(to_promote@, id);
                        }
                        to_promote.push(id);
                    }
                },
                None => {},
            }
        }
        assert(keys@.take(n as int) == keys@);
        let m = to_promote.len();
        for j in 0..m
            invariant
                m == to_promote@.len(),
                to_promote@.no_duplicates(),
                forall|k: u128|
                    #![trigger to_promote@.contains(k)]
                    to_promote@.contains(k) ==> old_view.gaps.contains_key(k)
                        && old_view.promotable(old_view.gaps[k]),
                forall|k: u128|
                    old_view.gaps.contains_key(k) && old_view.promotable(old_view.gaps[k])
                        ==> #[trigger] to_promote@.contains(k),
                self@.intent == old_view.intent,
                self@.names == old_view.names,
                self@.evidence == old_view.evidence,
                self@.gaps.dom() == old_view.gaps.dom(),
                forall|k: u128| #[trigger]
                    self@.gaps.contains_key(k) ==> self@.gaps[k] == (if to_promote@.take(
                        j as int,
                    ).contains(k) {
                        old_view.gaps[k].with_state(GapState::Ready)
                    } else {
                        old_view.gaps[k]
                    }),
        {
            let id = to_promote[j];
            assert(to_promote@.contains(id));
            assert(to_promote@.take(j + 1) == to_promote@.take(j as int).push(id));
            assert(!to_promote@.take(j as int).contains(id));
            proof {
                self.lemma_gap_view(id);
            }
            match gaps_get(&self.gaps, id) {
                Some(g) => {
                    let mut g = g;
                    let ghost before = self@;
                    g.set_state(GapState::Ready);
                    gaps_insert(&mut self.gaps, id, g);
                    assert(self@.gaps =~= before.gaps.insert(id, old_view.gaps[id].with_state(GapState::Ready)));
                    assert(self@.evidence =~= before.evidence);
                },
                None => {},
            }
        }
        assert(to_promote@.take(m as int) == to_promote@);
        assert(self@.gaps =~= old_view.promoted());
        proof {
            let b = self@;
            assert forall|k: u128| #[trigger] b.gaps.contains_key(k) implies b.names.contains_key(
                b.gaps[k].name,
            ) && b.names[b.gaps[k].name] == k by {
                assert(old_view.gaps.contains_key(k));
            }
        }
    }

    /// Marks every Ready gap Assigned and returns copies of them (now Assigned),
    /// each once, in an order the gap table leaves open.
    pub fn drain_ready(&mut self) -> (taken: Vec<Gap>)
        requires
            old(self).wf(),
        ensures
            final(self).wf(),
            final(self)@ == (BoardView { gaps: old(self)@.drained(), ..old(self)@ }),
            forall|i: int|
                0 <= i < taken@.len() ==> final(self)@.gaps.contains_key(#[trigger] taken@[i]@.id)
                    && taken@[i]@ == final(self)@.gaps[taken@[i]@.id],
            forall|i: int, j: int|
                0 <= i < taken@.len() && 0 <= j < taken@.len() && i != j ==> #[trigger] taken@[i]@.id
                    != #[trigger] taken@[j]@.id,
            forall|k: u128|
                old(self)@.ready_ids().contains(k) <==> exists|i: int|
                    0 <= i < taken@.len() && #[trigger] taken@[i]@.id == k,
    {
        let ghost old_view = self@;
        let keys = gaps_keys(&self.gaps);
        let mut ready: Vec<u128> = Vec::new();
        let n = keys.len();
        for i in 0..n
            invariant
                n == keys@.len(),
                self@ == old_view,
                keys@.no_duplicates(),
                forall|k: u128| keys@.contains(k) <==> old_view.gaps.contains_key(k),
                ready@.no_duplicates(),
                forall|k: u128|
                    #![trigger ready@.contains(k)]
                    ready@.contains(k) <==> (keys@.take(i as int).contains(k)
                        && old_view.gaps[k].state == GapState::Ready),
        {
            let id = keys[i];
            assert(keys@.contains(id));
            assert(keys@.take(i + 1) == keys@.take(i as int).push(id));
            assert(!keys@.take(i as int).contains(id));
            proof {
                self.lemma_gap_view(id);
            }
            match gaps_get(&self.gaps, id) {
                Some(g) => {
                    if g.state == GapState::Ready {
                        proof {
                            lemma_push_no_dup(ready@, id);
                        }
                        ready.push(id);
                    }
                },
                None => {},
            }
        }
        assert(keys@.take(n as int) == keys@);
        let mut taken: Vec<Gap> = Vec::new();
        let m = ready.len();
        for j in 0..m
            invariant
                m == ready@.len(),
                ready@.no_duplicates(),
                forall|k: u128|
                    #![trigger ready@.contains(k)]
                    ready@.contains(k) <==> old_view.gaps.contains_key(k)
                        && old_view.gaps[k].state == GapState::Ready,
                self@.intent == old_view.intent,
                self@.names == old_view.names,
                self@.evidence == old_view.evidence,
                self@.gaps.dom() == old_view.gaps.dom(),
                forall|k: u128| #[trigger]
                    self@.gaps.contains_key(k) ==> self@.gaps[k] == (if ready@.take(j as int).contains(k) {
                        old_view.gaps[k].with_state(GapState::Assigned)
                    } else {
                        old_view.gaps[k]
                    }),
                taken@.len() == j,
                forall|i: int| 0 <= i < j ==> (#[trigger] taken@[i])@ == old_view.gaps[ready@[i]].with_state(
                    GapState::Assigned,
                ),
        {
            let id = ready[j];
            assert(ready@.contains(id));
            assert(ready@.take(j + 1) == ready@.take(j as int).push(id));
            assert(!ready@.take(j as int).contains(id));
            proof {
                self.lemma_gap_view(id);
            }
            match gaps_get(&self.gaps, id) {
                Some(g) => {
                    let mut g = g;
                    let ghost before = self@;
                    g.set_state(GapState::Assigned);
                    gaps_insert(&mut self.gaps, id, g);
                    assert(self@.gaps =~= before.gaps.insert(id, old_view.gaps[id].with_state(GapState::Assigned)));
                    assert(self@.evidence =~= before.evidence);
                    proof {
                self.lemma_gap_view(id);
            }
            match gaps_get(&self.gaps, id) {
                        Some(copy) => {
                            taken.push(copy);
                        },
                        None => {},
                    }
                },
                None => {},
            }
        }
        assert(ready@.take(m as int) == ready@);
        assert(self@.gaps =~= old_view.drained());
        proof {
            let b = self@;
            assert forall|k: u128| #[trigger] b.gaps.contains_key(k) implies b.names.contains_key(
                b.gaps[k].name,
            ) && b.names[b.gaps[k].name] == k by {
                assert(old_view.gaps.contains_key(k));
            }
            assert forall|i: int| 0 <= i < taken@.len() implies b.gaps.contains_key(#[trigger] taken@[i]@.id)
                && taken@[i]@ == b.gaps[taken@[i]@.id] by {
                assert(ready@.contains(ready@[i]));
                assert(old_view.gaps[ready@[i]].id == ready@[i]);
            }
            assert forall|i: int, j: int|
                0 <= i < taken@.len() && 0 <= j < taken@.len() && i != j implies #[trigger] taken@[i]@.id
                != #[trigger] taken@[j]@.id by {
                assert(ready@.contains(ready@[i]));
                assert(ready@.contains(ready@[j]));
                assert(old_view.gaps[ready@[i]].id == ready@[i]);
                assert(old_view.gaps[ready@[j]].id == ready@[j]);
            }
            assert forall|k: u128| old_view.ready_ids().contains(k) <==> exists|i: int|
                0 <= i < taken@.len() && #[trigger] taken@[i]@.id == k by {
                if old_view.ready_ids().contains(k) {
                    assert(ready@.contains(k));
                    let i = ready@.index_of(k);
                    assert(old_view.gaps[ready@[i]].id == ready@[i]);
                    assert(taken@[i]@.id == k);
                }
                if exists|i: int| 0 <= i < taken@.len() && #[trigger] taken@[i]@.id == k {
                    let i = choose|i: int| 0 <= i < taken@.len() && #[trigger] taken@[i]@.id == k;
                    assert(ready@.contains(ready@[i]));
                    assert(old_view.gaps[ready@[i]].id == ready@[i]);
                }
            }
        }
        taken
    }

    /// Whether every gap on the board is Closed.
    pub fn all_closed(&self) -> (b: bool)
        ensures
            b == self@.all_closed(),
    {
        let keys = gaps_keys(&self.gaps);
        let n = keys.len();
        for i in 0..n
            invariant
                n == keys@.len(),
                forall|k: u128| keys@.contains(k) <==> self@.gaps.contains_key(k),
                forall|j: int| 0 <= j < i ==> self@.gaps[#[trigger] keys@[j]].state == GapState::Closed,
        {
            let id = keys[i];
            assert(keys@.contains(id));
            proof {
                self.lemma_gap_view(id);
            }
            match gaps_get(&self.gaps, id) {
                Some(g) => {
                    if g.state != GapState::Closed {
                        return false;
                    }
                },
                None => {},
            }
        }
        assert forall|k: u128| #[trigger] self@.gaps.contains_key(k) implies self@.gaps[k].state
            == GapState::Closed by {
            assert(keys@.contains(k));
            let j = keys@.index_of(k);
            assert(keys@[j] == k);
        }
        true
    }

    /// All evidence on the board: each gap's log in order, the gaps in an order the log table
    /// leaves open.
    pub fn all_evidence(&self) -> (r: Vec<Evidence>)
        requires
            self.wf(),
        ensures
            exists|keys: Seq<u128>|
                {
                    &&& keys.no_duplicates()
                    &&& forall|k: u128| keys.contains(k) <==> self@.evidence.contains_key(k)
                    &&& evidence_view(r@) == self@.evidence_in_order(keys)
                },
    {
        let keys = evidence_keys(&self.evidences);
        let mut r: Vec<Evidence> = Vec::new();
        let n = keys.len();
        for i in 0..n
            invariant
                n == keys@.len(),
                evidence_view(r@) == self@.evidence_in_order(keys@.take(i as int)),
        {
            let id = keys[i];
            let list = match evidence_get(&self.evidences, id) {
                Some(v) => v,
                None => Vec::new(),
            };
            assert(evidence_view(list@) =~= self@.evidence_of(id));
            let ghost before = r@;
            let m = list.len();
            for j in 0..m
                invariant
                    m == list@.len(),
                    evidence_view(r@) == evidence_view(before) + evidence_view(list@.take(j as int)),
            {
                let ghost prev = r@;
                let e = list[j].clone_evidence();
                let ghost ev = e@;
                r.push(e);
                proof {
                    assert(list@.take(j + 1) == list@.take(j as int).push(list@[j as int]));
                    lemma_evidence_view_push(prev, r@.last());
                    assert(r@ == prev.push(r@.last()));
                    lemma_evidence_view_push(list@.take(j as int), list@[j as int]);
                    assert(evidence_view(r@) =~= evidence_view(before) + evidence_view(list@.take(j + 1)));
                }
            }
            assert(list@.take(m as int) == list@);
            assert(keys@.take(i + 1).drop_last() == keys@.take(i as int));
        }
        assert(keys@.take(n as int) == keys@);
        r
    }

    /// A copy of the board's contents.
    pub fn snapshot(&self) -> (s: BlackboardSnapshot)
        requires
            self.wf(),
        ensures
            opt_view(s.intent) == self@.intent,
            pairs_gap_ids(s.gaps@).no_duplicates(),
            forall|k: u128| pairs_gap_ids(s.gaps@).contains(k) <==> self@.gaps.contains_key(k),
            forall|i: int|
                0 <= i < s.gaps@.len() ==> (#[trigger] s.gaps@[i]).1@ == self@.gaps[s.gaps@[i].0],
            pairs_evidence_ids(s.evidences@).no_duplicates(),
            forall|k: u128|
                pairs_evidence_ids(s.evidences@).contains(k) <==> self@.evidence.contains_key(k),
            forall|i: int|
                0 <= i < s.evidences@.len() ==> evidence_view((#[trigger] s.evidences@[i]).1@)
                    == self@.evidence[s.evidences@[i].0],
    {
        let keys = gaps_keys(&self.gaps);
        let mut gaps: Vec<(u128, Gap)> = Vec::new();
        let n = keys.len();
        for i in 0..n
            invariant
                n == keys@.len(),
                keys@.no_duplicates(),
                forall|k: u128| keys@.contains(k) <==> self@.gaps.contains_key(k),
                pairs_gap_ids(gaps@) == keys@.take(i as int),
                forall|j: int| 0 <= j < gaps@.len() ==> (#[trigger] gaps@[j]).1@ == self@.gaps[gaps@[j].0],
        {
            let id = keys[i];
            assert(keys@.contains(id));
            proof {
                self.lemma_gap_view(id);
            }
            let ghost prev = gaps@;
            match gaps_get(&self.gaps, id) {
                Some(g) => {
                    gaps.push((id, g));
                    proof {
                        lemma_gap_ids_push(prev, (id, g));
                    }
                },
                None => {},
            }
            assert(keys@.take(i + 1) == keys@.take(i as int).push(id));
        }
        assert(keys@.take(n as int) == keys@);
        let ekeys = evidence_keys(&self.evidences);
        let mut evidences: Vec<(u128, Vec<Evidence>)> = Vec::new();
        let m = ekeys.len();
        for i in 0..m
            invariant
                m == ekeys@.len(),
                ekeys@.no_duplicates(),
                forall|k: u128| ekeys@.contains(k) <==> self@.evidence.contains_key(k),
                pairs_evidence_ids(evidences@) == ekeys@.take(i as int),
                forall|j: int|
                    0 <= j < evidences@.len() ==> evidence_view((#[trigger] evidences@[j]).1@)
                        == self@.evidence[evidences@[j].0],
        {
            let id = ekeys[i];
            assert(ekeys@.contains(id));
            let ghost prev = evidences@;
            match evidence_get(&self.evidences, id) {
                Some(v) => {
                    evidences.push((id, v));
                    proof {
                        lemma_evidence_ids_push(prev, (id, v));
                    }
                },
                None => {},
            }
            assert(ekeys@.take(i + 1) == ekeys@.take(i as int).push(id));
        }
        assert(ekeys@.take(m as int) == ekeys@);
        BlackboardSnapshot::new(self.get_intent(), gaps, evidences)
    }
}

/// The position of a state in the lifecycle Blocked -> Ready -> Assigned -> Closed.
pub open spec fn state_rank(s: GapState) -> int {
    match s {
        GapState::Blocked => 0,
        GapState::Ready => 1,
        GapState::Assigned => 2,
        GapState::Closed => 3,
    }
}

/// On a well-formed board two stored gaps with the same name are the same gap.
pub proof fn law_gap_names_unique(b: BoardView, k1: u128, k2: u128)
    requires
        b.wf(),
        b.gaps.contains_key(k1),
        b.gaps.contains_key(k2),
        b.gaps[k1].name == b.gaps[k2].name,
    ensures
        k1 == k2,
{
}

/// Promotion and dispatch keep every gap, change nothing but states, and only move a
/// gap forward in its lifecycle.
pub proof fn law_scheduling_only_advances(b: BoardView, k: u128)
    requires
        b.gaps.contains_key(k),
    ensures
        b.promoted().dom() == b.gaps.dom(),
        b.drained().dom() == b.gaps.dom(),
        b.promoted()[k] == b.gaps[k].with_state(b.promoted()[k].state),
        b.drained()[k] == b.gaps[k].with_state(b.drained()[k].state),
        state_rank(b.promoted()[k].state) >= state_rank(b.gaps[k].state),
        state_rank(b.drained()[k].state) >= state_rank(b.gaps[k].state),
{
    assert(b.promoted().dom() =~= b.gaps.dom());
    assert(b.drained().dom() =~= b.gaps.dom());
}

/// Promotion changes exactly the Blocked gaps whose dependencies are all stored and Closed,
/// and makes them Ready.
pub proof fn law_promotion_exact(b: BoardView, k: u128)
    requires
        b.gaps.contains_key(k),
    ensures
        b.promoted()[k].state != b.gaps[k].state <==> (b.gaps[k].state == GapState::Blocked
            && forall|i: int|
            0 <= i < b.gaps[k].dependencies.len() ==> b.dep_closed(
                #[trigger] b.gaps[k].dependencies[i],
            )),
        b.promoted()[k].state != b.gaps[k].state ==> b.promoted()[k].state == GapState::Ready,
{
}

/// Dispatch changes exactly the Ready gaps, making them Assigned; after it no gap is Ready,
/// so a second dispatch in a row takes nothing.
pub proof fn law_dispatch_exact(b: BoardView, k: u128)
    requires
        b.gaps.contains_key(k),
    ensures
        b.drained()[k].state != b.gaps[k].state <==> b.gaps[k].state == GapState::Ready,
        b.drained()[k].state != b.gaps[k].state ==> b.drained()[k].state == GapState::Assigned,
        (BoardView { gaps: b.drained(), ..b }).ready_ids().is_empty(),
{
    let d = BoardView { gaps: b.drained(), ..b };
    assert(d.ready_ids() =~= Set::empty());
}

/// Gaps are never removed: adding a gap, changing a state and appending evidence keep
/// every stored gap id.
pub proof fn law_gaps_append_only(b: BoardView, g: GapView, id: u128, st: GapState, ev: EvidenceView)
    requires
        b.gaps.contains_key(id),
    ensures
        b.gaps.dom().subset_of(b.with_gap(g).gaps.dom()),
        b.with_gap_state(id, st).gaps.dom() == b.gaps.dom(),
        b.with_evidence(ev).gaps == b.gaps,
{
    assert(b.with_gap_state(id, st).gaps.dom() =~= b.gaps.dom());
}

/// Reading the evidence of a gap after appending gives back what was there, then the new record;
/// the logs of the other gaps are unchanged.
pub proof fn law_evidence_read_after_append(b: BoardView, ev: EvidenceView, id: u128)
    ensures
        b.with_evidence(ev).evidence_of(id) == (if id == ev.gap_id {
            b.evidence_of(id).push(ev)
        } else {
            b.evidence_of(id)
        }),
{
}

/// A new gap whose dependencies are all already Closed (a follow-up on a living board) is
/// Ready after the next promotion.
pub proof fn law_follow_up_gap_ready_after_promotion(b: BoardView, g: GapView)
    requires
        b.wf(),
        !b.names.contains_key(g.name),
        !b.gaps.contains_key(g.id),
        g.state == crate::moss::types::initial_state(g.dependencies),
        forall|i: int| 0 <= i < g.dependencies.len() ==> b.dep_closed(#[trigger] g.dependencies[i]),
    ensures
        b.with_gap(g).promoted()[g.id].state == GapState::Ready,
{
    let b2 = b.with_gap(g);
    assert forall|i: int| 0 <= i < g.dependencies.len() implies b2.dep_closed(
        #[trigger] g.dependencies[i],
    ) by {
        let d = g.dependencies[i];
        assert(b.dep_closed(d));
        assert(b.names.contains_key(d));
        assert(b.gaps.contains_key(b.names[d]));
        assert(d != g.name);
        assert(b2.names[d] == b.names[d]);
        assert(b.names[d] != g.id);
    }
}

} // verus!
