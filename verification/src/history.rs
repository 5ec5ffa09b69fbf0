//! The history attributor: for each entry of a directory listing, the most
//! recent commit on the first-parent line whose changes touch the entry or
//! anything beneath it. One walk serves all the entries of a listing.

use crate::common::RepoError;
use crate::object::{CommitModel, CommitRecord, ObjectId};
use crate::path::{comps_view, split, split_path, starts_with};
use crate::store::{commit_record, diff_paths, find_commit, DeltaPaths};
use vstd::prelude::*;

verus! {

/// What last touched an entry, as a mathematical value.
pub struct AttributionModel {
    pub message: Seq<char>,
    pub timestamp: i64,
    pub commit: Seq<u8>,
}

/// What last touched an entry: the commit, its summary and its author's
/// timestamp.
#[derive(Debug)]
pub struct Attribution {
    pub message: String,
    pub timestamp: i64,
    pub commit: ObjectId,
}

impl View for Attribution {
    type V = AttributionModel;

    open spec fn view(&self) -> AttributionModel {
        AttributionModel { message: self.message@, timestamp: self.timestamp, commit: self.commit@ }
    }
}

/// One commit of the walk with the paths that it changed against its first
/// parent, each path as its components.
pub struct VisitModel {
    pub commit: CommitModel,
    pub changes: Seq<Seq<Seq<u8>>>,
}

/// A list of paths, each as the bytes of its components.
pub open spec fn paths_view(paths: Seq<Vec<Vec<u8>>>) -> Seq<Seq<Seq<u8>>> {
    paths.map_values(|p: Vec<Vec<u8>>| comps_view(p@))
}

/// A list of optional attributions, each as a mathematical value.
pub open spec fn found_view(found: Seq<Option<Attribution>>) -> Seq<Option<AttributionModel>> {
    found.map_values(
        |o: Option<Attribution>|
            match o {
                Some(a) => Some(a@),
                None => None,
            },
    )
}

/// A list of attributions, each as a mathematical value.
pub open spec fn attributions_view(found: Seq<Attribution>) -> Seq<AttributionModel> {
    found.map_values(|a: Attribution| a@)
}

/// Whether a change set touches a target: some changed path is the target
/// or lies beneath it, component by component.
pub open spec fn touches(changes: Seq<Seq<Seq<u8>>>, target: Seq<Seq<u8>>) -> bool {
    exists|k: int| 0 <= k < changes.len() && target.is_prefix_of(#[trigger] changes[k])
}

/// The attribution that names a commit: its id, its summary (empty where it
/// has none) and its timestamp.
pub open spec fn credit(commit: CommitModel) -> AttributionModel {
    AttributionModel {
        message: match commit.summary {
            Some(s) => s,
            None => Seq::empty(),
        },
        timestamp: commit.time,
        commit: commit.id,
    }
}

/// The attribution of a target over the commits visited so far, newest
/// first: the first of them that touches the target.
pub open spec fn attribute_over(visits: Seq<VisitModel>, target: Seq<Seq<u8>>) -> Option<
    AttributionModel,
>
    decreases visits.len(),
{
    if visits.len() == 0 {
        None
    } else {
        match attribute_over(visits.drop_last(), target) {
            Some(a) => Some(a),
            None => if touches(visits.last().changes, target) {
                Some(credit(visits.last().commit))
            } else {
                None
            },
        }
    }
}

/// Whether every entry has its attribution.
pub open spec fn complete_model(found: Seq<Option<AttributionModel>>) -> bool {
    forall|i: int| 0 <= i < found.len() ==> (#[trigger] found[i]) is Some
}

/// How a walk ends on the attributions found: with all of them, or with
/// `AttributionFailure` if an entry has none.
pub open spec fn finish_model(found: Seq<Option<AttributionModel>>) -> Result<
    Seq<AttributionModel>,
    RepoError,
> {
    if complete_model(found) {
        Ok(Seq::new(found.len(), |i: int| found[i]->Some_0))
    } else {
        Err(RepoError::AttributionFailure)
    }
}

/// The result of a walk as a mathematical value.
pub open spec fn outcome_view(r: Result<Vec<Attribution>, RepoError>) -> Result<
    Seq<AttributionModel>,
    RepoError,
> {
    match r {
        Ok(list) => Ok(attributions_view(list@)),
        Err(e) => Err(e),
    }
}

/// What one more commit does to the attributions found so far: an entry
/// that has its attribution keeps it; one that has none gets this commit
/// if the commit touches it.
pub open spec fn observe_model(
    found: Seq<Option<AttributionModel>>,
    targets: Seq<Seq<Seq<u8>>>,
    visit: VisitModel,
) -> Seq<Option<AttributionModel>> {
    Seq::new(
        found.len(),
        |i: int|
            match found[i] {
                Some(a) => Some(a),
                None => if touches(visit.changes, targets[i]) {
                    Some(credit(visit.commit))
                } else {
                    None
                },
            },
    )
}

/// The path that a difference is filed under: that of its new side, else
/// that of its old side.
pub open spec fn delta_path(delta: DeltaPaths) -> Option<Seq<u8>> {
    match delta.new_path {
        Some(p) => Some(p@),
        None => match delta.old_path {
            Some(p) => Some(p@),
            None => None,
        },
    }
}

/// The changed paths of a list of differences, in order, each split into
/// its components; a difference without a path counts for nothing.
pub open spec fn changed_model(deltas: Seq<DeltaPaths>) -> Seq<Seq<Seq<u8>>>
    decreases deltas.len(),
{
    if deltas.len() == 0 {
        Seq::empty()
    } else {
        let before = changed_model(deltas.drop_last());
        match delta_path(deltas.last()) {
            Some(p) => before.push(split_path(p)),
            None => before,
        }
    }
}

/// The changed paths of a list of differences.
pub fn changed_paths(deltas: &Vec<DeltaPaths>) -> (r: Vec<Vec<Vec<u8>>>)
    ensures
        paths_view(r@) == changed_model(deltas@),
{
    let mut out: Vec<Vec<Vec<u8>>> = Vec::new();
    let mut i: usize = 0;
    assert(deltas@.take(0) =~= Seq::<DeltaPaths>::empty());
    assert(paths_view(out@) =~= changed_model(deltas@.take(0)));
    while i < deltas.len()
        invariant
            i <= deltas.len(),
            paths_view(out@) == changed_model(deltas@.take(i as int)),
        decreases deltas.len() - i,
    {
        let ghost before = paths_view(out@);
        assert(deltas@.take(i + 1).drop_last() =~= deltas@.take(i as int));
        assert(deltas@.take(i + 1).last() == deltas@[i as int]);
        match &deltas[i].new_path {
            Some(p) => {
                out.push(split(p.as_slice()));
                assert(paths_view(out@) =~= before.push(split_path(p@)));
            },
            None => match &deltas[i].old_path {
                Some(p) => {
                    out.push(split(p.as_slice()));
                    assert(paths_view(out@) =~= before.push(split_path(p@)));
                },
                None => {},
            },
        }
        i += 1;
    }
    assert(deltas@.take(deltas.len() as int) =~= deltas@);
    out
}

/// Whether a change set touches a target.
pub fn touches_any(changes: &Vec<Vec<Vec<u8>>>, target: &Vec<Vec<u8>>) -> (r: bool)
    ensures
        r == touches(paths_view(changes@), comps_view(target@)),
{
    let mut k: usize = 0;
    while k < changes.len()
        invariant
            k <= changes.len(),
            forall|j: int|
                0 <= j < k ==> !comps_view(target@).is_prefix_of(#[trigger] paths_view(changes@)[j]),
        decreases changes.len() - k,
    {
        if starts_with(&changes[k], target) {
            assert(comps_view(target@).is_prefix_of(paths_view(changes@)[k as int]));
            return true;
        }
        k += 1;
    }
    false
}

/// The commit that the walk visits after this one: its first parent.
/// Other parents are never visited.
pub fn first_parent(commit: &CommitRecord) -> (r: Option<ObjectId>)
    ensures
        match r {
            Some(id) => commit@.parents.len() > 0 && id@ == commit@.parents[0],
            None => commit@.parents.len() == 0,
        },
{
    if commit.parents.len() > 0 {
        Some(commit.parents[0])
    } else {
        None
    }
}

/// The attribution that names a commit.
pub fn credit_commit(commit: &CommitRecord) -> (r: Attribution)
    ensures
        r@ == credit(commit@),
{
    let message = match &commit.summary {
        Some(s) => s.clone(),
        None => String::new(),
    };
    Attribution { message, timestamp: commit.time, commit: commit.id }
}

/// The attributions of the entries of one listing while the walk goes on.
pub struct Attributor {
    /// The full path of each entry, as components.
    pub targets: Vec<Vec<Vec<u8>>>,
    /// For each entry, what last touched it, once known.
    pub found: Vec<Option<Attribution>>,
}

impl Attributor {
    /// There is one slot for each target.
    pub open spec fn wf(&self) -> bool {
        self.targets.len() == self.found.len()
    }

    /// A walk that has seen no commit yet.
    pub fn new(targets: Vec<Vec<Vec<u8>>>) -> (r: Attributor)
        ensures
            r.wf(),
            r.targets@ == targets@,
            forall|i: int| 0 <= i < r.found.len() ==> r.found@[i] is None,
    {
        let mut found: Vec<Option<Attribution>> = Vec::new();
        let mut i: usize = 0;
        while i < targets.len()
            invariant
                i <= targets.len(),
                found.len() == i,
                forall|j: int| 0 <= j < i ==> found@[j] is None,
            decreases targets.len() - i,
        {
            found.push(None);
            i += 1;
        }
        Attributor { targets, found }
    }

    /// Takes one more commit of the walk into account.
    pub fn observe(&mut self, commit: &CommitRecord, changes: &Vec<Vec<Vec<u8>>>)
        requires
            old(self).wf(),
        ensures
            final(self).wf(),
            final(self).targets@ == old(self).targets@,
            found_view(final(self).found@) == observe_model(
                found_view(old(self).found@),
                paths_view(old(self).targets@),
                VisitModel { commit: commit@, changes: paths_view(changes@) },
            ),
    {
        let ghost visit = VisitModel { commit: commit@, changes: paths_view(changes@) };
        let ghost before = found_view(self.found@);
        let ghost targets = paths_view(self.targets@);
        let mut i: usize = 0;
        while i < self.found.len()
            invariant
                i <= self.found.len(),
                self.wf(),
                self.targets@ == old(self).targets@,
                self.found.len() == before.len(),
                targets == paths_view(self.targets@),
                visit == (VisitModel { commit: commit@, changes: paths_view(changes@) }),
                forall|j: int|
                    0 <= j < i ==> found_view(self.found@)[j] == observe_model(
                        before,
                        targets,
                        visit,
                    )[j],
                forall|j: int| i <= j < before.len() ==> found_view(self.found@)[j] == before[j],
            decreases self.found.len() - i,
        {
            if self.found[i].is_none() && touches_any(changes, &self.targets[i]) {
                let a = credit_commit(commit);
                self.found.set(i, Some(a));
            }
            i += 1;
        }
        assert(found_view(self.found@) =~= observe_model(before, targets, visit));
    }

    /// Whether every entry has its attribution.
    pub fn is_complete(&self) -> (r: bool)
        ensures
            r == (forall|i: int| 0 <= i < self.found.len() ==> self.found@[i] is Some),
            r == complete_model(found_view(self.found@)),
    {
        let mut i: usize = 0;
        while i < self.found.len()
            invariant
                i <= self.found.len(),
                forall|j: int| 0 <= j < i ==> self.found@[j] is Some,
            decreases self.found.len() - i,
        {
            if self.found[i].is_none() {
                assert(found_view(self.found@)[i as int] is None);
                return false;
            }
            i += 1;
        }
        assert forall|j: int| 0 <= j < self.found.len() implies (#[trigger] found_view(
            self.found@,
        )[j]) is Some by {
            assert(self.found@[j] is Some);
        }
        true
    }

    /// The first entry that has no attribution, if there is one.
    pub fn first_missing(&self) -> (r: Option<usize>)
        ensures
            match r {
                Some(i) => i < self.found.len() && self.found@[i as int] is None && forall|j: int|
                    0 <= j < i ==> self.found@[j] is Some,
                None => forall|j: int| 0 <= j < self.found.len() ==> self.found@[j] is Some,
            },
    {
        let mut i: usize = 0;
        while i < self.found.len()
            invariant
                i <= self.found.len(),
                forall|j: int| 0 <= j < i ==> self.found@[j] is Some,
            decreases self.found.len() - i,
        {
            if self.found[i].is_none() {
                return Some(i);
            }
            i += 1;
        }
        None
    }

    /// The commit to visit next, if the walk goes on: it stops when every
    /// entry has its attribution or when there is no parent to go to, and
    /// in no other case.
    pub fn next_commit(&self, parent: Option<CommitRecord>) -> (r: Option<CommitRecord>)
        ensures
            r == if complete_model(found_view(self.found@)) {
                None
            } else {
                parent
            },
    {
        if self.is_complete() {
            None
        } else {
            parent
        }
    }

    /// The attributions in the order of the targets, or `AttributionFailure`
    /// if the walk ended with an entry unaccounted for.
    pub fn finish(self) -> (r: Result<Vec<Attribution>, RepoError>)
        ensures
            match r {
                Ok(list) => list.len() == self.found.len() && forall|i: int|
                    0 <= i < list.len() ==> found_view(self.found@)[i] == Some(list@[i]@),
                Err(e) => e == RepoError::AttributionFailure && exists|i: int|
                    0 <= i < self.found.len() && self.found@[i] is None,
            },
            outcome_view(r) == finish_model(found_view(self.found@)),
    {
        let mut list: Vec<Attribution> = Vec::new();
        let mut i: usize = 0;
        while i < self.found.len()
            invariant
                i <= self.found.len(),
                list.len() == i,
                forall|j: int| 0 <= j < i ==> found_view(self.found@)[j] == Some(list@[j]@),
            decreases self.found.len() - i,
        {
            match &self.found[i] {
                Some(a) => {
                    list.push(
                        Attribution {
                            message: a.message.clone(),
                            timestamp: a.timestamp,
                            commit: a.commit,
                        },
                    );
                },
                None => {
                    assert(found_view(self.found@)[i as int] is None);
                    return Err(RepoError::AttributionFailure);
                },
            }
            i += 1;
        }
        assert(complete_model(found_view(self.found@)));
        assert(attributions_view(list@) =~= finish_model(found_view(self.found@))->Ok_0);
        Ok(list)
    }
}

/// Whether each commit after the first is the first parent of the one
/// before it.
pub open spec fn first_parent_chain(visits: Seq<VisitModel>) -> bool {
    forall|k: int|
        0 <= k < visits.len() - 1 ==> (#[trigger] visits[k]).commit.parents.len() > 0 && visits[k
            + 1].commit.id == visits[k].commit.parents[0]
}

/// What a finished walk states: it started at the head, went from each
/// commit to its first parent, and each target has the first commit of the
/// walk that touches it.
pub open spec fn walk_outcome(
    visits: Seq<VisitModel>,
    head: CommitModel,
    targets: Seq<Seq<Seq<u8>>>,
    found: Seq<AttributionModel>,
) -> bool {
    &&& visits.len() > 0 ==> visits[0].commit == head
    &&& first_parent_chain(visits)
    &&& found.len() == targets.len()
    &&& forall|i: int|
        0 <= i < targets.len() ==> attribute_over(visits, targets[i]) == Some(#[trigger] found[i])
}

/// One more commit keeps the attributions in step with the walk.
pub proof fn lemma_observe_extends(
    found: Seq<Option<AttributionModel>>,
    targets: Seq<Seq<Seq<u8>>>,
    visits: Seq<VisitModel>,
    visit: VisitModel,
)
    requires
        found.len() == targets.len(),
        forall|i: int| 0 <= i < targets.len() ==> found[i] == attribute_over(visits, targets[i]),
    ensures
        forall|i: int|
            0 <= i < targets.len() ==> observe_model(found, targets, visit)[i] == attribute_over(
                visits.push(visit),
                targets[i],
            ),
{
    assert(visits.push(visit).drop_last() =~= visits);
}

/// A walk that goes on to the first parent of its last commit is still a
/// first-parent chain.
pub proof fn lemma_chain_extends(visits: Seq<VisitModel>, visit: VisitModel)
    requires
        first_parent_chain(visits),
        visits.len() > 0 ==> visits.last().commit.parents.len() > 0 && visit.commit.id
            == visits.last().commit.parents[0],
    ensures
        first_parent_chain(visits.push(visit)),
{
    let longer = visits.push(visit);
    assert forall|k: int| 0 <= k < longer.len() - 1 implies (#[trigger] longer[k]).commit.parents.len()
        > 0 && longer[k + 1].commit.id == longer[k].commit.parents[0] by {
        if k < visits.len() - 1 {
            assert(visits[k].commit.parents.len() > 0);
        }
    }
}

/// No attribution yet for any of `n` entries.
pub open spec fn unknown(n: nat) -> Seq<Option<AttributionModel>> {
    Seq::new(n, |i: int| None)
}

/// What the store hands back for one commit of the walk: the commit read
/// under the id of the first parent (`None` where the read failed), and
/// the differences between the two trees (`None` where the comparison
/// failed).
pub struct WalkRead {
    pub parent: Option<CommitModel>,
    pub deltas: Option<Seq<DeltaPaths>>,
}

/// The first parent of a commit from what the store handed back for its
/// id: none for a commit without parents; else the commit read, which must
/// carry the id that was asked for.
pub open spec fn parent_model(commit: CommitModel, read: Option<CommitModel>) -> Result<
    Option<CommitModel>,
    RepoError,
> {
    if commit.parents.len() == 0 {
        Ok(None)
    } else {
        match read {
            Some(p) => if p.id == commit.parents[0] {
                Ok(Some(p))
            } else {
                Err(RepoError::AttributionFailure)
            },
            None => Err(RepoError::AttributionFailure),
        }
    }
}

/// The changed paths from what the comparison of two trees gave.
pub open spec fn changes_model(read: Option<Seq<DeltaPaths>>) -> Result<
    Seq<Seq<Seq<u8>>>,
    RepoError,
> {
    match read {
        Some(deltas) => Ok(changed_model(deltas)),
        None => Err(RepoError::AttributionFailure),
    }
}

/// Where a walk stands after one commit.
pub enum WalkStep {
    /// The walk is over, with this result.
    Done(Result<Seq<AttributionModel>, RepoError>),
    /// The walk goes on at this commit with these attributions.
    Next(CommitModel, Seq<Option<AttributionModel>>),
}

/// One commit of the walk. Its first parent is read and its tree compared
/// with the parent's (the empty tree where there is none); every entry
/// without attribution that the changes touch is attributed to it. The
/// walk ends when every entry is accounted for or the commit has no
/// parent, and goes on at the first parent otherwise.
pub open spec fn step_walk(
    read: WalkRead,
    current: CommitModel,
    found: Seq<Option<AttributionModel>>,
    targets: Seq<Seq<Seq<u8>>>,
) -> WalkStep {
    match parent_model(current, read.parent) {
        Err(e) => WalkStep::Done(Err(e)),
        Ok(parent) => match changes_model(read.deltas) {
            Err(e) => WalkStep::Done(Err(e)),
            Ok(changes) => {
                let after = observe_model(found, targets, VisitModel { commit: current, changes });
                if complete_model(after) || parent is None {
                    WalkStep::Done(finish_model(after))
                } else {
                    WalkStep::Next(parent->Some_0, after)
                }
            },
        },
    }
}

/// The result of a walk from `current` over what the store hands back,
/// one read per commit. A walk with nothing left to find reads nothing; a
/// walk that is handed no further read ends as it stands.
pub open spec fn walk_result(
    reads: Seq<WalkRead>,
    current: CommitModel,
    found: Seq<Option<AttributionModel>>,
    targets: Seq<Seq<Seq<u8>>>,
) -> Result<Seq<AttributionModel>, RepoError>
    decreases reads.len(),
{
    if complete_model(found) || reads.len() == 0 {
        finish_model(found)
    } else {
        match step_walk(reads[0], current, found, targets) {
            WalkStep::Done(r) => r,
            WalkStep::Next(next, after) => walk_result(reads.drop_first(), next, after, targets),
        }
    }
}

/// A result is that of the walk from `head` for these targets over some
/// reads.
pub open spec fn walk_holds(
    head: CommitModel,
    targets: Seq<Seq<Seq<u8>>>,
    outcome: Result<Seq<AttributionModel>, RepoError>,
) -> bool {
    exists|reads: Seq<WalkRead>|
        outcome == #[trigger] walk_result(reads, head, unknown(targets.len()), targets)
}

/// The walk from `start` over `consumed` has come to `current` with
/// `found`: whatever reads follow, the results agree.
pub open spec fn walked(
    consumed: Seq<WalkRead>,
    start: CommitModel,
    initial: Seq<Option<AttributionModel>>,
    targets: Seq<Seq<Seq<u8>>>,
    current: CommitModel,
    found: Seq<Option<AttributionModel>>,
) -> bool {
    forall|rest: Seq<WalkRead>|
        #[trigger] walk_result(consumed + rest, start, initial, targets) == walk_result(
            rest,
            current,
            found,
            targets,
        )
}

proof fn lemma_walk_start(
    start: CommitModel,
    initial: Seq<Option<AttributionModel>>,
    targets: Seq<Seq<Seq<u8>>>,
)
    ensures
        walked(Seq::empty(), start, initial, targets, start, initial),
{
    assert forall|rest: Seq<WalkRead>| #[trigger] walk_result(
        Seq::<WalkRead>::empty() + rest,
        start,
        initial,
        targets,
    ) == walk_result(rest, start, initial, targets) by {
        assert(Seq::<WalkRead>::empty() + rest =~= rest);
    }
}

proof fn lemma_walk_unfold(
    read: WalkRead,
    rest: Seq<WalkRead>,
    current: CommitModel,
    found: Seq<Option<AttributionModel>>,
    targets: Seq<Seq<Seq<u8>>>,
)
    requires
        !complete_model(found),
    ensures
        walk_result(seq![read] + rest, current, found, targets) == match step_walk(
            read,
            current,
            found,
            targets,
        ) {
            WalkStep::Done(r) => r,
            WalkStep::Next(next, after) => walk_result(rest, next, after, targets),
        },
{
    let reads = seq![read] + rest;
    assert(reads[0] == read);
    assert(reads.drop_first() =~= rest);
}

proof fn lemma_walk_done(
    consumed: Seq<WalkRead>,
    read: WalkRead,
    start: CommitModel,
    initial: Seq<Option<AttributionModel>>,
    targets: Seq<Seq<Seq<u8>>>,
    current: CommitModel,
    found: Seq<Option<AttributionModel>>,
    result: Result<Seq<AttributionModel>, RepoError>,
)
    requires
        walked(consumed, start, initial, targets, current, found),
        !complete_model(found),
        step_walk(read, current, found, targets) == WalkStep::Done(result),
    ensures
        walk_result(consumed.push(read), start, initial, targets) == result,
{
    let rest = seq![read];
    assert(consumed.push(read) =~= consumed + rest);
    assert(walk_result(consumed + rest, start, initial, targets) == walk_result(
        rest,
        current,
        found,
        targets,
    ));
    lemma_walk_unfold(read, Seq::empty(), current, found, targets);
    assert(seq![read] + Seq::<WalkRead>::empty() =~= rest);
}

proof fn lemma_walk_next(
    consumed: Seq<WalkRead>,
    read: WalkRead,
    start: CommitModel,
    initial: Seq<Option<AttributionModel>>,
    targets: Seq<Seq<Seq<u8>>>,
    current: CommitModel,
    found: Seq<Option<AttributionModel>>,
    next: CommitModel,
    after: Seq<Option<AttributionModel>>,
)
    requires
        walked(consumed, start, initial, targets, current, found),
        !complete_model(found),
        step_walk(read, current, found, targets) == WalkStep::Next(next, after),
    ensures
        walked(consumed.push(read), start, initial, targets, next, after),
{
    assert forall|rest: Seq<WalkRead>| #[trigger] walk_result(
        consumed.push(read) + rest,
        start,
        initial,
        targets,
    ) == walk_result(rest, next, after, targets) by {
        let longer = seq![read] + rest;
        assert(consumed.push(read) + rest =~= consumed + longer);
        assert(walk_result(consumed + longer, start, initial, targets) == walk_result(
            longer,
            current,
            found,
            targets,
        ));
        lemma_walk_unfold(read, rest, current, found, targets);
    }
}

proof fn lemma_walk_stop(
    consumed: Seq<WalkRead>,
    start: CommitModel,
    initial: Seq<Option<AttributionModel>>,
    targets: Seq<Seq<Seq<u8>>>,
    current: CommitModel,
    found: Seq<Option<AttributionModel>>,
)
    requires
        walked(consumed, start, initial, targets, current, found),
    ensures
        walk_result(consumed, start, initial, targets) == finish_model(found),
{
    let rest = Seq::<WalkRead>::empty();
    assert(consumed + rest =~= consumed);
    assert(walk_result(consumed + rest, start, initial, targets) == walk_result(
        rest,
        current,
        found,
        targets,
    ));
}

/// The commit that stands for the first parent, from what the store
/// handed back under the id asked for: a commit that carries another id
/// is refused, and so is a read that failed.
pub fn accept_parent(asked: &ObjectId, read: Option<CommitRecord>) -> (r: Result<
    CommitRecord,
    RepoError,
>)
    ensures
        r == match read {
            Some(p) => if p.id@ == asked@ {
                Ok(p)
            } else {
                Err(RepoError::AttributionFailure)
            },
            None => Err(RepoError::AttributionFailure),
        },
{
    match read {
        Some(p) => if p.id.same(asked) {
            Ok(p)
        } else {
            Err(RepoError::AttributionFailure)
        },
        None => Err(RepoError::AttributionFailure),
    }
}

/// The two trees to compare for a commit: on the old side the tree of its
/// first parent, or none (the empty tree) where it has no parent; on the
/// new side its own tree.
pub fn diff_sides(commit: &CommitRecord, parent: &Option<CommitRecord>) -> (r: (
    Option<ObjectId>,
    ObjectId,
))
    ensures
        r.1@ == commit@.tree,
        match *parent {
            Some(p) => r.0 is Some && r.0->Some_0@ == p@.tree,
            None => r.0 is None,
        },
{
    let old = match parent {
        Some(p) => Some(p.tree),
        None => None,
    };
    (old, commit.tree)
}

/// The differences that a comparison gave, as a mathematical value.
pub open spec fn deltas_view(read: Option<Vec<DeltaPaths>>) -> Option<Seq<DeltaPaths>> {
    match read {
        Some(deltas) => Some(deltas@),
        None => None,
    }
}

/// The changed paths of a commit, as a mathematical value.
pub open spec fn changes_view(r: Result<Vec<Vec<Vec<u8>>>, RepoError>) -> Result<
    Seq<Seq<Seq<u8>>>,
    RepoError,
> {
    match r {
        Ok(paths) => Ok(paths_view(paths@)),
        Err(e) => Err(e),
    }
}

/// The changed paths from what the comparison of two trees gave: the paths
/// of the differences, or `AttributionFailure` where the comparison
/// failed.
pub fn changes_from(read: Option<Vec<DeltaPaths>>) -> (r: Result<Vec<Vec<Vec<u8>>>, RepoError>)
    ensures
        changes_view(r) == changes_model(deltas_view(read)),
{
    match read {
        Some(deltas) => Ok(changed_paths(&deltas)),
        None => Err(RepoError::AttributionFailure),
    }
}

/// The first parent of a commit, as a mathematical value.
pub open spec fn parent_view(r: Result<Option<CommitRecord>, RepoError>) -> Result<
    Option<CommitModel>,
    RepoError,
> {
    match r {
        Ok(Some(p)) => Ok(Some(p@)),
        Ok(None) => Ok(None),
        Err(e) => Err(e),
    }
}

/// A result is the first parent of the commit for some answer of the
/// store.
pub open spec fn parent_holds(
    commit: CommitModel,
    outcome: Result<Option<CommitModel>, RepoError>,
) -> bool {
    exists|read: Option<CommitModel>| outcome == #[trigger] parent_model(commit, read)
}

/// A result is that of some comparison.
pub open spec fn changes_hold(outcome: Result<Seq<Seq<Seq<u8>>>, RepoError>) -> bool {
    exists|read: Option<Seq<DeltaPaths>>| outcome == #[trigger] changes_model(read)
}

/// A commit that was read, as a mathematical value.
pub open spec fn record_view(read: Option<CommitRecord>) -> Option<CommitModel> {
    match read {
        Some(p) => Some(p@),
        None => None,
    }
}

/// An entry without a commit among the attributions of a walk is one that
/// the walk leaves unaccounted for.
proof fn lemma_unaccounted(
    visits: Seq<VisitModel>,
    head: CommitModel,
    targets: Seq<Seq<Seq<u8>>>,
    found: Seq<Option<AttributionModel>>,
    index: int,
)
    requires
        found.len() == targets.len(),
        forall|i: int| 0 <= i < targets.len() ==> found[i] == attribute_over(visits, targets[i]),
        visits.len() > 0 ==> visits[0].commit == head,
        first_parent_chain(visits),
        0 <= index < found.len(),
        found[index] is None,
        forall|j: int| 0 <= j < index ==> (#[trigger] found[j]) is Some,
    ensures
        first_unaccounted(head, targets, index),
{
    assert(attribute_over(visits, targets[index]) is None);
    assert forall|j: int| 0 <= j < index implies attribute_over(visits, targets[j]) is Some by {
        assert(found[j] is Some);
    }
}

/// Reads a commit, if the store has it.
fn try_read_commit(repo: &git2::Repository, id: &ObjectId) -> (r: Option<CommitRecord>) {
    match find_commit(repo, id) {
        Ok(found) => Some(commit_record(&found)),
        Err(_) => None,
    }
}

/// Reads the first parent of a commit, if it has one. The result is
/// `parent_model` of what the store handed back.
fn read_parent(repo: &git2::Repository, commit: &CommitRecord) -> (r: Result<
    Option<CommitRecord>,
    RepoError,
>)
    ensures
        parent_holds(commit@, parent_view(r)),
{
    match first_parent(commit) {
        None => {
            assert(parent_view(Ok(None)) == parent_model(commit@, None));
            Ok(None)
        },
        Some(asked) => {
            let read = try_read_commit(repo, &asked);
            let ghost read_model = record_view(read);
            match accept_parent(&asked, read) {
                Ok(p) => {
                    assert(parent_view(Ok(Some(p))) == parent_model(commit@, read_model));
                    Ok(Some(p))
                },
                Err(e) => {
                    assert(parent_view(Err(e)) == parent_model(commit@, read_model));
                    Err(e)
                },
            }
        },
    }
}

/// The paths that differ between the tree of a commit and the tree of its
/// first parent, or the empty tree where it has no parent. Which trees are
/// compared is `diff_sides` of the arguments; the result is
/// `changes_model` of what the comparison gave.
fn changes_against(
    repo: &git2::Repository,
    commit: &CommitRecord,
    parent: &Option<CommitRecord>,
) -> (r: Result<Vec<Vec<Vec<u8>>>, RepoError>)
    ensures
        changes_hold(changes_view(r)),
        r is Err ==> r->Err_0 == RepoError::AttributionFailure,
{
    let (old, new) = diff_sides(commit, parent);
    let read = match diff_paths(repo, &old, &new) {
        Ok(deltas) => Some(deltas),
        Err(_) => None,
    };
    let ghost read_model = deltas_view(read);
    let r = changes_from(read);
    assert(changes_view(r) == changes_model(read_model));
    r
}

/// The entry that a walk could not account for: the first target, in
/// order, that was without a commit when the walk ended.
#[derive(Clone, Copy, Debug)]
pub struct Unaccounted {
    pub index: usize,
}

/// The result of a walk that names the entry it could not account for, as
/// the result of a walk.
pub open spec fn named_view(r: Result<Vec<Attribution>, Unaccounted>) -> Result<
    Seq<AttributionModel>,
    RepoError,
> {
    match r {
        Ok(list) => Ok(attributions_view(list@)),
        Err(_) => Err(RepoError::AttributionFailure),
    }
}

/// Target `index` is the first that some first-parent walk from `head`
/// leaves without a commit.
pub open spec fn first_unaccounted(
    head: CommitModel,
    targets: Seq<Seq<Seq<u8>>>,
    index: int,
) -> bool {
    exists|visits: Seq<VisitModel>|
        {
            &&& 0 <= index < targets.len()
            &&& visits.len() > 0 ==> visits[0].commit == head
            &&& first_parent_chain(visits)
            &&& #[trigger] attribute_over(visits, targets[index]) is None
            &&& forall|j: int| 0 <= j < index ==> attribute_over(visits, targets[j]) is Some
        }
}

/// The failure of a walk that stands at these attributions.
fn unaccounted_at(state: &Attributor) -> (r: Unaccounted)
    ensures
        !complete_model(found_view(state.found@)) ==> r.index < state.found.len()
            && state.found@[r.index as int] is None && forall|j: int|
            0 <= j < r.index ==> state.found@[j] is Some,
{
    match state.first_missing() {
        Some(index) => Unaccounted { index },
        None => {
            assert forall|j: int| 0 <= j < state.found.len() implies (#[trigger] found_view(
                state.found@,
            )[j]) is Some by {
                assert(state.found@[j] is Some);
            }
            Unaccounted { index: 0 }
        },
    }
}

/// Attributes every target in one walk along the first-parent line from
/// `head`, newest commit first. The walk stops once every target has its
/// commit, or when a commit without a parent has been visited; it never
/// visits more than `usize::MAX` commits.
///
/// The result is `walk_result` of what the store handed back, commit by
/// commit. On success it is also what `walk_outcome` states of the
/// commits visited. Whatever the store does, the only error is
/// `AttributionFailure`; with no target there is nothing to read and the
/// result is the empty list.
pub fn attribute(repo: &git2::Repository, head: CommitRecord, targets: Vec<Vec<Vec<u8>>>) -> (r:
    Result<Vec<Attribution>, RepoError>)
    ensures
        walk_holds(head@, paths_view(targets@), outcome_view(r)),
        match r {
            Ok(list) => exists|visits: Seq<VisitModel>|
                walk_outcome(visits, head@, paths_view(targets@), attributions_view(list@)),
            Err(e) => e == RepoError::AttributionFailure,
        },
        targets.len() == 0 ==> r is Ok,
{
    match attribute_named(repo, head, targets) {
        Ok(list) => Ok(list),
        Err(_) => Err(RepoError::AttributionFailure),
    }
}

/// The walk of `attribute`, which on failure names the first target that
/// it left without a commit.
pub fn attribute_named(repo: &git2::Repository, head: CommitRecord, targets: Vec<Vec<Vec<u8>>>) -> (r:
    Result<Vec<Attribution>, Unaccounted>)
    ensures
        walk_holds(head@, paths_view(targets@), named_view(r)),
        r is Ok ==> exists|visits: Seq<VisitModel>|
            walk_outcome(visits, head@, paths_view(targets@), attributions_view(r->Ok_0@)),
        r is Err ==> first_unaccounted(head@, paths_view(targets@), r->Err_0.index as int),
        targets.len() == 0 ==> r is Ok,
{
    let ghost wanted = paths_view(targets@);
    let ghost start = head@;
    let mut state = Attributor::new(targets);
    let ghost initial = found_view(state.found@);
    assert(initial =~= unknown(wanted.len()));
    let mut current = head;
    let ghost mut visits: Seq<VisitModel> = Seq::empty();
    let ghost mut consumed: Seq<WalkRead> = Seq::empty();
    let mut go_on = !state.is_complete();
    let mut fuel: usize = usize::MAX;
    proof {
        lemma_walk_start(start, initial, wanted);
    }
    while go_on && fuel > 0
        invariant
            state.wf(),
            paths_view(state.targets@) == wanted,
            state.found.len() == wanted.len(),
            initial == unknown(wanted.len()),
            start == head@,
            forall|i: int|
                0 <= i < wanted.len() ==> found_view(state.found@)[i] == attribute_over(
                    visits,
                    wanted[i],
                ),
            first_parent_chain(visits),
            wanted == paths_view(targets@),
            wanted.len() == 0 ==> !go_on,
            visits.len() > 0 ==> visits[0].commit == start,
            go_on && visits.len() == 0 ==> current@ == start,
            go_on && visits.len() > 0 ==> visits.last().commit.parents.len() > 0 && current@.id
                == visits.last().commit.parents[0],
            go_on ==> !complete_model(found_view(state.found@)),
            go_on ==> walked(
                consumed,
                start,
                initial,
                wanted,
                current@,
                found_view(state.found@),
            ),
            !go_on ==> walk_result(consumed, start, initial, wanted) == finish_model(
                found_view(state.found@),
            ),
        decreases fuel,
    {
        fuel -= 1;
        let ghost here = current@;
        let ghost seen = found_view(state.found@);
        let ghost before = visits;
        let ghost reads = consumed;
        let parent_read = read_parent(repo, &current);
        let ghost asked = choose|read: Option<CommitModel>|
            parent_view(parent_read) == #[trigger] parent_model(here, read);
        let parent = match parent_read {
            Ok(p) => p,
            Err(e) => {
                let failure = unaccounted_at(&state);
                proof {
                    let read = WalkRead { parent: asked, deltas: None };
                    lemma_walk_done(reads, read, start, initial, wanted, here, seen, Err(e));
                    assert(named_view(Err(failure)) == walk_result(
                        reads.push(read),
                        start,
                        initial,
                        wanted,
                    ));
                    assert(walk_holds(start, wanted, named_view(Err(failure))));
                    lemma_unaccounted(before, start, wanted, seen, failure.index as int);
                }
                return Err(failure);
            },
        };
        let changes_read = changes_against(repo, &current, &parent);
        let ghost compared = choose|read: Option<Seq<DeltaPaths>>|
            changes_view(changes_read) == #[trigger] changes_model(read);
        let ghost read = WalkRead { parent: asked, deltas: compared };
        let changes = match changes_read {
            Ok(c) => c,
            Err(e) => {
                let failure = unaccounted_at(&state);
                proof {
                    lemma_walk_done(reads, read, start, initial, wanted, here, seen, Err(e));
                    assert(named_view(Err(failure)) == walk_result(
                        reads.push(read),
                        start,
                        initial,
                        wanted,
                    ));
                    assert(walk_holds(start, wanted, named_view(Err(failure))));
                    lemma_unaccounted(before, start, wanted, seen, failure.index as int);
                }
                return Err(failure);
            },
        };
        let ghost visit = VisitModel { commit: here, changes: paths_view(changes@) };
        state.observe(&current, &changes);
        let ghost after = found_view(state.found@);
        proof {
            lemma_observe_extends(seen, wanted, before, visit);
            lemma_chain_extends(before, visit);
            visits = before.push(visit);
            consumed = reads.push(read);
        }
        match state.next_commit(parent) {
            Some(p) => {
                proof {
                    lemma_walk_next(reads, read, start, initial, wanted, here, seen, p@, after);
                }
                current = p;
            },
            None => {
                proof {
                    lemma_walk_done(
                        reads,
                        read,
                        start,
                        initial,
                        wanted,
                        here,
                        seen,
                        finish_model(after),
                    );
                }
                go_on = false;
            },
        }
    }
    proof {
        if go_on {
            lemma_walk_stop(
                consumed,
                start,
                initial,
                wanted,
                current@,
                found_view(state.found@),
            );
        }
    }
    let ghost slots = found_view(state.found@);
    let failure = unaccounted_at(&state);
    let finished = state.finish();
    let r = match finished {
        Ok(list) => Ok(list),
        Err(_) => Err(failure),
    };
    proof {
        assert(named_view(r) == walk_result(consumed, start, initial, wanted));
        assert(walk_holds(start, wanted, named_view(r)));
        if r is Err {
            lemma_unaccounted(visits, start, wanted, slots, failure.index as int);
        }
        if r is Ok {
            let list = r->Ok_0;
            let found = attributions_view(list@);
            assert forall|i: int| 0 <= i < wanted.len() implies attribute_over(
                visits,
                wanted[i],
            ) == Some(#[trigger] found[i]) by {
                assert(found[i] == list@[i]@);
                assert(slots[i] == Some(list@[i]@));
                assert(slots[i] == attribute_over(visits, wanted[i]));
            }
            assert(walk_outcome(visits, start, wanted, found));
        }
    }
    r
}

/// The one attribution of a walk for a single target, if the walk found
/// it.
pub open spec fn single_model(outcome: Result<Seq<AttributionModel>, RepoError>) -> Option<
    AttributionModel,
> {
    match outcome {
        Ok(found) => if found.len() > 0 {
            Some(found.last())
        } else {
            None
        },
        Err(_) => None,
    }
}

/// An attribution as a mathematical value, if there is one.
pub open spec fn credit_view(r: Option<Attribution>) -> Option<AttributionModel> {
    match r {
        Some(a) => Some(a@),
        None => None,
    }
}

/// The one attribution of a walk for a single target.
pub fn single_attribution(outcome: Result<Vec<Attribution>, RepoError>) -> (r: Option<Attribution>)
    ensures
        credit_view(r) == single_model(outcome_view(outcome)),
{
    match outcome {
        Ok(mut list) => {
            let ghost all = attributions_view(list@);
            let last = list.pop();
            proof {
                if all.len() > 0 {
                    assert(credit_view(last) == Some(all.last()));
                }
            }
            last
        },
        Err(_) => None,
    }
}

/// A result is that of the walk from `head` for one target over some
/// reads.
pub open spec fn single_holds(
    head: CommitModel,
    target: Seq<Seq<u8>>,
    outcome: Option<AttributionModel>,
) -> bool {
    exists|reads: Seq<WalkRead>|
        outcome == single_model(
            #[trigger] walk_result(reads, head, unknown(1), seq![target]),
        )
}

/// The most recent commit on the first-parent line from `branch_commit`
/// that touches `path` or anything beneath it.
///
/// The result is that of the walk for this one path over what the store
/// handed back: the first commit of the walk that touches the path, and
/// `None` where the walk ended without one, at a commit without parent or
/// at a read that failed.
pub fn last_commit_for_path(repo: &git2::Repository, branch_commit: CommitRecord, path: &[u8]) -> (r:
    Option<Attribution>)
    ensures
        single_holds(branch_commit@, split_path(path@), credit_view(r)),
        r is Some ==> exists|visits: Seq<VisitModel>|
            {
                &&& visits.len() > 0 ==> visits[0].commit == branch_commit@
                &&& first_parent_chain(visits)
                &&& #[trigger] attribute_over(visits, split_path(path@)) == Some(r->Some_0@)
            },
{
    let mut targets: Vec<Vec<Vec<u8>>> = Vec::new();
    targets.push(split(path));
    let ghost wanted = paths_view(targets@);
    assert(wanted =~= seq![split_path(path@)]);
    let outcome = attribute(repo, branch_commit, targets);
    let ghost reads = choose|reads: Seq<WalkRead>|
        outcome_view(outcome) == #[trigger] walk_result(
            reads,
            branch_commit@,
            unknown(wanted.len()),
            wanted,
        );
    proof {
        if outcome is Ok {
            let found = attributions_view(outcome->Ok_0@);
            let visits = choose|visits: Seq<VisitModel>|
                walk_outcome(visits, branch_commit@, wanted, found);
            assert(attribute_over(visits, wanted[0]) == Some(found[0]));
            assert(found.len() == 1);
            assert(found.last() == found[0]);
        }
    }
    let r = single_attribution(outcome);
    assert(credit_view(r) == single_model(
        walk_result(reads, branch_commit@, unknown(1), seq![split_path(path@)]),
    ));
    r
}

} // verus!
