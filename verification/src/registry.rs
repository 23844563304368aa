//! The registry's store: the authority set, the tasks with their parameters and
//! tallies, and the settled outcomes.

use crate::copying::copy_slice;
use crate::identity::{id_le, id_lt, lemma_lt_irreflexive, AuthorityId, Signature, TaskId};
use crate::model::ModuleView;
use crate::sorting::{binary_search, is_lower_bound, sorted, strictly_sorted};
use crate::threshold::threshold;
use crate::types::{
    lemma_record_keeps_wf, Config, Error, Event, Origin, Status, Tally, TaskInfo, TaskInfoView,
    VerificationReceipt,
};
use vstd::prelude::*;

verus! {

/// The outcome of a settled task, kept until the block `expiration`.
#[derive(Clone, Copy, Debug, PartialEq, Eq)]
pub struct SettledTask {
    /// The block until which the outcome is kept.
    pub expiration: u64,
    /// The task that was settled.
    pub program_hash: TaskId,
    /// Whether the proof was found valid.
    pub passed: bool,
}

/// The registry. Tasks are kept in the order of their identities, each with its
/// parameters and, while votes are taken on it, its tally.
pub struct Module {
    config: Config,
    keys: Vec<AuthorityId>,
    ids: Vec<TaskId>,
    infos: Vec<TaskInfo>,
    statuses: Vec<Option<Status>>,
    settled: Vec<SettledTask>,
}

/// The place of `h` in `ids`.
spec fn position(ids: Seq<TaskId>, h: TaskId) -> int {
    choose|i: int| 0 <= i < ids.len() && ids[i] == h
}

/// The tally that stands at place `i`, if one does.
spec fn tally_at(statuses: Seq<Option<Status>>, i: int) -> Tally {
    match statuses[i] {
        Some(status) => status@,
        None => Tally::empty(),
    }
}

/// The parameters of the tasks, by identity.
spec fn params_map(ids: Seq<TaskId>, infos: Seq<TaskInfo>) -> Map<TaskId, TaskInfoView> {
    Map::new(|h: TaskId| ids.contains(h), |h: TaskId| infos[position(ids, h)]@)
}

/// The tallies of the tasks on which votes are taken, by identity.
spec fn ongoing_map(ids: Seq<TaskId>, statuses: Seq<Option<Status>>) -> Map<
    TaskId,
    Tally,
> {
    Map::new(
        |h: TaskId| ids.contains(h) && statuses[position(ids, h)] is Some,
        |h: TaskId| tally_at(statuses, position(ids, h)),
    )
}

/// The key under which an outcome is kept.
spec fn settled_key(entry: SettledTask) -> (u64, TaskId) {
    (entry.expiration, entry.program_hash)
}

/// Whether an outcome is kept under `key`.
spec fn settled_has(settled: Seq<SettledTask>, key: (u64, TaskId)) -> bool {
    exists|i: int| 0 <= i < settled.len() && settled_key(#[trigger] settled[i]) == key
}

/// The place of the outcome kept under `key`.
spec fn settled_position(settled: Seq<SettledTask>, key: (u64, TaskId)) -> int {
    choose|i: int| 0 <= i < settled.len() && settled_key(#[trigger] settled[i]) == key
}

/// No two outcomes are kept under one key.
spec fn settled_unique(settled: Seq<SettledTask>) -> bool {
    forall|i: int, j: int|
        0 <= i < j < settled.len() ==> settled_key(#[trigger] settled[i]) != settled_key(
            #[trigger] settled[j],
        )
}

/// The settled outcomes, by key.
spec fn settled_map(settled: Seq<SettledTask>) -> Map<(u64, TaskId), bool> {
    Map::new(
        |key: (u64, TaskId)| settled_has(settled, key),
        |key: (u64, TaskId)| settled[settled_position(settled, key)].passed,
    )
}

/// In a strictly ascending list each identity has one place.
proof fn lemma_position(ids: Seq<TaskId>, i: int)
    requires
        strictly_sorted(ids),
        0 <= i < ids.len(),
    ensures
        ids.contains(ids[i]),
        position(ids, ids[i]) == i,
{
    let p = position(ids, ids[i]);
    if p < i {
        assert(id_lt(ids[p], ids[i]));
        lemma_lt_irreflexive(ids[i]);
    } else if i < p {
        assert(id_lt(ids[i], ids[p]));
        lemma_lt_irreflexive(ids[i]);
    }
}

/// A strictly ascending list is sorted.
proof fn lemma_strictly_sorted_is_sorted(ids: Seq<TaskId>)
    requires
        strictly_sorted(ids),
    ensures
        sorted(ids),
{
    assert forall|i: int, j: int| 0 <= i < j < ids.len() implies id_le(
        #[trigger] ids[i],
        #[trigger] ids[j],
    ) by {
        assert(id_lt(ids[i], ids[j]));
    }
}

/// Putting a new identity in at its lower bound keeps the list strictly ascending.
proof fn lemma_insert_keeps_strict(ids: Seq<TaskId>, h: TaskId, pos: int)
    requires
        strictly_sorted(ids),
        is_lower_bound(ids, h, pos),
        !ids.contains(h),
    ensures
        strictly_sorted(ids.insert(pos, h)),
{
    let t = ids.insert(pos, h);
    assert forall|i: int, j: int| 0 <= i < j < t.len() implies id_lt(
        #[trigger] t[i],
        #[trigger] t[j],
    ) by {
        if j < pos {
            assert(id_lt(ids[i], ids[j]));
        } else if j == pos {
            assert(id_lt(ids[i], h));
        } else if i < pos {
            assert(id_lt(ids[i], h));
            assert(id_le(h, ids[j - 1]));
            crate::identity::lemma_lt_le_transitive(ids[i], h, ids[j - 1]);
        } else if i == pos {
            assert(id_le(h, ids[j - 1]));
            assert(ids.contains(ids[j - 1]));
        } else {
            assert(id_lt(ids[i - 1], ids[j - 1]));
        }
    }
}

/// What the maps hold after a new task was put in at place `pos`.
proof fn lemma_maps_after_insert(
    ids: Seq<TaskId>,
    infos: Seq<TaskInfo>,
    statuses: Seq<Option<Status>>,
    pos: int,
    h: TaskId,
    info: TaskInfo,
    status: Status,
)
    requires
        strictly_sorted(ids),
        ids.len() == infos.len(),
        ids.len() == statuses.len(),
        is_lower_bound(ids, h, pos),
        !ids.contains(h),
    ensures
        params_map(ids.insert(pos, h), infos.insert(pos, info)) == params_map(ids, infos).insert(
            h,
            info@,
        ),
        ongoing_map(ids.insert(pos, h), statuses.insert(pos, Some(status))) == ongoing_map(
            ids,
            statuses,
        ).insert(h, status@),
{
    let ids2 = ids.insert(pos, h);
    let infos2 = infos.insert(pos, info);
    let statuses2 = statuses.insert(pos, Some(status));
    lemma_insert_keeps_strict(ids, h, pos);
    assert forall|k: TaskId| ids2.contains(k) <==> (k == h || ids.contains(k)) by {
        if ids2.contains(k) {
            let j = choose|j: int| 0 <= j < ids2.len() && ids2[j] == k;
            if j < pos {
                assert(ids[j] == k);
            } else if j > pos {
                assert(ids[j - 1] == k);
            }
        }
        if k == h {
            assert(ids2[pos] == k);
        } else if ids.contains(k) {
            let i = choose|i: int| 0 <= i < ids.len() && ids[i] == k;
            let j = if i < pos {
                i
            } else {
                i + 1
            };
            assert(ids2[j] == k);
        }
    }
    assert forall|k: TaskId| ids.contains(k) && k != h implies {
        let i = position(ids, k);
        let j = position(ids2, k);
        &&& infos2[j] == infos[i]
        &&& statuses2[j] == statuses[i]
    } by {
        let i = position(ids, k);
        let j = if i < pos {
            i
        } else {
            i + 1
        };
        assert(ids2[j] == k);
        lemma_position(ids2, j);
    }
    lemma_position(ids2, pos);
    assert(params_map(ids2, infos2) =~= params_map(ids, infos).insert(h, info@));
    assert(ongoing_map(ids2, statuses2) =~= ongoing_map(ids, statuses).insert(h, status@));
}

/// What the tallies hold after the one at place `i` was replaced or taken away.
proof fn lemma_ongoing_after_update(
    ids: Seq<TaskId>,
    statuses: Seq<Option<Status>>,
    i: int,
    status: Option<Status>,
)
    requires
        strictly_sorted(ids),
        ids.len() == statuses.len(),
        0 <= i < ids.len(),
    ensures
        ongoing_map(ids, statuses.update(i, status)) == (match status {
            Some(s) => ongoing_map(ids, statuses).insert(ids[i], s@),
            None => ongoing_map(ids, statuses).remove(ids[i]),
        }),
{
    let statuses2 = statuses.update(i, status);
    lemma_position(ids, i);
    assert forall|k: TaskId| ids.contains(k) && k != ids[i] implies position(ids, k) != i by {}
    match status {
        Some(s) => {
            assert(ongoing_map(ids, statuses2) =~= ongoing_map(ids, statuses).insert(ids[i], s@));
        },
        None => {
            assert(ongoing_map(ids, statuses2) =~= ongoing_map(ids, statuses).remove(ids[i]));
        },
    }
}

/// What the settled outcomes hold after one was added under a new key.
proof fn lemma_settled_after_push(settled: Seq<SettledTask>, entry: SettledTask)
    requires
        settled_unique(settled),
        !settled_has(settled, settled_key(entry)),
    ensures
        settled_unique(settled.push(entry)),
        settled_map(settled.push(entry)) == settled_map(settled).insert(
            settled_key(entry),
            entry.passed,
        ),
{
    let after = settled.push(entry);
    let n = settled.len() as int;
    assert forall|i: int, j: int| 0 <= i < j < after.len() implies settled_key(
        #[trigger] after[i],
    ) != settled_key(#[trigger] after[j]) by {
        if j < n {
            assert(settled_key(settled[i]) != settled_key(settled[j]));
        } else {
            assert(after[i] == settled[i]);
        }
    }
    assert forall|key: (u64, TaskId)|
        settled_has(after, key) <==> (key == settled_key(entry) || settled_has(
            settled,
            key,
        )) by {
        if settled_has(after, key) {
            let j = choose|j: int| 0 <= j < after.len() && settled_key(#[trigger] after[j]) == key;
            if j < n {
                assert(settled_key(settled[j]) == key);
            }
        }
        if key == settled_key(entry) {
            assert(settled_key(after[n]) == key);
        } else if settled_has(settled, key) {
            let j = choose|j: int|
                0 <= j < settled.len() && settled_key(#[trigger] settled[j]) == key;
            assert(settled_key(after[j]) == key);
        }
    }
    assert forall|key: (u64, TaskId)| settled_has(after, key) implies after[settled_position(
        after,
        key,
    )].passed == (if key == settled_key(entry) {
        entry.passed
    } else {
        settled[settled_position(settled, key)].passed
    }) by {
        let j = settled_position(after, key);
        if key == settled_key(entry) {
            if j < n {
                assert(settled_key(settled[j]) == key);
            }
        } else {
            let i = settled_position(settled, key);
            assert(settled_key(after[i]) == key);
            if i < j {
                assert(settled_key(after[i]) != settled_key(after[j]));
            } else if j < i {
                assert(settled_key(after[j]) != settled_key(after[i]));
            }
        }
    }
    assert(settled_map(after) =~= settled_map(settled).insert(settled_key(entry), entry.passed));
}

/// What the settled outcomes hold after the one at place `i` was overwritten.
proof fn lemma_settled_after_update(settled: Seq<SettledTask>, i: int, entry: SettledTask)
    requires
        settled_unique(settled),
        0 <= i < settled.len(),
        settled_key(settled[i]) == settled_key(entry),
    ensures
        settled_unique(settled.update(i, entry)),
        settled_map(settled.update(i, entry)) == settled_map(settled).insert(
            settled_key(entry),
            entry.passed,
        ),
{
    let after = settled.update(i, entry);
    assert forall|a: int, b: int| 0 <= a < b < after.len() implies settled_key(
        #[trigger] after[a],
    ) != settled_key(#[trigger] after[b]) by {
        assert(settled_key(settled[a]) != settled_key(settled[b]));
    }
    assert forall|key: (u64, TaskId)| settled_has(after, key) <==> settled_has(settled, key) by {
        if settled_has(after, key) {
            let j = choose|j: int| 0 <= j < after.len() && settled_key(#[trigger] after[j]) == key;
            assert(settled_key(settled[j]) == key);
        }
        if settled_has(settled, key) {
            let j = choose|j: int|
                0 <= j < settled.len() && settled_key(#[trigger] settled[j]) == key;
            assert(settled_key(after[j]) == key);
        }
    }
    assert(settled_key(settled[i]) == settled_key(entry));
    assert(settled_has(settled, settled_key(entry)));
    assert forall|key: (u64, TaskId)| settled_has(after, key) implies after[settled_position(
        after,
        key,
    )].passed == (if key == settled_key(entry) {
        entry.passed
    } else {
        settled[settled_position(settled, key)].passed
    }) by {
        let j = settled_position(after, key);
        if key == settled_key(entry) {
            if j < i {
                assert(settled_key(after[j]) != settled_key(after[i]));
            } else if i < j {
                assert(settled_key(after[i]) != settled_key(after[j]));
            }
        } else {
            let p = settled_position(settled, key);
            assert(settled_key(after[p]) == key);
            if p < j {
                assert(settled_key(after[p]) != settled_key(after[j]));
            } else if j < p {
                assert(settled_key(after[j]) != settled_key(after[p]));
            }
        }
    }
    assert(settled_map(after) =~= settled_map(settled).insert(settled_key(entry), entry.passed));
}

impl View for Module {
    type V = ModuleView;

    closed spec fn view(&self) -> ModuleView {
        ModuleView {
            config: self.config,
            keys: self.keys@,
            task_params: params_map(self.ids@, self.infos@),
            ongoing: ongoing_map(self.ids@, self.statuses@),
            settled: settled_map(self.settled@),
        }
    }
}

impl Module {
    /// The store is laid out as it must be: one entry of parameters and one of
    /// status for each task, the tasks in strictly ascending order of their
    /// identities, and no two outcomes under one key.
    pub closed spec fn laid_out(&self) -> bool {
        &&& self.ids@.len() == self.infos@.len()
        &&& self.ids@.len() == self.statuses@.len()
        &&& strictly_sorted(self.ids@)
        &&& settled_unique(self.settled@)
    }

    /// The registry is well formed: its store is laid out as it must be, and
    /// what it holds is well formed.
    pub open spec fn wf(&self) -> bool {
        self.laid_out() && self@.wf()
    }

    /// A registry without authorities and without tasks.
    pub fn new(config: Config) -> (module: Module)
        ensures
            module.wf(),
            module@ == ModuleView::empty(config),
    {
        let module = Module {
            config,
            keys: Vec::new(),
            ids: Vec::new(),
            infos: Vec::new(),
            statuses: Vec::new(),
            settled: Vec::new(),
        };
        proof {
            assert(module@.task_params =~= Map::empty());
            assert(module@.ongoing =~= Map::empty());
            assert(module@.settled =~= Map::empty());
            assert(module@.keys =~= Seq::empty());
        }
        module
    }

    /// The settings that the registry was made with.
    pub fn config(&self) -> (config: Config)
        ensures
            config == self@.config,
    {
        self.config
    }

    /// The current set of keys that may vote, in their order.
    pub fn keys(&self) -> (keys: &Vec<AuthorityId>)
        ensures
            keys@ == self@.keys,
    {
        &self.keys
    }

    /// The parameters of a task, if it was ever registered.
    pub fn task_params(&self, program_hash: &TaskId) -> (info: Option<&TaskInfo>)
        requires
            self.wf(),
        ensures
            info is Some <==> self@.task_params.contains_key(*program_hash),
            info matches Some(found) ==> found@ == self@.task_params[*program_hash],
    {
        proof {
            lemma_strictly_sorted_is_sorted(self.ids@);
        }
        match binary_search(&self.ids, program_hash) {
            Ok(i) => {
                proof {
                    lemma_position(self.ids@, i as int);
                }
                Some(&self.infos[i])
            },
            Err(_) => None,
        }
    }

    /// The tally of a task, if votes are being taken on it.
    pub fn ongoing_tasks(&self, program_hash: &TaskId) -> (status: Option<&Status>)
        requires
            self.wf(),
        ensures
            status is Some <==> self@.ongoing.contains_key(*program_hash),
            status matches Some(found) ==> found@ == self@.ongoing[*program_hash],
    {
        proof {
            lemma_strictly_sorted_is_sorted(self.ids@);
        }
        match binary_search(&self.ids, program_hash) {
            Ok(i) => {
                proof {
                    lemma_position(self.ids@, i as int);
                }
                self.statuses[i].as_ref()
            },
            Err(_) => None,
        }
    }

    /// The outcome kept until `expiration` for a task, if there is one.
    pub fn settled_tasks(&self, expiration: u64, program_hash: &TaskId) -> (outcome: Option<bool>)
        requires
            self.wf(),
        ensures
            outcome is Some <==> self@.settled.contains_key((expiration, *program_hash)),
            outcome matches Some(passed) ==> passed == self@.settled[(expiration, *program_hash)],
    {
        match self.find_settled(expiration, program_hash) {
            Some(i) => Some(self.settled[i].passed),
            None => None,
        }
    }

    /// The place of the outcome kept under a key, if there is one.
    fn find_settled(&self, expiration: u64, program_hash: &TaskId) -> (place: Option<
        usize,
    >)
        requires
            settled_unique(self.settled@),
        ensures
            place is Some <==> settled_has(self.settled@, (expiration, *program_hash)),
            place matches Some(i) ==> i < self.settled@.len() && settled_key(self.settled@[i as int])
                == (expiration, *program_hash) && settled_position(
                self.settled@,
                (expiration, *program_hash),
            ) == i,
    {
        let ghost key = (expiration, *program_hash);
        let mut i: usize = 0;
        while i < self.settled.len()
            invariant
                0 <= i <= self.settled.len(),
                key == (expiration, *program_hash),
                settled_unique(self.settled@),
                forall|j: int| 0 <= j < i ==> settled_key(#[trigger] self.settled@[j]) != key,
            decreases self.settled.len() - i,
        {
            if self.settled[i].expiration == expiration && crate::identity::id_eq(
                &self.settled[i].program_hash,
                program_hash,
            ) {
                proof {
                    let p = settled_position(self.settled@, key);
                    assert(settled_key(self.settled@[i as int]) == key);
                    if p < i {
                        assert(settled_key(self.settled@[p]) != settled_key(self.settled@[i as int]));
                    } else if i < p {
                        assert(settled_key(self.settled@[i as int]) != settled_key(self.settled@[p]));
                    }
                }
                return Some(i);
            }
            i += 1;
        }
        None
    }

    /// Whether a task with this identity was ever registered.
    pub fn task_exists(&self, program_hash: &TaskId) -> (exists: bool)
        requires
            self.wf(),
        ensures
            exists == self@.task_exists(*program_hash),
    {
        proof {
            lemma_strictly_sorted_is_sorted(self.ids@);
        }
        binary_search(&self.ids, program_hash).is_ok()
    }

    /// The size of the current authority set.
    pub fn authority_len(&self) -> (len: u32)
        requires
            self.wf(),
        ensures
            len == self@.keys.len(),
    {
        self.keys.len() as u32
    }
}

/// Whether `h` stands before place `upto` with a tally.
spec fn voted_on_before(
    ids: Seq<TaskId>,
    statuses: Seq<Option<Status>>,
    upto: int,
    h: TaskId,
) -> bool {
    exists|j: int| 0 <= j < upto && #[trigger] ids[j] == h && statuses[j] is Some
}

/// The keys of a list of validators, in the list's order.
pub open spec fn keys_of(validators: Seq<([u8; 32], AuthorityId)>) -> Seq<AuthorityId> {
    validators.map_values(|v: ([u8; 32], AuthorityId)| v.1)
}

/// Takes the key of each validator of a list.
pub fn validator_keys(validators: &Vec<([u8; 32], AuthorityId)>) -> (keys: Vec<AuthorityId>)
    ensures
        keys@ == keys_of(validators@),
{
    let mut keys: Vec<AuthorityId> = Vec::new();
    let mut i: usize = 0;
    while i < validators.len()
        invariant
            0 <= i <= validators.len(),
            keys@ == keys_of(validators@).take(i as int),
        decreases validators.len() - i,
    {
        keys.push(validators[i].1);
        proof {
            assert(keys_of(validators@).take(i + 1) =~= keys_of(validators@).take(i as int).push(
                validators@[i as int].1,
            ));
        }
        i += 1;
    }
    proof {
        assert(keys_of(validators@).take(validators.len() as int) =~= keys_of(validators@));
    }
    keys
}

impl Module {
    /// Registers a task. Only a signed call can; a task that was ever
    /// registered under this identity stands in the way. The new task has its
    /// parameters stored and an empty tally opened, and is announced.
    pub fn create_task(
        &mut self,
        origin: Origin,
        program_hash: TaskId,
        inputs: Vec<u128>,
        outputs: Vec<u128>,
        proof_id: Vec<u8>,
    ) -> (res: Result<Event, Error>)
        requires
            old(self).wf(),
        ensures
            final(self).wf(),
            match res {
                Ok(event) => {
                    &&& old(self)@.creation_refusal(origin, program_hash) is None
                    &&& event == Event::TaskCreated(program_hash)
                    &&& final(self)@ == old(self)@.create_task(
                        program_hash,
                        TaskInfoView { proof_id: proof_id@, inputs: inputs@, outputs: outputs@ },
                    )
                },
                Err(e) => {
                    &&& old(self)@.creation_refusal(origin, program_hash) == Some(e)
                    &&& final(self)@ == old(self)@
                },
            },
    {
        match origin {
            Origin::Signed(_) => {},
            _ => {
                return Err(Error::BadOrigin);
            },
        }
        proof {
            lemma_strictly_sorted_is_sorted(self.ids@);
        }
        match binary_search(&self.ids, &program_hash) {
            Ok(_) => Err(Error::TaskAlreadyExists),
            Err(pos) => {
                let info = TaskInfo { proof_id, inputs, outputs };
                let status = Status::default();
                proof {
                    lemma_insert_keeps_strict(self.ids@, program_hash, pos as int);
                    lemma_maps_after_insert(
                        self.ids@,
                        self.infos@,
                        self.statuses@,
                        pos as int,
                        program_hash,
                        info,
                        status,
                    );
                }
                self.ids.insert(pos, program_hash);
                self.infos.insert(pos, info);
                self.statuses.insert(pos, Some(status));
                proof {
                    assert(self@ =~= old(self)@.create_task(program_hash, info@));
                }
                Ok(Event::TaskCreated(program_hash))
            },
        }
    }

    /// Keeps an outcome under its key, in place of what was kept there.
    fn insert_settled(&mut self, entry: SettledTask)
        requires
            settled_unique(old(self).settled@),
        ensures
            settled_unique(final(self).settled@),
            settled_map(final(self).settled@) == settled_map(old(self).settled@).insert(
                settled_key(entry),
                entry.passed,
            ),
            final(self).config == old(self).config,
            final(self).keys == old(self).keys,
            final(self).ids == old(self).ids,
            final(self).infos == old(self).infos,
            final(self).statuses == old(self).statuses,
    {
        match self.find_settled(entry.expiration, &entry.program_hash) {
            Some(i) => {
                proof {
                    lemma_settled_after_update(self.settled@, i as int, entry);
                }
                self.settled[i] = entry;
            },
            None => {
                proof {
                    lemma_settled_after_push(self.settled@, entry);
                }
                self.settled.push(entry);
            },
        }
    }

    /// Counts one vote. Only an unsigned call can bring one; votes must be
    /// under way on the task, and the voter must not have voted on it before.
    /// The vote is added to the task's tally. Once more ayes, or more nays, than
    /// the threshold have come in, the task leaves the tasks voted on, and its
    /// outcome is kept until `store_period` blocks after the vote was made.
    pub fn submit_verification(
        &mut self,
        origin: Origin,
        receipt: VerificationReceipt,
        _signature: Signature,
    ) -> (res: Result<(), Error>)
        requires
            old(self).wf(),
            old(self)@.expiration(receipt) <= u64::MAX,
        ensures
            final(self).wf(),
            match res {
                Ok(()) => {
                    &&& old(self)@.vote_refusal(origin, receipt) is None
                    &&& final(self)@ == old(self)@.apply_vote(receipt)
                },
                Err(e) => {
                    &&& old(self)@.vote_refusal(origin, receipt) == Some(e)
                    &&& final(self)@ == old(self)@
                },
            },
    {
        match origin {
            Origin::Unsigned => {},
            _ => {
                return Err(Error::BadOrigin);
            },
        }
        proof {
            lemma_strictly_sorted_is_sorted(self.ids@);
        }
        let i = match binary_search(&self.ids, &receipt.program_hash) {
            Ok(i) => i,
            Err(_) => {
                return Err(Error::TaskNotExists);
            },
        };
        proof {
            lemma_position(self.ids@, i as int);
        }
        match &self.statuses[i] {
            None => {
                return Err(Error::TaskNotExists);
            },
            Some(status) => {
                if status.has_voted(receipt.auth_index) {
                    return Err(Error::DuplicatedSubmission);
                }
            },
        }
        let threshold = threshold(self.authority_len());
        let taken = self.statuses.remove(i);
        let mut status = taken.unwrap();
        let ghost before = status@;
        assert(before == old(self)@.ongoing[receipt.program_hash]);
        assert(old(self)@.ongoing.contains_key(receipt.program_hash));
        status.record(receipt.auth_index, receipt.passed);
        proof {
            lemma_record_keeps_wf(before, receipt.auth_index, receipt.passed);
        }
        let expiration = receipt.submit_at + self.config.store_period;
        match status.outcome(threshold) {
            Some(passed) => {
                self.statuses.insert(i, None);
                proof {
                    assert(self.statuses@ =~= old(self).statuses@.update(i as int, None));
                    lemma_ongoing_after_update(self.ids@, old(self).statuses@, i as int, None);
                }
                self.insert_settled(
                    SettledTask { expiration, program_hash: receipt.program_hash, passed },
                );
            },
            None => {
                proof {
                    lemma_ongoing_after_update(
                        self.ids@,
                        old(self).statuses@,
                        i as int,
                        Some(status),
                    );
                }
                self.statuses.insert(i, Some(status));
                proof {
                    assert(self.statuses@ =~= old(self).statuses@.update(i as int, Some(status)));
                }
            },
        }
        proof {
            assert(self@ =~= old(self)@.apply_vote(receipt));
        }
        Ok(())
    }

    /// Sets the authorities at genesis. An empty list changes nothing. The set
    /// must not hold any authority yet when a list with members comes.
    pub fn initialize_keys(&mut self, keys: &[AuthorityId])
        requires
            old(self).wf(),
            keys@.len() <= u32::MAX,
            keys@.len() == 0 || old(self)@.keys.len() == 0,
        ensures
            final(self).wf(),
            final(self)@ == (if keys@.len() == 0 {
                old(self)@
            } else {
                old(self)@.with_keys(keys@)
            }),
    {
        if keys.len() != 0 {
            let copy = copy_slice(keys);
            self.set_keys(copy);
        }
    }

    /// Replaces the authorities by `keys`.
    pub fn set_keys(&mut self, keys: Vec<AuthorityId>)
        requires
            old(self).wf(),
            keys@.len() <= u32::MAX,
        ensures
            final(self).wf(),
            final(self)@ == old(self)@.with_keys(keys@),
    {
        self.keys = keys;
        proof {
            assert(self@.ongoing == old(self)@.ongoing);
            assert(self@.task_params == old(self)@.task_params);
        }
    }

    /// Takes the authorities of the first session from its validators.
    pub fn on_genesis_session(&mut self, validators: &Vec<([u8; 32], AuthorityId)>)
        requires
            old(self).wf(),
            validators@.len() <= u32::MAX,
            validators@.len() == 0 || old(self)@.keys.len() == 0,
        ensures
            final(self).wf(),
            final(self)@ == (if validators@.len() == 0 {
                old(self)@
            } else {
                old(self)@.with_keys(keys_of(validators@))
            }),
    {
        let keys = validator_keys(validators);
        self.initialize_keys(keys.as_slice());
    }

    /// Takes the authorities of a new session from its validators: the whole
    /// set is replaced, and no position of the old set carries over.
    pub fn on_new_session(
        &mut self,
        _changed: bool,
        validators: &Vec<([u8; 32], AuthorityId)>,
        _queued_validators: &Vec<([u8; 32], AuthorityId)>,
    )
        requires
            old(self).wf(),
            validators@.len() <= u32::MAX,
        ensures
            final(self).wf(),
            final(self)@ == old(self)@.with_keys(keys_of(validators@)),
    {
        let keys = validator_keys(validators);
        self.set_keys(keys);
    }

    /// A disabled validator keeps its place: nothing changes.
    pub fn on_disabled(&mut self, _i: usize)
        ensures
            *final(self) == *old(self),
    {
    }

    /// The identities of the tasks on which votes are taken, in ascending order.
    pub fn ongoing_ids(&self) -> (ids: Vec<TaskId>)
        requires
            self.wf(),
        ensures
            strictly_sorted(ids@),
            forall|h: TaskId| ids@.contains(h) <==> self@.ongoing.contains_key(h),
    {
        let mut out: Vec<TaskId> = Vec::new();
        let mut i: usize = 0;
        while i < self.ids.len()
            invariant
                0 <= i <= self.ids.len(),
                self.laid_out(),
                strictly_sorted(out@),
                forall|m: int|
                    0 <= m < out@.len() ==> voted_on_before(
                        self.ids@,
                        self.statuses@,
                        i as int,
                        #[trigger] out@[m],
                    ),
                forall|j: int|
                    0 <= j < i && self.statuses@[j] is Some ==> out@.contains(
                        #[trigger] self.ids@[j],
                    ),
            decreases self.ids.len() - i,
        {
            let ghost before = out@;
            if self.statuses[i].is_some() {
                let h = self.ids[i];
                out.push(h);
                proof {
                    assert forall|a: int, b: int| 0 <= a < b < out@.len() implies id_lt(
                        #[trigger] out@[a],
                        #[trigger] out@[b],
                    ) by {
                        if b < before.len() {
                            assert(id_lt(before[a], before[b]));
                        } else {
                            assert(voted_on_before(
                                self.ids@,
                                self.statuses@,
                                i as int,
                                before[a],
                            ));
                            let j = choose|j: int|
                                0 <= j < i && #[trigger] self.ids@[j] == before[a]
                                    && self.statuses@[j] is Some;
                            assert(id_lt(self.ids@[j], self.ids@[i as int]));
                        }
                    }
                    assert forall|j: int|
                        0 <= j < i + 1 && self.statuses@[j] is Some implies out@.contains(
                        #[trigger] self.ids@[j],
                    ) by {
                        if j < i {
                            let m = choose|m: int|
                                0 <= m < before.len() && before[m] == self.ids@[j];
                            assert(out@[m] == self.ids@[j]);
                        } else {
                            assert(out@[before.len() as int] == self.ids@[j]);
                        }
                    }
                }
            }
            proof {
                assert forall|m: int| 0 <= m < out@.len() implies voted_on_before(
                    self.ids@,
                    self.statuses@,
                    i + 1,
                    #[trigger] out@[m],
                ) by {
                    if m < before.len() {
                        assert(voted_on_before(self.ids@, self.statuses@, i as int, before[m]));
                        let j = choose|j: int|
                            0 <= j < i && #[trigger] self.ids@[j] == before[m]
                                && self.statuses@[j] is Some;
                        assert(self.ids@[j] == out@[m]);
                    } else {
                        assert(self.ids@[i as int] == out@[m]);
                    }
                }
            }
            i += 1;
        }
        proof {
            assert forall|h: TaskId| out@.contains(h) <==> self@.ongoing.contains_key(h) by {
                if out@.contains(h) {
                    let m = choose|m: int| 0 <= m < out@.len() && out@[m] == h;
                    assert(voted_on_before(self.ids@, self.statuses@, i as int, out@[m]));
                    let j = choose|j: int|
                        0 <= j < i && #[trigger] self.ids@[j] == out@[m]
                            && self.statuses@[j] is Some;
                    lemma_position(self.ids@, j);
                }
                if self@.ongoing.contains_key(h) {
                    let j = position(self.ids@, h);
                    assert(self.ids@[j] == h);
                }
            }
        }
        out
    }
}

} // verus!
