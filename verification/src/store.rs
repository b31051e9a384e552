//! The run store: the rows of runs and items, the four writes it accepts, and
//! the two reads that reports are made from.
//!
//! The store owns every status. It refuses a write that would break the data
//! model, so each state that a reader can see is well formed: identifiers are
//! unique, an item has a storage key exactly when it is `completed`, and no
//! `completed` run has a `pending` item.

use vstd::prelude::*;
use crate::capture::{Outcome, OutcomeView};
use crate::status::{ItemStatus, RunStatus};

verus! {

/// A run as stored.
#[derive(Clone, Copy, Debug, PartialEq, Eq, Structural)]
pub struct Run {
    pub id: u128,
    pub status: RunStatus,
    /// Logical creation time: the number of runs created before this one.
    pub created_at: usize,
}

pub struct RunView {
    pub id: u128,
    pub status: RunStatus,
    pub created_at: nat,
}

impl View for Run {
    type V = RunView;

    open spec fn view(&self) -> RunView {
        RunView { id: self.id, status: self.status, created_at: self.created_at as nat }
    }
}

/// An item as stored: one URL's capture attempt within one run.
#[derive(Clone, Debug, PartialEq, Eq)]
pub struct Item {
    pub id: u128,
    pub run_id: u128,
    pub url: String,
    pub storage_key: Option<String>,
    pub status: ItemStatus,
}

pub struct ItemView {
    pub id: u128,
    pub run_id: u128,
    pub url: Seq<char>,
    pub storage_key: Option<Seq<char>>,
    pub status: ItemStatus,
}

impl View for Item {
    type V = ItemView;

    open spec fn view(&self) -> ItemView {
        ItemView {
            id: self.id,
            run_id: self.run_id,
            url: self.url@,
            storage_key: match self.storage_key {
                Some(key) => Some(key@),
                None => None,
            },
            status: self.status,
        }
    }
}

impl ItemView {
    /// Key presence: the storage key is set exactly when the item is
    /// `completed`.
    pub open spec fn wf(self) -> bool {
        self.storage_key.is_some() <==> self.status == ItemStatus::Completed
    }

    /// The item as it is registered.
    pub open spec fn pending(id: u128, run_id: u128, url: Seq<char>) -> ItemView {
        ItemView { id, run_id, url, storage_key: None, status: ItemStatus::Pending }
    }

    /// The item after its capture attempt ended with `outcome`.
    pub open spec fn settled(self, outcome: OutcomeView) -> ItemView {
        ItemView { storage_key: outcome.storage_key(), status: outcome.status(), ..self }
    }
}

/// A write to the store.
#[derive(Clone, Debug, PartialEq, Eq)]
pub enum Write {
    /// Create the run `id`, `running`.
    InsertRun { id: u128 },
    /// Register the item `id` of run `run_id` for `url`, `pending`.
    InsertItem { id: u128, run_id: u128, url: String },
    /// Record how the capture attempt of item `id` ended.
    SettleItem { id: u128, outcome: Outcome },
    /// Mark the run `id` as `completed`.
    CompleteRun { id: u128 },
}

pub enum WriteView {
    InsertRun { id: u128 },
    InsertItem { id: u128, run_id: u128, url: Seq<char> },
    SettleItem { id: u128, outcome: OutcomeView },
    CompleteRun { id: u128 },
}

impl View for Write {
    type V = WriteView;

    open spec fn view(&self) -> WriteView {
        match self {
            Write::InsertRun { id } => WriteView::InsertRun { id: *id },
            Write::InsertItem { id, run_id, url } => WriteView::InsertItem {
                id: *id,
                run_id: *run_id,
                url: url@,
            },
            Write::SettleItem { id, outcome } => WriteView::SettleItem {
                id: *id,
                outcome: outcome@,
            },
            Write::CompleteRun { id } => WriteView::CompleteRun { id: *id },
        }
    }
}

/// Why the store refused a write.
#[derive(Clone, Copy, Debug, PartialEq, Eq, Structural)]
pub enum StoreError {
    /// A run with this identifier exists.
    DuplicateRun,
    /// An item with this identifier exists.
    DuplicateItem,
    /// No run has this identifier.
    UnknownRun,
    /// The run is `completed`: it takes no further item and is not completed
    /// a second time.
    RunCompleted,
    /// No item has this identifier.
    UnknownItem,
    /// The item is no longer `pending`: its one attempt is already recorded.
    ItemSettled,
    /// An item of the run is still `pending`.
    ItemsPending,
}

/// The rows of the store: runs in the order of their creation, items in the
/// order of their registration.
pub struct StoreState {
    pub runs: Seq<RunView>,
    pub items: Seq<ItemView>,
}

impl StoreState {
    pub open spec fn empty() -> StoreState {
        StoreState { runs: Seq::empty(), items: Seq::empty() }
    }

    pub open spec fn has_run(self, id: u128) -> bool {
        exists|i: int| 0 <= i < self.runs.len() && (#[trigger] self.runs[i]).id == id
    }

    /// The run `id` is at position `at`, and no run before it has this
    /// identifier.
    pub open spec fn first_run(self, id: u128, at: int) -> bool {
        &&& 0 <= at < self.runs.len()
        &&& self.runs[at].id == id
        &&& forall|j: int| 0 <= j < at ==> (#[trigger] self.runs[j]).id != id
    }

    /// The position of the run `id`, where there is one.
    pub open spec fn run_at(self, id: u128) -> int {
        choose|at: int| self.first_run(id, at)
    }

    pub open spec fn has_item(self, id: u128) -> bool {
        exists|i: int| 0 <= i < self.items.len() && (#[trigger] self.items[i]).id == id
    }

    /// The item `id` is at position `at`, and no item before it has this
    /// identifier.
    pub open spec fn first_item(self, id: u128, at: int) -> bool {
        &&& 0 <= at < self.items.len()
        &&& self.items[at].id == id
        &&& forall|j: int| 0 <= j < at ==> (#[trigger] self.items[j]).id != id
    }

    /// The position of the item `id`, where there is one.
    pub open spec fn item_at(self, id: u128) -> int {
        choose|at: int| self.first_item(id, at)
    }

    /// The status that the store shows for the run `id`, if it holds the run.
    pub open spec fn run_status(self, id: u128) -> Option<RunStatus> {
        if self.has_run(id) {
            Some(self.runs[self.run_at(id)].status)
        } else {
            None
        }
    }

    /// Some item of the run `run_id` is `pending`.
    pub open spec fn has_pending(self, run_id: u128) -> bool {
        exists|i: int|
            0 <= i < self.items.len() && (#[trigger] self.items[i]).run_id == run_id
                && self.items[i].status == ItemStatus::Pending
    }

    /// Run identifiers are unique and creation times count the runs.
    pub open spec fn runs_wf(self) -> bool {
        &&& forall|i: int, j: int|
            0 <= i < j < self.runs.len() ==> (#[trigger] self.runs[i]).id != (
            #[trigger] self.runs[j]).id
        &&& forall|i: int| 0 <= i < self.runs.len() ==> (#[trigger] self.runs[i]).created_at == i
    }

    /// Item identifiers are unique, every item belongs to a run of the store,
    /// and every item has a key exactly when it is `completed`.
    pub open spec fn items_wf(self) -> bool {
        &&& forall|i: int, j: int|
            0 <= i < j < self.items.len() ==> (#[trigger] self.items[i]).id != (
            #[trigger] self.items[j]).id
        &&& forall|i: int| 0 <= i < self.items.len() ==> (#[trigger] self.items[i]).wf()
        &&& forall|i: int|
            0 <= i < self.items.len() ==> self.has_run((#[trigger] self.items[i]).run_id)
    }

    /// No `completed` run has a `pending` item.
    pub open spec fn completed_runs_settled(self) -> bool {
        forall|r: int, i: int|
            0 <= r < self.runs.len() && 0 <= i < self.items.len() && (
            #[trigger] self.runs[r]).status == RunStatus::Completed && (
            #[trigger] self.items[i]).run_id == self.runs[r].id
                ==> self.items[i].status.terminal()
    }

    pub open spec fn wf(self) -> bool {
        &&& self.runs_wf()
        &&& self.items_wf()
        &&& self.completed_runs_settled()
    }

    /// Whether the store accepts `write`, and if not, why.
    pub open spec fn check(self, write: WriteView) -> Result<(), StoreError> {
        match write {
            WriteView::InsertRun { id } => {
                if self.has_run(id) {
                    Err(StoreError::DuplicateRun)
                } else {
                    Ok(())
                }
            },
            WriteView::InsertItem { id, run_id, url } => {
                if self.has_item(id) {
                    Err(StoreError::DuplicateItem)
                } else if !self.has_run(run_id) {
                    Err(StoreError::UnknownRun)
                } else if self.runs[self.run_at(run_id)].status == RunStatus::Completed {
                    Err(StoreError::RunCompleted)
                } else {
                    Ok(())
                }
            },
            WriteView::SettleItem { id, outcome } => {
                if !self.has_item(id) {
                    Err(StoreError::UnknownItem)
                } else if self.items[self.item_at(id)].status.terminal() {
                    Err(StoreError::ItemSettled)
                } else {
                    Ok(())
                }
            },
            WriteView::CompleteRun { id } => {
                if !self.has_run(id) {
                    Err(StoreError::UnknownRun)
                } else if self.runs[self.run_at(id)].status == RunStatus::Completed {
                    Err(StoreError::RunCompleted)
                } else if self.has_pending(id) {
                    Err(StoreError::ItemsPending)
                } else {
                    Ok(())
                }
            },
        }
    }

    /// The rows after `write`, where the store accepts it.
    pub open spec fn effect(self, write: WriteView) -> StoreState {
        match write {
            WriteView::InsertRun { id } => StoreState {
                runs: self.runs.push(
                    RunView { id, status: RunStatus::Running, created_at: self.runs.len() },
                ),
                ..self
            },
            WriteView::InsertItem { id, run_id, url } => StoreState {
                items: self.items.push(ItemView::pending(id, run_id, url)),
                ..self
            },
            WriteView::SettleItem { id, outcome } => StoreState {
                items: self.items.update(
                    self.item_at(id),
                    self.items[self.item_at(id)].settled(outcome),
                ),
                ..self
            },
            WriteView::CompleteRun { id } => StoreState {
                runs: self.runs.update(
                    self.run_at(id),
                    RunView { status: RunStatus::Completed, ..self.runs[self.run_at(id)] },
                ),
                ..self
            },
        }
    }

    /// The rows after `write`: a refused write changes nothing.
    pub open spec fn apply(self, write: WriteView) -> StoreState {
        if self.check(write) is Ok {
            self.effect(write)
        } else {
            self
        }
    }

    /// The rows after all of `writes`, in order.
    pub open spec fn apply_all(self, writes: Seq<WriteView>) -> StoreState
        decreases writes.len(),
    {
        if writes.len() == 0 {
            self
        } else {
            self.apply_all(writes.drop_last()).apply(writes.last())
        }
    }

    /// The report of all runs: the runs, newest first.
    pub open spec fn newest_first(self) -> Seq<RunView> {
        self.runs.reverse()
    }

    /// The report of one run: the items of the run `run_id`, in the order of
    /// their registration.
    pub open spec fn items_of(self, run_id: u128) -> Seq<ItemView> {
        self.items.filter(|item: ItemView| item.run_id == run_id)
    }
}

/// The first run with an identifier is where `run_at` says.
pub proof fn lemma_run_position(store: StoreState, id: u128, at: int)
    requires
        store.first_run(id, at),
    ensures
        store.has_run(id),
        store.run_at(id) == at,
{
    let chosen = store.run_at(id);
    assert(store.first_run(id, chosen));
    if chosen < at {
        assert(store.runs[chosen].id != id);
    } else if at < chosen {
        assert(store.runs[at].id != id);
    }
}

/// The first item with an identifier is where `item_at` says.
pub proof fn lemma_item_position(store: StoreState, id: u128, at: int)
    requires
        store.first_item(id, at),
    ensures
        store.has_item(id),
        store.item_at(id) == at,
{
    let chosen = store.item_at(id);
    assert(store.first_item(id, chosen));
    if chosen < at {
        assert(store.items[chosen].id != id);
    } else if at < chosen {
        assert(store.items[at].id != id);
    }
}

/// In a well-formed store a row is the first with its identifier.
pub proof fn lemma_rows_are_first(store: StoreState)
    requires
        store.wf(),
    ensures
        forall|at: int|
            0 <= at < store.runs.len() ==> store.first_run((#[trigger] store.runs[at]).id, at),
        forall|at: int|
            0 <= at < store.items.len() ==> store.first_item(
                (#[trigger] store.items[at]).id,
                at,
            ),
{
}

/// In a well-formed store `run_at` finds every run that is there, and
/// `item_at` every item.
pub proof fn lemma_rows_are_found(store: StoreState)
    requires
        store.wf(),
    ensures
        forall|id: u128| #[trigger] store.has_run(id) ==> store.first_run(id, store.run_at(id)),
        forall|id: u128|
            #[trigger] store.has_item(id) ==> store.first_item(id, store.item_at(id)),
{
    assert forall|id: u128| #[trigger] store.has_run(id) implies store.first_run(
        id,
        store.run_at(id),
    ) by {
        let at = choose|i: int| 0 <= i < store.runs.len() && (#[trigger] store.runs[i]).id == id;
        assert(store.first_run(id, at));
    }
    assert forall|id: u128| #[trigger] store.has_item(id) implies store.first_item(
        id,
        store.item_at(id),
    ) by {
        let at = choose|i: int|
            0 <= i < store.items.len() && (#[trigger] store.items[i]).id == id;
        assert(store.first_item(id, at));
    }
}

/// Every write leaves a well-formed store well formed, whether it is accepted
/// or refused.
pub proof fn lemma_write_keeps_wf(store: StoreState, write: WriteView)
    requires
        store.wf(),
    ensures
        store.apply(write).wf(),
{
    let after = store.apply(write);
    lemma_rows_are_found(store);
    if store.check(write) is Ok {
        if write is InsertRun || write is CompleteRun {
            assert forall|i: int| 0 <= i < after.items.len() implies after.has_run(
                (#[trigger] after.items[i]).run_id,
            ) by {
                let r = store.run_at(store.items[i].run_id);
                assert(after.runs[r].id == store.items[i].run_id);
            }
        }
    }
}

/// Every sequence of writes leaves a well-formed store well formed.
pub proof fn lemma_writes_keep_wf(store: StoreState, writes: Seq<WriteView>)
    requires
        store.wf(),
    ensures
        store.apply_all(writes).wf(),
    decreases writes.len(),
{
    if writes.len() > 0 {
        lemma_writes_keep_wf(store, writes.drop_last());
        lemma_write_keeps_wf(store.apply_all(writes.drop_last()), writes.last());
    }
}

/// Key presence: in every state that the store can reach from empty, each
/// item has a storage key if and only if it is `completed`.
pub proof fn lemma_key_presence(writes: Seq<WriteView>, i: int)
    requires
        0 <= i < StoreState::empty().apply_all(writes).items.len(),
    ensures
        ({
            let item = StoreState::empty().apply_all(writes).items[i];
            item.storage_key.is_some() <==> item.status == ItemStatus::Completed
        }),
{
    lemma_writes_keep_wf(StoreState::empty(), writes);
    assert(StoreState::empty().apply_all(writes).items[i].wf());
}

/// Terminal run state: in every state that the store can reach from empty, no
/// item of a `completed` run is `pending`. Once a run is `completed` it takes
/// no further item, so this stays so.
pub proof fn lemma_completed_run_is_settled(writes: Seq<WriteView>, r: int, i: int)
    requires
        0 <= r < StoreState::empty().apply_all(writes).runs.len(),
        0 <= i < StoreState::empty().apply_all(writes).items.len(),
        StoreState::empty().apply_all(writes).runs[r].status == RunStatus::Completed,
        StoreState::empty().apply_all(writes).items[i].run_id == StoreState::empty().apply_all(
            writes,
        ).runs[r].id,
    ensures
        StoreState::empty().apply_all(writes).items[i].status != ItemStatus::Pending,
{
    lemma_writes_keep_wf(StoreState::empty(), writes);
}

/// A run's status never goes back: a write leaves a `completed` run
/// `completed`, in its place, and a settled item as it was.
pub proof fn lemma_status_is_monotonic(store: StoreState, write: WriteView)
    requires
        store.wf(),
    ensures
        store.apply(write).runs.len() >= store.runs.len(),
        store.apply(write).items.len() >= store.items.len(),
        forall|r: int|
            0 <= r < store.runs.len() && (#[trigger] store.runs[r]).status
                == RunStatus::Completed ==> store.apply(write).runs[r] == store.runs[r],
        forall|i: int|
            0 <= i < store.items.len() && (#[trigger] store.items[i]).status.terminal()
                ==> store.apply(write).items[i] == store.items[i],
{
    lemma_rows_are_found(store);
}

/// The runs of a report come newest first: creation times go down strictly.
pub proof fn lemma_newest_first_is_descending(store: StoreState, i: int, j: int)
    requires
        store.wf(),
        0 <= i < j < store.runs.len(),
    ensures
        store.newest_first()[i].created_at > store.newest_first()[j].created_at,
{
}

/// The views of a vector of runs.
pub open spec fn run_views(runs: Seq<Run>) -> Seq<RunView> {
    runs.map_values(|run: Run| run@)
}

/// The views of a vector of items.
pub open spec fn item_views(items: Seq<Item>) -> Seq<ItemView> {
    items.map_values(|item: Item| item@)
}

impl Item {
    /// A copy with the same view.
    pub fn duplicate(&self) -> (r: Item)
        ensures
            r@ == self@,
    {
        Item {
            id: self.id,
            run_id: self.run_id,
            url: self.url.clone(),
            storage_key: match &self.storage_key {
                Some(key) => Some(key.clone()),
                None => None,
            },
            status: self.status,
        }
    }
}

/// A run store in memory.
pub struct RunStore {
    runs: Vec<Run>,
    items: Vec<Item>,
}

impl View for RunStore {
    type V = StoreState;

    closed spec fn view(&self) -> StoreState {
        StoreState { runs: run_views(self.runs@), items: item_views(self.items@) }
    }
}

impl RunStore {
    /// The empty store.
    pub fn new() -> (r: RunStore)
        ensures
            r@ == StoreState::empty(),
            r@.wf(),
    {
        let r = RunStore { runs: Vec::new(), items: Vec::new() };
        assert(r@.runs =~= Seq::empty());
        assert(r@.items =~= Seq::empty());
        r
    }

    pub fn run_count(&self) -> (r: usize)
        ensures
            r == self@.runs.len(),
    {
        self.runs.len()
    }

    pub fn item_count(&self) -> (r: usize)
        ensures
            r == self@.items.len(),
    {
        self.items.len()
    }

    fn find_run(&self, id: u128) -> (r: Option<usize>)
        ensures
            r.is_some() == self@.has_run(id),
            r matches Some(at) ==> at == self@.run_at(id) && self@.first_run(id, at as int),
    {
        let mut at: usize = 0;
        while at < self.runs.len()
            invariant
                at <= self.runs.len(),
                forall|i: int| 0 <= i < at ==> (#[trigger] self@.runs[i]).id != id,
            decreases self.runs.len() - at,
        {
            if self.runs[at].id == id {
                proof {
                    lemma_run_position(self@, id, at as int);
                }
                return Some(at);
            }
            at += 1;
        }
        None
    }

    fn find_item(&self, id: u128) -> (r: Option<usize>)
        ensures
            r.is_some() == self@.has_item(id),
            r matches Some(at) ==> at == self@.item_at(id) && self@.first_item(id, at as int),
    {
        let mut at: usize = 0;
        while at < self.items.len()
            invariant
                at <= self.items.len(),
                forall|i: int| 0 <= i < at ==> (#[trigger] self@.items[i]).id != id,
            decreases self.items.len() - at,
        {
            if self.items[at].id == id {
                proof {
                    lemma_item_position(self@, id, at as int);
                }
                return Some(at);
            }
            at += 1;
        }
        None
    }

    fn any_pending(&self, run_id: u128) -> (r: bool)
        ensures
            r == self@.has_pending(run_id),
    {
        let mut at: usize = 0;
        while at < self.items.len()
            invariant
                at <= self.items.len(),
                forall|i: int|
                    0 <= i < at ==> !((#[trigger] self@.items[i]).run_id == run_id
                        && self@.items[i].status == ItemStatus::Pending),
            decreases self.items.len() - at,
        {
            if self.items[at].run_id == run_id && !self.items[at].status.is_terminal() {
                assert(self@.items[at as int].run_id == run_id);
                return true;
            }
            at += 1;
        }
        false
    }

    /// Creates the run `id` as `running`, unless a run `id` exists.
    pub fn insert_run(&mut self, id: u128) -> (r: Result<(), StoreError>)
        ensures
            r == old(self)@.check(WriteView::InsertRun { id }),
            final(self)@ == old(self)@.apply(WriteView::InsertRun { id }),
            old(self)@.wf() ==> final(self)@.wf(),
    {
        proof {
            if self@.wf() {
                lemma_write_keeps_wf(self@, WriteView::InsertRun { id });
            }
        }
        if self.find_run(id).is_some() {
            return Err(StoreError::DuplicateRun);
        }
        let created_at = self.runs.len();
        self.runs.push(Run { id, status: RunStatus::Running, created_at });
        assert(self@.runs =~= old(self)@.effect(WriteView::InsertRun { id }).runs);
        Ok(())
    }

    /// Registers the item `id` of the run `run_id` for `url` as `pending`,
    /// unless an item `id` exists or the run is missing or `completed`.
    pub fn insert_item(&mut self, id: u128, run_id: u128, url: String) -> (r: Result<
        (),
        StoreError,
    >)
        ensures
            r == old(self)@.check(WriteView::InsertItem { id, run_id, url: url@ }),
            final(self)@ == old(self)@.apply(WriteView::InsertItem { id, run_id, url: url@ }),
            old(self)@.wf() ==> final(self)@.wf(),
    {
        let ghost write = WriteView::InsertItem { id, run_id, url: url@ };
        proof {
            if self@.wf() {
                lemma_write_keeps_wf(self@, write);
            }
        }
        if self.find_item(id).is_some() {
            return Err(StoreError::DuplicateItem);
        }
        match self.find_run(run_id) {
            None => Err(StoreError::UnknownRun),
            Some(at) => {
                if self.runs[at].status == RunStatus::Completed {
                    return Err(StoreError::RunCompleted);
                }
                self.items.push(
                    Item { id, run_id, url, storage_key: None, status: ItemStatus::Pending },
                );
                assert(self@.items =~= old(self)@.effect(write).items);
                Ok(())
            },
        }
    }

    /// Records that the capture attempt of the item `id` ended with
    /// `outcome`, unless the item is missing or no longer `pending`.
    pub fn settle_item(&mut self, id: u128, outcome: Outcome) -> (r: Result<(), StoreError>)
        ensures
            r == old(self)@.check(WriteView::SettleItem { id, outcome: outcome@ }),
            final(self)@ == old(self)@.apply(WriteView::SettleItem { id, outcome: outcome@ }),
            old(self)@.wf() ==> final(self)@.wf(),
    {
        let ghost write = WriteView::SettleItem { id, outcome: outcome@ };
        proof {
            if self@.wf() {
                lemma_write_keeps_wf(self@, write);
            }
        }
        match self.find_item(id) {
            None => Err(StoreError::UnknownItem),
            Some(at) => {
                if self.items[at].status.is_terminal() {
                    return Err(StoreError::ItemSettled);
                }
                let status = outcome.status();
                let storage_key = match outcome {
                    Outcome::Stored { key } => Some(key),
                    Outcome::Failed => None,
                };
                let before = &self.items[at];
                let after = Item {
                    id: before.id,
                    run_id: before.run_id,
                    url: before.url.clone(),
                    storage_key,
                    status,
                };
                self.items.set(at, after);
                assert(self@.items =~= old(self)@.effect(write).items);
                Ok(())
            },
        }
    }

    /// Marks the run `id` as `completed`, unless it is missing, already
    /// `completed`, or has a `pending` item.
    pub fn complete_run(&mut self, id: u128) -> (r: Result<(), StoreError>)
        ensures
            r == old(self)@.check(WriteView::CompleteRun { id }),
            final(self)@ == old(self)@.apply(WriteView::CompleteRun { id }),
            old(self)@.wf() ==> final(self)@.wf(),
    {
        let ghost write = WriteView::CompleteRun { id };
        proof {
            if self@.wf() {
                lemma_write_keeps_wf(self@, write);
            }
        }
        match self.find_run(id) {
            None => Err(StoreError::UnknownRun),
            Some(at) => {
                if self.runs[at].status == RunStatus::Completed {
                    return Err(StoreError::RunCompleted);
                }
                if self.any_pending(id) {
                    return Err(StoreError::ItemsPending);
                }
                let created_at = self.runs[at].created_at;
                self.runs.set(at, Run { id, status: RunStatus::Completed, created_at });
                assert(self@.runs =~= old(self)@.effect(write).runs);
                Ok(())
            },
        }
    }

    /// Carries out `write`.
    pub fn apply(&mut self, write: Write) -> (r: Result<(), StoreError>)
        ensures
            r == old(self)@.check(write@),
            final(self)@ == old(self)@.apply(write@),
            old(self)@.wf() ==> final(self)@.wf(),
    {
        match write {
            Write::InsertRun { id } => self.insert_run(id),
            Write::InsertItem { id, run_id, url } => self.insert_item(id, run_id, url),
            Write::SettleItem { id, outcome } => self.settle_item(id, outcome),
            Write::CompleteRun { id } => self.complete_run(id),
        }
    }

    /// The run `id`, if the store holds it.
    pub fn run(&self, id: u128) -> (r: Option<Run>)
        ensures
            r.is_some() == self@.has_run(id),
            r matches Some(run) ==> run@ == self@.runs[self@.run_at(id)],
    {
        match self.find_run(id) {
            Some(at) => Some(self.runs[at]),
            None => None,
        }
    }

    /// The item `id`, if the store holds it.
    pub fn item(&self, id: u128) -> (r: Option<Item>)
        ensures
            r.is_some() == self@.has_item(id),
            r matches Some(item) ==> item@ == self@.items[self@.item_at(id)],
    {
        match self.find_item(id) {
            Some(at) => Some(self.items[at].duplicate()),
            None => None,
        }
    }

    /// Lists the runs, newest first. The store is not changed.
    pub fn list_runs(&self) -> (r: Vec<Run>)
        ensures
            run_views(r@) == self@.newest_first(),
    {
        let mut out: Vec<Run> = Vec::new();
        let mut left: usize = self.runs.len();
        while left > 0
            invariant
                left <= self.runs.len(),
                out.len() == self.runs.len() - left,
                forall|i: int|
                    0 <= i < out.len() ==> (#[trigger] out[i]) == self.runs[self.runs.len() - 1
                        - i],
            decreases left,
        {
            left -= 1;
            out.push(self.runs[left]);
        }
        assert(run_views(out@) =~= self@.newest_first());
        out
    }

    /// Lists the items of the run `run_id` in the order of their
    /// registration. The store is not changed.
    pub fn list_items(&self, run_id: u128) -> (r: Vec<Item>)
        ensures
            item_views(r@) == self@.items_of(run_id),
    {
        let mut out: Vec<Item> = Vec::new();
        let mut at: usize = 0;
        let ghost keep = |item: ItemView| item.run_id == run_id;
        assert(self@.items.take(0).filter(keep) =~= Seq::empty()) by {
            assert(self@.items.take(0) =~= Seq::empty());
        }
        while at < self.items.len()
            invariant
                at <= self.items.len(),
                keep == |item: ItemView| item.run_id == run_id,
                item_views(out@) == self@.items.take(at as int).filter(keep),
            decreases self.items.len() - at,
        {
            let ghost before = item_views(out@);
            proof {
                let head = self@.items.take(at as int);
                assert(self@.items.take(at + 1) =~= head.push(self@.items[at as int]));
                head.lemma_filter_push(self@.items[at as int], keep);
            }
            if self.items[at].run_id == run_id {
                out.push(self.items[at].duplicate());
                assert(item_views(out@) =~= before.push(self@.items[at as int]));
            }
            at += 1;
        }
        assert(self@.items.take(at as int) =~= self@.items);
        out
    }
}

} // verus!
