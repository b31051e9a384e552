//! What holds of a whole run: the coordinator, a run store and a capture
//! worker taken together.
//!
//! The first part takes the caller of a coordinator as faithful: it attempts
//! each write once against the store and reports whether the store took it,
//! and it answers each capture request with the worker's reply for that URL.
//! The second part assumes nothing of the caller or the store: it states what
//! the coordinator asks for whatever it is told, lost writes included.

use vstd::prelude::*;
use crate::capture::{outcome_of, request_for, CaptureReplyView};
use crate::coordinator::{ActionView, CoordinatorView, EventView, Phase};
use crate::status::{ItemStatus, RunStatus};
use crate::store::{
    lemma_item_position, lemma_rows_are_first, lemma_rows_are_found, lemma_run_position,
    lemma_write_keeps_wf, ItemView, RunView, StoreState, WriteView,
};

verus! {

/// A coordinator, the store it writes to, and the action it has asked for
/// that is not yet carried out.
pub struct System {
    pub coordinator: CoordinatorView,
    pub store: StoreState,
    pub asked: ActionView,
}

/// The position, among the run's URLs, of the item that gets the next new
/// identifier.
pub open spec fn next_to_register(coordinator: CoordinatorView) -> nat {
    if coordinator.phase == Phase::Creating {
        coordinator.next
    } else {
        coordinator.next + 1
    }
}

/// One turn of a faithful caller: the action asked for is carried out and
/// reported, and the coordinator answers. `ids[k]` is the identifier drawn for
/// the item of the `k`-th URL and `replies[k]` the worker's reply for it.
pub open spec fn turn(sys: System, ids: Seq<u128>, replies: Seq<CaptureReplyView>) -> System {
    match sys.asked {
        ActionView::Store(write) => {
            let report = EventView::Written { accepted: sys.store.check(write) is Ok };
            let fresh = ids[next_to_register(sys.coordinator) as int];
            let (coordinator, asked) = sys.coordinator.step(report, fresh);
            System { coordinator, store: sys.store.apply(write), asked }
        },
        ActionView::Capture(_) => {
            let report = EventView::Captured(replies[sys.coordinator.next as int]);
            let (coordinator, asked) = sys.coordinator.step(report, sys.coordinator.item);
            System { coordinator, store: sys.store, asked }
        },
        _ => sys,
    }
}

/// The system after `n` turns.
pub open spec fn turns(
    sys: System,
    ids: Seq<u128>,
    replies: Seq<CaptureReplyView>,
    n: nat,
) -> System
    decreases n,
{
    if n == 0 {
        sys
    } else {
        turns(turn(sys, ids, replies), ids, replies, (n - 1) as nat)
    }
}

/// The system right after the submission of `urls` as the run `run_id`: the
/// coordinator has asked for the run's row.
pub open spec fn submitted(
    store: StoreState,
    run_id: u128,
    worker: Seq<char>,
    urls: Seq<Seq<char>>,
) -> System {
    let (coordinator, asked) = CoordinatorView::accepted(run_id, worker, urls).step(
        EventView::Begin,
        0,
    );
    System { coordinator, store, asked }
}

/// The item of the `k`-th URL once its capture attempt is recorded.
pub open spec fn settled_item(
    run_id: u128,
    urls: Seq<Seq<char>>,
    ids: Seq<u128>,
    replies: Seq<CaptureReplyView>,
    k: int,
) -> ItemView {
    ItemView::pending(ids[k], run_id, urls[k]).settled(outcome_of(replies[k]))
}

/// The first `k` items of the run, each settled by its own reply.
pub open spec fn settled_items(
    run_id: u128,
    urls: Seq<Seq<char>>,
    ids: Seq<u128>,
    replies: Seq<CaptureReplyView>,
    k: nat,
) -> Seq<ItemView> {
    Seq::new(k, |j: int| settled_item(run_id, urls, ids, replies, j))
}

/// The store while the run is under way, with `k` of its items settled and
/// no other registered.
pub open spec fn under_way(
    store: StoreState,
    run_id: u128,
    urls: Seq<Seq<char>>,
    ids: Seq<u128>,
    replies: Seq<CaptureReplyView>,
    k: nat,
) -> StoreState {
    StoreState {
        runs: store.runs.push(
            RunView { id: run_id, status: RunStatus::Running, created_at: store.runs.len() },
        ),
        items: store.items + settled_items(run_id, urls, ids, replies, k),
    }
}

/// The store after the run: the run is `completed`, and every URL has its
/// item, settled by its own reply.
pub open spec fn finished(
    store: StoreState,
    run_id: u128,
    urls: Seq<Seq<char>>,
    ids: Seq<u128>,
    replies: Seq<CaptureReplyView>,
) -> StoreState {
    StoreState {
        runs: store.runs.push(
            RunView { id: run_id, status: RunStatus::Completed, created_at: store.runs.len() },
        ),
        items: store.items + settled_items(run_id, urls, ids, replies, urls.len()),
    }
}

/// The identifiers drawn for a run are new: none is in the store, and no two
/// are the same.
pub open spec fn new_ids(store: StoreState, run_id: u128, ids: Seq<u128>) -> bool {
    &&& !store.has_run(run_id)
    &&& forall|k: int| 0 <= k < ids.len() ==> !store.has_item(#[trigger] ids[k])
    &&& forall|j: int, k: int| 0 <= j < k < ids.len() ==> ids[j] != ids[k]
}

/// Turns add up.
pub proof fn lemma_turns_add(
    sys: System,
    ids: Seq<u128>,
    replies: Seq<CaptureReplyView>,
    m: nat,
    n: nat,
)
    ensures
        turns(sys, ids, replies, m + n) == turns(turns(sys, ids, replies, m), ids, replies, n),
    decreases m,
{
    if m > 0 {
        lemma_turns_add(turn(sys, ids, replies), ids, replies, (m - 1) as nat, n);
    }
}

/// Whatever the coordinator asks for, the store stays well formed through
/// every turn: no reader ever sees a `completed` run with a `pending` item,
/// or an item whose key and status disagree.
pub proof fn lemma_store_stays_wf(
    sys: System,
    ids: Seq<u128>,
    replies: Seq<CaptureReplyView>,
    n: nat,
)
    requires
        sys.store.wf(),
    ensures
        turns(sys, ids, replies, n).store.wf(),
    decreases n,
{
    if n > 0 {
        if let ActionView::Store(write) = sys.asked {
            lemma_write_keeps_wf(sys.store, write);
        }
        lemma_store_stays_wf(turn(sys, ids, replies), ids, replies, (n - 1) as nat);
    }
}

/// What is asked of a run's inputs: the store is well formed, the identifiers
/// are new, and there is one identifier and one reply for each URL.
pub open spec fn run_inputs(
    store: StoreState,
    run_id: u128,
    urls: Seq<Seq<char>>,
    ids: Seq<u128>,
    replies: Seq<CaptureReplyView>,
) -> bool {
    &&& store.wf()
    &&& new_ids(store, run_id, ids)
    &&& ids.len() == urls.len()
    &&& replies.len() == urls.len()
}

/// The system when the run is over.
pub open spec fn over(
    store: StoreState,
    run_id: u128,
    worker: Seq<char>,
    urls: Seq<Seq<char>>,
    ids: Seq<u128>,
    replies: Seq<CaptureReplyView>,
) -> System {
    System {
        coordinator: CoordinatorView {
            run_id,
            worker,
            urls,
            next: urls.len(),
            item: if urls.len() == 0 {
                0
            } else {
                ids[urls.len() - 1]
            },
            lost: 0,
            phase: Phase::Done,
        },
        store: finished(store, run_id, urls, ids, replies),
        asked: ActionView::Finish,
    }
}

/// The number of turns that a run of `n` URLs takes: one for the run's row,
/// three for each item, one for the completion.
pub open spec fn run_length(n: nat) -> nat {
    3 * n + 2
}

/// The system after `t` turns of a run, in closed form.
spec fn stage(
    store: StoreState,
    run_id: u128,
    worker: Seq<char>,
    urls: Seq<Seq<char>>,
    ids: Seq<u128>,
    replies: Seq<CaptureReplyView>,
    t: nat,
) -> System {
    let n = urls.len();
    let k = (t - 1) / 3;
    let r = (t - 1) % 3;
    let started = under_way(store, run_id, urls, ids, replies, k as nat);
    let registered = StoreState {
        items: started.items.push(ItemView::pending(ids[k], run_id, urls[k])),
        ..started
    };
    let coordinator = CoordinatorView {
        run_id,
        worker,
        urls,
        next: k as nat,
        item: ids[k],
        lost: 0,
        phase: Phase::Registering,
    };
    if t == 0 {
        submitted(store, run_id, worker, urls)
    } else if t >= run_length(n) {
        over(store, run_id, worker, urls, ids, replies)
    } else if k == n {
        System {
            coordinator: CoordinatorView {
                item: over(store, run_id, worker, urls, ids, replies).coordinator.item,
                phase: Phase::Completing,
                ..coordinator
            },
            store: started,
            asked: ActionView::Store(WriteView::CompleteRun { id: run_id }),
        }
    } else if r == 0 {
        System {
            coordinator,
            store: started,
            asked: ActionView::Store(
                WriteView::InsertItem { id: ids[k], run_id, url: urls[k] },
            ),
        }
    } else if r == 1 {
        System {
            coordinator: CoordinatorView { phase: Phase::Capturing, ..coordinator },
            store: registered,
            asked: ActionView::Capture(request_for(worker, urls[k])),
        }
    } else {
        System {
            coordinator: CoordinatorView { phase: Phase::Recording, ..coordinator },
            store: registered,
            asked: ActionView::Store(
                WriteView::SettleItem { id: ids[k], outcome: outcome_of(replies[k]) },
            ),
        }
    }
}

proof fn lemma_stage_step(
    store: StoreState,
    run_id: u128,
    worker: Seq<char>,
    urls: Seq<Seq<char>>,
    ids: Seq<u128>,
    replies: Seq<CaptureReplyView>,
    t: nat,
)
    requires
        run_inputs(store, run_id, urls, ids, replies),
        stage(store, run_id, worker, urls, ids, replies, t).store.wf(),
    ensures
        turn(stage(store, run_id, worker, urls, ids, replies, t), ids, replies) == stage(
            store,
            run_id,
            worker,
            urls,
            ids,
            replies,
            t + 1,
        ),
{
    let n = urls.len();
    let now = stage(store, run_id, worker, urls, ids, replies, t);
    let then = stage(store, run_id, worker, urls, ids, replies, t + 1);
    let next = turn(now, ids, replies);
    let k = (t - 1) / 3;
    let r = (t - 1) % 3;
    let base = store.items.len() as int;
    if t == 0 {
        assert(then.store.items =~= store.items);
        assert(next.store.runs =~= then.store.runs);
    } else if t >= run_length(n) {
    } else {
        lemma_rows_are_first(now.store);
        lemma_run_position(now.store, run_id, store.runs.len() as int);
        if k == n {
            assert(!now.store.has_pending(run_id)) by {
                assert forall|i: int| 0 <= i < now.store.items.len() implies !((
                #[trigger] now.store.items[i]).run_id == run_id && now.store.items[i].status
                    == ItemStatus::Pending) by {
                    if i < base {
                        assert(store.has_run(store.items[i].run_id));
                    }
                }
            }
            assert(next.store.runs =~= then.store.runs);
            assert(next.store.items =~= then.store.items);
        } else if r == 0 {
            assert(!now.store.has_item(ids[k])) by {
                assert forall|i: int| 0 <= i < now.store.items.len() implies (
                #[trigger] now.store.items[i]).id != ids[k] by {
                    if i < base {
                        assert(store.items[i].id != ids[k]);
                    }
                }
            }
            assert(next.store.items =~= then.store.items);
            assert(next.store.runs =~= then.store.runs);
        } else if r == 1 {
        } else {
            lemma_item_position(now.store, ids[k], base + k);
            assert(next.store.items =~= then.store.items);
            assert(next.store.runs =~= then.store.runs);
        }
    }
}

proof fn lemma_stages(
    store: StoreState,
    run_id: u128,
    worker: Seq<char>,
    urls: Seq<Seq<char>>,
    ids: Seq<u128>,
    replies: Seq<CaptureReplyView>,
    t: nat,
)
    requires
        run_inputs(store, run_id, urls, ids, replies),
    ensures
        turns(submitted(store, run_id, worker, urls), ids, replies, t) == stage(
            store,
            run_id,
            worker,
            urls,
            ids,
            replies,
            t,
        ),
    decreases t,
{
    let start = submitted(store, run_id, worker, urls);
    if t > 0 {
        let before = (t - 1) as nat;
        lemma_stages(store, run_id, worker, urls, ids, replies, before);
        lemma_turns_add(start, ids, replies, before, 1);
        lemma_store_stays_wf(start, ids, replies, before);
        lemma_stage_step(store, run_id, worker, urls, ids, replies, before);
        let reached = turns(start, ids, replies, before);
        assert(turns(reached, ids, replies, 1) == turn(reached, ids, replies)) by {
            assert(turns(turn(reached, ids, replies), ids, replies, 0) == turn(
                reached,
                ids,
                replies,
            ));
        }
    }
}

/// A run against a faithful caller ends after `run_length` turns, and stays
/// as it ended: the coordinator is done, the run is `completed`, and every URL
/// has its item, in the order of submission, `completed` under the key that
/// its own reply gave, or `failed` if its own reply was no success.
pub proof fn lemma_run_completes(
    store: StoreState,
    run_id: u128,
    worker: Seq<char>,
    urls: Seq<Seq<char>>,
    ids: Seq<u128>,
    replies: Seq<CaptureReplyView>,
    t: nat,
)
    requires
        run_inputs(store, run_id, urls, ids, replies),
        t >= run_length(urls.len()),
    ensures
        turns(submitted(store, run_id, worker, urls), ids, replies, t) == over(
            store,
            run_id,
            worker,
            urls,
            ids,
            replies,
        ),
{
    lemma_stages(store, run_id, worker, urls, ids, replies, t);
}

/// A run shows as `completed` only when it is over: at no turn does the store
/// hold the run as `completed` without holding every URL's item, settled.
pub proof fn lemma_completion_comes_last(
    store: StoreState,
    run_id: u128,
    worker: Seq<char>,
    urls: Seq<Seq<char>>,
    ids: Seq<u128>,
    replies: Seq<CaptureReplyView>,
    t: nat,
)
    requires
        run_inputs(store, run_id, urls, ids, replies),
    ensures
        ({
            let seen = turns(submitted(store, run_id, worker, urls), ids, replies, t).store;
            seen.has_run(run_id) && seen.runs[seen.run_at(run_id)].status
                == RunStatus::Completed ==> seen == finished(store, run_id, urls, ids, replies)
        }),
{
    let start = submitted(store, run_id, worker, urls);
    lemma_stages(store, run_id, worker, urls, ids, replies, t);
    lemma_store_stays_wf(start, ids, replies, t);
    let seen = turns(start, ids, replies, t).store;
    if 0 < t < run_length(urls.len()) {
        lemma_rows_are_first(seen);
        lemma_run_position(seen, run_id, store.runs.len() as int);
    }
}

/// The store after a run is well formed, and the run's report is the run's
/// items: one for each URL, in the order of submission. The reports of all
/// other runs are as they were.
pub proof fn lemma_report_after_run(
    store: StoreState,
    run_id: u128,
    urls: Seq<Seq<char>>,
    ids: Seq<u128>,
    replies: Seq<CaptureReplyView>,
)
    requires
        run_inputs(store, run_id, urls, ids, replies),
    ensures
        finished(store, run_id, urls, ids, replies).wf(),
        finished(store, run_id, urls, ids, replies).items_of(run_id) == settled_items(
            run_id,
            urls,
            ids,
            replies,
            urls.len(),
        ),
        forall|other: u128|
            other != run_id ==> #[trigger] finished(store, run_id, urls, ids, replies).items_of(
                other,
            ) == store.items_of(other),
{
    let end = finished(store, run_id, urls, ids, replies);
    let added = settled_items(run_id, urls, ids, replies, urls.len());
    let worker = Seq::<char>::empty();
    lemma_run_completes(store, run_id, worker, urls, ids, replies, run_length(urls.len()));
    lemma_store_stays_wf(
        submitted(store, run_id, worker, urls),
        ids,
        replies,
        run_length(urls.len()),
    );
    let own = |item: ItemView| item.run_id == run_id;
    Seq::filter_distributes_over_add(store.items, added, own);
    assert(store.items.filter(own) == Seq::<ItemView>::empty()) by {
        assert forall|i: int| 0 <= i < store.items.len() implies !own(
            #[trigger] store.items[i],
        ) by {
            assert(store.has_run(store.items[i].run_id));
        }
        lemma_filter_drops(store.items, own);
    }
    lemma_filter_keeps(added, own);
    assert(end.items_of(run_id) =~= added);
    assert forall|other: u128| other != run_id implies #[trigger] end.items_of(other)
        == store.items_of(other) by {
        let theirs = |item: ItemView| item.run_id == other;
        Seq::filter_distributes_over_add(store.items, added, theirs);
        lemma_filter_drops(added, theirs);
        assert(end.items_of(other) =~= store.items_of(other));
    }
}

proof fn lemma_filter_keeps(items: Seq<ItemView>, keep: spec_fn(ItemView) -> bool)
    requires
        forall|i: int| 0 <= i < items.len() ==> keep(#[trigger] items[i]),
    ensures
        items.filter(keep) == items,
    decreases items.len(),
{
    reveal(Seq::filter);
    if items.len() > 0 {
        lemma_filter_keeps(items.drop_last(), keep);
        assert(items.drop_last().push(items.last()) =~= items);
    }
}

proof fn lemma_filter_drops(items: Seq<ItemView>, keep: spec_fn(ItemView) -> bool)
    requires
        forall|i: int| 0 <= i < items.len() ==> !keep(#[trigger] items[i]),
    ensures
        items.filter(keep) == Seq::<ItemView>::empty(),
    decreases items.len(),
{
    reveal(Seq::filter);
    if items.len() > 0 {
        lemma_filter_drops(items.drop_last(), keep);
    }
}

/// Items are isolated from each other: how an item ends depends on its own
/// URL, identifier and reply only. Whatever the replies for the other URLs
/// are, and however many of them fail, the item ends `completed` under its
/// key if its own reply is a success, and `failed` if not.
pub proof fn lemma_items_are_isolated(
    store: StoreState,
    run_id: u128,
    worker: Seq<char>,
    urls: Seq<Seq<char>>,
    ids: Seq<u128>,
    replies: Seq<CaptureReplyView>,
    others: Seq<CaptureReplyView>,
    k: int,
)
    requires
        run_inputs(store, run_id, urls, ids, replies),
        others.len() == replies.len(),
        0 <= k < urls.len(),
        others[k] == replies[k],
    ensures
        ({
            let n = run_length(urls.len());
            let start = submitted(store, run_id, worker, urls);
            let item = turns(start, ids, replies, n).store.items[store.items.len() + k];
            &&& item == turns(start, ids, others, n).store.items[store.items.len() + k]
            &&& item == ItemView::pending(ids[k], run_id, urls[k]).settled(
                outcome_of(replies[k]),
            )
        }),
{
    let n = run_length(urls.len());
    lemma_run_completes(store, run_id, worker, urls, ids, replies, n);
    lemma_run_completes(store, run_id, worker, urls, ids, others, n);
}

/// Submitting the same URLs a second time makes a second run of its own:
/// nothing is deduplicated. After both runs the store holds both as
/// `completed`, each with one item for every URL, and the first run's report
/// is what it was before the second submission.
pub proof fn lemma_resubmission_is_a_new_run(
    store: StoreState,
    worker: Seq<char>,
    urls: Seq<Seq<char>>,
    first: u128,
    first_ids: Seq<u128>,
    first_replies: Seq<CaptureReplyView>,
    second: u128,
    second_ids: Seq<u128>,
    second_replies: Seq<CaptureReplyView>,
)
    requires
        run_inputs(store, first, urls, first_ids, first_replies),
        run_inputs(store, second, urls, second_ids, second_replies),
        first != second,
        forall|j: int, k: int|
            0 <= j < first_ids.len() && 0 <= k < second_ids.len() ==> first_ids[j]
                != second_ids[k],
    ensures
        ({
            let n = run_length(urls.len());
            let between = turns(
                submitted(store, first, worker, urls),
                first_ids,
                first_replies,
                n,
            ).store;
            let end = turns(
                submitted(between, second, worker, urls),
                second_ids,
                second_replies,
                n,
            ).store;
            &&& between == finished(store, first, urls, first_ids, first_replies)
            &&& end == finished(between, second, urls, second_ids, second_replies)
            &&& end.runs == store.runs.push(
                RunView { id: first, status: RunStatus::Completed, created_at: store.runs.len() },
            ).push(
                RunView {
                    id: second,
                    status: RunStatus::Completed,
                    created_at: store.runs.len() + 1,
                },
            )
            &&& end.items_of(first) == settled_items(
                first,
                urls,
                first_ids,
                first_replies,
                urls.len(),
            )
            &&& end.items_of(second) == settled_items(
                second,
                urls,
                second_ids,
                second_replies,
                urls.len(),
            )
        }),
{
    let n = run_length(urls.len());
    let between = finished(store, first, urls, first_ids, first_replies);
    lemma_run_completes(store, first, worker, urls, first_ids, first_replies, n);
    lemma_report_after_run(store, first, urls, first_ids, first_replies);
    lemma_inputs_after_run(
        store,
        urls,
        first,
        first_ids,
        first_replies,
        second,
        second_ids,
        second_replies,
    );
    lemma_run_completes(between, second, worker, urls, second_ids, second_replies, n);
    lemma_report_after_run(between, second, urls, second_ids, second_replies);
    let end = finished(between, second, urls, second_ids, second_replies);
    assert(end.items_of(first) == between.items_of(first));
    assert(end.runs =~= store.runs.push(
        RunView { id: first, status: RunStatus::Completed, created_at: store.runs.len() },
    ).push(
        RunView { id: second, status: RunStatus::Completed, created_at: store.runs.len() + 1 },
    ));
}

proof fn lemma_inputs_after_run(
    store: StoreState,
    urls: Seq<Seq<char>>,
    first: u128,
    first_ids: Seq<u128>,
    first_replies: Seq<CaptureReplyView>,
    second: u128,
    second_ids: Seq<u128>,
    second_replies: Seq<CaptureReplyView>,
)
    requires
        run_inputs(store, first, urls, first_ids, first_replies),
        run_inputs(store, second, urls, second_ids, second_replies),
        first != second,
        forall|j: int, k: int|
            0 <= j < first_ids.len() && 0 <= k < second_ids.len() ==> first_ids[j]
                != second_ids[k],
        finished(store, first, urls, first_ids, first_replies).wf(),
    ensures
        run_inputs(
            finished(store, first, urls, first_ids, first_replies),
            second,
            urls,
            second_ids,
            second_replies,
        ),
{
    let between = finished(store, first, urls, first_ids, first_replies);
    assert(!between.has_run(second)) by {
        assert forall|i: int| 0 <= i < between.runs.len() implies (
        #[trigger] between.runs[i]).id != second by {
            if i < store.runs.len() {
                assert(store.runs[i].id != second);
            }
        }
    }
    assert forall|k: int| 0 <= k < second_ids.len() implies !between.has_item(
        #[trigger] second_ids[k],
    ) by {
        assert forall|i: int| 0 <= i < between.items.len() implies (
        #[trigger] between.items[i]).id != second_ids[k] by {
            if i < store.items.len() {
                assert(store.items[i].id != second_ids[k]);
            }
        }
    }
}

/// One turn of a caller whose store may be out of reach. With `reached` it is
/// a faithful turn. Without, a write that is asked for does not get to the
/// store and is reported as not taken.
pub open spec fn lossy_turn(
    sys: System,
    ids: Seq<u128>,
    replies: Seq<CaptureReplyView>,
    reached: bool,
) -> System {
    match sys.asked {
        ActionView::Store(write) if !reached => {
            let report = EventView::Written { accepted: false };
            let fresh = ids[next_to_register(sys.coordinator) as int];
            let (coordinator, asked) = sys.coordinator.step(report, fresh);
            System { coordinator, store: sys.store, asked }
        },
        _ => turn(sys, ids, replies),
    }
}

/// The system after `n` turns, the store being reached at the `i`-th turn if
/// `reached(i)`.
pub open spec fn lossy_turns(
    sys: System,
    ids: Seq<u128>,
    replies: Seq<CaptureReplyView>,
    reached: spec_fn(nat) -> bool,
    n: nat,
) -> System
    decreases n,
{
    if n == 0 {
        sys
    } else {
        let before = (n - 1) as nat;
        lossy_turn(lossy_turns(sys, ids, replies, reached, before), ids, replies, reached(before))
    }
}

/// The coordinator of the run `run_id` and the store agree: the store shows
/// for the run what the coordinator takes it to show, and what is asked for
/// is what the coordinator's phase waits for.
spec fn agreed(sys: System, run_id: u128) -> bool {
    let coordinator = sys.coordinator;
    &&& sys.store.wf()
    &&& coordinator.wf()
    &&& coordinator.run_id == run_id
    &&& sys.store.run_status(run_id) == coordinator.shown()
    &&& match coordinator.phase {
        Phase::Accepted => false,
        Phase::Creating => sys.asked == ActionView::Store(WriteView::InsertRun { id: run_id }),
        Phase::Registering => sys.asked matches ActionView::Store(WriteView::InsertItem { .. }),
        Phase::Capturing => sys.asked is Capture,
        Phase::Recording => sys.asked matches ActionView::Store(WriteView::SettleItem { .. }),
        Phase::Completing => sys.asked == ActionView::Store(
            WriteView::CompleteRun { id: run_id },
        ),
        Phase::Done => sys.asked is Finish,
        Phase::Rejected => sys.asked is Reject,
        Phase::Stalled => sys.asked is Stall,
    }
}

proof fn lemma_lossy_turn_agrees(
    sys: System,
    run_id: u128,
    ids: Seq<u128>,
    replies: Seq<CaptureReplyView>,
    reached: bool,
)
    requires
        agreed(sys, run_id),
    ensures
        agreed(lossy_turn(sys, ids, replies, reached), run_id),
{
    let after = lossy_turn(sys, ids, replies, reached);
    let store = sys.store;
    if let ActionView::Store(write) = sys.asked {
        lemma_write_keeps_wf(store, write);
        lemma_rows_are_found(store);
        if reached && store.check(write) is Ok {
            match write {
                WriteView::InsertRun { id } => {
                    assert(after.store.first_run(run_id, store.runs.len() as int));
                    lemma_run_position(after.store, run_id, store.runs.len() as int);
                },
                WriteView::CompleteRun { id } => {
                    let at = store.run_at(run_id);
                    assert(after.store.first_run(run_id, at));
                    lemma_run_position(after.store, run_id, at);
                },
                _ => {
                    let at = store.run_at(run_id);
                    assert(after.store.runs == store.runs);
                    assert(after.store.first_run(run_id, at));
                    lemma_run_position(after.store, run_id, at);
                },
            }
        }
    }
}

proof fn lemma_lossy_turns_agree(
    store: StoreState,
    run_id: u128,
    worker: Seq<char>,
    urls: Seq<Seq<char>>,
    ids: Seq<u128>,
    replies: Seq<CaptureReplyView>,
    reached: spec_fn(nat) -> bool,
    n: nat,
)
    requires
        store.wf(),
        !store.has_run(run_id),
    ensures
        agreed(
            lossy_turns(submitted(store, run_id, worker, urls), ids, replies, reached, n),
            run_id,
        ),
    decreases n,
{
    if n > 0 {
        let before = (n - 1) as nat;
        lemma_lossy_turns_agree(store, run_id, worker, urls, ids, replies, reached, before);
        lemma_lossy_turn_agrees(
            lossy_turns(submitted(store, run_id, worker, urls), ids, replies, reached, before),
            run_id,
            ids,
            replies,
            reached(before),
        );
    }
}

/// Whatever writes are lost, and whatever identifiers are drawn, the store
/// and the coordinator never disagree on the run. The store shows the run as
/// `completed` exactly when the coordinator is done, which it never is after
/// a lost write; a run that has stalled is still shown as `running`, and a
/// run that was rejected is not shown at all. At every turn the store is well
/// formed, so no item of a run that shows as `completed` is `pending`.
pub proof fn lemma_store_and_coordinator_agree(
    store: StoreState,
    run_id: u128,
    worker: Seq<char>,
    urls: Seq<Seq<char>>,
    ids: Seq<u128>,
    replies: Seq<CaptureReplyView>,
    reached: spec_fn(nat) -> bool,
    n: nat,
)
    requires
        store.wf(),
        !store.has_run(run_id),
    ensures
        ({
            let sys = lossy_turns(
                submitted(store, run_id, worker, urls),
                ids,
                replies,
                reached,
                n,
            );
            &&& sys.store.wf()
            &&& sys.store.run_status(run_id) == sys.coordinator.shown()
            &&& sys.store.run_status(run_id) == Some(RunStatus::Completed)
                <==> sys.coordinator.phase == Phase::Done
            &&& sys.coordinator.lost > 0 ==> sys.store.run_status(run_id) != Some(
                RunStatus::Completed,
            )
            &&& sys.coordinator.phase == Phase::Stalled ==> sys.coordinator.lost > 0
                && sys.store.run_status(run_id) == Some(RunStatus::Running)
        }),
{
    lemma_lossy_turns_agree(store, run_id, worker, urls, ids, replies, reached, n);
}

/// The coordinator's state and the actions it has asked for, in order, after
/// it was told `events`. `fresh(i)` is the identifier at hand at the `i`-th
/// event. Nothing is assumed of the events: writes may be refused, replies may
/// be anything, and an event may come out of turn.
pub open spec fn play(
    start: CoordinatorView,
    events: Seq<EventView>,
    fresh: spec_fn(int) -> u128,
) -> (CoordinatorView, Seq<ActionView>)
    decreases events.len(),
{
    if events.len() == 0 {
        (start, Seq::empty())
    } else {
        let (state, asked) = play(start, events.drop_last(), fresh);
        let (next, action) = state.step(events.last(), fresh(events.len() - 1));
        (next, asked.push(action))
    }
}

/// How many of `events` reported, in their turn, a write of an item or of the
/// run's completion that the store did not take.
pub open spec fn losses(
    start: CoordinatorView,
    events: Seq<EventView>,
    fresh: spec_fn(int) -> u128,
) -> nat
    decreases events.len(),
{
    if events.len() == 0 {
        0
    } else {
        let before = play(start, events.drop_last(), fresh).0;
        losses(start, events.drop_last(), fresh) + if before.loses(events.last()) {
            1nat
        } else {
            0nat
        }
    }
}

/// How many of `asked` register an item.
pub open spec fn registrations(asked: Seq<ActionView>) -> nat {
    asked.filter(
        |a: ActionView| a matches ActionView::Store(WriteView::InsertItem { .. }),
    ).len()
}

/// How many of `asked` call the capture worker.
pub open spec fn captures(asked: Seq<ActionView>) -> nat {
    asked.filter(|a: ActionView| a is Capture).len()
}

/// How many of `asked` record an item's outcome.
pub open spec fn settlements(asked: Seq<ActionView>) -> nat {
    asked.filter(
        |a: ActionView| a matches ActionView::Store(WriteView::SettleItem { .. }),
    ).len()
}

/// How many of `asked` mark the run as `completed`.
pub open spec fn completions(asked: Seq<ActionView>) -> nat {
    asked.filter(
        |a: ActionView| a matches ActionView::Store(WriteView::CompleteRun { .. }),
    ).len()
}

/// How many of `asked` tell that the run has stalled.
pub open spec fn stalls(asked: Seq<ActionView>) -> nat {
    asked.filter(|a: ActionView| a is Stall).len()
}

/// One if `condition` holds, else zero.
spec fn one_if(condition: bool) -> nat {
    if condition {
        1
    } else {
        0
    }
}

/// How the numbers of actions asked for go with the coordinator's state.
spec fn counted(state: CoordinatorView, asked: Seq<ActionView>) -> bool {
    let phase = state.phase;
    let captured = one_if(phase == Phase::Capturing || phase == Phase::Recording);
    &&& state.wf()
    &&& registrations(asked) == state.next + one_if(
        phase == Phase::Registering || phase == Phase::Capturing || phase == Phase::Recording,
    )
    &&& settlements(asked) + one_if(phase == Phase::Capturing) == captures(asked)
    &&& captures(asked) <= state.next + captured <= captures(asked) + state.lost
    &&& completions(asked) <= 1
    &&& phase == Phase::Completing || phase == Phase::Done ==> completions(asked) == 1
    &&& completions(asked) == 1 ==> captures(asked) == state.urls.len() && state.lost <= 1 && (
    phase == Phase::Completing || phase == Phase::Done || phase == Phase::Stalled)
    &&& stalls(asked) == one_if(phase == Phase::Stalled)
}

proof fn lemma_play_is_counted(
    start: CoordinatorView,
    events: Seq<EventView>,
    fresh: spec_fn(int) -> u128,
)
    requires
        start.phase == Phase::Accepted,
        start.next == 0,
        start.lost == 0,
    ensures
        counted(play(start, events, fresh).0, play(start, events, fresh).1),
        play(start, events, fresh).0.urls == start.urls,
        play(start, events, fresh).0.lost == losses(start, events, fresh),
    decreases events.len(),
{
    reveal(Seq::filter);
    if events.len() > 0 {
        lemma_play_is_counted(start, events.drop_last(), fresh);
        let (state, asked) = play(start, events.drop_last(), fresh);
        let (next, action) = state.step(events.last(), fresh(events.len() - 1));
        asked.lemma_filter_push(
            action,
            |a: ActionView| a matches ActionView::Store(WriteView::InsertItem { .. }),
        );
        asked.lemma_filter_push(action, |a: ActionView| a is Capture);
        asked.lemma_filter_push(
            action,
            |a: ActionView| a matches ActionView::Store(WriteView::SettleItem { .. }),
        );
        asked.lemma_filter_push(
            action,
            |a: ActionView| a matches ActionView::Store(WriteView::CompleteRun { .. }),
        );
        asked.lemma_filter_push(action, |a: ActionView| a is Stall);
    }
}

/// The order of a run's actions, whatever the coordinator is told. At every
/// moment each item that was captured has been settled, but for the one that
/// is with the worker; no item is captured that was not registered, and no
/// more are registered than there are URLs. The run's completion is asked
/// for at most once, and by then every URL's item has been registered,
/// captured and settled, with no write lost before.
pub proof fn lemma_completion_is_asked_last(
    run_id: u128,
    worker: Seq<char>,
    urls: Seq<Seq<char>>,
    events: Seq<EventView>,
    fresh: spec_fn(int) -> u128,
)
    ensures
        ({
            let start = CoordinatorView::accepted(run_id, worker, urls);
            let asked = play(start, events, fresh).1;
            &&& settlements(asked) <= captures(asked) <= registrations(asked) <= urls.len()
            &&& captures(asked) <= settlements(asked) + 1
            &&& completions(asked) <= 1
            &&& completions(asked) == 1 ==> {
                &&& registrations(asked) == urls.len()
                &&& captures(asked) == urls.len()
                &&& settlements(asked) == urls.len()
                &&& losses(start, events, fresh) <= 1
            }
        }),
{
    lemma_play_is_counted(CoordinatorView::accepted(run_id, worker, urls), events, fresh);
}

/// A run that is done was completed exactly once, at its end: the
/// completion was asked for once, after every URL's item was registered,
/// captured and settled, and every one of these writes and the completion
/// itself was taken by the store.
pub proof fn lemma_done_is_completed_once(
    run_id: u128,
    worker: Seq<char>,
    urls: Seq<Seq<char>>,
    events: Seq<EventView>,
    fresh: spec_fn(int) -> u128,
)
    requires
        play(CoordinatorView::accepted(run_id, worker, urls), events, fresh).0.phase
            == Phase::Done,
    ensures
        ({
            let start = CoordinatorView::accepted(run_id, worker, urls);
            let asked = play(start, events, fresh).1;
            &&& completions(asked) == 1
            &&& stalls(asked) == 0
            &&& losses(start, events, fresh) == 0
            &&& registrations(asked) == urls.len()
            &&& captures(asked) == urls.len()
            &&& settlements(asked) == urls.len()
        }),
{
    lemma_play_is_counted(CoordinatorView::accepted(run_id, worker, urls), events, fresh);
}

/// No lost write is dropped, whatever the coordinator is told. Every report
/// of a write that the store did not take is counted. While such a report
/// stands, the run is neither being completed nor done; if the completion
/// had not been asked for before, it never is. When no URL is left the run
/// stalls, and the caller is told so exactly once.
pub proof fn lemma_lost_writes_stall_the_run(
    run_id: u128,
    worker: Seq<char>,
    urls: Seq<Seq<char>>,
    events: Seq<EventView>,
    fresh: spec_fn(int) -> u128,
)
    ensures
        ({
            let start = CoordinatorView::accepted(run_id, worker, urls);
            let (state, asked) = play(start, events, fresh);
            &&& state.lost == losses(start, events, fresh)
            &&& state.lost > 0 ==> state.phase != Phase::Done && state.phase
                != Phase::Completing
            &&& state.lost > 1 ==> completions(asked) == 0
            &&& stalls(asked) <= 1
            &&& stalls(asked) == 1 <==> state.phase == Phase::Stalled
            &&& state.phase == Phase::Stalled ==> state.lost > 0
            &&& state.lost > 0 && state.next == urls.len() ==> state.phase == Phase::Stalled
        }),
{
    lemma_play_is_counted(CoordinatorView::accepted(run_id, worker, urls), events, fresh);
}

/// Nothing follows the end. Once the run's completion has been asked for, or
/// the run has stalled, the coordinator asks for no write and no capture any
/// more, whatever it is told next.
pub proof fn lemma_nothing_follows_the_end(
    run_id: u128,
    worker: Seq<char>,
    urls: Seq<Seq<char>>,
    events: Seq<EventView>,
    fresh: spec_fn(int) -> u128,
    next: EventView,
)
    requires
        ({
            let asked = play(CoordinatorView::accepted(run_id, worker, urls), events, fresh).1;
            completions(asked) == 1 || stalls(asked) == 1
        }),
    ensures
        ({
            let start = CoordinatorView::accepted(run_id, worker, urls);
            let asked = play(start, events.push(next), fresh).1;
            &&& asked.drop_last() == play(start, events, fresh).1
            &&& asked.last() is Finish || asked.last() is Stall || asked.last() is Idle
        }),
{
    let start = CoordinatorView::accepted(run_id, worker, urls);
    lemma_play_is_counted(start, events, fresh);
    assert(events.push(next).drop_last() =~= events);
    assert(play(start, events.push(next), fresh).1.drop_last() =~= play(start, events, fresh).1);
}

} // verus!
