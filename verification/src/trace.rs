//! What holds of the scheduler over one event and over a whole run.
//!
//! A run is a sequence of ticks: one event each, together with the tables
//! as the scheduler saw them at that event. The laws are stated of
//! [`step`] and of [`run`], which is `step` taken tick after tick.

use vstd::prelude::*;
use vstd::multiset::{lemma_multiset_empty_len, Multiset};
use vstd::seq_lib::{lemma_multiset_commutative, to_multiset_build, to_multiset_contains, to_multiset_len, to_multiset_remove, to_multiset_update};
use crate::comm::{CallView, MessageType};
use crate::objtable::available;
use crate::scheduler::{answer, find_next_job, find_next_worker, first_index, invoke_directive, is_first, job_for, pull_directive, runnable_by, step, swap_remove_front, waits_for, waits_for_other, worker_for, DirectiveView, EventView, SchedulerView};
use crate::utils::{ObjRef, WorkerID};

verus! {

/// One event, with the tables as they were when the scheduler took it.
pub struct Tick {
    pub event: EventView,
    pub objtable: Seq<Seq<WorkerID>>,
    pub fntable: Map<Seq<char>, Seq<WorkerID>>,
}

/// The state after the ticks, taken in order from state `s`, and all the
/// directives sent on the way, in the order in which they were sent.
pub open spec fn run(s: SchedulerView, ticks: Seq<Tick>) -> (SchedulerView, Seq<DirectiveView>)
    decreases ticks.len(),
{
    if ticks.len() == 0 {
        (s, Seq::empty())
    } else {
        let (mid, sent) = run(s, ticks.drop_last());
        let last = ticks.last();
        let (next, more) = step(mid, last.event, last.objtable, last.fntable);
        (next, sent + more)
    }
}

/// The directives that ask a worker to run a call.
pub open spec fn is_invoke() -> spec_fn(DirectiveView) -> bool {
    |d: DirectiveView| d.message.field_type == MessageType::Invoke
}

/// The call that a directive carries.
pub open spec fn call_of() -> spec_fn(DirectiveView) -> CallView {
    |d: DirectiveView| d.message.call
}

/// The worker that a directive is meant for.
pub open spec fn worker_of() -> spec_fn(DirectiveView) -> WorkerID {
    |d: DirectiveView| d.worker
}

/// The calls that the directives `out` dispatch, in order.
pub open spec fn dispatched_calls(out: Seq<DirectiveView>) -> Seq<CallView> {
    out.filter(is_invoke()).map_values(call_of())
}

/// The workers that the directives `out` dispatch a call to, in order.
pub open spec fn dispatched_workers(out: Seq<DirectiveView>) -> Seq<WorkerID> {
    out.filter(is_invoke()).map_values(worker_of())
}

/// The job that an event submits: one for a `Job` event, none otherwise.
pub open spec fn submitted(event: EventView) -> Seq<CallView> {
    match event {
        EventView::Job(call) => seq![call],
        _ => Seq::empty(),
    }
}

/// The worker that an event reports idle: one for a `Worker` event, none
/// otherwise.
pub open spec fn reported_idle(event: EventView) -> Seq<WorkerID> {
    match event {
        EventView::Worker(workerid) => seq![workerid],
        _ => Seq::empty(),
    }
}

/// The jobs that the ticks submit, in order.
pub open spec fn all_submitted(ticks: Seq<Tick>) -> Seq<CallView>
    decreases ticks.len(),
{
    if ticks.len() == 0 {
        Seq::empty()
    } else {
        all_submitted(ticks.drop_last()) + submitted(ticks.last().event)
    }
}

/// The workers that the ticks report idle, in order, each as often as it
/// is reported.
pub open spec fn all_reported_idle(ticks: Seq<Tick>) -> Seq<WorkerID>
    decreases ticks.len(),
{
    if ticks.len() == 0 {
        Seq::empty()
    } else {
        all_reported_idle(ticks.drop_last()) + reported_idle(ticks.last().event)
    }
}

/// The item that leaves a queue by `swap_remove_front` is the only one
/// that the queue loses.
pub proof fn lemma_swap_remove_front_keeps_rest<T>(q: Seq<T>, i: int)
    requires
        0 <= i < q.len(),
    ensures
        swap_remove_front(q, i).to_multiset().insert(q[i]) == q.to_multiset(),
        swap_remove_front(q, i).len() == q.len() - 1,
{
    broadcast use vstd::multiset::group_multiset_axioms;

    let u = q.update(i, q[0]);
    to_multiset_update(q, i, q[0]);
    to_multiset_remove(u, 0);
    assert(u.remove(0) =~= u.drop_first());
    to_multiset_contains(q, q[0]);
    to_multiset_contains(q, q[i]);
    assert(q.contains(q[0]));
    assert(q.contains(q[i]));
    assert(swap_remove_front(q, i).to_multiset().insert(q[i]) =~= q.to_multiset());
}

/// The empty sequence holds nothing.
proof fn lemma_empty_multiset<T>()
    ensures
        Seq::<T>::empty().to_multiset() == Multiset::<T>::empty(),
{
    to_multiset_len(Seq::<T>::empty());
    lemma_multiset_empty_len(Seq::<T>::empty().to_multiset());
}

/// Directives of which none dispatches a call dispatch no call and no
/// worker.
proof fn lemma_nothing_dispatched(out: Seq<DirectiveView>)
    requires
        forall|k: int| 0 <= k < out.len() ==> out[k].message.field_type != MessageType::Invoke,
    ensures
        dispatched_calls(out) == Seq::<CallView>::empty(),
        dispatched_workers(out) == Seq::<WorkerID>::empty(),
{
    let p = is_invoke();
    assert forall|k: int| 0 <= k < out.len() implies !p(out[k]) by {}
    out.lemma_all_neg_filter_empty(p);
    assert(out.filter(p) =~= Seq::empty());
    assert(dispatched_calls(out) =~= Seq::<CallView>::empty());
    assert(dispatched_workers(out) =~= Seq::<WorkerID>::empty());
}

/// One directive that dispatches a call dispatches that call to that
/// worker.
proof fn lemma_one_dispatched(workerid: WorkerID, call: CallView)
    ensures
        dispatched_calls(seq![invoke_directive(workerid, call)]) == seq![call],
        dispatched_workers(seq![invoke_directive(workerid, call)]) == seq![workerid],
{
    let d = invoke_directive(workerid, call);
    let p = is_invoke();
    let none = Seq::<DirectiveView>::empty();
    assert(none.filter(p) =~= none) by {
        reveal(Seq::filter);
    }
    none.lemma_filter_push(d, p);
    assert(none.push(d) =~= seq![d]);
    assert(p(d));
    assert(seq![d].filter(p) =~= seq![d]);
    assert(dispatched_calls(seq![d]) =~= seq![call]);
    assert(dispatched_workers(seq![d]) =~= seq![workerid]);
}

/// What is dispatched by two lists of directives one after the other is
/// what the first dispatches followed by what the second dispatches.
proof fn lemma_dispatched_concat(a: Seq<DirectiveView>, b: Seq<DirectiveView>)
    ensures
        dispatched_calls(a + b) == dispatched_calls(a) + dispatched_calls(b),
        dispatched_workers(a + b) == dispatched_workers(a) + dispatched_workers(b),
{
    Seq::filter_distributes_over_add(a, b, is_invoke());
    assert(dispatched_calls(a + b) =~= dispatched_calls(a) + dispatched_calls(b));
    assert(dispatched_workers(a + b) =~= dispatched_workers(a) + dispatched_workers(b));
}

/// The index that a search gives lies in the queue, and the item at it
/// meets what was searched for.
pub proof fn lemma_first_index_found<T>(s: Seq<T>, p: spec_fn(T) -> bool)
    requires
        first_index(s, p) is Some,
    ensures
        is_first(s, p, first_index(s, p)->0),
{
}

/// Dispatch safety. Whenever the scheduler sends a call to a worker, the
/// worker has registered the call's function and every argument of the call
/// is available, in the tables as they are at that event.
pub proof fn lemma_dispatch_safety(
    s: SchedulerView,
    event: EventView,
    objtable: Seq<Seq<WorkerID>>,
    fntable: Map<Seq<char>, Seq<WorkerID>>,
)
    ensures
        forall|k: int|
            0 <= k < step(s, event, objtable, fntable).1.len() && (#[trigger] step(
                s,
                event,
                objtable,
                fntable,
            ).1[k]).message.field_type == MessageType::Invoke ==> runnable_by(
                step(s, event, objtable, fntable).1[k].message.call,
                step(s, event, objtable, fntable).1[k].worker,
                objtable,
                fntable,
            ),
{
    let out = step(s, event, objtable, fntable).1;
    assert forall|k: int|
        0 <= k < out.len() && (#[trigger] out[k]).message.field_type
            == MessageType::Invoke implies runnable_by(
        out[k].message.call,
        out[k].worker,
        objtable,
        fntable,
    ) by {
        match event {
            EventView::Worker(workerid) => {
                let p = job_for(workerid, objtable, fntable);
                lemma_first_index_found(s.job_queue, p);
                let i = find_next_job(s.job_queue, workerid, objtable, fntable)->0;
                assert(p(s.job_queue[i]));
            },
            EventView::Job(call) => {
                let p = worker_for(call, objtable, fntable);
                lemma_first_index_found(s.worker_queue, p);
                let i = find_next_worker(s.worker_queue, call, objtable, fntable)->0;
                assert(p(s.worker_queue[i]));
            },
            EventView::Obj(objref) => {
                let waiting = s.pull_queue.filter(waits_for(objref));
                assert(out[k] == answer()(waiting[k]));
            },
            _ => {},
        }
    }
}

/// No call is dispatched twice, over one event. The calls that the event
/// dispatches and the jobs that are queued after it are, counted with
/// their multiplicity, the jobs that were queued before it and the job that
/// the event submits. So a job that is dispatched has left the queue, and a
/// submitted job is either dispatched or queued, never both.
///
/// Likewise for workers: the workers that are sent a call and the workers
/// that are idle after the event are the workers that were idle before it
/// and the worker that the event reports idle. So a worker joins the idle
/// queue only by its own `Worker` event, once for each.
pub proof fn lemma_step_conserves(
    s: SchedulerView,
    event: EventView,
    objtable: Seq<Seq<WorkerID>>,
    fntable: Map<Seq<char>, Seq<WorkerID>>,
)
    ensures
        dispatched_calls(step(s, event, objtable, fntable).1).to_multiset().add(
            step(s, event, objtable, fntable).0.job_queue.to_multiset(),
        ) == s.job_queue.to_multiset().add(submitted(event).to_multiset()),
        dispatched_workers(step(s, event, objtable, fntable).1).to_multiset().add(
            step(s, event, objtable, fntable).0.worker_queue.to_multiset(),
        ) == s.worker_queue.to_multiset().add(reported_idle(event).to_multiset()),
        dispatched_calls(step(s, event, objtable, fntable).1).len() <= 1,
{
    broadcast use vstd::multiset::group_multiset_axioms;

    let (next, out) = step(s, event, objtable, fntable);
    let none_c = Seq::<CallView>::empty();
    let none_w = Seq::<WorkerID>::empty();
    lemma_empty_multiset::<CallView>();
    lemma_empty_multiset::<WorkerID>();
    match event {
        EventView::Worker(workerid) => {
            to_multiset_build(none_w, workerid);
            assert(none_w.push(workerid) =~= seq![workerid]);
            match find_next_job(s.job_queue, workerid, objtable, fntable) {
                Some(i) => {
                    lemma_first_index_found(s.job_queue, job_for(workerid, objtable, fntable));
                    lemma_one_dispatched(workerid, s.job_queue[i]);
                    lemma_swap_remove_front_keeps_rest(s.job_queue, i);
                    to_multiset_build(none_c, s.job_queue[i]);
                    assert(none_c.push(s.job_queue[i]) =~= seq![s.job_queue[i]]);
                    assert(dispatched_calls(out).to_multiset().add(next.job_queue.to_multiset())
                        =~= s.job_queue.to_multiset().add(submitted(event).to_multiset()));
                    assert(dispatched_workers(out).to_multiset().add(
                        next.worker_queue.to_multiset(),
                    ) =~= s.worker_queue.to_multiset().add(reported_idle(event).to_multiset()));
                },
                None => {
                    lemma_nothing_dispatched(out);
                    to_multiset_build(s.worker_queue, workerid);
                    assert(dispatched_calls(out).to_multiset().add(next.job_queue.to_multiset())
                        =~= s.job_queue.to_multiset().add(submitted(event).to_multiset()));
                    assert(dispatched_workers(out).to_multiset().add(
                        next.worker_queue.to_multiset(),
                    ) =~= s.worker_queue.to_multiset().add(reported_idle(event).to_multiset()));
                },
            }
        },
        EventView::Job(call) => {
            to_multiset_build(none_c, call);
            assert(none_c.push(call) =~= seq![call]);
            match find_next_worker(s.worker_queue, call, objtable, fntable) {
                Some(i) => {
                    lemma_first_index_found(s.worker_queue, worker_for(call, objtable, fntable));
                    lemma_one_dispatched(s.worker_queue[i], call);
                    lemma_swap_remove_front_keeps_rest(s.worker_queue, i);
                    to_multiset_build(none_w, s.worker_queue[i]);
                    assert(none_w.push(s.worker_queue[i]) =~= seq![s.worker_queue[i]]);
                    assert(dispatched_calls(out).to_multiset().add(next.job_queue.to_multiset())
                        =~= s.job_queue.to_multiset().add(submitted(event).to_multiset()));
                    assert(dispatched_workers(out).to_multiset().add(
                        next.worker_queue.to_multiset(),
                    ) =~= s.worker_queue.to_multiset().add(reported_idle(event).to_multiset()));
                },
                None => {
                    lemma_nothing_dispatched(out);
                    to_multiset_build(s.job_queue, call);
                    assert(dispatched_calls(out).to_multiset().add(next.job_queue.to_multiset())
                        =~= s.job_queue.to_multiset().add(submitted(event).to_multiset()));
                    assert(dispatched_workers(out).to_multiset().add(
                        next.worker_queue.to_multiset(),
                    ) =~= s.worker_queue.to_multiset().add(reported_idle(event).to_multiset()));
                },
            }
        },
        EventView::Obj(objref) => {
            let waiting = s.pull_queue.filter(waits_for(objref));
            assert forall|k: int| 0 <= k < out.len() implies out[k].message.field_type
                != MessageType::Invoke by {
                assert(out[k] == answer()(waiting[k]));
            }
            lemma_nothing_dispatched(out);
            assert(dispatched_calls(out).to_multiset().add(next.job_queue.to_multiset())
                =~= s.job_queue.to_multiset().add(submitted(event).to_multiset()));
            assert(dispatched_workers(out).to_multiset().add(next.worker_queue.to_multiset())
                =~= s.worker_queue.to_multiset().add(reported_idle(event).to_multiset()));
        },
        _ => {
            lemma_nothing_dispatched(out);
            assert(dispatched_calls(out).to_multiset().add(next.job_queue.to_multiset())
                =~= s.job_queue.to_multiset().add(submitted(event).to_multiset()));
            assert(dispatched_workers(out).to_multiset().add(next.worker_queue.to_multiset())
                =~= s.worker_queue.to_multiset().add(reported_idle(event).to_multiset()));
        },
    }
}

/// No call is dispatched twice, over a run. The calls dispatched during
/// the run and the jobs queued at its end are, with their multiplicity, the
/// jobs queued at its start and the jobs submitted during it: a call is
/// dispatched at most as often as it was submitted.
///
/// Likewise the workers that were sent a call during the run and the
/// workers idle at its end are the workers idle at its start and the
/// workers reported idle during it.
pub proof fn lemma_run_conserves(s: SchedulerView, ticks: Seq<Tick>)
    ensures
        dispatched_calls(run(s, ticks).1).to_multiset().add(
            run(s, ticks).0.job_queue.to_multiset(),
        ) == s.job_queue.to_multiset().add(all_submitted(ticks).to_multiset()),
        dispatched_workers(run(s, ticks).1).to_multiset().add(
            run(s, ticks).0.worker_queue.to_multiset(),
        ) == s.worker_queue.to_multiset().add(all_reported_idle(ticks).to_multiset()),
    decreases ticks.len(),
{
    broadcast use vstd::multiset::group_multiset_axioms;

    if ticks.len() == 0 {
        lemma_nothing_dispatched(Seq::empty());
        lemma_empty_multiset::<CallView>();
        lemma_empty_multiset::<WorkerID>();
        assert(dispatched_calls(run(s, ticks).1).to_multiset().add(
            run(s, ticks).0.job_queue.to_multiset(),
        ) =~= s.job_queue.to_multiset().add(all_submitted(ticks).to_multiset()));
        assert(dispatched_workers(run(s, ticks).1).to_multiset().add(
            run(s, ticks).0.worker_queue.to_multiset(),
        ) =~= s.worker_queue.to_multiset().add(all_reported_idle(ticks).to_multiset()));
    } else {
        let (mid, sent) = run(s, ticks.drop_last());
        let last = ticks.last();
        let (next, more) = step(mid, last.event, last.objtable, last.fntable);
        lemma_run_conserves(s, ticks.drop_last());
        lemma_step_conserves(mid, last.event, last.objtable, last.fntable);
        lemma_dispatched_concat(sent, more);
        lemma_multiset_commutative(dispatched_calls(sent), dispatched_calls(more));
        lemma_multiset_commutative(dispatched_workers(sent), dispatched_workers(more));
        lemma_multiset_commutative(
            all_submitted(ticks.drop_last()),
            submitted(ticks.last().event),
        );
        lemma_multiset_commutative(
            all_reported_idle(ticks.drop_last()),
            reported_idle(ticks.last().event),
        );
        let calls_before = dispatched_calls(sent).to_multiset();
        let calls_now = dispatched_calls(more).to_multiset();
        let workers_before = dispatched_workers(sent).to_multiset();
        let workers_now = dispatched_workers(more).to_multiset();
        let jobs_mid = mid.job_queue.to_multiset();
        let jobs_end = next.job_queue.to_multiset();
        let idle_mid = mid.worker_queue.to_multiset();
        let idle_end = next.worker_queue.to_multiset();
        let submitted_before = all_submitted(ticks.drop_last()).to_multiset();
        let submitted_now = submitted(last.event).to_multiset();
        let reported_before = all_reported_idle(ticks.drop_last()).to_multiset();
        let reported_now = reported_idle(last.event).to_multiset();
        assert forall|c: CallView|
            calls_before.add(calls_now).add(jobs_end).count(c) == s.job_queue.to_multiset().add(
                submitted_before.add(submitted_now),
            ).count(c) by {
            assert(calls_before.add(jobs_mid).count(c) == s.job_queue.to_multiset().add(
                submitted_before,
            ).count(c));
            assert(calls_now.add(jobs_end).count(c) == jobs_mid.add(submitted_now).count(c));
        }
        assert forall|w: WorkerID|
            workers_before.add(workers_now).add(idle_end).count(w)
                == s.worker_queue.to_multiset().add(reported_before.add(reported_now)).count(
                w,
            ) by {
            assert(workers_before.add(idle_mid).count(w) == s.worker_queue.to_multiset().add(
                reported_before,
            ).count(w));
            assert(workers_now.add(idle_end).count(w) == idle_mid.add(reported_now).count(w));
        }
        assert(dispatched_calls(run(s, ticks).1).to_multiset().add(
            run(s, ticks).0.job_queue.to_multiset(),
        ) =~= s.job_queue.to_multiset().add(all_submitted(ticks).to_multiset()));
        assert(dispatched_workers(run(s, ticks).1).to_multiset().add(
            run(s, ticks).0.worker_queue.to_multiset(),
        ) =~= s.worker_queue.to_multiset().add(all_reported_idle(ticks).to_multiset()));
    }
}

/// A worker stands in the idle queue at most once, as long as it reports
/// itself idle only after it was sent a call: if, over a run from the
/// initial state, a worker has reported idle at most once more often than
/// it was sent a call, the idle queue holds it at most once.
pub proof fn lemma_idle_at_most_once(ticks: Seq<Tick>, workerid: WorkerID)
    requires
        all_reported_idle(ticks).to_multiset().count(workerid) <= dispatched_workers(
            run(SchedulerView::initial(), ticks).1,
        ).to_multiset().count(workerid) + 1,
    ensures
        run(SchedulerView::initial(), ticks).0.worker_queue.to_multiset().count(workerid) <= 1,
{
    broadcast use vstd::multiset::group_multiset_axioms;

    lemma_run_conserves(SchedulerView::initial(), ticks);
    let (end, sent) = run(SchedulerView::initial(), ticks);
    lemma_empty_multiset::<WorkerID>();
    assert(dispatched_workers(sent).to_multiset().add(end.worker_queue.to_multiset()).count(
        workerid,
    ) == Multiset::<WorkerID>::empty().add(all_reported_idle(ticks).to_multiset()).count(
        workerid,
    ));
}

/// A pull request that is queued stays queued over every event but the
/// announcement of its object.
pub proof fn lemma_pull_stays_queued(
    s: SchedulerView,
    event: EventView,
    objtable: Seq<Seq<WorkerID>>,
    fntable: Map<Seq<char>, Seq<WorkerID>>,
    workerid: WorkerID,
    objref: ObjRef,
)
    requires
        s.pull_queue.contains((workerid, objref)),
        event != EventView::Obj(objref),
    ensures
        step(s, event, objtable, fntable).0.pull_queue.contains((workerid, objref)),
{
    let entry = (workerid, objref);
    let i = choose|i: int| 0 <= i < s.pull_queue.len() && s.pull_queue[i] == entry;
    let next = step(s, event, objtable, fntable).0;
    match event {
        EventView::Obj(other) => {
            let p = waits_for_other(other);
            assert(p(entry));
            s.pull_queue.lemma_filter_contains(p, i);
        },
        EventView::Pull(w, r) => {
            if !available(objtable, r) {
                assert(next.pull_queue[i] == entry);
            }
        },
        _ => {},
    }
}

/// The announcement of an object answers every pull request that is queued
/// for it.
pub proof fn lemma_pull_answered(
    s: SchedulerView,
    objtable: Seq<Seq<WorkerID>>,
    fntable: Map<Seq<char>, Seq<WorkerID>>,
    workerid: WorkerID,
    objref: ObjRef,
)
    requires
        s.pull_queue.contains((workerid, objref)),
    ensures
        step(s, EventView::Obj(objref), objtable, fntable).1.contains(
            pull_directive(workerid, objref),
        ),
        !step(s, EventView::Obj(objref), objtable, fntable).0.pull_queue.contains(
            (workerid, objref),
        ),
{
    let entry = (workerid, objref);
    let i = choose|i: int| 0 <= i < s.pull_queue.len() && s.pull_queue[i] == entry;
    let p = waits_for(objref);
    assert(p(entry));
    s.pull_queue.lemma_filter_contains(p, i);
    let waiting = s.pull_queue.filter(p);
    let k = choose|k: int| 0 <= k < waiting.len() && waiting[k] == entry;
    let out = step(s, EventView::Obj(objref), objtable, fntable).1;
    assert(out[k] == pull_directive(workerid, objref));
    let rest = s.pull_queue.filter(waits_for_other(objref));
    if rest.contains(entry) {
        let j = choose|j: int| 0 <= j < rest.len() && rest[j] == entry;
        s.pull_queue.lemma_filter_pred(waits_for_other(objref), j);
    }
}

/// A pull request for an object that is not available is queued.
pub proof fn lemma_pull_deferred(
    s: SchedulerView,
    objtable: Seq<Seq<WorkerID>>,
    fntable: Map<Seq<char>, Seq<WorkerID>>,
    workerid: WorkerID,
    objref: ObjRef,
)
    requires
        !available(objtable, objref),
    ensures
        step(s, EventView::Pull(workerid, objref), objtable, fntable).1.len() == 0,
        step(s, EventView::Pull(workerid, objref), objtable, fntable).0.pull_queue.contains(
            (workerid, objref),
        ),
{
    let next = step(s, EventView::Pull(workerid, objref), objtable, fntable).0;
    assert(next.pull_queue[s.pull_queue.len() as int] == (workerid, objref));
}

/// Pull liveness. Take a run in which tick `k` is a pull request by
/// `workerid` for an object that is not available then, and tick `j` is the
/// first announcement of that object after it. Then the request is still
/// queued when tick `j` comes, and tick `j` sends the worker the directive
/// to pull the object.
pub proof fn lemma_pull_liveness(
    s: SchedulerView,
    ticks: Seq<Tick>,
    k: int,
    j: int,
    workerid: WorkerID,
    objref: ObjRef,
)
    requires
        0 <= k < j < ticks.len(),
        ticks[k].event == EventView::Pull(workerid, objref),
        !available(ticks[k].objtable, objref),
        ticks[j].event == EventView::Obj(objref),
        forall|m: int| k < m < j ==> (#[trigger] ticks[m]).event != EventView::Obj(objref),
    ensures
        run(s, ticks.take(j)).0.pull_queue.contains((workerid, objref)),
        step(
            run(s, ticks.take(j)).0,
            ticks[j].event,
            ticks[j].objtable,
            ticks[j].fntable,
        ).1.contains(pull_directive(workerid, objref)),
{
    lemma_queued_until(s, ticks, k, j, workerid, objref);
    lemma_pull_answered(
        run(s, ticks.take(j)).0,
        ticks[j].objtable,
        ticks[j].fntable,
        workerid,
        objref,
    );
}

/// A pull request that tick `k` queues is still queued before tick `m`,
/// where no tick between the two announces its object.
proof fn lemma_queued_until(
    s: SchedulerView,
    ticks: Seq<Tick>,
    k: int,
    m: int,
    workerid: WorkerID,
    objref: ObjRef,
)
    requires
        0 <= k < m <= ticks.len(),
        ticks[k].event == EventView::Pull(workerid, objref),
        !available(ticks[k].objtable, objref),
        forall|n: int| k < n < m ==> (#[trigger] ticks[n]).event != EventView::Obj(objref),
    ensures
        run(s, ticks.take(m)).0.pull_queue.contains((workerid, objref)),
    decreases m - k,
{
    let before = ticks.take(m - 1);
    assert(ticks.take(m).drop_last() =~= before);
    assert(ticks.take(m).last() == ticks[m - 1]);
    let mid = run(s, before).0;
    if m - 1 == k {
        lemma_pull_deferred(mid, ticks[k].objtable, ticks[k].fntable, workerid, objref);
    } else {
        lemma_queued_until(s, ticks, k, m - 1, workerid, objref);
        lemma_pull_stays_queued(
            mid,
            ticks[m - 1].event,
            ticks[m - 1].objtable,
            ticks[m - 1].fntable,
            workerid,
            objref,
        );
    }
}

} // verus!
