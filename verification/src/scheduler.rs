//! The scheduler: it pairs queued jobs with idle workers and answers pull
//! requests once their objects exist.
//!
//! The scheduler is a state machine. Its state are three queues and the
//! table of directive channels; [`Scheduler::handle_event`] takes one event
//! and returns the directives that the event gives rise to. What the
//! machine does is defined by the spec function [`step`].

use std::collections::VecDeque;
use vstd::prelude::*;
use crate::comm::{calls_view, Call, CallView, Message, MessageType, MessageView, SchedulerInfo, SchedulerInfoView};
use crate::fntable::{can_execute, FnTable};
use crate::objtable::{available, ObjTable};
use crate::utils::{ObjRef, WorkerID};

verus! {

/// Names a directive channel: the handle under which the surroundings keep
/// the sending end that leads to one worker's executor.
pub type ChannelId = usize;

/// Notifies the scheduler that something happened.
#[derive(Debug, PartialEq, Eq)]
pub enum Event {
    /// A worker becomes available for computation.
    Worker(WorkerID),
    /// An object has been returned by a worker.
    Obj(ObjRef),
    /// A job is being scheduled.
    Job(Call),
    /// A pull request was issued.
    Pull(WorkerID, ObjRef),
    /// A new worker has been added, with the channel that leads to it.
    Register(WorkerID, ChannelId),
    /// Dump the status of the scheduler.
    Debug(WorkerID),
}

/// What an [`Event`] stands for in contracts.
pub enum EventView {
    Worker(WorkerID),
    Obj(ObjRef),
    Job(CallView),
    Pull(WorkerID, ObjRef),
    Register(WorkerID, ChannelId),
    Debug(WorkerID),
}

impl View for Event {
    type V = EventView;

    open spec fn view(&self) -> EventView {
        match *self {
            Event::Worker(workerid) => EventView::Worker(workerid),
            Event::Obj(objref) => EventView::Obj(objref),
            Event::Job(call) => EventView::Job(call@),
            Event::Pull(workerid, objref) => EventView::Pull(workerid, objref),
            Event::Register(workerid, channel) => EventView::Register(workerid, channel),
            Event::Debug(workerid) => EventView::Debug(workerid),
        }
    }
}

/// A message together with the worker it is meant for.
#[derive(Debug, PartialEq, Eq)]
pub struct Directive {
    pub worker: WorkerID,
    pub message: Message,
}

/// What a [`Directive`] stands for in contracts.
pub struct DirectiveView {
    pub worker: WorkerID,
    pub message: MessageView,
}

impl View for Directive {
    type V = DirectiveView;

    open spec fn view(&self) -> DirectiveView {
        DirectiveView { worker: self.worker, message: self.message@ }
    }
}

impl Clone for Directive {
    fn clone(&self) -> (res: Self)
        ensures
            res@ == self@,
    {
        Directive { worker: self.worker, message: self.message.clone() }
    }
}

/// The views of the directives in `directives`, in the same order.
pub open spec fn directives_view(directives: Seq<Directive>) -> Seq<DirectiveView> {
    directives.map_values(|d: Directive| d@)
}

/// The directive that asks worker `workerid` to run `call`.
pub open spec fn invoke_directive(workerid: WorkerID, call: CallView) -> DirectiveView {
    DirectiveView { worker: workerid, message: MessageView::invoke(call) }
}

/// The directive that has `objref` brought to worker `workerid`.
pub open spec fn pull_directive(workerid: WorkerID, objref: ObjRef) -> DirectiveView {
    DirectiveView { worker: workerid, message: MessageView::pull(workerid, objref) }
}

/// The directive that shows worker `workerid` the two queues.
pub open spec fn debug_directive(
    workerid: WorkerID,
    worker_queue: Seq<WorkerID>,
    job_queue: Seq<CallView>,
) -> DirectiveView {
    DirectiveView {
        worker: workerid,
        message: MessageView::debug(SchedulerInfoView { worker_queue, job_queue }),
    }
}

/// Every argument of `call` is available.
pub open spec fn can_run(call: CallView, objtable: Seq<Seq<WorkerID>>) -> bool {
    forall|k: int| 0 <= k < call.args.len() ==> available(objtable, #[trigger] call.args[k])
}

/// Worker `workerid` may be given `call` now: it has registered the
/// function, and every argument is available.
pub open spec fn runnable_by(
    call: CallView,
    workerid: WorkerID,
    objtable: Seq<Seq<WorkerID>>,
    fntable: Map<Seq<char>, Seq<WorkerID>>,
) -> bool {
    can_execute(fntable, call.name, workerid) && can_run(call, objtable)
}

/// `i` is the first index of `s` whose item meets `p`.
pub open spec fn is_first<T>(s: Seq<T>, p: spec_fn(T) -> bool, i: int) -> bool {
    &&& 0 <= i < s.len()
    &&& p(s[i])
    &&& forall|j: int| 0 <= j < i ==> !p(#[trigger] s[j])
}

/// The first index of `s` whose item meets `p`, if there is one.
pub open spec fn first_index<T>(s: Seq<T>, p: spec_fn(T) -> bool) -> Option<int> {
    if exists|i: int| is_first(s, p, i) {
        Some(choose|i: int| is_first(s, p, i))
    } else {
        None
    }
}

/// The jobs that worker `workerid` may be given now.
pub open spec fn job_for(
    workerid: WorkerID,
    objtable: Seq<Seq<WorkerID>>,
    fntable: Map<Seq<char>, Seq<WorkerID>>,
) -> spec_fn(CallView) -> bool {
    |call: CallView| runnable_by(call, workerid, objtable, fntable)
}

/// The workers that may be given `call` now.
pub open spec fn worker_for(
    call: CallView,
    objtable: Seq<Seq<WorkerID>>,
    fntable: Map<Seq<char>, Seq<WorkerID>>,
) -> spec_fn(WorkerID) -> bool {
    |workerid: WorkerID| runnable_by(call, workerid, objtable, fntable)
}

/// The index of the first queued job that worker `workerid` may be given.
pub open spec fn find_next_job(
    job_queue: Seq<CallView>,
    workerid: WorkerID,
    objtable: Seq<Seq<WorkerID>>,
    fntable: Map<Seq<char>, Seq<WorkerID>>,
) -> Option<int> {
    first_index(job_queue, job_for(workerid, objtable, fntable))
}

/// The index of the first idle worker that may be given `call`.
pub open spec fn find_next_worker(
    worker_queue: Seq<WorkerID>,
    call: CallView,
    objtable: Seq<Seq<WorkerID>>,
    fntable: Map<Seq<char>, Seq<WorkerID>>,
) -> Option<int> {
    first_index(worker_queue, worker_for(call, objtable, fntable))
}

/// The queue after the item at `i` has left it: the front item takes its
/// place, and the queue loses its front.
pub open spec fn swap_remove_front<T>(q: Seq<T>, i: int) -> Seq<T> {
    q.update(i, q[0]).drop_first()
}

/// The pull requests that wait for `objref`.
pub open spec fn waits_for(objref: ObjRef) -> spec_fn((WorkerID, ObjRef)) -> bool {
    |entry: (WorkerID, ObjRef)| entry.1 == objref
}

/// The pull requests that wait for another object than `objref`.
pub open spec fn waits_for_other(objref: ObjRef) -> spec_fn((WorkerID, ObjRef)) -> bool {
    |entry: (WorkerID, ObjRef)| entry.1 != objref
}

/// The directive that answers a pull request.
pub open spec fn answer() -> spec_fn((WorkerID, ObjRef)) -> DirectiveView {
    |entry: (WorkerID, ObjRef)| pull_directive(entry.0, entry.1)
}

/// The channel table after `channel` has been bound for worker `workerid`:
/// the table is grown with `channel` until it has a slot for the worker,
/// and the worker's slot holds `channel`.
pub open spec fn bind_channel(
    channels: Seq<ChannelId>,
    workerid: WorkerID,
    channel: ChannelId,
) -> Seq<ChannelId> {
    if workerid < channels.len() {
        channels.update(workerid as int, channel)
    } else {
        channels + Seq::new((workerid + 1 - channels.len()) as nat, |i: int| channel)
    }
}

/// What a [`Scheduler`] stands for in contracts.
pub struct SchedulerView {
    /// For each worker id that has a slot, the channel bound to it.
    pub channels: Seq<ChannelId>,
    /// The idle workers, the longest waiting first.
    pub worker_queue: Seq<WorkerID>,
    /// The jobs that wait for a worker or for their arguments.
    pub job_queue: Seq<CallView>,
    /// The pull requests whose object was not available when they came.
    pub pull_queue: Seq<(WorkerID, ObjRef)>,
}

impl SchedulerView {
    /// The scheduler before any event.
    pub open spec fn initial() -> SchedulerView {
        SchedulerView {
            channels: Seq::empty(),
            worker_queue: Seq::empty(),
            job_queue: Seq::empty(),
            pull_queue: Seq::empty(),
        }
    }
}

/// What the scheduler does with one event: the state after it, and the
/// directives it sends, in the order in which it sends them.
///
/// - `Worker`: the first queued job that the worker may be given leaves the
///   job queue and is sent to the worker; without such a job the worker
///   joins the idle queue.
/// - `Job`: the first idle worker that may be given the job leaves the idle
///   queue and is sent the job; without such a worker the job is queued.
/// - `Obj`: every pull request that waits for the object is answered, in
///   queue order, and leaves the pull queue.
/// - `Pull`: answered at once where the object is available, else queued.
/// - `Register`: binds the channel.
/// - `Debug`: sends the worker a snapshot of the idle queue and the job
///   queue.
pub open spec fn step(
    s: SchedulerView,
    event: EventView,
    objtable: Seq<Seq<WorkerID>>,
    fntable: Map<Seq<char>, Seq<WorkerID>>,
) -> (SchedulerView, Seq<DirectiveView>) {
    match event {
        EventView::Worker(workerid) => match find_next_job(
            s.job_queue,
            workerid,
            objtable,
            fntable,
        ) {
            Some(i) => (
                SchedulerView { job_queue: swap_remove_front(s.job_queue, i), ..s },
                seq![invoke_directive(workerid, s.job_queue[i])],
            ),
            None => (
                SchedulerView { worker_queue: s.worker_queue.push(workerid), ..s },
                Seq::empty(),
            ),
        },
        EventView::Job(call) => match find_next_worker(s.worker_queue, call, objtable, fntable) {
            Some(i) => (
                SchedulerView { worker_queue: swap_remove_front(s.worker_queue, i), ..s },
                seq![invoke_directive(s.worker_queue[i], call)],
            ),
            None => (SchedulerView { job_queue: s.job_queue.push(call), ..s }, Seq::empty()),
        },
        EventView::Obj(objref) => (
            SchedulerView { pull_queue: s.pull_queue.filter(waits_for_other(objref)), ..s },
            s.pull_queue.filter(waits_for(objref)).map_values(answer()),
        ),
        EventView::Pull(workerid, objref) => if available(objtable, objref) {
            (s, seq![pull_directive(workerid, objref)])
        } else {
            (
                SchedulerView { pull_queue: s.pull_queue.push((workerid, objref)), ..s },
                Seq::empty(),
            )
        },
        EventView::Register(workerid, channel) => (
            SchedulerView { channels: bind_channel(s.channels, workerid, channel), ..s },
            Seq::empty(),
        ),
        EventView::Debug(workerid) => (
            s,
            seq![debug_directive(workerid, s.worker_queue, s.job_queue)],
        ),
    }
}

/// An index that is first is the one that `first_index` gives.
pub proof fn lemma_first_index<T>(s: Seq<T>, p: spec_fn(T) -> bool, i: int)
    requires
        is_first(s, p, i),
    ensures
        first_index(s, p) == Some(i),
{
    let c = choose|c: int| is_first(s, p, c);
    assert(is_first(s, p, c));
    if c < i {
        assert(!p(s[c]));
    } else if i < c {
        assert(!p(s[i]));
    }
}

/// Where no item meets `p`, `first_index` gives none.
pub proof fn lemma_first_index_none<T>(s: Seq<T>, p: spec_fn(T) -> bool)
    requires
        forall|j: int| 0 <= j < s.len() ==> !p(#[trigger] s[j]),
    ensures
        first_index(s, p) is None,
{
}

/// `VecDeque::swap_remove_front`. Claimed of it: with `index` inside the
/// queue it returns the item at `index`, moves the front item to `index`
/// and drops the front; with `index` outside the queue it returns `None`
/// and leaves the queue as it was.
#[verifier::external_body]
fn deque_swap_remove_front<T>(queue: &mut VecDeque<T>, index: usize) -> (item: Option<T>)
    ensures
        index < old(queue)@.len() ==> item == Some(old(queue)@[index as int]) && final(queue)@
            == swap_remove_front(old(queue)@, index as int),
        index >= old(queue)@.len() ==> item is None && final(queue)@ == old(queue)@,
{
    queue.swap_remove_front(index)
}

/// A scheduler assigns incoming jobs to workers. It is told of jobs, idle
/// workers, new objects and pull requests by events, and answers each event
/// with the directives to send.
pub struct Scheduler {
    workers: Vec<ChannelId>,
    worker_queue: VecDeque<WorkerID>,
    job_queue: VecDeque<Call>,
    pull_queue: VecDeque<(WorkerID, ObjRef)>,
}

impl View for Scheduler {
    type V = SchedulerView;

    closed spec fn view(&self) -> SchedulerView {
        SchedulerView {
            channels: self.workers@,
            worker_queue: self.worker_queue@,
            job_queue: calls_view(self.job_queue@),
            pull_queue: self.pull_queue@,
        }
    }
}

impl Scheduler {
    /// The scheduler before any event: no channel is bound and the queues
    /// are empty.
    pub fn start() -> (scheduler: Scheduler)
        ensures
            scheduler@ == SchedulerView::initial(),
    {
        let scheduler = Scheduler {
            workers: Vec::new(),
            worker_queue: VecDeque::new(),
            job_queue: VecDeque::new(),
            pull_queue: VecDeque::new(),
        };
        assert(scheduler@.job_queue =~= Seq::empty());
        scheduler
    }

    /// The directive that asks worker `workerid` to run `job`.
    pub fn send_function_call(workerid: WorkerID, job: Call) -> (directive: Directive)
        ensures
            directive@ == invoke_directive(workerid, job@),
    {
        Directive { worker: workerid, message: Message::invoke(job) }
    }

    /// The directive that has `objref` brought to worker `workerid`.
    pub fn send_pull_request(workerid: WorkerID, objref: ObjRef) -> (directive: Directive)
        ensures
            directive@ == pull_directive(workerid, objref),
    {
        Directive { worker: workerid, message: Message::pull(workerid, objref) }
    }

    /// The directive that shows worker `workerid` the idle queue and the
    /// job queue, each from front to back.
    pub fn send_debugging_info(
        workerid: WorkerID,
        worker_queue: &VecDeque<WorkerID>,
        job_queue: &VecDeque<Call>,
    ) -> (directive: Directive)
        ensures
            directive@ == debug_directive(workerid, worker_queue@, calls_view(job_queue@)),
    {
        let mut idle: Vec<WorkerID> = Vec::new();
        let mut i: usize = 0;
        while i < worker_queue.len()
            invariant
                i <= worker_queue@.len(),
                idle@ == worker_queue@.take(i as int),
            decreases worker_queue@.len() - i,
        {
            idle.push(worker_queue[i]);
            assert(idle@ =~= worker_queue@.take(i + 1));
            i += 1;
        }
        assert(idle@ =~= worker_queue@);
        let mut jobs: Vec<Call> = Vec::new();
        let mut k: usize = 0;
        while k < job_queue.len()
            invariant
                k <= job_queue@.len(),
                jobs@.len() == k,
                forall|j: int| 0 <= j < k ==> jobs@[j]@ == job_queue@[j]@,
            decreases job_queue@.len() - k,
        {
            jobs.push(job_queue[k].clone());
            k += 1;
        }
        assert(calls_view(jobs@) =~= calls_view(job_queue@));
        let info = SchedulerInfo { worker_queue: idle, job_queue: jobs };
        Directive { worker: workerid, message: Message::debug(info) }
    }

    /// Whether every argument of `job` is available.
    pub fn can_run(job: &Call, objtable: &ObjTable) -> (res: bool)
        ensures
            res == can_run(job@, objtable@),
    {
        let mut k: usize = 0;
        while k < job.args.len()
            invariant
                k <= job.args@.len(),
                forall|j: int| 0 <= j < k ==> available(objtable@, #[trigger] job.args@[j]),
            decreases job.args@.len() - k,
        {
            if !objtable.is_available(job.args[k]) {
                assert(!available(objtable@, job@.args[k as int]));
                return false;
            }
            k += 1;
        }
        true
    }

    /// Finds the first queued job that worker `workerid` may be given.
    pub fn find_next_job(&self, workerid: WorkerID, objtable: &ObjTable, fntable: &FnTable) -> (res:
        Option<usize>)
        requires
            fntable.wf(),
        ensures
            match res {
                Some(i) => find_next_job(self@.job_queue, workerid, objtable@, fntable@) == Some(
                    i as int,
                ),
                None => find_next_job(self@.job_queue, workerid, objtable@, fntable@) is None,
            },
    {
        let ghost p = job_for(workerid, objtable@, fntable@);
        let mut i: usize = 0;
        while i < self.job_queue.len()
            invariant
                i <= self.job_queue@.len(),
                fntable.wf(),
                p == job_for(workerid, objtable@, fntable@),
                self@.job_queue.len() == self.job_queue@.len(),
                forall|j: int| 0 <= j < i ==> !p(#[trigger] self@.job_queue[j]),
            decreases self.job_queue@.len() - i,
        {
            let job = &self.job_queue[i];
            assert(self@.job_queue[i as int] == job@);
            if fntable.can_execute(job.name.as_str(), workerid) && Scheduler::can_run(
                job,
                objtable,
            ) {
                proof {
                    assert(p(self@.job_queue[i as int]));
                    lemma_first_index(self@.job_queue, p, i as int);
                }
                return Some(i);
            }
            i += 1;
        }
        proof {
            lemma_first_index_none(self@.job_queue, p);
        }
        None
    }

    /// Finds the first idle worker that may be given `job`.
    pub fn find_next_worker(&self, job: &Call, objtable: &ObjTable, fntable: &FnTable) -> (res:
        Option<usize>)
        requires
            fntable.wf(),
        ensures
            match res {
                Some(i) => find_next_worker(self@.worker_queue, job@, objtable@, fntable@) == Some(
                    i as int,
                ),
                None => find_next_worker(self@.worker_queue, job@, objtable@, fntable@) is None,
            },
    {
        let ghost p = worker_for(job@, objtable@, fntable@);
        let mut i: usize = 0;
        while i < self.worker_queue.len()
            invariant
                i <= self.worker_queue@.len(),
                fntable.wf(),
                p == worker_for(job@, objtable@, fntable@),
                self@.worker_queue == self.worker_queue@,
                forall|j: int| 0 <= j < i ==> !p(#[trigger] self@.worker_queue[j]),
            decreases self.worker_queue@.len() - i,
        {
            let workerid = self.worker_queue[i];
            if fntable.can_execute(job.name.as_str(), workerid) && Scheduler::can_run(
                job,
                objtable,
            ) {
                proof {
                    assert(p(self@.worker_queue[i as int]));
                    lemma_first_index(self@.worker_queue, p, i as int);
                }
                return Some(i);
            }
            i += 1;
        }
        proof {
            lemma_first_index_none(self@.worker_queue, p);
        }
        None
    }

    /// Binds `channel` for worker `workerid`: the channel table grows with
    /// `channel` until it has a slot for the worker, and the worker's slot is
    /// set to `channel`.
    fn bind(workers: &mut Vec<ChannelId>, workerid: WorkerID, channel: ChannelId)
        ensures
            final(workers)@ == bind_channel(old(workers)@, workerid, channel),
    {
        let ghost before = workers@;
        if workerid < workers.len() {
            workers.set(workerid, channel);
        } else {
            while workers.len() <= workerid
                invariant
                    before.len() <= workers@.len() <= workerid + 1,
                    workers@ == before + Seq::new(
                        (workers@.len() - before.len()) as nat,
                        |i: int| channel,
                    ),
                decreases workerid + 1 - workers@.len(),
            {
                let ghost grown = workers@;
                workers.push(channel);
                assert(workers@ =~= before + Seq::new(
                    (grown.len() + 1 - before.len()) as nat,
                    |i: int| channel,
                ));
            }
        }
    }

    /// Answers the pull requests that wait for `objref`, in queue order, and
    /// takes them out of the queue; the other requests keep their order.
    fn answer_pulls(pull_queue: &mut VecDeque<(WorkerID, ObjRef)>, objref: ObjRef) -> (out: Vec<
        Directive,
    >)
        ensures
            final(pull_queue)@ == old(pull_queue)@.filter(waits_for_other(objref)),
            directives_view(out@) == old(pull_queue)@.filter(waits_for(objref)).map_values(
                answer(),
            ),
    {
        let ghost before = pull_queue@;
        let mut remaining: VecDeque<(WorkerID, ObjRef)> = VecDeque::new();
        let mut out: Vec<Directive> = Vec::new();
        let mut i: usize = 0;
        assert(before.take(0) =~= Seq::empty());
        assert(before.take(0).filter(waits_for(objref)) =~= Seq::empty()) by {
            reveal(Seq::filter);
        }
        assert(before.take(0).filter(waits_for_other(objref)) =~= Seq::empty()) by {
            reveal(Seq::filter);
        }
        assert(directives_view(out@) =~= before.take(0).filter(waits_for(objref)).map_values(
            answer(),
        ));
        while i < pull_queue.len()
            invariant
                i <= before.len(),
                pull_queue@ == before,
                remaining@ == before.take(i as int).filter(waits_for_other(objref)),
                directives_view(out@) == before.take(i as int).filter(
                    waits_for(objref),
                ).map_values(answer()),
            decreases before.len() - i,
        {
            let entry = pull_queue[i];
            let ghost seen = before.take(i as int);
            let ghost sent = directives_view(out@);
            proof {
                assert(before.take(i + 1) =~= seen.push(entry));
                seen.lemma_filter_push(entry, waits_for(objref));
                seen.lemma_filter_push(entry, waits_for_other(objref));
            }
            if entry.1 == objref {
                out.push(Scheduler::send_pull_request(entry.0, entry.1));
                assert(directives_view(out@) =~= sent.push(pull_directive(entry.0, entry.1)));
                assert(seen.filter(waits_for(objref)).push(entry).map_values(answer())
                    =~= seen.filter(waits_for(objref)).map_values(answer()).push(
                    pull_directive(entry.0, entry.1),
                ));
            } else {
                remaining.push_back(entry);
            }
            i += 1;
        }
        assert(before.take(before.len() as int) =~= before);
        *pull_queue = remaining;
        out
    }

    /// Takes one event and returns the directives to send, in order; the
    /// queues and the channel table go from one state of [`step`] to the
    /// next.
    ///
    /// A directive names the worker it is meant for; [`Scheduler::channel`]
    /// gives the channel on which to send it. A pull request that has been
    /// answered leaves the pull queue, so that an object that is announced
    /// twice is not pulled twice for one request.
    pub fn handle_event(&mut self, event: Event, objtable: &ObjTable, fntable: &FnTable) -> (out:
        Vec<Directive>)
        requires
            fntable.wf(),
        ensures
            (final(self)@, directives_view(out@)) == step(
                old(self)@,
                event@,
                objtable@,
                fntable@,
            ),
    {
        let mut out: Vec<Directive> = Vec::new();
        let ghost before = self@;
        let ghost expected = step(before, event@, objtable@, fntable@);
        match event {
            Event::Worker(workerid) => {
                match self.find_next_job(workerid, objtable, fntable) {
                    Some(jobidx) => {
                        let ghost jobs = self.job_queue@;
                        let job = deque_swap_remove_front(&mut self.job_queue, jobidx).unwrap();
                        out.push(Scheduler::send_function_call(workerid, job));
                        assert(self@.job_queue =~= swap_remove_front(
                            before.job_queue,
                            jobidx as int,
                        ));
                        assert(directives_view(out@) =~= expected.1);
                    },
                    None => {
                        self.worker_queue.push_back(workerid);
                        assert(directives_view(out@) =~= expected.1);
                    },
                }
            },
            Event::Job(job) => {
                match self.find_next_worker(&job, objtable, fntable) {
                    Some(workeridx) => {
                        let workerid = deque_swap_remove_front(
                            &mut self.worker_queue,
                            workeridx,
                        ).unwrap();
                        out.push(Scheduler::send_function_call(workerid, job));
                        assert(directives_view(out@) =~= expected.1);
                    },
                    None => {
                        self.job_queue.push_back(job);
                        assert(self@.job_queue =~= before.job_queue.push(job@));
                        assert(directives_view(out@) =~= expected.1);
                    },
                }
            },
            Event::Obj(newobjref) => {
                out = Scheduler::answer_pulls(&mut self.pull_queue, newobjref);
            },
            Event::Pull(workerid, objref) => {
                if objtable.is_available(objref) {
                    out.push(Scheduler::send_pull_request(workerid, objref));
                    assert(directives_view(out@) =~= expected.1);
                } else {
                    self.pull_queue.push_back((workerid, objref));
                    assert(directives_view(out@) =~= expected.1);
                }
            },
            Event::Register(workerid, incoming) => {
                Scheduler::bind(&mut self.workers, workerid, incoming);
                assert(directives_view(out@) =~= expected.1);
            },
            Event::Debug(workerid) => {
                out.push(
                    Scheduler::send_debugging_info(workerid, &self.worker_queue, &self.job_queue),
                );
                assert(directives_view(out@) =~= expected.1);
            },
        }
        out
    }

    /// The idle workers, the longest waiting first.
    pub fn worker_queue(&self) -> (res: Vec<WorkerID>)
        ensures
            res@ == self@.worker_queue,
    {
        let mut res: Vec<WorkerID> = Vec::new();
        let mut i: usize = 0;
        while i < self.worker_queue.len()
            invariant
                i <= self.worker_queue@.len(),
                res@ == self.worker_queue@.take(i as int),
            decreases self.worker_queue@.len() - i,
        {
            res.push(self.worker_queue[i]);
            assert(res@ =~= self.worker_queue@.take(i + 1));
            i += 1;
        }
        assert(res@ =~= self.worker_queue@);
        res
    }

    /// The queued jobs, the longest waiting first.
    pub fn job_queue(&self) -> (res: Vec<Call>)
        ensures
            calls_view(res@) == self@.job_queue,
    {
        let mut res: Vec<Call> = Vec::new();
        let mut i: usize = 0;
        while i < self.job_queue.len()
            invariant
                i <= self.job_queue@.len(),
                res@.len() == i,
                forall|j: int| 0 <= j < i ==> res@[j]@ == self.job_queue@[j]@,
            decreases self.job_queue@.len() - i,
        {
            res.push(self.job_queue[i].clone());
            i += 1;
        }
        assert(calls_view(res@) =~= self@.job_queue);
        res
    }

    /// The queued pull requests, the longest waiting first.
    pub fn pull_queue(&self) -> (res: Vec<(WorkerID, ObjRef)>)
        ensures
            res@ == self@.pull_queue,
    {
        let mut res: Vec<(WorkerID, ObjRef)> = Vec::new();
        let mut i: usize = 0;
        while i < self.pull_queue.len()
            invariant
                i <= self.pull_queue@.len(),
                res@ == self.pull_queue@.take(i as int),
            decreases self.pull_queue@.len() - i,
        {
            res.push(self.pull_queue[i]);
            assert(res@ =~= self.pull_queue@.take(i + 1));
            i += 1;
        }
        assert(res@ =~= self.pull_queue@);
        res
    }

    /// The channel bound for worker `workerid`, if its slot exists.
    pub fn channel(&self, workerid: WorkerID) -> (res: Option<ChannelId>)
        ensures
            res == if workerid < self@.channels.len() {
                Some(self@.channels[workerid as int])
            } else {
                None
            },
    {
        if workerid < self.workers.len() {
            Some(self.workers[workerid])
        } else {
            None
        }
    }
}

} // verus!
